//! An encrypted, single-user credential store.
//!
//! A passphrase is stretched into a key, the records are encoded as text and
//! sealed under that key, and the sealed bytes are what a caller keeps on disk.
//! The library never touches the file system: it hands out and takes in bytes.

pub mod error;
pub mod entry;
pub mod store;
pub mod data;
pub mod codec;
pub mod encryption;
pub mod generator;

pub use data::PasswordManager;
pub use encryption::Key;
pub use entry::Entry;
pub use error::VaultError;
