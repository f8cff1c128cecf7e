//! The failures that the store can report.

use vstd::prelude::*;

verus! {

/// Every failure is an ordinary value handed back to the caller.
#[derive(Clone, Copy, Debug, PartialEq, Eq, Structural)]
pub enum VaultError {
    /// There is no file to open.
    FileNotFound,
    /// A file is already there and would be overwritten.
    AlreadyExists,
    /// The file system refused a read or a write.
    IOFailure,
    /// The sealed bytes are too short to hold a nonce.
    MalformedBlob,
    /// The authentication tag does not match the key and the bytes.
    AuthenticationFailure,
    /// The file cannot be unlocked: wrong passphrase or damaged contents.
    IncorrectKeyOrCorruptData,
    /// The bytes are not the encoding of a valid set of records.
    DecodeError,
    /// No record has the site that was asked for.
    NotFound,
    /// An argument is outside what the operation accepts.
    InvalidArgument,
}

} // verus!
