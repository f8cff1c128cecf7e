//! The vault: the records of one file together with the key that unlocks it.
//!
//! The vault never reads or writes a file. Opening takes the bytes that the
//! caller read; saving returns the bytes that the caller is to write.

use vstd::prelude::*;
use crate::codec::{decode, decoded, encode, is_encoding_of, json_text, rows_of};
use crate::encryption::{is_sealing_of, opened_blob, Key, PLAINTEXT_MAX};
use crate::entry::{Entry, EntryView};
use crate::error::VaultError;
use crate::generator::{character_set, drawn_from, random_password};
use crate::store::{
    edited, found, has_site, password_assigned, removed, text_of, upserted, valid_records,
    RecordStore, Upsert,
};

verus! {

/// Whether the bytes handed over stand for a file that is there. A file
/// without bytes counts as no file.
pub open spec fn file_present(contents: Option<&[u8]>) -> bool {
    match contents {
        Some(bytes) => bytes@.len() > 0,
        None => false,
    }
}

/// The text that a vault with these records seals.
pub open spec fn encoding(records: Seq<EntryView>) -> Seq<u8> {
    json_text(rows_of(records))
}

/// `blob` is what saving `records` under `key` may give: a sealing of their
/// encoding.
pub open spec fn is_saved_form(blob: Seq<u8>, key: Seq<u8>, records: Seq<EntryView>) -> bool {
    &&& is_encoding_of(encoding(records), records)
    &&& is_sealing_of(blob, key, encoding(records))
}

/// What unlocking `blob` with `key` gives. Whatever goes wrong, a blob that
/// does not open or a text that does not decode, is reported in the same way.
pub open spec fn unlocked(key: Seq<u8>, blob: Seq<u8>) -> Result<Seq<EntryView>, VaultError> {
    match opened_blob(key, blob) {
        Ok(text) => match decoded(text) {
            Ok(records) => Ok(records),
            Err(_) => Err(VaultError::IncorrectKeyOrCorruptData),
        },
        Err(_) => Err(VaultError::IncorrectKeyOrCorruptData),
    }
}

/// What opening a file with a passphrase gives.
pub open spec fn loaded(passphrase: Seq<u8>, contents: Option<&[u8]>) -> Result<
    Seq<EntryView>,
    VaultError,
> {
    match contents {
        Some(bytes) if bytes@.len() > 0 => unlocked(Key::derived(passphrase), bytes@),
        _ => Err(VaultError::FileNotFound),
    }
}

/// Saved records come back: unlocking what was saved, with the key it was
/// saved under, gives the same records in the same order.
pub proof fn lemma_saved_form_unlocks(blob: Seq<u8>, key: Seq<u8>, records: Seq<EntryView>)
    requires
        valid_records(records),
        is_saved_form(blob, key, records),
    ensures
        unlocked(key, blob) == Ok::<Seq<EntryView>, VaultError>(records),
{
    crate::codec::lemma_decode_inverts_encode(encoding(records), records);
}

/// A saved file opens again: loading what was saved under the key of a
/// passphrase, with that passphrase, gives the same records in the same order.
pub proof fn lemma_saved_file_loads(blob: &[u8], passphrase: Seq<u8>, records: Seq<EntryView>)
    requires
        valid_records(records),
        is_saved_form(blob@, Key::derived(passphrase), records),
    ensures
        loaded(passphrase, Some(blob)) == Ok::<Seq<EntryView>, VaultError>(records),
{
    lemma_saved_form_unlocks(blob@, Key::derived(passphrase), records);
}

/// The records of one file and the key derived from its passphrase.
pub struct PasswordManager {
    store: RecordStore,
    key: Key,
    filename: String,
}

impl PasswordManager {
    /// The records that the vault holds.
    pub closed spec fn records(&self) -> Seq<EntryView> {
        self.store@
    }

    /// The bytes of the vault's key.
    pub closed spec fn key_bytes(&self) -> Seq<u8> {
        self.key@
    }

    /// The name of the vault's file.
    pub closed spec fn file_name(&self) -> Seq<char> {
        self.filename@
    }

    /// Key and file name are those of `other`.
    pub open spec fn same_file_as(&self, other: &Self) -> bool {
        self.key_bytes() == other.key_bytes() && self.file_name() == other.file_name()
    }

    /// A vault without records for the named file, with the key that the
    /// passphrase gives.
    pub fn new(filename: &str, key: Vec<u8>) -> (manager: Self)
        ensures
            manager.records() == Seq::<EntryView>::empty(),
            manager.key_bytes() == Key::derived(key@),
            manager.file_name() == filename@,
    {
        PasswordManager {
            store: RecordStore::new(),
            key: Key::derive_key(key.as_slice()),
            filename: filename.to_owned(),
        }
    }

    /// The name of the vault's file.
    pub fn filename(&self) -> (name: &str)
        ensures
            name@ == self.file_name(),
    {
        self.filename.as_str()
    }

    /// Seals the records for a file that is not there yet and returns the
    /// bytes to write. `existing` is what the file holds now, if it is there:
    /// a file with contents is never overwritten.
    pub fn create_new_file(&self, existing: Option<&[u8]>) -> (bytes: Result<Vec<u8>, VaultError>)
        ensures
            bytes is Ok <==> !file_present(existing) && encoding(self.records()).len()
                <= PLAINTEXT_MAX,
            match bytes {
                Ok(blob) => {
                    &&& is_saved_form(blob@, self.key_bytes(), self.records())
                    &&& unlocked(self.key_bytes(), blob@) == Ok::<Seq<EntryView>, VaultError>(
                        self.records(),
                    )
                },
                Err(e) => if file_present(existing) {
                    e == VaultError::AlreadyExists
                } else {
                    e == VaultError::InvalidArgument
                },
            },
    {
        match existing {
            Some(bytes) => {
                if bytes.len() > 0 {
                    return Err(VaultError::AlreadyExists);
                }
            },
            None => {},
        }
        self.save_passwords()
    }

    /// Opens a file: derives the key from the passphrase, unlocks the bytes
    /// and decodes the records. `contents` is what the file holds, if it is
    /// there.
    pub fn load_data(filename: &str, key: Vec<u8>, contents: Option<&[u8]>) -> (opened: Result<
        Self,
        VaultError,
    >)
        ensures
            match opened {
                Ok(manager) => {
                    &&& loaded(key@, contents) == Ok::<Seq<EntryView>, VaultError>(
                        manager.records(),
                    )
                    &&& valid_records(manager.records())
                    &&& manager.key_bytes() == Key::derived(key@)
                    &&& manager.file_name() == filename@
                },
                Err(e) => loaded(key@, contents) == Err::<Seq<EntryView>, VaultError>(e),
            },
    {
        let bytes = match contents {
            Some(bytes) => bytes,
            None => {
                return Err(VaultError::FileNotFound);
            },
        };
        if bytes.len() == 0 {
            return Err(VaultError::FileNotFound);
        }
        let key = Key::derive_key(key.as_slice());
        let text = match key.decrypt(bytes) {
            Ok(text) => text,
            Err(_) => {
                return Err(VaultError::IncorrectKeyOrCorruptData);
            },
        };
        match decode(text.as_slice()) {
            Ok(store) => Ok(PasswordManager { store, key, filename: filename.to_owned() }),
            Err(_) => Err(VaultError::IncorrectKeyOrCorruptData),
        }
    }

    /// Seals the records under a fresh nonce and returns the bytes to write.
    /// Fails exactly when the encoded records are longer than the cipher
    /// accepts. The vault itself is left as it is.
    pub fn save_passwords(&self) -> (bytes: Result<Vec<u8>, VaultError>)
        ensures
            bytes is Ok <==> encoding(self.records()).len() <= PLAINTEXT_MAX,
            match bytes {
                Ok(blob) => {
                    &&& is_saved_form(blob@, self.key_bytes(), self.records())
                    &&& unlocked(self.key_bytes(), blob@) == Ok::<Seq<EntryView>, VaultError>(
                        self.records(),
                    )
                },
                Err(e) => e == VaultError::InvalidArgument,
            },
    {
        let text = encode(&self.store);
        let sealed = self.key.encrypt(text.as_slice());
        proof {
            if sealed is Ok {
                lemma_saved_form_unlocks(sealed->Ok_0@, self.key_bytes(), self.records());
            }
        }
        sealed
    }

    /// Adds a record for `site`, or overwrites the one that is there: the
    /// username always, the password where one is given.
    pub fn add_entry(&mut self, site: &str, username: &str, password: Option<&str>) -> (done:
        Result<Upsert, VaultError>)
        ensures
            final(self).same_file_as(old(self)),
            valid_records(final(self).records()),
            match done {
                Ok(branch) => {
                    &&& site@.len() > 0
                    &&& final(self).records() == upserted(
                        old(self).records(),
                        site@,
                        username@,
                        text_of(password),
                    )
                    &&& branch == Upsert::Updated <==> has_site(old(self).records(), site@)
                    &&& final(self).records().len() == if branch == Upsert::Updated {
                        old(self).records().len()
                    } else {
                        old(self).records().len() + 1
                    }
                },
                Err(e) => {
                    &&& e == VaultError::InvalidArgument
                    &&& site@.len() == 0
                    &&& final(self).records() == old(self).records()
                },
            },
    {
        self.store.upsert(site, username, password)
    }

    /// Deletes the record for `site`.
    pub fn remove_entry(&mut self, site: &str) -> (done: Result<(), VaultError>)
        ensures
            final(self).same_file_as(old(self)),
            valid_records(final(self).records()),
            final(self).records() == removed(old(self).records(), site@),
            !has_site(final(self).records(), site@),
            match done {
                Ok(_) => has_site(old(self).records(), site@),
                Err(e) => e == VaultError::NotFound && !has_site(old(self).records(), site@),
            },
    {
        self.store.remove(site)
    }

    /// Overwrites username and password of the record for `site`.
    pub fn edit_entry(&mut self, site: &str, username: &str, password: &str) -> (done: Result<
        (),
        VaultError,
    >)
        ensures
            final(self).same_file_as(old(self)),
            valid_records(final(self).records()),
            final(self).records() == edited(old(self).records(), site@, username@, password@),
            match done {
                Ok(_) => has_site(old(self).records(), site@),
                Err(e) => e == VaultError::NotFound && !has_site(old(self).records(), site@),
            },
    {
        self.store.edit(site, username, password)
    }

    /// The record for `site`.
    pub fn get_entry(&self, site: &str) -> (hit: Result<&Entry, VaultError>)
        ensures
            match hit {
                Ok(entry) => found(self.records(), site@) == Some(entry@),
                Err(e) => e == VaultError::NotFound && found(self.records(), site@) is None,
            },
    {
        self.store.find(site)
    }

    /// All records, in the order in which they were added.
    pub fn list_entries(&self) -> (entries: &Vec<Entry>)
        ensures
            entries.deep_view() == self.records(),
            valid_records(self.records()),
    {
        self.store.list()
    }

    /// The alphabet that passwords are drawn from.
    pub fn get_character_set(include_special: bool) -> (characters: Vec<char>)
        ensures
            characters@ == character_set(include_special),
    {
        crate::generator::get_character_set(include_special)
    }

    /// Draws a password of `length` characters and returns it. Where a site is
    /// named, the password is stored for it: the record that is there keeps
    /// its username, a new record gets the default username. An empty site is
    /// refused.
    pub fn generate_password(&mut self, length: usize, site: Option<String>, include_special: bool) -> (made:
        Result<String, VaultError>)
        ensures
            final(self).same_file_as(old(self)),
            valid_records(final(self).records()),
            match made {
                Ok(password) => {
                    &&& password@.len() == length
                    &&& drawn_from(password@, include_special)
                    &&& match site {
                        Some(s) => {
                            &&& s@.len() > 0
                            &&& final(self).records() == password_assigned(
                                old(self).records(),
                                s@,
                                password@,
                            )
                        },
                        None => final(self).records() == old(self).records(),
                    }
                },
                Err(e) => {
                    &&& e == VaultError::InvalidArgument
                    &&& site matches Some(s) && s@.len() == 0
                    &&& final(self).records() == old(self).records()
                },
            },
    {
        proof {
            use_type_invariant(&self.store);
        }
        let password = random_password(length, include_special);
        match site {
            Some(s) => match self.store.assign_password(s.as_str(), password.as_str()) {
                Ok(_) => Ok(password),
                Err(e) => Err(e),
            },
            None => Ok(password),
        }
    }
}

} // verus!
