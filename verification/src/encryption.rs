//! Key derivation and authenticated encryption.
//!
//! A sealed blob is a 12-byte nonce followed by what AES-256-GCM makes of the
//! plaintext under that nonce: the ciphertext and its 16-byte tag.

use aes_gcm::aead::generic_array::GenericArray;
use aes_gcm::aead::{Aead, KeyInit};
use aes_gcm::Aes256Gcm;
use rand::rngs::OsRng;
use rand::Rng;
use sha2::Sha256;
use vstd::prelude::*;
use vstd::slice::slice_subrange;
use crate::error::VaultError;

verus! {

/// The length of a key in bytes.
pub const KEY_SIZE: usize = 32;

/// The length of a nonce in bytes.
pub const NONCE_SIZE: usize = 12;

/// The length of an authentication tag in bytes.
pub const TAG_SIZE: usize = 16;

/// How many rounds of PBKDF2 stretch a passphrase.
pub const PBKDF2_ITERATIONS: u32 = 100_000;

/// The longest plaintext, in bytes, that the cipher accepts.
pub const PLAINTEXT_MAX: u64 = 0x10_0000_0000;

/// The first 32 bytes that PBKDF2 with HMAC-SHA-256 derives from a password
/// and a salt in the given number of rounds.
pub uninterp spec fn pbkdf2_hmac_sha256(password: Seq<u8>, salt: Seq<u8>, rounds: u32) -> Seq<u8>;

/// What AES-256-GCM makes of a plaintext under a key and a nonce, without
/// associated data: the ciphertext followed by the tag, or nothing where the
/// cipher refuses the plaintext.
pub uninterp spec fn aes256_gcm_sealed(key: Seq<u8>, nonce: Seq<u8>, plaintext: Seq<u8>) -> Option<
    Seq<u8>,
>;

/// What AES-256-GCM recovers from a ciphertext with its tag under a key and a
/// nonce, without associated data, or nothing where it rejects them.
pub uninterp spec fn aes256_gcm_opened(key: Seq<u8>, nonce: Seq<u8>, sealed: Seq<u8>) -> Option<
    Seq<u8>,
>;

/// The bytes of an optional vector.
pub open spec fn bytes_of(bytes: Option<Vec<u8>>) -> Option<Seq<u8>> {
    match bytes {
        Some(b) => Some(b@),
        None => None,
    }
}

/// Calls `pbkdf2::pbkdf2_hmac` with SHA-256 on a 32-byte buffer. The contract
/// gives the result its name and claims nothing else of it.
#[verifier::external_body]
fn pbkdf2_sha256(password: &[u8], salt: &[u8], rounds: u32) -> (out: [u8; KEY_SIZE])
    ensures
        out@ == pbkdf2_hmac_sha256(password@, salt@, rounds),
{
    let mut out = [0u8; KEY_SIZE];
    pbkdf2::pbkdf2_hmac::<Sha256>(password, salt, rounds, &mut out);
    out
}

/// Calls `Rng::fill` of the rand crate on `OsRng` to draw twelve bytes from
/// the operating system. Nothing is claimed of the bytes. The call panics
/// where the operating system cannot supply random bytes.
#[verifier::external_body]
fn random_nonce() -> [u8; NONCE_SIZE] {
    let mut nonce = [0u8; NONCE_SIZE];
    OsRng.fill(&mut nonce);
    nonce
}

/// Calls `Aead::encrypt` of `aes_gcm::Aes256Gcm`. The contract gives the
/// result its name and claims three things that the crate's source shows: the
/// call fails exactly on a plaintext longer than the cipher's limit; the
/// result is 16 bytes longer than the plaintext; and decrypting the result
/// under the same key and nonce gives the plaintext back.
#[verifier::external_body]
fn aes256_gcm_encrypt(key: &[u8; KEY_SIZE], nonce: &[u8; NONCE_SIZE], plaintext: &[u8]) -> (sealed: Option<
    Vec<u8>,
>)
    ensures
        bytes_of(sealed) == aes256_gcm_sealed(key@, nonce@, plaintext@),
        sealed is Some <==> plaintext@.len() <= PLAINTEXT_MAX,
        sealed matches Some(c) ==> c@.len() == plaintext@.len() + TAG_SIZE,
        sealed matches Some(c) ==> aes256_gcm_opened(key@, nonce@, c@) == Some(plaintext@),
{
    let cipher = Aes256Gcm::new(GenericArray::from_slice(key));
    cipher.encrypt(GenericArray::from_slice(nonce), plaintext).ok()
}

/// Calls `Aead::decrypt` of `aes_gcm::Aes256Gcm`. The contract gives the
/// result its name and claims one thing that the crate's source shows: input
/// shorter than a tag is rejected. A nonce that is not 12 bytes long, on which
/// the call panics, is left out.
#[verifier::external_body]
fn aes256_gcm_decrypt(key: &[u8; KEY_SIZE], nonce: &[u8], sealed: &[u8]) -> (plaintext: Option<Vec<u8>>)
    requires
        nonce@.len() == NONCE_SIZE,
    ensures
        bytes_of(plaintext) == aes256_gcm_opened(key@, nonce@, sealed@),
        sealed@.len() < TAG_SIZE ==> plaintext is None,
{
    let cipher = Aes256Gcm::new(GenericArray::from_slice(key));
    cipher.decrypt(GenericArray::from_slice(nonce), sealed).ok()
}

/// The blob that sealing `data` under `key` with `nonce` gives: the nonce,
/// then ciphertext and tag.
pub open spec fn sealed_blob(key: Seq<u8>, nonce: Seq<u8>, data: Seq<u8>) -> Option<Seq<u8>> {
    match aes256_gcm_sealed(key, nonce, data) {
        Some(c) => Some(nonce + c),
        None => None,
    }
}

/// What opening `blob` under `key` gives: a blob too short for a nonce is
/// malformed; otherwise the cipher decides.
pub open spec fn opened_blob(key: Seq<u8>, blob: Seq<u8>) -> Result<Seq<u8>, VaultError> {
    if blob.len() < NONCE_SIZE {
        Err(VaultError::MalformedBlob)
    } else {
        match aes256_gcm_opened(
            key,
            blob.subrange(0, NONCE_SIZE as int),
            blob.subrange(NONCE_SIZE as int, blob.len() as int),
        ) {
            Some(data) => Ok(data),
            None => Err(VaultError::AuthenticationFailure),
        }
    }
}

/// `blob` is a sealing of `data` under `key`: it is what the cipher makes of
/// `data` under the nonce that it starts with, and it opens to `data`.
pub open spec fn is_sealing_of(blob: Seq<u8>, key: Seq<u8>, data: Seq<u8>) -> bool {
    &&& blob.len() == NONCE_SIZE + data.len() + TAG_SIZE
    &&& sealed_blob(key, blob.subrange(0, NONCE_SIZE as int), data) == Some(blob)
    &&& opened_blob(key, blob) == Ok::<Seq<u8>, VaultError>(data)
}

/// A key derived from a passphrase. It lives in memory only.
pub struct Key {
    bytes: [u8; KEY_SIZE],
}

impl View for Key {
    type V = Seq<u8>;

    closed spec fn view(&self) -> Seq<u8> {
        self.bytes@
    }
}

impl Key {
    /// The key bytes that belong to a passphrase: PBKDF2 with HMAC-SHA-256,
    /// an empty salt and a fixed number of rounds.
    pub open spec fn derived(passphrase: Seq<u8>) -> Seq<u8> {
        pbkdf2_hmac_sha256(passphrase, Seq::<u8>::empty(), PBKDF2_ITERATIONS)
    }

    /// Derives the key of a passphrase. The same passphrase always gives the
    /// same key.
    pub fn derive_key(password: &[u8]) -> (key: Key)
        ensures
            key@ == Key::derived(password@),
    {
        let salt: Vec<u8> = Vec::new();
        Key { bytes: pbkdf2_sha256(password, salt.as_slice(), PBKDF2_ITERATIONS) }
    }

    /// Seals `data` under this key with the given nonce. Fails exactly when
    /// `data` is longer than the cipher accepts.
    pub fn seal_with_nonce(&self, nonce: &[u8; NONCE_SIZE], data: &[u8]) -> (sealed: Result<
        Vec<u8>,
        VaultError,
    >)
        ensures
            sealed is Ok <==> data@.len() <= PLAINTEXT_MAX,
            match sealed {
                Ok(blob) => {
                    &&& sealed_blob(self@, nonce@, data@) == Some(blob@)
                    &&& is_sealing_of(blob@, self@, data@)
                },
                Err(e) => e == VaultError::InvalidArgument,
            },
    {
        match aes256_gcm_encrypt(&self.bytes, nonce, data) {
            Some(ciphertext) => {
                let mut blob: Vec<u8> = Vec::new();
                blob.extend_from_slice(nonce.as_slice());
                blob.extend_from_slice(ciphertext.as_slice());
                assert(blob@ == nonce@ + ciphertext@);
                assert(blob@.subrange(0, NONCE_SIZE as int) == nonce@);
                assert(blob@.subrange(NONCE_SIZE as int, blob@.len() as int) == ciphertext@);
                Ok(blob)
            },
            None => Err(VaultError::InvalidArgument),
        }
    }

    /// Seals `data` under this key with a nonce freshly drawn from the
    /// operating system. Fails exactly when `data` is longer than the cipher
    /// accepts.
    pub fn encrypt(&self, data: &[u8]) -> (sealed: Result<Vec<u8>, VaultError>)
        ensures
            sealed is Ok <==> data@.len() <= PLAINTEXT_MAX,
            match sealed {
                Ok(blob) => is_sealing_of(blob@, self@, data@),
                Err(e) => e == VaultError::InvalidArgument,
            },
    {
        let nonce = random_nonce();
        self.seal_with_nonce(&nonce, data)
    }

    /// Opens a sealed blob: splits off the nonce and lets the cipher check the
    /// tag and decrypt the rest. A blob cut off before the end of its tag is
    /// never accepted.
    pub fn decrypt(&self, blob: &[u8]) -> (opened: Result<Vec<u8>, VaultError>)
        ensures
            match opened {
                Ok(data) => opened_blob(self@, blob@) == Ok::<Seq<u8>, VaultError>(data@),
                Err(e) => opened_blob(self@, blob@) == Err::<Seq<u8>, VaultError>(e),
            },
            blob@.len() < NONCE_SIZE ==> opened == Err::<Vec<u8>, VaultError>(
                VaultError::MalformedBlob,
            ),
            NONCE_SIZE <= blob@.len() < NONCE_SIZE + TAG_SIZE ==> opened == Err::<
                Vec<u8>,
                VaultError,
            >(VaultError::AuthenticationFailure),
    {
        if blob.len() < NONCE_SIZE {
            return Err(VaultError::MalformedBlob);
        }
        let nonce = slice_subrange(blob, 0, NONCE_SIZE);
        let rest = slice_subrange(blob, NONCE_SIZE, blob.len());
        match aes256_gcm_decrypt(&self.bytes, nonce, rest) {
            Some(data) => Ok(data),
            None => Err(VaultError::AuthenticationFailure),
        }
    }
}

} // verus!
