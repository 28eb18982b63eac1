//! Authenticated ciphers: the single-key AEAD primitives, a tagged union over
//! them, and the KEK-rotation wrapper.

pub mod aessiv;
pub mod chacha;
pub mod keyid;
pub mod oneof;
pub mod rotatable;

use crate::ciphers::keyid::KeyId;
use vstd::prelude::*;

verus! {

/// Failure modes of the authenticated ciphers.
#[derive(Debug, Clone)]
pub enum Error {
    /// The AEAD tag check failed, or the input is too short to hold a nonce:
    /// the ciphertext was tampered with, corrupted, or sealed under another
    /// key. Decryption never returns partial or altered plaintext.
    AuthenticationFailure,
    /// The AEAD refused to seal the payload, or no randomness was available
    /// for a fresh nonce.
    EncryptionFailure,
    /// A raw key does not have the length the algorithm demands.
    InvalidKeyLength,
    /// A key-rotated ciphertext is too short to carry a key identifier.
    InvalidKeyId,
    /// A key-rotated ciphertext names a KEK identifier that is not in the map.
    KeyNotFound(KeyId),
}

/// One authenticated-encryption primitive under one fixed key.
///
/// The contract is stated over the relation `seals(ct, p)`: "`ct` is a
/// well-formed envelope whose authenticated payload opens to `p` under this
/// cipher's key". Together the clauses of `encrypt` and `decrypt` state the
/// round-trip property: `encrypt` only produces envelopes that seal its
/// plaintext, and `decrypt` returns exactly the sealed plaintext of every
/// envelope (and an error when the input seals nothing).
pub trait Cipher: Sized {
    /// The cipher holds a key of the length its algorithm demands.
    spec fn well_formed(&self) -> bool;

    /// The raw key bytes.
    spec fn key_view(&self) -> Seq<u8>;

    /// `ct` is an envelope whose authenticated payload opens to `p`.
    spec fn seals(&self, ct: Seq<u8>, p: Seq<u8>) -> bool;

    /// The algorithm's human-readable name.
    spec fn spec_name(&self) -> Seq<char>;

    /// Human-readable algorithm name.
    fn name(&self) -> (r: &'static str)
        requires
            self.well_formed(),
        ensures
            r@ == self.spec_name(),
    ;

    /// Export the raw key bytes.
    fn key(&self) -> (r: Vec<u8>)
        requires
            self.well_formed(),
        ensures
            r@ == self.key_view(),
    ;

    /// Seal `data` into a self-describing, nonce-prefixed envelope. Failure
    /// is always an `EncryptionFailure`: the primitive refused the payload
    /// or no randomness was available.
    fn encrypt(&self, data: &[u8]) -> (r: Result<Vec<u8>, Error>)
        requires
            self.well_formed(),
        ensures
            r matches Ok(c) ==> self.seals(c@, data@),
            r matches Err(e) ==> e is EncryptionFailure,
    ;

    /// Open an envelope, failing on anything that is not an authentic seal.
    fn decrypt(&self, data: &[u8]) -> (r: Result<Vec<u8>, Error>)
        requires
            self.well_formed(),
        ensures
            r matches Ok(p) ==> self.seals(data@, p@),
            forall|p: Seq<u8>| self.seals(data@, p) ==> (r matches Ok(q) && q@ == p),
    ;
}

/// The no-op cipher: the envelope is the plaintext itself.
#[derive(Debug, Clone, Copy)]
pub struct Unencrypted;

impl Cipher for Unencrypted {
    open spec fn well_formed(&self) -> bool {
        true
    }

    open spec fn key_view(&self) -> Seq<u8> {
        Seq::empty()
    }

    open spec fn seals(&self, ct: Seq<u8>, p: Seq<u8>) -> bool {
        ct == p
    }

    open spec fn spec_name(&self) -> Seq<char> {
        "Unencrypted"@
    }

    fn name(&self) -> (r: &'static str) {
        "Unencrypted"
    }

    fn key(&self) -> (r: Vec<u8>) {
        Vec::new()
    }

    /// The no-op cipher never fails.
    fn encrypt(&self, data: &[u8]) -> (r: Result<Vec<u8>, Error>)
        ensures
            r is Ok,
    {
        Ok(crate::copy_bytes(data))
    }

    /// The no-op cipher never fails.
    fn decrypt(&self, data: &[u8]) -> (r: Result<Vec<u8>, Error>)
        ensures
            r is Ok,
    {
        Ok(crate::copy_bytes(data))
    }
}

} // verus!
