//! A closed, tagged union over the supported cipher variants.

use crate::ciphers::aessiv::AesGcmSivCipher;
use crate::ciphers::chacha::ChaCha20Poly1305Cipher;
use crate::ciphers::{Cipher, Error, Unencrypted};
use vstd::prelude::*;

verus! {

/// One of the supported authenticated ciphers. Every operation dispatches to
/// the held concrete cipher; adding an algorithm means adding one variant and
/// one arm per operation.
#[derive(Debug, Clone)]
pub enum OneOfCipher {
    /// The no-op cipher.
    Unencrypted(Unencrypted),
    /// AES-256 in SIV mode.
    AesGcmSiv(AesGcmSivCipher),
    /// ChaCha20-Poly1305.
    ChaCha20Poly1305(ChaCha20Poly1305Cipher),
}

impl Cipher for OneOfCipher {
    open spec fn well_formed(&self) -> bool {
        match self {
            OneOfCipher::Unencrypted(c) => c.well_formed(),
            OneOfCipher::AesGcmSiv(c) => c.well_formed(),
            OneOfCipher::ChaCha20Poly1305(c) => c.well_formed(),
        }
    }

    open spec fn key_view(&self) -> Seq<u8> {
        match self {
            OneOfCipher::Unencrypted(c) => c.key_view(),
            OneOfCipher::AesGcmSiv(c) => c.key_view(),
            OneOfCipher::ChaCha20Poly1305(c) => c.key_view(),
        }
    }

    open spec fn seals(&self, ct: Seq<u8>, p: Seq<u8>) -> bool {
        match self {
            OneOfCipher::Unencrypted(c) => c.seals(ct, p),
            OneOfCipher::AesGcmSiv(c) => c.seals(ct, p),
            OneOfCipher::ChaCha20Poly1305(c) => c.seals(ct, p),
        }
    }

    open spec fn spec_name(&self) -> Seq<char> {
        match self {
            OneOfCipher::Unencrypted(c) => c.spec_name(),
            OneOfCipher::AesGcmSiv(c) => c.spec_name(),
            OneOfCipher::ChaCha20Poly1305(c) => c.spec_name(),
        }
    }

    fn name(&self) -> (r: &'static str) {
        match self {
            OneOfCipher::Unencrypted(c) => c.name(),
            OneOfCipher::AesGcmSiv(c) => c.name(),
            OneOfCipher::ChaCha20Poly1305(c) => c.name(),
        }
    }

    fn key(&self) -> (r: Vec<u8>) {
        match self {
            OneOfCipher::Unencrypted(c) => c.key(),
            OneOfCipher::AesGcmSiv(c) => c.key(),
            OneOfCipher::ChaCha20Poly1305(c) => c.key(),
        }
    }

    fn encrypt(&self, data: &[u8]) -> (r: Result<Vec<u8>, Error>) {
        match self {
            OneOfCipher::Unencrypted(c) => c.encrypt(data),
            OneOfCipher::AesGcmSiv(c) => c.encrypt(data),
            OneOfCipher::ChaCha20Poly1305(c) => c.encrypt(data),
        }
    }

    /// Decryption failures are always authentication failures.
    fn decrypt(&self, data: &[u8]) -> (r: Result<Vec<u8>, Error>)
        ensures
            r matches Err(e) ==> e is AuthenticationFailure,
    {
        match self {
            OneOfCipher::Unencrypted(c) => c.decrypt(data),
            OneOfCipher::AesGcmSiv(c) => c.decrypt(data),
            OneOfCipher::ChaCha20Poly1305(c) => c.decrypt(data),
        }
    }
}

} // verus!
