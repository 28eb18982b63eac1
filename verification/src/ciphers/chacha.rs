//! ChaCha20-Poly1305: a 256-bit stream-cipher-based AEAD.

use crate::ciphers::{Cipher, Error};
use chacha20poly1305::aead::{Aead, Generate};
use chacha20poly1305::KeyInit;
use vstd::prelude::*;

verus! {

/// Byte length of a ChaCha20-Poly1305 key.
pub const CHACHA_KEY_LEN: usize = 32;

/// Byte length of the nonce prepended to every ChaCha20-Poly1305 envelope.
pub const CHACHA_NONCE_LEN: usize = 12;

/// Byte length of the Poly1305 authentication tag.
pub const CHACHA_TAG_LEN: usize = 16;

/// What `ChaCha20Poly1305::encrypt` returns for a given key, nonce and
/// plaintext. RFC 8439 sealing is a function of exactly these three inputs,
/// so the sealed bytes can be given a name; nothing is assumed about their
/// values.
pub uninterp spec fn chacha_sealed(key: Seq<u8>, nonce: Seq<u8>, plain: Seq<u8>) -> Seq<u8>;

/// Relies on `chacha20poly1305::ChaCha20Poly1305::encrypt` (RFC 8439): seals
/// the plaintext under the key and nonce, appending a 16-byte Poly1305 tag;
/// it fails only when the plaintext exceeds the maximum message length.
#[verifier::external_body]
fn chacha_encrypt(key: &[u8], nonce: &[u8], data: &[u8]) -> (r: Option<Vec<u8>>)
    requires
        key@.len() == CHACHA_KEY_LEN,
        nonce@.len() == CHACHA_NONCE_LEN,
    ensures
        r matches Some(c) ==> c@ == chacha_sealed(key@, nonce@, data@)
            && c@.len() == data@.len() + CHACHA_TAG_LEN,
{
    let key = chacha20poly1305::Key::try_from(key).ok()?;
    let nonce = chacha20poly1305::Nonce::try_from(nonce).ok()?;
    chacha20poly1305::ChaCha20Poly1305::new(&key).encrypt(&nonce, data).ok()
}

/// Relies on `chacha20poly1305::ChaCha20Poly1305::decrypt` (RFC 8439):
/// returns the unique plaintext that seals to the input under this key and
/// nonce, and fails exactly when the tag check fails, that is, when no such
/// plaintext exists.
#[verifier::external_body]
fn chacha_decrypt(key: &[u8], nonce: &[u8], ct: &[u8]) -> (r: Option<Vec<u8>>)
    requires
        key@.len() == CHACHA_KEY_LEN,
        nonce@.len() == CHACHA_NONCE_LEN,
    ensures
        r matches Some(p) ==> ct@ == chacha_sealed(key@, nonce@, p@)
            && forall|q: Seq<u8>| ct@ == chacha_sealed(key@, nonce@, q) ==> q == p@,
        r is None ==> forall|q: Seq<u8>| ct@ != chacha_sealed(key@, nonce@, q),
{
    let key = chacha20poly1305::Key::try_from(key).ok()?;
    let nonce = chacha20poly1305::Nonce::try_from(nonce).ok()?;
    chacha20poly1305::ChaCha20Poly1305::new(&key).decrypt(&nonce, ct).ok()
}

/// Relies on the `crypto_common::Generate` impl for `chacha20poly1305::Nonce`:
/// 12 bytes drawn from the operating system's secure generator. Nothing is
/// assumed of the drawn values.
#[verifier::external_body]
fn chacha_generate_nonce() -> (r: Option<Vec<u8>>)
    ensures
        r matches Some(n) ==> n@.len() == CHACHA_NONCE_LEN,
{
    chacha20poly1305::Nonce::try_generate().ok().map(|n| n.to_vec())
}

/// Relies on the `crypto_common::Generate` impl for `chacha20poly1305::Key`:
/// 32 bytes drawn from the operating system's secure generator. Nothing is
/// assumed of the drawn values.
#[verifier::external_body]
fn chacha_generate_key() -> (r: Option<Vec<u8>>)
    ensures
        r matches Some(k) ==> k@.len() == CHACHA_KEY_LEN,
{
    chacha20poly1305::Key::try_generate().ok().map(|k| k.to_vec())
}

/// `ct` is a nonce-prefixed ChaCha20-Poly1305 envelope of `p` under `key`.
pub open spec fn chacha_envelope_seals(key: Seq<u8>, ct: Seq<u8>, p: Seq<u8>) -> bool {
    ct.len() >= CHACHA_NONCE_LEN && ct.skip(CHACHA_NONCE_LEN as int) == chacha_sealed(
        key,
        ct.take(CHACHA_NONCE_LEN as int),
        p,
    )
}

/// ChaCha20-Poly1305 under one fixed 256-bit key.
#[derive(Debug, Clone)]
pub struct ChaCha20Poly1305Cipher {
    key: Vec<u8>,
}

impl ChaCha20Poly1305Cipher {
    /// The raw key bytes.
    pub closed spec fn spec_key(&self) -> Seq<u8> {
        self.key@
    }

    /// Wrap an exact-length raw key.
    pub fn new(key: Vec<u8>) -> (r: ChaCha20Poly1305Cipher)
        requires
            key@.len() == CHACHA_KEY_LEN,
        ensures
            r.well_formed(),
            r.spec_key() == key@,
    {
        ChaCha20Poly1305Cipher { key }
    }

    /// Parse a raw key, rejecting any length other than 32 bytes.
    pub fn try_from_bytes(key: &[u8]) -> (r: Result<ChaCha20Poly1305Cipher, Error>)
        ensures
            r matches Ok(c) ==> key@.len() == CHACHA_KEY_LEN && c.well_formed()
                && c.spec_key() == key@,
            r is Err ==> key@.len() != CHACHA_KEY_LEN,
            r matches Err(e) ==> e is InvalidKeyLength,
    {
        if key.len() != CHACHA_KEY_LEN {
            Err(Error::InvalidKeyLength)
        } else {
            Ok(ChaCha20Poly1305Cipher::new(crate::copy_bytes(key)))
        }
    }

    /// Create a cipher under a fresh random key.
    pub fn generate() -> (r: Result<ChaCha20Poly1305Cipher, Error>)
        ensures
            r matches Ok(c) ==> c.well_formed(),
            r matches Err(e) ==> e is EncryptionFailure,
    {
        match chacha_generate_key() {
            Some(k) => Ok(ChaCha20Poly1305Cipher::new(k)),
            None => Err(Error::EncryptionFailure),
        }
    }
}

impl Cipher for ChaCha20Poly1305Cipher {
    open spec fn well_formed(&self) -> bool {
        self.spec_key().len() == CHACHA_KEY_LEN
    }

    open spec fn key_view(&self) -> Seq<u8> {
        self.spec_key()
    }

    open spec fn seals(&self, ct: Seq<u8>, p: Seq<u8>) -> bool {
        chacha_envelope_seals(self.spec_key(), ct, p)
    }

    open spec fn spec_name(&self) -> Seq<char> {
        "ChaCha20-Poly1305"@
    }

    fn name(&self) -> (r: &'static str) {
        "ChaCha20-Poly1305"
    }

    fn key(&self) -> (r: Vec<u8>) {
        crate::copy_bytes(self.key.as_slice())
    }

    /// The envelope is the fresh nonce followed by the tagged ciphertext.
    fn encrypt(&self, data: &[u8]) -> (r: Result<Vec<u8>, Error>)
        ensures
            r matches Ok(c) ==> c@.len() == CHACHA_NONCE_LEN + data@.len() + CHACHA_TAG_LEN,
    {
        let mut out = match chacha_generate_nonce() {
            Some(n) => n,
            None => {
                return Err(Error::EncryptionFailure);
            },
        };
        let mut sealed = match chacha_encrypt(self.key.as_slice(), out.as_slice(), data) {
            Some(c) => c,
            None => {
                return Err(Error::EncryptionFailure);
            },
        };
        let ghost nonce = out@;
        let ghost body = sealed@;
        out.append(&mut sealed);
        proof {
            assert(out@.take(CHACHA_NONCE_LEN as int) =~= nonce);
            assert(out@.skip(CHACHA_NONCE_LEN as int) =~= body);
        }
        Ok(out)
    }

    /// Decryption failures are always authentication failures.
    fn decrypt(&self, data: &[u8]) -> (r: Result<Vec<u8>, Error>)
        ensures
            r matches Err(e) ==> e is AuthenticationFailure,
    {
        if data.len() < CHACHA_NONCE_LEN {
            return Err(Error::AuthenticationFailure);
        }
        let nonce = crate::copy_range(data, 0, CHACHA_NONCE_LEN);
        let body = crate::copy_range(data, CHACHA_NONCE_LEN, data.len());
        proof {
            assert(nonce@ =~= data@.take(CHACHA_NONCE_LEN as int));
            assert(body@ =~= data@.skip(CHACHA_NONCE_LEN as int));
        }
        match chacha_decrypt(self.key.as_slice(), nonce.as_slice(), body.as_slice()) {
            Some(p) => Ok(p),
            None => Err(Error::AuthenticationFailure),
        }
    }
}

} // verus!
