//! AES-SIV: a 512-bit-key misuse-resistant AEAD (AES-256 in SIV mode).

use crate::ciphers::{Cipher, Error};
use aes_siv::aead::{Aead, Generate};
use aes_siv::KeyInit;
use vstd::prelude::*;

verus! {

/// Byte length of an AES-256-SIV key.
pub const AES_SIV_KEY_LEN: usize = 64;

/// Byte length of the nonce prepended to every AES-SIV envelope.
pub const AES_SIV_NONCE_LEN: usize = 16;

/// Byte length of the SIV authentication tag.
pub const AES_SIV_TAG_LEN: usize = 16;

/// What `Aes256SivAead::encrypt` returns for a given key, nonce and
/// plaintext. RFC 5297 sealing is a function of exactly these three inputs,
/// so the sealed bytes can be given a name; nothing is assumed about their
/// values.
pub uninterp spec fn siv_sealed(key: Seq<u8>, nonce: Seq<u8>, plain: Seq<u8>) -> Seq<u8>;

/// Relies on `aes_siv::Aes256SivAead::encrypt` (RFC 5297): seals the
/// plaintext under the key and nonce with a 16-byte tag; it fails only when
/// the plaintext exceeds the maximum message length.
#[verifier::external_body]
fn siv_encrypt(key: &[u8], nonce: &[u8], data: &[u8]) -> (r: Option<Vec<u8>>)
    requires
        key@.len() == AES_SIV_KEY_LEN,
        nonce@.len() == AES_SIV_NONCE_LEN,
    ensures
        r matches Some(c) ==> c@ == siv_sealed(key@, nonce@, data@)
            && c@.len() == data@.len() + AES_SIV_TAG_LEN,
{
    let key = aes_siv::Key::<aes_siv::Aes256SivAead>::try_from(key).ok()?;
    let nonce = aes_siv::Nonce::try_from(nonce).ok()?;
    aes_siv::Aes256SivAead::new(&key).encrypt(&nonce, data).ok()
}

/// Relies on `aes_siv::Aes256SivAead::decrypt` (RFC 5297): returns the unique
/// plaintext that seals to the input under this key and nonce, and fails
/// exactly when the tag check fails, that is, when no such plaintext exists.
#[verifier::external_body]
fn siv_decrypt(key: &[u8], nonce: &[u8], ct: &[u8]) -> (r: Option<Vec<u8>>)
    requires
        key@.len() == AES_SIV_KEY_LEN,
        nonce@.len() == AES_SIV_NONCE_LEN,
    ensures
        r matches Some(p) ==> ct@ == siv_sealed(key@, nonce@, p@)
            && forall|q: Seq<u8>| ct@ == siv_sealed(key@, nonce@, q) ==> q == p@,
        r is None ==> forall|q: Seq<u8>| ct@ != siv_sealed(key@, nonce@, q),
{
    let key = aes_siv::Key::<aes_siv::Aes256SivAead>::try_from(key).ok()?;
    let nonce = aes_siv::Nonce::try_from(nonce).ok()?;
    aes_siv::Aes256SivAead::new(&key).decrypt(&nonce, ct).ok()
}

/// Relies on the `crypto_common::Generate` impl for `aes_siv::Nonce`: 16
/// bytes drawn from the operating system's secure generator. Nothing is
/// assumed of the drawn values.
#[verifier::external_body]
fn siv_generate_nonce() -> (r: Option<Vec<u8>>)
    ensures
        r matches Some(n) ==> n@.len() == AES_SIV_NONCE_LEN,
{
    aes_siv::Nonce::<aes_siv::aead::consts::U16>::try_generate().ok().map(|n| n.to_vec())
}

/// Relies on the `crypto_common::Generate` impl for the `Aes256SivAead` key
/// type: 64 bytes drawn from the operating system's secure generator. Nothing
/// is assumed of the drawn values.
#[verifier::external_body]
fn siv_generate_key() -> (r: Option<Vec<u8>>)
    ensures
        r matches Some(k) ==> k@.len() == AES_SIV_KEY_LEN,
{
    aes_siv::Key::<aes_siv::Aes256SivAead>::try_generate().ok().map(|k| k.to_vec())
}

/// `ct` is a nonce-prefixed AES-SIV envelope of `p` under `key`.
pub open spec fn siv_envelope_seals(key: Seq<u8>, ct: Seq<u8>, p: Seq<u8>) -> bool {
    ct.len() >= AES_SIV_NONCE_LEN && ct.skip(AES_SIV_NONCE_LEN as int) == siv_sealed(
        key,
        ct.take(AES_SIV_NONCE_LEN as int),
        p,
    )
}

/// AES-256-SIV under one fixed 512-bit key.
#[derive(Debug, Clone)]
pub struct AesGcmSivCipher {
    key: Vec<u8>,
}

impl AesGcmSivCipher {
    /// The raw key bytes.
    pub closed spec fn spec_key(&self) -> Seq<u8> {
        self.key@
    }

    /// Wrap an exact-length raw key.
    pub fn new(key: Vec<u8>) -> (r: AesGcmSivCipher)
        requires
            key@.len() == AES_SIV_KEY_LEN,
        ensures
            r.well_formed(),
            r.spec_key() == key@,
    {
        AesGcmSivCipher { key }
    }

    /// Parse a raw key, rejecting any length other than 64 bytes.
    pub fn try_from_bytes(key: &[u8]) -> (r: Result<AesGcmSivCipher, Error>)
        ensures
            r matches Ok(c) ==> key@.len() == AES_SIV_KEY_LEN && c.well_formed()
                && c.spec_key() == key@,
            r is Err ==> key@.len() != AES_SIV_KEY_LEN,
            r matches Err(e) ==> e is InvalidKeyLength,
    {
        if key.len() != AES_SIV_KEY_LEN {
            Err(Error::InvalidKeyLength)
        } else {
            Ok(AesGcmSivCipher::new(crate::copy_bytes(key)))
        }
    }

    /// Create a cipher under a fresh random key.
    pub fn generate() -> (r: Result<AesGcmSivCipher, Error>)
        ensures
            r matches Ok(c) ==> c.well_formed(),
            r matches Err(e) ==> e is EncryptionFailure,
    {
        match siv_generate_key() {
            Some(k) => Ok(AesGcmSivCipher::new(k)),
            None => Err(Error::EncryptionFailure),
        }
    }
}

impl Cipher for AesGcmSivCipher {
    open spec fn well_formed(&self) -> bool {
        self.spec_key().len() == AES_SIV_KEY_LEN
    }

    open spec fn key_view(&self) -> Seq<u8> {
        self.spec_key()
    }

    open spec fn seals(&self, ct: Seq<u8>, p: Seq<u8>) -> bool {
        siv_envelope_seals(self.spec_key(), ct, p)
    }

    open spec fn spec_name(&self) -> Seq<char> {
        "AES-GCM-SIV"@
    }

    /// The name is kept as the service has always reported it, although the
    /// primitive is AES-SIV (RFC 5297), not AES-GCM-SIV.
    fn name(&self) -> (r: &'static str) {
        "AES-GCM-SIV"
    }

    fn key(&self) -> (r: Vec<u8>) {
        crate::copy_bytes(self.key.as_slice())
    }

    /// The envelope is the fresh nonce followed by the tagged ciphertext.
    fn encrypt(&self, data: &[u8]) -> (r: Result<Vec<u8>, Error>)
        ensures
            r matches Ok(c) ==> c@.len() == AES_SIV_NONCE_LEN + data@.len() + AES_SIV_TAG_LEN,
    {
        let mut out = match siv_generate_nonce() {
            Some(n) => n,
            None => {
                return Err(Error::EncryptionFailure);
            },
        };
        let mut sealed = match siv_encrypt(self.key.as_slice(), out.as_slice(), data) {
            Some(c) => c,
            None => {
                return Err(Error::EncryptionFailure);
            },
        };
        let ghost nonce = out@;
        let ghost body = sealed@;
        out.append(&mut sealed);
        proof {
            assert(out@.take(AES_SIV_NONCE_LEN as int) =~= nonce);
            assert(out@.skip(AES_SIV_NONCE_LEN as int) =~= body);
        }
        Ok(out)
    }

    /// Decryption failures are always authentication failures.
    fn decrypt(&self, data: &[u8]) -> (r: Result<Vec<u8>, Error>)
        ensures
            r matches Err(e) ==> e is AuthenticationFailure,
    {
        if data.len() < AES_SIV_NONCE_LEN {
            return Err(Error::AuthenticationFailure);
        }
        let nonce = crate::copy_range(data, 0, AES_SIV_NONCE_LEN);
        let body = crate::copy_range(data, AES_SIV_NONCE_LEN, data.len());
        proof {
            assert(nonce@ =~= data@.take(AES_SIV_NONCE_LEN as int));
            assert(body@ =~= data@.skip(AES_SIV_NONCE_LEN as int));
        }
        match siv_decrypt(self.key.as_slice(), nonce.as_slice(), body.as_slice()) {
            Some(p) => Ok(p),
            None => Err(Error::AuthenticationFailure),
        }
    }
}

} // verus!
