//! Encrypt-at-rest storage: wraps a low-level store and a cipher (normally
//! the rotatable KEK), sealing values on write and opening them on read.
//!
//! Key names are never encrypted, only values. What reaches the underlying
//! store for a written value is an authenticated envelope, never the value
//! itself; without the KEK the bytes at rest seal an unknown payload. A value
//! that is present but cannot be opened surfaces as a cipher error, never as
//! an absent value.

use crate::ciphers::Cipher;
use crate::storage::{DataStorage, Error, LowLevelStorage};
use vstd::prelude::*;

verus! {

/// A low-level store whose values are sealed under a cipher.
pub struct CryptedStorage<C, S> {
    cipher: C,
    inner: S,
}

impl<C: Cipher, S: LowLevelStorage> CryptedStorage<C, S> {
    /// The cipher sealing the values (the active KEK).
    pub closed spec fn spec_cipher(&self) -> C {
        self.cipher
    }

    /// The underlying store's contents: sealed envelopes by key.
    pub closed spec fn raw(&self) -> Map<Seq<char>, Seq<u8>> {
        self.inner.contents()
    }

    /// The held cipher is well formed.
    pub open spec fn well_formed(&self) -> bool {
        self.spec_cipher().well_formed()
    }

    /// Wrap a store and a cipher.
    pub fn new(cipher: C, storage: S) -> (r: CryptedStorage<C, S>)
        ensures
            r.spec_cipher() == cipher,
            r.raw() == storage.contents(),
    {
        CryptedStorage { cipher, inner: storage }
    }

    /// Take the underlying store back out.
    pub fn into_inner(self) -> (r: S)
        ensures
            r.contents() == self.raw(),
    {
        self.inner
    }

    /// Seal a value under the cipher and store the envelope. Failure is a
    /// backend error, or a cipher error only when sealing itself refused.
    pub fn set(&mut self, key: &str, value: &[u8]) -> (r: Result<(), Error>)
        requires
            old(self).well_formed(),
        ensures
            final(self).spec_cipher() == old(self).spec_cipher(),
            r is Ok ==> exists|c: Seq<u8>|
                final(self).raw() == old(self).raw().insert(key@, c)
                    && #[trigger] old(self).spec_cipher().seals(c, value@),
            r matches Err(e) ==> (e is Backend || (e matches Error::Cipher(c) && c
                is EncryptionFailure)),
    {
        let sealed = match self.cipher.encrypt(value) {
            Ok(c) => c,
            Err(e) => {
                return Err(Error::Cipher(e));
            },
        };
        match self.inner.set(key, sealed.as_slice()) {
            Ok(u) => {
                proof {
                    assert(self.spec_cipher().seals(sealed@, value@));
                }
                Ok(u)
            },
            Err(e) => Err(e),
        }
    }

    /// Read and open the envelope stored at `key`. A stored value that
    /// opens is owed back, up to a backend failure; a cipher error occurs
    /// exactly for a value that is present but opens to nothing.
    pub fn get(&self, key: &str) -> (r: Result<Option<Vec<u8>>, Error>)
        requires
            self.well_formed(),
        ensures
            r matches Ok(v) ==> match v {
                Some(p) => self.raw().contains_key(key@) && self.spec_cipher().seals(
                    self.raw()[key@],
                    p@,
                ),
                None => !self.raw().contains_key(key@),
            },
            forall|p: Seq<u8>|
                self.raw().contains_key(key@) && #[trigger] self.spec_cipher().seals(
                    self.raw()[key@],
                    p,
                ) ==> ((r matches Ok(Some(q)) && q@ == p) || (r matches Err(e) && e is Backend)),
            (self.raw().contains_key(key@) && (forall|p: Seq<u8>|
                !(#[trigger] self.spec_cipher().seals(self.raw()[key@], p)))) ==> r is Err,
            r matches Err(e) ==> (e is Backend || e is Cipher),
            r matches Err(e) && e is Cipher ==> self.raw().contains_key(key@) && (forall|p: Seq<u8>|
                !(#[trigger] self.spec_cipher().seals(self.raw()[key@], p))),
    {
        let sealed = match self.inner.get(key) {
            Ok(Some(b)) => b,
            Ok(None) => {
                return Ok(None);
            },
            Err(e) => {
                return Err(e);
            },
        };
        match self.cipher.decrypt(sealed.as_slice()) {
            Ok(p) => Ok(Some(p)),
            Err(e) => Err(Error::Cipher(e)),
        }
    }

    /// Borrow the cipher (the active KEK).
    pub fn cipher_ref(&self) -> (r: &C)
        ensures
            *r == self.spec_cipher(),
    {
        &self.cipher
    }

    /// Read the bytes stored at `key` without opening an envelope: for
    /// values that were written through `set_if_absent`, which passes them
    /// through unencrypted.
    pub fn get_raw(&self, key: &str) -> (r: Result<Option<Vec<u8>>, Error>)
        ensures
            r matches Ok(v) ==> match v {
                Some(b) => self.raw().contains_key(key@) && b@ == self.raw()[key@],
                None => !self.raw().contains_key(key@),
            },
            r matches Err(e) ==> e is Backend,
    {
        self.inner.get(key)
    }

    /// Remove the value at `key`; passes through unencrypted.
    pub fn delete(&mut self, key: &str) -> (r: Result<(), Error>)
        ensures
            final(self).spec_cipher() == old(self).spec_cipher(),
            r is Ok ==> final(self).raw() == old(self).raw().remove(key@),
            r matches Err(e) ==> e is Backend,
    {
        self.inner.delete(key)
    }

    /// Whether the key holds a value; passes through unencrypted.
    pub fn contains(&self, key: &str) -> (r: Result<bool, Error>)
        ensures
            r matches Ok(b) ==> b == self.raw().contains_key(key@),
            r matches Err(e) ==> e is Backend,
    {
        self.inner.contains(key)
    }

    /// Compare-and-swap; the value passes through unencrypted, as key
    /// metadata written this way carries no key material.
    pub fn set_if_absent(&mut self, key: &str, value: &[u8]) -> (r: Result<bool, Error>)
        ensures
            final(self).spec_cipher() == old(self).spec_cipher(),
            r matches Ok(b) ==> b == !old(self).raw().contains_key(key@),
            (r matches Ok(b) && b) ==> final(self).raw() == old(self).raw().insert(key@, value@),
            (r matches Ok(b) && !b) ==> final(self).raw() == old(self).raw(),
            r matches Err(e) ==> e is Backend,
    {
        self.inner.set_if_absent(key, value)
    }
}

} // verus!
