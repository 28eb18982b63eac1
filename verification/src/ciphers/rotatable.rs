//! KEK rotation: a set of named ciphers, one of which is the default.
//!
//! Encryption always uses the default KEK and prefixes its 16-byte identifier
//! to the ciphertext; decryption reads the prefix and dispatches to the
//! matching KEK. Old ciphertext therefore stays decryptable after the default
//! changes, as long as the old KEK stays in the map.

use crate::ciphers::keyid::{KeyId, KEY_ID_LEN};
use crate::ciphers::oneof::OneOfCipher;
use crate::ciphers::{Cipher, Error};
use vstd::prelude::*;

verus! {

/// No two entries name the same identifier.
pub open spec fn ids_unique(entries: Seq<(KeyId, OneOfCipher)>) -> bool {
    forall|i: int, j: int|
        0 <= i < entries.len() && 0 <= j < entries.len() && i != j ==> (#[trigger] entries[i]).0@
            != (#[trigger] entries[j]).0@
}

/// Every identifier and every cipher of the entries is well formed.
pub open spec fn entries_well_formed(entries: Seq<(KeyId, OneOfCipher)>) -> bool {
    forall|i: int|
        0 <= i < entries.len() ==> ((#[trigger] entries[i]).0.well_formed()
            && entries[i].1.well_formed())
}

/// A map of KEKs keyed by 128-bit identifiers, with one designated default.
#[derive(Debug, Clone)]
pub struct RotatableCipher {
    default_key_id: KeyId,
    default_index: usize,
    ciphers: Vec<(KeyId, OneOfCipher)>,
}

impl RotatableCipher {
    /// The identifier-to-cipher entries.
    pub closed spec fn spec_entries(&self) -> Seq<(KeyId, OneOfCipher)> {
        self.ciphers@
    }

    /// The identifier of the default KEK, as wire bytes.
    pub closed spec fn spec_default_id(&self) -> Seq<u8> {
        self.default_key_id@
    }

    /// The position of the default KEK in the entries.
    pub closed spec fn spec_default_index(&self) -> int {
        self.default_index as int
    }

    /// Some entry names this identifier.
    pub open spec fn has_id(&self, id: Seq<u8>) -> bool {
        exists|i: int| 0 <= i < self.spec_entries().len() && (#[trigger] self.spec_entries()[i]).0@
            == id
    }

    /// The cipher of the entry naming this identifier (unique when the
    /// entries' identifiers are).
    pub open spec fn cipher_for(&self, id: Seq<u8>) -> OneOfCipher {
        let i = choose|i: int|
            0 <= i < self.spec_entries().len() && (#[trigger] self.spec_entries()[i]).0@ == id;
        self.spec_entries()[i].1
    }

    /// Any entry whose identifier is `id` holds the cipher `cipher_for(id)`.
    proof fn lemma_cipher_at(&self, i: int)
        requires
            ids_unique(self.spec_entries()),
            0 <= i < self.spec_entries().len(),
        ensures
            self.has_id(self.spec_entries()[i].0@),
            self.cipher_for(self.spec_entries()[i].0@) == self.spec_entries()[i].1,
    {
        let id = self.spec_entries()[i].0@;
        assert(self.has_id(id));
        let j = choose|j: int|
            0 <= j < self.spec_entries().len() && (#[trigger] self.spec_entries()[j]).0@ == id;
        assert(j == i);
    }

    /// Construct a rotatable cipher. The default identifier must be present
    /// in the map: a configuration that violates this must be rejected at
    /// startup, before any ciphertext is produced.
    pub fn new(default_key_id: KeyId, ciphers: Vec<(KeyId, OneOfCipher)>) -> (r: RotatableCipher)
        requires
            ids_unique(ciphers@),
            entries_well_formed(ciphers@),
            exists|i: int| 0 <= i < ciphers@.len() && (#[trigger] ciphers@[i]).0@
                == default_key_id@,
        ensures
            r.well_formed(),
            r.spec_entries() == ciphers@,
            r.spec_default_id() == default_key_id@,
    {
        let n: usize = ciphers.len();
        let mut i: usize = 0;
        while i < n
            invariant
                n == ciphers@.len(),
                0 <= i <= n,
                ids_unique(ciphers@),
                entries_well_formed(ciphers@),
                exists|j: int| 0 <= j < ciphers@.len() && (#[trigger] ciphers@[j]).0@
                    == default_key_id@,
                forall|j: int| 0 <= j < i ==> (#[trigger] ciphers@[j]).0@ != default_key_id@,
            decreases n - i,
        {
            if crate::bytes_eq(ciphers[i].0.as_slice(), default_key_id.as_slice()) {
                return RotatableCipher { default_key_id, default_index: i, ciphers };
            }
            i += 1;
        }
        proof {
            let j = choose|j: int| 0 <= j < ciphers@.len() && (#[trigger] ciphers@[j]).0@
                == default_key_id@;
            assert(ciphers@[j].0@ != default_key_id@);
        }
        unreached()
    }

    /// Whether this identifier names a KEK of the map.
    pub fn contains_key(&self, key_id: &KeyId) -> (r: bool)
        ensures
            r == self.has_id(key_id@),
    {
        self.find(key_id.as_slice()).is_some()
    }

    /// The display form of the default KEK's identifier.
    pub fn default_key_id(&self) -> (r: String)
        requires
            self.well_formed(),
        ensures
            r@ == crate::ciphers::keyid::spec_display(self.spec_default_id()),
    {
        proof {
            self.lemma_cipher_at(self.spec_default_index());
        }
        self.default_key_id.to_uuid_string()
    }

    /// The default KEK's identifier.
    pub fn default_key_id_bytes(&self) -> (r: &KeyId)
        ensures
            r@ == self.spec_default_id(),
    {
        &self.default_key_id
    }

    /// Look up the entry naming `id`, scanning in order.
    fn find(&self, id: &[u8]) -> (r: Option<&OneOfCipher>)
        ensures
            r matches Some(c) ==> self.has_id(id@) && (ids_unique(self.spec_entries()) ==> *c
                == self.cipher_for(id@)),
            r is None ==> !self.has_id(id@),
    {
        let n: usize = self.ciphers.len();
        let mut i: usize = 0;
        while i < n
            invariant
                n == self.spec_entries().len(),
                0 <= i <= n,
                forall|j: int| 0 <= j < i ==> (#[trigger] self.spec_entries()[j]).0@ != id@,
            decreases n - i,
        {
            if crate::bytes_eq(self.ciphers[i].0.as_slice(), id) {
                proof {
                    if ids_unique(self.spec_entries()) {
                        self.lemma_cipher_at(i as int);
                    } else {
                        assert(self.has_id(id@));
                    }
                }
                return Some(&self.ciphers[i].1);
            }
            i += 1;
        }
        proof {
            if self.has_id(id@) {
                let j = choose|j: int|
                    0 <= j < self.spec_entries().len() && (#[trigger] self.spec_entries()[j]).0@
                        == id@;
                assert(self.spec_entries()[j].0@ != id@);
            }
        }
        None
    }
}

impl Cipher for RotatableCipher {
    /// The default identifier is present, identifiers are distinct and well
    /// formed, every cipher is well formed, and the cached default position
    /// matches the default identifier.
    open spec fn well_formed(&self) -> bool {
        &&& ids_unique(self.spec_entries())
        &&& entries_well_formed(self.spec_entries())
        &&& 0 <= self.spec_default_index() < self.spec_entries().len()
        &&& self.spec_entries()[self.spec_default_index()].0@ == self.spec_default_id()
    }

    open spec fn key_view(&self) -> Seq<u8> {
        self.cipher_for(self.spec_default_id()).key_view()
    }

    open spec fn seals(&self, ct: Seq<u8>, p: Seq<u8>) -> bool {
        &&& ct.len() >= KEY_ID_LEN
        &&& self.has_id(ct.take(KEY_ID_LEN as int))
        &&& self.cipher_for(ct.take(KEY_ID_LEN as int)).seals(ct.skip(KEY_ID_LEN as int), p)
    }

    /// The name of the default KEK's algorithm.
    open spec fn spec_name(&self) -> Seq<char> {
        self.cipher_for(self.spec_default_id()).spec_name()
    }

    fn name(&self) -> (r: &'static str) {
        match self.find(self.default_key_id.as_slice()) {
            Some(c) => c.name(),
            None => {
                proof {
                    self.lemma_cipher_at(self.spec_default_index());
                }
                unreached()
            },
        }
    }

    fn key(&self) -> (r: Vec<u8>) {
        proof {
            self.lemma_cipher_at(self.spec_default_index());
        }
        self.ciphers[self.default_index].1.key()
    }

    /// Seal under the default KEK and prefix its identifier.
    fn encrypt(&self, data: &[u8]) -> (r: Result<Vec<u8>, Error>)
        ensures
            r matches Ok(c) ==> c@.len() >= KEY_ID_LEN && c@.take(KEY_ID_LEN as int)
                == self.spec_default_id() && self.cipher_for(self.spec_default_id()).seals(
                c@.skip(KEY_ID_LEN as int),
                data@,
            ),
    {
        proof {
            self.lemma_cipher_at(self.spec_default_index());
        }
        let inner = match self.ciphers[self.default_index].1.encrypt(data) {
            Ok(c) => c,
            Err(e) => {
                return Err(e);
            },
        };
        let mut out = crate::copy_bytes(self.default_key_id.as_slice());
        let ghost prefix = out@;
        let ghost body = inner@;
        let mut inner = inner;
        out.append(&mut inner);
        proof {
            assert(prefix.len() == KEY_ID_LEN);
            assert(out@.take(KEY_ID_LEN as int) =~= prefix);
            assert(out@.skip(KEY_ID_LEN as int) =~= body);
        }
        Ok(out)
    }

    /// Read the identifier prefix and dispatch to the matching KEK.
    fn decrypt(&self, data: &[u8]) -> (r: Result<Vec<u8>, Error>)
        ensures
            r matches Err(Error::InvalidKeyId) ==> data@.len() < KEY_ID_LEN,
            data@.len() < KEY_ID_LEN ==> r matches Err(Error::InvalidKeyId),
            r matches Err(Error::KeyNotFound(k)) ==> data@.len() >= KEY_ID_LEN && k@
                == data@.take(KEY_ID_LEN as int) && !self.has_id(data@.take(KEY_ID_LEN as int)),
            data@.len() >= KEY_ID_LEN && !self.has_id(data@.take(KEY_ID_LEN as int)) ==> (
            r matches Err(Error::KeyNotFound(k)) && k@ == data@.take(KEY_ID_LEN as int)),
    {
        if data.len() < KEY_ID_LEN {
            return Err(Error::InvalidKeyId);
        }
        let prefix = crate::copy_range(data, 0, KEY_ID_LEN);
        let body = crate::copy_range(data, KEY_ID_LEN, data.len());
        proof {
            assert(prefix@ =~= data@.take(KEY_ID_LEN as int));
            assert(body@ =~= data@.skip(KEY_ID_LEN as int));
        }
        match self.find(prefix.as_slice()) {
            Some(c) => c.decrypt(body.as_slice()),
            None => {
                let key_id = match KeyId::from_bytes(prefix) {
                    Ok(k) => k,
                    Err(e) => {
                        return Err(e);
                    },
                };
                Err(Error::KeyNotFound(key_id))
            },
        }
    }
}

/// KEK rotation: a ciphertext sealed while one KEK was default stays sealed
/// (and hence, by `decrypt`'s contract, decryptable) under any other
/// rotatable cipher that still maps the same identifier to the same KEK,
/// whatever its default is. Dropping that identifier from the map makes
/// `decrypt` fail with `KeyNotFound` instead.
pub proof fn lemma_kek_rotation(a: RotatableCipher, b: RotatableCipher, ct: Seq<u8>, p: Seq<u8>)
    requires
        a.well_formed(),
        b.well_formed(),
        a.seals(ct, p),
        b.has_id(ct.take(KEY_ID_LEN as int)),
        b.cipher_for(ct.take(KEY_ID_LEN as int)) == a.cipher_for(ct.take(KEY_ID_LEN as int)),
    ensures
        b.seals(ct, p),
{
}

} // verus!
