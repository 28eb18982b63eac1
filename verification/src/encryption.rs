//! The DEK lifecycle manager: versioned per-identifier data-encryption keys,
//! stored through encrypt-at-rest storage and used to encrypt caller data.
//!
//! Each identifier owns a sequence of immutable key records at
//! `keys/{identifier}/versions/{n}` and one mutable pointer at
//! `keys/{identifier}/latest`. Encryption resolves (creating on first use,
//! arbitrated by compare-and-swap) the latest key; decryption reads the exact
//! version recorded in the ciphertext envelope.

pub mod identifier;
pub mod key;
pub mod paths;

use crate::audit::{Action, AuditLog, AuditLogger, DecryptionAction, EncryptionAction};
use crate::ciphers::aessiv::{siv_envelope_seals, AesGcmSivCipher, AES_SIV_KEY_LEN};
use crate::ciphers::chacha::{chacha_envelope_seals, ChaCha20Poly1305Cipher, CHACHA_KEY_LEN};
use crate::ciphers::keyid::KeyId;
use crate::ciphers::oneof::OneOfCipher;
use crate::ciphers::rotatable::RotatableCipher;
use crate::ciphers::Cipher;
use crate::encryption::key::{EncryptionKey, EncryptionKeyRef};
use crate::encryption::paths::{latest_path, spec_latest_path, spec_version_path, version_path};
use crate::storage::crypto::CryptedStorage;
use crate::storage::LowLevelStorage;
use vstd::prelude::*;
use vstd::string::{StrSliceExecFns, StringExecFns, StringSliceAdditionalSpecFns};

verus! {

/// Failure modes of the DEK lifecycle manager.
#[derive(Debug)]
pub enum Error {
    /// A stored record names an algorithm this build does not know. The key
    /// bytes are never interpreted under a guessed algorithm.
    UnsupportedAlgorithm,
    /// The requested key version does not exist.
    NotFound,
    /// A stored record is malformed or inconsistent with its path.
    InvalidRecord,
    /// Encrypting the payload failed.
    Encryption(crate::ciphers::Error),
    /// Decrypting the payload failed: tampering, corruption, or a wrong key.
    Decryption(crate::ciphers::Error),
    /// The storage collaborator failed; propagated as-is.
    Storage(crate::storage::Error),
}

/// The supported data-encryption-key algorithms.
#[derive(Debug, Copy, Clone, PartialEq, Eq, Structural)]
pub enum KeyAlgorithm {
    /// ChaCha20-Poly1305 with a 256-bit key.
    ChaCha20Poly1305,
    /// AES-SIV with a 512-bit key.
    AesGcmSiv,
}

impl KeyAlgorithm {
    /// The algorithm's 2-byte big-endian tag.
    pub open spec fn spec_id(self) -> Seq<u8> {
        match self {
            KeyAlgorithm::ChaCha20Poly1305 => seq![0x00u8, 0x01u8],
            KeyAlgorithm::AesGcmSiv => seq![0x00u8, 0x02u8],
        }
    }

    /// The algorithm's exact key length in bytes.
    pub open spec fn spec_key_len(self) -> nat {
        match self {
            KeyAlgorithm::ChaCha20Poly1305 => CHACHA_KEY_LEN as nat,
            KeyAlgorithm::AesGcmSiv => AES_SIV_KEY_LEN as nat,
        }
    }

    /// The algorithm tagged in the first two bytes, if recognized.
    pub open spec fn spec_alg_of(b: Seq<u8>) -> Option<KeyAlgorithm> {
        if b.len() >= 2 && b[0] == 0x00u8 && b[1] == 0x01u8 {
            Some(KeyAlgorithm::ChaCha20Poly1305)
        } else if b.len() >= 2 && b[0] == 0x00u8 && b[1] == 0x02u8 {
            Some(KeyAlgorithm::AesGcmSiv)
        } else {
            None
        }
    }

    /// The algorithm's 2-byte big-endian tag.
    pub fn id(self) -> (r: [u8; 2])
        ensures
            r@ == self.spec_id(),
    {
        let r: [u8; 2] = match self {
            KeyAlgorithm::ChaCha20Poly1305 => [0x00, 0x01],
            KeyAlgorithm::AesGcmSiv => [0x00, 0x02],
        };
        proof {
            assert(r@ =~= self.spec_id());
        }
        r
    }

    /// The algorithm's exact key length in bytes.
    pub fn key_len(self) -> (r: usize)
        ensures
            r == self.spec_key_len(),
    {
        match self {
            KeyAlgorithm::ChaCha20Poly1305 => CHACHA_KEY_LEN,
            KeyAlgorithm::AesGcmSiv => AES_SIV_KEY_LEN,
        }
    }

    /// Read an algorithm tag from the first two bytes; unrecognized tags are
    /// a hard rejection, never a fallback.
    pub fn from_id_bytes(b: &[u8]) -> (r: Result<KeyAlgorithm, Error>)
        ensures
            r matches Ok(a) ==> KeyAlgorithm::spec_alg_of(b@) == Some(a),
            r is Err ==> KeyAlgorithm::spec_alg_of(b@) is None,
            r matches Err(e) ==> e is UnsupportedAlgorithm,
    {
        if b.len() < 2 {
            return Err(Error::UnsupportedAlgorithm);
        }
        if b[0] == 0x00 && b[1] == 0x01 {
            Ok(KeyAlgorithm::ChaCha20Poly1305)
        } else if b[0] == 0x00 && b[1] == 0x02 {
            Ok(KeyAlgorithm::AesGcmSiv)
        } else {
            Err(Error::UnsupportedAlgorithm)
        }
    }
}

/// A caller-facing ciphertext envelope: the identifier and version of the
/// key that sealed it, and the sealed bytes.
#[derive(Debug, Clone)]
pub struct Ciphertext {
    /// The identifier whose key sealed the payload.
    pub identifier: String,
    /// The key version that sealed the payload.
    pub version: u64,
    /// The nonce-prefixed authenticated ciphertext.
    pub ciphertext: Vec<u8>,
}

/// Caller-supplied audit context for one request.
#[derive(Debug, Clone)]
pub struct RequestInfo {
    /// Identifier of the request event.
    pub event_id: String,
    /// The service on whose behalf the operation runs.
    pub service: String,
    /// The user on whose behalf the operation runs.
    pub user: String,
    /// The data key involved, if any.
    pub data_key: Option<String>,
}

/// `ct` is an envelope of `p` under the record's key and algorithm.
pub open spec fn rec_seals(rec: EncryptionKey, ct: Seq<u8>, p: Seq<u8>) -> bool {
    match rec.algorithm {
        KeyAlgorithm::ChaCha20Poly1305 => chacha_envelope_seals(rec.key@, ct, p),
        KeyAlgorithm::AesGcmSiv => siv_envelope_seals(rec.key@, ct, p),
    }
}

/// `c` is a well-formed cipher that seals exactly what the record's key
/// seals.
pub open spec fn cipher_matches(c: OneOfCipher, rec: EncryptionKey) -> bool {
    &&& c.well_formed()
    &&& (forall|ct: Seq<u8>, p: Seq<u8>| #[trigger] c.seals(ct, p) <==> rec_seals(rec, ct, p))
}

/// The database `db` holds, at the version path of `(id, version)`, an
/// envelope sealed by `kek` whose payload is the encoding of `rec`.
pub open spec fn stores_record(
    kek: RotatableCipher,
    db: Map<Seq<char>, Seq<u8>>,
    id: Seq<char>,
    version: u64,
    rec: EncryptionKey,
) -> bool {
    &&& db.contains_key(spec_version_path(id, version))
    &&& kek.seals(db[spec_version_path(id, version)], rec.spec_encoded())
    &&& rec.well_formed()
    &&& rec.version == version
    &&& rec.identifier@ == vstd::utf8::encode_utf8(id)
}

/// The database `db` holds, at the latest path of `id`, a pointer naming
/// `version`.
pub open spec fn latest_is(db: Map<Seq<char>, Seq<u8>>, id: Seq<char>, version: u64) -> bool {
    &&& db.contains_key(spec_latest_path(id))
    &&& exists|rf: EncryptionKeyRef|
        db[spec_latest_path(id)] == #[trigger] rf.spec_encoded() && rf.version == version
}

/// Some record stored for `(id, version)` seals `ct` to `p`.
pub open spec fn decryptable_to(
    kek: RotatableCipher,
    db: Map<Seq<char>, Seq<u8>>,
    id: Seq<char>,
    version: u64,
    ct: Seq<u8>,
    p: Seq<u8>,
) -> bool {
    exists|rec: EncryptionKey|
        stores_record(kek, db, id, version, rec) && #[trigger] rec_seals(rec, ct, p)
}

/// A first-use key is established: some record stored at version 1 of `id`
/// carries the configured algorithm and seals `ct` to `p`.
pub open spec fn fresh_key_established(
    kek: RotatableCipher,
    db: Map<Seq<char>, Seq<u8>>,
    id: Seq<char>,
    alg: KeyAlgorithm,
    ct: Seq<u8>,
    p: Seq<u8>,
) -> bool {
    exists|rec: EncryptionKey|
        #[trigger] stores_record(kek, db, id, 1, rec) && rec.algorithm == alg && rec_seals(
            rec,
            ct,
            p,
        )
}

/// Version pinning: whether a pinned envelope decrypts, and to what, depends
/// only on the record standing at that exact version's path. Any change of
/// the database that leaves that record in place (a new version written, an
/// advanced latest pointer) leaves every pinned ciphertext decryptable to
/// the same plaintext.
pub proof fn lemma_version_pinning(
    kek: RotatableCipher,
    db1: Map<Seq<char>, Seq<u8>>,
    db2: Map<Seq<char>, Seq<u8>>,
    id: Seq<char>,
    version: u64,
    ct: Seq<u8>,
    p: Seq<u8>,
)
    requires
        decryptable_to(kek, db1, id, version, ct, p),
        db2.contains_key(spec_version_path(id, version)),
        db2[spec_version_path(id, version)] == db1[spec_version_path(id, version)],
    ensures
        decryptable_to(kek, db2, id, version, ct, p),
{
    let rec = choose|rec: EncryptionKey|
        stores_record(kek, db1, id, version, rec) && #[trigger] rec_seals(rec, ct, p);
    assert(stores_record(kek, db2, id, version, rec));
}

/// Every version record of `id` other than `fresh` survives unchanged from
/// `a` to `b`: versions are never overwritten once written, only superseded.
pub open spec fn preserves_other_versions(
    a: Map<Seq<char>, Seq<u8>>,
    b: Map<Seq<char>, Seq<u8>>,
    id: Seq<char>,
    fresh: u64,
) -> bool {
    forall|w: u64|
        w != fresh && a.contains_key(#[trigger] spec_version_path(id, w)) ==> (b.contains_key(
            spec_version_path(id, w),
        ) && b[spec_version_path(id, w)] == a[spec_version_path(id, w)])
}

/// The two maps agree everywhere but possibly at `k1` and `k2`.
pub open spec fn agrees_except(
    a: Map<Seq<char>, Seq<u8>>,
    b: Map<Seq<char>, Seq<u8>>,
    k1: Seq<char>,
    k2: Seq<char>,
) -> bool {
    forall|k: Seq<char>|
        k != k1 && k != k2 ==> (#[trigger] b.contains_key(k) == a.contains_key(k) && (
        a.contains_key(k) ==> b[k] == a[k]))
}

/// Whenever the database changed only at the version-1 path and the latest
/// path of `id`, every other version record of `id` survives unchanged.
proof fn lemma_preserved(a: Map<Seq<char>, Seq<u8>>, b: Map<Seq<char>, Seq<u8>>, id: Seq<char>)
    requires
        agrees_except(a, b, spec_version_path(id, 1), spec_latest_path(id)),
    ensures
        preserves_other_versions(a, b, id, 1),
{
    assert forall|w: u64|
        w != 1 && a.contains_key(#[trigger] spec_version_path(id, w)) implies (b.contains_key(
        spec_version_path(id, w),
    ) && b[spec_version_path(id, w)] == a[spec_version_path(id, w)]) by {
        paths::lemma_version_paths_distinct(id, w, 1);
        paths::lemma_paths_distinct(id, w);
        assert(b.contains_key(spec_version_path(id, w)) == a.contains_key(
            spec_version_path(id, w),
        ));
    }
}

/// Build the concrete cipher a record describes.
pub fn cipher_from_record(rec: &EncryptionKey) -> (r: OneOfCipher)
    requires
        rec.well_formed(),
    ensures
        cipher_matches(r, *rec),
{
    match rec.algorithm {
        KeyAlgorithm::ChaCha20Poly1305 => OneOfCipher::ChaCha20Poly1305(
            ChaCha20Poly1305Cipher::new(crate::copy_bytes(rec.key.as_slice())),
        ),
        KeyAlgorithm::AesGcmSiv => OneOfCipher::AesGcmSiv(
            AesGcmSivCipher::new(crate::copy_bytes(rec.key.as_slice())),
        ),
    }
}

/// The DEK lifecycle manager.
pub struct Encryptor<L, S> {
    audit_logger: L,
    algorithm: KeyAlgorithm,
    kek_id: String,
    storage: CryptedStorage<RotatableCipher, S>,
}

impl<L: AuditLogger, S: LowLevelStorage> Encryptor<L, S> {
    /// The KEK set protecting the key database.
    pub closed spec fn spec_kek(&self) -> RotatableCipher {
        self.storage.spec_cipher()
    }

    /// The raw contents of the key database (sealed envelopes by path).
    pub closed spec fn db(&self) -> Map<Seq<char>, Seq<u8>> {
        self.storage.raw()
    }

    /// The algorithm used for newly created DEKs.
    pub closed spec fn spec_algorithm(&self) -> KeyAlgorithm {
        self.algorithm
    }

    /// The display form of the default KEK identifier.
    pub closed spec fn spec_key_id(&self) -> Seq<char> {
        self.kek_id@
    }

    /// The KEK set is well formed.
    pub open spec fn well_formed(&self) -> bool {
        self.spec_kek().well_formed()
    }

    /// Construct an encryptor over a KEK set and a low-level store.
    pub fn new(
        audit_logger: L,
        algorithm: KeyAlgorithm,
        kek_id: String,
        kek: RotatableCipher,
        storage: S,
    ) -> (r: Encryptor<L, S>)
        requires
            kek.well_formed(),
        ensures
            r.well_formed(),
            r.spec_kek() == kek,
            r.spec_algorithm() == algorithm,
            r.spec_key_id() == kek_id@,
            r.db() == storage.contents(),
    {
        Encryptor { audit_logger, algorithm, kek_id, storage: CryptedStorage::new(kek, storage) }
    }

    /// Take the encrypted key database back out.
    pub fn into_storage(self) -> (r: CryptedStorage<RotatableCipher, S>)
        ensures
            r.spec_cipher() == self.spec_kek(),
            r.raw() == self.db(),
    {
        self.storage
    }

    /// Whether this identifier names a KEK of the set.
    pub fn contains_key(&self, key_id: &KeyId) -> (r: bool)
        ensures
            r == self.spec_kek().has_id(key_id@),
    {
        self.storage.cipher_ref().contains_key(key_id)
    }

    /// The display form of the default KEK identifier.
    pub fn get_key_id(&self) -> (r: String)
        ensures
            r@ == self.spec_key_id(),
    {
        self.kek_id.clone()
    }

    /// Read the latest-version pointer of `id`, if present. A well-formed
    /// pointer is owed back, up to a backend failure.
    fn read_latest(&self, id: &str) -> (r: Result<Option<EncryptionKeyRef>, Error>)
        ensures
            r matches Ok(Some(rf)) ==> self.db().contains_key(spec_latest_path(id@))
                && self.db()[spec_latest_path(id@)] == rf.spec_encoded(),
            r matches Ok(None) ==> !self.db().contains_key(spec_latest_path(id@)),
            !self.db().contains_key(spec_latest_path(id@)) ==> (r matches Ok(None) || (
            r matches Err(e) && e is Storage)),
            forall|rf: EncryptionKeyRef|
                self.db().contains_key(spec_latest_path(id@)) && self.db()[spec_latest_path(id@)]
                    == #[trigger] rf.spec_encoded() ==> ((r matches Ok(Some(rf2))
                    && rf2.spec_encoded() == rf.spec_encoded()) || (r matches Err(e) && e
                    is Storage)),
            r matches Err(e) ==> (e is Storage || e is InvalidRecord),
    {
        let path = latest_path(id);
        match self.storage.get_raw(path.as_str()) {
            Ok(Some(b)) => match EncryptionKeyRef::decode(b.as_slice()) {
                Ok(rf) => Ok(Some(rf)),
                Err(e) => Err(e),
            },
            Ok(None) => Ok(None),
            Err(e) => Err(Error::Storage(e)),
        }
    }

    /// Read and validate the key record of `(id, version)`. A stored record
    /// is owed back, up to a backend failure; `NotFound` comes exactly when
    /// the record is absent, and a malformed or mismatched record implies
    /// that nothing well formed is stored there.
    fn read_version(&self, id: &str, version: u64) -> (r: Result<EncryptionKey, Error>)
        requires
            self.well_formed(),
        ensures
            r matches Ok(rec) ==> stores_record(self.spec_kek(), self.db(), id@, version, rec) && (
            forall|other: EncryptionKey|
                #[trigger] stores_record(self.spec_kek(), self.db(), id@, version, other)
                    ==> other.spec_encoded() == rec.spec_encoded()),
            r matches Err(e) && e is NotFound ==> !self.db().contains_key(
                spec_version_path(id@, version),
            ),
            !self.db().contains_key(spec_version_path(id@, version)) ==> (r matches Err(e) && (e
                is NotFound || e is Storage)),
            forall|rec: EncryptionKey|
                #[trigger] stores_record(self.spec_kek(), self.db(), id@, version, rec) ==> (r
                    is Ok || (r matches Err(e) && e is Storage)),
            (r matches Err(e) && (e is InvalidRecord || e is UnsupportedAlgorithm)) ==> (
            forall|rec: EncryptionKey|
                !(#[trigger] stores_record(self.spec_kek(), self.db(), id@, version, rec))),
            r matches Err(e) ==> (e is NotFound || e is InvalidRecord || e is UnsupportedAlgorithm
                || e is Storage),
    {
        let ghost vpath = spec_version_path(id@, version);
        let path = version_path(id, version);
        let sealed = match self.storage.get(path.as_str()) {
            Ok(Some(b)) => b,
            Ok(None) => {
                return Err(Error::NotFound);
            },
            Err(e) => {
                return Err(Error::Storage(e));
            },
        };
        let rec = match EncryptionKey::decode(sealed.as_slice()) {
            Ok(rec) => rec,
            Err(e) => {
                proof {
                    assert forall|rec: EncryptionKey|
                        !(#[trigger] stores_record(
                            self.spec_kek(),
                            self.db(),
                            id@,
                            version,
                            rec,
                        )) by {
                        if stores_record(self.spec_kek(), self.db(), id@, version, rec) {
                            assert(sealed@ == rec.spec_encoded());
                        }
                    }
                }
                return Err(e);
            },
        };
        if rec.version != version {
            proof {
                assert forall|other: EncryptionKey|
                    !(#[trigger] stores_record(
                        self.spec_kek(),
                        self.db(),
                        id@,
                        version,
                        other,
                    )) by {
                    if stores_record(self.spec_kek(), self.db(), id@, version, other) {
                        assert(sealed@ == other.spec_encoded());
                        key::lemma_key_encoding_injective(other, rec);
                    }
                }
            }
            return Err(Error::InvalidRecord);
        }
        if !crate::bytes_eq(rec.identifier.as_slice(), id.as_bytes()) {
            proof {
                assert forall|other: EncryptionKey|
                    !(#[trigger] stores_record(
                        self.spec_kek(),
                        self.db(),
                        id@,
                        version,
                        other,
                    )) by {
                    if stores_record(self.spec_kek(), self.db(), id@, version, other) {
                        assert(sealed@ == other.spec_encoded());
                        key::lemma_key_encoding_injective(other, rec);
                    }
                }
            }
            return Err(Error::InvalidRecord);
        }
        Ok(rec)
    }

    /// Create a fresh record for the first version of `id`.
    fn fresh_record(&self, id: &str) -> (r: Result<EncryptionKey, Error>)
        ensures
            r matches Ok(rec) ==> rec.well_formed() && rec.version == 1 && rec.algorithm
                == self.spec_algorithm() && rec.identifier@ == id.spec_bytes(),
            r matches Err(e) ==> e is Encryption,
    {
        let key = match self.algorithm {
            KeyAlgorithm::ChaCha20Poly1305 => match ChaCha20Poly1305Cipher::generate() {
                Ok(c) => c.key(),
                Err(e) => {
                    return Err(Error::Encryption(e));
                },
            },
            KeyAlgorithm::AesGcmSiv => match AesGcmSivCipher::generate() {
                Ok(c) => c.key(),
                Err(e) => {
                    return Err(Error::Encryption(e));
                },
            },
        };
        Ok(EncryptionKey {
            identifier: id.as_bytes_vec(),
            version: 1,
            algorithm: self.algorithm,
            key,
        })
    }

    /// Run the create-first-key transition: write a fresh version-1 record,
    /// then try to install the latest pointer by compare-and-swap. If the
    /// swap is lost, another writer won the race: adopt the winner's version,
    /// and delete the version-1 record only when the winner's pointer names
    /// another version (otherwise the record standing at version 1 is live).
    ///
    /// The version-1 record itself is written with a plain `set`: under a
    /// truly concurrent store, two racing creators can therefore overwrite
    /// each other at that one path before the swap decides, and the record
    /// standing there afterwards is the last write, which every later read
    /// sees consistently. Only the swap on the latest pointer arbitrates.
    fn create_first_key(&mut self, id: &str) -> (r: Result<u64, Error>)
        requires
            old(self).well_formed(),
        ensures
            final(self).well_formed(),
            final(self).spec_kek() == old(self).spec_kek(),
            final(self).spec_algorithm() == old(self).spec_algorithm(),
            final(self).spec_key_id() == old(self).spec_key_id(),
            r is Ok ==> agrees_except(
                old(self).db(),
                final(self).db(),
                spec_version_path(id@, 1),
                spec_latest_path(id@),
            ),
            r is Ok ==> preserves_other_versions(old(self).db(), final(self).db(), id@, 1),
            r matches Ok(v) ==> latest_is(final(self).db(), id@, v),
            !old(self).db().contains_key(spec_latest_path(id@)) ==> (r is Ok || (r matches Err(e)
                && (e is Storage || e is Encryption))),
            !old(self).db().contains_key(spec_latest_path(id@)) ==> (r matches Ok(v) ==> v == 1
                && (exists|rec: EncryptionKey|
                #[trigger] stores_record(old(self).spec_kek(), final(self).db(), id@, 1, rec)
                    && rec.algorithm == old(self).spec_algorithm())),
            r matches Err(e) ==> (e is Storage || e is Encryption || e is NotFound || e
                is InvalidRecord),
    {
        let rec = match self.fresh_record(id) {
            Ok(r) => r,
            Err(e) => {
                return Err(e);
            },
        };
        let vpath = version_path(id, 1);
        let enc = rec.encode();
        match self.storage.set(vpath.as_str(), enc.as_slice()) {
            Ok(u) => u,
            Err(e) => {
                return Err(Error::Storage(e));
            },
        }
        let lpath = latest_path(id);
        let rf = EncryptionKeyRef { identifier: id.as_bytes_vec(), version: 1 };
        let rfb = rf.encode();
        let won = match self.storage.set_if_absent(lpath.as_str(), rfb.as_slice()) {
            Ok(b) => b,
            Err(e) => {
                return Err(Error::Storage(e));
            },
        };
        if won {
            proof {
                assert(self.db()[spec_latest_path(id@)] == rf.spec_encoded());
                lemma_preserved(old(self).db(), self.db(), id@);
                paths::lemma_paths_distinct(id@, 1);
                let c = choose|c: Seq<u8>|
                    self.db() == old(self).db().insert(spec_version_path(id@, 1), c).insert(
                        spec_latest_path(id@),
                        rfb@,
                    ) && #[trigger] old(self).spec_kek().seals(c, enc@);
                assert(self.db()[spec_version_path(id@, 1)] == c);
                assert(stores_record(old(self).spec_kek(), self.db(), id@, 1, rec));
            }
            Ok(1)
        } else {
            proof {
                if !old(self).db().contains_key(spec_latest_path(id@)) {
                    paths::lemma_paths_distinct(id@, 1);
                    let c = choose|c: Seq<u8>|
                        self.db() == old(self).db().insert(spec_version_path(id@, 1), c)
                            && #[trigger] old(self).spec_kek().seals(c, enc@);
                    assert(self.db().contains_key(spec_latest_path(id@)));
                    assert(false);
                }
            }
            let winner = match self.read_latest(id) {
                Ok(Some(x)) => x,
                Ok(None) => {
                    return Err(Error::NotFound);
                },
                Err(e) => {
                    return Err(e);
                },
            };
            if winner.version != 1 {
                proof {
                    paths::lemma_paths_distinct(id@, 1);
                }
                match self.storage.delete(vpath.as_str()) {
                    Ok(u) => u,
                    Err(e) => {
                        return Err(Error::Storage(e));
                    },
                }
            }
            proof {
                lemma_preserved(old(self).db(), self.db(), id@);
            }
            Ok(winner.version)
        }
    }

    /// Resolve the latest cipher for `id`, creating the first key when none
    /// exists yet. Returns the cipher and the version it belongs to. Success
    /// is owed on a fresh identifier, and on one whose latest pointer names
    /// a stored record, up to collaborator or randomness failure.
    #[verifier::rlimit(60)]
    pub fn get_latest_cipher(&mut self, identifier: &str) -> (r: Result<(OneOfCipher, u64), Error>)
        requires
            old(self).well_formed(),
        ensures
            final(self).well_formed(),
            final(self).spec_kek() == old(self).spec_kek(),
            final(self).spec_algorithm() == old(self).spec_algorithm(),
            final(self).spec_key_id() == old(self).spec_key_id(),
            old(self).db().contains_key(spec_latest_path(identifier@)) ==> final(self).db() == old(
                self,
            ).db(),
            r is Ok ==> agrees_except(
                old(self).db(),
                final(self).db(),
                spec_version_path(identifier@, 1),
                spec_latest_path(identifier@),
            ),
            r is Ok ==> preserves_other_versions(old(self).db(), final(self).db(), identifier@, 1),
            r matches Ok((c, v)) ==> latest_is(final(self).db(), identifier@, v) && (
            exists|rec: EncryptionKey|
                stores_record(final(self).spec_kek(), final(self).db(), identifier@, v, rec)
                    && #[trigger] cipher_matches(c, rec)),
            !old(self).db().contains_key(spec_latest_path(identifier@)) ==> (r is Ok || (
            r matches Err(e) && (e is Storage || e is Encryption))),
            !old(self).db().contains_key(spec_latest_path(identifier@)) ==> (r matches Ok((c, v))
                ==> v == 1 && (exists|rec: EncryptionKey|
                #[trigger] stores_record(final(self).spec_kek(), final(self).db(), identifier@, 1, rec)
                    && rec.algorithm == old(self).spec_algorithm() && cipher_matches(c, rec))),
            forall|v: u64, rec: EncryptionKey|
                latest_is(old(self).db(), identifier@, v) && #[trigger] stores_record(
                    old(self).spec_kek(),
                    old(self).db(),
                    identifier@,
                    v,
                    rec,
                ) ==> (r is Ok || (r matches Err(e) && e is Storage)),
            r matches Err(e) ==> (e is Storage || e is Encryption || e is NotFound || e
                is InvalidRecord || e is UnsupportedAlgorithm),
    {
        let ghost pre = *old(self);
        let version: u64 = match self.read_latest(identifier) {
            Ok(Some(rf)) => {
                proof {
                    assert forall|v: u64, rec: EncryptionKey|
                        latest_is(pre.db(), identifier@, v) && #[trigger] stores_record(
                            pre.spec_kek(),
                            pre.db(),
                            identifier@,
                            v,
                            rec,
                        ) implies rf.version == v by {
                        let rfw = choose|rfw: EncryptionKeyRef|
                            pre.db()[spec_latest_path(identifier@)] == #[trigger] rfw.spec_encoded()
                                && rfw.version == v;
                        key::lemma_ref_encoding_injective(rf, rfw);
                    }
                }
                rf.version
            },
            Ok(None) => {
                match self.create_first_key(identifier) {
                    Ok(v) => v,
                    Err(e) => {
                        return Err(e);
                    },
                }
            },
            Err(e) => {
                proof {
                    assert forall|v: u64, rec: EncryptionKey|
                        latest_is(pre.db(), identifier@, v) && #[trigger] stores_record(
                            pre.spec_kek(),
                            pre.db(),
                            identifier@,
                            v,
                            rec,
                        ) implies e is Storage by {
                        let rfw = choose|rfw: EncryptionKeyRef|
                            pre.db()[spec_latest_path(identifier@)] == #[trigger] rfw.spec_encoded()
                                && rfw.version == v;
                    }
                }
                return Err(e);
            },
        };
        let rec = match self.read_version(identifier, version) {
            Ok(rec) => rec,
            Err(e) => {
                proof {
                    if !pre.db().contains_key(spec_latest_path(identifier@)) {
                        let rec0 = choose|rec0: EncryptionKey|
                            #[trigger] stores_record(
                                pre.spec_kek(),
                                self.db(),
                                identifier@,
                                1,
                                rec0,
                            ) && rec0.algorithm == pre.spec_algorithm();
                        assert(stores_record(
                            self.spec_kek(),
                            self.db(),
                            identifier@,
                            version,
                            rec0,
                        ));
                    }
                    assert forall|v: u64, rec2: EncryptionKey|
                        latest_is(pre.db(), identifier@, v) && #[trigger] stores_record(
                            pre.spec_kek(),
                            pre.db(),
                            identifier@,
                            v,
                            rec2,
                        ) implies e is Storage by {
                        assert(stores_record(
                            self.spec_kek(),
                            self.db(),
                            identifier@,
                            version,
                            rec2,
                        ));
                    }
                }
                return Err(e);
            },
        };
        let c = cipher_from_record(&rec);
        proof {
            if !pre.db().contains_key(spec_latest_path(identifier@)) {
                let rec0 = choose|rec0: EncryptionKey|
                    #[trigger] stores_record(pre.spec_kek(), self.db(), identifier@, 1, rec0)
                        && rec0.algorithm == pre.spec_algorithm();
                assert(stores_record(self.spec_kek(), self.db(), identifier@, version, rec0));
                key::lemma_key_encoding_injective(rec0, rec);
                assert(stores_record(self.spec_kek(), self.db(), identifier@, 1, rec)
                    && rec.algorithm == pre.spec_algorithm() && cipher_matches(c, rec));
            }
        }
        Ok((c, version))
    }

    /// Resolve the cipher of one exact recorded version of `id`, for
    /// decrypting ciphertext pinned to it. The latest pointer is not
    /// involved.
    pub fn get_cipher(&self, identifier: &str, version: u64) -> (r: Result<OneOfCipher, Error>)
        requires
            self.well_formed(),
        ensures
            r matches Ok(c) ==> exists|rec: EncryptionKey|
                stores_record(self.spec_kek(), self.db(), identifier@, version, rec)
                    && #[trigger] cipher_matches(c, rec) && (forall|other: EncryptionKey|
                    #[trigger] stores_record(self.spec_kek(), self.db(), identifier@, version, other)
                        ==> other.spec_encoded() == rec.spec_encoded()),
            r matches Err(e) && e is NotFound ==> !self.db().contains_key(
                spec_version_path(identifier@, version),
            ),
            !self.db().contains_key(spec_version_path(identifier@, version)) ==> (r matches Err(e)
                && (e is NotFound || e is Storage)),
            forall|rec: EncryptionKey|
                #[trigger] stores_record(self.spec_kek(), self.db(), identifier@, version, rec)
                    ==> (r is Ok || (r matches Err(e) && e is Storage)),
            (r matches Err(e) && (e is InvalidRecord || e is UnsupportedAlgorithm)) ==> (
            forall|rec: EncryptionKey|
                !(#[trigger] stores_record(self.spec_kek(), self.db(), identifier@, version, rec))),
            r matches Err(e) ==> (e is NotFound || e is InvalidRecord || e is UnsupportedAlgorithm
                || e is Storage),
    {
        let rec = match self.read_version(identifier, version) {
            Ok(rec) => rec,
            Err(e) => {
                return Err(e);
            },
        };
        Ok(cipher_from_record(&rec))
    }

    /// Encrypt caller data under the latest DEK of `identifier` (created on
    /// first use), returning the envelope pinned to the sealing version, and
    /// audit the operation.
    #[verifier::rlimit(60)]
    #[verifier::spinoff_prover]
    pub fn encrypt(&mut self, request: RequestInfo, identifier: &str, data: &[u8]) -> (r: Result<
        Ciphertext,
        Error,
    >)
        requires
            old(self).well_formed(),
        ensures
            final(self).well_formed(),
            final(self).spec_kek() == old(self).spec_kek(),
            final(self).spec_algorithm() == old(self).spec_algorithm(),
            final(self).spec_key_id() == old(self).spec_key_id(),
            old(self).db().contains_key(spec_latest_path(identifier@)) ==> final(self).db() == old(
                self,
            ).db(),
            r is Ok ==> agrees_except(
                old(self).db(),
                final(self).db(),
                spec_version_path(identifier@, 1),
                spec_latest_path(identifier@),
            ),
            r is Ok ==> preserves_other_versions(old(self).db(), final(self).db(), identifier@, 1),
            r matches Ok(c) ==> c.identifier@ == identifier@ && latest_is(
                final(self).db(),
                identifier@,
                c.version,
            ) && (exists|rec: EncryptionKey|
                stores_record(
                    final(self).spec_kek(),
                    final(self).db(),
                    identifier@,
                    c.version,
                    rec,
                ) && #[trigger] rec_seals(rec, c.ciphertext@, data@)),
            !old(self).db().contains_key(spec_latest_path(identifier@)) ==> (r is Ok || (
            r matches Err(e) && (e is Storage || e is Encryption))),
            !old(self).db().contains_key(spec_latest_path(identifier@)) ==> (r matches Ok(c) ==> (
            c.version == 1 && fresh_key_established(
                final(self).spec_kek(),
                final(self).db(),
                identifier@,
                old(self).spec_algorithm(),
                c.ciphertext@,
                data@,
            ))),
            forall|v: u64, rec: EncryptionKey|
                latest_is(old(self).db(), identifier@, v) && #[trigger] stores_record(
                    old(self).spec_kek(),
                    old(self).db(),
                    identifier@,
                    v,
                    rec,
                ) ==> (r is Ok || (r matches Err(e) && (e is Storage || e is Encryption))),
            r matches Err(e) ==> (e is Storage || e is Encryption || e is NotFound || e
                is InvalidRecord || e is UnsupportedAlgorithm),
    {
        let ghost pre = *old(self);
        let (cipher, version) = match self.get_latest_cipher(identifier) {
            Ok(cv) => cv,
            Err(e) => {
                return Err(e);
            },
        };
        let sealed = match cipher.encrypt(data) {
            Ok(c) => c,
            Err(e) => {
                return Err(Error::Encryption(e));
            },
        };
        let out = Ciphertext { identifier: id_string(identifier), version, ciphertext: sealed };
        proof {
            let rec = choose|rec: EncryptionKey|
                stores_record(self.spec_kek(), self.db(), identifier@, version, rec)
                    && #[trigger] cipher_matches(cipher, rec);
            assert(cipher.seals(out.ciphertext@, data@));
            assert(rec_seals(rec, out.ciphertext@, data@));
            assert(exists|rec: EncryptionKey|
                stores_record(self.spec_kek(), self.db(), identifier@, out.version, rec)
                    && #[trigger] rec_seals(rec, out.ciphertext@, data@));
            if !pre.db().contains_key(spec_latest_path(identifier@)) {
                let rec1 = choose|rec1: EncryptionKey|
                    #[trigger] stores_record(self.spec_kek(), self.db(), identifier@, 1, rec1)
                        && rec1.algorithm == pre.spec_algorithm() && cipher_matches(cipher, rec1);
                assert(rec_seals(rec1, out.ciphertext@, data@));
                assert(fresh_key_established(
                    self.spec_kek(),
                    self.db(),
                    identifier@,
                    pre.spec_algorithm(),
                    out.ciphertext@,
                    data@,
                ));
            }
        }
        let entry = AuditLog {
            timestamp_millis: crate::audit::now_unix_millis(),
            event_id: request.event_id,
            service: request.service,
            user: request.user,
            action: Action::Encryption(
                EncryptionAction {
                    data_key: request.data_key,
                    algorithm: String::from_str(cipher.name()),
                    key_id: self.kek_id.clone(),
                },
            ),
        };
        self.audit_logger.log(entry);
        Ok(out)
    }

    /// Decrypt an envelope with the exact DEK version it names, and audit
    /// the operation. Never returns partial or altered plaintext: a result
    /// is exactly what the recorded key sealed.
    #[verifier::rlimit(60)]
    #[verifier::spinoff_prover]
    pub fn decrypt(&mut self, request: RequestInfo, ciphertext: &Ciphertext) -> (r: Result<
        Vec<u8>,
        Error,
    >)
        requires
            old(self).well_formed(),
        ensures
            final(self).well_formed(),
            final(self).db() == old(self).db(),
            final(self).spec_kek() == old(self).spec_kek(),
            final(self).spec_algorithm() == old(self).spec_algorithm(),
            final(self).spec_key_id() == old(self).spec_key_id(),
            r matches Ok(p) ==> decryptable_to(
                old(self).spec_kek(),
                old(self).db(),
                ciphertext.identifier@,
                ciphertext.version,
                ciphertext.ciphertext@,
                p@,
            ),
            forall|rec: EncryptionKey, p: Seq<u8>|
                stores_record(
                    old(self).spec_kek(),
                    old(self).db(),
                    ciphertext.identifier@,
                    ciphertext.version,
                    rec,
                ) && #[trigger] rec_seals(rec, ciphertext.ciphertext@, p) ==> (r matches Ok(q)
                    ==> q@ == p),
            r matches Err(e) && e is NotFound ==> !old(self).db().contains_key(
                spec_version_path(ciphertext.identifier@, ciphertext.version),
            ),
            forall|p: Seq<u8>|
                #[trigger] decryptable_to(
                    old(self).spec_kek(),
                    old(self).db(),
                    ciphertext.identifier@,
                    ciphertext.version,
                    ciphertext.ciphertext@,
                    p,
                ) ==> ((r matches Ok(q) && q@ == p) || (r matches Err(e) && e is Storage)),
            !old(self).db().contains_key(spec_version_path(ciphertext.identifier@, ciphertext.version))
                ==> (r matches Err(e) && (e is NotFound || e is Storage)),
            (r matches Err(e) && (e is InvalidRecord || e is UnsupportedAlgorithm)) ==> (
            forall|rec: EncryptionKey|
                !(#[trigger] stores_record(
                    old(self).spec_kek(),
                    old(self).db(),
                    ciphertext.identifier@,
                    ciphertext.version,
                    rec,
                ))),
            (r matches Err(e) && e is Decryption) ==> (forall|p: Seq<u8>|
                !(#[trigger] decryptable_to(
                    old(self).spec_kek(),
                    old(self).db(),
                    ciphertext.identifier@,
                    ciphertext.version,
                    ciphertext.ciphertext@,
                    p,
                ))),
            r matches Err(e) ==> (e is NotFound || e is InvalidRecord || e is UnsupportedAlgorithm
                || e is Decryption || e is Storage),
    {
        let cipher = match self.get_cipher(ciphertext.identifier.as_str(), ciphertext.version) {
            Ok(c) => c,
            Err(e) => {
                proof {
                    let kek = self.spec_kek();
                    let db = self.db();
                    let id = ciphertext.identifier@;
                    let v = ciphertext.version;
                    let ct = ciphertext.ciphertext@;
                    assert forall|p: Seq<u8>|
                        #[trigger] decryptable_to(kek, db, id, v, ct, p) implies e is Storage by {
                        let recw = choose|recw: EncryptionKey|
                            stores_record(kek, db, id, v, recw) && #[trigger] rec_seals(
                                recw,
                                ct,
                                p,
                            );
                        assert(stores_record(kek, db, id, v, recw));
                    }
                }
                return Err(e);
            },
        };
        let plain = match cipher.decrypt(ciphertext.ciphertext.as_slice()) {
            Ok(p) => p,
            Err(e) => {
                proof {
                    let kek = self.spec_kek();
                    let db = self.db();
                    let id = ciphertext.identifier@;
                    let v = ciphertext.version;
                    let ct = ciphertext.ciphertext@;
                    let rec_m = choose|rec_m: EncryptionKey|
                        stores_record(kek, db, id, v, rec_m) && #[trigger] cipher_matches(
                            cipher,
                            rec_m,
                        ) && (forall|other: EncryptionKey|
                            #[trigger] stores_record(kek, db, id, v, other)
                                ==> other.spec_encoded() == rec_m.spec_encoded());
                    assert(db.contains_key(spec_version_path(id, v)));
                    assert forall|p: Seq<u8>|
                        !(#[trigger] decryptable_to(kek, db, id, v, ct, p)) by {
                        if decryptable_to(kek, db, id, v, ct, p) {
                            let recw = choose|recw: EncryptionKey|
                                stores_record(kek, db, id, v, recw) && #[trigger] rec_seals(
                                    recw,
                                    ct,
                                    p,
                                );
                            key::lemma_key_encoding_injective(recw, rec_m);
                            assert(rec_seals(rec_m, ct, p));
                            assert(cipher.seals(ct, p));
                        }
                    }
                }
                return Err(Error::Decryption(e));
            },
        };
        proof {
            let kek = self.spec_kek();
            let db = self.db();
            let id = ciphertext.identifier@;
            let v = ciphertext.version;
            let ct = ciphertext.ciphertext@;
            let rec = choose|rec: EncryptionKey|
                stores_record(kek, db, id, v, rec) && #[trigger] cipher_matches(cipher, rec) && (
                forall|other: EncryptionKey|
                    #[trigger] stores_record(kek, db, id, v, other) ==> other.spec_encoded()
                        == rec.spec_encoded());
            assert(cipher.seals(ct, plain@));
            assert(rec_seals(rec, ct, plain@));
            assert(decryptable_to(kek, db, id, v, ct, plain@));
            assert(db.contains_key(spec_version_path(id, v)));
            assert forall|p: Seq<u8>| #[trigger] decryptable_to(kek, db, id, v, ct, p) implies plain@
                == p by {
                let recw = choose|recw: EncryptionKey|
                    stores_record(kek, db, id, v, recw) && #[trigger] rec_seals(recw, ct, p);
                key::lemma_key_encoding_injective(recw, rec);
                assert(rec_seals(rec, ct, p));
                assert(cipher.seals(ct, p));
            }
            assert forall|other: EncryptionKey, p: Seq<u8>|
                stores_record(kek, db, id, v, other) && #[trigger] rec_seals(
                    other,
                    ct,
                    p,
                ) implies plain@ == p by {
                crate::encryption::key::lemma_key_encoding_injective(other, rec);
                assert(rec_seals(rec, ct, p));
                assert(cipher.seals(ct, p));
            }
        }
        let entry = AuditLog {
            timestamp_millis: crate::audit::now_unix_millis(),
            event_id: request.event_id,
            service: request.service,
            user: request.user,
            action: Action::Decryption(
                DecryptionAction {
                    data_key: request.data_key,
                    algorithm: String::from_str(cipher.name()),
                    key_id: self.kek_id.clone(),
                },
            ),
        };
        self.audit_logger.log(entry);
        Ok(plain)
    }
}

/// Copy a borrowed identifier into an owned string.
fn id_string(id: &str) -> (r: String)
    ensures
        r@ == id@,
{
    String::from_str(id)
}

} // verus!
