use kagimori::audit::{AuditLog, AuditLogger, NoopAuditLogger};
use kagimori::ciphers::chacha::ChaCha20Poly1305Cipher;
use kagimori::ciphers::keyid::KeyId;
use kagimori::ciphers::oneof::OneOfCipher;
use kagimori::ciphers::rotatable::RotatableCipher;
use kagimori::ciphers::Cipher;
use kagimori::encryption::identifier::compute_identifier;
use kagimori::encryption::key::{EncryptionKey, EncryptionKeyRef};
use kagimori::encryption::paths::{latest_path, version_path};
use kagimori::encryption::{Ciphertext, Encryptor, Error, KeyAlgorithm, RequestInfo};
use kagimori::storage::compound::CompoundLowLevelStorage;
use kagimori::storage::memory::MemoryLowLevelStorage;
use kagimori::storage::{DataStorage, LowLevelStorage};
use std::rc::Rc;
use std::cell::Cell;

fn make_kek() -> RotatableCipher {
    let id = KeyId::from_bytes(vec![0x11; 16]).unwrap();
    let cipher = OneOfCipher::ChaCha20Poly1305(
        ChaCha20Poly1305Cipher::try_from_bytes(&[0x22; 32]).unwrap(),
    );
    RotatableCipher::new(id.clone(), vec![(id, cipher)])
}

fn request() -> RequestInfo {
    RequestInfo {
        event_id: String::from("evt-1"),
        service: String::from("test-suite"),
        user: String::from("tester"),
        data_key: None,
    }
}

fn new_encryptor<S: LowLevelStorage>(storage: S) -> Encryptor<NoopAuditLogger, S> {
    let kek = make_kek();
    let kek_id = kek.default_key_id();
    Encryptor::new(NoopAuditLogger, KeyAlgorithm::ChaCha20Poly1305, kek_id, kek, storage)
}

/// Counts delivered audit events through a shared counter.
struct CountingLogger {
    events: Rc<Cell<usize>>,
}

impl AuditLogger for CountingLogger {
    fn log(&mut self, _entry: AuditLog) {
        self.events.set(self.events.get() + 1);
    }
}

/// A store that simulates a concurrent writer: just before the first
/// compare-and-swap on the ambushed key, the rival's pending writes land.
struct RacyStore {
    inner: MemoryLowLevelStorage,
    ambush_key: String,
    pending: Vec<(String, Vec<u8>)>,
}

impl DataStorage for RacyStore {
    fn set(&mut self, key: &str, value: &[u8]) -> Result<(), kagimori::storage::Error> {
        self.inner.set(key, value)
    }

    fn get(&self, key: &str) -> Result<Option<Vec<u8>>, kagimori::storage::Error> {
        self.inner.get(key)
    }

    fn delete(&mut self, key: &str) -> Result<(), kagimori::storage::Error> {
        self.inner.delete(key)
    }

    fn contains(&self, key: &str) -> Result<bool, kagimori::storage::Error> {
        self.inner.contains(key)
    }

    fn set_if_absent(&mut self, key: &str, value: &[u8]) -> Result<bool, kagimori::storage::Error> {
        if key == self.ambush_key {
            for (k, v) in self.pending.drain(..) {
                self.inner.set(&k, &v)?;
            }
        }
        self.inner.set_if_absent(key, value)
    }
}

impl LowLevelStorage for RacyStore {

}

#[test]
fn end_to_end_first_use_creates_version_one() {
    let mut encryptor = new_encryptor(MemoryLowLevelStorage::new());

    let first = encryptor.encrypt(request(), "svc-a", b"hello").unwrap();
    assert_eq!(first.identifier, "svc-a");
    assert_eq!(first.version, 1);

    let second = encryptor.encrypt(request(), "svc-a", b"hello").unwrap();
    assert_eq!(second.version, 1);
    assert_ne!(&first.ciphertext[..12], &second.ciphertext[..12]);

    assert_eq!(encryptor.decrypt(request(), &first).unwrap(), b"hello");
    assert_eq!(encryptor.decrypt(request(), &second).unwrap(), b"hello");

    let missing = Ciphertext {
        identifier: String::from("svc-a"),
        version: 2,
        ciphertext: first.ciphertext.clone(),
    };
    assert!(matches!(encryptor.decrypt(request(), &missing), Err(Error::NotFound)));
}

#[test]
fn identifiers_get_independent_keys() {
    let mut encryptor = new_encryptor(MemoryLowLevelStorage::new());
    let a = encryptor.encrypt(request(), "svc-a", b"for a").unwrap();
    let b = encryptor.encrypt(request(), "svc-b", b"for b").unwrap();
    assert_eq!(a.version, 1);
    assert_eq!(b.version, 1);
    assert_eq!(encryptor.decrypt(request(), &a).unwrap(), b"for a");
    assert_eq!(encryptor.decrypt(request(), &b).unwrap(), b"for b");

    let crossed = Ciphertext {
        identifier: String::from("svc-b"),
        version: 1,
        ciphertext: a.ciphertext.clone(),
    };
    assert!(matches!(encryptor.decrypt(request(), &crossed), Err(Error::Decryption(_))));
}

#[test]
fn tampered_payload_is_rejected() {
    let mut encryptor = new_encryptor(MemoryLowLevelStorage::new());
    let sealed = encryptor.encrypt(request(), "svc-a", b"hello").unwrap();
    let mut corrupted = sealed.clone();
    let last = corrupted.ciphertext.len() - 1;
    corrupted.ciphertext[last] ^= 0x01;
    assert!(matches!(encryptor.decrypt(request(), &corrupted), Err(Error::Decryption(_))));
}

#[test]
fn version_pinning_keeps_old_ciphertext_decryptable() {
    // Provision version 1 through first use.
    let mut encryptor = new_encryptor(MemoryLowLevelStorage::new());
    let pinned_v1 = encryptor.encrypt(request(), "svc-a", b"first era").unwrap();
    assert_eq!(pinned_v1.version, 1);

    // Advance the identifier to version 2 out of band: a new sealed record,
    // and the latest pointer rewritten in place.
    let mut storage = encryptor.into_storage();
    let record_v2 = EncryptionKey {
        identifier: b"svc-a".to_vec(),
        version: 2,
        algorithm: KeyAlgorithm::ChaCha20Poly1305,
        key: vec![0x77; 32],
    };
    storage.set(version_path("svc-a", 2).as_str(), &record_v2.encode()).unwrap();
    let mut inner = storage.into_inner();
    let pointer_v2 = EncryptionKeyRef { identifier: b"svc-a".to_vec(), version: 2 };
    inner.set(latest_path("svc-a").as_str(), &pointer_v2.encode()).unwrap();

    let mut encryptor = new_encryptor(inner);
    let pinned_v2 = encryptor.encrypt(request(), "svc-a", b"second era").unwrap();
    assert_eq!(pinned_v2.version, 2);

    assert_eq!(encryptor.decrypt(request(), &pinned_v1).unwrap(), b"first era");
    assert_eq!(encryptor.decrypt(request(), &pinned_v2).unwrap(), b"second era");
}

#[test]
fn lost_race_adopts_the_winning_version_one() {
    // The rival wins between this writer's record write and its swap: the
    // pointer appears, naming version 1. This writer adopts it; the record
    // standing at version 1 is the live one and must not be deleted.
    let pointer = EncryptionKeyRef { identifier: b"svc-a".to_vec(), version: 1 };
    let store = RacyStore {
        inner: MemoryLowLevelStorage::new(),
        ambush_key: latest_path("svc-a"),
        pending: vec![(latest_path("svc-a"), pointer.encode())],
    };
    let mut encryptor = new_encryptor(store);

    let sealed = encryptor.encrypt(request(), "svc-a", b"raced").unwrap();
    assert_eq!(sealed.version, 1);
    assert_eq!(encryptor.decrypt(request(), &sealed).unwrap(), b"raced");
}

#[test]
fn lost_race_cleans_up_its_orphaned_record() {
    // The rival's winning state names version 3; its sealed record for
    // version 3 lands together with the pointer. The loser must delete its
    // own orphaned version-1 record before returning, and use version 3.
    let kek = make_kek();
    let mut seed = kagimori::storage::crypto::CryptedStorage::new(
        kek,
        MemoryLowLevelStorage::new(),
    );
    let rival_record = EncryptionKey {
        identifier: b"svc-a".to_vec(),
        version: 3,
        algorithm: KeyAlgorithm::ChaCha20Poly1305,
        key: vec![0x55; 32],
    };
    seed.set(version_path("svc-a", 3).as_str(), &rival_record.encode()).unwrap();
    let inner = seed.into_inner();

    let pointer = EncryptionKeyRef { identifier: b"svc-a".to_vec(), version: 3 };
    let store = RacyStore {
        inner,
        ambush_key: latest_path("svc-a"),
        pending: vec![(latest_path("svc-a"), pointer.encode())],
    };
    let mut encryptor = new_encryptor(store);

    let sealed = encryptor.encrypt(request(), "svc-a", b"raced").unwrap();
    assert_eq!(sealed.version, 3);
    assert_eq!(encryptor.decrypt(request(), &sealed).unwrap(), b"raced");

    // The orphan is gone from the store; the winning record remains.
    let store = encryptor.into_storage().into_inner();
    assert_eq!(store.get(version_path("svc-a", 1).as_str()).unwrap(), None);
    assert!(store.get(version_path("svc-a", 3).as_str()).unwrap().is_some());
    assert!(store.get(latest_path("svc-a").as_str()).unwrap().is_some());
}

#[test]
fn every_operation_is_audited() {
    let events = Rc::new(Cell::new(0usize));
    let kek = make_kek();
    let kek_id = kek.default_key_id();
    let mut encryptor = Encryptor::new(
        CountingLogger { events: events.clone() },
        KeyAlgorithm::ChaCha20Poly1305,
        kek_id,
        kek,
        MemoryLowLevelStorage::new(),
    );
    let sealed = encryptor.encrypt(request(), "svc-a", b"hello").unwrap();
    assert_eq!(events.get(), 1);
    encryptor.decrypt(request(), &sealed).unwrap();
    assert_eq!(events.get(), 2);
}

#[test]
fn resolved_ciphers_act_on_pinned_envelopes() {
    let mut encryptor = new_encryptor(MemoryLowLevelStorage::new());
    let sealed = encryptor.encrypt(request(), "svc-a", b"direct").unwrap();

    let (latest, version) = encryptor.get_latest_cipher("svc-a").unwrap();
    assert_eq!(version, 1);
    assert_eq!(latest.decrypt(&sealed.ciphertext).unwrap(), b"direct");

    let pinned = encryptor.get_cipher("svc-a", 1).unwrap();
    assert_eq!(pinned.decrypt(&sealed.ciphertext).unwrap(), b"direct");

    assert!(matches!(encryptor.get_cipher("svc-a", 9), Err(Error::NotFound)));
}

#[test]
fn storage_failure_propagates_as_is() {
    let compound: CompoundLowLevelStorage<MemoryLowLevelStorage> =
        CompoundLowLevelStorage::builder().build();
    let mut encryptor = new_encryptor(compound);
    assert!(matches!(encryptor.encrypt(request(), "svc-a", b"x"), Err(Error::Storage(_))));
}

#[test]
fn contains_key_and_key_id_reflect_the_kek() {
    let encryptor = new_encryptor(MemoryLowLevelStorage::new());
    assert!(encryptor.contains_key(&KeyId::from_bytes(vec![0x11; 16]).unwrap()));
    assert!(!encryptor.contains_key(&KeyId::from_bytes(vec![0x12; 16]).unwrap()));
    assert_eq!(encryptor.get_key_id(), "11111111-1111-1111-1111-111111111111");
}

#[test]
fn record_codec_round_trips_with_exact_layout() {
    let record = EncryptionKey {
        identifier: b"svc".to_vec(),
        version: 1,
        algorithm: KeyAlgorithm::ChaCha20Poly1305,
        key: vec![0xaa; 32],
    };
    let encoded = record.encode();
    let mut expected = vec![0, 0, 0, 0, 0, 0, 0, 1, 0x00, 0x01];
    expected.extend_from_slice(&[0xaa; 32]);
    expected.extend_from_slice(b"svc");
    assert_eq!(encoded, expected);

    let decoded = EncryptionKey::decode(&encoded).unwrap();
    assert_eq!(decoded.identifier, b"svc");
    assert_eq!(decoded.version, 1);
    assert!(matches!(decoded.algorithm, KeyAlgorithm::ChaCha20Poly1305));
    assert_eq!(decoded.key, vec![0xaa; 32]);
}

#[test]
fn record_decode_rejects_malformed_inputs() {
    assert!(matches!(EncryptionKey::decode(&[0u8; 9]), Err(Error::InvalidRecord)));
    let mut bad_tag = vec![0, 0, 0, 0, 0, 0, 0, 1, 0xff, 0xff];
    bad_tag.extend_from_slice(&[0u8; 32]);
    assert!(matches!(EncryptionKey::decode(&bad_tag), Err(Error::UnsupportedAlgorithm)));
    let short_key = vec![0, 0, 0, 0, 0, 0, 0, 1, 0x00, 0x01, 0x42];
    assert!(matches!(EncryptionKey::decode(&short_key), Err(Error::InvalidRecord)));
}

#[test]
fn reference_codec_round_trips() {
    let pointer = EncryptionKeyRef { identifier: b"svc-a".to_vec(), version: 7 };
    let encoded = pointer.encode();
    let mut expected = vec![0, 0, 0, 0, 0, 0, 0, 7];
    expected.extend_from_slice(b"svc-a");
    assert_eq!(encoded, expected);
    let decoded = EncryptionKeyRef::decode(&encoded).unwrap();
    assert_eq!(decoded.version, 7);
    assert_eq!(decoded.identifier, b"svc-a");
    assert!(matches!(EncryptionKeyRef::decode(&[0u8; 7]), Err(Error::InvalidRecord)));
}

#[test]
fn paths_have_the_documented_layout() {
    assert_eq!(version_path("svc-a", 42), "keys/svc-a/versions/42");
    assert_eq!(version_path("svc-a", 0), "keys/svc-a/versions/0");
    assert_eq!(version_path("k", 1234567890), "keys/k/versions/1234567890");
    assert_eq!(latest_path("svc-a"), "keys/svc-a/latest");
}

#[test]
fn algorithm_tags_are_fixed() {
    assert_eq!(KeyAlgorithm::ChaCha20Poly1305.id(), [0x00, 0x01]);
    assert_eq!(KeyAlgorithm::AesGcmSiv.id(), [0x00, 0x02]);
    assert!(matches!(
        KeyAlgorithm::from_id_bytes(&[0x00, 0x02]),
        Ok(KeyAlgorithm::AesGcmSiv)
    ));
    assert!(matches!(KeyAlgorithm::from_id_bytes(&[0x01, 0x00]), Err(Error::UnsupportedAlgorithm)));
    assert!(matches!(KeyAlgorithm::from_id_bytes(&[0x00]), Err(Error::UnsupportedAlgorithm)));
}

#[test]
fn aessiv_encryptor_round_trips_end_to_end() {
    let kek = make_kek();
    let kek_id = kek.default_key_id();
    let mut encryptor = Encryptor::new(
        NoopAuditLogger,
        KeyAlgorithm::AesGcmSiv,
        kek_id,
        kek,
        MemoryLowLevelStorage::new(),
    );
    let sealed = encryptor.encrypt(request(), "svc-siv", b"via siv").unwrap();
    assert_eq!(sealed.version, 1);
    assert_eq!(encryptor.decrypt(request(), &sealed).unwrap(), b"via siv");
}

#[test]
fn test_compute_identifier_same_algorithm_and_key() {
    let algorithm_id = 0x1234;
    let key = [0u8; 32];
    let identifier1 = compute_identifier(algorithm_id, &key);

    let identifier2 = compute_identifier(algorithm_id, &key);

    assert_eq!(identifier1, identifier2);
}

#[test]
fn test_compute_identifier_difference_key() {
    let algorithm_id = 0x1234;
    let key1 = [0u8; 32];
    let identifier1 = compute_identifier(algorithm_id, &key1);

    let algorithm_id = 0x1234;
    let key2 = [1u8; 32];
    let identifier2 = compute_identifier(algorithm_id, &key2);

    assert_ne!(identifier1, identifier2);
}

#[test]
fn test_compute_identifier_difference_algorithm() {
    let algorithm_id = 0x1234;
    let key = [0u8; 32];
    let identifier1 = compute_identifier(algorithm_id, &key);

    let algorithm_id2 = 0x5678;
    let identifier2 = compute_identifier(algorithm_id2, &key);

    assert_ne!(identifier1, identifier2);
}

#[test]
fn compute_identifier_uses_the_real_digest() {
    // SHA-256 of 32 zero bytes, first 14 bytes, after the algorithm tag.
    let id = compute_identifier(0x1234, &[0u8; 32]);
    let expected = [
        0x12, 0x34, 0x66, 0x68, 0x7a, 0xad, 0xf8, 0x62, 0xbd, 0x77, 0x6c, 0x8f, 0xc1, 0x8b, 0x8e,
        0x9f,
    ];
    assert_eq!(id, expected);
}
