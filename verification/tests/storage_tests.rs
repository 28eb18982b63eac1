use kagimori::ciphers::chacha::ChaCha20Poly1305Cipher;
use kagimori::storage::compound::CompoundLowLevelStorage;
use kagimori::storage::crypto::CryptedStorage;
use kagimori::storage::memory::MemoryLowLevelStorage;
use kagimori::storage::{DataStorage, Error};

fn contains_subslice(haystack: &[u8], needle: &[u8]) -> bool {
    haystack.windows(needle.len()).any(|w| w == needle)
}

#[test]
fn memory_store_basic_operations() {
    let mut store = MemoryLowLevelStorage::new();
    assert_eq!(store.get("a").unwrap(), None);
    assert!(!store.contains("a").unwrap());

    store.set("a", b"one").unwrap();
    assert_eq!(store.get("a").unwrap().unwrap(), b"one");
    assert!(store.contains("a").unwrap());

    store.set("a", b"two").unwrap();
    assert_eq!(store.get("a").unwrap().unwrap(), b"two");

    store.delete("a").unwrap();
    assert_eq!(store.get("a").unwrap(), None);
}

#[test]
fn memory_store_set_if_absent_is_first_wins() {
    let mut store = MemoryLowLevelStorage::new();
    assert!(store.set_if_absent("k", b"first").unwrap());
    assert!(!store.set_if_absent("k", b"second").unwrap());
    assert_eq!(store.get("k").unwrap().unwrap(), b"first");
}

#[test]
fn compound_store_replicates_writes_and_reads_in_order() {
    let mut first = MemoryLowLevelStorage::new();
    let mut second = MemoryLowLevelStorage::new();
    first.set("shadowed", b"from first").unwrap();
    second.set("shadowed", b"from second").unwrap();
    second.set("only second", b"lone").unwrap();

    let mut compound =
        CompoundLowLevelStorage::builder().add_storage(first).add_storage(second).build();

    assert_eq!(compound.get("shadowed").unwrap().unwrap(), b"from first");
    assert_eq!(compound.get("only second").unwrap().unwrap(), b"lone");
    assert!(compound.contains("only second").unwrap());

    compound.set("fresh", b"both").unwrap();
    assert_eq!(compound.get("fresh").unwrap().unwrap(), b"both");

    assert!(!compound.set_if_absent("fresh", b"loser").unwrap());
    assert_eq!(compound.get("fresh").unwrap().unwrap(), b"both");

    compound.delete("fresh").unwrap();
    assert_eq!(compound.get("fresh").unwrap(), None);
}

#[test]
fn compound_store_without_members_refuses_writes() {
    let mut compound: CompoundLowLevelStorage<MemoryLowLevelStorage> =
        CompoundLowLevelStorage::builder().build();
    assert_eq!(compound.get("k").unwrap(), None);
    assert!(matches!(compound.set("k", b"v"), Err(Error::Backend(_))));
}

#[test]
fn values_at_rest_are_not_the_plaintext() {
    let kek = ChaCha20Poly1305Cipher::try_from_bytes(&[5u8; 32]).unwrap();
    let mut crypted = CryptedStorage::new(kek, MemoryLowLevelStorage::new());

    let secret = b"very secret value";
    crypted.set("config/entry", secret).unwrap();
    assert_eq!(crypted.get("config/entry").unwrap().unwrap(), secret);

    let inner = crypted.into_inner();
    let at_rest = inner.get("config/entry").unwrap().unwrap();
    assert_ne!(at_rest.as_slice(), secret);
    assert_eq!(at_rest.len(), secret.len() + 12 + 16);
    assert!(!contains_subslice(&at_rest, secret));
}

#[test]
fn undecryptable_value_is_an_error_not_absence() {
    let kek = ChaCha20Poly1305Cipher::try_from_bytes(&[5u8; 32]).unwrap();
    let mut inner = MemoryLowLevelStorage::new();
    inner.set("k", b"never encrypted").unwrap();
    let crypted = CryptedStorage::new(kek, inner);
    assert!(matches!(crypted.get("k"), Err(Error::Cipher(_))));
    assert_eq!(crypted.get("absent").unwrap(), None);
}

#[test]
fn key_names_pass_through_unencrypted() {
    let kek = ChaCha20Poly1305Cipher::try_from_bytes(&[5u8; 32]).unwrap();
    let mut crypted = CryptedStorage::new(kek, MemoryLowLevelStorage::new());
    crypted.set("named/key", b"v").unwrap();
    assert!(crypted.contains("named/key").unwrap());
    crypted.delete("named/key").unwrap();
    assert!(!crypted.contains("named/key").unwrap());

    assert!(crypted.set_if_absent("pointer", b"raw bytes").unwrap());
    assert_eq!(crypted.get_raw("pointer").unwrap().unwrap(), b"raw bytes");
}
