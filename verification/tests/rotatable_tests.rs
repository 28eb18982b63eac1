use kagimori::ciphers::chacha::ChaCha20Poly1305Cipher;
use kagimori::ciphers::keyid::KeyId;
use kagimori::ciphers::oneof::OneOfCipher;
use kagimori::ciphers::rotatable::RotatableCipher;
use kagimori::ciphers::{Cipher, Error, Unencrypted};

fn key_id(seed: u8) -> KeyId {
    KeyId::from_bytes(vec![seed; 16]).unwrap()
}

fn chacha(seed: u8) -> OneOfCipher {
    OneOfCipher::ChaCha20Poly1305(ChaCha20Poly1305Cipher::try_from_bytes(&[seed; 32]).unwrap())
}

#[test]
fn test_encrypt_and_decrypt() {
    let id = KeyId::from_bytes(vec![
        0xa4, 0xa3, 0xa2, 0xa1, 0xb2, 0xb1, 0xc2, 0xc1, 0xd1, 0xd2, 0xd3, 0xd4, 0xd5, 0xd6, 0xd7,
        0xd8,
    ])
    .unwrap();
    let sut = RotatableCipher::new(
        id.clone(),
        vec![(id, OneOfCipher::Unencrypted(Unencrypted))],
    );

    let data = b"Hello, world!";
    let ciphertext = sut.encrypt(data).unwrap();
    let decrypted = sut.decrypt(&ciphertext).unwrap();
    assert_eq!(data, decrypted.as_slice());
}

#[test]
fn ciphertext_is_prefixed_with_default_key_id() {
    let id = key_id(0x2a);
    let sut = RotatableCipher::new(id.clone(), vec![(id, chacha(1))]);
    let ciphertext = sut.encrypt(b"payload").unwrap();
    assert_eq!(&ciphertext[..16], &[0x2a; 16]);
}

#[test]
fn rotation_keeps_old_ciphertext_decryptable() {
    let a = key_id(0xaa);
    let b = key_id(0xbb);

    let with_a_default =
        RotatableCipher::new(a.clone(), vec![(a.clone(), chacha(1)), (b.clone(), chacha(2))]);
    let ciphertext = with_a_default.encrypt(b"long lived").unwrap();

    let with_b_default =
        RotatableCipher::new(b.clone(), vec![(a.clone(), chacha(1)), (b.clone(), chacha(2))]);
    let decrypted = with_b_default.decrypt(&ciphertext).unwrap();
    assert_eq!(decrypted.as_slice(), b"long lived");

    let without_a = RotatableCipher::new(b.clone(), vec![(b, chacha(2))]);
    let r = without_a.decrypt(&ciphertext);
    match r {
        Err(Error::KeyNotFound(k)) => assert_eq!(k.as_slice(), &[0xaa; 16]),
        other => panic!("expected KeyNotFound, got {:?}", other),
    }
}

#[test]
fn short_input_is_an_invalid_key_id() {
    let id = key_id(0x2a);
    let sut = RotatableCipher::new(id.clone(), vec![(id, chacha(1))]);
    assert!(matches!(sut.decrypt(&[0u8; 15]), Err(Error::InvalidKeyId)));
    assert!(matches!(sut.decrypt(&[]), Err(Error::InvalidKeyId)));
}

#[test]
fn contains_key_reflects_the_map() {
    let a = key_id(0xaa);
    let b = key_id(0xbb);
    let sut = RotatableCipher::new(a.clone(), vec![(a.clone(), chacha(1))]);
    assert!(sut.contains_key(&a));
    assert!(!sut.contains_key(&b));
}

#[test]
fn default_key_id_renders_as_uuid() {
    let id = KeyId::from_bytes(vec![
        0xa4, 0xa3, 0xa2, 0xa1, 0xb2, 0xb1, 0xc2, 0xc1, 0xd1, 0xd2, 0xd3, 0xd4, 0xd5, 0xd6, 0xd7,
        0xd8,
    ])
    .unwrap();
    let sut = RotatableCipher::new(id.clone(), vec![(id, chacha(1))]);
    assert_eq!(sut.default_key_id(), "a1a2a3a4-b1b2-c1c2-d1d2-d3d4d5d6d7d8");
}

#[test]
fn key_id_display_matches_uuid_wire_form() {
    let uuid = uuid::Uuid::parse_str("a1a2a3a4-b1b2-c1c2-d1d2-d3d4d5d6d7d8").unwrap();
    let id = KeyId::from_bytes(uuid.to_bytes_le().to_vec()).unwrap();
    assert_eq!(id.to_uuid_string(), uuid.to_string());
}

#[test]
fn default_key_id_bytes_exposes_the_raw_identifier() {
    let id = key_id(0x2a);
    let sut = RotatableCipher::new(id.clone(), vec![(id.clone(), chacha(1))]);
    assert_eq!(sut.default_key_id_bytes().as_slice(), &[0x2a; 16]);
    assert_eq!(*sut.default_key_id_bytes(), id);
    assert_ne!(*sut.default_key_id_bytes(), key_id(0x2b));
}

#[test]
fn key_id_rejects_wrong_lengths() {
    assert!(matches!(KeyId::from_bytes(vec![0u8; 15]), Err(Error::InvalidKeyId)));
    assert!(matches!(KeyId::from_slice(&[0u8; 17]), Err(Error::InvalidKeyId)));
    let id = KeyId::from_slice(&[3u8; 16]).unwrap();
    assert_eq!(id.as_slice(), &[3u8; 16]);
}
