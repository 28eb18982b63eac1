use kagimori::ciphers::aessiv::AesGcmSivCipher;
use kagimori::ciphers::chacha::ChaCha20Poly1305Cipher;
use kagimori::ciphers::oneof::OneOfCipher;
use kagimori::ciphers::{Cipher, Error, Unencrypted};

#[test]
fn chacha_round_trip() {
    let cipher = ChaCha20Poly1305Cipher::try_from_bytes(&[7u8; 32]).unwrap();
    let plaintext = b"attack at dawn";
    let sealed = cipher.encrypt(plaintext).unwrap();
    assert_eq!(sealed.len(), plaintext.len() + 12 + 16);
    let opened = cipher.decrypt(&sealed).unwrap();
    assert_eq!(opened.as_slice(), plaintext);
}

#[test]
fn chacha_round_trip_empty() {
    let cipher = ChaCha20Poly1305Cipher::try_from_bytes(&[7u8; 32]).unwrap();
    let sealed = cipher.encrypt(b"").unwrap();
    assert_eq!(sealed.len(), 12 + 16);
    let opened = cipher.decrypt(&sealed).unwrap();
    assert!(opened.is_empty());
}

#[test]
fn aessiv_round_trip() {
    let cipher = AesGcmSivCipher::try_from_bytes(&[9u8; 64]).unwrap();
    let plaintext = b"misuse resistant";
    let sealed = cipher.encrypt(plaintext).unwrap();
    assert_eq!(sealed.len(), plaintext.len() + 16 + 16);
    let opened = cipher.decrypt(&sealed).unwrap();
    assert_eq!(opened.as_slice(), plaintext);
}

#[test]
fn unencrypted_round_trip() {
    let cipher = Unencrypted;
    let sealed = cipher.encrypt(b"plain").unwrap();
    assert_eq!(sealed.as_slice(), b"plain");
    let opened = cipher.decrypt(&sealed).unwrap();
    assert_eq!(opened.as_slice(), b"plain");
}

#[test]
fn oneof_dispatches_to_held_cipher() {
    let cipher = OneOfCipher::ChaCha20Poly1305(
        ChaCha20Poly1305Cipher::try_from_bytes(&[1u8; 32]).unwrap(),
    );
    assert_eq!(cipher.name(), "ChaCha20-Poly1305");
    assert_eq!(cipher.key(), vec![1u8; 32]);
    let sealed = cipher.encrypt(b"via the union").unwrap();
    assert_eq!(cipher.decrypt(&sealed).unwrap().as_slice(), b"via the union");
}

#[test]
fn tampering_any_byte_fails_authentication() {
    let cipher = ChaCha20Poly1305Cipher::try_from_bytes(&[7u8; 32]).unwrap();
    let sealed = cipher.encrypt(b"integrity").unwrap();
    for i in 0..sealed.len() {
        for bit in [0x01u8, 0x80u8] {
            let mut corrupted = sealed.clone();
            corrupted[i] ^= bit;
            let r = cipher.decrypt(&corrupted);
            assert!(matches!(r, Err(Error::AuthenticationFailure)));
        }
    }
}

#[test]
fn tampering_fails_authentication_aessiv() {
    let cipher = AesGcmSivCipher::try_from_bytes(&[9u8; 64]).unwrap();
    let sealed = cipher.encrypt(b"integrity").unwrap();
    let mut corrupted = sealed.clone();
    let last = corrupted.len() - 1;
    corrupted[last] ^= 0x40;
    assert!(matches!(cipher.decrypt(&corrupted), Err(Error::AuthenticationFailure)));
}

#[test]
fn too_short_input_fails_authentication() {
    let cipher = ChaCha20Poly1305Cipher::try_from_bytes(&[7u8; 32]).unwrap();
    assert!(matches!(cipher.decrypt(&[0u8; 5]), Err(Error::AuthenticationFailure)));
    assert!(matches!(cipher.decrypt(&[]), Err(Error::AuthenticationFailure)));
}

#[test]
fn fresh_nonce_gives_distinct_ciphertexts() {
    let cipher = ChaCha20Poly1305Cipher::try_from_bytes(&[7u8; 32]).unwrap();
    let first = cipher.encrypt(b"same plaintext").unwrap();
    let second = cipher.encrypt(b"same plaintext").unwrap();
    assert_ne!(first, second);
    assert_ne!(&first[..12], &second[..12]);
    assert_eq!(cipher.decrypt(&first).unwrap(), cipher.decrypt(&second).unwrap());
}

#[test]
fn wrong_key_length_is_rejected() {
    assert!(matches!(
        ChaCha20Poly1305Cipher::try_from_bytes(&[0u8; 31]),
        Err(Error::InvalidKeyLength)
    ));
    assert!(matches!(
        ChaCha20Poly1305Cipher::try_from_bytes(&[0u8; 64]),
        Err(Error::InvalidKeyLength)
    ));
    assert!(matches!(AesGcmSivCipher::try_from_bytes(&[0u8; 32]), Err(Error::InvalidKeyLength)));
}

#[test]
fn wrong_key_fails_authentication() {
    let sealing = ChaCha20Poly1305Cipher::try_from_bytes(&[7u8; 32]).unwrap();
    let other = ChaCha20Poly1305Cipher::try_from_bytes(&[8u8; 32]).unwrap();
    let sealed = sealing.encrypt(b"secret").unwrap();
    assert!(matches!(other.decrypt(&sealed), Err(Error::AuthenticationFailure)));
}

#[test]
fn generated_keys_are_distinct() {
    let a = ChaCha20Poly1305Cipher::generate().unwrap();
    let b = ChaCha20Poly1305Cipher::generate().unwrap();
    assert_eq!(a.key().len(), 32);
    assert_ne!(a.key(), b.key());
    let c = AesGcmSivCipher::generate().unwrap();
    assert_eq!(c.key().len(), 64);
}
