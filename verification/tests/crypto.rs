use aes_gcm::aead::{Aead, KeyInit};
use aes_gcm::{Aes256Gcm, Key, Nonce};
use base64::engine::general_purpose::STANDARD;
use base64::Engine;
use ntfy_daemon::crypto::{frame, open_message, read_key, seal_message};
use ntfy_daemon::error::Error;

fn key_bytes() -> Vec<u8> {
    (0u8..32).collect()
}

fn key_text() -> String {
    STANDARD.encode(key_bytes())
}

fn nonce() -> Vec<u8> {
    vec![9, 8, 7, 6, 5, 4, 3, 2, 1, 0, 1, 2]
}

#[test]
fn frame_is_version_nonce_sealed() {
    let framed = frame(&vec![1, 2, 3], &vec![4, 5]);
    assert_eq!(framed, vec![1, 1, 2, 3, 4, 5]);
    assert_eq!(frame(&vec![], &vec![]), vec![1]);
}

#[test]
fn read_key_wants_base64_of_32_bytes() {
    assert_eq!(read_key(&key_text()), Some(key_bytes()));
    assert_eq!(read_key(&STANDARD.encode([0u8; 31])), None);
    assert_eq!(read_key(&STANDARD.encode([0u8; 33])), None);
    assert_eq!(read_key("not base64!"), None);
    assert_eq!(read_key(""), None);
}

#[test]
fn sealed_payload_has_version_nonce_ciphertext_and_tag() {
    let text = seal_message(&key_text(), &nonce(), &b"hello".to_vec()).unwrap();
    let payload = STANDARD.decode(&text).unwrap();
    assert_eq!(payload.len(), 1 + 12 + 5 + 16);
    assert_eq!(payload[0], 0x01);
    assert_eq!(&payload[1..13], nonce().as_slice());
    let cipher = Aes256Gcm::new(Key::<Aes256Gcm>::from_slice(&key_bytes()));
    let plain = cipher.decrypt(Nonce::from_slice(&payload[1..13]), &payload[13..]).unwrap();
    assert_eq!(plain, b"hello");
}

#[test]
fn sealing_is_what_the_cipher_gives() {
    let cipher = Aes256Gcm::new(Key::<Aes256Gcm>::from_slice(&key_bytes()));
    let sealed = cipher.encrypt(Nonce::from_slice(&nonce()), b"hello".as_slice()).unwrap();
    let mut payload = vec![1u8];
    payload.extend_from_slice(&nonce());
    payload.extend_from_slice(&sealed);
    let text = seal_message(&key_text(), &nonce(), &b"hello".to_vec()).unwrap();
    assert_eq!(text, STANDARD.encode(&payload));
}

#[test]
fn open_gives_the_plaintext_back() {
    for plain in [b"".to_vec(), b"hello".to_vec(), "gr\u{fc}\u{df}e \u{1f514}".as_bytes().to_vec()] {
        let text = seal_message(&key_text(), &nonce(), &plain).unwrap();
        assert_eq!(open_message(&key_text(), &text), Some(plain));
    }
}

#[test]
fn open_refuses_another_key_and_altered_payloads() {
    let text = seal_message(&key_text(), &nonce(), &b"hello".to_vec()).unwrap();
    let other_key = STANDARD.encode([7u8; 32]);
    assert_eq!(open_message(&other_key, &text), None);
    assert_eq!(open_message("short", &text), None);
    let mut payload = STANDARD.decode(&text).unwrap();
    let last = payload.len() - 1;
    payload[last] ^= 1;
    assert_eq!(open_message(&key_text(), &STANDARD.encode(&payload)), None);
    payload[last] ^= 1;
    payload[0] = 2;
    assert_eq!(open_message(&key_text(), &STANDARD.encode(&payload)), None);
    assert_eq!(open_message(&key_text(), &STANDARD.encode([1u8; 12])), None);
    assert_eq!(open_message(&key_text(), "%%%"), None);
    assert_eq!(open_message(&key_text(), ""), None);
}

#[test]
fn bad_keys_are_refused() {
    let short = STANDARD.encode([0u8; 16]);
    assert!(matches!(seal_message(&short, &nonce(), &b"x".to_vec()), Err(Error::BadKey)));
    assert!(matches!(seal_message("***", &nonce(), &b"x".to_vec()), Err(Error::BadKey)));
    assert!(matches!(seal_message("", &nonce(), &b"x".to_vec()), Err(Error::BadKey)));
}
