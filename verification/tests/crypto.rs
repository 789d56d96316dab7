use ovenmitts::crypto::{gen_stream_key, hash_password, random_data, verify_password};
use ovenmitts::routes::basic_authorization;
use ovenmitts::session::new_session_token;
use std::collections::HashSet;

fn is_stream_key(key: &str) -> bool {
    let bytes = key.as_bytes();
    bytes.len() == 46
        && key.starts_with("stream_")
        && bytes[7..15].iter().all(u8::is_ascii_alphanumeric)
        && bytes[15] == b'_'
        && bytes[16..].iter().all(u8::is_ascii_alphanumeric)
}

#[test]
fn random_data_has_the_length_asked_for() {
    for size in [0usize, 1, 16, 64, 1000] {
        assert_eq!(random_data(size).len(), size);
    }
}

#[test]
fn random_data_is_not_left_at_zero() {
    assert!(random_data(64).iter().any(|b| *b != 0));
    assert_ne!(random_data(32), random_data(32));
}

#[test]
fn stream_keys_have_the_declared_shape() {
    let key = gen_stream_key();
    assert!(is_stream_key(&key), "{}", key);
    assert_eq!(key.len(), 7 + 8 + 1 + 30);
}

#[test]
fn stream_keys_never_collide_across_ten_thousand_samples() {
    let mut seen = HashSet::new();
    for _ in 0..10_000 {
        let key = gen_stream_key();
        assert!(is_stream_key(&key), "{}", key);
        assert!(seen.insert(key));
    }
}

#[test]
fn hashed_password_verifies() {
    let hash = hash_password(b"correct horse").unwrap();
    assert!(hash.starts_with("$argon2id$"));
    assert_ne!(hash.as_bytes(), b"correct horse");
    assert!(verify_password(&hash, b"correct horse"));
}

#[test]
fn other_password_does_not_verify() {
    let hash = hash_password(b"correct horse").unwrap();
    assert!(!verify_password(&hash, b"correct horsf"));
    assert!(!verify_password(&hash, b""));
    assert!(!verify_password(&hash, b"Correct horse"));
}

#[test]
fn hashing_twice_gives_different_hashes() {
    let a = hash_password(b"same").unwrap();
    let b = hash_password(b"same").unwrap();
    assert_ne!(a, b);
    assert!(verify_password(&a, b"same"));
    assert!(verify_password(&b, b"same"));
}

#[test]
fn empty_password_can_be_hashed() {
    let hash = hash_password(b"").unwrap();
    assert!(verify_password(&hash, b""));
    assert!(!verify_password(&hash, b"x"));
}

#[test]
fn text_that_is_no_hash_verifies_nothing() {
    for hash in ["", "not a hash", "$argon2id$", "plaintext", "$argon2id$v=19$m=19456,t=2,p=1$c2FsdA"] {
        assert!(!verify_password(hash, b"password"), "{}", hash);
        assert!(!verify_password(hash, hash.as_bytes()), "{}", hash);
    }
}

#[test]
fn session_tokens_are_base64_of_sixty_four_bytes() {
    let token = new_session_token();
    assert_eq!(token.len(), 88);
    assert!(token.ends_with("=="));
    assert!(token[..86].bytes().all(|b| b.is_ascii_alphanumeric() || b == b'+' || b == b'/'));
    assert_ne!(token, new_session_token());
}

#[test]
fn session_tokens_do_not_collide() {
    let mut seen = HashSet::new();
    for _ in 0..1000 {
        assert!(seen.insert(new_session_token()));
    }
}

#[test]
fn basic_authorization_encodes_the_token() {
    assert_eq!(basic_authorization("ome-access-token"), Some("Basic b21lLWFjY2Vzcy10b2tlbg==".to_string()));
    assert_eq!(basic_authorization(""), Some("Basic ".to_string()));
    assert_eq!(basic_authorization("a"), Some("Basic YQ==".to_string()));
    assert_eq!(basic_authorization("hello world"), Some("Basic aGVsbG8gd29ybGQ=".to_string()));
}
