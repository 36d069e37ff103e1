use envz::crypto::{decrypt, derive_key, encrypt, generate_seed};
use envz::error::EnvzError;
use hkdf::Hkdf;
use sha2::Sha256;

#[test]
fn test_encrypt_decrypt_roundtrip() {
    let key = generate_seed();
    let plaintext = b"hello world secret data";

    let (nonce, ciphertext) = encrypt(&key, plaintext).unwrap();
    let decrypted = decrypt(&key, &nonce, &ciphertext).unwrap();

    assert_eq!(decrypted, plaintext);
}

#[test]
fn test_wrong_key_fails() {
    let key1 = generate_seed();
    let key2 = generate_seed();
    let plaintext = b"secret";

    let (nonce, ciphertext) = encrypt(&key1, plaintext).unwrap();
    let result = decrypt(&key2, &nonce, &ciphertext);

    assert!(result.is_err());
}

#[test]
fn test_tampered_ciphertext_fails() {
    let key = generate_seed();
    let plaintext = b"secret";

    let (nonce, mut ciphertext) = encrypt(&key, plaintext).unwrap();
    ciphertext[0] ^= 0xff;

    let result = decrypt(&key, &nonce, &ciphertext);
    assert!(result.is_err());
}

#[test]
fn test_unique_nonces() {
    let key = generate_seed();
    let plaintext = b"same data";

    let (nonce1, _) = encrypt(&key, plaintext).unwrap();
    let (nonce2, _) = encrypt(&key, plaintext).unwrap();

    assert_ne!(nonce1, nonce2);
}

#[test]
fn test_derive_key_deterministic() {
    let seed = generate_seed();
    let hash = [0xABu8; 32];
    let vault_id = "net.gnarlylabs.test";

    let key1 = derive_key(&seed, &hash, vault_id, "/tmp/vault/.envz", "test-secret").unwrap();
    let key2 = derive_key(&seed, &hash, vault_id, "/tmp/vault/.envz", "test-secret").unwrap();
    assert_eq!(key1, key2);
}

#[test]
fn test_derive_key_different_codesign_gives_different_key() {
    let seed = generate_seed();
    let hash_a = [0xAAu8; 32];
    let hash_b = [0xBBu8; 32];
    let vault_id = "net.gnarlylabs.test";

    let key_a = derive_key(&seed, &hash_a, vault_id, "/tmp/vault/.envz", "test-secret").unwrap();
    let key_b = derive_key(&seed, &hash_b, vault_id, "/tmp/vault/.envz", "test-secret").unwrap();
    assert_ne!(key_a, key_b);
}

#[test]
fn test_derive_key_different_vault_id_gives_different_key() {
    let seed = generate_seed();
    let hash = [0xAAu8; 32];

    let key_a = derive_key(&seed, &hash, "vault-a", "/tmp/vault/.envz", "test-secret").unwrap();
    let key_b = derive_key(&seed, &hash, "vault-b", "/tmp/vault/.envz", "test-secret").unwrap();
    assert_ne!(key_a, key_b);
}

#[test]
fn test_derive_key_different_app_secret_gives_different_key() {
    let seed = generate_seed();
    let hash = [0xAAu8; 32];
    let vault_id = "net.gnarlylabs.test";

    let key_a = derive_key(&seed, &hash, vault_id, "/tmp/vault/.envz", "secret-a").unwrap();
    let key_b = derive_key(&seed, &hash, vault_id, "/tmp/vault/.envz", "secret-b").unwrap();
    assert_ne!(key_a, key_b);
}

#[test]
fn derive_key_matches_hkdf_with_length_prefixed_info() {
    let seed = [7u8; 32];
    let hash = [1u8; 32];
    let mut info = hash.to_vec();
    info.extend_from_slice(&3u32.to_le_bytes());
    info.extend_from_slice(b"vid");
    info.extend_from_slice(&7u32.to_le_bytes());
    info.extend_from_slice(b"/a/.env");
    info.extend_from_slice(&2u32.to_le_bytes());
    info.extend_from_slice(b"as");
    let mut expected = [0u8; 32];
    Hkdf::<Sha256>::new(None, &seed).expand(&info, &mut expected).unwrap();
    assert_eq!(derive_key(&seed, &hash, "vid", "/a/.env", "as").unwrap(), expected);
    assert_ne!(expected, seed);
}

#[test]
fn encrypt_gives_twelve_byte_nonce_and_tagged_ciphertext() {
    let key = [3u8; 32];
    let (nonce, ct) = encrypt(&key, b"abc").unwrap();
    assert_eq!(nonce.len(), 12);
    assert_eq!(ct.len(), 3 + 16);
    assert_ne!(&ct[..3], b"abc");
}

#[test]
fn decrypt_rejects_wrong_nonce_length() {
    let key = [3u8; 32];
    let e = decrypt(&key, &[0u8; 5], b"whatever").unwrap_err();
    assert_eq!(e, EnvzError::Crypto("invalid nonce length: expected 12, got 5".to_string()));
}

#[test]
fn decrypt_failure_message() {
    let key = [3u8; 32];
    let e = decrypt(&key, &[0u8; 12], &[0u8; 20]).unwrap_err();
    assert_eq!(e, EnvzError::Crypto("decryption failed: invalid key or corrupted data".to_string()));
}

#[test]
fn derive_key_depends_on_the_vault_path() {
    let seed = [7u8; 32];
    let hash = [1u8; 32];
    let key_a = derive_key(&seed, &hash, "vid", "/home/a/.envz", "s").unwrap();
    let key_b = derive_key(&seed, &hash, "vid", "/home/b/.envz", "s").unwrap();
    assert_ne!(key_a, key_b);
}

#[test]
fn length_prefixes_keep_adjacent_parts_apart() {
    let seed = [7u8; 32];
    let hash = [1u8; 32];
    let key_a = derive_key(&seed, &hash, "ab", "c", "s").unwrap();
    let key_b = derive_key(&seed, &hash, "a", "bc", "s").unwrap();
    assert_ne!(key_a, key_b);
}
