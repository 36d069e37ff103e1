use base64::engine::general_purpose::STANDARD;
use base64::Engine;
use envz::crypto::{derive_key, generate_seed};
use envz::envmap::EnvMap;
use envz::error::EnvzError;
use envz::store::{
    check_vault_version, create_vault, open_vault, seal_vault, seed_from_bytes, vault_id,
    vault_id_or, Algorithm, VaultFile,
};

const PATH: &str = "/Users/dev/project/.envz";

fn sample() -> EnvMap {
    let mut m = EnvMap::new();
    m.insert("ZED".to_string(), "last \"quoted\"\nline".to_string());
    m.insert("API_KEY".to_string(), "sk-secret".to_string());
    m.insert("EMPTY".to_string(), String::new());
    m
}

#[test]
fn vault_id_is_the_bundle_identifier() {
    assert_eq!(vault_id(), "net.gnarlylabs.envz");
}

#[test]
fn create_then_open_gives_back_the_data() {
    let seed = generate_seed();
    let hash = [9u8; 32];
    let key = derive_key(&seed, &hash, vault_id(), PATH, "app-secret").unwrap();
    let data = sample();
    let vault = create_vault(&key, &data, true).unwrap();
    assert_eq!(vault.version, 1);
    assert_eq!(vault.algorithm, Algorithm::Aes256Gcm);
    assert_eq!(vault.created_at, vault.updated_at);
    assert_eq!(vault.nonce.len(), 16);
    let (opened, k) = open_vault(&vault, seed.to_vec(), &hash, vault_id(), PATH, "app-secret").unwrap();
    assert_eq!(opened, data);
    assert_eq!(k, key);
}

#[test]
fn seal_then_open_gives_back_new_data_and_keeps_creation_time() {
    let seed = [5u8; 32];
    let hash = [6u8; 32];
    let key = derive_key(&seed, &hash, vault_id(), PATH, "s").unwrap();
    let mut vault = create_vault(&key, &EnvMap::new(), false).unwrap();
    let created = vault.created_at.clone();
    let data = sample();
    seal_vault(&mut vault, &key, &data).unwrap();
    assert_eq!(vault.created_at, created);
    let (opened, _) = open_vault(&vault, seed.to_vec(), &hash, vault_id(), PATH, "s").unwrap();
    assert_eq!(opened, data);
}

#[test]
fn open_with_wrong_secret_fails_to_decrypt() {
    let seed = [5u8; 32];
    let hash = [6u8; 32];
    let key = derive_key(&seed, &hash, vault_id(), PATH, "right").unwrap();
    let vault = create_vault(&key, &sample(), true).unwrap();
    let e = open_vault(&vault, seed.to_vec(), &hash, vault_id(), PATH, "wrong").unwrap_err();
    assert_eq!(e, EnvzError::Crypto("decryption failed: invalid key or corrupted data".to_string()));
}

#[test]
fn open_with_short_seed_fails() {
    let vault = VaultFile {
        version: 1,
        algorithm: Algorithm::Aes256Gcm,
        nonce: String::new(),
        ciphertext: String::new(),
        created_at: String::new(),
        updated_at: String::new(),
        biometric: true,
    };
    let e = open_vault(&vault, vec![1, 2, 3], &[0u8; 32], vault_id(), PATH, "s").unwrap_err();
    assert_eq!(e, EnvzError::Keychain("Invalid seed length".to_string()));
}

#[test]
fn open_with_bad_base64_reports_the_field() {
    let mut vault = create_vault(&[1u8; 32], &sample(), true).unwrap();
    vault.nonce = "***".to_string();
    match open_vault(&vault, vec![0u8; 32], &[0u8; 32], vault_id(), PATH, "s").unwrap_err() {
        EnvzError::InvalidVault(m) => assert!(m.starts_with("bad nonce: ")),
        other => panic!("unexpected {:?}", other),
    }
    let mut vault = create_vault(&[1u8; 32], &sample(), true).unwrap();
    vault.ciphertext = "@@".to_string();
    match open_vault(&vault, vec![0u8; 32], &[0u8; 32], vault_id(), PATH, "s").unwrap_err() {
        EnvzError::InvalidVault(m) => assert!(m.starts_with("bad ciphertext: ")),
        other => panic!("unexpected {:?}", other),
    }
}

#[test]
fn seed_from_bytes_checks_length() {
    assert_eq!(seed_from_bytes(&vec![4u8; 32]).unwrap(), [4u8; 32]);
    assert!(seed_from_bytes(&vec![4u8; 31]).is_err());
}

#[test]
fn vault_version_check() {
    let v = VaultFile {
        version: 2,
        algorithm: Algorithm::Aes256Gcm,
        nonce: String::new(),
        ciphertext: String::new(),
        created_at: String::new(),
        updated_at: String::new(),
        biometric: true,
    };
    let e = check_vault_version(v.clone()).unwrap_err();
    assert_eq!(e, EnvzError::InvalidVault("unsupported vault version: 2 (expected 1)".to_string()));
    let mut ok = v;
    ok.version = 1;
    assert_eq!(check_vault_version(ok).unwrap().version, 1);
}

#[test]
fn unicode_and_control_characters_survive_sealing() {
    let mut data = EnvMap::new();
    data.insert("U".to_string(), "ünïcødé 😀 \u{0}\u{1f}\\\"".to_string());
    let key = [2u8; 32];
    let vault = create_vault(&key, &data, true).unwrap();
    let seed = [3u8; 32];
    let hash = [4u8; 32];
    let k2 = derive_key(&seed, &hash, vault_id(), PATH, "x").unwrap();
    let mut v2 = vault.clone();
    seal_vault(&mut v2, &k2, &data).unwrap();
    let (opened, _) = open_vault(&v2, seed.to_vec(), &hash, vault_id(), PATH, "x").unwrap();
    assert_eq!(opened.get("U").unwrap(), "ünïcødé 😀 \u{0}\u{1f}\\\"");
}

#[test]
fn moved_vault_does_not_open() {
    let seed = [5u8; 32];
    let hash = [6u8; 32];
    let key = derive_key(&seed, &hash, vault_id(), PATH, "s").unwrap();
    let vault = create_vault(&key, &sample(), true).unwrap();
    let e = open_vault(&vault, seed.to_vec(), &hash, vault_id(), "/Users/dev/elsewhere/.envz", "s")
        .unwrap_err();
    assert_eq!(e, EnvzError::Crypto("decryption failed: invalid key or corrupted data".to_string()));
    assert!(open_vault(&vault, seed.to_vec(), &hash, vault_id(), PATH, "s").is_ok());
}

#[test]
fn vault_under_another_identity_does_not_open() {
    let seed = [5u8; 32];
    let hash = [6u8; 32];
    let key = derive_key(&seed, &hash, "com.example.other", PATH, "s").unwrap();
    let vault = create_vault(&key, &sample(), true).unwrap();
    assert!(open_vault(&vault, seed.to_vec(), &hash, vault_id(), PATH, "s").is_err());
    assert!(open_vault(&vault, seed.to_vec(), &hash, "com.example.other", PATH, "s").is_ok());
}

#[test]
fn vault_records_its_touch_id_mode() {
    let key = [1u8; 32];
    let mut with = create_vault(&key, &sample(), true).unwrap();
    let without = create_vault(&key, &sample(), false).unwrap();
    assert!(with.biometric);
    assert!(!without.biometric);
    seal_vault(&mut with, &key, &EnvMap::new()).unwrap();
    assert!(with.biometric);
}

#[test]
fn configured_vault_identity_wins() {
    assert_eq!(vault_id_or(Some("com.example.custom")), "com.example.custom");
    assert_eq!(vault_id_or(None), "net.gnarlylabs.envz");
}

#[test]
fn sealed_ciphertext_is_the_json_plus_the_tag() {
    let mut data = EnvMap::new();
    data.insert("A".to_string(), "1".to_string());
    let vault = create_vault(&[1u8; 32], &data, true).unwrap();
    let ct = STANDARD.decode(&vault.ciphertext).unwrap();
    let nonce = STANDARD.decode(&vault.nonce).unwrap();
    assert_eq!(ct.len(), br#"{"A":"1"}"#.len() + 16);
    let pt = envz::crypto::decrypt(&[1u8; 32], &nonce, &ct).unwrap();
    assert_eq!(pt, br#"{"A":"1"}"#.to_vec());
}

#[test]
fn control_characters_are_escaped_within_the_size_bound() {
    let mut data = EnvMap::new();
    data.insert("A".to_string(), "\u{1}".to_string());
    let vault = create_vault(&[1u8; 32], &data, false).unwrap();
    let ct = STANDARD.decode(&vault.ciphertext).unwrap();
    let nonce = STANDARD.decode(&vault.nonce).unwrap();
    let pt = envz::crypto::decrypt(&[1u8; 32], &nonce, &ct).unwrap();
    assert_eq!(pt, br#"{"A":"\u0001"}"#.to_vec());
    assert!(pt.len() <= 2 + 6 * 2 + 6);
}

#[test]
fn empty_vault_can_always_be_created_and_cleared() {
    let key = [4u8; 32];
    let mut vault = create_vault(&key, &EnvMap::new(), false).unwrap();
    seal_vault(&mut vault, &key, &EnvMap::new()).unwrap();
    let ct = STANDARD.decode(&vault.ciphertext).unwrap();
    assert_eq!(ct.len(), 2 + 16);
}
