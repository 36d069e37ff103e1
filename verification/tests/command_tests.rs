use envz::codesign::{sec_code_failure, signing_identity_hash};
use envz::commands::{
    check_command, check_init, clear_prompt, clear_step, delete_entry, env_lines, escape_value,
    existing_seed, init_created_message, list_lines, lookup, offer_file_deletion, parse_pair,
    set_message, unenv_lines, ClearStep,
};
use envz::env_filter::{filter_vars, is_safe_var};
use envz::envmap::EnvMap;
use envz::error::EnvzError;
use envz::keychain::{auth_outcome, delete_status, retrieve_status, store_status};
use sha2::{Digest, Sha256};

fn sample() -> EnvMap {
    let mut m = EnvMap::new();
    m.insert("B".to_string(), "it's\ta\\b\n".to_string());
    m.insert("A".to_string(), "plain".to_string());
    m
}

#[test]
fn parse_pair_splits_at_first_equals() {
    assert_eq!(parse_pair(" API_KEY =sk=1 ").unwrap(), ("API_KEY".to_string(), "sk=1 ".to_string()));
    assert_eq!(parse_pair("NOEQ").unwrap_err(), EnvzError::ParseError("Expected KEY=VALUE format".to_string()));
    assert_eq!(parse_pair("1X=v").unwrap_err(), EnvzError::InvalidKey("1X".to_string()));
}

#[test]
fn set_messages() {
    assert_eq!(set_message("K", true), "Updated: K");
    assert_eq!(set_message("K", false), "Set: K");
}

#[test]
fn lookup_and_delete() {
    let mut m = sample();
    assert_eq!(lookup(&m, "A").unwrap(), "plain");
    assert_eq!(lookup(&m, "Z").unwrap_err(), EnvzError::KeyNotFound("Z".to_string()));
    assert_eq!(delete_entry(&mut m, "Z").unwrap_err(), EnvzError::KeyNotFound("Z".to_string()));
    assert_eq!(m.len(), 2);
    delete_entry(&mut m, "A").unwrap();
    assert_eq!(m.len(), 1);
    assert!(lookup(&m, "A").is_err());
}

#[test]
fn listing_lines_in_name_order() {
    let m = sample();
    assert_eq!(list_lines(&m), vec!["A=plain".to_string(), "B=it's\ta\\b\n".to_string()]);
    assert_eq!(unenv_lines(&m), vec!["unset A".to_string(), "unset B".to_string()]);
    assert_eq!(
        env_lines(&m),
        vec!["export A=$'plain'".to_string(), "export B=$'it\\'s\\ta\\\\b\\n'".to_string()]
    );
}

#[test]
fn escaping_special_characters() {
    assert_eq!(escape_value("a'b\\c\r\0"), "a\\'b\\\\c\\r\\0");
    assert_eq!(escape_value(""), "");
    assert_eq!(escape_value("é"), "é");
}

#[test]
fn command_checks() {
    assert_eq!(check_command(&vec![]).unwrap_err(), EnvzError::CommandError("No command specified".to_string()));
    assert!(check_command(&vec!["ls".to_string()]).is_ok());
    assert_eq!(check_init(true, false, true, true).unwrap_err(), EnvzError::VaultAlreadyExists);
    assert_eq!(check_init(true, false, true, false).unwrap_err(), EnvzError::VaultAlreadyExists);
    assert!(check_init(true, true, true, true).is_ok());
    assert!(check_init(false, false, true, true).is_ok());
    assert_eq!(
        check_init(false, false, true, false).unwrap_err(),
        EnvzError::Keychain("Touch ID is required but not available on this system.".to_string())
    );
    assert_eq!(clear_prompt(12), "Delete all 12 variable(s) from the vault?");
}

#[test]
fn keychain_status_meanings() {
    assert!(retrieve_status(0).is_ok());
    assert_eq!(
        retrieve_status(-25300).unwrap_err(),
        EnvzError::Keychain("No keychain entry found. Vault may need to be re-initialized.".to_string())
    );
    assert_eq!(retrieve_status(-25293).unwrap_err(), EnvzError::AuthFailed);
    assert_eq!(retrieve_status(-128).unwrap_err(), EnvzError::AuthFailed);
    assert_eq!(
        retrieve_status(-34018).unwrap_err(),
        EnvzError::Keychain("Failed to retrieve key from keychain (error -34018)".to_string())
    );
    assert_eq!(
        store_status(-25299).unwrap_err(),
        EnvzError::Keychain("Failed to store key in keychain (error -25299)".to_string())
    );
    assert!(store_status(0).is_ok());
    assert!(delete_status(0).is_ok());
    assert!(delete_status(-25300).is_ok());
    assert_eq!(
        delete_status(7).unwrap_err(),
        EnvzError::Keychain("Failed to delete keychain entry (error 7)".to_string())
    );
    assert_eq!(
        retrieve_status(i32::MIN).unwrap_err(),
        EnvzError::Keychain("Failed to retrieve key from keychain (error -2147483648)".to_string())
    );
}

#[test]
fn signing_identity_hash_of_team_and_identifier() {
    let h = signing_identity_hash(Some("AB1234CD5E"), Some("net.gnarlylabs.envz")).unwrap();
    let expected: [u8; 32] = Sha256::digest(b"AB1234CD5E:net.gnarlylabs.envz").into();
    assert_eq!(h, expected);
    assert!(matches!(signing_identity_hash(None, Some("x")), Err(EnvzError::Crypto(m)) if m.contains("no team identifier")));
    assert_eq!(
        signing_identity_hash(Some("T"), None).unwrap_err(),
        EnvzError::Crypto("Binary has no signing identifier".to_string())
    );
}

#[test]
fn safe_variables() {
    assert!(is_safe_var("HOME"));
    assert!(is_safe_var("_"));
    assert!(is_safe_var("XDG_CONFIG_HOME"));
    assert!(is_safe_var("LC_ALL"));
    assert!(!is_safe_var("LC"));
    assert!(!is_safe_var("AWS_SECRET_ACCESS_KEY"));
    assert!(!is_safe_var("home"));
    let vars = vec![
        ("SECRET".to_string(), "x".to_string()),
        ("PATH".to_string(), "/bin".to_string()),
        ("LC_ALL".to_string(), "C".to_string()),
    ];
    assert_eq!(
        filter_vars(vars),
        vec![("PATH".to_string(), "/bin".to_string()), ("LC_ALL".to_string(), "C".to_string())]
    );
}

#[test]
fn error_messages() {
    assert_eq!(EnvzError::KeyNotFound("X".to_string()).message(), "Key not found: X");
    assert_eq!(
        EnvzError::InvalidKey("1".to_string()).message(),
        "Invalid variable name '1': must match [A-Za-z_][A-Za-z0-9_]*"
    );
    assert_eq!(EnvzError::VaultNotFound.message(), "Vault not found. Run `envz init` first.");
    assert_eq!(EnvzError::Io("disk".to_string()).message(), "disk");
}

fn unescape(t: &str) -> String {
    let mut out = String::new();
    let mut it = t.chars();
    while let Some(c) = it.next() {
        if c == '\\' {
            match it.next() {
                Some('n') => out.push('\n'),
                Some('r') => out.push('\r'),
                Some('t') => out.push('\t'),
                Some('0') => out.push('\0'),
                Some(o) => out.push(o),
                None => out.push('\\'),
            }
        } else {
            out.push(c);
        }
    }
    out
}

#[test]
fn escaped_values_read_back_unchanged() {
    for v in ["", "plain", "a'b", "\\'\\n", "x\0y\r\n\t", "😀 'quoted' \"dq\""] {
        assert_eq!(unescape(&escape_value(v)), v);
    }
}

#[test]
fn touch_id_outcomes() {
    assert!(auth_outcome(Some(true)).is_ok());
    assert_eq!(auth_outcome(Some(false)).unwrap_err(), EnvzError::AuthFailed);
    assert_eq!(
        auth_outcome(None).unwrap_err(),
        EnvzError::Keychain("LocalAuthentication framework not available".to_string())
    );
}

#[test]
fn code_signature_step_failure() {
    assert_eq!(
        sec_code_failure("SecCodeCopySelf", -67050),
        EnvzError::Crypto("SecCodeCopySelf failed (error -67050)".to_string())
    );
}

#[test]
fn init_without_touch_id_needs_no_touch_id() {
    assert!(check_init(false, false, false, false).is_ok());
    assert!(check_init(true, true, false, false).is_ok());
    assert_eq!(check_init(true, false, false, false).unwrap_err(), EnvzError::VaultAlreadyExists);
    assert_eq!(init_created_message(true), "Vault created with Touch ID protection.");
    assert_eq!(init_created_message(false), "Vault created without Touch ID protection.");
}

#[test]
fn init_reuses_a_keychain_seed() {
    assert_eq!(existing_seed(&Ok(vec![8u8; 32])).unwrap(), Some([8u8; 32]));
    assert_eq!(existing_seed(&Err(EnvzError::AuthFailed)).unwrap(), None);
    assert_eq!(
        existing_seed(&Ok(vec![8u8; 5])).unwrap_err(),
        EnvzError::Keychain("Invalid seed length".to_string())
    );
}

#[test]
fn init_offers_to_delete_only_an_imported_file() {
    assert!(offer_file_deletion(2, true));
    assert!(!offer_file_deletion(0, true));
    assert!(!offer_file_deletion(2, false));
}

#[test]
fn clear_steps() {
    assert_eq!(clear_step(0, None), ClearStep::AlreadyEmpty);
    assert_eq!(clear_step(0, Some(true)), ClearStep::AlreadyEmpty);
    assert_eq!(
        clear_step(3, None),
        ClearStep::Confirm("Delete all 3 variable(s) from the vault?".to_string())
    );
    assert_eq!(clear_step(3, Some(false)), ClearStep::Aborted);
    assert_eq!(clear_step(3, Some(true)), ClearStep::Clear);
}
