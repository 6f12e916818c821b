use kdev::runtime::HostOs;
use kdev::security::{
    config_path, lock_workspace, master_password_saved, password_hash_field, record_verification, require_unlocked,
    security_state, set_master_password, verify_master_password, ConfigRead, WorkspaceLock,
};

const LOCKED: &str = "KDev is locked. Unlock with your master password first.";

#[test]
fn nothing_is_locked_without_a_password() {
    let lock = WorkspaceLock::new();
    assert!(!lock.is_unlocked());
    assert_eq!(require_unlocked(&Ok(false), &lock), Ok(()));
}

#[test]
fn a_configured_password_locks_until_verified() {
    let mut lock = WorkspaceLock::new();
    assert_eq!(require_unlocked(&Ok(true), &lock), Err(LOCKED.to_string()));
    let doc = {
        // set while nothing is configured yet
        let d = set_master_password(&Ok(false), &lock, "correct horse battery").unwrap();
        assert_eq!(master_password_saved(&mut lock, Ok(())), Ok(()));
        d
    };
    assert!(lock.is_unlocked());
    assert_eq!(require_unlocked(&Ok(true), &lock), Ok(()));
    assert_eq!(lock_workspace(&mut lock), Ok(()));
    assert_eq!(require_unlocked(&Ok(true), &lock), Err(LOCKED.to_string()));
    assert_eq!(verify_master_password(&mut lock, ConfigRead::Text(doc.clone()), "wrong password!"), Ok(false));
    assert!(!lock.is_unlocked());
    assert_eq!(verify_master_password(&mut lock, ConfigRead::Text(doc), "correct horse battery"), Ok(true));
    assert!(lock.is_unlocked());
}

#[test]
fn location_errors_come_first() {
    let lock = WorkspaceLock::new();
    assert_eq!(require_unlocked(&Err("no root".to_string()), &lock), Err("no root".to_string()));
    assert_eq!(set_master_password(&Err("no root".to_string()), &lock, "long enough pw"), Err("no root".to_string()));
    assert_eq!(config_path(HostOs::Other, &Ok("/k".to_string())), Ok("/k/security/security.json".to_string()));
    assert_eq!(config_path(HostOs::Windows, &Ok("C:\\k".to_string())), Ok("C:\\k\\security\\security.json".to_string()));
    assert_eq!(config_path(HostOs::Other, &Err("e".to_string())), Err("e".to_string()));
    let s = security_state(Ok("/k/security/security.json".to_string()), true).unwrap();
    assert!(s.configured);
    assert_eq!(s.config_path, "/k/security/security.json");
}

#[test]
fn changing_the_password_needs_an_unlocked_process() {
    let lock = WorkspaceLock::new();
    assert_eq!(set_master_password(&Ok(true), &lock, "a long new password"), Err(LOCKED.to_string()));
}

#[test]
fn short_passwords_are_refused() {
    let lock = WorkspaceLock::new();
    let msg = "Master password must contain at least 10 characters.".to_string();
    assert_eq!(set_master_password(&Ok(false), &lock, "123456789"), Err(msg.clone()));
    // characters, not bytes, are counted
    assert_eq!(set_master_password(&Ok(false), &lock, "ééééééééé"), Err(msg));
    assert!(set_master_password(&Ok(false), &lock, "1234567890").is_ok());
}

#[test]
fn the_written_document_holds_the_hash() {
    let lock = WorkspaceLock::new();
    let doc = set_master_password(&Ok(false), &lock, "0123456789").unwrap();
    let v: serde_json::Value = serde_json::from_str(&doc).unwrap();
    assert_eq!(v["version"], 1);
    let hash = v["password_hash"].as_str().unwrap();
    assert!(hash.starts_with("$argon2id$"));
    assert_eq!(doc, format!("{{\n  \"password_hash\": \"{}\",\n  \"version\": 1\n}}", hash));
    // the salt: 16 bytes in B64, 22 characters
    let salt = hash.split('$').nth(4).unwrap();
    assert_eq!(salt.len(), 22);
    // a password of ten characters or more is always accepted while unlocked
    for pw in ["0123456789", "a much longer passphrase with spaces", "ünïcödé-pässwörd"] {
        assert!(set_master_password(&Ok(true), &unlocked_after_save(), pw).is_ok());
    }
}

#[test]
fn failed_saves_keep_the_lock() {
    let mut lock = WorkspaceLock::new();
    assert_eq!(master_password_saved(&mut lock, Err("disk full".to_string())), Err("disk full".to_string()));
    assert!(!lock.is_unlocked());
}

#[test]
fn unreadable_and_invalid_configurations() {
    let mut lock = WorkspaceLock::new();
    assert_eq!(
        verify_master_password(&mut lock, ConfigRead::Unreadable("gone".to_string()), "x"),
        Err("security configuration unavailable: gone".to_string())
    );
    assert_eq!(verify_master_password(&mut lock, ConfigRead::NoPath("root".to_string()), "x"), Err("root".to_string()));
    assert_eq!(
        verify_master_password(&mut lock, ConfigRead::Text("{\"version\": 1}".to_string()), "x"),
        Err("invalid security configuration".to_string())
    );
    let r = verify_master_password(&mut lock, ConfigRead::Text("not json".to_string()), "x").unwrap_err();
    assert!(r.starts_with("invalid security configuration: "));
    let r = verify_master_password(&mut lock, ConfigRead::Text("{\"password_hash\": \"garbage\"}".to_string()), "x");
    assert!(r.is_err());
    assert!(!lock.is_unlocked());
}

#[test]
fn hash_field_and_outcome_helpers() {
    assert_eq!(password_hash_field(Ok(Some("h".to_string()))), Ok("h".to_string()));
    assert_eq!(password_hash_field(Ok(None)), Err("invalid security configuration".to_string()));
    assert_eq!(password_hash_field(Err("eof".to_string())), Err("invalid security configuration: eof".to_string()));
    let mut lock = WorkspaceLock::new();
    assert_eq!(record_verification(&mut lock, Ok(false)), Ok(false));
    assert!(!lock.is_unlocked());
    assert_eq!(record_verification(&mut lock, Err("bad".to_string())), Err("bad".to_string()));
    assert!(!lock.is_unlocked());
    assert_eq!(record_verification(&mut lock, Ok(true)), Ok(true));
    assert!(lock.is_unlocked());
}

fn unlocked_after_save() -> WorkspaceLock {
    let mut lock = WorkspaceLock::new();
    assert_eq!(master_password_saved(&mut lock, Ok(())), Ok(()));
    lock
}
