use rustpass::codec::{create_password_file, load_passwords, save_passwords};
use rustpass::ipc::DaemonState;
use rustpass::models::{Metadata, PasswordEntry, VaultError};
use rustpass::manager::StateManager as LocalManager;
use rustpass::state::{DaemonProbe, StateManager};
use rustpass::store::{load_key, load_state, save_key, save_state};

fn vault_with(password: &str) -> (Vec<u8>, [u8; 32], Vec<u8>, Vec<PasswordEntry>) {
    let (_, key, salt, _) = create_password_file(password).unwrap();
    let entries = vec![PasswordEntry {
        name: String::from("site"),
        id: String::from("id"),
        password: String::from("pw-site-9"),
        metadata: Metadata { url: None, notes: Some(String::from("n")) },
    }];
    let img = save_passwords(&entries, &key, &salt).unwrap();
    (img, key, salt, entries)
}

#[test]
fn test_no_daemon_reports_locked() {
    let mut mgr = StateManager::new();
    assert!(!mgr.is_unlocked(&DaemonProbe::NoSocket));
    assert!(!mgr.is_unlocked(&DaemonProbe::Unreachable));
}

#[test]
fn test_local_unlock_without_daemon() {
    let (img, _, _, entries) = vault_with("local-only");
    let mut mgr = StateManager::new();

    // Unlock with the correct password using only local vault decryption.
    let (passwords, key, salt) = load_passwords(&img, "local-only").unwrap();
    assert_eq!(passwords.len(), entries.len());
    mgr.unlock(passwords, key, salt, Some("local-only")).unwrap();
    assert!(mgr.is_unlocked(&DaemonProbe::NoSocket));

    let st = mgr.get_state().unwrap();
    assert!(st.unlocked);
    assert_eq!(st.passwords.len(), entries.len());
}

#[test]
fn test_daemon_side_lock_invalidates_cache() {
    let (img, _, _, _) = vault_with("cached");
    let mut mgr = StateManager::new();
    let (passwords, key, salt) = load_passwords(&img, "cached").unwrap();
    mgr.unlock(passwords, key, salt, None).unwrap();

    let locked = DaemonState { unlocked: false, encryption_key: None, salt: None };
    assert!(!mgr.is_unlocked(&DaemonProbe::Replied(locked)));
    // The stale cache is gone: without the daemon the store is locked now.
    assert!(!mgr.is_unlocked(&DaemonProbe::NoSocket));
    assert!(mgr.get_state().is_err());
}

#[test]
fn test_sync_from_daemon() {
    let (img, key, salt, entries) = vault_with("shared");
    let mut mgr = StateManager::new();

    let daemon = DaemonState {
        unlocked: true,
        encryption_key: Some(key.to_vec()),
        salt: Some(salt.clone()),
    };
    mgr.sync_from_daemon(&daemon, &img).unwrap();
    let st = mgr.get_state().unwrap();
    assert!(st.unlocked);
    assert_eq!(st.passwords.len(), entries.len());
    assert_eq!(st.passwords[0].name, entries[0].name);
    assert_eq!(st.encryption_key, key);
    assert_eq!(st.salt, salt);

    // A daemon record without key material cannot be adopted.
    let empty = DaemonState { unlocked: true, encryption_key: None, salt: None };
    let mut fresh = StateManager::new();
    assert_eq!(fresh.sync_from_daemon(&empty, &img).unwrap_err(), VaultError::Ipc);
}

#[test]
fn test_lock_clears_local_state() {
    let (img, _, _, _) = vault_with("to-lock");
    let mut mgr = StateManager::new();
    let (passwords, key, salt) = load_passwords(&img, "to-lock").unwrap();
    mgr.unlock(passwords, key, salt, None).unwrap();
    mgr.lock().unwrap();
    assert!(!mgr.is_unlocked(&DaemonProbe::NoSocket));
}

#[test]
fn test_state_mirror_round_trip() {
    let unlocked_img = save_state(true).unwrap();
    assert_eq!(load_state(&unlocked_img).unwrap(), true);

    let locked_img = save_state(false).unwrap();
    assert_eq!(load_state(&locked_img).unwrap(), false);

    // The two images differ and a corrupted image is rejected.
    assert_ne!(unlocked_img, locked_img);
    let mut broken = unlocked_img.clone();
    let mid = broken.len() / 2;
    broken[mid] ^= 1;
    assert!(load_state(&broken).is_err());
    assert!(load_state(b"not a state file").is_err());
}

#[test]
fn test_key_cache_round_trip() {
    let img = save_key("correct-horse").unwrap();
    assert_eq!(load_key(&img).unwrap(), "correct-horse");

    let other = save_key("\u{00e9}tat \"quoted\"").unwrap();
    assert_eq!(load_key(&other).unwrap(), "\u{00e9}tat \"quoted\"");

    let mut broken = img.clone();
    let mid = broken.len() / 2;
    broken[mid] ^= 1;
    assert_eq!(load_key(&broken).unwrap_err(), VaultError::Decryption);
}

#[test]
fn test_manager_mirror_flow() {
    let (img, _, _, entries) = vault_with("mirror-pass");

    // Locked mirror: not unlocked, no state.
    let mut mgr = LocalManager::new();
    let locked_img = save_state(false).unwrap();
    assert!(!mgr.is_unlocked(Some(&locked_img)));
    assert!(mgr.get_state(Some(&locked_img), None, &img).is_err());

    // Unlocked mirror plus key cache: the state comes back.
    let unlocked_img = save_state(true).unwrap();
    let key_img = save_key("mirror-pass").unwrap();
    assert!(mgr.is_unlocked(Some(&unlocked_img)));
    {
        let st = mgr
            .get_state(Some(&unlocked_img), Some(&key_img), &img)
            .unwrap();
        assert!(st.unlocked);
        assert_eq!(st.passwords.len(), entries.len());
    }

    // Locking verifies the password first.
    assert_eq!(
        mgr.lock(&img, "wrong").unwrap_err(),
        VaultError::Decryption
    );
    mgr.lock(&img, "mirror-pass").unwrap();
    assert!(!mgr.is_unlocked(None));
}

#[test]
fn test_manager_unlock_rejects_wrong_password() {
    let (img, _, _, _) = vault_with("right-one");
    let mut mgr = LocalManager::new();
    assert!(mgr.unlock(&img, "wrong-one").is_err());
    assert!(!mgr.is_unlocked(None));
    mgr.unlock(&img, "right-one").unwrap();
    assert!(mgr.is_unlocked(None));
}
