use password_manager::store::Upsert;
use password_manager::{PasswordManager, VaultError};

fn hex(text: &str) -> Vec<u8> {
    (0..text.len()).step_by(2).map(|i| u8::from_str_radix(&text[i..i + 2], 16).unwrap()).collect()
}

fn sites(manager: &PasswordManager) -> Vec<String> {
    manager.list_entries().iter().map(|e| e.site.clone()).collect()
}

#[test]
fn new_vault_is_empty_and_keeps_its_file_name() {
    let manager = PasswordManager::new("v.db", b"pw1".to_vec());
    assert!(manager.list_entries().is_empty());
    assert_eq!(manager.filename(), "v.db");
}

#[test]
fn created_added_saved_and_reopened_vault_finds_the_record() {
    let mut manager = PasswordManager::new("v.db", b"pw1".to_vec());
    let created = manager.create_new_file(None).unwrap();
    assert_eq!(manager.add_entry("example.com", "alice", Some("secret1")), Ok(Upsert::Added));
    let saved = manager.save_passwords().unwrap();
    assert_ne!(created, saved);

    let reopened = PasswordManager::load_data("v.db", b"pw1".to_vec(), Some(&saved)).ok().unwrap();
    let entry = reopened.get_entry("example.com").unwrap();
    assert_eq!(entry.username, "alice");
    assert_eq!(entry.password, "secret1");
    assert_eq!(reopened.list_entries().len(), 1);
    assert_eq!(reopened.filename(), "v.db");
}

#[test]
fn wrong_passphrase_cannot_unlock_and_leaves_the_bytes_alone() {
    let mut manager = PasswordManager::new("v.db", b"pw1".to_vec());
    manager.add_entry("example.com", "alice", Some("secret1")).unwrap();
    let saved = manager.save_passwords().unwrap();
    let before = saved.clone();
    let opened = PasswordManager::load_data("v.db", b"wrong-pw".to_vec(), Some(&saved));
    assert_eq!(opened.err(), Some(VaultError::IncorrectKeyOrCorruptData));
    assert_eq!(saved, before);
}

#[test]
fn freshly_created_file_opens_as_an_empty_vault() {
    let manager = PasswordManager::new("v.db", b"pw1".to_vec());
    let created = manager.create_new_file(None).unwrap();
    assert_eq!(created.len(), 12 + 2 + 16);
    let reopened = PasswordManager::load_data("v.db", b"pw1".to_vec(), Some(&created)).ok().unwrap();
    assert!(reopened.list_entries().is_empty());
}

#[test]
fn create_refuses_to_overwrite_a_file() {
    let manager = PasswordManager::new("v.db", b"pw1".to_vec());
    assert_eq!(manager.create_new_file(Some(b"anything")), Err(VaultError::AlreadyExists));
    assert_eq!(manager.create_new_file(Some(&[0u8])), Err(VaultError::AlreadyExists));
}

#[test]
fn create_treats_a_file_without_bytes_as_no_file() {
    let manager = PasswordManager::new("v.db", b"pw1".to_vec());
    assert!(manager.create_new_file(Some(b"")).is_ok());
}

#[test]
fn open_without_a_file_reports_file_not_found() {
    assert_eq!(
        PasswordManager::load_data("v.db", b"pw1".to_vec(), None).err(),
        Some(VaultError::FileNotFound)
    );
    assert_eq!(
        PasswordManager::load_data("v.db", b"pw1".to_vec(), Some(b"")).err(),
        Some(VaultError::FileNotFound)
    );
}

#[test]
fn open_reports_every_damage_in_the_same_way() {
    let mut manager = PasswordManager::new("v.db", b"pw1".to_vec());
    manager.add_entry("example.com", "alice", Some("secret1")).unwrap();
    let saved = manager.save_passwords().unwrap();

    let mut flipped = saved.clone();
    flipped[20] ^= 0x80;
    let short = vec![1u8, 2, 3];
    let truncated = saved[..saved.len() - 1].to_vec();
    for damaged in [flipped, short, truncated] {
        assert_eq!(
            PasswordManager::load_data("v.db", b"pw1".to_vec(), Some(&damaged)).err(),
            Some(VaultError::IncorrectKeyOrCorruptData)
        );
    }
}

#[test]
fn open_reports_text_that_does_not_decode_as_wrong_key_or_damage() {
    // "hello" sealed under the key of "pw1": it opens, but it is no store.
    let blob = hex("000102030405060708090a0b170de6867d6878c8234cba559ea1b67fab53ab1676");
    assert_eq!(
        PasswordManager::load_data("v.db", b"pw1".to_vec(), Some(&blob)).err(),
        Some(VaultError::IncorrectKeyOrCorruptData)
    );
}

#[test]
fn open_reads_a_known_file() {
    // [["example.com","alice","secret1"]] sealed under the key of "pw1".
    let blob = hex(
        "000102030405060708090a0b2433a88f6a828cf0e0ad172a462a17da4dcbaf43b638c50171087f8e113b3517d6756f339ddaa0e8ff6ccf1f93a8fe819ddda3",
    );
    let manager = PasswordManager::load_data("v.db", b"pw1".to_vec(), Some(&blob)).ok().unwrap();
    let entry = manager.get_entry("example.com").unwrap();
    assert_eq!(entry.username, "alice");
    assert_eq!(entry.password, "secret1");
}

#[test]
fn saving_twice_gives_different_bytes_for_the_same_records() {
    let mut manager = PasswordManager::new("v.db", b"pw1".to_vec());
    manager.add_entry("example.com", "alice", Some("secret1")).unwrap();
    let first = manager.save_passwords().unwrap();
    let second = manager.save_passwords().unwrap();
    assert_ne!(first[..12], second[..12]);
    assert_eq!(first.len(), second.len());
    assert_eq!(manager.list_entries().len(), 1);
}

#[test]
fn records_survive_a_save_in_their_order() {
    let mut manager = PasswordManager::new("v.db", b"pw1".to_vec());
    for site in ["c", "a", "b"] {
        manager.add_entry(site, "user", Some(site)).unwrap();
    }
    manager.remove_entry("a").unwrap();
    manager.edit_entry("b", "other", "changed").unwrap();
    let saved = manager.save_passwords().unwrap();
    let reopened = PasswordManager::load_data("w.db", b"pw1".to_vec(), Some(&saved)).ok().unwrap();
    assert_eq!(sites(&reopened), vec!["c", "b"]);
    assert_eq!(reopened.get_entry("b").unwrap().username, "other");
    assert_eq!(reopened.get_entry("b").unwrap().password, "changed");
    assert_eq!(reopened.get_entry("c").unwrap().password, "c");
}

#[test]
fn vault_operations_report_missing_sites() {
    let mut manager = PasswordManager::new("v.db", b"pw1".to_vec());
    assert_eq!(manager.remove_entry("a"), Err(VaultError::NotFound));
    assert_eq!(manager.edit_entry("a", "u", "p"), Err(VaultError::NotFound));
    assert_eq!(manager.get_entry("a").err(), Some(VaultError::NotFound));
    assert_eq!(manager.add_entry("", "u", None), Err(VaultError::InvalidArgument));
    manager.add_entry("a", "u", None).unwrap();
    assert_eq!(manager.remove_entry("a"), Ok(()));
    assert_eq!(manager.remove_entry("a"), Err(VaultError::NotFound));
    assert!(manager.list_entries().is_empty());
}

#[test]
fn add_entry_without_password_keeps_the_old_one() {
    let mut manager = PasswordManager::new("v.db", b"pw1".to_vec());
    manager.add_entry("a", "alice", Some("secret")).unwrap();
    assert_eq!(manager.add_entry("a", "bob", None), Ok(Upsert::Updated));
    assert_eq!(manager.get_entry("a").unwrap().username, "bob");
    assert_eq!(manager.get_entry("a").unwrap().password, "secret");
}

#[test]
fn generate_without_a_site_stores_nothing() {
    let mut manager = PasswordManager::new("v.db", b"pw1".to_vec());
    let password = manager.generate_password(16, None, false).unwrap();
    assert_eq!(password.chars().count(), 16);
    assert!(password.chars().all(|c| c.is_ascii_alphanumeric()));
    assert!(manager.list_entries().is_empty());
}

#[test]
fn generate_for_a_new_site_adds_a_record() {
    let mut manager = PasswordManager::new("v.db", b"pw1".to_vec());
    let password = manager.generate_password(20, Some("example.com".to_string()), true).unwrap();
    assert_eq!(password.chars().count(), 20);
    let set = PasswordManager::get_character_set(true);
    assert!(password.chars().all(|c| set.contains(&c)));
    let entry = manager.get_entry("example.com").unwrap();
    assert_eq!(entry.username, "default_username");
    assert_eq!(entry.password, password);
}

#[test]
fn generate_for_an_existing_site_replaces_only_the_password() {
    let mut manager = PasswordManager::new("v.db", b"pw1".to_vec());
    manager.add_entry("example.com", "alice", Some("secret1")).unwrap();
    let password = manager.generate_password(16, Some("example.com".to_string()), false).unwrap();
    let entry = manager.get_entry("example.com").unwrap();
    assert_eq!(entry.username, "alice");
    assert_eq!(entry.password, password);
    assert_ne!(entry.password, "secret1");
    assert_eq!(manager.list_entries().len(), 1);
}

#[test]
fn generate_refuses_an_empty_site() {
    let mut manager = PasswordManager::new("v.db", b"pw1".to_vec());
    assert_eq!(
        manager.generate_password(16, Some(String::new()), false),
        Err(VaultError::InvalidArgument)
    );
    assert!(manager.list_entries().is_empty());
}

#[test]
fn character_sets_have_62_and_90_characters() {
    assert_eq!(PasswordManager::get_character_set(false).len(), 62);
    assert_eq!(PasswordManager::get_character_set(true).len(), 90);
}
