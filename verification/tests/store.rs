use password_manager::entry::Entry;
use password_manager::store::{RecordStore, Upsert, DEFAULT_PASSWORD, DEFAULT_USERNAME};
use password_manager::VaultError;

fn entry(site: &str, username: &str, password: &str) -> Entry {
    Entry { site: site.to_string(), username: username.to_string(), password: password.to_string() }
}

fn sites(store: &RecordStore) -> Vec<String> {
    store.list().iter().map(|e| e.site.clone()).collect()
}

#[test]
fn new_store_is_empty() {
    let store = RecordStore::new();
    assert_eq!(store.len(), 0);
    assert!(store.list().is_empty());
}

#[test]
fn upsert_appends_then_updates() {
    let mut store = RecordStore::new();
    assert_eq!(store.upsert("example.com", "alice", Some("secret1")), Ok(Upsert::Added));
    assert_eq!(store.upsert("example.com", "bob", None), Ok(Upsert::Updated));
    assert_eq!(store.len(), 1);
    let entry = store.find("example.com").unwrap();
    assert_eq!(entry.site, "example.com");
    assert_eq!(entry.username, "bob");
    assert_eq!(entry.password, "secret1");
}

#[test]
fn upsert_with_password_overwrites_both_fields() {
    let mut store = RecordStore::new();
    store.upsert("example.com", "alice", Some("secret1")).unwrap();
    assert_eq!(store.upsert("example.com", "carol", Some("secret2")), Ok(Upsert::Updated));
    let entry = store.find("example.com").unwrap();
    assert_eq!(entry.username, "carol");
    assert_eq!(entry.password, "secret2");
}

#[test]
fn upsert_without_password_uses_the_default_for_a_new_site() {
    let mut store = RecordStore::new();
    assert_eq!(store.upsert("example.com", "alice", None), Ok(Upsert::Added));
    assert_eq!(DEFAULT_PASSWORD, "default_password");
    assert_eq!(store.find("example.com").unwrap().password, "default_password");
}

#[test]
fn upsert_refuses_an_empty_site() {
    let mut store = RecordStore::new();
    store.upsert("a", "u", Some("p")).unwrap();
    assert_eq!(store.upsert("", "bob", Some("x")), Err(VaultError::InvalidArgument));
    assert_eq!(sites(&store), vec!["a"]);
}

#[test]
fn upsert_keeps_sites_unique_and_in_order() {
    let mut store = RecordStore::new();
    for site in ["b", "a", "c", "a", "b", "d", "a"] {
        store.upsert(site, "u", Some(site)).unwrap();
    }
    assert_eq!(sites(&store), vec!["b", "a", "c", "d"]);
    assert_eq!(store.len(), 4);
}

#[test]
fn upsert_on_an_existing_site_keeps_the_count() {
    let mut store = RecordStore::new();
    store.upsert("a", "u1", Some("p1")).unwrap();
    store.upsert("b", "u2", Some("p2")).unwrap();
    let before = store.len();
    assert_eq!(store.upsert("a", "u3", Some("p3")), Ok(Upsert::Updated));
    assert_eq!(store.len(), before);
    assert_eq!(store.list()[0].username, "u3");
    assert_eq!(store.list()[1].username, "u2");
}

#[test]
fn sites_are_compared_exactly() {
    let mut store = RecordStore::new();
    store.upsert("Example.com", "u", Some("p")).unwrap();
    assert_eq!(store.upsert("example.com", "u", Some("p")), Ok(Upsert::Added));
    assert_eq!(store.upsert("example.com ", "u", Some("p")), Ok(Upsert::Added));
    assert_eq!(store.len(), 3);
}

#[test]
fn remove_deletes_the_record_and_keeps_the_order() {
    let mut store = RecordStore::new();
    for site in ["a", "b", "c"] {
        store.upsert(site, "u", Some("p")).unwrap();
    }
    assert_eq!(store.remove("b"), Ok(()));
    assert_eq!(sites(&store), vec!["a", "c"]);
}

#[test]
fn remove_twice_reports_not_found_and_changes_nothing() {
    let mut store = RecordStore::new();
    for site in ["a", "b", "c"] {
        store.upsert(site, "u", Some("p")).unwrap();
    }
    assert_eq!(store.remove("a"), Ok(()));
    let after_first = sites(&store);
    assert_eq!(store.remove("a"), Err(VaultError::NotFound));
    assert_eq!(sites(&store), after_first);
    assert_eq!(sites(&store), vec!["b", "c"]);
}

#[test]
fn remove_on_an_empty_store_reports_not_found() {
    let mut store = RecordStore::new();
    assert_eq!(store.remove("a"), Err(VaultError::NotFound));
    assert_eq!(store.len(), 0);
}

#[test]
fn edit_overwrites_both_fields() {
    let mut store = RecordStore::new();
    store.upsert("a", "u", Some("p")).unwrap();
    store.upsert("b", "v", Some("q")).unwrap();
    assert_eq!(store.edit("b", "w", "r"), Ok(()));
    let entry = store.find("b").unwrap();
    assert_eq!(entry.site, "b");
    assert_eq!(entry.username, "w");
    assert_eq!(entry.password, "r");
    assert_eq!(store.find("a").unwrap().username, "u");
    assert_eq!(sites(&store), vec!["a", "b"]);
}

#[test]
fn edit_of_a_missing_site_reports_not_found() {
    let mut store = RecordStore::new();
    store.upsert("a", "u", Some("p")).unwrap();
    assert_eq!(store.edit("z", "w", "r"), Err(VaultError::NotFound));
    assert_eq!(store.len(), 1);
    assert_eq!(store.find("a").unwrap().username, "u");
}

#[test]
fn find_of_a_missing_site_reports_not_found() {
    let store = RecordStore::new();
    assert_eq!(store.find("a").err(), Some(VaultError::NotFound));
}

#[test]
fn assign_password_keeps_the_username_of_an_existing_record() {
    let mut store = RecordStore::new();
    store.upsert("a", "alice", Some("old")).unwrap();
    assert_eq!(store.assign_password("a", "new"), Ok(Upsert::Updated));
    let entry = store.find("a").unwrap();
    assert_eq!(entry.username, "alice");
    assert_eq!(entry.password, "new");
}

#[test]
fn assign_password_adds_a_record_with_the_default_username() {
    let mut store = RecordStore::new();
    assert_eq!(store.assign_password("a", "new"), Ok(Upsert::Added));
    assert_eq!(DEFAULT_USERNAME, "default_username");
    let entry = store.find("a").unwrap();
    assert_eq!(entry.username, "default_username");
    assert_eq!(entry.password, "new");
    assert_eq!(store.assign_password("", "new"), Err(VaultError::InvalidArgument));
    assert_eq!(store.len(), 1);
}

#[test]
fn from_entries_accepts_unique_sites() {
    let store = RecordStore::from_entries(vec![entry("a", "u", "p"), entry("b", "v", "q")]).ok().unwrap();
    assert_eq!(sites(&store), vec!["a", "b"]);
    assert_eq!(store.list()[1].username, "v");
    assert_eq!(store.list()[1].password, "q");
    assert!(RecordStore::from_entries(Vec::new()).is_ok());
}

#[test]
fn from_entries_refuses_a_repeated_site() {
    let made = RecordStore::from_entries(vec![entry("a", "u", "p"), entry("b", "v", "q"), entry("a", "w", "r")]);
    assert_eq!(made.err(), Some(VaultError::InvalidArgument));
}

#[test]
fn from_entries_refuses_an_empty_site() {
    let made = RecordStore::from_entries(vec![entry("a", "u", "p"), entry("", "v", "q")]);
    assert_eq!(made.err(), Some(VaultError::InvalidArgument));
}

#[test]
fn entry_clone_copies_every_field() {
    let first = entry("a", "u", "p");
    let copy = first.clone();
    assert_eq!(copy.site, "a");
    assert_eq!(copy.username, "u");
    assert_eq!(copy.password, "p");
}
