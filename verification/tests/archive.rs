use element_metadata::{ElementMetadata, RawArchive};

#[test]
fn new_archive_is_empty() {
    let archive = RawArchive::new();
    assert!(archive.is_empty());
    assert_eq!(archive.len(), 0);
    assert_eq!(archive.get("anything"), None);
    assert!(!archive.contains_key("anything"));
    assert!(archive.entries().is_empty());
}

#[test]
fn insert_then_get() {
    let mut archive = RawArchive::new();
    archive.insert("alpha".to_string(), "1".to_string());
    archive.insert("beta".to_string(), "2".to_string());
    assert_eq!(archive.len(), 2);
    assert!(!archive.is_empty());
    assert_eq!(archive.get("alpha"), Some(&"1".to_string()));
    assert_eq!(archive.get("beta"), Some(&"2".to_string()));
    assert_eq!(archive.get("gamma"), None);
    assert!(archive.contains_key("beta"));
    assert!(!archive.contains_key("bet"));
    assert!(!archive.contains_key("betaa"));
}

#[test]
fn insert_replaces_the_value_of_a_known_key() {
    let mut archive = RawArchive::new();
    archive.insert("alpha".to_string(), "1".to_string());
    archive.insert("beta".to_string(), "2".to_string());
    archive.insert("alpha".to_string(), "3".to_string());
    assert_eq!(archive.len(), 2);
    assert_eq!(archive.get("alpha"), Some(&"3".to_string()));
    assert_eq!(archive.get("beta"), Some(&"2".to_string()));
}

#[test]
fn entries_hold_every_key_once() {
    let mut archive = RawArchive::new();
    archive.insert("k1".to_string(), "a".to_string());
    archive.insert("k2".to_string(), "b".to_string());
    archive.insert("k1".to_string(), "c".to_string());
    archive.insert("".to_string(), "empty key".to_string());
    let mut listed: Vec<(String, String)> = archive.entries().clone();
    listed.sort();
    assert_eq!(
        listed,
        vec![
            ("".to_string(), "empty key".to_string()),
            ("k1".to_string(), "c".to_string()),
            ("k2".to_string(), "b".to_string()),
        ]
    );
    assert_eq!(archive.entries().len(), archive.len());
}

#[test]
fn keys_are_compared_by_their_characters() {
    let mut archive = RawArchive::new();
    archive.insert("caf\u{e9}".to_string(), "composed".to_string());
    archive.insert("cafe\u{301}".to_string(), "decomposed".to_string());
    archive.insert("Caf\u{e9}".to_string(), "capital".to_string());
    assert_eq!(archive.len(), 3);
    assert_eq!(archive.get("caf\u{e9}"), Some(&"composed".to_string()));
    assert_eq!(archive.get("cafe\u{301}"), Some(&"decomposed".to_string()));
    assert_eq!(archive.get("cafe"), None);
}

#[test]
fn archive_clone_is_independent() {
    let mut archive = RawArchive::new();
    archive.insert("k".to_string(), "v".to_string());
    let copy = archive.clone();
    archive.insert("k".to_string(), "w".to_string());
    archive.insert("l".to_string(), "x".to_string());
    assert_eq!(copy.len(), 1);
    assert_eq!(copy.get("k"), Some(&"v".to_string()));
    assert_eq!(archive.get("k"), Some(&"w".to_string()));
}

#[test]
fn default_record_is_empty() {
    let md = ElementMetadata::default();
    assert_eq!(md.user_id, None);
    assert_eq!(md.display_name, None);
    assert_eq!(md.avatar_url, None);
    assert_eq!(md.theme, None);
    assert_eq!(md.language, None);
    assert_eq!(md.notifications_enabled, None);
    assert!(md.room_ids.is_empty());
    assert!(md.encrypted_rooms.is_empty());
    assert_eq!(md.device_id, None);
    assert_eq!(md.device_name, None);
    assert_eq!(md.curve25519_key, None);
    assert_eq!(md.ed25519_key, None);
    assert!(md.raw_entries.is_empty());
}

#[test]
fn record_clone_keeps_every_field() {
    let mut md = ElementMetadata::default();
    md.user_id = Some("@a:example.org".to_string());
    md.notifications_enabled = Some(false);
    md.room_ids.push("!r:example.org".to_string());
    md.encrypted_rooms.push("encrypted_1".to_string());
    md.ed25519_key = Some("key".to_string());
    md.raw_entries.insert("k".to_string(), "v".to_string());
    let copy = md.clone();
    md.room_ids.push("!s:example.org".to_string());
    md.raw_entries.insert("k".to_string(), "w".to_string());
    assert_eq!(copy.user_id, Some("@a:example.org".to_string()));
    assert_eq!(copy.notifications_enabled, Some(false));
    assert_eq!(copy.room_ids, vec!["!r:example.org".to_string()]);
    assert_eq!(copy.encrypted_rooms, vec!["encrypted_1".to_string()]);
    assert_eq!(copy.ed25519_key, Some("key".to_string()));
    assert_eq!(copy.display_name, None);
    assert_eq!(copy.raw_entries.get("k"), Some(&"v".to_string()));
    assert_eq!(copy.raw_entries.len(), 1);
}
