use element_metadata::{absorb_entry, parse_metadata, value_text, ElementMetadata, StoreEntry};

fn entry(key: &[u8], value: &[u8]) -> StoreEntry {
    StoreEntry { key: key.to_vec(), value: value.to_vec() }
}

fn text(s: &str) -> Option<String> {
    Some(s.to_string())
}

fn sample_store() -> Vec<StoreEntry> {
    vec![
        entry(b"mx_user_id", "\u{1}@alice:example.org".as_bytes()),
        entry(b"theme", b"dark"),
        entry(b"room_1_id", b"!abc:example.org"),
        entry(b"encrypted_room_1", b"true"),
        entry(b"binarykey", &[0xFF, 0x00]),
    ]
}

#[test]
fn sample_store_gives_expected_record() {
    let md = parse_metadata(&sample_store());
    assert_eq!(md.user_id, text("@alice:example.org"));
    assert_eq!(md.theme, text("dark"));
    assert_eq!(md.room_ids, vec!["!abc:example.org".to_string()]);
    assert_eq!(md.encrypted_rooms, vec!["encrypted_room_1".to_string()]);
    assert_eq!(md.raw_entries.get("binarykey"), Some(&"0xff00".to_string()));
    assert_eq!(
        md.raw_entries.get("mx_user_id"),
        Some(&"\u{1}@alice:example.org".to_string())
    );
    assert_eq!(md.display_name, None);
    assert_eq!(md.avatar_url, None);
    assert_eq!(md.language, None);
    assert_eq!(md.notifications_enabled, None);
    assert_eq!(md.device_id, None);
    assert_eq!(md.device_name, None);
    assert_eq!(md.curve25519_key, None);
    assert_eq!(md.ed25519_key, None);
    assert_eq!(md.raw_entries.len(), 5);
}

#[test]
fn empty_store_gives_empty_record() {
    let md = parse_metadata(&[]);
    assert_eq!(md.user_id, None);
    assert_eq!(md.notifications_enabled, None);
    assert!(md.room_ids.is_empty());
    assert!(md.encrypted_rooms.is_empty());
    assert!(md.raw_entries.is_empty());
    assert_eq!(md.raw_entries.len(), 0);
}

#[test]
fn archive_counts_entries_with_text_keys() {
    let store = vec![
        entry(b"alpha", b"1"),
        entry(&[0xC3, 0x28], b"dropped"),
        entry(b"beta", &[0x80]),
        entry(&[0xFF], &[0xFE]),
        entry("gamma-\u{e9}".as_bytes(), b"3"),
    ];
    let md = parse_metadata(&store);
    assert_eq!(md.raw_entries.len(), 3);
    assert!(md.raw_entries.contains_key("alpha"));
    assert!(md.raw_entries.contains_key("beta"));
    assert!(md.raw_entries.contains_key("gamma-\u{e9}"));
}

#[test]
fn entry_with_binary_key_leaves_no_trace() {
    let mut md = ElementMetadata::default();
    absorb_entry(&mut md, &[b'u', b's', b'e', b'r', b'_', b'i', b'd', 0xFF], b"@bob:example.org");
    assert_eq!(md.user_id, None);
    assert!(md.raw_entries.is_empty());
}

#[test]
fn binary_value_is_archived_as_hex_and_feeds_no_field() {
    let mut md = ElementMetadata::default();
    absorb_entry(&mut md, b"user_id", &[0xDE, 0xAD, 0xBE, 0xEF, 0x0A]);
    assert_eq!(md.user_id, None);
    assert_eq!(md.raw_entries.get("user_id"), Some(&"0xdeadbeef0a".to_string()));
    assert_eq!(md.raw_entries.len(), 1);
}

#[test]
fn binary_room_value_is_not_appended() {
    let mut md = ElementMetadata::default();
    absorb_entry(&mut md, b"room_id", &[0xC0]);
    assert!(md.room_ids.is_empty());
    assert_eq!(md.raw_entries.get("room_id"), Some(&"0xc0".to_string()));
}

#[test]
fn every_byte_value_has_two_lowercase_digits() {
    let all: Vec<u8> = (0u8..=255).collect();
    let mut value = vec![0xFFu8];
    value.extend_from_slice(&all);
    let mut md = ElementMetadata::default();
    absorb_entry(&mut md, b"blob", &value);
    let archived = md.raw_entries.get("blob").unwrap();
    let digits = "0123456789abcdef".as_bytes();
    let mut expected = String::from("0x");
    for b in &value {
        expected.push(digits[(b / 16) as usize] as char);
        expected.push(digits[(b % 16) as usize] as char);
    }
    assert_eq!(archived, &expected);
    assert_eq!(archived.len(), 2 + 2 * value.len());
}

#[test]
fn later_user_id_wins() {
    let store = vec![
        entry(b"a_user_id", b"@first:example.org"),
        entry(b"b_userId", b"@second:example.org"),
    ];
    let md = parse_metadata(&store);
    assert_eq!(md.user_id, text("@second:example.org"));
    assert_eq!(md.raw_entries.len(), 2);
}

#[test]
fn later_binary_entry_does_not_overwrite_a_field() {
    let store = vec![
        entry(b"a_user_id", b"@first:example.org"),
        entry(b"b_user_id", &[0xFF]),
    ];
    let md = parse_metadata(&store);
    assert_eq!(md.user_id, text("@first:example.org"));
    assert_eq!(md.raw_entries.get("b_user_id"), Some(&"0xff".to_string()));
}

#[test]
fn archive_keeps_the_store_marker() {
    let mut md = ElementMetadata::default();
    absorb_entry(&mut md, b"theme", "\u{1}light".as_bytes());
    assert_eq!(md.theme, text("light"));
    assert_eq!(md.raw_entries.get("theme"), Some(&"\u{1}light".to_string()));
}

#[test]
fn classified_entries_are_archived_too() {
    let store = vec![entry(b"device_id", b"GHTYAJCE"), entry(b"unrelated", b"value")];
    let md = parse_metadata(&store);
    assert_eq!(md.device_id, text("GHTYAJCE"));
    assert_eq!(md.raw_entries.get("device_id"), Some(&"GHTYAJCE".to_string()));
    assert_eq!(md.raw_entries.get("unrelated"), Some(&"value".to_string()));
}

#[test]
fn room_ids_keep_store_order_and_duplicates() {
    let store = vec![
        entry(b"room_1_id", b"!b:example.org"),
        entry(b"room_2_id", b"!a:example.org"),
        entry(b"room_3_id", b"!b:example.org"),
    ];
    let md = parse_metadata(&store);
    assert_eq!(
        md.room_ids,
        vec![
            "!b:example.org".to_string(),
            "!a:example.org".to_string(),
            "!b:example.org".to_string()
        ]
    );
}

#[test]
fn extraction_is_repeatable() {
    let store = sample_store();
    let first = parse_metadata(&store);
    let second = parse_metadata(&store);
    assert_eq!(first.user_id, second.user_id);
    assert_eq!(first.display_name, second.display_name);
    assert_eq!(first.avatar_url, second.avatar_url);
    assert_eq!(first.theme, second.theme);
    assert_eq!(first.language, second.language);
    assert_eq!(first.notifications_enabled, second.notifications_enabled);
    assert_eq!(first.room_ids, second.room_ids);
    assert_eq!(first.encrypted_rooms, second.encrypted_rooms);
    assert_eq!(first.device_id, second.device_id);
    assert_eq!(first.device_name, second.device_name);
    assert_eq!(first.curve25519_key, second.curve25519_key);
    assert_eq!(first.ed25519_key, second.ed25519_key);
    assert_eq!(first.raw_entries.entries(), second.raw_entries.entries());
}

#[test]
fn stepwise_and_whole_extraction_agree() {
    let store = sample_store();
    let whole = parse_metadata(&store);
    let mut stepwise = ElementMetadata::default();
    for e in &store {
        absorb_entry(&mut stepwise, &e.key, &e.value);
    }
    assert_eq!(whole.user_id, stepwise.user_id);
    assert_eq!(whole.theme, stepwise.theme);
    assert_eq!(whole.room_ids, stepwise.room_ids);
    assert_eq!(whole.encrypted_rooms, stepwise.encrypted_rooms);
    assert_eq!(whole.raw_entries.entries(), stepwise.raw_entries.entries());
}

#[test]
fn absent_key_is_not_found() {
    assert_eq!(value_text(None), None);
}

#[test]
fn found_text_value_is_returned_as_stored() {
    assert_eq!(value_text(Some("\u{1}caf\u{e9}".as_bytes())), text("\u{1}caf\u{e9}"));
    assert_eq!(value_text(Some(b"")), text(""));
}

#[test]
fn found_binary_value_is_decoded_leniently() {
    assert_eq!(value_text(Some(&[b'a', 0xFF, b'b'])), text("a\u{FFFD}b"));
}
