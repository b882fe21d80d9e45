use element_metadata::{clean_value, same_text};

#[test]
fn same_text_compares_characters() {
    assert!(same_text("", ""));
    assert!(same_text("true", "true"));
    assert!(!same_text("true", "True"));
    assert!(!same_text("true", "tru"));
    assert!(!same_text("tru", "true"));
    assert!(!same_text("true", "trux"));
    assert!(same_text("caf\u{e9}", "caf\u{e9}"));
    assert!(!same_text("caf\u{e9}", "cafe\u{301}"));
}

#[test]
fn clean_value_strips_one_leading_marker() {
    assert_eq!(clean_value("\u{1}@alice:example.org"), "@alice:example.org");
    assert_eq!(clean_value("@alice:example.org"), "@alice:example.org");
    assert_eq!(clean_value("\u{1}\u{1}x"), "\u{1}x");
    assert_eq!(clean_value("\u{1}"), "");
    assert_eq!(clean_value(""), "");
    assert_eq!(clean_value("x\u{1}"), "x\u{1}");
    assert_eq!(clean_value("\u{2}x"), "\u{2}x");
    assert_eq!(clean_value("\u{1}\u{e9}t\u{e9}"), "\u{e9}t\u{e9}");
}
