use salesforce_exporter::text::{
    copy_texts, decimal_text, join_texts, lookup_key, same_text, strip_suffixes,
};

fn texts(items: &[&str]) -> Vec<String> {
    items.iter().map(|s| s.to_string()).collect()
}

#[test]
fn texts_are_compared() {
    assert!(same_text("abc", "abc"));
    assert!(!same_text("abc", "abC"));
    assert!(same_text("", ""));
}

#[test]
fn lookup_keys_are_trimmed_and_lowered() {
    assert_eq!(lookup_key("  Name "), "name");
    assert_eq!(lookup_key("\tÄrger__C\u{a0}\u{3000}"), "ärger__c");
    assert_eq!(lookup_key("a b"), "a b");
    assert_eq!(lookup_key(" \u{2003}\r\n"), "");
    assert_eq!(lookup_key("\u{200b}X"), "\u{200b}x");
}

#[test]
fn every_white_space_is_trimmed() {
    for code in 0u32..0x11_0000 {
        if let Some(c) = char::from_u32(code) {
            let expected = matches!(
                code,
                0x9..=0xd | 0x20 | 0x85 | 0xa0 | 0x1680 | 0x2000..=0x200a | 0x2028 | 0x2029
                    | 0x202f | 0x205f | 0x3000
            );
            assert_eq!(c.to_string().trim().is_empty(), expected, "{code:x}");
        }
    }
}

#[test]
fn suffixes_are_stripped_repeatedly() {
    assert_eq!(strip_suffixes("Invoice__c", "__c"), "Invoice");
    assert_eq!(strip_suffixes("A__c__c", "__c"), "A");
    assert_eq!(strip_suffixes("__c", "__c"), "");
    assert_eq!(strip_suffixes("Account", "__c"), "Account");
    assert_eq!(strip_suffixes("A__C", "__c"), "A__C");
    assert_eq!(strip_suffixes("Größe__c", "__c"), "Größe");
    assert_eq!(strip_suffixes("c", "__c"), "c");
    for name in ["Invoice__c", "A__c__c", "__c", "", "Größe__c", "___c"] {
        assert_eq!(strip_suffixes(name, "__c"), name.trim_end_matches("__c"));
    }
}

#[test]
fn texts_are_joined() {
    assert_eq!(join_texts(&texts(&[]), ", "), "");
    assert_eq!(join_texts(&texts(&["Id"]), ", "), "Id");
    assert_eq!(join_texts(&texts(&["Id", "Name", ""]), ", "), "Id, Name, ");
}

#[test]
fn texts_are_copied() {
    assert_eq!(copy_texts(&texts(&["a", "b"])), texts(&["a", "b"]));
}

#[test]
fn numbers_are_written_in_decimal() {
    for n in [0usize, 1, 9, 10, 11, 99, 100, 1234567890, usize::MAX] {
        assert_eq!(decimal_text(n), n.to_string());
    }
}
