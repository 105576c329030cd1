use actlog::ids::{get_or_create_device_id, DeviceId};
use actlog::text::{same_text, trim_str};

fn is_uuid_text(s: &str, version: char) -> bool {
    let cs: Vec<char> = s.chars().collect();
    if cs.len() != 36 {
        return false;
    }
    for (i, c) in cs.iter().enumerate() {
        if i == 8 || i == 13 || i == 18 || i == 23 {
            if *c != '-' {
                return false;
            }
        } else if !(c.is_ascii_digit() || ('a'..='f').contains(c)) {
            return false;
        }
    }
    cs[14] == version && matches!(cs[19], '8' | '9' | 'a' | 'b')
}

#[test]
fn trim_removes_ascii_whitespace_at_both_ends() {
    assert_eq!(trim_str("  abc def \n\t"), "abc def");
}

#[test]
fn trim_removes_unicode_whitespace() {
    assert_eq!(trim_str("\u{3000}\u{A0}id\u{2009}\u{85}"), "id");
}

#[test]
fn trim_of_blank_text_is_empty() {
    assert_eq!(trim_str(" \r\n "), "");
    assert_eq!(trim_str(""), "");
}

#[test]
fn trim_agrees_with_std() {
    for s in ["x", " x", "x ", "\u{1680}a b\u{205F}", "\u{200A}\u{2028}", "é ü", "\u{200B}x"] {
        assert_eq!(trim_str(s), s.trim());
    }
}

#[test]
fn same_text_compares_characters() {
    assert!(same_text("LockApp.exe", "LockApp.exe"));
    assert!(!same_text("LockApp.exe", "LockApp.ex"));
    assert!(!same_text("a", "b"));
    assert!(same_text("", ""));
}

#[test]
fn stored_device_id_is_trimmed() {
    match get_or_create_device_id(Some("  3f6c-device\n")) {
        DeviceId::Stored(id) => assert_eq!(id, "3f6c-device"),
        other => panic!("unexpected {:?}", other),
    }
}

#[test]
fn blank_device_id_file_gives_fresh_v4_id() {
    let d = get_or_create_device_id(Some(" \n"));
    assert!(d.is_fresh());
    assert!(is_uuid_text(d.id(), '4'), "{}", d.id());
}

#[test]
fn missing_device_id_file_gives_fresh_v4_id() {
    match get_or_create_device_id(None) {
        DeviceId::Fresh(id) => assert!(is_uuid_text(&id, '4'), "{}", id),
        other => panic!("unexpected {:?}", other),
    }
}

#[test]
fn fresh_ids_differ() {
    let a = get_or_create_device_id(None);
    let b = get_or_create_device_id(None);
    assert_ne!(a.id(), b.id());
}

#[test]
fn fresh_device_id_reads_back_unchanged() {
    let fresh = get_or_create_device_id(None);
    let written = fresh.id().to_string();
    let again = get_or_create_device_id(Some(&written));
    assert!(!again.is_fresh());
    assert_eq!(again.id(), written);
    // a trailing newline added by an editor does not change it either
    let edited = format!("{}\n", written);
    assert_eq!(get_or_create_device_id(Some(&edited)).id(), written);
}
