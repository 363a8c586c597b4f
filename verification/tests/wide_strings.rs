use hmclauncher::wide::{trim_wide_whitespace, wide_contains, WideString};
use hmclauncher::wide_path::WidePathBuf;

fn utf16(text: &str) -> Vec<u16> {
    text.encode_utf16().collect()
}

#[test]
fn trim_spaces() {
    let value = WideString::from_str("  hello\t").unwrap();
    let trimmed = trim_wide_whitespace(value.as_slice());
    assert_eq!(trimmed, utf16("hello"));
}

#[test]
fn substring_search() {
    let value = WidePathBuf::from_str("C:\\Common Files\\Oracle\\Java\\bin").unwrap();
    let needle = WidePathBuf::from_str("\\Common Files\\Oracle\\Java\\").unwrap();
    assert!(wide_contains(value.as_slice(), needle.as_slice()));
}

#[test]
fn push_path_component() {
    let mut value = WidePathBuf::from_str("C:\\Java").unwrap();
    assert!(value.push_path_component_str("bin"));
    assert_eq!(value.as_slice(), utf16("C:\\Java\\bin"));
}

#[test]
fn from_str_encodes_surrogate_pairs() {
    let value = WideString::from_str("a\u{1F600}").unwrap();
    assert_eq!(value.as_slice(), &[0x61, 0xD83D, 0xDE00]);
    assert_eq!(value.len(), 3);
    assert!(value.equals_str("a\u{1F600}"));
    assert!(!value.equals_str("a"));
    assert!(!value.equals_str("a\u{1F600}b"));
}

#[test]
fn push_char_appends_one_or_two_units() {
    let mut value = WideString::new();
    assert!(value.is_empty());
    assert!(value.push_char('\\'));
    assert!(value.push_char('\u{10000}'));
    assert_eq!(value.as_slice(), &[92, 0xD800, 0xDC00]);
}

#[test]
fn push_slice_and_str_append_in_order() {
    let mut value = WideString::from_utf16(&utf16("C:")).unwrap();
    assert!(value.push_slice(&utf16("\\Java")));
    assert!(value.push_str("\\bin"));
    assert_eq!(value.as_slice(), utf16("C:\\Java\\bin"));
    assert!(value.equals_str("C:\\Java\\bin"));
}

#[test]
fn nul_terminated_view_has_one_trailing_nul() {
    let value = WideString::from_str("ab").unwrap();
    assert_eq!(value.as_nul_terminated().unwrap(), &[97, 98, 0]);
    assert!(WideString::new().as_nul_terminated().is_none());
}

#[test]
fn clear_empties_the_string() {
    let mut value = WideString::from_str("hello").unwrap();
    value.clear();
    assert!(value.is_empty());
    assert!(value.as_nul_terminated().is_none());
    assert!(value.push_str("x"));
    assert_eq!(value.as_slice(), utf16("x"));
}

#[test]
fn reserve_exact_refuses_the_largest_size() {
    let mut value = WideString::from_str("abc").unwrap();
    assert!(!value.reserve_exact(usize::MAX));
    assert!(value.reserve_exact(100));
    assert_eq!(value.as_slice(), utf16("abc"));
}

#[test]
fn try_clone_copies_the_contents() {
    let value = WideString::from_str("copy me").unwrap();
    let copy = value.try_clone().unwrap();
    assert_eq!(copy.as_slice(), value.as_slice());
}

#[test]
fn wide_contains_edge_cases() {
    let hay = utf16("abcabd");
    assert!(wide_contains(&hay, &[]));
    assert!(wide_contains(&hay, &utf16("abd")));
    assert!(!wide_contains(&hay, &utf16("abe")));
    assert!(!wide_contains(&utf16("ab"), &utf16("abc")));
    assert!(wide_contains(&hay, &hay));
}

#[test]
fn trim_keeps_inner_whitespace_and_unicode_spaces() {
    let value = utf16("\u{3000} a b \u{2028}\r\n");
    assert_eq!(trim_wide_whitespace(&value), utf16("a b").as_slice());
    assert_eq!(trim_wide_whitespace(&utf16(" \t ")), &[] as &[u16]);
    let once = trim_wide_whitespace(&value).to_vec();
    assert_eq!(trim_wide_whitespace(&once), once.as_slice());
    assert_eq!(trim_wide_whitespace(&[0xD800, 0x20]), &[0xD800]);
}

#[test]
fn dot_entries_are_recognised() {
    assert!(hmclauncher::wide::is_dot_or_dot_dot(&utf16(".")));
    assert!(hmclauncher::wide::is_dot_or_dot_dot(&utf16("..")));
    assert!(!hmclauncher::wide::is_dot_or_dot_dot(&utf16("...")));
    assert!(!hmclauncher::wide::is_dot_or_dot_dot(&utf16(".a")));
    assert!(!hmclauncher::wide::is_dot_or_dot_dot(&[]));
}

#[test]
fn separator_is_not_doubled() {
    let mut value = WidePathBuf::from_str("C:\\Java\\").unwrap();
    assert!(value.push_path_component_str("bin"));
    assert_eq!(value.as_slice(), utf16("C:\\Java\\bin"));
    let mut slash = WidePathBuf::from_str("C:/Java/").unwrap();
    assert!(slash.push_path_component(&utf16("bin")));
    assert_eq!(slash.as_slice(), utf16("C:/Java/bin"));
}

#[test]
fn separator_rules_on_empty_paths_and_components() {
    let mut empty = WidePathBuf::new();
    assert!(empty.push_path_separator());
    assert!(empty.is_empty());
    assert!(empty.push_path_component_str("bin"));
    assert_eq!(empty.as_slice(), utf16("bin"));
    let mut value = WidePathBuf::from_str("C:\\Java").unwrap();
    assert!(value.push_path_component_str(""));
    assert!(value.push_path_component(&[]));
    assert_eq!(value.as_slice(), utf16("C:\\Java"));
    assert!(value.push_path_separator());
    assert!(value.push_path_separator());
    assert_eq!(value.as_slice(), utf16("C:\\Java\\"));
}

#[test]
fn path_buffer_conversions() {
    let wide = WideString::from_str("D:\\x").unwrap();
    let path = WidePathBuf::from_wide_string(wide);
    let copy = path.try_clone().unwrap();
    assert_eq!(copy.as_slice(), utf16("D:\\x"));
    let back = copy.into_wide_string();
    assert!(back.equals_str("D:\\x"));
    assert_eq!(WidePathBuf::from_utf16(&utf16("E:")).unwrap().as_slice(), utf16("E:"));
}

#[test]
fn whitespace_units_match_unicode_white_space() {
    for unit in 0..=u16::MAX {
        let expected = char::from_u32(unit as u32).map(|c| c.is_whitespace()).unwrap_or(false);
        assert_eq!(trim_wide_whitespace(&[unit]).is_empty(), expected, "unit {unit:#x}");
    }
}
