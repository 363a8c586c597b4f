use hmclauncher::java::{
    dir_entry_executable, dir_search_pattern, java_home_executable, registry_java_executable,
    search_java_in_path, search_java_in_program_files,
};
use hmclauncher::wide::WideString;

fn utf16(text: &str) -> Vec<u16> {
    text.encode_utf16().collect()
}

fn wide(text: &str) -> WideString {
    WideString::from_str(text).unwrap()
}

fn texts(items: &[WideString]) -> Vec<Vec<u16>> {
    items.iter().map(|w| w.as_slice().to_vec()).collect()
}

#[test]
fn path_entries_are_trimmed_and_oracle_stubs_skipped() {
    let path = utf16("C:\\a;  C:\\b\\ ;;C:\\Program Files\\Common Files\\Oracle\\Java\\javapath; ;D:\\c;");
    let found = search_java_in_path(&path, "java.exe");
    assert_eq!(
        texts(&found),
        vec![utf16("C:\\a\\java.exe"), utf16("C:\\b\\java.exe"), utf16("D:\\c\\java.exe")]
    );
}

#[test]
fn empty_path_contributes_nothing() {
    assert!(search_java_in_path(&[], "java.exe").is_empty());
    assert!(search_java_in_path(&utf16(";;; ;"), "java.exe").is_empty());
}

#[test]
fn program_files_vendor_directories_in_order() {
    let dirs = search_java_in_program_files(&wide("C:\\Program Files"));
    assert_eq!(
        texts(&dirs),
        vec![
            utf16("C:\\Program Files\\Java"),
            utf16("C:\\Program Files\\Microsoft"),
            utf16("C:\\Program Files\\BellSoft"),
            utf16("C:\\Program Files\\Zulu"),
            utf16("C:\\Program Files\\Eclipse Foundation"),
            utf16("C:\\Program Files\\AdoptOpenJDK"),
            utf16("C:\\Program Files\\Semeru"),
        ]
    );
}

#[test]
fn directory_entries_become_executables() {
    let base = wide("C:\\Program Files\\Java");
    assert!(dir_entry_executable(&base, &utf16("."), "java.exe").is_none());
    assert!(dir_entry_executable(&base, &utf16(".."), "java.exe").is_none());
    let exe = dir_entry_executable(&base, &utf16("jdk-17"), "javaw.exe").unwrap();
    assert!(exe.equals_str("C:\\Program Files\\Java\\jdk-17\\bin\\javaw.exe"));
    let pattern = dir_search_pattern(&base).unwrap();
    assert!(pattern.equals_str("C:\\Program Files\\Java\\*"));
}

#[test]
fn java_home_and_registry_values_become_executables() {
    let exe = java_home_executable(&wide("C:\\jdk\\"), "java.exe").unwrap();
    assert!(exe.equals_str("C:\\jdk\\bin\\java.exe"));
    let mut value = utf16("C:\\Program Files\\Java\\jdk-21");
    value.push(0);
    let from_registry = registry_java_executable(&value, "java.exe").unwrap();
    assert!(from_registry.equals_str("C:\\Program Files\\Java\\jdk-21\\bin\\java.exe"));
    let without_nul = registry_java_executable(&utf16("D:\\jre"), "javaw.exe").unwrap();
    assert!(without_nul.equals_str("D:\\jre\\bin\\javaw.exe"));
}
