use hmclauncher::java::JavaVersion;

fn utf16(text: &str) -> Vec<u16> {
    text.encode_utf16().collect()
}

#[test]
fn parse_java_version() {
    let version = JavaVersion::from_utf16(&utf16("17.0.15_9"));
    assert_eq!(version.major, 17);
    assert_eq!(version.minor, 0);
    assert_eq!(version.build, 15);
    assert_eq!(version.revision, 9);
}

#[test]
fn parse_legacy_java_version() {
    let version = JavaVersion::from_utf16(&utf16("1.8.0_321"));
    assert_eq!(version.major, 8);
    assert_eq!(version.minor, 0);
    assert_eq!(version.build, 321);
}

use hmclauncher::java::{jvm_command_line, JavaList, JavaOptions};
use hmclauncher::wide::WideString;

fn version(major: u16, minor: u16, build: u16, revision: u16) -> JavaVersion {
    JavaVersion { major, minor, build, revision }
}

fn wide(text: &str) -> WideString {
    WideString::from_str(text).unwrap()
}

#[test]
fn invalid_version_is_all_zero() {
    assert_eq!(JavaVersion::invalid(), version(0, 0, 0, 0));
    assert!(!JavaVersion::invalid().is_acceptable());
}

#[test]
fn file_version_words_split_into_parts() {
    let v = JavaVersion::from_file_version(0x0011_0000, 0x000F_0009);
    assert_eq!(v, version(17, 0, 15, 9));
    let w = JavaVersion::from_file_version(0xFFFF_0001, 0x0002_FFFF);
    assert_eq!(w, version(0xFFFF, 1, 2, 0xFFFF));
}

#[test]
fn parsing_saturates_and_stops_after_four_parts() {
    assert_eq!(JavaVersion::from_utf16(&utf16("99999.1")).major, 0xFFFF);
    assert_eq!(JavaVersion::from_utf16(&utf16("1.2.3.4.5")), version(2, 3, 4, 5));
    assert_eq!(JavaVersion::from_utf16(&utf16("2.3.4.5.6")), version(2, 3, 4, 5));
    assert_eq!(JavaVersion::from_utf16(&utf16("21.0.2.13.7")), version(21, 0, 2, 13));
    assert_eq!(JavaVersion::from_utf16(&utf16("jdk-17.0.1")), version(17, 0, 1, 0));
    assert_eq!(JavaVersion::from_utf16(&[]), version(0, 0, 0, 0));
}

#[test]
fn acceptable_from_major_seventeen() {
    assert!(!version(16, 9, 9, 9).is_acceptable());
    assert!(version(17, 0, 0, 0).is_acceptable());
    assert!(version(21, 0, 0, 0).is_acceptable());
}

#[test]
fn compare_orders_lexicographically() {
    assert_eq!(version(17, 0, 2, 0).compare(&version(17, 0, 10, 0)), std::cmp::Ordering::Less);
    assert_eq!(version(21, 0, 0, 0).compare(&version(17, 9, 9, 9)), std::cmp::Ordering::Greater);
    assert_eq!(version(17, 0, 1, 1).compare(&version(17, 0, 1, 1)), std::cmp::Ordering::Equal);
}

#[test]
fn display_shows_parts_or_unknown() {
    assert!(version(17, 0, 15, 9).to_wide_string().equals_str("17.0.15.9"));
    assert!(version(0, 1, 2, 3).to_wide_string().equals_str("Unknown"));
    assert!(version(65535, 10, 100, 0).to_wide_string().equals_str("65535.10.100.0"));
}

#[test]
fn try_add_rejects_missing_duplicate_and_old_runtimes() {
    let mut list = JavaList::new();
    assert!(!list.try_add(wide("C:\\a\\java.exe"), false, version(17, 0, 0, 0)));
    assert!(!list.try_add(wide("C:\\b\\java.exe"), true, version(11, 0, 0, 0)));
    assert!(list.try_add(wide("C:\\c\\java.exe"), true, version(17, 0, 0, 0)));
    assert!(!list.try_add(wide("C:\\c\\java.exe"), true, version(21, 0, 0, 0)));
    assert!(list.contains_executable(&utf16("C:\\c\\java.exe")));
    assert!(!list.contains_executable(&utf16("C:\\b\\java.exe")));
    assert_eq!(list.runtimes.as_slice().len(), 1);
}

#[test]
fn sort_by_version_is_ascending() {
    let mut list = JavaList::new();
    assert!(list.try_add(wide("a"), true, version(21, 0, 1, 0)));
    assert!(list.try_add(wide("b"), true, version(17, 0, 9, 0)));
    assert!(list.try_add(wide("c"), true, version(21, 0, 0, 5)));
    assert!(list.try_add(wide("d"), true, version(17, 0, 9, 0)));
    list.sort_by_version();
    let order: Vec<Vec<u16>> = list.runtimes.iter().map(|r| r.executable_path.as_slice().to_vec()).collect();
    assert_eq!(order, vec![utf16("b"), utf16("d"), utf16("c"), utf16("a")]);
}

#[test]
fn command_line_uses_default_or_given_options() {
    let exe = wide("C:\\jdk\\bin\\java.exe");
    let defaults = JavaOptions { workdir: wide("C:\\app"), jar_path: wide("HMCL.exe"), jvm_options: None };
    let line = jvm_command_line(&exe, &defaults).unwrap();
    assert!(line.equals_str(
        "\"C:\\jdk\\bin\\java.exe\" -Xmx1G -XX:MinHeapFreeRatio=5 -XX:MaxHeapFreeRatio=15 -jar \"HMCL.exe\""
    ));
    let custom = JavaOptions { workdir: wide("C:\\app"), jar_path: wide("HMCL.exe"), jvm_options: Some(wide("-Xmx2G")) };
    let line = jvm_command_line(&exe, &custom).unwrap();
    assert!(line.equals_str("\"C:\\jdk\\bin\\java.exe\" -Xmx2G -jar \"HMCL.exe\""));
}

#[test]
fn compare_flips_with_its_operands() {
    let a = version(17, 0, 9, 0);
    let b = version(17, 1, 0, 0);
    assert_eq!(a.compare(&b), std::cmp::Ordering::Less);
    assert_eq!(b.compare(&a), std::cmp::Ordering::Greater);
    assert_eq!(a.compare(&a), std::cmp::Ordering::Equal);
}
