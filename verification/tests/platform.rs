use hmclauncher::i18n::{I18n, LANGUAGE_ZH_CN};
use hmclauncher::platform as p;
use windows_sys::Win32::Storage::FileSystem as fs;
use windows_sys::Win32::System::SystemInformation as si;
use hmclauncher::platform::{
    env_var_step, is_regular_file_attributes, module_path_step, Arch, BufferStep, SelfPath,
};

fn utf16(text: &str) -> Vec<u16> {
    text.encode_utf16().collect()
}

#[test]
fn architecture_from_machine_values() {
    assert_eq!(Arch::from_native_machine(0xAA64), Arch::ARM64);
    assert_eq!(Arch::from_native_machine(0x8664), Arch::X86_64);
    assert_eq!(Arch::from_native_machine(0x014C), Arch::X86);
    assert_eq!(Arch::from_processor_architecture(12), Arch::ARM64);
    assert_eq!(Arch::from_processor_architecture(9), Arch::X86_64);
    assert_eq!(Arch::from_processor_architecture(0), Arch::X86);
}

#[test]
fn architecture_names() {
    assert_eq!(Arch::ARM64.bundled_jre_dir(), "jre-arm64");
    assert_eq!(Arch::X86_64.bundled_jre_dir(), "jre-x64");
    assert_eq!(Arch::X86.bundled_jre_dir(), "jre-x86");
    assert_eq!(Arch::ARM64.hmcl_java_dir(), "windows-arm64");
    assert_eq!(Arch::X86_64.hmcl_java_dir(), "windows-x86_64");
    assert_eq!(Arch::X86.hmcl_java_dir(), "windows-x86");
    assert_eq!(Arch::X86_64.display_name(), "x86-64");
    assert_eq!(Arch::X86.download_link(), "https://docs.hmcl.net/downloads/windows/x86.html");
    assert_eq!(Arch::ARM64.program_files_variable(), "ProgramW6432");
    assert_eq!(Arch::X86.program_files_variable(), "ProgramFiles");
}

#[test]
fn self_path_splits_at_last_separator() {
    let split = SelfPath::from_module_path(&utf16("C:\\Games\\HMCL/HMCL.exe")).unwrap();
    assert_eq!(split.workdir.as_slice(), utf16("C:\\Games\\HMCL"));
    assert_eq!(split.jar_path.as_slice(), utf16("HMCL.exe"));
    assert!(SelfPath::from_module_path(&utf16("HMCL.exe")).is_none());
    assert!(SelfPath::from_module_path(&utf16("C:\\Games\\")).is_none());
}

#[test]
fn module_path_buffer_grows_by_max_path() {
    assert!(matches!(module_path_step(260, 0), BufferStep::Fail));
    assert!(matches!(module_path_step(260, 100), BufferStep::Done(100)));
    assert!(matches!(module_path_step(260, 260), BufferStep::Grow(520)));
    assert!(matches!(module_path_step(usize::MAX, usize::MAX), BufferStep::Fail));
}

#[test]
fn env_var_buffer_steps() {
    assert!(matches!(env_var_step(260, 0, false), BufferStep::Fail));
    assert!(matches!(env_var_step(260, 0, true), BufferStep::Done(0)));
    assert!(matches!(env_var_step(260, 12, true), BufferStep::Done(12)));
    assert!(matches!(env_var_step(260, 900, true), BufferStep::Grow(900)));
    assert!(matches!(env_var_step(260, 260, true), BufferStep::Grow(261)));
    assert!(matches!(env_var_step(260, 40000, true), BufferStep::Fail));
}

#[test]
fn regular_file_attributes() {
    assert!(is_regular_file_attributes(0x20));
    assert!(is_regular_file_attributes(0x80));
    assert!(!is_regular_file_attributes(0xFFFF_FFFF));
    assert!(!is_regular_file_attributes(0x10));
    assert!(!is_regular_file_attributes(0x420));
}

#[test]
fn messages_follow_the_language() {
    let chinese = I18n::for_language(LANGUAGE_ZH_CN);
    assert_eq!(chinese.error_self_path, "获取程序路径失败。");
    let english = I18n::for_language(1033);
    assert_eq!(english.error_self_path, "Failed to get the exe path.");
    assert!(english.error_java_not_found.starts_with("HMCL requires Java 17"));
}

#[test]
fn win32_constants_match_the_system_headers() {
    assert_eq!(p::IMAGE_FILE_MACHINE_ARM64, si::IMAGE_FILE_MACHINE_ARM64);
    assert_eq!(p::IMAGE_FILE_MACHINE_AMD64, si::IMAGE_FILE_MACHINE_AMD64);
    assert_eq!(p::PROCESSOR_ARCHITECTURE_ARM64, si::PROCESSOR_ARCHITECTURE_ARM64);
    assert_eq!(p::PROCESSOR_ARCHITECTURE_AMD64, si::PROCESSOR_ARCHITECTURE_AMD64);
    assert_eq!(p::MAX_PATH, windows_sys::Win32::Foundation::MAX_PATH as usize);
    assert_eq!(p::INVALID_FILE_ATTRIBUTES, fs::INVALID_FILE_ATTRIBUTES);
    assert_eq!(p::FILE_ATTRIBUTE_DIRECTORY, fs::FILE_ATTRIBUTE_DIRECTORY);
    assert_eq!(p::FILE_ATTRIBUTE_REPARSE_POINT, fs::FILE_ATTRIBUTE_REPARSE_POINT);
}
