use hmclauncher::java::JavaVersion;
use hmclauncher::launcher::{
    java_executable_name, plan_sources, verbose_output_enabled, LaunchAction, LaunchContext,
    LaunchEvent, Launcher, Source,
};
use hmclauncher::platform::Arch;
use hmclauncher::wide::WideString;

fn utf16(text: &str) -> Vec<u16> {
    text.encode_utf16().collect()
}

fn wide(text: &str) -> WideString {
    WideString::from_str(text).unwrap()
}

fn context(hmcl_java_home: Option<&str>) -> LaunchContext {
    LaunchContext {
        java_executable_name: "java.exe",
        arch: Arch::X86_64,
        workdir: wide("C:\\HMCL"),
        hmcl_java_home: hmcl_java_home.map(wide),
        java_home: Some(wide("C:\\jdk17")),
        app_data: None,
        path: Some(wide("C:\\bin;C:\\tools")),
        program_files: None,
    }
}

fn text(action: &LaunchAction) -> (&'static str, Vec<u16>) {
    match action {
        LaunchAction::CheckFile(w) => ("check", w.as_slice().to_vec()),
        LaunchAction::ReadVersion(w) => ("version", w.as_slice().to_vec()),
        LaunchAction::ListDirectory(w) => ("list", w.as_slice().to_vec()),
        LaunchAction::ReadRegistry(k) => ("registry", utf16(k)),
        LaunchAction::Launch(w) => ("launch", w.as_slice().to_vec()),
        LaunchAction::ShowSelfPathError => ("self-path", vec![]),
        LaunchAction::ShowInvalidJavaHome => ("invalid-home", vec![]),
        LaunchAction::OfferDownload => ("download", vec![]),
        LaunchAction::Exit(code) => ("exit", vec![*code as u16]),
    }
}

fn version(major: u16) -> JavaVersion {
    JavaVersion { major, minor: 0, build: 0, revision: 0 }
}

#[test]
fn verbose_output_unless_false() {
    assert!(verbose_output_enabled(&None));
    assert!(verbose_output_enabled(&Some(wide("true"))));
    assert!(verbose_output_enabled(&Some(wide("FALSE"))));
    assert!(!verbose_output_enabled(&Some(wide("false"))));
}

#[test]
fn executable_name_depends_on_console() {
    assert_eq!(java_executable_name(true), "java.exe");
    assert_eq!(java_executable_name(false), "javaw.exe");
}

#[test]
fn plan_lists_sources_in_search_order() {
    let mut ctx = context(None);
    ctx.app_data = Some(wide("C:\\Users\\me\\AppData\\Roaming"));
    ctx.program_files = Some(wide("C:\\Program Files"));
    let plan = plan_sources(&ctx);
    let kinds: Vec<(char, Vec<u16>)> = plan
        .iter()
        .map(|s| match s {
            Source::Directory(d) => ('d', d.as_slice().to_vec()),
            Source::Executable(e) => ('e', e.as_slice().to_vec()),
            Source::Registry(k) => ('r', utf16(k)),
        })
        .collect();
    assert_eq!(kinds.len(), 14);
    assert_eq!(kinds[0], ('d', utf16("C:\\HMCL\\.hmcl\\java\\windows-x86_64")));
    assert_eq!(kinds[1], ('e', utf16("C:\\jdk17\\bin\\java.exe")));
    assert_eq!(kinds[2], ('d', utf16("C:\\Users\\me\\AppData\\Roaming\\.hmcl\\java\\windows-x86_64")));
    assert_eq!(kinds[3], ('e', utf16("C:\\bin\\java.exe")));
    assert_eq!(kinds[4], ('e', utf16("C:\\tools\\java.exe")));
    assert_eq!(kinds[5], ('d', utf16("C:\\Program Files\\Java")));
    assert_eq!(kinds[11], ('d', utf16("C:\\Program Files\\Semeru")));
    assert_eq!(kinds[12], ('r', utf16("SOFTWARE\\JavaSoft\\JDK")));
    assert_eq!(kinds[13], ('r', utf16("SOFTWARE\\JavaSoft\\JRE")));
}

#[test]
fn hmcl_java_home_success() {
    let (mut launcher, action) = Launcher::start(context(Some("D:\\java")));
    assert_eq!(text(&action), ("check", utf16("D:\\java\\bin\\java.exe")));
    let action = launcher.step(LaunchEvent::FileChecked(true));
    assert_eq!(text(&action), ("launch", utf16("D:\\java\\bin\\java.exe")));
    let action = launcher.step(LaunchEvent::Launched(true));
    assert_eq!(text(&action), ("exit", vec![0]));
}

#[test]
fn hmcl_java_home_is_exclusive() {
    let (mut launcher, _) = Launcher::start(context(Some("D:\\java")));
    let action = launcher.step(LaunchEvent::FileChecked(true));
    assert_eq!(text(&action).0, "launch");
    let action = launcher.step(LaunchEvent::Launched(false));
    assert_eq!(text(&action).0, "invalid-home");
    let action = launcher.step(LaunchEvent::Acknowledged);
    assert_eq!(text(&action), ("exit", vec![1]));

    let (mut missing, _) = Launcher::start(context(Some("D:\\java")));
    let action = missing.step(LaunchEvent::FileChecked(false));
    assert_eq!(text(&action).0, "invalid-home");
    let action = missing.step(LaunchEvent::Acknowledged);
    assert_eq!(text(&action), ("exit", vec![1]));
}

#[test]
fn empty_hmcl_java_home_is_ignored() {
    let (_, action) = Launcher::start(context(Some("")));
    assert_eq!(text(&action), ("check", utf16("C:\\HMCL\\jre-x64\\bin\\java.exe")));
}

#[test]
fn bundled_runtime_wins_when_it_starts() {
    let (mut launcher, action) = Launcher::start(context(None));
    assert_eq!(text(&action), ("check", utf16("C:\\HMCL\\jre-x64\\bin\\java.exe")));
    let action = launcher.step(LaunchEvent::FileChecked(true));
    assert_eq!(text(&action), ("launch", utf16("C:\\HMCL\\jre-x64\\bin\\java.exe")));
    let action = launcher.step(LaunchEvent::Launched(true));
    assert_eq!(text(&action), ("exit", vec![0]));
}

#[test]
fn full_search_launches_newest_first_then_older() {
    let (mut launcher, _) = Launcher::start(context(None));
    // No bundled runtime.
    let action = launcher.step(LaunchEvent::FileChecked(false));
    assert_eq!(text(&action), ("list", utf16("C:\\HMCL\\.hmcl\\java\\windows-x86_64\\*")));
    let action = launcher.step(LaunchEvent::DirectoryListed(vec![utf16("."), utf16(".."), utf16("jdk-21")]));
    assert_eq!(text(&action), ("check", utf16("C:\\HMCL\\.hmcl\\java\\windows-x86_64\\jdk-21\\bin\\java.exe")));
    let action = launcher.step(LaunchEvent::FileChecked(true));
    assert_eq!(text(&action).0, "version");
    let action = launcher.step(LaunchEvent::VersionRead(version(21)));
    // JAVA_HOME.
    assert_eq!(text(&action), ("check", utf16("C:\\jdk17\\bin\\java.exe")));
    let action = launcher.step(LaunchEvent::FileChecked(true));
    let action2 = launcher.step(LaunchEvent::VersionRead(version(17)));
    assert_eq!(text(&action).0, "version");
    // PATH entries: the first one holds an old Java, the second none.
    assert_eq!(text(&action2), ("check", utf16("C:\\bin\\java.exe")));
    let action = launcher.step(LaunchEvent::FileChecked(true));
    assert_eq!(text(&action).0, "version");
    let action = launcher.step(LaunchEvent::VersionRead(version(8)));
    assert_eq!(text(&action), ("check", utf16("C:\\tools\\java.exe")));
    let action = launcher.step(LaunchEvent::FileChecked(false));
    assert_eq!(text(&action), ("registry", utf16("SOFTWARE\\JavaSoft\\JDK")));
    let mut home = utf16("C:\\jdk17");
    home.push(0);
    // The registry names JAVA_HOME again: it is not checked twice.
    let action = launcher.step(LaunchEvent::RegistryRead(vec![home]));
    assert_eq!(text(&action), ("registry", utf16("SOFTWARE\\JavaSoft\\JRE")));
    let action = launcher.step(LaunchEvent::RegistryRead(vec![]));
    assert_eq!(text(&action), ("launch", utf16("C:\\HMCL\\.hmcl\\java\\windows-x86_64\\jdk-21\\bin\\java.exe")));
    assert_eq!(launcher.found_runtimes().len(), 2);
    let action = launcher.step(LaunchEvent::Launched(false));
    assert_eq!(text(&action), ("launch", utf16("C:\\jdk17\\bin\\java.exe")));
    let action = launcher.step(LaunchEvent::Launched(false));
    assert_eq!(text(&action).0, "download");
    let action = launcher.step(LaunchEvent::Acknowledged);
    assert_eq!(text(&action), ("exit", vec![1]));
}

#[test]
fn nothing_found_offers_download() {
    let mut ctx = context(None);
    ctx.java_home = None;
    ctx.path = None;
    let (mut launcher, _) = Launcher::start(ctx);
    let action = launcher.step(LaunchEvent::FileChecked(false));
    assert_eq!(text(&action).0, "list");
    let action = launcher.step(LaunchEvent::DirectoryListed(vec![]));
    assert_eq!(text(&action).0, "registry");
    let action = launcher.step(LaunchEvent::RegistryRead(vec![]));
    assert_eq!(text(&action).0, "registry");
    let action = launcher.step(LaunchEvent::RegistryRead(vec![]));
    assert_eq!(text(&action).0, "download");
    assert_eq!(text(&launcher.step(LaunchEvent::Acknowledged)), ("exit", vec![1]));
}

#[test]
fn unexpected_event_stops_with_failure() {
    let (mut launcher, _) = Launcher::start(context(None));
    let action = launcher.step(LaunchEvent::Acknowledged);
    assert_eq!(text(&action), ("exit", vec![1]));
    let action = launcher.step(LaunchEvent::Launched(true));
    assert_eq!(text(&action), ("exit", vec![1]));
}

#[test]
fn unreadable_self_path_reports_and_exits_with_one() {
    let (mut launcher, action) = Launcher::begin(None);
    assert_eq!(text(&action).0, "self-path");
    let action = launcher.step(LaunchEvent::Acknowledged);
    assert_eq!(text(&action), ("exit", vec![1]));
    let (_, action) = Launcher::begin(Some(context(Some("D:\\java"))));
    assert_eq!(text(&action), ("check", utf16("D:\\java\\bin\\java.exe")));
}

#[test]
fn equal_versions_launch_the_later_found_first() {
    let mut ctx = context(None);
    ctx.path = None;
    let (mut launcher, _) = Launcher::start(ctx);
    let action = launcher.step(LaunchEvent::FileChecked(false));
    assert_eq!(text(&action).0, "list");
    let action = launcher.step(LaunchEvent::DirectoryListed(vec![utf16("a"), utf16("b")]));
    assert_eq!(text(&action), ("check", utf16("C:\\HMCL\\.hmcl\\java\\windows-x86_64\\a\\bin\\java.exe")));
    launcher.step(LaunchEvent::FileChecked(true));
    let action = launcher.step(LaunchEvent::VersionRead(version(17)));
    assert_eq!(text(&action), ("check", utf16("C:\\HMCL\\.hmcl\\java\\windows-x86_64\\b\\bin\\java.exe")));
    launcher.step(LaunchEvent::FileChecked(true));
    let action = launcher.step(LaunchEvent::VersionRead(version(17)));
    // JAVA_HOME holds the same version too.
    assert_eq!(text(&action), ("check", utf16("C:\\jdk17\\bin\\java.exe")));
    launcher.step(LaunchEvent::FileChecked(true));
    let action = launcher.step(LaunchEvent::VersionRead(version(17)));
    assert_eq!(text(&action).0, "registry");
    let action = launcher.step(LaunchEvent::RegistryRead(vec![]));
    assert_eq!(text(&action).0, "registry");
    let action = launcher.step(LaunchEvent::RegistryRead(vec![]));
    assert_eq!(text(&action), ("launch", utf16("C:\\jdk17\\bin\\java.exe")));
    let action = launcher.step(LaunchEvent::Launched(false));
    assert_eq!(text(&action), ("launch", utf16("C:\\HMCL\\.hmcl\\java\\windows-x86_64\\b\\bin\\java.exe")));
    let action = launcher.step(LaunchEvent::Launched(false));
    assert_eq!(text(&action), ("launch", utf16("C:\\HMCL\\.hmcl\\java\\windows-x86_64\\a\\bin\\java.exe")));
    let action = launcher.step(LaunchEvent::Launched(false));
    assert_eq!(text(&action).0, "download");
}
