use vstd::prelude::*;

use crate::java::{
    dir_entry_executable, dir_entry_executable_path, dir_search_pattern, has_executable,
    version_acceptable,
    registry_java_executable_path, encode_all, java_home_executable,
    java_home_executable_path, java_vendors, join_components, path_candidates, path_entries,
    path_with_components, registry_java_executable, runtime_version_le, runtimes_well_formed,
    search_java_in_path, search_java_in_program_files, stably_sorted_by_version, vendor_dirs, wide_views, JavaList,
    JavaRuntime, JavaVersion,
};
use crate::heap::sorted_by;
use crate::platform::{spec_bundled_jre_dir, spec_hmcl_java_dir, Arch};
use crate::wide::{utf16_encode, WideString};

verus! {

/// What the launcher learned about its environment before the search.
pub struct LaunchContext {
    /// `java.exe` with a console attached, else `javaw.exe`.
    pub java_executable_name: &'static str,
    pub arch: Arch,
    /// The directory that holds the launcher.
    pub workdir: WideString,
    /// The values of `HMCL_JAVA_HOME`, `JAVA_HOME`, `APPDATA`, `PATH` and the
    /// native Program Files variable, when set.
    pub hmcl_java_home: Option<WideString>,
    pub java_home: Option<WideString>,
    pub app_data: Option<WideString>,
    pub path: Option<WideString>,
    pub program_files: Option<WideString>,
}

/// The contents of an optional string.
pub open spec fn optional_view(value: Option<WideString>) -> Option<Seq<u16>> {
    match value {
        Some(w) => Some(w@),
        None => None,
    }
}

/// Whether an optional value is present and not empty.
pub open spec fn is_nonempty(value: Option<Seq<u16>>) -> bool {
    value matches Some(s) && s.len() > 0
}

/// Whether diagnostic output is verbose: it is, unless
/// `HMCL_LAUNCHER_VERBOSE_OUTPUT` is exactly `false`.
pub fn verbose_output_enabled(value: &Option<WideString>) -> (r: bool)
    ensures
        r == !(optional_view(*value) == Some(utf16_encode("false"@))),
{
    match value {
        Some(v) => !v.equals_str("false"),
        None => true,
    }
}

/// The Java executable to look for: `java.exe` when a console is attached,
/// so that output reaches it, else `javaw.exe`.
pub fn java_executable_name(console_attached: bool) -> (r: &'static str)
    ensures
        r@ == (if console_attached { "java.exe"@ } else { "javaw.exe"@ }),
{
    if console_attached {
        "java.exe"
    } else {
        "javaw.exe"
    }
}

/// `<base>\.hmcl\java\<architecture directory>`.
pub open spec fn hmcl_java_dir_path(base: Seq<u16>, arch: Arch) -> Option<Seq<u16>> {
    join_components(
        base,
        seq![utf16_encode(".hmcl"@), utf16_encode("java"@), utf16_encode(spec_hmcl_java_dir(arch))],
    )
}

/// `<workdir>\<bundled runtime directory>\bin\<executable name>`.
pub open spec fn bundled_jre_executable_path(workdir: Seq<u16>, arch: Arch, java_executable_name: Seq<char>) -> Option<Seq<u16>> {
    join_components(
        workdir,
        seq![utf16_encode(spec_bundled_jre_dir(arch)), utf16_encode("bin"@), utf16_encode(java_executable_name)],
    )
}

/// The launcher-managed runtime directory below `base`.
pub fn hmcl_java_dir(base: &WideString, arch: Arch) -> (r: Option<WideString>)
    ensures
        r is Some <==> hmcl_java_dir_path(base@, arch) is Some,
        r matches Some(w) ==> w@ == hmcl_java_dir_path(base@, arch)->0,
{
    let components = vec![".hmcl", "java", arch.hmcl_java_dir()];
    assert(encode_all(components@) =~= seq![
        utf16_encode(".hmcl"@),
        utf16_encode("java"@),
        utf16_encode(spec_hmcl_java_dir(arch)),
    ]);
    path_with_components(base.as_slice(), components.as_slice())
}

/// The Java executable of the runtime bundled next to the launcher.
pub fn bundled_jre_executable(workdir: &WideString, arch: Arch, java_executable_name: &str) -> (r: Option<WideString>)
    ensures
        r is Some <==> bundled_jre_executable_path(workdir@, arch, java_executable_name@) is Some,
        r matches Some(w) ==> w@ == bundled_jre_executable_path(workdir@, arch, java_executable_name@)->0,
{
    let components = vec![arch.bundled_jre_dir(), "bin", java_executable_name];
    assert(encode_all(components@) =~= seq![
        utf16_encode(spec_bundled_jre_dir(arch)),
        utf16_encode("bin"@),
        utf16_encode(java_executable_name@),
    ]);
    path_with_components(workdir.as_slice(), components.as_slice())
}

/// A place where the search looks for Java runtimes, as plain values.
pub ghost enum PlannedSource {
    Directory(Seq<u16>),
    Executable(Seq<u16>),
    Registry(Seq<char>),
}

/// A place where the search looks for Java runtimes: a directory whose
/// subdirectories may hold runtimes, one Java executable, or a registry key
/// below `HKEY_LOCAL_MACHINE` whose subkeys name Java homes.
pub enum Source {
    Directory(WideString),
    Executable(WideString),
    Registry(&'static str),
}

impl View for Source {
    type V = PlannedSource;

    open spec fn view(&self) -> PlannedSource {
        match self {
            Source::Directory(d) => PlannedSource::Directory(d@),
            Source::Executable(e) => PlannedSource::Executable(e@),
            Source::Registry(k) => PlannedSource::Registry(k@),
        }
    }
}

/// The sources as plain values.
pub open spec fn source_views(sources: Seq<Source>) -> Seq<PlannedSource> {
    sources.map_values(|s: Source| s@)
}

/// One directory source when the path could be built.
pub open spec fn optional_directory(dir: Option<Seq<u16>>) -> Seq<PlannedSource> {
    match dir {
        Some(d) => seq![PlannedSource::Directory(d)],
        None => Seq::empty(),
    }
}

/// One executable source when the path could be built.
pub open spec fn optional_executable(exe: Option<Seq<u16>>) -> Seq<PlannedSource> {
    match exe {
        Some(e) => seq![PlannedSource::Executable(e)],
        None => Seq::empty(),
    }
}

/// The sources searched after the bundled runtime, in order: the
/// launcher-managed runtimes next to the launcher, `JAVA_HOME`, the
/// launcher-managed runtimes in `APPDATA`, the directories on `PATH`, the
/// vendor directories in Program Files, and the JDK and JRE registry keys.
pub open spec fn collection_plan(ctx: &LaunchContext) -> Seq<PlannedSource> {
    let exe = ctx.java_executable_name@;
    let java_home = optional_view(ctx.java_home);
    let app_data = optional_view(ctx.app_data);
    let path = optional_view(ctx.path);
    let program_files = optional_view(ctx.program_files);
    optional_directory(hmcl_java_dir_path(ctx.workdir@, ctx.arch))
        + (if is_nonempty(java_home) {
            optional_executable(java_home_executable_path(java_home->0, exe))
        } else {
            Seq::empty()
        })
        + (if is_nonempty(app_data) {
            optional_directory(hmcl_java_dir_path(app_data->0, ctx.arch))
        } else {
            Seq::empty()
        })
        + (if path is Some {
            path_candidates(path_entries(path->0), exe).map_values(|e: Seq<u16>| PlannedSource::Executable(e))
        } else {
            Seq::empty()
        })
        + (if is_nonempty(program_files) {
            vendor_dirs(program_files->0, java_vendors()).map_values(|d: Seq<u16>| PlannedSource::Directory(d))
        } else {
            Seq::empty()
        })
        + seq![
            PlannedSource::Registry("SOFTWARE\\JavaSoft\\JDK"@),
            PlannedSource::Registry("SOFTWARE\\JavaSoft\\JRE"@),
        ]
}

/// Append one source.
fn push_source(sources: &mut Vec<Source>, source: Source)
    ensures
        source_views(final(sources)@) == source_views(old(sources)@).push(source@),
{
    sources.push(source);
    assert(source_views(sources@) =~= source_views(old(sources)@).push(source@));
}

/// The sources that a list of paths becomes.
pub open spec fn path_sources(paths: Seq<Seq<u16>>, directories: bool) -> Seq<PlannedSource> {
    if directories {
        paths.map_values(|d: Seq<u16>| PlannedSource::Directory(d))
    } else {
        paths.map_values(|e: Seq<u16>| PlannedSource::Executable(e))
    }
}

/// Append one directory source per path, or one executable source per path.
fn push_all(sources: &mut Vec<Source>, paths: Vec<WideString>, directories: bool)
    ensures
        source_views(final(sources)@) == source_views(old(sources)@) + path_sources(wide_views(paths@), directories),
{
    let ghost start = source_views(sources@);
    let ghost all = wide_views(paths@);
    let mut paths = paths;
    let ghost mut taken: int = 0;
    while paths.len() > 0
        invariant
            0 <= taken <= all.len(),
            wide_views(paths@) == all.skip(taken),
            source_views(sources@) == start + path_sources(all.take(taken), directories),
        decreases paths@.len(),
    {
        let ghost before = paths@;
        assert(wide_views(before).len() == before.len());
        assert(taken < all.len());
        let p = paths.remove(0);
        proof {
            assert(wide_views(before)[0] == before[0]@);
            assert(all.skip(taken)[0] == all[taken]);
            assert(p@ == all[taken]);
            assert(paths@ =~= before.subrange(1, before.len() as int));
            assert forall|k: int| 0 <= k < wide_views(paths@).len() implies wide_views(paths@)[k]
                == all.skip(taken + 1)[k] by {
                assert(wide_views(paths@)[k] == paths@[k]@);
                assert(paths@[k] == before[k + 1]);
                assert(wide_views(before)[k + 1] == before[k + 1]@);
                assert(all.skip(taken)[k + 1] == all.skip(taken + 1)[k]);
            }
            assert(wide_views(paths@) =~= all.skip(taken + 1));
            assert(path_sources(all.take(taken + 1), directories) =~= path_sources(all.take(taken), directories).push(
                if directories { PlannedSource::Directory(p@) } else { PlannedSource::Executable(p@) },
            ));
        }
        if directories {
            push_source(sources, Source::Directory(p));
        } else {
            push_source(sources, Source::Executable(p));
        }
        proof {
            taken = taken + 1;
        }
    }
    proof {
        assert(all.skip(taken).len() == 0);
        assert(all.take(taken) =~= all);
    }
}

/// Build the ordered list of sources to search.
#[verifier::rlimit(50)]
pub fn plan_sources(ctx: &LaunchContext) -> (r: Vec<Source>)
    ensures
        source_views(r@) == collection_plan(ctx),
{
    let exe = ctx.java_executable_name;
    let mut sources: Vec<Source> = Vec::new();
    let ghost s0 = optional_directory(hmcl_java_dir_path(ctx.workdir@, ctx.arch));
    if let Some(dir) = hmcl_java_dir(&ctx.workdir, ctx.arch) {
        push_source(&mut sources, Source::Directory(dir));
    }
    assert(source_views(sources@) =~= s0);
    let ghost java_home = optional_view(ctx.java_home);
    let ghost s1 = if is_nonempty(java_home) {
        optional_executable(java_home_executable_path(java_home->0, exe@))
    } else {
        Seq::empty()
    };
    if let Some(home) = &ctx.java_home {
        if !home.is_empty() {
            if let Some(e) = java_home_executable(home, exe) {
                push_source(&mut sources, Source::Executable(e));
            }
        }
    }
    assert(source_views(sources@) =~= s0 + s1);
    let ghost app_data = optional_view(ctx.app_data);
    let ghost s2 = if is_nonempty(app_data) {
        optional_directory(hmcl_java_dir_path(app_data->0, ctx.arch))
    } else {
        Seq::empty()
    };
    if let Some(app_data) = &ctx.app_data {
        if !app_data.is_empty() {
            if let Some(dir) = hmcl_java_dir(app_data, ctx.arch) {
                push_source(&mut sources, Source::Directory(dir));
            }
        }
    }
    assert(source_views(sources@) =~= s0 + s1 + s2);
    let ghost path = optional_view(ctx.path);
    let ghost s3 = if path is Some {
        path_candidates(path_entries(path->0), exe@).map_values(|e: Seq<u16>| PlannedSource::Executable(e))
    } else {
        Seq::empty()
    };
    if let Some(path) = &ctx.path {
        let candidates = search_java_in_path(path.as_slice(), exe);
        push_all(&mut sources, candidates, false);
    }
    assert(source_views(sources@) =~= s0 + s1 + s2 + s3);
    let ghost program_files = optional_view(ctx.program_files);
    let ghost s4 = if is_nonempty(program_files) {
        vendor_dirs(program_files->0, java_vendors()).map_values(|d: Seq<u16>| PlannedSource::Directory(d))
    } else {
        Seq::empty()
    };
    if let Some(program_files) = &ctx.program_files {
        if !program_files.is_empty() {
            let dirs = search_java_in_program_files(program_files);
            push_all(&mut sources, dirs, true);
        }
    }
    assert(source_views(sources@) =~= s0 + s1 + s2 + s3 + s4);
    push_source(&mut sources, Source::Registry("SOFTWARE\\JavaSoft\\JDK"));
    push_source(&mut sources, Source::Registry("SOFTWARE\\JavaSoft\\JRE"));
    assert(source_views(sources@) =~= collection_plan(ctx));
    sources
}

/// The executable paths of a list of runtimes.
pub open spec fn runtime_paths(runtimes: Seq<JavaRuntime>) -> Seq<Seq<u16>> {
    runtimes.map_values(|r: JavaRuntime| r.executable_path@)
}

/// The next piece of work of the search, as plain values.
pub ghost enum PlannedAction {
    CheckFile(Seq<u16>),
    ListDirectory(Seq<u16>),
    ReadRegistry(Seq<char>),
    LaunchNewest,
    OfferDownload,
}

/// The next piece of work, given the paths of the runtimes found, the
/// queued candidate executables and the sources not opened yet, together
/// with what stays queued: candidates already listed are skipped, a
/// directory whose listing pattern does not fit is skipped, and once
/// everything has been searched the newest runtime is launched, or the
/// download is offered when there is none.
pub open spec fn next_work(found: Seq<Seq<u16>>, candidates: Seq<Seq<u16>>, sources: Seq<PlannedSource>) -> (PlannedAction, Seq<Seq<u16>>, Seq<PlannedSource>)
    decreases sources.len(), candidates.len(),
{
    if candidates.len() > 0 {
        if found.contains(candidates[0]) {
            next_work(found, candidates.drop_first(), sources)
        } else {
            (PlannedAction::CheckFile(candidates[0]), candidates.drop_first(), sources)
        }
    } else if sources.len() > 0 {
        match sources[0] {
            PlannedSource::Directory(d) => if join_components(d, seq![utf16_encode("*"@)]) is Some {
                (PlannedAction::ListDirectory(d), candidates, sources.drop_first())
            } else {
                next_work(found, candidates, sources.drop_first())
            },
            PlannedSource::Executable(e) => next_work(found, seq![e], sources.drop_first()),
            PlannedSource::Registry(k) => (PlannedAction::ReadRegistry(k), candidates, sources.drop_first()),
        }
    } else if found.len() == 0 {
        (PlannedAction::OfferDownload, candidates, sources)
    } else {
        (PlannedAction::LaunchNewest, candidates, sources)
    }
}

/// The candidate executables that the entries of a directory contribute.
pub open spec fn dir_candidates(dir: Seq<u16>, names: Seq<Seq<u16>>, java_executable_name: Seq<char>) -> Seq<Seq<u16>>
    decreases names.len(),
{
    if names.len() == 0 {
        Seq::empty()
    } else {
        let prev = dir_candidates(dir, names.drop_last(), java_executable_name);
        match dir_entry_executable_path(dir, names.last(), java_executable_name) {
            Some(c) => prev.push(c),
            None => prev,
        }
    }
}

/// The candidate executables that registry `JavaHome` values contribute.
pub open spec fn registry_candidates(values: Seq<Seq<u16>>, java_executable_name: Seq<char>) -> Seq<Seq<u16>>
    decreases values.len(),
{
    if values.len() == 0 {
        Seq::empty()
    } else {
        let prev = registry_candidates(values.drop_last(), java_executable_name);
        match registry_java_executable_path(values.last(), java_executable_name) {
            Some(c) => prev.push(c),
            None => prev,
        }
    }
}

/// The contents of a list of code-unit vectors.
pub open spec fn vec_views(items: Seq<Vec<u16>>) -> Seq<Seq<u16>> {
    items.map_values(|v: Vec<u16>| v@)
}

/// What the launcher waits for, as plain values.
pub ghost enum Awaiting {
    HomeFile(Seq<u16>),
    HomeLaunch(Seq<u16>),
    BundledFile(Seq<u16>),
    BundledLaunch,
    CandidateFile(Seq<u16>),
    CandidateVersion(Seq<u16>),
    Listing(Seq<u16>),
    Registry,
    Launching(int),
    Ending(int),
    Finished,
}

/// Whether `action` and the launcher state `after` carry out the next piece
/// of work that `next_work` names for the given runtimes and queues.
pub open spec fn follows(
    found: Seq<Seq<u16>>,
    candidates: Seq<Seq<u16>>,
    sources: Seq<PlannedSource>,
    action: &LaunchAction,
    after: &Launcher,
) -> bool {
    let work = next_work(found, candidates, sources);
    &&& after.queued_candidates() == work.1
    &&& after.queued_sources() == work.2
    &&& match work.0 {
        PlannedAction::CheckFile(c) => checks_file(action, c) && after.awaiting()
            == Awaiting::CandidateFile(c),
        PlannedAction::ListDirectory(d) => (action matches LaunchAction::ListDirectory(p)
            && join_components(d, seq![utf16_encode("*"@)]) == Some(p@)) && after.awaiting()
            == Awaiting::Listing(d),
        PlannedAction::ReadRegistry(k) => (action matches LaunchAction::ReadRegistry(key) && key@
            == k) && after.awaiting() == Awaiting::Registry,
        PlannedAction::LaunchNewest => after.launching() == Some(after.runtimes().len() - 1)
            && launches(action, after.runtimes().last().executable_path@),
        PlannedAction::OfferDownload => action is OfferDownload && after.awaiting()
            == Awaiting::Ending(1) && after.runtimes().len() == 0,
    }
}

/// Having a runtime with a path is having the path among the runtime paths.
pub proof fn lemma_has_executable_paths(runtimes: Seq<JavaRuntime>, path: Seq<u16>)
    ensures
        has_executable(runtimes, path) == runtime_paths(runtimes).contains(path),
{
    if has_executable(runtimes, path) {
        let i = choose|i: int| 0 <= i < runtimes.len() && #[trigger] runtimes[i].executable_path@ == path;
        assert(runtime_paths(runtimes)[i] == path);
    }
    if runtime_paths(runtimes).contains(path) {
        let i = choose|i: int| 0 <= i < runtime_paths(runtimes).len() && runtime_paths(runtimes)[i] == path;
        assert(runtimes[i].executable_path@ == path);
    }
}

/// Whether an action reads the version of the executable `path`.
pub open spec fn reads_version(action: &LaunchAction, path: Seq<u16>) -> bool {
    action matches LaunchAction::ReadVersion(w) && w@ == path
}

/// Whether `r` is the runtime with version `v` at path `path`.
pub open spec fn is_runtime(r: JavaRuntime, v: JavaVersion, path: Seq<u16>) -> bool {
    r.version == v && r.executable_path@ == path
}

/// The runtimes of `after`, given that the step worked with `mid`: the same
/// runtimes, or, once launching begins, the same runtimes stably sorted by
/// version.
pub open spec fn runtimes_then(mid: Seq<JavaRuntime>, after: &Launcher) -> bool {
    if after.launching() is Some {
        stably_sorted_by_version(mid, after.runtimes())
    } else {
        after.runtimes() == mid
    }
}

/// What follows when version `v` was read for candidate `c`, given the
/// runtimes found so far, how many fit without growing the list, and what is
/// still queued: the candidate is added when it is not listed yet and its
/// version is acceptable (always, when the list has room; adding fails only
/// when the list cannot grow), and the search goes on.
pub open spec fn version_recorded(
    runtimes: Seq<JavaRuntime>,
    capacity: nat,
    candidates: Seq<Seq<u16>>,
    sources: Seq<PlannedSource>,
    c: Seq<u16>,
    v: JavaVersion,
    action: &LaunchAction,
    after: &Launcher,
) -> bool {
    let found = runtime_paths(runtimes);
    let eligible = !found.contains(c) && version_acceptable(v);
    let added = after.runtimes().len() > runtimes.len();
    &&& added ==> eligible
    &&& eligible && runtimes.len() < capacity ==> added
    &&& !added ==> runtimes_then(runtimes, after)
    &&& added ==> exists|r: JavaRuntime| #[trigger] is_runtime(r, v, c) && runtimes_then(runtimes.push(r), after)
    &&& follows(if added { found.push(c) } else { found }, candidates, sources, action, after)
}

/// The transition from `before` to `after` when `event` arrives, with the
/// resulting `action`. An event that does not answer the awaited action
/// stops the launcher with exit code 1.
pub open spec fn transition(before: &Launcher, event: LaunchEvent, action: &LaunchAction, after: &Launcher) -> bool {
    let found = runtime_paths(before.runtimes());
    match before.awaiting() {
        Awaiting::HomeFile(e) => match event {
            LaunchEvent::FileChecked(true) => launches(action, e) && after.awaiting() == Awaiting::HomeLaunch(e),
            LaunchEvent::FileChecked(false) => action is ShowInvalidJavaHome && after.awaiting()
                == Awaiting::Ending(1),
            _ => *action == LaunchAction::Exit(1),
        },
        Awaiting::HomeLaunch(e) => match event {
            LaunchEvent::Launched(true) => *action == LaunchAction::Exit(0),
            LaunchEvent::Launched(false) => action is ShowInvalidJavaHome && after.awaiting()
                == Awaiting::Ending(1),
            _ => *action == LaunchAction::Exit(1),
        },
        Awaiting::BundledFile(e) => match event {
            LaunchEvent::FileChecked(true) => launches(action, e) && after.awaiting() == Awaiting::BundledLaunch,
            LaunchEvent::FileChecked(false) => follows(found, before.queued_candidates(), before.queued_sources(), action, after),
            _ => *action == LaunchAction::Exit(1),
        },
        Awaiting::BundledLaunch => match event {
            LaunchEvent::Launched(true) => *action == LaunchAction::Exit(0),
            LaunchEvent::Launched(false) => follows(found, before.queued_candidates(), before.queued_sources(), action, after),
            _ => *action == LaunchAction::Exit(1),
        },
        Awaiting::CandidateFile(c) => match event {
            LaunchEvent::FileChecked(true) => reads_version(action, c) && after.awaiting()
                == Awaiting::CandidateVersion(c),
            LaunchEvent::FileChecked(false) => follows(found, before.queued_candidates(), before.queued_sources(), action, after),
            _ => *action == LaunchAction::Exit(1),
        },
        Awaiting::CandidateVersion(c) => match event {
            LaunchEvent::VersionRead(v) => version_recorded(
                before.runtimes(),
                before.runtimes_capacity(),
                before.queued_candidates(),
                before.queued_sources(),
                c,
                v,
                action,
                after,
            ),
            _ => *action == LaunchAction::Exit(1),
        },
        Awaiting::Listing(d) => match event {
            LaunchEvent::DirectoryListed(names) => follows(
                found,
                dir_candidates(d, vec_views(names@), before.executable_name()),
                before.queued_sources(),
                action,
                after,
            ),
            _ => *action == LaunchAction::Exit(1),
        },
        Awaiting::Registry => match event {
            LaunchEvent::RegistryRead(values) => follows(
                found,
                registry_candidates(vec_views(values@), before.executable_name()),
                before.queued_sources(),
                action,
                after,
            ),
            _ => *action == LaunchAction::Exit(1),
        },
        Awaiting::Launching(i) => match event {
            LaunchEvent::Launched(true) => *action == LaunchAction::Exit(0),
            LaunchEvent::Launched(false) => if i > 0 {
                launches(action, before.runtimes()[i - 1].executable_path@) && after.awaiting()
                    == Awaiting::Launching(i - 1)
            } else {
                action is OfferDownload && after.awaiting() == Awaiting::Ending(1)
            },
            _ => *action == LaunchAction::Exit(1),
        },
        Awaiting::Ending(code) => match event {
            LaunchEvent::Acknowledged => *action == LaunchAction::Exit(code as i32),
            _ => *action == LaunchAction::Exit(1),
        },
        Awaiting::Finished => *action == LaunchAction::Exit(1),
    }
}

/// When the search offers the download, nothing was found and nothing is
/// left to search.
pub proof fn lemma_offer_download_only_when_exhausted(
    found: Seq<Seq<u16>>,
    candidates: Seq<Seq<u16>>,
    sources: Seq<PlannedSource>,
)
    ensures
        next_work(found, candidates, sources).0 is OfferDownload ==> found.len() == 0
            && next_work(found, candidates, sources).1.len() == 0
            && next_work(found, candidates, sources).2.len() == 0,
        next_work(found, candidates, sources).0 is LaunchNewest ==> found.len() > 0
            && next_work(found, candidates, sources).1.len() == 0
            && next_work(found, candidates, sources).2.len() == 0,
    decreases sources.len(), candidates.len(),
{
    if candidates.len() > 0 {
        if found.contains(candidates[0]) {
            lemma_offer_download_only_when_exhausted(found, candidates.drop_first(), sources);
        }
    } else if sources.len() > 0 {
        match sources[0] {
            PlannedSource::Directory(d) => {
                if !(join_components(d, seq![utf16_encode("*"@)]) is Some) {
                    lemma_offer_download_only_when_exhausted(found, candidates, sources.drop_first());
                }
            },
            PlannedSource::Executable(e) => {
                lemma_offer_download_only_when_exhausted(found, seq![e], sources.drop_first());
            },
            PlannedSource::Registry(k) => {},
        }
    }
}

/// The download is offered only after every discovered runtime failed to
/// start, or when the whole search found none.
pub proof fn lemma_offer_download_after_failure(
    before: &Launcher,
    event: LaunchEvent,
    action: &LaunchAction,
    after: &Launcher,
)
    requires
        transition(before, event, action, after),
        action is OfferDownload,
    ensures
        (before.awaiting() == Awaiting::Launching(0) && event == LaunchEvent::Launched(false)) || (
        after.runtimes().len() == 0 && after.queued_candidates().len() == 0
            && after.queued_sources().len() == 0),
{
    let found = runtime_paths(before.runtimes());
    match before.awaiting() {
        Awaiting::CandidateVersion(c) => {
            if let LaunchEvent::VersionRead(v) = event {
                let added = after.runtimes().len() > before.runtimes().len();
                lemma_offer_download_only_when_exhausted(
                    if added { found.push(c) } else { found },
                    before.queued_candidates(),
                    before.queued_sources(),
                );
            }
        },
        Awaiting::Listing(d) => {
            if let LaunchEvent::DirectoryListed(names) = event {
                lemma_offer_download_only_when_exhausted(
                    found,
                    dir_candidates(d, vec_views(names@), before.executable_name()),
                    before.queued_sources(),
                );
            }
        },
        Awaiting::Registry => {
            if let LaunchEvent::RegistryRead(values) = event {
                lemma_offer_download_only_when_exhausted(
                    found,
                    registry_candidates(vec_views(values@), before.executable_name()),
                    before.queued_sources(),
                );
            }
        },
        _ => {
            lemma_offer_download_only_when_exhausted(found, before.queued_candidates(), before.queued_sources());
        },
    }
}

/// While runtimes are being launched, each fallback launch uses a runtime
/// whose version is at most that of the runtime tried before it.
pub proof fn lemma_fallback_launch_not_newer(launcher: &Launcher, i: int)
    requires
        launcher.well_formed(),
        launcher.launching() == Some(i),
        i > 0,
    ensures
        runtime_version_le(launcher.runtimes()[i - 1], launcher.runtimes()[i]),
{
    launcher.lemma_launching_sorted();
    let le = |a: JavaRuntime, b: JavaRuntime| runtime_version_le(a, b);
    assert(le(launcher.runtimes()[i - 1], launcher.runtimes()[i]));
}

/// The first runtime launched after the search is one of the newest found.
pub proof fn lemma_first_launch_newest(launcher: &Launcher, j: int)
    requires
        launcher.well_formed(),
        launcher.launching() == Some(launcher.runtimes().len() - 1),
        0 <= j < launcher.runtimes().len(),
    ensures
        runtime_version_le(launcher.runtimes()[j], launcher.runtimes().last()),
{
    launcher.lemma_launching_sorted();
    let le = |a: JavaRuntime, b: JavaRuntime| runtime_version_le(a, b);
    if j < launcher.runtimes().len() - 1 {
        assert(le(launcher.runtimes()[j], launcher.runtimes()[launcher.runtimes().len() - 1]));
    }
}

/// Every runtime that the search launches meets the minimum Java version:
/// while runtimes are being launched, the awaited one is acceptable.
pub proof fn lemma_launched_runtime_acceptable(launcher: &Launcher)
    requires
        launcher.well_formed(),
        launcher.launching() is Some,
    ensures
        version_acceptable(launcher.runtimes()[launcher.launching()->0].version),
{
    launcher.lemma_launching_sorted();
}

/// Whether `event` is the kind of outcome that the awaited action produces.
pub open spec fn answers(awaiting: Awaiting, event: LaunchEvent) -> bool {
    match awaiting {
        Awaiting::HomeFile(_) | Awaiting::BundledFile(_) | Awaiting::CandidateFile(_) => event is FileChecked,
        Awaiting::HomeLaunch(_) | Awaiting::BundledLaunch | Awaiting::Launching(_) => event is Launched,
        Awaiting::CandidateVersion(_) => event is VersionRead,
        Awaiting::Listing(_) => event is DirectoryListed,
        Awaiting::Registry => event is RegistryRead,
        Awaiting::Ending(_) => event is Acknowledged,
        Awaiting::Finished => false,
    }
}

/// The launcher gives up only after telling the user: when the host reports
/// what was asked for, exit code 1 comes only once a message has been
/// acknowledged, and exit code 0 only after a successful launch. In
/// particular a runtime that fails to start (the bundled one included) never
/// ends the search by itself.
pub proof fn lemma_exit_only_after_message(
    before: &Launcher,
    event: LaunchEvent,
    action: &LaunchAction,
    after: &Launcher,
)
    requires
        transition(before, event, action, after),
        answers(before.awaiting(), event),
    ensures
        action matches LaunchAction::Exit(code) ==> (code == 0 && event == LaunchEvent::Launched(true))
            || (before.awaiting() is Ending && event == LaunchEvent::Acknowledged),
        event == LaunchEvent::Launched(false) ==> !(action is Exit),
{
}

/// Whether `action` is the piece of work `work`.
pub open spec fn performs(action: &LaunchAction, work: PlannedAction) -> bool {
    match work {
        PlannedAction::CheckFile(c) => checks_file(action, c),
        PlannedAction::ListDirectory(d) => action matches LaunchAction::ListDirectory(p) && join_components(
            d,
            seq![utf16_encode("*"@)],
        ) == Some(p@),
        PlannedAction::ReadRegistry(k) => action matches LaunchAction::ReadRegistry(key) && key@ == k,
        PlannedAction::LaunchNewest => action is Launch,
        PlannedAction::OfferDownload => action is OfferDownload,
    }
}

/// A bundled runtime that fails to start is treated as one that is missing:
/// either way the launcher goes on with the next piece of the planned
/// search, the first queued candidate or source.
pub proof fn lemma_bundled_failure_continues_search(
    before: &Launcher,
    event: LaunchEvent,
    action: &LaunchAction,
    after: &Launcher,
)
    requires
        transition(before, event, action, after),
        (before.awaiting() is BundledLaunch && event == LaunchEvent::Launched(false)) || (
        before.awaiting() is BundledFile && event == LaunchEvent::FileChecked(false)),
    ensures
        performs(
            action,
            next_work(runtime_paths(before.runtimes()), before.queued_candidates(), before.queued_sources()).0,
        ),
        !(action is Exit),
{
}

/// A copy of a string; copying never fails.
fn clone_wide(value: &WideString) -> (r: WideString)
    ensures
        r@ == value@,
{
    match value.try_clone() {
        Some(w) => w,
        None => {
            proof {
                assert(false);
            }
            WideString::new()
        },
    }
}

/// What the launcher asks its host to do next.
pub enum LaunchAction {
    /// Report whether this path names a regular file.
    CheckFile(WideString),
    /// Report the version information of this Java executable.
    ReadVersion(WideString),
    /// List the entries that match this pattern.
    ListDirectory(WideString),
    /// Report the `JavaHome` value of every subkey of this key below
    /// `HKEY_LOCAL_MACHINE`.
    ReadRegistry(&'static str),
    /// Start the launcher's jar with this Java executable.
    Launch(WideString),
    /// Tell the user that the launcher's own path could not be read.
    ShowSelfPathError,
    /// Tell the user that `HMCL_JAVA_HOME` is invalid.
    ShowInvalidJavaHome,
    /// Tell the user that no usable Java was found and offer the download page.
    OfferDownload,
    /// Stop with this exit code.
    Exit(i32),
}

/// What the host reports back after performing an action.
pub enum LaunchEvent {
    FileChecked(bool),
    VersionRead(JavaVersion),
    /// The names of the directory's entries.
    DirectoryListed(Vec<Vec<u16>>),
    /// The `JavaHome` values, as returned (with or without a trailing NUL).
    RegistryRead(Vec<Vec<u16>>),
    Launched(bool),
    /// A message was shown to the user.
    Acknowledged,
}

/// Where the launcher stands.
enum Stage {
    /// Waiting to learn whether the `HMCL_JAVA_HOME` executable exists.
    HomeFile(WideString),
    /// Waiting for the launch with the `HMCL_JAVA_HOME` executable.
    HomeLaunch(WideString),
    /// Waiting to learn whether the bundled runtime exists.
    BundledFile(WideString),
    /// Waiting for the launch with the bundled runtime.
    BundledLaunch,
    /// Waiting to learn whether a candidate executable exists.
    CandidateFile(WideString),
    /// Waiting for a candidate's version.
    CandidateVersion(WideString),
    /// Waiting for the entries of this directory.
    Listing(WideString),
    /// Waiting for registry values.
    Registry,
    /// Waiting for the launch with runtime `i` of the sorted list.
    Launching(usize),
    /// Waiting for the user to dismiss a message, then exiting with this code.
    Ending(i32),
    /// Done.
    Finished,
}

/// The decisions of the launcher: which Java to try, in which order, and
/// what to tell the user. The host performs each action and reports the
/// outcome with `step`.
pub struct Launcher {
    stage: Stage,
    home_mode: bool,
    home_executable: Ghost<Seq<u16>>,
    java_executable_name: &'static str,
    sources: Vec<Source>,
    next_source: usize,
    candidates: Vec<WideString>,
    next_candidate: usize,
    java_runtimes: JavaList,
}

/// What the launcher is and asks for right after starting with `ctx`: with a
/// non-empty `HMCL_JAVA_HOME` it checks only that runtime's executable (or
/// reports the variable invalid when no path can be built from it);
/// otherwise it checks the bundled runtime first, or, when no path can be
/// built for it, goes straight on with the planned sources.
pub open spec fn started(ctx: &LaunchContext, launcher: &Launcher, action: &LaunchAction) -> bool {
    let exe = ctx.java_executable_name@;
    &&& launcher.well_formed()
    &&& launcher.in_home_mode() == is_nonempty(optional_view(ctx.hmcl_java_home))
    &&& launcher.executable_name() == exe
    &&& launcher.in_home_mode() ==> match java_home_executable_path(optional_view(ctx.hmcl_java_home)->0, exe) {
        Some(e) => checks_file(action, e) && launcher.home_executable() == e && launcher.awaiting()
            == Awaiting::HomeFile(e),
        None => action is ShowInvalidJavaHome && launcher.awaiting() == Awaiting::Ending(1),
    }
    &&& !launcher.in_home_mode() ==> launcher.planned_sources() == collection_plan(ctx)
    &&& !launcher.in_home_mode() ==> match bundled_jre_executable_path(ctx.workdir@, ctx.arch, exe) {
        Some(e) => checks_file(action, e) && launcher.awaiting() == Awaiting::BundledFile(e)
            && launcher.runtimes().len() == 0 && launcher.queued_candidates().len() == 0
            && launcher.queued_sources() == collection_plan(ctx),
        None => follows(Seq::empty(), Seq::empty(), collection_plan(ctx), action, launcher),
    }
}

/// Whether an action launches the executable `path`.
pub open spec fn launches(action: &LaunchAction, path: Seq<u16>) -> bool {
    action matches LaunchAction::Launch(w) && w@ == path
}

/// Whether an action checks the file `path`.
pub open spec fn checks_file(action: &LaunchAction, path: Seq<u16>) -> bool {
    action matches LaunchAction::CheckFile(w) && w@ == path
}

impl Launcher {
    /// The runtimes found so far.
    pub closed spec fn runtimes(&self) -> Seq<JavaRuntime> {
        self.java_runtimes.runtimes@
    }

    /// How many runtimes fit before the list has to grow.
    pub closed spec fn runtimes_capacity(&self) -> nat {
        self.java_runtimes.runtimes.capacity()
    }

    /// The index of the runtime whose launch is awaited, if any.
    pub closed spec fn launching(&self) -> Option<int> {
        match self.stage {
            Stage::Launching(i) => Some(i as int),
            _ => None,
        }
    }

    /// Whether `HMCL_JAVA_HOME` decides the outcome alone.
    pub closed spec fn in_home_mode(&self) -> bool {
        self.home_mode
    }

    /// The `HMCL_JAVA_HOME` executable in home mode.
    pub closed spec fn home_executable(&self) -> Seq<u16> {
        self.home_executable@
    }

    /// Whether the launcher has stopped.
    pub closed spec fn is_finished(&self) -> bool {
        self.stage is Finished
    }

    /// What the launcher waits for.
    pub closed spec fn awaiting(&self) -> Awaiting {
        match self.stage {
            Stage::HomeFile(e) => Awaiting::HomeFile(e@),
            Stage::HomeLaunch(e) => Awaiting::HomeLaunch(e@),
            Stage::BundledFile(e) => Awaiting::BundledFile(e@),
            Stage::BundledLaunch => Awaiting::BundledLaunch,
            Stage::CandidateFile(c) => Awaiting::CandidateFile(c@),
            Stage::CandidateVersion(c) => Awaiting::CandidateVersion(c@),
            Stage::Listing(d) => Awaiting::Listing(d@),
            Stage::Registry => Awaiting::Registry,
            Stage::Launching(i) => Awaiting::Launching(i as int),
            Stage::Ending(code) => Awaiting::Ending(code as int),
            Stage::Finished => Awaiting::Finished,
        }
    }

    /// The candidate executables still queued.
    pub closed spec fn queued_candidates(&self) -> Seq<Seq<u16>> {
        wide_views(self.candidates@).skip(self.next_candidate as int)
    }

    /// The sources not opened yet.
    pub closed spec fn queued_sources(&self) -> Seq<PlannedSource> {
        source_views(self.sources@).skip(self.next_source as int)
    }

    /// The name of the Java executable searched for.
    pub closed spec fn executable_name(&self) -> Seq<char> {
        self.java_executable_name@
    }

    /// The stage is consistent with the rest of the state.
    spec fn stage_ok(&self) -> bool {
        match self.stage {
            Stage::Launching(i) => i < self.runtimes().len() && sorted_by(
                self.runtimes(),
                |a: JavaRuntime, b: JavaRuntime| runtime_version_le(a, b),
            ),
            Stage::Ending(code) => code == 1,
            _ => true,
        }
    }

    /// In home mode only the `HMCL_JAVA_HOME` executable is ever involved.
    spec fn home_ok(&self) -> bool {
        self.home_mode ==> match self.stage {
            Stage::HomeFile(e) => e@ == self.home_executable@,
            Stage::HomeLaunch(e) => e@ == self.home_executable@,
            Stage::Ending(code) => code == 1,
            Stage::Finished => true,
            _ => false,
        }
    }

    /// The launcher's state is consistent.
    pub closed spec fn well_formed(&self) -> bool {
        &&& runtimes_well_formed(self.runtimes())
        &&& self.java_runtimes.runtimes.well_formed()
        &&& self.next_source <= self.sources@.len()
        &&& self.next_candidate <= self.candidates@.len()
        &&& self.stage_ok()
        &&& self.home_ok()
    }

    /// Every runtime a consistent launcher found is acceptable, and no
    /// executable is listed twice.
    pub proof fn lemma_found_runtimes_well_formed(&self)
        requires
            self.well_formed(),
        ensures
            runtimes_well_formed(self.runtimes()),
    {
    }

    /// While runtimes are being launched they are sorted by version and the
    /// awaited one is among them.
    pub proof fn lemma_launching_sorted(&self)
        requires
            self.well_formed(),
            self.launching() is Some,
        ensures
            0 <= self.launching()->0 < self.runtimes().len(),
            sorted_by(self.runtimes(), |a: JavaRuntime, b: JavaRuntime| runtime_version_le(a, b)),
    {
    }

    /// The runtimes found so far.
    pub fn found_runtimes(&self) -> (r: &[JavaRuntime])
        ensures
            r@ == self.runtimes(),
    {
        self.java_runtimes.runtimes.as_slice()
    }

    /// The sources planned for the search.
    pub closed spec fn planned_sources(&self) -> Seq<PlannedSource> {
        source_views(self.sources@)
    }

    /// Begin: with a non-empty `HMCL_JAVA_HOME`, only its runtime is
    /// considered; otherwise the bundled runtime comes first, then the
    /// planned sources.
    pub fn start(ctx: LaunchContext) -> (r: (Launcher, LaunchAction))
        ensures
            started(&ctx, &r.0, &r.1),
    {
        let exe = ctx.java_executable_name;
        let home_mode = match &ctx.hmcl_java_home {
            Some(home) => !home.is_empty(),
            None => false,
        };
        if home_mode {
            let home_path = match &ctx.hmcl_java_home {
                Some(home) => java_home_executable(home, exe),
                None => None,
            };
            match home_path {
                Some(e) => {
                    let request = clone_wide(&e);
                    let ghost home_exe = e@;
                    let launcher = Launcher {
                        stage: Stage::HomeFile(e),
                        home_mode: true,
                        home_executable: Ghost(home_exe),
                        java_executable_name: exe,
                        sources: Vec::new(),
                        next_source: 0,
                        candidates: Vec::new(),
                        next_candidate: 0,
                        java_runtimes: JavaList::new(),
                    };
                    return (launcher, LaunchAction::CheckFile(request));
                },
                None => {
                    let launcher = Launcher {
                        stage: Stage::Ending(1),
                        home_mode: true,
                        home_executable: Ghost(Seq::empty()),
                        java_executable_name: exe,
                        sources: Vec::new(),
                        next_source: 0,
                        candidates: Vec::new(),
                        next_candidate: 0,
                        java_runtimes: JavaList::new(),
                    };
                    return (launcher, LaunchAction::ShowInvalidJavaHome);
                },
            }
        }
        let sources = plan_sources(&ctx);
        let bundled = bundled_jre_executable(&ctx.workdir, ctx.arch, exe);
        let mut launcher = Launcher {
            stage: Stage::Finished,
            home_mode: false,
            home_executable: Ghost(Seq::empty()),
            java_executable_name: exe,
            sources,
            next_source: 0,
            candidates: Vec::new(),
            next_candidate: 0,
            java_runtimes: JavaList::new(),
        };
        assert(launcher.queued_sources() =~= collection_plan(&ctx));
        assert(launcher.queued_candidates() =~= Seq::<Seq<u16>>::empty());
        assert(runtime_paths(launcher.runtimes()) =~= Seq::<Seq<u16>>::empty());
        match bundled {
            Some(e) => {
                let request = clone_wide(&e);
                launcher.stage = Stage::BundledFile(e);
                (launcher, LaunchAction::CheckFile(request))
            },
            None => {
                let action = launcher.advance();
                (launcher, action)
            },
        }
    }

    /// Begin with the context built from the launcher's own path, or, when
    /// that path could not be read, report the failure and stop with exit
    /// code 1 once the user has seen it.
    pub fn begin(ctx: Option<LaunchContext>) -> (r: (Launcher, LaunchAction))
        ensures
            match ctx {
                Some(c) => started(&c, &r.0, &r.1),
                None => r.0.well_formed() && !r.0.in_home_mode() && r.1 is ShowSelfPathError
                    && r.0.awaiting() == Awaiting::Ending(1) && r.0.runtimes().len() == 0,
            },
    {
        match ctx {
            Some(c) => Self::start(c),
            None => {
                let launcher = Launcher {
                    stage: Stage::Ending(1),
                    home_mode: false,
                    home_executable: Ghost(Seq::empty()),
                    // Nothing is searched, so the executable name is never used.
                    java_executable_name: "javaw.exe",
                    sources: Vec::new(),
                    next_source: 0,
                    candidates: Vec::new(),
                    next_candidate: 0,
                    java_runtimes: JavaList::new(),
                };
                (launcher, LaunchAction::ShowSelfPathError)
            },
        }
    }

    /// Report the outcome of the last action and get the next one.
    pub fn step(&mut self, event: LaunchEvent) -> (action: LaunchAction)
        requires
            old(self).well_formed(),
        ensures
            final(self).well_formed(),
            final(self).in_home_mode() == old(self).in_home_mode(),
            final(self).home_executable() == old(self).home_executable(),
            final(self).planned_sources() == old(self).planned_sources(),
            action is Exit <==> final(self).is_finished(),
            action matches LaunchAction::Exit(code) ==> code == 0 || code == 1,
            old(self).launching() is None && !(old(self).awaiting() is CandidateVersion) ==> runtimes_then(
                old(self).runtimes(),
                final(self),
            ),
            action == LaunchAction::Exit(0) ==> event == LaunchEvent::Launched(true),
            old(self).in_home_mode() ==> match action {
                LaunchAction::Launch(p) => p@ == old(self).home_executable(),
                LaunchAction::Exit(code) => code == 0 || code == 1,
                LaunchAction::ShowInvalidJavaHome => true,
                _ => false,
            },
            old(self).launching() matches Some(i) ==> {
                &&& final(self).runtimes() == old(self).runtimes()
                &&& event == LaunchEvent::Launched(true) ==> action == LaunchAction::Exit(0)
                &&& event == LaunchEvent::Launched(false) && i > 0 ==> launches(
                    &action,
                    old(self).runtimes()[i - 1].executable_path@,
                ) && final(self).launching() == Some(i - 1)
                &&& event == LaunchEvent::Launched(false) && i == 0 ==> action is OfferDownload
            },
            old(self).launching() is None ==> (final(self).launching() matches Some(j) ==> j
                == final(self).runtimes().len() - 1 && launches(
                &action,
                final(self).runtimes()[j].executable_path@,
            )),
            final(self).launching() is Some ==> sorted_by(
                final(self).runtimes(),
                |a: JavaRuntime, b: JavaRuntime| runtime_version_le(a, b),
            ),
            transition(old(self), event, &action, final(self)),
    {
        let mut stage = Stage::Finished;
        core::mem::swap(&mut self.stage, &mut stage);
        match stage {
            Stage::HomeFile(e) => match event {
                LaunchEvent::FileChecked(true) => {
                    let request = clone_wide(&e);
                    self.stage = Stage::HomeLaunch(e);
                    LaunchAction::Launch(request)
                },
                LaunchEvent::FileChecked(false) => {
                    self.stage = Stage::Ending(1);
                    LaunchAction::ShowInvalidJavaHome
                },
                _ => LaunchAction::Exit(1),
            },
            Stage::HomeLaunch(e) => match event {
                LaunchEvent::Launched(true) => LaunchAction::Exit(0),
                LaunchEvent::Launched(false) => {
                    self.stage = Stage::Ending(1);
                    LaunchAction::ShowInvalidJavaHome
                },
                _ => LaunchAction::Exit(1),
            },
            Stage::BundledFile(e) => match event {
                LaunchEvent::FileChecked(true) => {
                    self.stage = Stage::BundledLaunch;
                    LaunchAction::Launch(e)
                },
                LaunchEvent::FileChecked(false) => self.advance(),
                _ => LaunchAction::Exit(1),
            },
            Stage::BundledLaunch => match event {
                LaunchEvent::Launched(true) => LaunchAction::Exit(0),
                LaunchEvent::Launched(false) => self.advance(),
                _ => LaunchAction::Exit(1),
            },
            Stage::CandidateFile(c) => match event {
                LaunchEvent::FileChecked(true) => {
                    let request = clone_wide(&c);
                    self.stage = Stage::CandidateVersion(c);
                    LaunchAction::ReadVersion(request)
                },
                LaunchEvent::FileChecked(false) => self.advance(),
                _ => LaunchAction::Exit(1),
            },
            Stage::CandidateVersion(c) => match event {
                LaunchEvent::VersionRead(version) => self.record_version(c, version),
                _ => LaunchAction::Exit(1),
            },
            Stage::Listing(dir) => match event {
                LaunchEvent::DirectoryListed(names) => {
                    let ghost all = vec_views(names@);
                    let exe = self.java_executable_name;
                    let mut candidates: Vec<WideString> = Vec::new();
                    let mut i: usize = 0;
                    while i < names.len()
                        invariant
                            i <= names@.len(),
                            all == vec_views(names@),
                            wide_views(candidates@) == dir_candidates(dir@, all.take(i as int), exe@),
                        decreases names@.len() - i,
                    {
                        proof {
                            assert(all.take(i + 1).drop_last() =~= all.take(i as int));
                            assert(all.take(i + 1).last() == names@[i as int]@);
                        }
                        let ghost prev = wide_views(candidates@);
                        if let Some(c) = dir_entry_executable(&dir, names[i].as_slice(), exe) {
                            candidates.push(c);
                            assert(wide_views(candidates@) =~= prev.push(c@));
                        }
                        i = i + 1;
                    }
                    assert(all.take(i as int) =~= all);
                    self.candidates = candidates;
                    self.next_candidate = 0;
                    assert(self.queued_candidates() =~= wide_views(self.candidates@));
                    self.advance()
                },
                _ => LaunchAction::Exit(1),
            },
            Stage::Registry => match event {
                LaunchEvent::RegistryRead(values) => {
                    let ghost all = vec_views(values@);
                    let exe = self.java_executable_name;
                    let mut candidates: Vec<WideString> = Vec::new();
                    let mut i: usize = 0;
                    while i < values.len()
                        invariant
                            i <= values@.len(),
                            all == vec_views(values@),
                            wide_views(candidates@) == registry_candidates(all.take(i as int), exe@),
                        decreases values@.len() - i,
                    {
                        proof {
                            assert(all.take(i + 1).drop_last() =~= all.take(i as int));
                            assert(all.take(i + 1).last() == values@[i as int]@);
                        }
                        let ghost prev = wide_views(candidates@);
                        if let Some(c) = registry_java_executable(values[i].as_slice(), exe) {
                            candidates.push(c);
                            assert(wide_views(candidates@) =~= prev.push(c@));
                        }
                        i = i + 1;
                    }
                    assert(all.take(i as int) =~= all);
                    self.candidates = candidates;
                    self.next_candidate = 0;
                    assert(self.queued_candidates() =~= wide_views(self.candidates@));
                    self.advance()
                },
                _ => LaunchAction::Exit(1),
            },
            Stage::Launching(i) => match event {
                LaunchEvent::Launched(true) => LaunchAction::Exit(0),
                LaunchEvent::Launched(false) => {
                    if i == 0 {
                        self.stage = Stage::Ending(1);
                        LaunchAction::OfferDownload
                    } else {
                        let found = self.java_runtimes.runtimes.as_slice();
                        let next = clone_wide(&found[i - 1].executable_path);
                        self.stage = Stage::Launching(i - 1);
                        LaunchAction::Launch(next)
                    }
                },
                _ => LaunchAction::Exit(1),
            },
            Stage::Ending(code) => match event {
                LaunchEvent::Acknowledged => LaunchAction::Exit(code),
                _ => LaunchAction::Exit(1),
            },
            Stage::Finished => LaunchAction::Exit(1),
        }
    }

    /// Record the version read for candidate `c`, adding the runtime when
    /// it is eligible, then go on with the search.
    fn record_version(&mut self, c: WideString, version: JavaVersion) -> (action: LaunchAction)
        requires
            old(self).well_formed(),
            !old(self).home_mode,
        ensures
            final(self).well_formed(),
            !final(self).home_mode,
            final(self).home_executable@ == old(self).home_executable@,
            final(self).sources@ == old(self).sources@,
            action is Exit <==> final(self).is_finished(),
            !(action is Exit),
            final(self).launching() matches Some(j) ==> j == final(self).runtimes().len() - 1 && launches(
                &action,
                final(self).runtimes()[j].executable_path@,
            ),
            final(self).launching() is Some ==> sorted_by(
                final(self).runtimes(),
                |a: JavaRuntime, b: JavaRuntime| runtime_version_le(a, b),
            ),
            version_recorded(
                old(self).runtimes(),
                old(self).runtimes_capacity(),
                old(self).queued_candidates(),
                old(self).queued_sources(),
                c@,
                version,
                &action,
                final(self),
            ),
    {
        let ghost path = c@;
        let ghost before = self.runtimes();
        let ghost runtime = JavaRuntime { version, executable_path: c };
        proof {
            lemma_has_executable_paths(before, path);
        }
        let added = self.java_runtimes.try_add(c, true, version);
        proof {
            if added {
                assert(self.runtimes() == before.push(runtime));
                assert(runtime_paths(self.runtimes()) =~= runtime_paths(before).push(path));
            }
        }
        let ghost middle = self.runtimes();
        let action = self.advance();
        proof {
            vstd::seq_lib::to_multiset_len(middle);
            vstd::seq_lib::to_multiset_len(self.runtimes());
            assert(added == (self.runtimes().len() > before.len()));
            if added {
                assert(is_runtime(runtime, version, path));
            } else {
                assert(runtime_paths(middle) == runtime_paths(before));
            }
        }
        action
    }

    /// Take the next step of the search once `HMCL_JAVA_HOME` and the
    /// bundled runtime are out of the way: check the next candidate that is
    /// not listed yet, open the next source, or, when everything has been
    /// searched, sort the runtimes and launch the newest.
    fn advance(&mut self) -> (action: LaunchAction)
        requires
            runtimes_well_formed(old(self).runtimes()),
            old(self).java_runtimes.runtimes.well_formed(),
            old(self).next_source <= old(self).sources@.len(),
            old(self).next_candidate <= old(self).candidates@.len(),
            !old(self).home_mode,
        ensures
            final(self).well_formed(),
            !final(self).home_mode,
            final(self).home_executable@ == old(self).home_executable@,
            final(self).sources@ == old(self).sources@,
            final(self).java_executable_name == old(self).java_executable_name,
            final(self).runtimes().to_multiset() == old(self).runtimes().to_multiset(),
            final(self).runtimes_capacity() == old(self).runtimes_capacity(),
            !(action is Launch) ==> final(self).runtimes() == old(self).runtimes(),
            runtimes_then(old(self).runtimes(), final(self)),
            final(self).launching() matches Some(j) ==> j == final(self).runtimes().len() - 1 && launches(
                &action,
                final(self).runtimes()[j].executable_path@,
            ),
            follows(
                runtime_paths(old(self).runtimes()),
                old(self).queued_candidates(),
                old(self).queued_sources(),
                &action,
                final(self),
            ),
    {
        broadcast use vstd::seq_lib::group_to_multiset_ensures;

        let ghost found = runtime_paths(self.runtimes());
        let ghost work = next_work(found, self.queued_candidates(), self.queued_sources());
        loop
            invariant
                runtimes_well_formed(self.runtimes()),
                self.java_runtimes.runtimes.well_formed(),
                self.java_runtimes.runtimes.capacity() == old(self).java_runtimes.runtimes.capacity(),
                self.next_source <= self.sources@.len(),
                self.next_candidate <= self.candidates@.len(),
                !self.home_mode,
                self.home_executable@ == old(self).home_executable@,
                self.runtimes() == old(self).runtimes(),
                self.sources@ == old(self).sources@,
                self.java_executable_name == old(self).java_executable_name,
                found == runtime_paths(old(self).runtimes()),
                work == next_work(found, old(self).queued_candidates(), old(self).queued_sources()),
                next_work(found, self.queued_candidates(), self.queued_sources()) == work,
            decreases self.sources@.len() - self.next_source, self.candidates@.len() - self.next_candidate,
        {
            let ghost queued = self.queued_candidates();
            let ghost pending = self.queued_sources();
            if self.next_candidate < self.candidates.len() {
                let i = self.next_candidate;
                self.next_candidate = i + 1;
                proof {
                    assert(queued[0] == self.candidates@[i as int]@);
                    assert(self.queued_candidates() =~= queued.drop_first());
                    lemma_has_executable_paths(self.runtimes(), queued[0]);
                }
                if !self.java_runtimes.contains_executable(self.candidates[i].as_slice()) {
                    let candidate = clone_wide(&self.candidates[i]);
                    let request = clone_wide(&candidate);
                    self.stage = Stage::CandidateFile(candidate);
                    return LaunchAction::CheckFile(request);
                }
            } else if self.next_source < self.sources.len() {
                let k = self.next_source;
                self.next_source = k + 1;
                proof {
                    assert(queued.len() == 0);
                    assert(pending[0] == self.sources@[k as int]@);
                    assert(self.queued_sources() =~= pending.drop_first());
                }
                match &self.sources[k] {
                    Source::Directory(dir) => {
                        if let Some(pattern) = dir_search_pattern(dir) {
                            let dir = clone_wide(dir);
                            self.stage = Stage::Listing(dir);
                            return LaunchAction::ListDirectory(pattern);
                        }
                    },
                    Source::Executable(exe) => {
                        let exe = clone_wide(exe);
                        self.candidates = vec![exe];
                        self.next_candidate = 0;
                        proof {
                            assert(self.queued_candidates() =~= seq![exe@]);
                        }
                    },
                    Source::Registry(key) => {
                        let key: &'static str = key;
                        self.stage = Stage::Registry;
                        return LaunchAction::ReadRegistry(key);
                    },
                }
            } else {
                proof {
                    assert(queued.len() == 0);
                    assert(pending.len() == 0);
                }
                let ghost before = self.runtimes();
                self.java_runtimes.sort_by_version();
                proof {
                    vstd::seq_lib::to_multiset_len(before);
                    vstd::seq_lib::to_multiset_len(self.runtimes());
                    assert(self.runtimes().len() == before.len());
                }
                let found_runtimes = self.java_runtimes.runtimes.as_slice();
                let n = found_runtimes.len();
                if n == 0 {
                    self.stage = Stage::Ending(1);
                    return LaunchAction::OfferDownload;
                }
                let newest = clone_wide(&found_runtimes[n - 1].executable_path);
                self.stage = Stage::Launching(n - 1);
                return LaunchAction::Launch(newest);
            }
        }
    }
}

} // verus!
