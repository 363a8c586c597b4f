use vstd::prelude::*;
use vstd::slice::slice_subrange;

use crate::wide::WideString;

verus! {

/// The directory and file name of the launcher's own executable.
pub struct SelfPath {
    pub workdir: WideString,
    pub jar_path: WideString,
}

/// Processor architectures the launcher distinguishes.
#[allow(non_camel_case_types)]
#[derive(Clone, Copy, Debug, PartialEq, Eq, Structural)]
pub enum Arch {
    X86,
    X86_64,
    ARM64,
}

/// `IMAGE_FILE_MACHINE_ARM64`.
pub const IMAGE_FILE_MACHINE_ARM64: u16 = 0xAA64;

/// `IMAGE_FILE_MACHINE_AMD64`.
pub const IMAGE_FILE_MACHINE_AMD64: u16 = 0x8664;

/// `PROCESSOR_ARCHITECTURE_ARM64`.
pub const PROCESSOR_ARCHITECTURE_ARM64: u16 = 12;

/// `PROCESSOR_ARCHITECTURE_AMD64`.
pub const PROCESSOR_ARCHITECTURE_AMD64: u16 = 9;

/// `MAX_PATH`: the first buffer size tried for paths and variables.
pub const MAX_PATH: usize = 260;

/// The largest buffer, in code units, used for an environment variable.
pub const ENV_VAR_BUFFER_LIMIT: usize = 32768;

/// `INVALID_FILE_ATTRIBUTES`.
pub const INVALID_FILE_ATTRIBUTES: u32 = 0xFFFF_FFFF;

/// `FILE_ATTRIBUTE_DIRECTORY`.
pub const FILE_ATTRIBUTE_DIRECTORY: u32 = 0x10;

/// `FILE_ATTRIBUTE_REPARSE_POINT`.
pub const FILE_ATTRIBUTE_REPARSE_POINT: u32 = 0x400;

/// Name of the bundled runtime directory for an architecture.
pub open spec fn spec_bundled_jre_dir(arch: Arch) -> Seq<char> {
    match arch {
        Arch::ARM64 => "jre-arm64"@,
        Arch::X86_64 => "jre-x64"@,
        Arch::X86 => "jre-x86"@,
    }
}

/// Name of the launcher-managed runtime directory for an architecture.
pub open spec fn spec_hmcl_java_dir(arch: Arch) -> Seq<char> {
    match arch {
        Arch::ARM64 => "windows-arm64"@,
        Arch::X86_64 => "windows-x86_64"@,
        Arch::X86 => "windows-x86"@,
    }
}

/// Page that offers a Java download for an architecture.
pub open spec fn spec_download_link(arch: Arch) -> Seq<char> {
    match arch {
        Arch::ARM64 => "https://docs.hmcl.net/downloads/windows/arm64.html"@,
        Arch::X86_64 => "https://docs.hmcl.net/downloads/windows/x86_64.html"@,
        Arch::X86 => "https://docs.hmcl.net/downloads/windows/x86.html"@,
    }
}

/// Human-readable name of an architecture.
pub open spec fn spec_display_name(arch: Arch) -> Seq<char> {
    match arch {
        Arch::ARM64 => "arm64"@,
        Arch::X86_64 => "x86-64"@,
        Arch::X86 => "x86"@,
    }
}

/// Environment variable that names the native Program Files directory.
pub open spec fn spec_program_files_variable(arch: Arch) -> Seq<char> {
    match arch {
        Arch::ARM64 | Arch::X86_64 => "ProgramW6432"@,
        Arch::X86 => "ProgramFiles"@,
    }
}

impl Arch {
    /// The architecture named by an `IMAGE_FILE_MACHINE_*` value, as
    /// `IsWow64Process2` reports the native machine.
    pub fn from_native_machine(machine: u16) -> (r: Arch)
        ensures
            r == (if machine == IMAGE_FILE_MACHINE_ARM64 {
                Arch::ARM64
            } else if machine == IMAGE_FILE_MACHINE_AMD64 {
                Arch::X86_64
            } else {
                Arch::X86
            }),
    {
        if machine == IMAGE_FILE_MACHINE_ARM64 {
            Arch::ARM64
        } else if machine == IMAGE_FILE_MACHINE_AMD64 {
            Arch::X86_64
        } else {
            Arch::X86
        }
    }

    /// The architecture named by a `PROCESSOR_ARCHITECTURE_*` value, as
    /// `GetNativeSystemInfo` reports it.
    pub fn from_processor_architecture(architecture: u16) -> (r: Arch)
        ensures
            r == (if architecture == PROCESSOR_ARCHITECTURE_ARM64 {
                Arch::ARM64
            } else if architecture == PROCESSOR_ARCHITECTURE_AMD64 {
                Arch::X86_64
            } else {
                Arch::X86
            }),
    {
        if architecture == PROCESSOR_ARCHITECTURE_ARM64 {
            Arch::ARM64
        } else if architecture == PROCESSOR_ARCHITECTURE_AMD64 {
            Arch::X86_64
        } else {
            Arch::X86
        }
    }

    /// Name of the bundled runtime directory next to the launcher.
    pub fn bundled_jre_dir(self) -> (r: &'static str)
        ensures
            r@ == spec_bundled_jre_dir(self),
    {
        match self {
            Arch::ARM64 => "jre-arm64",
            Arch::X86_64 => "jre-x64",
            Arch::X86 => "jre-x86",
        }
    }

    /// Name of the launcher-managed runtime directory below `.hmcl\java`.
    pub fn hmcl_java_dir(self) -> (r: &'static str)
        ensures
            r@ == spec_hmcl_java_dir(self),
    {
        match self {
            Arch::ARM64 => "windows-arm64",
            Arch::X86_64 => "windows-x86_64",
            Arch::X86 => "windows-x86",
        }
    }

    /// Page that offers a Java download for this architecture.
    pub fn download_link(self) -> (r: &'static str)
        ensures
            r@ == spec_download_link(self),
    {
        match self {
            Arch::ARM64 => "https://docs.hmcl.net/downloads/windows/arm64.html",
            Arch::X86_64 => "https://docs.hmcl.net/downloads/windows/x86_64.html",
            Arch::X86 => "https://docs.hmcl.net/downloads/windows/x86.html",
        }
    }

    /// Human-readable name of the architecture.
    pub fn display_name(self) -> (r: &'static str)
        ensures
            r@ == spec_display_name(self),
    {
        match self {
            Arch::ARM64 => "arm64",
            Arch::X86_64 => "x86-64",
            Arch::X86 => "x86",
        }
    }

    /// Environment variable that names the native Program Files directory.
    pub fn program_files_variable(self) -> (r: &'static str)
        ensures
            r@ == spec_program_files_variable(self),
    {
        match self {
            Arch::ARM64 | Arch::X86_64 => "ProgramW6432",
            Arch::X86 => "ProgramFiles",
        }
    }
}

/// Index of the last `\` or `/` in `p`, or -1 when there is none.
pub open spec fn last_separator(p: Seq<u16>) -> int
    decreases p.len(),
{
    if p.len() == 0 {
        -1
    } else if p.last() == 92 || p.last() == 47 {
        p.len() - 1
    } else {
        last_separator(p.drop_last())
    }
}

/// `last_separator` names a separator, or -1, and none follows it.
proof fn lemma_last_separator_bounds(p: Seq<u16>)
    ensures
        -1 <= last_separator(p) < p.len(),
        last_separator(p) >= 0 ==> (p[last_separator(p)] == 92 || p[last_separator(p)] == 47),
        forall|k: int| last_separator(p) < k < p.len() ==> p[k] != 92 && p[k] != 47,
    decreases p.len(),
{
    if p.len() > 0 && !(p.last() == 92 || p.last() == 47) {
        let q = p.drop_last();
        lemma_last_separator_bounds(q);
        assert forall|k: int| last_separator(p) < k < p.len() implies p[k] != 92 && p[k] != 47 by {
            if k < q.len() {
                assert(p[k] == q[k]);
            }
        }
    }
}

impl SelfPath {
    /// Split the launcher's full path at its last separator into the working
    /// directory and the file name; `None` when there is no separator or the
    /// file name is empty.
    pub fn from_module_path(path: &[u16]) -> (r: Option<SelfPath>)
        ensures
            r is Some <==> (last_separator(path@) >= 0 && last_separator(path@) + 1 < path@.len()),
            r matches Some(sp) ==> sp.workdir@ == path@.take(last_separator(path@))
                && sp.jar_path@ == path@.skip(last_separator(path@) + 1),
    {
        proof {
            lemma_last_separator_bounds(path@);
        }
        let n = path.len();
        let mut i = n;
        while i > 0 && !(path[i - 1] == 92 || path[i - 1] == 47)
            invariant
                i <= n,
                n == path@.len(),
                forall|k: int| i <= k < n ==> path@[k] != 92 && path@[k] != 47,
            decreases i,
        {
            i = i - 1;
        }
        proof {
            if i > 0 {
                assert(last_separator(path@) == i - 1);
            } else {
                assert(last_separator(path@) == -1);
            }
        }
        if i == 0 {
            return None;
        }
        let slash = i - 1;
        if slash + 1 >= n {
            return None;
        }
        let workdir = match WideString::from_utf16(slice_subrange(path, 0, slash)) {
            Some(w) => w,
            None => {
                return None;
            },
        };
        let jar_path = match WideString::from_utf16(slice_subrange(path, slash + 1, n)) {
            Some(w) => w,
            None => {
                return None;
            },
        };
        assert(workdir@ =~= path@.take(slash as int));
        assert(jar_path@ =~= path@.skip(slash + 1));
        Some(SelfPath { workdir, jar_path })
    }
}

/// What to do after a Win32 call filled a caller-owned buffer.
pub enum BufferStep {
    /// The value is complete and holds this many code units.
    Done(usize),
    /// The value did not fit: try again with a buffer of this size.
    Grow(usize),
    /// Give up.
    Fail,
}

/// Next step when reading the module path: `result` is what
/// `GetModuleFileNameW` returned for a buffer of `size` code units. A result
/// that fills the buffer means truncation, so the buffer grows by `MAX_PATH`.
pub fn module_path_step(size: usize, result: usize) -> (r: BufferStep)
    ensures
        r == (if result == 0 {
            BufferStep::Fail
        } else if result < size {
            BufferStep::Done(result)
        } else if size + MAX_PATH <= usize::MAX {
            BufferStep::Grow((size + MAX_PATH) as usize)
        } else {
            BufferStep::Fail
        }),
{
    if result == 0 {
        BufferStep::Fail
    } else if result < size {
        BufferStep::Done(result)
    } else {
        match size.checked_add(MAX_PATH) {
            Some(next) => BufferStep::Grow(next),
            None => BufferStep::Fail,
        }
    }
}

/// Next step when reading an environment variable: `result` is what
/// `GetEnvironmentVariableW` returned for a buffer of `size` code units and
/// `error_is_success` whether the last error was `ERROR_SUCCESS` (a zero
/// result then means an empty value). A result at least `size` is the size
/// needed; buffers stop growing at `ENV_VAR_BUFFER_LIMIT`.
pub fn env_var_step(size: usize, result: usize, error_is_success: bool) -> (r: BufferStep)
    ensures
        r == (if result == 0 && !error_is_success {
            BufferStep::Fail
        } else if result < size {
            BufferStep::Done(result)
        } else {
            let next = if result == size { result + 1 } else { result as int };
            if next < ENV_VAR_BUFFER_LIMIT {
                BufferStep::Grow(next as usize)
            } else {
                BufferStep::Fail
            }
        }),
{
    if result == 0 && !error_is_success {
        return BufferStep::Fail;
    }
    if result < size {
        return BufferStep::Done(result);
    }
    let next = if result == size {
        if result >= ENV_VAR_BUFFER_LIMIT {
            return BufferStep::Fail;
        }
        result + 1
    } else {
        result
    };
    if next < ENV_VAR_BUFFER_LIMIT {
        BufferStep::Grow(next)
    } else {
        BufferStep::Fail
    }
}

/// Whether file attributes describe a regular file: readable attributes of
/// something that is neither a directory nor a reparse point.
pub fn is_regular_file_attributes(attributes: u32) -> (r: bool)
    ensures
        r == (attributes != INVALID_FILE_ATTRIBUTES && attributes & FILE_ATTRIBUTE_DIRECTORY == 0
            && attributes & FILE_ATTRIBUTE_REPARSE_POINT == 0),
{
    attributes != INVALID_FILE_ATTRIBUTES && (attributes & FILE_ATTRIBUTE_DIRECTORY) == 0
        && (attributes & FILE_ATTRIBUTE_REPARSE_POINT) == 0
}

} // verus!
