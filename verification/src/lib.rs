//! Verified core of a Windows launcher that locates a suitable Java runtime
//! and starts a jar with it: UTF-16 string and path buffers, Java version
//! parsing and ordering, and the rules that turn environment data into the
//! list of Java executables to try.

pub mod heap;
pub mod i18n;
pub mod java;
pub mod launcher;
pub mod platform;
pub mod wide;
pub mod wide_path;

use vstd::prelude::*;

verus! {

/// The minimum Java major version the launched application requires.
pub const HMCL_EXPECTED_JAVA_MAJOR_VERSION: u16 = 17;

} // verus!
