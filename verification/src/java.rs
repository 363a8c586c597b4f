use vstd::prelude::*;
use core::cmp::Ordering;

use crate::HMCL_EXPECTED_JAVA_MAJOR_VERSION;
use crate::heap::{HeapVec, decides_order, is_total_preorder, keeps_equal_order, rearranged, sorted_by};
use crate::wide::{contains_run, is_dot_or_dot_dot, lemma_utf16_encode_len, trim_wide_whitespace, trimmed, utf16_encode, wide_contains, WideString};
use crate::wide_path::{join_component, join_component_fits, WidePathBuf};
use vstd::slice::slice_subrange;

verus! {

/// Where and how the launched application is started.
pub struct JavaOptions {
    pub workdir: WideString,
    pub jar_path: WideString,
    pub jvm_options: Option<WideString>,
}

/// A four-part Java version; a major version of 0 means "unknown".
#[derive(Clone, Copy, Debug, Default, PartialEq, Eq, Structural, PartialOrd, Ord)]
pub struct JavaVersion {
    pub major: u16,
    pub minor: u16,
    pub build: u16,
    pub revision: u16,
}

/// The version with every part 0.
pub open spec fn zero_version() -> JavaVersion {
    JavaVersion { major: 0, minor: 0, build: 0, revision: 0 }
}

/// `x` clamped to the range of `u16`.
pub open spec fn saturate_u16(x: int) -> u16 {
    if x > 0xFFFF {
        0xFFFF
    } else {
        x as u16
    }
}

/// Part `i` of a version, counting major as 0.
pub open spec fn version_part(v: JavaVersion, i: int) -> u16 {
    if i == 0 {
        v.major
    } else if i == 1 {
        v.minor
    } else if i == 2 {
        v.build
    } else {
        v.revision
    }
}

/// A version with part `i` replaced by `x`.
pub open spec fn with_version_part(v: JavaVersion, i: int, x: u16) -> JavaVersion {
    if i == 0 {
        JavaVersion { major: x, ..v }
    } else if i == 1 {
        JavaVersion { minor: x, ..v }
    } else if i == 2 {
        JavaVersion { build: x, ..v }
    } else {
        JavaVersion { revision: x, ..v }
    }
}

/// One step of the version scanner: `.` and `_` move to the next part, except
/// that a leading `1.` is dropped so that `1.8` reads as 8; digits extend the
/// current part with saturation; other units are ignored, and so is
/// everything after the fourth part.
pub open spec fn version_scan_step(state: (JavaVersion, int), unit: u16) -> (JavaVersion, int) {
    let v = state.0;
    let index = state.1;
    if index >= 4 {
        state
    } else if unit == 46 || unit == 95 {
        if index == 0 && v.major == 1 {
            (with_version_part(v, 0, 0), index)
        } else {
            (v, index + 1)
        }
    } else if 48 <= unit <= 57 {
        let digit = unit - 48;
        (
            with_version_part(
                v,
                index,
                saturate_u16(saturate_u16(version_part(v, index) * 10) + digit),
            ),
            index,
        )
    } else {
        state
    }
}

/// The scanner's state after reading `s`.
pub open spec fn version_scan(s: Seq<u16>) -> (JavaVersion, int)
    decreases s.len(),
{
    if s.len() == 0 {
        (zero_version(), 0)
    } else {
        version_scan_step(version_scan(s.drop_last()), s.last())
    }
}

/// The version that a UTF-16 version string such as `17.0.15_9` denotes.
pub open spec fn parse_version(s: Seq<u16>) -> JavaVersion {
    version_scan(s).0
}

/// Lexicographic order on (major, minor, build, revision).
pub open spec fn version_le(a: JavaVersion, b: JavaVersion) -> bool {
    if a.major != b.major {
        a.major < b.major
    } else if a.minor != b.minor {
        a.minor < b.minor
    } else if a.build != b.build {
        a.build < b.build
    } else {
        a.revision <= b.revision
    }
}

/// Whether the version meets the launcher's minimum major version.
pub open spec fn version_acceptable(v: JavaVersion) -> bool {
    v.major >= HMCL_EXPECTED_JAVA_MAJOR_VERSION
}

impl JavaVersion {
    /// The version reported when a runtime's version cannot be read.
    pub fn invalid() -> (r: Self)
        ensures
            r == zero_version(),
    {
        JavaVersion { major: 0, minor: 0, build: 0, revision: 0 }
    }

    /// Build the version from the two 32-bit words of a file's fixed version
    /// information: the high word of each holds the more significant part.
    pub fn from_file_version(version_ms: u32, version_ls: u32) -> (r: Self)
        ensures
            r.major == version_ms / 0x10000,
            r.minor == version_ms % 0x10000,
            r.build == version_ls / 0x10000,
            r.revision == version_ls % 0x10000,
    {
        JavaVersion {
            major: (version_ms / 0x10000) as u16,
            minor: (version_ms % 0x10000) as u16,
            build: (version_ls / 0x10000) as u16,
            revision: (version_ls % 0x10000) as u16,
        }
    }

    /// Parse a version string such as `17.0.15_9` or `1.8.0_321`.
    pub fn from_utf16(value: &[u16]) -> (r: Self)
        ensures
            r == parse_version(value@),
    {
        let mut version = JavaVersion { major: 0, minor: 0, build: 0, revision: 0 };
        let mut index: usize = 0;
        let mut i: usize = 0;
        while i < value.len()
            invariant
                i <= value@.len(),
                version_scan(value@.take(i as int)) == (version, index as int),
                index <= 4,
            decreases value@.len() - i,
        {
            let unit = value[i];
            proof {
                assert(value@.take(i + 1).drop_last() =~= value@.take(i as int));
            }
            if index < 4 {
                if unit == 46 || unit == 95 {
                    if index == 0 && version.major == 1 {
                        version.major = 0;
                    } else {
                        index = index + 1;
                    }
                } else if 48 <= unit && unit <= 57 {
                    let current = version.part(index);
                    let scaled = current as u32 * 10;
                    let scaled: u16 = if scaled > 0xFFFF { 0xFFFF } else { scaled as u16 };
                    let sum = scaled as u32 + (unit - 48) as u32;
                    let next: u16 = if sum > 0xFFFF { 0xFFFF } else { sum as u16 };
                    version = version.with_part(index, next);
                }
            }
            i = i + 1;
        }
        assert(value@.take(i as int) =~= value@);
        version
    }

    /// Part `index` of the version, counting major as 0.
    fn part(&self, index: usize) -> (r: u16)
        requires
            index < 4,
        ensures
            r == version_part(*self, index as int),
    {
        if index == 0 {
            self.major
        } else if index == 1 {
            self.minor
        } else if index == 2 {
            self.build
        } else {
            self.revision
        }
    }

    /// The version with part `index` replaced by `value`.
    fn with_part(self, index: usize, value: u16) -> (r: Self)
        requires
            index < 4,
        ensures
            r == with_version_part(self, index as int, value),
    {
        if index == 0 {
            JavaVersion { major: value, ..self }
        } else if index == 1 {
            JavaVersion { minor: value, ..self }
        } else if index == 2 {
            JavaVersion { build: value, ..self }
        } else {
            JavaVersion { revision: value, ..self }
        }
    }

    /// Whether the version meets the launcher's minimum major version.
    pub fn is_acceptable(self) -> (r: bool)
        ensures
            r == version_acceptable(self),
    {
        self.major >= HMCL_EXPECTED_JAVA_MAJOR_VERSION
    }
}

/// The three-way comparison that `version_le` induces.
pub open spec fn version_ordering(a: JavaVersion, b: JavaVersion) -> Ordering {
    if !version_le(a, b) {
        Ordering::Greater
    } else if version_le(b, a) {
        Ordering::Equal
    } else {
        Ordering::Less
    }
}

/// The version order is a total preorder.
pub proof fn lemma_version_le_total_preorder()
    ensures
        is_total_preorder(|a: JavaVersion, b: JavaVersion| version_le(a, b)),
{
}

/// Versions that are each at most the other are equal.
pub proof fn lemma_version_le_antisymmetric(a: JavaVersion, b: JavaVersion)
    requires
        version_le(a, b),
        version_le(b, a),
    ensures
        a == b,
{
}

/// Swapping the operands of the comparison swaps `Less` and `Greater`.
pub proof fn lemma_version_ordering_flips(a: JavaVersion, b: JavaVersion)
    ensures
        (version_ordering(a, b) == Ordering::Less) == (version_ordering(b, a) == Ordering::Greater),
        (version_ordering(a, b) == Ordering::Equal) == (a == b),
{
}

/// Decimal digits of `n` as UTF-16 code units, without leading zeros.
pub open spec fn decimal_units(n: nat) -> Seq<u16>
    decreases n,
{
    if n < 10 {
        seq![(48 + n) as u16]
    } else {
        decimal_units(n / 10).push((48 + n % 10) as u16)
    }
}

/// How a version is shown: `Unknown` for major 0, else the four parts
/// joined by dots.
pub open spec fn version_display(v: JavaVersion) -> Seq<u16> {
    if v.major == 0 {
        utf16_encode("Unknown"@)
    } else {
        decimal_units(v.major as nat) + seq![46u16] + decimal_units(v.minor as nat) + seq![46u16]
            + decimal_units(v.build as nat) + seq![46u16] + decimal_units(v.revision as nat)
    }
}

/// A `u16` has between one and five decimal digits.
proof fn lemma_decimal_units_len(n: nat)
    ensures
        1 <= decimal_units(n).len(),
        n < 10 ==> decimal_units(n).len() == 1,
        n < 100 ==> decimal_units(n).len() <= 2,
        n < 1000 ==> decimal_units(n).len() <= 3,
        n < 10000 ==> decimal_units(n).len() <= 4,
        n < 100000 ==> decimal_units(n).len() <= 5,
    decreases n,
{
    if n >= 10 {
        lemma_decimal_units_len(n / 10);
    }
}

/// Append one code unit.
fn push_unit(out: &mut WideString, unit: u16) -> (r: bool)
    ensures
        r == (old(out)@.len() + 1 < usize::MAX),
        r ==> final(out)@ == old(out)@.push(unit),
        !r ==> final(out)@ == old(out)@,
{
    let units = vec![unit];
    assert(units@ =~= seq![unit]);
    let r = out.push_slice(units.as_slice());
    assert(old(out)@ + seq![unit] =~= old(out)@.push(unit));
    r
}

/// Append the decimal digits of `n`.
fn push_decimal(out: &mut WideString, n: u16)
    requires
        old(out)@.len() + 5 < usize::MAX,
    ensures
        final(out)@ == old(out)@ + decimal_units(n as nat),
    decreases n,
{
    proof {
        lemma_decimal_units_len(n as nat);
    }
    if n >= 10 {
        push_decimal(out, n / 10);
        proof {
            lemma_decimal_units_len((n / 10) as nat);
        }
    }
    push_unit(out, 48 + n % 10);
    assert(out@ =~= old(out)@ + decimal_units(n as nat));
}

impl JavaVersion {
    /// Three-way comparison by (major, minor, build, revision).
    pub fn compare(&self, other: &Self) -> (r: Ordering)
        ensures
            r == version_ordering(*self, *other),
    {
        if self.major != other.major {
            if self.major < other.major { Ordering::Less } else { Ordering::Greater }
        } else if self.minor != other.minor {
            if self.minor < other.minor { Ordering::Less } else { Ordering::Greater }
        } else if self.build != other.build {
            if self.build < other.build { Ordering::Less } else { Ordering::Greater }
        } else if self.revision != other.revision {
            if self.revision < other.revision { Ordering::Less } else { Ordering::Greater }
        } else {
            Ordering::Equal
        }
    }

    /// The version as shown in diagnostics: `Unknown`, or `major.minor.build.revision`.
    pub fn to_wide_string(&self) -> (r: WideString)
        ensures
            r@ == version_display(*self),
    {
        let mut out = WideString::new();
        if self.major == 0 {
            proof {
                reveal_strlit("Unknown");
                lemma_utf16_encode_len("Unknown"@);
            }
            out.push_str("Unknown");
            assert(out@ =~= version_display(*self));
            return out;
        }
        push_decimal(&mut out, self.major);
        proof { lemma_decimal_units_len(self.major as nat); }
        push_unit(&mut out, 46);
        push_decimal(&mut out, self.minor);
        proof { lemma_decimal_units_len(self.minor as nat); }
        push_unit(&mut out, 46);
        push_decimal(&mut out, self.build);
        proof { lemma_decimal_units_len(self.build as nat); }
        push_unit(&mut out, 46);
        push_decimal(&mut out, self.revision);
        assert(out@ =~= version_display(*self));
        out
    }
}

/// A discovered Java runtime.
pub struct JavaRuntime {
    pub version: JavaVersion,
    pub executable_path: WideString,
}

/// Whether some runtime in `runtimes` has executable path `path`.
pub open spec fn has_executable(runtimes: Seq<JavaRuntime>, path: Seq<u16>) -> bool {
    exists|i: int| 0 <= i < runtimes.len() && #[trigger] runtimes[i].executable_path@ == path
}

/// Every runtime is acceptable and no executable path occurs twice.
pub open spec fn runtimes_well_formed(runtimes: Seq<JavaRuntime>) -> bool {
    &&& forall|i: int| 0 <= i < runtimes.len() ==> version_acceptable(#[trigger] runtimes[i].version)
    &&& forall|i: int, j: int|
        0 <= i < j < runtimes.len() ==> #[trigger] runtimes[i].executable_path@
            != #[trigger] runtimes[j].executable_path@
}

/// Reordering runtimes keeps them well formed.
pub proof fn lemma_permutation_keeps_well_formed(s1: Seq<JavaRuntime>, s2: Seq<JavaRuntime>)
    requires
        runtimes_well_formed(s1),
        s1.to_multiset() == s2.to_multiset(),
    ensures
        runtimes_well_formed(s2),
{
    broadcast use vstd::seq_lib::group_to_multiset_ensures;

    assert forall|i: int| 0 <= i < s2.len() implies exists|p: int|
        0 <= p < s1.len() && s1[p] == #[trigger] s2[i] by {
        assert(s2.to_multiset().contains(s2[i]));
        assert(s1.contains(s2[i]));
    }
    assert(s1.no_duplicates()) by {
        assert forall|i: int, j: int| 0 <= i < s1.len() && 0 <= j < s1.len() && i != j implies s1[i]
            != s1[j] by {
            if i < j {
                assert(s1[i].executable_path@ != s1[j].executable_path@);
            } else {
                assert(s1[j].executable_path@ != s1[i].executable_path@);
            }
        }
    }
    s1.lemma_multiset_has_no_duplicates();
    s2.lemma_multiset_has_no_duplicates_conv();
    assert forall|i: int| 0 <= i < s2.len() implies version_acceptable(#[trigger] s2[i].version) by {
        let p = choose|p: int| 0 <= p < s1.len() && s1[p] == s2[i];
        assert(version_acceptable(s1[p].version));
    }
    assert forall|i: int, j: int| 0 <= i < j < s2.len() implies #[trigger] s2[i].executable_path@
        != #[trigger] s2[j].executable_path@ by {
        let p = choose|p: int| 0 <= p < s1.len() && s1[p] == s2[i];
        let q = choose|q: int| 0 <= q < s1.len() && s1[q] == s2[j];
        assert(s2[i] != s2[j]);
        if p < q {
            assert(s1[p].executable_path@ != s1[q].executable_path@);
        } else if q < p {
            assert(s1[q].executable_path@ != s1[p].executable_path@);
        }
    }
}

/// Runtimes in ascending version order.
pub open spec fn runtime_version_le(a: JavaRuntime, b: JavaRuntime) -> bool {
    version_le(a.version, b.version)
}

/// `after` holds the runtimes of `before` sorted by ascending version,
/// runtimes of equal version in the order they had in `before`.
pub open spec fn stably_sorted_by_version(before: Seq<JavaRuntime>, after: Seq<JavaRuntime>) -> bool {
    &&& sorted_by(after, |a: JavaRuntime, b: JavaRuntime| runtime_version_le(a, b))
    &&& exists|p: Seq<int>| #[trigger] rearranged(before, after, p)
        && keeps_equal_order(after, p, |a: JavaRuntime, b: JavaRuntime| runtime_version_le(a, b))
}

/// The runtimes collected during discovery.
pub struct JavaList {
    pub runtimes: HeapVec<JavaRuntime>,
}

impl JavaList {
    /// An empty list.
    pub fn new() -> (r: Self)
        ensures
            r.runtimes@ == Seq::<JavaRuntime>::empty(),
            r.runtimes.well_formed(),
    {
        Self { runtimes: HeapVec::new() }
    }

    /// Whether a runtime with this executable path is already listed.
    pub fn contains_executable(&self, path: &[u16]) -> (r: bool)
        ensures
            r == has_executable(self.runtimes@, path@),
    {
        let items = self.runtimes.as_slice();
        let mut i: usize = 0;
        while i < items.len()
            invariant
                i <= items@.len(),
                items@ == self.runtimes@,
                forall|k: int| 0 <= k < i ==> #[trigger] items@[k].executable_path@ != path@,
            decreases items@.len() - i,
        {
            let candidate = items[i].executable_path.as_slice();
            if slices_equal(candidate, path) {
                return true;
            }
            i = i + 1;
        }
        false
    }

    /// Add a runtime found at `java_executable`. It is added only when the
    /// path names a regular file, is not listed yet, and its version is
    /// acceptable; `version` is what the executable's version information
    /// reports. Such a runtime is added whenever the list has room left; when
    /// it is full, adding fails if the list cannot grow.
    pub fn try_add(&mut self, java_executable: WideString, is_regular_file: bool, version: JavaVersion) -> (r: bool)
        requires
            old(self).runtimes.well_formed(),
        ensures
            final(self).runtimes.well_formed(),
            r ==> is_regular_file && !has_executable(old(self).runtimes@, java_executable@)
                && version_acceptable(version),
            is_regular_file && !has_executable(old(self).runtimes@, java_executable@)
                && version_acceptable(version) && old(self).runtimes@.len() < old(self).runtimes.capacity()
                ==> r,
            r ==> final(self).runtimes@ == old(self).runtimes@.push(
                JavaRuntime { version, executable_path: java_executable },
            ),
            !r ==> final(self).runtimes@ == old(self).runtimes@,
            final(self).runtimes.capacity() >= old(self).runtimes.capacity(),
            runtimes_well_formed(old(self).runtimes@) ==> runtimes_well_formed(final(self).runtimes@),
    {
        if !is_regular_file {
            return false;
        }
        if self.contains_executable(java_executable.as_slice()) {
            return false;
        }
        if !version.is_acceptable() {
            return false;
        }
        let ghost before = self.runtimes@;
        let ghost path = java_executable@;
        let r = self.runtimes.push(JavaRuntime { version, executable_path: java_executable });
        proof {
            let after = self.runtimes@;
            assert forall|i: int, j: int|
                runtimes_well_formed(before) && 0 <= i < j < after.len() implies #[trigger] after[i].executable_path@
                != #[trigger] after[j].executable_path@ by {
                if j == before.len() {
                    assert(after[i] == before[i]);
                }
            }
        }
        r
    }

    /// Sort the runtimes by ascending version, keeping the order of equal
    /// versions.
    pub fn sort_by_version(&mut self)
        ensures
            final(self).runtimes@.to_multiset() == old(self).runtimes@.to_multiset(),
            final(self).runtimes.capacity() == old(self).runtimes.capacity(),
            old(self).runtimes.well_formed() ==> final(self).runtimes.well_formed(),
            stably_sorted_by_version(old(self).runtimes@, final(self).runtimes@),
            runtimes_well_formed(old(self).runtimes@) ==> runtimes_well_formed(final(self).runtimes@),
    {
        let compare = |left: &JavaRuntime, right: &JavaRuntime| -> (o: Ordering)
            ensures
                o == version_ordering(left.version, right.version),
            { left.version.compare(&right.version) };
        self.runtimes.sort_by(compare);
        proof {
            let le = |a: JavaRuntime, b: JavaRuntime| runtime_version_le(a, b);
            assert(decides_order(compare, le));
            if runtimes_well_formed(old(self).runtimes@) {
                lemma_permutation_keeps_well_formed(old(self).runtimes@, self.runtimes@);
            }
        }
    }
}

/// Whether two UTF-16 slices hold the same code units.
fn slices_equal(a: &[u16], b: &[u16]) -> (r: bool)
    ensures
        r == (a@ == b@),
{
    if a.len() != b.len() {
        return false;
    }
    let mut i: usize = 0;
    while i < a.len()
        invariant
            i <= a@.len(),
            a@.len() == b@.len(),
            a@.take(i as int) == b@.take(i as int),
        decreases a@.len() - i,
    {
        if a[i] != b[i] {
            return false;
        }
        assert(a@.take(i + 1) =~= a@.take(i as int).push(a@[i as int]));
        assert(b@.take(i + 1) =~= b@.take(i as int).push(b@[i as int]));
        i = i + 1;
    }
    assert(a@ =~= a@.take(i as int));
    assert(b@ =~= b@.take(i as int));
    true
}

/// The UTF-16 encodings of a list of strings.
pub open spec fn encode_all(names: Seq<&str>) -> Seq<Seq<u16>> {
    names.map_values(|n: &str| utf16_encode(n@))
}

/// `base` with `components` appended one after another as path components,
/// or `None` when the path would not fit.
pub open spec fn join_components(base: Seq<u16>, components: Seq<Seq<u16>>) -> Option<Seq<u16>>
    decreases components.len(),
{
    if components.len() == 0 {
        if base.len() < usize::MAX {
            Some(base)
        } else {
            None
        }
    } else {
        match join_components(base, components.drop_last()) {
            Some(p) => if join_component_fits(p, components.last()) {
                Some(join_component(p, components.last()))
            } else {
                None
            },
            None => None,
        }
    }
}

/// Build `base` followed by each of `components` as path components.
pub fn path_with_components(base: &[u16], components: &[&str]) -> (r: Option<WideString>)
    ensures
        r is Some <==> join_components(base@, encode_all(components@)) is Some,
        r matches Some(w) ==> w@ == join_components(base@, encode_all(components@))->0,
{
    let ghost comps = encode_all(components@);
    let mut path = match WidePathBuf::from_utf16(base) {
        Some(p) => p,
        None => {
            proof {
                assert(join_components(base@, comps.take(0)) is None);
                lemma_join_components_none_extends(base@, comps, 0);
            }
            return None;
        },
    };
    let mut i: usize = 0;
    while i < components.len()
        invariant
            i <= components@.len(),
            comps == encode_all(components@),
            join_components(base@, comps.take(i as int)) == Some(path@),
        decreases components@.len() - i,
    {
        assert(comps.take(i + 1).drop_last() =~= comps.take(i as int));
        if !path.push_path_component_str(components[i]) {
            proof {
                lemma_join_components_none_extends(base@, comps, i + 1);
            }
            return None;
        }
        i = i + 1;
    }
    assert(comps.take(i as int) =~= comps);
    Some(path.into_wide_string())
}

/// Joining a single component.
proof fn lemma_join_one(base: Seq<u16>, component: Seq<u16>)
    ensures
        join_components(base, seq![component]) == if base.len() < usize::MAX {
            if join_component_fits(base, component) {
                Some(join_component(base, component))
            } else {
                None
            }
        } else {
            None
        },
{
    reveal_with_fuel(join_components, 2);
    assert(seq![component].drop_last() =~= Seq::<Seq<u16>>::empty());
}

/// Once joining fails, joining more components fails too.
proof fn lemma_join_components_none_extends(base: Seq<u16>, comps: Seq<Seq<u16>>, k: int)
    requires
        0 <= k <= comps.len(),
        join_components(base, comps.take(k)) is None,
    ensures
        join_components(base, comps) is None,
    decreases comps.len() - k,
{
    if k < comps.len() {
        assert(comps.take(k + 1).drop_last() =~= comps.take(k));
        lemma_join_components_none_extends(base, comps, k + 1);
    } else {
        assert(comps.take(k) =~= comps);
    }
}

/// `java_home\bin\<executable name>`.
pub open spec fn java_home_executable_path(java_home: Seq<u16>, java_executable_name: Seq<char>) -> Option<Seq<u16>> {
    join_components(java_home, seq![utf16_encode("bin"@), utf16_encode(java_executable_name)])
}

/// The Java executable inside a Java home directory: `java_home\bin\<name>`.
pub fn java_home_executable(java_home: &WideString, java_executable_name: &str) -> (r: Option<WideString>)
    ensures
        r is Some <==> java_home_executable_path(java_home@, java_executable_name@) is Some,
        r matches Some(w) ==> w@ == java_home_executable_path(java_home@, java_executable_name@)->0,
{
    let components = vec!["bin", java_executable_name];
    assert(encode_all(components@) =~= seq![utf16_encode("bin"@), utf16_encode(java_executable_name@)]);
    path_with_components(java_home.as_slice(), components.as_slice())
}

/// The directory listing pattern for `basedir`: `basedir\*`.
pub fn dir_search_pattern(basedir: &WideString) -> (r: Option<WideString>)
    ensures
        r is Some <==> join_components(basedir@, seq![utf16_encode("*"@)]) is Some,
        r matches Some(w) ==> w@ == join_components(basedir@, seq![utf16_encode("*"@)])->0,
{
    let components = vec!["*"];
    assert(encode_all(components@) =~= seq![utf16_encode("*"@)]);
    path_with_components(basedir.as_slice(), components.as_slice())
}

/// The Java executable that a directory entry would hold:
/// `basedir\<entry>\bin\<name>`; `None` for `.` and `..`.
pub open spec fn dir_entry_executable_path(basedir: Seq<u16>, entry_name: Seq<u16>, java_executable_name: Seq<char>) -> Option<Seq<u16>> {
    if entry_name == seq![46u16] || entry_name == seq![46u16, 46u16] {
        None
    } else {
        match join_components(basedir, seq![entry_name]) {
            Some(dir) => java_home_executable_path(dir, java_executable_name),
            None => None,
        }
    }
}

/// The Java executable that a directory entry found while searching
/// `basedir` would hold, or `None` for the `.` and `..` entries.
pub fn dir_entry_executable(basedir: &WideString, entry_name: &[u16], java_executable_name: &str) -> (r: Option<WideString>)
    ensures
        r is Some <==> dir_entry_executable_path(basedir@, entry_name@, java_executable_name@) is Some,
        r matches Some(w) ==> w@ == dir_entry_executable_path(basedir@, entry_name@, java_executable_name@)->0,
{
    if is_dot_or_dot_dot(entry_name) {
        return None;
    }
    let ghost comps = seq![entry_name@];
    proof {
        assert(comps.drop_last() =~= Seq::<Seq<u16>>::empty());
        reveal_with_fuel(join_components, 2);
    }
    let mut dir = match WidePathBuf::from_utf16(basedir.as_slice()) {
        Some(p) => p,
        None => {
            return None;
        },
    };
    if !dir.push_path_component(entry_name) {
        return None;
    }
    let dir = dir.into_wide_string();
    java_home_executable(&dir, java_executable_name)
}

/// The Java executable named by a registry `JavaHome` value, given as the
/// code units the registry returned (with or without a terminating NUL).
pub open spec fn registry_java_executable_path(java_home: Seq<u16>, java_executable_name: Seq<char>) -> Option<Seq<u16>> {
    let home = if java_home.len() > 0 && java_home.last() == 0 {
        java_home.drop_last()
    } else {
        java_home
    };
    java_home_executable_path(home, java_executable_name)
}

/// The Java executable below a registry `JavaHome` value: one trailing NUL
/// is dropped, then `bin` and the executable name are appended.
pub fn registry_java_executable(java_home: &[u16], java_executable_name: &str) -> (r: Option<WideString>)
    ensures
        r is Some <==> registry_java_executable_path(java_home@, java_executable_name@) is Some,
        r matches Some(w) ==> w@ == registry_java_executable_path(java_home@, java_executable_name@)->0,
{
    let mut units = java_home.len();
    if units > 0 && java_home[units - 1] == 0 {
        units = units - 1;
    }
    let home = slice_subrange(java_home, 0, units);
    assert(units < java_home@.len() ==> home@ =~= java_home@.drop_last());
    assert(units == java_home@.len() ==> home@ =~= java_home@);
    let components = vec!["bin", java_executable_name];
    assert(encode_all(components@) =~= seq![utf16_encode("bin"@), utf16_encode(java_executable_name@)]);
    path_with_components(home, components.as_slice())
}

/// The contents of a list of UTF-16 strings.
pub open spec fn wide_views(items: Seq<WideString>) -> Seq<Seq<u16>> {
    items.map_values(|w: WideString| w@)
}

/// The vendor directories below Program Files that hold Java installations,
/// in search order.
pub open spec fn java_vendors() -> Seq<Seq<char>> {
    seq![
        "Java"@,
        "Microsoft"@,
        "BellSoft"@,
        "Zulu"@,
        "Eclipse Foundation"@,
        "AdoptOpenJDK"@,
        "Semeru"@,
    ]
}

/// `base\<vendor>` for each vendor whose path fits.
pub open spec fn vendor_dirs(base: Seq<u16>, vendors: Seq<Seq<char>>) -> Seq<Seq<u16>>
    decreases vendors.len(),
{
    if vendors.len() == 0 {
        Seq::empty()
    } else {
        let prev = vendor_dirs(base, vendors.drop_last());
        let component = utf16_encode(vendors.last());
        if join_component_fits(base, component) {
            prev.push(join_component(base, component))
        } else {
            prev
        }
    }
}

/// Vendor directory `index` below Program Files.
fn java_vendor(index: usize) -> (r: &'static str)
    requires
        index < 7,
    ensures
        r@ == java_vendors()[index as int],
{
    if index == 0 {
        "Java"
    } else if index == 1 {
        "Microsoft"
    } else if index == 2 {
        "BellSoft"
    } else if index == 3 {
        "Zulu"
    } else if index == 4 {
        "Eclipse Foundation"
    } else if index == 5 {
        "AdoptOpenJDK"
    } else {
        "Semeru"
    }
}

/// The directories below Program Files that the Java search enumerates, in
/// order: one per known vendor.
pub fn search_java_in_program_files(program_files: &WideString) -> (r: Vec<WideString>)
    ensures
        wide_views(r@) == vendor_dirs(program_files@, java_vendors()),
{
    let mut result: Vec<WideString> = Vec::new();
    let mut i: usize = 0;
    while i < 7
        invariant
            i <= 7,
            java_vendors().len() == 7,
            wide_views(result@) == vendor_dirs(program_files@, java_vendors().take(i as int)),
        decreases 7 - i,
    {
        let vendor = java_vendor(i);
        let base = match program_files.try_clone() {
            Some(w) => w,
            None => {
                return result;
            },
        };
        let mut directory = WidePathBuf::from_wide_string(base);
        let ghost prev = wide_views(result@);
        proof {
            assert(java_vendors().take(i + 1).drop_last() =~= java_vendors().take(i as int));
        }
        if directory.push_path_component_str(vendor) {
            result.push(directory.into_wide_string());
            assert(wide_views(result@) =~= prev.push(join_component(program_files@, utf16_encode(vendor@))));
        }
        i = i + 1;
    }
    assert(java_vendors().take(7) =~= java_vendors());
    result
}

/// Index of the first `;` in `p`, or `p.len()` when there is none.
pub open spec fn first_separator(p: Seq<u16>) -> int
    decreases p.len(),
{
    if p.len() == 0 {
        0
    } else if p[0] == 59 {
        0
    } else {
        1 + first_separator(p.drop_first())
    }
}

/// The first `;` lies within the list.
pub proof fn lemma_first_separator_bounds(p: Seq<u16>)
    ensures
        0 <= first_separator(p) <= p.len(),
    decreases p.len(),
{
    if p.len() > 0 && p[0] != 59 {
        lemma_first_separator_bounds(p.drop_first());
    }
}

/// `first_separator` is the first index holding `;`.
proof fn lemma_first_separator_at(p: Seq<u16>, m: int)
    requires
        0 <= m <= p.len(),
        forall|k: int| 0 <= k < m ==> p[k] != 59,
        m == p.len() || p[m] == 59,
    ensures
        first_separator(p) == m,
    decreases m,
{
    if m > 0 {
        lemma_first_separator_at(p.drop_first(), m - 1);
    }
}

/// The entries of a `;`-separated list, in order; a trailing `;` adds no
/// entry.
pub open spec fn path_entries(p: Seq<u16>) -> Seq<Seq<u16>>
    decreases p.len(),
{
    if p.len() == 0 {
        Seq::empty()
    } else {
        let k = first_separator(p);
        proof {
            lemma_first_separator_bounds(p);
        }
        if k >= p.len() {
            seq![p]
        } else {
            seq![p.take(k)] + path_entries(p.skip(k + 1))
        }
    }
}

/// `\Common Files\Oracle\Java\`: directories below it hold only Oracle's
/// launcher stubs, which the search skips.
pub open spec fn oracle_java_dir() -> Seq<u16> {
    utf16_encode("\\Common Files\\Oracle\\Java\\"@)
}

/// The executable that one PATH entry contributes: the entry without
/// surrounding whitespace, joined with the executable name, unless the entry
/// is blank, the path does not fit, or it lies below Oracle's stub directory.
pub open spec fn path_candidate(entry: Seq<u16>, java_executable_name: Seq<char>) -> Option<Seq<u16>> {
    let t = trimmed(entry);
    if t.len() == 0 {
        None
    } else {
        match join_components(t, seq![utf16_encode(java_executable_name)]) {
            Some(c) => if contains_run(c, oracle_java_dir()) {
                None
            } else {
                Some(c)
            },
            None => None,
        }
    }
}

/// The executables that a list of PATH entries contributes, in order.
pub open spec fn path_candidates(entries: Seq<Seq<u16>>, java_executable_name: Seq<char>) -> Seq<Seq<u16>>
    decreases entries.len(),
{
    if entries.len() == 0 {
        Seq::empty()
    } else {
        let rest = path_candidates(entries.drop_first(), java_executable_name);
        match path_candidate(entries[0], java_executable_name) {
            Some(c) => seq![c] + rest,
            None => rest,
        }
    }
}

/// What is left of `p` from position `start` on.
spec fn remaining_path(p: Seq<u16>, start: int) -> Seq<u16> {
    if start >= p.len() {
        Seq::empty()
    } else {
        p.skip(start)
    }
}

/// The Java executables that the directories of a `;`-separated search path
/// contribute, in order.
pub fn search_java_in_path(path: &[u16], java_executable_name: &str) -> (r: Vec<WideString>)
    ensures
        wide_views(r@) == path_candidates(path_entries(path@), java_executable_name@),
{
    let oracle_text = "\\Common Files\\Oracle\\Java\\";
    proof {
        reveal_strlit("\\Common Files\\Oracle\\Java\\");
        lemma_utf16_encode_len(oracle_text@);
    }
    let oracle = match WideString::from_str(oracle_text) {
        Some(w) => w,
        None => {
            return Vec::new();
        },
    };
    let ghost exe = java_executable_name@;
    let ghost all = path_candidates(path_entries(path@), exe);
    let mut result: Vec<WideString> = Vec::new();
    let n = path.len();
    let mut start: usize = 0;
    assert(remaining_path(path@, 0) =~= path@);
    while start < n
        invariant
            n == path@.len(),
            start <= n,
            exe == java_executable_name@,
            oracle@ == oracle_java_dir(),
            wide_views(result@) + path_candidates(path_entries(remaining_path(path@, start as int)), exe) == all,
        decreases n + 1 - start,
    {
        let mut end = start;
        while end < n && path[end] != 59
            invariant
                start <= end <= n,
                n == path@.len(),
                forall|k: int| start <= k < end ==> path@[k] != 59,
            decreases n - end,
        {
            end = end + 1;
        }
        let next: usize = if end < n { end + 1 } else { n };
        let ghost rest = path@.skip(start as int);
        let ghost raw = path@.subrange(start as int, end as int);
        let ghost tail = path_candidates(path_entries(remaining_path(path@, next as int)), exe);
        let ghost cand = path_candidate(raw, exe);
        proof {
            lemma_first_separator_at(rest, end - start);
            assert(rest.take(end - start) =~= raw);
            if end < n {
                assert(rest.skip(end - start + 1) =~= remaining_path(path@, next as int));
            } else {
                assert(remaining_path(path@, next as int) =~= Seq::<u16>::empty());
                assert(rest.take(end - start) =~= rest);
            }
            assert(remaining_path(path@, start as int) == rest);
            let entries = path_entries(rest);
            assert(entries[0] == raw);
            assert(entries.drop_first() =~= path_entries(remaining_path(path@, next as int)));
            assert(path_candidates(entries, exe) == match cand {
                Some(c) => seq![c] + tail,
                None => tail,
            });
        }
        let entry = trim_wide_whitespace(slice_subrange(path, start, end));
        proof {
            lemma_join_one(entry@, utf16_encode(exe));
        }
        let ghost prev = wide_views(result@);
        let mut pushed = false;
        if entry.len() > 0 {
            if let Some(mut candidate) = WidePathBuf::from_utf16(entry) {
                if candidate.push_path_component_str(java_executable_name) {
                    let candidate = candidate.into_wide_string();
                    if !wide_contains(candidate.as_slice(), oracle.as_slice()) {
                        assert(cand == Some(candidate@));
                        result.push(candidate);
                        pushed = true;
                        proof {
                            assert(wide_views(result@) =~= prev.push(candidate@));
                            assert(prev.push(candidate@) + tail =~= prev + (seq![candidate@] + tail));
                        }
                    }
                }
            }
        }
        proof {
            if !pushed {
                assert(cand is None);
                assert(wide_views(result@) == prev);
            }
        }
        start = next;
    }
    assert(path_entries(remaining_path(path@, start as int)) =~= Seq::<Seq<u16>>::empty());
    assert(wide_views(result@) + Seq::<Seq<u16>>::empty() =~= wide_views(result@));
    result
}

/// The JVM options used when the user gives none.
pub open spec fn default_jvm_options() -> Seq<u16> {
    utf16_encode(" -Xmx1G -XX:MinHeapFreeRatio=5 -XX:MaxHeapFreeRatio=15"@)
}

/// The command line that starts the jar: the quoted executable, the JVM
/// options (the user's after one space, or the defaults), then
/// ` -jar "<jar>"`.
pub open spec fn command_line(java_executable: Seq<u16>, jvm_options: Option<Seq<u16>>, jar_path: Seq<u16>) -> Seq<u16> {
    seq![34u16] + java_executable + seq![34u16] + match jvm_options {
        Some(o) => seq![32u16] + o,
        None => default_jvm_options(),
    } + utf16_encode(" -jar \""@) + jar_path + seq![34u16]
}

/// The JVM options of `options` as code units.
pub open spec fn jvm_options_view(options: &JavaOptions) -> Option<Seq<u16>> {
    match options.jvm_options {
        Some(o) => Some(o@),
        None => None,
    }
}

/// Build the command line that runs the launcher's jar with the given Java
/// executable; `None` when it does not fit the buffer's limits.
pub fn jvm_command_line(java_executable_path: &WideString, options: &JavaOptions) -> (r: Option<WideString>)
    ensures
        r is Some <==> command_line(java_executable_path@, jvm_options_view(options), options.jar_path@).len() < usize::MAX,
        r matches Some(w) ==> w@ == command_line(java_executable_path@, jvm_options_view(options), options.jar_path@),
{
    let ghost total = command_line(java_executable_path@, jvm_options_view(options), options.jar_path@);
    let ghost options_part = match jvm_options_view(options) {
        Some(o) => seq![32u16] + o,
        None => default_jvm_options(),
    };
    let ghost jar_part = utf16_encode(" -jar \""@);
    let ghost q = seq![34u16];
    let ghost exe = java_executable_path@;
    let ghost jar = options.jar_path@;
    assert(total =~= q + exe + q + options_part + jar_part + jar + q);
    let mut command = WideString::new();
    if !command.push_char('"') {
        return None;
    }
    assert(command@ =~= q);
    if !command.push_slice(java_executable_path.as_slice()) {
        return None;
    }
    if !command.push_char('"') {
        return None;
    }
    assert(command@ =~= q + exe + q);
    match &options.jvm_options {
        Some(jvm_options) => {
            if !command.push_char(' ') {
                return None;
            }
            if !command.push_slice(jvm_options.as_slice()) {
                return None;
            }
            assert(command@ =~= q + exe + q + options_part);
        },
        None => {
            if !command.push_str(" -Xmx1G -XX:MinHeapFreeRatio=5 -XX:MaxHeapFreeRatio=15") {
                return None;
            }
            assert(command@ =~= q + exe + q + options_part);
        },
    }
    if !command.push_str(" -jar \"") {
        return None;
    }
    if !command.push_slice(options.jar_path.as_slice()) {
        return None;
    }
    if !command.push_char('"') {
        return None;
    }
    assert(command@ =~= total);
    Some(command)
}

/// A version as one number: major, minor, build and revision as the digits
/// of a base-65536 numeral, most significant first.
pub open spec fn version_number(v: JavaVersion) -> int {
    v.major * 0x1_0000_0000_0000 + v.minor * 0x1_0000_0000 + v.build * 0x1_0000 + v.revision
}

/// Versions are ordered as the numbers their four parts spell: a version is
/// at most another exactly when its number is, and the three-way comparison
/// answers `Less`, `Equal` or `Greater` as the numbers compare.
pub proof fn lemma_version_order_is_numeric(a: JavaVersion, b: JavaVersion)
    ensures
        version_le(a, b) == (version_number(a) <= version_number(b)),
        (version_ordering(a, b) == Ordering::Less) == (version_number(a) < version_number(b)),
        (version_ordering(a, b) == Ordering::Equal) == (version_number(a) == version_number(b)),
        (version_ordering(a, b) == Ordering::Greater) == (version_number(a) > version_number(b)),
{
}

/// A runtime is acceptable exactly when its major version is 17 or later;
/// in particular a later major version is never refused where an earlier
/// one is accepted.
pub proof fn lemma_acceptable_from_seventeen(a: JavaVersion, b: JavaVersion)
    ensures
        version_acceptable(a) == (a.major >= 17),
        version_acceptable(a) && a.major <= b.major ==> version_acceptable(b),
{
}

/// A successful join ends below `usize::MAX` code units.
proof fn lemma_join_components_len(base: Seq<u16>, components: Seq<Seq<u16>>)
    ensures
        join_components(base, components) matches Some(p) ==> p.len() < usize::MAX,
    decreases components.len(),
{
    if components.len() > 0 {
        lemma_join_components_len(base, components.drop_last());
    }
}

/// Joining two lists of components one after the other is joining the
/// first list, then the second onto the result.
pub proof fn lemma_join_components_concat(base: Seq<u16>, first: Seq<Seq<u16>>, second: Seq<Seq<u16>>)
    ensures
        join_components(base, first + second) == match join_components(base, first) {
            Some(p) => join_components(p, second),
            None => None,
        },
    decreases second.len(),
{
    if second.len() == 0 {
        assert(first + second =~= first);
        lemma_join_components_len(base, first);
    } else {
        lemma_join_components_concat(base, first, second.drop_last());
        assert((first + second).drop_last() =~= first + second.drop_last());
        assert((first + second).last() == second.last());
    }
}

/// Every directory entry except `.` and `..` contributes
/// `basedir\<entry>\bin\<executable name>` when that path fits; `.` and
/// `..` contribute nothing.
pub proof fn lemma_dir_entry_skips_only_dots(basedir: Seq<u16>, entry_name: Seq<u16>, java_executable_name: Seq<char>)
    ensures
        entry_name != seq![46u16] && entry_name != seq![46u16, 46u16] ==> dir_entry_executable_path(
            basedir,
            entry_name,
            java_executable_name,
        ) == join_components(basedir, seq![entry_name, utf16_encode("bin"@), utf16_encode(java_executable_name)]),
        entry_name == seq![46u16] || entry_name == seq![46u16, 46u16] ==> dir_entry_executable_path(
            basedir,
            entry_name,
            java_executable_name,
        ) is None,
{
    let rest = seq![utf16_encode("bin"@), utf16_encode(java_executable_name)];
    lemma_join_components_concat(basedir, seq![entry_name], rest);
    assert(seq![entry_name] + rest =~= seq![entry_name, utf16_encode("bin"@), utf16_encode(java_executable_name)]);
}

/// The code units of `\Common Files\Oracle\Java\`.
proof fn lemma_oracle_java_dir_units()
    ensures
        oracle_java_dir() == seq![
            92u16, 67, 111, 109, 109, 111, 110, 32, 70, 105, 108, 101, 115, 92, 79, 114, 97, 99, 108, 101,
            92, 74, 97, 118, 97, 92,
        ],
{
    reveal_strlit("\\Common Files\\Oracle\\Java\\");
    reveal_with_fuel(utf16_encode, 30);
    assert(oracle_java_dir() =~= seq![
        92u16, 67, 111, 109, 109, 111, 110, 32, 70, 105, 108, 101, 115, 92, 79, 114, 97, 99, 108, 101,
        92, 74, 97, 118, 97, 92,
    ]);
}

/// A PATH entry yields the trimmed entry joined with the executable name,
/// and it is skipped only when it is blank, the path does not fit, or the
/// path lies below `\Common Files\Oracle\Java\`, Oracle's directory of
/// launcher stubs.
pub proof fn lemma_path_entry_skipped_only_for_oracle_stubs(entry: Seq<u16>, java_executable_name: Seq<char>)
    ensures
        ({
            let stub_dir = seq![
                92u16, 67, 111, 109, 109, 111, 110, 32, 70, 105, 108, 101, 115, 92, 79, 114, 97, 99, 108, 101,
                92, 74, 97, 118, 97, 92,
            ];
            let t = trimmed(entry);
            let joined = join_components(t, seq![utf16_encode(java_executable_name)]);
            &&& path_candidate(entry, java_executable_name) matches Some(c) ==> joined == Some(c)
                && !contains_run(c, stub_dir)
            &&& (t.len() > 0 && (joined matches Some(c) && !contains_run(c, stub_dir))) ==> path_candidate(
                entry,
                java_executable_name,
            ) == joined
        }),
{
    lemma_oracle_java_dir_units();
}

} // verus!
