use vstd::prelude::*;

use crate::wide::{utf16_encode, lemma_utf16_encode_len, WideString};

verus! {

/// Whether a path ends with `\` or `/`.
pub open spec fn ends_with_separator(path: Seq<u16>) -> bool {
    path.len() > 0 && (path.last() == 92 || path.last() == 47)
}

/// The path followed by `\`, unless it is empty or already ends with a separator.
pub open spec fn with_separator(path: Seq<u16>) -> Seq<u16> {
    if path.len() == 0 || ends_with_separator(path) {
        path
    } else {
        path.push(92)
    }
}

/// The path with one component appended; an empty component leaves it unchanged.
pub open spec fn join_component(path: Seq<u16>, component: Seq<u16>) -> Seq<u16> {
    if component.len() == 0 {
        path
    } else {
        with_separator(path) + component
    }
}

/// What a failed append leaves behind: the separator stays when it fit.
pub open spec fn join_component_failed(path: Seq<u16>) -> Seq<u16> {
    if with_separator(path).len() < usize::MAX {
        with_separator(path)
    } else {
        path
    }
}

/// Whether appending `component` to `path` fits the buffer's limits.
pub open spec fn join_component_fits(path: Seq<u16>, component: Seq<u16>) -> bool {
    component.len() == 0 || with_separator(path).len() + component.len() < usize::MAX
}

/// Adding a separator to a path that already has one changes nothing.
pub proof fn lemma_with_separator_idempotent(path: Seq<u16>)
    ensures
        with_separator(with_separator(path)) == with_separator(path),
{
}

/// A component joined to a path that ends with a separator, or to an empty
/// path, follows it directly: no separator is doubled or invented.
pub proof fn lemma_join_component_no_double_separator(path: Seq<u16>, component: Seq<u16>)
    requires
        path.len() == 0 || ends_with_separator(path),
    ensures
        join_component(path, component) == path + component,
{
    if component.len() == 0 {
        assert(path + component =~= path);
    }
}

/// Joining a non-empty component to a non-empty path puts exactly one
/// separator between them when the path lacks one.
pub proof fn lemma_join_component_inserts_separator(path: Seq<u16>, component: Seq<u16>)
    requires
        path.len() > 0,
        !ends_with_separator(path),
        component.len() > 0,
    ensures
        join_component(path, component) == path + seq![92u16] + component,
{
    assert(path.push(92) =~= path + seq![92u16]);
}

/// Owned UTF-16 storage for filesystem paths.
pub struct WidePathBuf {
    inner: WideString,
}

impl View for WidePathBuf {
    type V = Seq<u16>;

    closed spec fn view(&self) -> Seq<u16> {
        self.inner@
    }
}

impl WidePathBuf {
    /// Create an empty path buffer with no heap allocation.
    pub fn new() -> (r: Self)
        ensures
            r@ == Seq::<u16>::empty(),
    {
        Self { inner: WideString::new() }
    }

    /// Build a UTF-16 path by encoding UTF-8 input.
    pub fn from_str(value: &str) -> (r: Option<Self>)
        ensures
            r is Some <==> utf16_encode(value@).len() < usize::MAX,
            r matches Some(p) ==> p@ == utf16_encode(value@),
    {
        match WideString::from_str(value) {
            Some(inner) => Some(Self { inner }),
            None => None,
        }
    }

    /// Copy an existing UTF-16 path into owned storage.
    pub fn from_utf16(value: &[u16]) -> (r: Option<Self>)
        ensures
            r is Some <==> value@.len() < usize::MAX,
            r matches Some(p) ==> p@ == value@,
    {
        match WideString::from_utf16(value) {
            Some(inner) => Some(Self { inner }),
            None => None,
        }
    }

    /// Wrap an existing UTF-16 string whose contents represent a path.
    pub fn from_wide_string(value: WideString) -> (r: Self)
        ensures
            r@ == value@,
    {
        Self { inner: value }
    }

    /// Give back the path's contents as a plain UTF-16 string.
    pub fn into_wide_string(self) -> (r: WideString)
        ensures
            r@ == self@,
    {
        self.inner
    }

    /// Report whether the path is empty.
    pub fn is_empty(&self) -> (r: bool)
        ensures
            r == (self@.len() == 0),
    {
        self.inner.is_empty()
    }

    /// Borrow the initialized UTF-16 contents without the trailing terminator.
    pub fn as_slice(&self) -> (r: &[u16])
        ensures
            r@ == self@,
            self@.len() < usize::MAX,
    {
        self.inner.as_slice()
    }

    /// Clone the path into a second heap-backed buffer.
    pub fn try_clone(&self) -> (r: Option<Self>)
        ensures
            r matches Some(p) && p@ == self@,
    {
        match self.inner.try_clone() {
            Some(inner) => Some(Self { inner }),
            None => None,
        }
    }

    /// Append `\` when the current path does not already end with a separator.
    pub fn push_path_separator(&mut self) -> (r: bool)
        ensures
            r == (with_separator(old(self)@).len() < usize::MAX),
            r ==> final(self)@ == with_separator(old(self)@),
            !r ==> final(self)@ == old(self)@,
    {
        let s = self.inner.as_slice();
        let n = s.len();
        if n == 0 {
            return true;
        }
        let last = s[n - 1];
        if last == 92 || last == 47 {
            true
        } else {
            self.inner.push_char('\\')
        }
    }

    /// Append one UTF-16 path component, inserting a separator if required.
    pub fn push_path_component(&mut self, value: &[u16]) -> (r: bool)
        ensures
            r == join_component_fits(old(self)@, value@),
            r ==> final(self)@ == join_component(old(self)@, value@),
            !r ==> final(self)@ == join_component_failed(old(self)@),
    {
        if value.len() == 0 {
            return true;
        }
        self.push_path_separator() && self.inner.push_slice(value)
    }

    /// Append one UTF-8 path component, inserting a separator if required.
    pub fn push_path_component_str(&mut self, value: &str) -> (r: bool)
        ensures
            r == join_component_fits(old(self)@, utf16_encode(value@)),
            r ==> final(self)@ == join_component(old(self)@, utf16_encode(value@)),
            !r ==> final(self)@ == join_component_failed(old(self)@),
    {
        proof {
            lemma_utf16_encode_len(value@);
        }
        if value.is_empty() {
            return true;
        }
        self.push_path_separator() && self.inner.push_str(value)
    }
}

} // verus!
