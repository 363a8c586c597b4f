use vstd::prelude::*;
use vstd::slice::slice_subrange;

verus! {

broadcast use vstd::string::axiom_spec_iter;

/// UTF-16 code units of one Unicode scalar value.
pub open spec fn char_utf16(c: char) -> Seq<u16> {
    let v = c as int;
    if v < 0x10000 {
        seq![v as u16]
    } else {
        seq![(0xD800 + (v - 0x10000) / 0x400) as u16, (0xDC00 + (v - 0x10000) % 0x400) as u16]
    }
}

/// UTF-16 encoding of a sequence of Unicode scalar values.
pub open spec fn utf16_encode(s: Seq<char>) -> Seq<u16>
    decreases s.len(),
{
    if s.len() == 0 {
        Seq::empty()
    } else {
        utf16_encode(s.drop_last()) + char_utf16(s.last())
    }
}

/// Encoding distributes over concatenation.
pub proof fn lemma_utf16_encode_append(a: Seq<char>, b: Seq<char>)
    ensures
        utf16_encode(a + b) == utf16_encode(a) + utf16_encode(b),
    decreases b.len(),
{
    if b.len() == 0 {
        assert(a + b =~= a);
        assert(utf16_encode(a) + utf16_encode(b) =~= utf16_encode(a));
    } else {
        lemma_utf16_encode_append(a, b.drop_last());
        assert((a + b).drop_last() =~= a + b.drop_last());
        assert((a + b).last() == b.last());
        assert(utf16_encode(a) + utf16_encode(b) =~= utf16_encode(a) + utf16_encode(b.drop_last())
            + char_utf16(b.last()));
    }
}

/// Every scalar value takes one or two code units.
pub proof fn lemma_utf16_encode_len(s: Seq<char>)
    ensures
        s.len() <= utf16_encode(s).len() <= 2 * s.len(),
    decreases s.len(),
{
    if s.len() > 0 {
        lemma_utf16_encode_len(s.drop_last());
    }
}

/// Encoding the first `i + 1` scalar values appends the encoding of the next one.
proof fn lemma_utf16_encode_take_step(s: Seq<char>, i: int)
    requires
        0 <= i < s.len(),
    ensures
        utf16_encode(s.take(i + 1)) == utf16_encode(s.take(i)) + char_utf16(s[i]),
{
    assert(s.take(i + 1).drop_last() =~= s.take(i));
}

/// The encoding of a prefix is a prefix of the encoding.
proof fn lemma_utf16_encode_take_prefix(s: Seq<char>, i: int)
    requires
        0 <= i <= s.len(),
    ensures
        utf16_encode(s) == utf16_encode(s.take(i)) + utf16_encode(s.skip(i)),
{
    assert(s =~= s.take(i) + s.skip(i));
    lemma_utf16_encode_append(s.take(i), s.skip(i));
}

/// Encode one scalar value as one or two UTF-16 code units.
fn encode_char(c: char) -> (r: (u16, u16, usize))
    ensures
        r.2 == char_utf16(c).len(),
        r.0 == char_utf16(c)[0],
        r.2 == 2 ==> r.1 == char_utf16(c)[1],
{
    let v = c as u32;
    if v < 0x10000 {
        (v as u16, 0, 1)
    } else {
        let w = v - 0x10000;
        ((0xD800 + w / 0x400) as u16, (0xDC00 + w % 0x400) as u16, 2)
    }
}

/// Number of UTF-16 code units that encode `value`; `usize::MAX` stands for
/// every count that does not fit below it.
fn count_units(value: &str) -> (n: usize)
    ensures
        n == utf16_encode(value@).len() || (n == usize::MAX && utf16_encode(value@).len()
            >= usize::MAX),
{
    let mut n: usize = 0;
    let ghost mut done: Seq<char> = Seq::empty();
    for c in it: value.chars()
        invariant
            it.seq() == value@,
            done == value@.take(it.index() as int),
            n == utf16_encode(done).len() || (n == usize::MAX && utf16_encode(done).len()
                >= usize::MAX),
    {
        proof {
            lemma_utf16_encode_take_step(value@, it.index() as int);
            done = value@.take(it.index() + 1);
        }
        let (_, _, k) = encode_char(c);
        if n < usize::MAX - k {
            n = n + k;
        } else {
            n = usize::MAX;
        }
    }
    assert(done =~= value@);
    n
}

/// A buffer that holds `len` code units followed by a NUL, or no allocation at all.
spec fn buffer_ok(d: Seq<u16>, len: usize) -> bool {
    &&& d.len() <= usize::MAX
    &&& if d.len() == 0 {
        len == 0
    } else {
        len < d.len() && d[len as int] == 0
    }
}

/// Grow `data` so that it holds `required` code units and a NUL.
fn reserve_buffer(data: &mut Vec<u16>, len: usize, required: usize) -> (r: bool)
    requires
        buffer_ok(old(data)@, len),
    ensures
        r == (required < usize::MAX),
        final(data)@.len() >= old(data)@.len(),
        buffer_ok(final(data)@, len),
        final(data)@.subrange(0, len as int) == old(data)@.subrange(0, len as int),
        r ==> final(data)@.len() > required,
{
    if required == usize::MAX {
        return false;
    }
    let units = required + 1;
    if data.len() < units {
        let ghost before = data@;
        data.resize(units, 0);
        proof {
            assert(data@.subrange(0, before.len() as int) == before);
            if before.len() == 0 {
                assert(data@[0] == 0);
            } else {
                assert(data@[len as int] == before[len as int]);
            }
            assert(data@.subrange(0, len as int) =~= before.subrange(0, len as int));
        }
    } else if data.len() > 0 {
        data.set(len, 0);
        assert(data@.subrange(0, len as int) =~= old(data)@.subrange(0, len as int));
    }
    true
}

/// Owned UTF-16 storage that always keeps one trailing NUL for Win32 APIs.
pub struct WideString {
    data: Vec<u16>,
    len: usize,
}

impl View for WideString {
    type V = Seq<u16>;

    closed spec fn view(&self) -> Seq<u16> {
        self.data@.subrange(0, self.len as int)
    }
}

impl WideString {
    #[verifier::type_invariant]
    closed spec fn wf(self) -> bool {
        buffer_ok(self.data@, self.len)
    }

    /// How many code units the allocated buffer holds, the trailing NUL
    /// included; 0 when nothing is allocated.
    pub closed spec fn capacity(&self) -> nat {
        self.data@.len()
    }

    /// Create an empty UTF-16 buffer with no heap allocation.
    pub fn new() -> (r: Self)
        ensures
            r@ == Seq::<u16>::empty(),
            r.capacity() == 0,
    {
        WideString { data: Vec::new(), len: 0 }
    }

    /// Take the buffer apart, leaving an empty string in its place.
    fn take_parts(&mut self) -> (r: (Vec<u16>, usize))
        ensures
            buffer_ok(r.0@, r.1),
            r.1 == old(self)@.len(),
            r.0@.len() == old(self).capacity(),
            r.0@.subrange(0, r.1 as int) == old(self)@,
            final(self)@ == Seq::<u16>::empty(),
    {
        proof {
            use_type_invariant(&*self);
        }
        let mut tmp = WideString::new();
        core::mem::swap(self, &mut tmp);
        let WideString { data, len } = tmp;
        (data, len)
    }

    /// Build a UTF-16 string by encoding UTF-8 input.
    pub fn from_str(value: &str) -> (r: Option<Self>)
        ensures
            r is Some <==> utf16_encode(value@).len() < usize::MAX,
            r matches Some(s) ==> s@ == utf16_encode(value@),
    {
        let mut output = Self::new();
        if output.push_str(value) {
            assert(Seq::<u16>::empty() + utf16_encode(value@) =~= utf16_encode(value@));
            Some(output)
        } else {
            None
        }
    }

    /// Copy an existing UTF-16 slice into owned storage.
    pub fn from_utf16(value: &[u16]) -> (r: Option<Self>)
        ensures
            r is Some <==> value@.len() < usize::MAX,
            r matches Some(s) ==> s@ == value@,
    {
        let mut output = Self::new();
        if output.push_slice(value) {
            assert(Seq::<u16>::empty() + value@ =~= value@);
            Some(output)
        } else {
            None
        }
    }

    /// Return the length without the trailing NUL terminator.
    pub fn len(&self) -> (n: usize)
        ensures
            n == self@.len(),
            n < usize::MAX,
    {
        proof {
            use_type_invariant(self);
        }
        self.len
    }

    /// Report whether the logical string is empty.
    pub fn is_empty(&self) -> (r: bool)
        ensures
            r == (self@.len() == 0),
    {
        proof {
            use_type_invariant(self);
        }
        self.len == 0
    }

    /// Borrow the initialized UTF-16 contents without the trailing terminator.
    pub fn as_slice(&self) -> (r: &[u16])
        ensures
            r@ == self@,
            self@.len() < usize::MAX,
    {
        proof {
            use_type_invariant(self);
        }
        slice_subrange(self.data.as_slice(), 0, self.len)
    }

    /// Borrow the contents together with the trailing NUL, when a buffer is
    /// allocated and the string is not empty.
    pub fn as_nul_terminated(&self) -> (r: Option<&[u16]>)
        ensures
            r is None <==> self@.len() == 0,
            r matches Some(s) ==> s@ == self@.push(0),
    {
        proof {
            use_type_invariant(self);
        }
        if self.len == 0 {
            None
        } else {
            let s = slice_subrange(self.data.as_slice(), 0, self.len + 1);
            assert(s@ =~= self@.push(0));
            Some(s)
        }
    }

    /// Clone the string into a second heap-backed buffer.
    pub fn try_clone(&self) -> (r: Option<Self>)
        ensures
            r matches Some(s) && s@ == self@,
    {
        proof {
            use_type_invariant(self);
        }
        Self::from_utf16(self.as_slice())
    }

    /// Compare the UTF-16 string with a UTF-8 string without allocating.
    pub fn equals_str(&self, other: &str) -> (r: bool)
        ensures
            r == (self@ == utf16_encode(other@)),
    {
        proof {
            use_type_invariant(self);
        }
        let mut pos: usize = 0;
        let ghost mut done: Seq<char> = Seq::empty();
        for c in it: other.chars()
            invariant
                it.seq() == other@,
                done == other@.take(it.index() as int),
                buffer_ok(self.data@, self.len),
                pos == utf16_encode(done).len(),
                pos <= self.len,
                self@.subrange(0, pos as int) == utf16_encode(done),
        {
            let ghost i = it.index() as int;
            proof {
                lemma_utf16_encode_take_step(other@, i);
                lemma_utf16_encode_take_prefix(other@, i + 1);
            }
            let (a, b, k) = encode_char(c);
            if k > self.len - pos {
                assert(utf16_encode(other@).len() > self@.len());
                return false;
            }
            if self.data[pos] != a {
                assert(utf16_encode(other@)[pos as int] == a);
                return false;
            }
            if k == 2 && self.data[pos + 1] != b {
                assert(utf16_encode(other@)[pos + 1] == b);
                return false;
            }
            proof {
                done = other@.take(i + 1);
                assert(self@.subrange(0, pos + k) =~= utf16_encode(done));
            }
            pos = pos + k;
        }
        assert(done =~= other@);
        if pos == self.len {
            assert(self@ =~= self@.subrange(0, pos as int));
            true
        } else {
            false
        }
    }

    /// Reset the logical length while preserving any existing allocation.
    pub fn clear(&mut self)
        ensures
            final(self)@ == Seq::<u16>::empty(),
            final(self).capacity() == old(self).capacity(),
    {
        let (mut data, _) = self.take_parts();
        if data.len() > 0 {
            data.set(0, 0);
        }
        *self = WideString { data, len: 0 };
    }

    /// Ensure the buffer can hold `required` code units plus one trailing NUL.
    pub fn reserve_exact(&mut self, required: usize) -> (r: bool)
        ensures
            r == (required < usize::MAX),
            final(self)@ == old(self)@,
            r ==> final(self).capacity() > required,
            final(self).capacity() >= old(self).capacity(),
    {
        let (mut data, len) = self.take_parts();
        let r = reserve_buffer(&mut data, len, required);
        *self = WideString { data, len };
        r
    }

    /// Append a single Unicode scalar value.
    pub fn push_char(&mut self, value: char) -> (r: bool)
        ensures
            r == (old(self)@.len() + char_utf16(value).len() < usize::MAX),
            r ==> final(self)@ == old(self)@ + char_utf16(value),
            !r ==> final(self)@ == old(self)@,
    {
        let (a, b, k) = encode_char(value);
        let mut units: Vec<u16> = Vec::new();
        units.push(a);
        if k == 2 {
            units.push(b);
        }
        assert(units@ =~= char_utf16(value));
        self.push_slice(units.as_slice())
    }

    /// Append raw UTF-16 code units.
    pub fn push_slice(&mut self, value: &[u16]) -> (r: bool)
        ensures
            r == (old(self)@.len() + value@.len() < usize::MAX),
            r ==> final(self)@ == old(self)@ + value@,
            !r ==> final(self)@ == old(self)@,
    {
        proof {
            use_type_invariant(&*self);
        }
        if value.len() == 0 {
            assert(old(self)@ + value@ =~= old(self)@);
            return true;
        }
        let required = match self.len.checked_add(value.len()) {
            Some(n) => n,
            None => {
                return false;
            },
        };
        let ghost before = self@;
        let (mut data, len) = self.take_parts();
        if !reserve_buffer(&mut data, len, required) {
            *self = WideString { data, len };
            return false;
        }
        let mut i: usize = 0;
        while i < value.len()
            invariant
                i <= value@.len(),
                required == len + value@.len(),
                data@.len() > required,
                data@.len() <= usize::MAX,
                data@.subrange(0, len + i) == before + value@.subrange(0, i as int),
            decreases value@.len() - i,
        {
            let ghost prev = data@;
            data.set(len + i, value[i]);
            assert(data@.subrange(0, len + i + 1) =~= before + value@.subrange(0, i + 1)) by {
                assert(data@.subrange(0, len + i) =~= prev.subrange(0, len + i));
            }
            i = i + 1;
        }
        data.set(required, 0);
        assert(data@.subrange(0, required as int) =~= before + value@) by {
            assert(value@.subrange(0, value@.len() as int) =~= value@);
        }
        *self = WideString { data, len: required };
        true
    }

    /// Append a UTF-8 string after encoding it to UTF-16.
    pub fn push_str(&mut self, value: &str) -> (r: bool)
        ensures
            r == (old(self)@.len() + utf16_encode(value@).len() < usize::MAX),
            r ==> final(self)@ == old(self)@ + utf16_encode(value@),
            !r ==> final(self)@ == old(self)@,
    {
        proof {
            use_type_invariant(&*self);
        }
        let additional = count_units(value);
        let required = match self.len.checked_add(additional) {
            Some(n) => n,
            None => {
                return false;
            },
        };
        let ghost before = self@;
        let (mut data, len) = self.take_parts();
        if !reserve_buffer(&mut data, len, required) {
            *self = WideString { data, len };
            return false;
        }
        let ghost total = utf16_encode(value@);
        assert(additional < usize::MAX);
        assert(additional == total.len());
        let mut offset = len;
        let ghost mut done: Seq<char> = Seq::empty();
        for c in it: value.chars()
            invariant
                it.seq() == value@,
                done == value@.take(it.index() as int),
                total == utf16_encode(value@),
                required == len + total.len(),
                data@.len() > required,
                data@.len() <= usize::MAX,
                offset == len + utf16_encode(done).len(),
                data@.subrange(0, offset as int) == before + utf16_encode(done),
        {
            let ghost i = it.index() as int;
            proof {
                lemma_utf16_encode_take_step(value@, i);
                lemma_utf16_encode_take_prefix(value@, i + 1);
                done = value@.take(i + 1);
            }
            let (a, b, k) = encode_char(c);
            let ghost prev = data@;
            data.set(offset, a);
            if k == 2 {
                data.set(offset + 1, b);
            }
            assert(data@.subrange(0, offset + k) =~= before + utf16_encode(done)) by {
                assert(data@.subrange(0, offset as int) =~= prev.subrange(0, offset as int));
            }
            offset = offset + k;
        }
        assert(done =~= value@);
        data.set(required, 0);
        assert(data@.subrange(0, required as int) =~= before + total);
        *self = WideString { data, len: required };
        true
    }
}

/// Whether a UTF-16 code unit is a Unicode scalar value with the White_Space property.
pub open spec fn is_white_space_unit(u: u16) -> bool {
    ||| 0x09 <= u <= 0x0D
    ||| u == 0x20
    ||| u == 0x85
    ||| u == 0xA0
    ||| u == 0x1680
    ||| 0x2000 <= u <= 0x200A
    ||| u == 0x2028
    ||| u == 0x2029
    ||| u == 0x202F
    ||| u == 0x205F
    ||| u == 0x3000
}

/// Whether `needle` occurs as a contiguous run inside `haystack`.
pub open spec fn contains_run(haystack: Seq<u16>, needle: Seq<u16>) -> bool {
    exists|i: int|
        0 <= i <= haystack.len() - needle.len() && #[trigger] haystack.subrange(i, i + needle.len())
            == needle
}

/// `value` without its leading whitespace.
pub open spec fn trim_front(value: Seq<u16>) -> Seq<u16>
    decreases value.len(),
{
    if value.len() > 0 && is_white_space_unit(value[0]) {
        trim_front(value.drop_first())
    } else {
        value
    }
}

/// `value` without its trailing whitespace.
pub open spec fn trim_back(value: Seq<u16>) -> Seq<u16>
    decreases value.len(),
{
    if value.len() > 0 && is_white_space_unit(value.last()) {
        trim_back(value.drop_last())
    } else {
        value
    }
}

/// `value` without leading and trailing whitespace.
pub open spec fn trimmed(value: Seq<u16>) -> Seq<u16> {
    trim_back(trim_front(value))
}

/// Removing leading whitespace leaves a suffix that does not start with
/// whitespace.
proof fn lemma_trim_front(value: Seq<u16>)
    ensures
        exists|start: int| 0 <= start <= value.len() && trim_front(value) == value.subrange(start, value.len() as int)
            && forall|k: int| 0 <= k < start ==> #[trigger] is_white_space_unit(value[k]),
        trim_front(value).len() > 0 ==> !is_white_space_unit(trim_front(value)[0]),
    decreases value.len(),
{
    if value.len() > 0 && is_white_space_unit(value[0]) {
        let rest = value.drop_first();
        lemma_trim_front(rest);
        let s = choose|start: int| 0 <= start <= rest.len() && trim_front(rest) == rest.subrange(start, rest.len() as int)
            && forall|k: int| 0 <= k < start ==> #[trigger] is_white_space_unit(rest[k]);
        assert(rest.subrange(s, rest.len() as int) =~= value.subrange(s + 1, value.len() as int));
        assert forall|k: int| 0 <= k < s + 1 implies #[trigger] is_white_space_unit(value[k]) by {
            if k > 0 {
                assert(value[k] == rest[k - 1]);
            }
        }
    } else {
        assert(value.subrange(0, value.len() as int) =~= value);
    }
}

/// Removing trailing whitespace leaves a prefix that does not end with
/// whitespace.
proof fn lemma_trim_back(value: Seq<u16>)
    ensures
        exists|end: int| 0 <= end <= value.len() && trim_back(value) == value.subrange(0, end)
            && forall|k: int| end <= k < value.len() ==> #[trigger] is_white_space_unit(value[k]),
        trim_back(value).len() > 0 ==> !is_white_space_unit(trim_back(value).last()),
    decreases value.len(),
{
    if value.len() > 0 && is_white_space_unit(value.last()) {
        let rest = value.drop_last();
        lemma_trim_back(rest);
        let e = choose|end: int| 0 <= end <= rest.len() && trim_back(rest) == rest.subrange(0, end)
            && forall|k: int| end <= k < rest.len() ==> #[trigger] is_white_space_unit(rest[k]);
        assert(rest.subrange(0, e) =~= value.subrange(0, e));
        assert forall|k: int| e <= k < value.len() implies #[trigger] is_white_space_unit(value[k]) by {
            if k < rest.len() {
                assert(value[k] == rest[k]);
            }
        }
    } else {
        assert(value.subrange(0, value.len() as int) =~= value);
    }
}

/// Trimming keeps a contiguous run of the input unchanged, removes only
/// whitespace around it, and leaves no whitespace at either end.
pub proof fn lemma_trimmed_is_inner_run(value: Seq<u16>)
    ensures
        exists|start: int, end: int|
            0 <= start <= end <= value.len() && trimmed(value) == value.subrange(start, end)
                && (forall|k: int| 0 <= k < start ==> #[trigger] is_white_space_unit(value[k]))
                && (forall|k: int| end <= k < value.len() ==> #[trigger] is_white_space_unit(value[k])),
        trimmed(value).len() > 0 ==> !is_white_space_unit(trimmed(value)[0])
            && !is_white_space_unit(trimmed(value).last()),
{
    lemma_trim_front(value);
    let front = trim_front(value);
    let s = choose|start: int| 0 <= start <= value.len() && front == value.subrange(start, value.len() as int)
        && forall|k: int| 0 <= k < start ==> #[trigger] is_white_space_unit(value[k]);
    lemma_trim_back(front);
    let e = choose|end: int| 0 <= end <= front.len() && trim_back(front) == front.subrange(0, end)
        && forall|k: int| end <= k < front.len() ==> #[trigger] is_white_space_unit(front[k]);
    assert(front.subrange(0, e) =~= value.subrange(s, s + e));
    assert forall|k: int| s + e <= k < value.len() implies #[trigger] is_white_space_unit(value[k]) by {
        assert(value[k] == front[k - s]);
    }
    if trimmed(value).len() > 0 {
        assert(trimmed(value)[0] == front[0]);
    }
    assert(trimmed(value) == value.subrange(s, s + e));
}

/// Trimming twice trims no more than once.
pub proof fn lemma_trimmed_idempotent(value: Seq<u16>)
    ensures
        trimmed(trimmed(value)) == trimmed(value),
{
    lemma_trimmed_is_inner_run(value);
    let t = trimmed(value);
    if t.len() > 0 {
        assert(trim_front(t) == t);
        assert(trim_back(t) == t);
    }
}

/// Whether `haystack` holds `needle` starting at `start`.
fn window_equals(haystack: &[u16], needle: &[u16], start: usize) -> (r: bool)
    requires
        start + needle@.len() <= haystack@.len(),
    ensures
        r == (haystack@.subrange(start as int, start + needle@.len()) == needle@),
{
    let hl = haystack.len();
    let mut j: usize = 0;
    while j < needle.len()
        invariant
            hl == haystack@.len(),
            j <= needle@.len(),
            start + needle@.len() <= haystack@.len(),
            haystack@.subrange(start as int, start + j) == needle@.subrange(0, j as int),
        decreases needle@.len() - j,
    {
        if haystack[start + j] != needle[j] {
            assert(haystack@.subrange(start as int, start + needle@.len())[j as int] != needle@[j as int]);
            return false;
        }
        assert(haystack@.subrange(start as int, start + j + 1) =~= needle@.subrange(0, j + 1));
        j = j + 1;
    }
    assert(needle@.subrange(0, j as int) =~= needle@);
    true
}

/// Search for one UTF-16 slice inside another.
pub fn wide_contains(haystack: &[u16], needle: &[u16]) -> (r: bool)
    ensures
        r == contains_run(haystack@, needle@),
{
    if needle.len() == 0 {
        assert(haystack@.subrange(0int, 0int + needle@.len()) =~= needle@);
        return true;
    }
    if needle.len() > haystack.len() {
        return false;
    }
    let last = haystack.len() - needle.len();
    let mut i: usize = 0;
    while i <= last
        invariant
            i <= last + 1,
            last == haystack@.len() - needle@.len(),
            last < usize::MAX,
            forall|k: int| 0 <= k < i ==> #[trigger] haystack@.subrange(k, k + needle@.len()) != needle@,
        decreases last + 1 - i,
    {
        if window_equals(haystack, needle, i) {
            assert(haystack@.subrange(i as int, i + needle@.len()) == needle@);
            return true;
        }
        i = i + 1;
    }
    false
}

/// Trim leading and trailing Unicode whitespace from a UTF-16 slice.
pub fn trim_wide_whitespace(value: &[u16]) -> (r: &[u16])
    ensures
        r@ == trimmed(value@),
{
    let mut start: usize = 0;
    let end0 = value.len();
    assert(value@.subrange(0, end0 as int) =~= value@);
    while start < end0 && wide_is_whitespace(value[start])
        invariant
            start <= end0,
            end0 == value@.len(),
            trim_front(value@) == trim_front(value@.subrange(start as int, end0 as int)),
        decreases end0 - start,
    {
        assert(value@.subrange(start + 1, end0 as int) =~= value@.subrange(start as int, end0 as int).drop_first());
        start = start + 1;
    }
    let ghost front = value@.subrange(start as int, end0 as int);
    assert(trim_front(value@) == front);
    let mut end = end0;
    while end > start && wide_is_whitespace(value[end - 1])
        invariant
            start <= end <= end0,
            end0 == value@.len(),
            front == value@.subrange(start as int, end0 as int),
            trim_back(front) == trim_back(value@.subrange(start as int, end as int)),
        decreases end - start,
    {
        assert(value@.subrange(start as int, end - 1) =~= value@.subrange(start as int, end as int).drop_last());
        end = end - 1;
    }
    slice_subrange(value, start, end)
}

/// Match the pseudo-directory names that must be skipped during enumeration.
pub fn is_dot_or_dot_dot(value: &[u16]) -> (r: bool)
    ensures
        r == (value@ == seq![46u16] || value@ == seq![46u16, 46u16]),
{
    let ghost one = seq![46u16];
    let ghost two = seq![46u16, 46u16];
    if value.len() == 1 {
        let r = value[0] == 46;
        proof {
            if r {
                assert(value@ =~= one);
            } else {
                assert(one[0] == 46);
            }
        }
        r
    } else if value.len() == 2 {
        let r = value[0] == 46 && value[1] == 46;
        proof {
            if r {
                assert(value@ =~= two);
            } else {
                assert(two[0] == 46 && two[1] == 46);
            }
        }
        r
    } else {
        false
    }
}

/// Treat a UTF-16 code unit as whitespace when it is a scalar value with the
/// White_Space property.
fn wide_is_whitespace(value: u16) -> (r: bool)
    ensures
        r == is_white_space_unit(value),
{
    (0x09 <= value && value <= 0x0D) || value == 0x20 || value == 0x85 || value == 0xA0
        || value == 0x1680 || (0x2000 <= value && value <= 0x200A) || value == 0x2028
        || value == 0x2029 || value == 0x202F || value == 0x205F || value == 0x3000
}

} // verus!
