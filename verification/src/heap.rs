use vstd::prelude::*;
use core::cmp::Ordering;
use vstd::std_specs::iter::IteratorSpec;

verus! {

broadcast use vstd::seq_lib::group_to_multiset_ensures;

/// `le` is a total preorder: total and transitive.
pub open spec fn is_total_preorder<T>(le: spec_fn(T, T) -> bool) -> bool {
    &&& forall|a: T, b: T| #[trigger] le(a, b) || le(b, a)
    &&& forall|a: T, b: T, c: T| #[trigger] le(a, b) && #[trigger] le(b, c) ==> le(a, c)
}

/// Every answer of `compare` is `Greater` exactly when `le` does not hold.
pub open spec fn comparator_agrees<T, F: Fn(&T, &T) -> Ordering>(
    compare: F,
    le: spec_fn(T, T) -> bool,
) -> bool {
    forall|a: T, b: T, o: Ordering| #[trigger]
        compare.ensures((&a, &b), o) ==> (o == Ordering::Greater <==> !le(a, b))
}

/// `compare` decides the total preorder `le`.
pub open spec fn decides_order<T, F: Fn(&T, &T) -> Ordering>(
    compare: F,
    le: spec_fn(T, T) -> bool,
) -> bool {
    is_total_preorder(le) && comparator_agrees(compare, le)
}

/// `s` is in ascending order under `le`.
pub open spec fn sorted_by<T>(s: Seq<T>, le: spec_fn(T, T) -> bool) -> bool {
    forall|i: int, j: int| 0 <= i < j < s.len() ==> #[trigger] le(s[i], s[j])
}

/// `p` lists every index below `n` exactly once.
pub open spec fn is_index_permutation(p: Seq<int>, n: nat) -> bool {
    &&& p.len() == n
    &&& forall|i: int| 0 <= i < n ==> 0 <= #[trigger] p[i] < n
    &&& forall|i: int, j: int| 0 <= i < j < n ==> #[trigger] p[i] != #[trigger] p[j]
}

/// `after` holds the elements of `before` rearranged: position `i` holds the
/// element that stood at position `p[i]`.
pub open spec fn rearranged<T>(before: Seq<T>, after: Seq<T>, p: Seq<int>) -> bool {
    &&& after.len() == before.len()
    &&& is_index_permutation(p, before.len())
    &&& forall|i: int| 0 <= i < after.len() ==> #[trigger] after[i] == before[p[i]]
}

/// Elements of `s` that `le` ranks no higher than an element before them
/// came after it in the original order: `p` gives each element's original
/// position.
pub open spec fn keeps_equal_order<T>(s: Seq<T>, p: Seq<int>, le: spec_fn(T, T) -> bool) -> bool {
    forall|i: int, j: int| 0 <= i < j < s.len() && #[trigger] le(s[j], s[i]) ==> p[i] < p[j]
}

/// `keeps_equal_order` for the first `n` elements.
spec fn equal_order_prefix<T>(s: Seq<T>, p: Seq<int>, n: usize, le: spec_fn(T, T) -> bool) -> bool {
    forall|i: int, j: int| 0 <= i < j < n && #[trigger] le(s[j], s[i]) ==> p[i] < p[j]
}

/// The positions `0, 1, ..., n - 1`.
spec fn identity_positions(n: usize) -> Seq<int> {
    Seq::new(n as nat, |k: int| k)
}

/// `p` with entries `c` and `c + 1` exchanged.
spec fn swap_positions(p: Seq<int>, c: usize) -> Seq<int> {
    p.update(c as int, p[c + 1]).update(c + 1, p[c as int])
}

/// A growable array of owned values.
pub struct HeapVec<T> {
    data: Vec<T>,
    cap: usize,
}

/// Capacity `c` doubled until it reaches `required`; when doubling would
/// leave `usize` (or cannot grow), exactly `required`.
pub open spec fn doubled_capacity(c: int, required: int) -> int
    decreases usize::MAX - c,
{
    if c >= required {
        c
    } else if c <= 0 || 2 * c > usize::MAX {
        required
    } else {
        doubled_capacity(2 * c, required)
    }
}

/// The capacity the vector grows to from `cap` so that `required` elements
/// fit: at least 4 for a first allocation, then doubling.
pub open spec fn grown_capacity(cap: int, required: int) -> int {
    let start = if cap == 0 {
        if required > 4 {
            required
        } else {
            4
        }
    } else {
        cap
    };
    doubled_capacity(start, required)
}

/// `doubled_capacity` reaches `required` and stays within `usize`.
proof fn lemma_doubled_capacity_bounds(c: int, required: int)
    requires
        0 <= c <= usize::MAX,
        required <= usize::MAX,
    ensures
        required <= doubled_capacity(c, required) <= usize::MAX,
        c <= doubled_capacity(c, required) || doubled_capacity(c, required) == required,
    decreases usize::MAX - c,
{
    if c < required && c > 0 && 2 * c <= usize::MAX {
        lemma_doubled_capacity_bounds(2 * c, required);
    }
}

impl<T> View for HeapVec<T> {
    type V = Seq<T>;

    closed spec fn view(&self) -> Seq<T> {
        self.data@
    }
}

/// The first `n` elements of `s` are in ascending order under `le`.
pub open spec fn sorted_prefix<T>(s: Seq<T>, n: usize, le: spec_fn(T, T) -> bool) -> bool {
    sorted_by(s.take(n as int), le)
}

/// Facts that hold while inserting element `current` of `s` into the
/// sorted prefix that ends at `index`: the parts around it are sorted,
/// everything before it is below everything after it, and it is below
/// everything after it.
spec fn insertion_state<T>(s: Seq<T>, current: usize, index: usize, le: spec_fn(T, T) -> bool) -> bool {
    let c = current as int;
    let k = index as int;
    &&& forall|i: int, j: int| 0 <= i < j < c ==> #[trigger] le(s[i], s[j])
    &&& forall|i: int, j: int| c < i < j <= k ==> #[trigger] le(s[i], s[j])
    &&& forall|i: int, j: int| 0 <= i < c && c < j <= k ==> #[trigger] le(s[i], s[j])
    &&& forall|j: int| c < j <= k ==> #[trigger] le(s[c], s[j])
}

/// Inserting element `index` starts from a sorted prefix.
proof fn lemma_insertion_start<T>(s: Seq<T>, index: usize, le: spec_fn(T, T) -> bool)
    requires
        sorted_prefix(s, index, le),
        index < s.len(),
    ensures
        insertion_state(s, index, index, le),
{
    assert forall|i: int, j: int| 0 <= i < j < index implies #[trigger] le(s[i], s[j]) by {
        assert(le(s.take(index as int)[i], s.take(index as int)[j]));
    }
}

/// The element stops once its left neighbour is not above it.
proof fn lemma_insertion_stop<T>(s: Seq<T>, current: usize, index: usize, le: spec_fn(T, T) -> bool)
    requires
        is_total_preorder(le),
        0 < current <= index < s.len(),
        insertion_state(s, current, index, le),
        le(s[current - 1], s[current as int]),
    ensures
        insertion_state(s, 0, index, le),
{
    let c = current as int;
    assert forall|i: int, j: int| 0 < i < j <= index implies #[trigger] le(s[i], s[j]) by {
        if j == c {
            if i < c - 1 {
                assert(le(s[i], s[c - 1]));
            }
        }
    }
    assert forall|j: int| 0 < j <= index implies #[trigger] le(s[0], s[j]) by {
        if c == 1 {
            if j > 1 {
                assert(le(s[0], s[1]));
                assert(le(s[1], s[j]));
            }
        } else if j == c {
            assert(le(s[0], s[c - 1]));
        }
    }
}

/// Swapping the element with a left neighbour that is above it moves the
/// insertion one place down; `current` is the new position.
proof fn lemma_insertion_swap<T>(
    before: Seq<T>,
    s: Seq<T>,
    current: usize,
    index: usize,
    le: spec_fn(T, T) -> bool,
)
    requires
        is_total_preorder(le),
        current < index < before.len(),
        insertion_state(before, (current + 1) as usize, index, le),
        !le(before[current as int], before[current + 1]),
        s == before.update(current as int, before[current + 1]).update(current + 1, before[current as int]),
    ensures
        insertion_state(s, current, index, le),
{
    let c = current as int + 1;
    assert(le(before[c], before[c - 1]));
    assert forall|i: int, j: int| c - 1 < i < j <= index implies #[trigger] le(s[i], s[j]) by {
        if i == c && j > c {
            assert(le(before[c], before[j]));
            assert(le(before[c - 1], before[j]));
        }
    }
    assert forall|i: int, j: int| 0 <= i < c - 1 && c - 1 < j <= index implies #[trigger] le(
        s[i],
        s[j],
    ) by {
        if j == c {
            assert(le(before[i], before[c - 1]));
        }
    }
    assert forall|j: int| c - 1 < j <= index implies #[trigger] le(s[c - 1], s[j]) by {
        if j != c {
            assert(le(before[c], before[j]));
        }
    }
}

/// A finished insertion extends the sorted prefix by one.
proof fn lemma_insertion_finish<T>(s: Seq<T>, next: usize, le: spec_fn(T, T) -> bool)
    requires
        1 <= next <= s.len(),
        insertion_state(s, 0, (next - 1) as usize, le),
    ensures
        sorted_prefix(s, next, le),
{
    let t = s.take(next as int);
    assert forall|i: int, j: int| 0 <= i < j < t.len() implies #[trigger] le(t[i], t[j]) by {
        if i == 0 {
            assert(le(s[0], s[j]));
        } else {
            assert(le(s[i], s[j]));
        }
    }
}

/// A whole sequence whose full prefix is sorted is sorted.
proof fn lemma_sorted_prefix_full<T>(s: Seq<T>, n: usize, le: spec_fn(T, T) -> bool)
    requires
        n == s.len(),
        sorted_prefix(s, n, le),
    ensures
        sorted_by(s, le),
{
    assert(s.take(n as int) =~= s);
}

/// While the element that started at `index` stands at `pos`: the other
/// elements up to `index` keep the original order of equally ranked ones
/// among themselves, and every element it has passed ranks strictly above it.
spec fn stable_insertion_state<T>(s: Seq<T>, p: Seq<int>, pos: usize, index: usize, le: spec_fn(T, T) -> bool) -> bool {
    &&& forall|i: int, j: int|
        0 <= i < j <= index && i != pos && j != pos && #[trigger] le(s[j], s[i]) ==> p[i] < p[j]
    &&& forall|j: int| pos < j <= index ==> !#[trigger] le(s[j], s[pos as int])
}

/// The original positions while the element that started at `index` stands
/// at `pos`: it came from `index`, the others up to `index` from below it,
/// and nothing after `index` has moved.
spec fn insertion_positions(p: Seq<int>, pos: usize, index: usize, n: usize) -> bool {
    &&& p[pos as int] == index
    &&& forall|k: int| 0 <= k <= index && k != pos ==> #[trigger] p[k] < index
    &&& forall|k: int| index < k < n ==> #[trigger] p[k] == k
}

/// Inserting element `index` starts from a prefix that keeps equal order.
proof fn lemma_stable_start<T>(s: Seq<T>, p: Seq<int>, index: usize, le: spec_fn(T, T) -> bool)
    requires
        equal_order_prefix(s, p, index, le),
    ensures
        stable_insertion_state(s, p, index, index, le),
{
}

/// Swapping the inserted element with a strictly higher-ranked left
/// neighbour keeps the order of equally ranked elements.
proof fn lemma_stable_swap<T>(
    before: Seq<T>,
    s: Seq<T>,
    pb: Seq<int>,
    ps: Seq<int>,
    pos: usize,
    index: usize,
    le: spec_fn(T, T) -> bool,
)
    requires
        pos < index < before.len(),
        before.len() == pb.len(),
        stable_insertion_state(before, pb, (pos + 1) as usize, index, le),
        !le(before[pos as int], before[pos + 1]),
        s == before.update(pos as int, before[pos + 1]).update(pos + 1, before[pos as int]),
        ps == swap_positions(pb, pos),
    ensures
        stable_insertion_state(s, ps, pos, index, le),
{
    let pos = pos as int;
    assert forall|i: int, j: int|
        0 <= i < j <= index && i != pos && j != pos && #[trigger] le(s[j], s[i]) implies ps[i] < ps[j] by {
        if j == pos + 1 {
            assert(le(before[pos], before[i]));
        } else if i == pos + 1 {
            assert(le(before[j], before[pos]));
        } else {
            assert(le(before[j], before[i]));
        }
    }
    assert forall|j: int| pos < j <= index implies !#[trigger] le(s[j], s[pos]) by {
        if j > pos + 1 {
            assert(!le(before[j], before[pos + 1]));
        }
    }
}

/// A finished insertion extends the prefix that keeps equal order by one.
proof fn lemma_stable_finish<T>(s: Seq<T>, p: Seq<int>, pos: usize, index: usize, n: usize, le: spec_fn(T, T) -> bool)
    requires
        pos <= index < n,
        stable_insertion_state(s, p, pos, index, le),
        insertion_positions(p, pos, index, n),
    ensures
        equal_order_prefix(s, p, (index + 1) as usize, le),
{
    assert forall|i: int, j: int| 0 <= i < j < index + 1 && #[trigger] le(s[j], s[i]) implies p[i] < p[j] by {
        if j == pos {
            assert(p[i] < index);
        } else if i == pos {
            assert(!le(s[j], s[pos as int]));
        }
    }
}

/// A prefix that covers the whole sequence keeps equal order throughout.
proof fn lemma_equal_order_full<T>(s: Seq<T>, p: Seq<int>, n: usize, le: spec_fn(T, T) -> bool)
    requires
        n == s.len(),
        equal_order_prefix(s, p, n, le),
    ensures
        keeps_equal_order(s, p, le),
{
}

/// The identity arrangement.
proof fn lemma_identity_rearranged<T>(s: Seq<T>, n: usize)
    requires
        n == s.len(),
    ensures
        rearranged(s, s, identity_positions(n)),
        forall|k: int| 0 <= k < n ==> #[trigger] identity_positions(n)[k] == k,
{
}

/// Swapping two neighbours and their original positions keeps a
/// rearrangement a rearrangement.
proof fn lemma_swap_rearranged<T>(orig: Seq<T>, before: Seq<T>, s: Seq<T>, pb: Seq<int>, ps: Seq<int>, pos: usize)
    requires
        rearranged(orig, before, pb),
        pos + 1 < before.len(),
        s == before.update(pos as int, before[pos + 1]).update(pos + 1, before[pos as int]),
        ps == swap_positions(pb, pos),
    ensures
        rearranged(orig, s, ps),
{
    let n = orig.len();
    let pos = pos as int;
    assert forall|i: int, j: int| 0 <= i < j < n implies #[trigger] ps[i] != #[trigger] ps[j] by {
        let oi = if i == pos { pos + 1 } else if i == pos + 1 { pos } else { i };
        let oj = if j == pos { pos + 1 } else if j == pos + 1 { pos } else { j };
        assert(ps[i] == pb[oi] && ps[j] == pb[oj]);
        if oi < oj {
            assert(pb[oi] != pb[oj]);
        } else {
            assert(pb[oj] != pb[oi]);
        }
    }
    assert forall|i: int| 0 <= i < n implies 0 <= #[trigger] ps[i] < n by {
        let oi = if i == pos { pos + 1 } else if i == pos + 1 { pos } else { i };
        assert(ps[i] == pb[oi]);
    }
    assert forall|i: int| 0 <= i < s.len() implies #[trigger] s[i] == orig[ps[i]] by {
        let oi = if i == pos { pos + 1 } else if i == pos + 1 { pos } else { i };
        assert(s[i] == before[oi] && ps[i] == pb[oi]);
    }
}

/// An index permutation reaches every index below its length.
proof fn lemma_index_permutation_onto(p: Seq<int>, n: nat, k: int)
    requires
        is_index_permutation(p, n),
        0 <= k < n,
    ensures
        exists|i: int| 0 <= i < n && p[i] == k,
{
    assert(p.no_duplicates()) by {
        assert forall|i: int, j: int| 0 <= i < p.len() && 0 <= j < p.len() && i != j implies p[i] != p[j] by {
            if i < j {
                assert(p[i] != p[j]);
            } else {
                assert(p[j] != p[i]);
            }
        }
    }
    p.unique_seq_to_set();
    let range = vstd::set_lib::set_int_range(0, n as int);
    vstd::set_lib::lemma_int_range(0, n as int);
    assert(p.to_set().subset_of(range)) by {
        assert forall|x: int| p.to_set().contains(x) implies range.contains(x) by {
            let i = choose|i: int| 0 <= i < p.len() && p[i] == x;
            assert(0 <= p[i] < n);
        }
    }
    vstd::set_lib::lemma_len_subset(p.to_set(), range);
    vstd::set_lib::lemma_subset_equality(p.to_set(), range);
    assert(range.contains(k));
    assert(p.to_set().contains(k));
}

/// Whether the element at original position `a` goes before the one at `b`
/// in a stable sort: it ranks strictly lower, or equally and came first.
spec fn goes_before<T>(s: Seq<T>, a: int, b: int, le: spec_fn(T, T) -> bool) -> bool {
    le(s[a], s[b]) && (!le(s[b], s[a]) || a < b)
}

/// A sorted rearrangement that keeps equal order lists the original
/// positions in `goes_before` order.
proof fn lemma_stable_sorted_positions<T>(s: Seq<T>, t: Seq<T>, p: Seq<int>, le: spec_fn(T, T) -> bool, i: int, j: int)
    requires
        rearranged(s, t, p),
        sorted_by(t, le),
        keeps_equal_order(t, p, le),
        0 <= i < j < t.len(),
    ensures
        goes_before(s, p[i], p[j], le),
{
    assert(le(t[i], t[j]));
    if le(t[j], t[i]) {
        assert(p[i] < p[j]);
    }
}

/// The sorted rearrangements `(t1, p1)` and `(t2, p2)` agree on the first
/// `i` positions, and hence everywhere.
proof fn lemma_stable_sort_agree<T>(
    s: Seq<T>,
    t1: Seq<T>,
    p1: Seq<int>,
    t2: Seq<T>,
    p2: Seq<int>,
    le: spec_fn(T, T) -> bool,
    i: int,
)
    requires
        rearranged(s, t1, p1),
        sorted_by(t1, le),
        keeps_equal_order(t1, p1, le),
        rearranged(s, t2, p2),
        sorted_by(t2, le),
        keeps_equal_order(t2, p2, le),
        0 <= i <= s.len(),
        forall|k: int| 0 <= k < i ==> p1[k] == p2[k],
    ensures
        p1 == p2,
    decreases s.len() - i,
{
    let n = s.len();
    if i == n {
        assert(p1 =~= p2);
    } else {
        if p1[i] != p2[i] {
            let a = p1[i];
            let b = p2[i];
            lemma_index_permutation_onto(p1, n, b);
            let j = choose|j: int| 0 <= j < n && p1[j] == b;
            lemma_index_permutation_onto(p2, n, a);
            let k = choose|k: int| 0 <= k < n && p2[k] == a;
            if j < i {
                assert(p2[j] == b);
                assert(p2[j] != p2[i]);
            }
            if k < i {
                assert(p1[k] == a);
                assert(p1[k] != p1[i]);
            }
            lemma_stable_sorted_positions(s, t1, p1, le, i, j);
            lemma_stable_sorted_positions(s, t2, p2, le, i, k);
            assert(false);
        }
        lemma_stable_sort_agree(s, t1, p1, t2, p2, le, i + 1);
    }
}

/// Stable sorting has exactly one outcome: two rearrangements of the same
/// sequence that are both sorted under `le` and both keep the original
/// order of equally ranked elements are equal.
pub proof fn lemma_stable_sort_unique<T>(
    s: Seq<T>,
    t1: Seq<T>,
    p1: Seq<int>,
    t2: Seq<T>,
    p2: Seq<int>,
    le: spec_fn(T, T) -> bool,
)
    requires
        rearranged(s, t1, p1),
        sorted_by(t1, le),
        keeps_equal_order(t1, p1, le),
        rearranged(s, t2, p2),
        sorted_by(t2, le),
        keeps_equal_order(t2, p2, le),
    ensures
        t1 == t2,
{
    lemma_stable_sort_agree(s, t1, p1, t2, p2, le, 0);
    assert(t1 =~= t2);
}

/// Sorting a sequence that is already sorted leaves it unchanged.
pub proof fn lemma_stable_sort_of_sorted<T>(s: Seq<T>, t: Seq<T>, p: Seq<int>, le: spec_fn(T, T) -> bool)
    requires
        sorted_by(s, le),
        rearranged(s, t, p),
        sorted_by(t, le),
        keeps_equal_order(t, p, le),
    ensures
        t == s,
{
    let id = Seq::new(s.len(), |k: int| k);
    assert(rearranged(s, s, id));
    lemma_stable_sort_unique(s, t, p, s, id, le);
}

/// Swap elements `c - 1` and `c` of `v`.
fn swap_down<T>(v: &mut Vec<T>, c: usize)
    requires
        0 < c < old(v)@.len(),
    ensures
        final(v)@ == old(v)@.update(c - 1, old(v)@[c as int]).update(c as int, old(v)@[c - 1]),
        final(v)@.to_multiset() == old(v)@.to_multiset(),
{
    let x = v.remove(c);
    v.insert(c - 1, x);
    assert(v@ =~= old(v)@.update(c - 1, old(v)@[c as int]).update(c as int, old(v)@[c - 1]));
}

impl<T> HeapVec<T> {
    /// The elements fit within the capacity, which is unbounded for
    /// zero-sized elements.
    pub closed spec fn well_formed(&self) -> bool {
        &&& self.data@.len() <= self.cap
        &&& vstd::layout::size_of::<T>() == 0 ==> self.cap == usize::MAX
    }

    /// How many elements fit without growing; unbounded for zero-sized
    /// elements.
    pub closed spec fn capacity(&self) -> nat {
        self.cap as nat
    }

    /// A well-formed vector of zero-sized elements can hold `usize::MAX` of
    /// them.
    pub proof fn lemma_zero_sized_capacity(&self)
        requires
            self.well_formed(),
        ensures
            self@.len() <= self.capacity(),
            vstd::layout::size_of::<T>() == 0 ==> self.capacity() == usize::MAX,
    {
    }

    /// Create an empty vector with no heap allocation.
    pub fn new() -> (r: Self)
        ensures
            r@ == Seq::<T>::empty(),
            r.well_formed(),
            r.capacity() == (if vstd::layout::size_of::<T>() == 0 { usize::MAX as nat } else { 0 }),
    {
        let cap = if core::mem::size_of::<T>() == 0 {
            usize::MAX
        } else {
            0
        };
        Self { data: Vec::new(), cap }
    }

    /// Report whether the vector holds no elements.
    pub fn is_empty(&self) -> (r: bool)
        ensures
            r == (self@.len() == 0),
    {
        self.data.is_empty()
    }

    /// Borrow the elements as a slice.
    pub fn as_slice(&self) -> (r: &[T])
        ensures
            r@ == self@,
    {
        self.data.as_slice()
    }

    /// Iterate over the elements in order.
    pub fn iter(&self) -> (r: core::slice::Iter<'_, T>)
        ensures
            r.remaining() == self@.as_ref(),
    {
        let s = self.data.as_slice();
        proof {
            vstd::std_specs::slice::axiom_spec_slice_iter(s);
        }
        s.iter()
    }

    /// Borrow the elements as a mutable slice.
    pub fn as_mut_slice(&mut self) -> (r: &mut [T])
        ensures
            r@ == old(self)@,
            final(r)@ == final(self)@,
            final(self).capacity() == old(self).capacity(),
    {
        self.data.as_mut_slice()
    }

    /// Append one element, growing the capacity first when it is full; the
    /// element is dropped and `false` returned when growing fails.
    pub fn push(&mut self, value: T) -> (r: bool)
        requires
            old(self).well_formed(),
        ensures
            final(self).well_formed(),
            r ==> final(self)@ == old(self)@.push(value),
            !r ==> final(self)@ == old(self)@,
            old(self)@.len() < old(self).capacity() ==> r && final(self).capacity() == old(self).capacity(),
            vstd::layout::size_of::<T>() == 0 ==> final(self).capacity() == usize::MAX
                && (old(self)@.len() < usize::MAX ==> r),
            vstd::layout::size_of::<T>() > 0 && old(self)@.len() >= old(self).capacity() ==> {
                &&& r ==> final(self).capacity() == grown_capacity(old(self).capacity() as int, (old(self)@.len() + 1) as int)
                &&& !r ==> final(self).capacity() == old(self).capacity()
                &&& old(self)@.len() == usize::MAX ==> !r
                &&& vstd::layout::size_of::<T>() * grown_capacity(old(self).capacity() as int, (old(self)@.len() + 1) as int)
                    > usize::MAX ==> !r
            },
            final(self).capacity() >= old(self).capacity(),
    {
        if core::mem::size_of::<T>() == 0 {
            if self.data.len() < self.cap {
                self.data.push(value);
                return true;
            }
            return false;
        }
        if !self.reserve(1) {
            return false;
        }
        self.data.push(value);
        true
    }

    /// Make room for `additional` more elements without changing the
    /// contents. The capacity grows to `grown_capacity`; `false` when the
    /// count or the byte size does not fit in `usize`, or the allocation
    /// fails.
    pub fn reserve(&mut self, additional: usize) -> (r: bool)
        requires
            old(self).well_formed(),
        ensures
            final(self).well_formed(),
            final(self)@ == old(self)@,
            vstd::layout::size_of::<T>() == 0 ==> r && final(self).capacity() == old(self).capacity()
                && final(self).capacity() == usize::MAX,
            vstd::layout::size_of::<T>() > 0 ==> {
                let required = old(self)@.len() + additional;
                let grown = grown_capacity(old(self).capacity() as int, required);
                &&& r ==> required <= final(self).capacity()
                &&& required > usize::MAX ==> !r && final(self).capacity() == old(self).capacity()
                &&& required <= old(self).capacity() ==> r && final(self).capacity() == old(self).capacity()
                &&& old(self).capacity() < required <= usize::MAX ==> {
                    &&& vstd::layout::size_of::<T>() * grown > usize::MAX ==> !r
                    &&& r ==> final(self).capacity() == grown
                    &&& !r ==> final(self).capacity() == old(self).capacity()
                }
            },
    {
        let element_size = core::mem::size_of::<T>();
        if element_size == 0 {
            return true;
        }
        let len = self.data.len();
        let required = match len.checked_add(additional) {
            Some(n) => n,
            None => {
                return false;
            },
        };
        if required <= self.cap {
            return true;
        }
        let mut new_cap = if self.cap == 0 {
            if required > 4 {
                required
            } else {
                4
            }
        } else {
            self.cap
        };
        let ghost start = new_cap;
        while new_cap < required
            invariant
                new_cap <= usize::MAX,
                required <= usize::MAX,
                doubled_capacity(new_cap as int, required as int) == doubled_capacity(start as int, required as int),
            ensures
                new_cap == doubled_capacity(start as int, required as int),
            decreases usize::MAX - new_cap,
        {
            match new_cap.checked_mul(2) {
                None => {
                    new_cap = required;
                    break;
                },
                Some(doubled) => {
                    if doubled <= new_cap {
                        new_cap = required;
                        break;
                    }
                    new_cap = doubled;
                },
            }
        }
        assert(new_cap == grown_capacity(self.cap as int, required as int));
        if element_size.checked_mul(new_cap).is_none() {
            return false;
        }
        proof {
            lemma_doubled_capacity_bounds(start as int, required as int);
        }
        if self.data.try_reserve(new_cap - len).is_err() {
            return false;
        }
        self.cap = new_cap;
        true
    }

    /// Sort the elements in place with an insertion sort. The sort is
    /// stable: elements that compare equal keep their order.
    pub fn sort_by<F: Fn(&T, &T) -> Ordering>(&mut self, compare: F)
        requires
            forall|a: &T, b: &T| #[trigger] compare.requires((a, b)),
        ensures
            final(self).capacity() == old(self).capacity(),
            old(self).well_formed() ==> final(self).well_formed(),
            old(self).well_formed() && vstd::layout::size_of::<T>() == 0 ==> final(self).capacity() == usize::MAX,
            final(self)@.to_multiset() == old(self)@.to_multiset(),
            forall|le: spec_fn(T, T) -> bool| #[trigger]
                decides_order(compare, le) ==> sorted_by(final(self)@, le),
            exists|p: Seq<int>| #[trigger] rearranged(old(self)@, final(self)@, p)
                && forall|le: spec_fn(T, T) -> bool| #[trigger]
                decides_order(compare, le) ==> keeps_equal_order(final(self)@, p, le),
    {
        let n = self.data.len();
        let ghost orig = self.data@;
        let ghost mut perm: Seq<int> = identity_positions(n);
        let mut index: usize = 1;
        if n == 0 {
            index = 0;
        }
        proof {
            assert forall|le: spec_fn(T, T) -> bool| #[trigger]
                decides_order(compare, le) implies sorted_prefix(self.data@, index, le) by {}
            lemma_identity_rearranged(orig, n);
        }
        while index < n
            invariant
                index <= n,
                n == self.data@.len(),
                n > 0 ==> index >= 1,
                self.cap == old(self).cap,
                orig == old(self)@,
                forall|a: &T, b: &T| #[trigger] compare.requires((a, b)),
                self.data@.to_multiset() == old(self)@.to_multiset(),
                rearranged(orig, self.data@, perm),
                forall|k: int| 0 <= k < index ==> #[trigger] perm[k] < index,
                forall|k: int| index <= k < n ==> #[trigger] perm[k] == k,
                forall|le: spec_fn(T, T) -> bool| #[trigger]
                    decides_order(compare, le) ==> sorted_prefix(self.data@, index, le),
                forall|le: spec_fn(T, T) -> bool| #[trigger]
                    decides_order(compare, le) ==> equal_order_prefix(self.data@, perm, index, le),
            decreases n - index,
        {
            let mut current = index;
            let ghost mut pos: usize = index;
            proof {
                assert forall|le: spec_fn(T, T) -> bool| #[trigger]
                    decides_order(compare, le) implies insertion_state(self.data@, current, index, le) by {
                    lemma_insertion_start(self.data@, index, le);
                }
                assert forall|le: spec_fn(T, T) -> bool| #[trigger]
                    decides_order(compare, le) implies stable_insertion_state(self.data@, perm, pos, index, le) by {
                    lemma_stable_start(self.data@, perm, index, le);
                }
            }
            while current > 0
                invariant
                    current <= pos <= index < n,
                    current > 0 ==> pos == current,
                    n == self.data@.len(),
                    self.cap == old(self).cap,
                    orig == old(self)@,
                    forall|a: &T, b: &T| #[trigger] compare.requires((a, b)),
                    self.data@.to_multiset() == old(self)@.to_multiset(),
                    rearranged(orig, self.data@, perm),
                    insertion_positions(perm, pos, index, n),
                    forall|le: spec_fn(T, T) -> bool| #[trigger]
                        decides_order(compare, le) ==> insertion_state(self.data@, current, index, le),
                    forall|le: spec_fn(T, T) -> bool| #[trigger]
                        decides_order(compare, le) ==> stable_insertion_state(self.data@, perm, pos, index, le),
                decreases current,
            {
                let o = compare(&self.data[current - 1], &self.data[current]);
                let greater = match o {
                    Ordering::Greater => true,
                    _ => false,
                };
                if !greater {
                    proof {
                        assert forall|le: spec_fn(T, T) -> bool| #[trigger]
                            decides_order(compare, le) implies insertion_state(self.data@, 0, index, le) by {
                            lemma_insertion_stop(self.data@, current, index, le);
                        }
                    }
                    current = 0;
                } else {
                    let ghost before = self.data@;
                    let ghost pb = perm;
                    swap_down(&mut self.data, current);
                    current = current - 1;
                    proof {
                        perm = swap_positions(pb, current);
                        lemma_swap_rearranged(orig, before, self.data@, pb, perm, current);
                        assert forall|le: spec_fn(T, T) -> bool| #[trigger]
                            decides_order(compare, le) implies insertion_state(self.data@, current, index, le) by {
                            lemma_insertion_swap(before, self.data@, current, index, le);
                        }
                        assert forall|le: spec_fn(T, T) -> bool| #[trigger]
                            decides_order(compare, le) implies stable_insertion_state(self.data@, perm, current, index, le) by {
                            lemma_stable_swap(before, self.data@, pb, perm, current, index, le);
                        }
                        pos = current;
                        assert(insertion_positions(perm, pos, index, n));
                    }
                }
            }
            let ghost finished = index;
            index = index + 1;
            proof {
                assert forall|le: spec_fn(T, T) -> bool| #[trigger]
                    decides_order(compare, le) implies equal_order_prefix(self.data@, perm, index, le) by {
                    lemma_stable_finish(self.data@, perm, pos, finished, n, le);
                }
                assert forall|le: spec_fn(T, T) -> bool| #[trigger]
                    decides_order(compare, le) implies sorted_prefix(self.data@, index, le) by {
                    lemma_insertion_finish(self.data@, index, le);
                }
            }
        }
        proof {
            assert forall|le: spec_fn(T, T) -> bool| #[trigger]
                decides_order(compare, le) implies sorted_by(self.data@, le) by {
                lemma_sorted_prefix_full(self.data@, n, le);
            }
            assert forall|le: spec_fn(T, T) -> bool| #[trigger]
                decides_order(compare, le) implies keeps_equal_order(self.data@, perm, le) by {
                lemma_equal_order_full(self.data@, perm, n, le);
            }
            assert(rearranged(old(self)@, self.data@, perm));
        }
    }
}

} // verus!
