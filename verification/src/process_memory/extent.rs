//! Byte ranges inside a region, and the arithmetic over lists of them.

use vstd::prelude::*;

verus! {

/// A run of `len` bytes that starts `offset` bytes into a region.
#[derive(Debug, Clone, Copy, PartialEq, Eq, Structural)]
pub struct Extent {
    pub offset: usize,
    pub len: usize,
}

impl Extent {
    /// The offset one past the last byte of the extent.
    pub open spec fn end(self) -> int {
        self.offset + self.len
    }

    /// Whether the two extents share no byte.
    pub open spec fn disjoint(self, other: Extent) -> bool {
        self.end() <= other.offset || other.end() <= self.offset
    }
}

/// The number of bytes that the extents of `s` cover together.
pub open spec fn total(s: Seq<Extent>) -> int
    decreases s.len(),
{
    if s.len() == 0 {
        0
    } else {
        total(s.drop_last()) + s.last().len
    }
}

/// Every extent of `s` is non-empty and ends within the first `size` bytes.
pub open spec fn inside(s: Seq<Extent>, size: int) -> bool {
    forall|i: int| 0 <= i < s.len() ==> (#[trigger] s[i]).len > 0 && s[i].end() <= size
}

/// The extents of `s` are sorted by offset, and between any two of them lies
/// at least one byte: none overlaps or touches another.
pub open spec fn apart(s: Seq<Extent>) -> bool {
    forall|i: int, j: int|
        0 <= i < j < s.len() ==> (#[trigger] s[i]).end() < (#[trigger] s[j]).offset
}

/// No two extents of `s` share a byte.
pub open spec fn pairwise_disjoint(s: Seq<Extent>) -> bool {
    forall|i: int, j: int|
        0 <= i < s.len() && 0 <= j < s.len() && i != j ==> (#[trigger] s[i]).disjoint(
            #[trigger] s[j],
        )
}

/// No extent of `a` shares a byte with an extent of `b`.
pub open spec fn disjoint_from(a: Seq<Extent>, b: Seq<Extent>) -> bool {
    forall|i: int, j: int|
        0 <= i < a.len() && 0 <= j < b.len() ==> (#[trigger] a[i]).disjoint(#[trigger] b[j])
}

/// `i` is the first extent of `s` that holds at least `n` bytes.
pub open spec fn fits_first_at(s: Seq<Extent>, n: int, i: int) -> bool {
    &&& 0 <= i < s.len()
    &&& s[i].len >= n
    &&& forall|j: int| 0 <= j < i ==> (#[trigger] s[j]).len < n
}

/// The index of the first extent of `s` that holds at least `n` bytes.
pub open spec fn first_fit(s: Seq<Extent>, n: int) -> Option<int> {
    if exists|i: int| fits_first_at(s, n, i) {
        Some(choose|i: int| fits_first_at(s, n, i))
    } else {
        None
    }
}

/// The list `s` after `n` bytes were taken from the front of extent `i`: the
/// extent shrinks, and leaves the list when nothing of it remains.
pub open spec fn carve(s: Seq<Extent>, i: int, n: int) -> Seq<Extent> {
    if s[i].len == n {
        s.remove(i)
    } else {
        s.update(i, Extent { offset: (s[i].offset + n) as usize, len: (s[i].len - n) as usize })
    }
}

/// Everything before position `p` of `s` starts below `offset`, everything
/// from `p` on does not.
pub open spec fn is_insertion_point(s: Seq<Extent>, offset: int, p: int) -> bool {
    &&& 0 <= p <= s.len()
    &&& forall|j: int| 0 <= j < p ==> (#[trigger] s[j]).offset < offset
    &&& forall|j: int| p <= j < s.len() ==> (#[trigger] s[j]).offset >= offset
}

/// Where an extent that starts at `offset` belongs in the sorted list `s`.
pub open spec fn insertion_point(s: Seq<Extent>, offset: int) -> int {
    choose|p: int| is_insertion_point(s, offset, p)
}

/// The sorted list `s` after `e` was returned to it: `e` is placed where its
/// offset belongs and fused with the neighbour on either side that it touches.
pub open spec fn give_back(s: Seq<Extent>, e: Extent) -> Seq<Extent> {
    let p = insertion_point(s, e.offset as int);
    let left = p > 0 && s[p - 1].end() == e.offset;
    let right = p < s.len() && e.end() == s[p].offset;
    if left && right {
        s.update(
            p - 1,
            Extent { offset: s[p - 1].offset, len: (s[p - 1].len + e.len + s[p].len) as usize },
        ).remove(p)
    } else if left {
        s.update(p - 1, Extent { offset: s[p - 1].offset, len: (s[p - 1].len + e.len) as usize })
    } else if right {
        s.update(p, Extent { offset: e.offset, len: (e.len + s[p].len) as usize })
    } else {
        s.insert(p, e)
    }
}

/// `k` is the first position of `s` that holds `e`.
pub open spec fn is_first_position(s: Seq<Extent>, e: Extent, k: int) -> bool {
    &&& 0 <= k < s.len()
    &&& s[k] == e
    &&& forall|j: int| 0 <= j < k ==> #[trigger] s[j] != e
}

/// The first position of `s` that holds `e`.
pub open spec fn position(s: Seq<Extent>, e: Extent) -> Option<int> {
    if exists|k: int| is_first_position(s, e, k) {
        Some(choose|k: int| is_first_position(s, e, k))
    } else {
        None
    }
}

pub proof fn lemma_first_fit_unique(s: Seq<Extent>, n: int, i: int)
    requires
        fits_first_at(s, n, i),
    ensures
        first_fit(s, n) == Some(i),
{
    let c = choose|c: int| fits_first_at(s, n, c);
    if c < i {
        assert(s[c].len < n);
    } else if i < c {
        assert(s[i].len < n);
    }
}

pub proof fn lemma_no_fit(s: Seq<Extent>, n: int)
    requires
        forall|j: int| 0 <= j < s.len() ==> (#[trigger] s[j]).len < n,
    ensures
        first_fit(s, n) is None,
{
    if exists|i: int| fits_first_at(s, n, i) {
        let c = choose|c: int| fits_first_at(s, n, c);
        assert(s[c].len < n);
    }
}

pub proof fn lemma_insertion_point_unique(s: Seq<Extent>, offset: int, p: int)
    requires
        is_insertion_point(s, offset, p),
    ensures
        insertion_point(s, offset) == p,
{
    let c = insertion_point(s, offset);
    assert(is_insertion_point(s, offset, c));
    if c < p {
        assert(s[c].offset < offset);
    } else if p < c {
        assert(s[p].offset < offset);
    }
}

pub proof fn lemma_position_unique(s: Seq<Extent>, e: Extent, k: int)
    requires
        is_first_position(s, e, k),
    ensures
        position(s, e) == Some(k),
{
    let c = choose|c: int| is_first_position(s, e, c);
    if c < k {
        assert(s[c] != e);
    } else if k < c {
        assert(s[k] != e);
    }
}

pub proof fn lemma_no_position(s: Seq<Extent>, e: Extent)
    requires
        forall|j: int| 0 <= j < s.len() ==> #[trigger] s[j] != e,
    ensures
        position(s, e) is None,
{
    if exists|k: int| is_first_position(s, e, k) {
        let c = choose|c: int| is_first_position(s, e, c);
        assert(s[c] != e);
    }
}

/// An extent that a list holds has a first position in it.
pub proof fn lemma_contained_has_position(s: Seq<Extent>, e: Extent)
    requires
        s.contains(e),
    ensures
        position(s, e) is Some,
    decreases s.len(),
{
    let k = choose|k: int| 0 <= k < s.len() && s[k] == e;
    lemma_first_position_below(s, e, k);
}

/// If an extent stands at position `k`, it has a first position at or below
/// `k`.
proof fn lemma_first_position_below(s: Seq<Extent>, e: Extent, k: int)
    requires
        0 <= k < s.len(),
        s[k] == e,
    ensures
        exists|i: int| is_first_position(s, e, i),
    decreases k,
{
    if exists|j: int| 0 <= j < k && s[j] == e {
        let j = choose|j: int| 0 <= j < k && s[j] == e;
        lemma_first_position_below(s, e, j);
    } else {
        assert(is_first_position(s, e, k));
    }
}

/// In a list that is sorted by offset every offset has its place.
pub proof fn lemma_sorted_has_insertion_point(s: Seq<Extent>, offset: int)
    requires
        apart(s),
    ensures
        is_insertion_point(s, offset, insertion_point(s, offset)),
    decreases s.len(),
{
    lemma_insertion_point_from(s, offset, 0);
}

/// If everything before position `p` starts below `offset`, the offset has
/// its place at or after `p`.
proof fn lemma_insertion_point_from(s: Seq<Extent>, offset: int, p: int)
    requires
        apart(s),
        0 <= p <= s.len(),
        forall|j: int| 0 <= j < p ==> (#[trigger] s[j]).offset < offset,
    ensures
        exists|q: int| is_insertion_point(s, offset, q),
    decreases s.len() - p,
{
    if p < s.len() && s[p].offset < offset {
        lemma_insertion_point_from(s, offset, p + 1);
    } else {
        assert forall|j: int| p <= j < s.len() implies (#[trigger] s[j]).offset >= offset by {
            if j > p {
                assert(s[p].end() < s[j].offset);
            }
        }
        assert(is_insertion_point(s, offset, p));
    }
}

pub proof fn lemma_total_nonnegative(s: Seq<Extent>)
    ensures
        total(s) >= 0,
    decreases s.len(),
{
    if s.len() > 0 {
        lemma_total_nonnegative(s.drop_last());
    }
}

pub proof fn lemma_total_push(s: Seq<Extent>, e: Extent)
    ensures
        total(s.push(e)) == total(s) + e.len,
{
    assert(s.push(e).drop_last() =~= s);
}

pub proof fn lemma_total_remove(s: Seq<Extent>, k: int)
    requires
        0 <= k < s.len(),
    ensures
        total(s.remove(k)) == total(s) - s[k].len,
    decreases s.len(),
{
    if k == s.len() - 1 {
        assert(s.remove(k) =~= s.drop_last());
    } else {
        lemma_total_remove(s.drop_last(), k);
        assert(s.remove(k).drop_last() =~= s.drop_last().remove(k));
        assert(s.remove(k).last() == s.last());
    }
}

pub proof fn lemma_total_update(s: Seq<Extent>, k: int, e: Extent)
    requires
        0 <= k < s.len(),
    ensures
        total(s.update(k, e)) == total(s) - s[k].len + e.len,
    decreases s.len(),
{
    if k == s.len() - 1 {
        assert(s.update(k, e).drop_last() =~= s.drop_last());
    } else {
        lemma_total_update(s.drop_last(), k, e);
        assert(s.update(k, e).drop_last() =~= s.drop_last().update(k, e));
    }
}

pub proof fn lemma_total_insert(s: Seq<Extent>, p: int, e: Extent)
    requires
        0 <= p <= s.len(),
    ensures
        total(s.insert(p, e)) == total(s) + e.len,
    decreases s.len(),
{
    if p == s.len() {
        assert(s.insert(p, e) =~= s.push(e));
        lemma_total_push(s, e);
    } else {
        lemma_total_insert(s.drop_last(), p, e);
        assert(s.insert(p, e).drop_last() =~= s.drop_last().insert(p, e));
        assert(s.insert(p, e).last() == s.last());
    }
}

/// A prefix of a list holds no more bytes than the list, and one extent more
/// adds the bytes of that extent.
pub proof fn lemma_total_take(s: Seq<Extent>, i: int)
    requires
        0 <= i < s.len(),
    ensures
        total(s.take(i + 1)) == total(s.take(i)) + s[i].len,
        total(s.take(i + 1)) <= total(s),
    decreases s.len() - i,
{
    assert(s.take(i + 1).drop_last() =~= s.take(i));
    if i + 1 == s.len() {
        assert(s.take(i + 1) =~= s);
    } else {
        lemma_total_take(s, i + 1);
        lemma_total_nonnegative(s.take(i + 1));
    }
}

/// Adds up the bytes of the extents of `s`, which together hold no more than
/// `bound` bytes.
pub(crate) fn sum(s: &Vec<Extent>, Ghost(bound): Ghost<int>) -> (r: usize)
    requires
        total(s@) <= bound <= usize::MAX,
    ensures
        r == total(s@),
{
    let mut acc: usize = 0;
    let mut i: usize = 0;
    while i < s.len()
        invariant
            0 <= i <= s.len(),
            acc == total(s@.take(i as int)),
            total(s@) <= bound <= usize::MAX,
        decreases s.len() - i,
    {
        proof {
            lemma_total_take(s@, i as int);
        }
        acc = acc + s[i].len;
        i += 1;
    }
    proof {
        assert(s@.take(i as int) =~= s@);
    }
    acc
}

/// A copy of the list.
pub fn copy_of(s: &Vec<Extent>) -> (r: Vec<Extent>)
    ensures
        r@ == s@,
{
    let mut out: Vec<Extent> = Vec::new();
    let mut i: usize = 0;
    while i < s.len()
        invariant
            0 <= i <= s.len(),
            out@ == s@.take(i as int),
        decreases s.len() - i,
    {
        out.push(s[i]);
        proof {
            assert(out@ =~= s@.take(i as int + 1));
        }
        i += 1;
    }
    proof {
        assert(s@.take(i as int) =~= s@);
    }
    out
}

} // verus!
