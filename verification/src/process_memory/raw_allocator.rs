//! One committed region of the target, carved up first-fit.

use vstd::prelude::*;
use crate::process_memory::extent::{
    apart, carve, copy_of, disjoint_from, first_fit, fits_first_at, give_back, insertion_point,
    inside, is_first_position, is_insertion_point, lemma_contained_has_position,
    lemma_first_fit_unique, lemma_insertion_point_unique, lemma_no_fit, lemma_no_position,
    lemma_position_unique, lemma_sorted_has_insertion_point, lemma_total_insert,
    lemma_total_nonnegative, lemma_total_push, lemma_total_remove, lemma_total_update,
    pairwise_disjoint, position, sum, total, Extent,
};

verus! {

/// A slice of target memory handed out by an allocator: `len` bytes at the
/// address `base`, carved from the region with the id `owner`.
#[derive(Debug, Clone, Copy, PartialEq, Eq, Structural)]
pub struct Allocation {
    pub base: usize,
    pub len: usize,
    pub owner: usize,
}

impl Allocation {
    /// The address one past the last byte of the allocation.
    pub open spec fn end(self) -> int {
        self.base + self.len
    }

    /// Whether the two allocations share no address.
    pub open spec fn disjoint(self, other: Allocation) -> bool {
        self.end() <= other.base || other.end() <= self.base
    }
}

/// The mathematical state of a [`RawAllocator`].
pub ghost struct Region {
    /// The id that the allocations of this region carry.
    pub id: usize,
    /// The address of the first byte of the region.
    pub base: usize,
    /// The number of bytes in the region.
    pub size: usize,
    /// The extents that are free, in the order of their offsets.
    pub free: Seq<Extent>,
    /// The extents that are handed out, in the order in which they were.
    pub live: Seq<Extent>,
}

impl Region {
    /// The invariant of a region: it is not empty, does not start at the null
    /// address and does not wrap around the address space; the free list is
    /// sorted and coalesced; no two live extents overlap, none overlaps a free
    /// one; and free and live extents together account for every byte.
    pub open spec fn wf(self) -> bool {
        &&& self.base > 0
        &&& self.size > 0
        &&& self.base + self.size <= usize::MAX
        &&& inside(self.free, self.size as int)
        &&& inside(self.live, self.size as int)
        &&& apart(self.free)
        &&& pairwise_disjoint(self.live)
        &&& disjoint_from(self.free, self.live)
        &&& total(self.free) + total(self.live) == self.size
    }

    /// A region of `size` bytes at `base` of which nothing is handed out.
    pub open spec fn fresh(id: usize, base: usize, size: usize) -> Region {
        Region { id, base, size, free: seq![Extent { offset: 0, len: size }], live: seq![] }
    }

    /// Whether `address` lies in the region.
    pub open spec fn contains(self, address: usize) -> bool {
        self.base <= address < self.base + self.size
    }

    /// The extent that a request for `n` bytes is served with, if any free
    /// extent is large enough: the front of the first that is.
    pub open spec fn served(self, n: usize) -> Option<Extent> {
        match first_fit(self.free, n as int) {
            Some(i) => Some(Extent { offset: self.free[i].offset, len: n }),
            None => None,
        }
    }

    /// The region after a request for `n` bytes.
    pub open spec fn after_alloc(self, n: usize) -> Region {
        match first_fit(self.free, n as int) {
            Some(i) => Region {
                free: carve(self.free, i, n as int),
                live: self.live.push(Extent { offset: self.free[i].offset, len: n }),
                ..self
            },
            None => self,
        }
    }

    /// The allocation that stands for the extent `e` of this region.
    pub open spec fn allocation(self, e: Extent) -> Allocation {
        Allocation { base: (self.base + e.offset) as usize, len: e.len, owner: self.id }
    }

    /// The extent of this region that `a` names, if `a` carries the id of the
    /// region and does not start below it.
    pub open spec fn extent_of(self, a: Allocation) -> Option<Extent> {
        if a.owner == self.id && a.base >= self.base {
            Some(Extent { offset: (a.base - self.base) as usize, len: a.len })
        } else {
            None
        }
    }

    /// Whether `a` is an allocation of this region that is handed out.
    pub open spec fn is_live(self, a: Allocation) -> bool {
        match self.extent_of(a) {
            Some(e) => self.live.contains(e),
            None => false,
        }
    }

    /// The region after `a` was returned to it. A region that did not hand `a`
    /// out stays as it is.
    pub open spec fn after_free(self, a: Allocation) -> Region {
        match self.extent_of(a) {
            Some(e) => match position(self.live, e) {
                Some(k) => Region {
                    free: give_back(self.free, e),
                    live: self.live.remove(k),
                    ..self
                },
                None => self,
            },
            None => self,
        }
    }
}

/// The allocator of one region of the target's memory.
///
/// It keeps the free extents sorted by offset and fused with their free
/// neighbours, and the extents it has handed out.
#[derive(Debug)]
pub struct RawAllocator {
    id: usize,
    base: usize,
    size: usize,
    free: Vec<Extent>,
    live: Vec<Extent>,
}

impl View for RawAllocator {
    type V = Region;

    closed spec fn view(&self) -> Region {
        Region {
            id: self.id,
            base: self.base,
            size: self.size,
            free: self.free@,
            live: self.live@,
        }
    }
}

impl RawAllocator {
    /// Whether the allocator is in a valid state.
    pub open spec fn wf(&self) -> bool {
        self@.wf()
    }

    /// Takes charge of the `size` bytes that the host reserved at `base`.
    ///
    /// A region that is empty, starts at the null address or would wrap around
    /// the address space is refused.
    pub fn new(id: usize, base: usize, size: usize) -> (r: Option<RawAllocator>)
        ensures
            r is Some <==> base > 0 && size > 0 && base + size <= usize::MAX,
            r matches Some(a) ==> a.wf() && a@ == Region::fresh(id, base, size),
    {
        if base == 0 || size == 0 || size > usize::MAX - base {
            return None;
        }
        let mut free: Vec<Extent> = Vec::new();
        free.push(Extent { offset: 0, len: size });
        let a = RawAllocator { id, base, size, free, live: Vec::new() };
        proof {
            assert(a@.free =~= seq![Extent { offset: 0, len: size }]);
            assert(a@.live =~= seq![]);
            assert(a@.free.drop_last() =~= seq![]);
            assert(total(a@.free.drop_last()) == 0);
            assert(total(a@.free) == size);
        }
        Some(a)
    }

    /// The id that the allocations of this region carry.
    pub fn id(&self) -> (r: usize)
        ensures
            r == self@.id,
    {
        self.id
    }

    /// The address of the first byte of the region.
    pub fn base(&self) -> (r: usize)
        ensures
            r == self@.base,
    {
        self.base
    }

    /// The number of bytes in the region, free or not.
    pub fn capacity(&self) -> (r: usize)
        ensures
            r == self@.size,
    {
        self.size
    }

    /// The extents that are free, in the order of their offsets.
    pub fn free_extents(&self) -> (r: Vec<Extent>)
        ensures
            r@ == self@.free,
    {
        copy_of(&self.free)
    }

    /// The extents that are handed out, in the order in which they were.
    pub fn live_extents(&self) -> (r: Vec<Extent>)
        ensures
            r@ == self@.live,
    {
        copy_of(&self.live)
    }

    /// The number of bytes that are free.
    pub fn free_bytes(&self) -> (r: usize)
        requires
            self.wf(),
        ensures
            r == total(self@.free),
            r == self@.size - total(self@.live),
    {
        proof {
            lemma_total_nonnegative(self@.live);
        }
        sum(&self.free, Ghost(self.size as int))
    }

    /// The number of bytes that are handed out.
    pub fn live_bytes(&self) -> (r: usize)
        requires
            self.wf(),
        ensures
            r == total(self@.live),
            r == self@.size - total(self@.free),
    {
        proof {
            lemma_total_nonnegative(self@.free);
        }
        sum(&self.live, Ghost(self.size as int))
    }

    /// Whether `address` lies in the region.
    pub fn contains(&self, address: usize) -> (r: bool)
        requires
            self.wf(),
        ensures
            r == self@.contains(address),
    {
        address >= self.base && address - self.base < self.size
    }

    /// Hands out `size` bytes from the front of the first free extent that
    /// holds as many, or reports that no extent does.
    pub fn allocate(&mut self, size: usize) -> (r: Option<Allocation>)
        requires
            old(self).wf(),
            size > 0,
        ensures
            final(self).wf(),
            final(self)@ == old(self)@.after_alloc(size),
            r == match old(self)@.served(size) {
                Some(e) => Some(old(self)@.allocation(e)),
                None => None,
            },
    {
        let mut i: usize = 0;
        while i < self.free.len()
            invariant
                *self == *old(self),
                self.wf(),
                size > 0,
                0 <= i <= self.free.len(),
                forall|j: int| 0 <= j < i ==> (#[trigger] self.free@[j]).len < size,
            decreases self.free.len() - i,
        {
            let e = self.free[i];
            if e.len >= size {
                proof {
                    assert(fits_first_at(self.free@, size as int, i as int));
                    lemma_first_fit_unique(self.free@, size as int, i as int);
                    lemma_alloc_keeps_wf(self@, size, i as int);
                }
                if e.len == size {
                    self.free.remove(i);
                } else {
                    self.free.set(i, Extent { offset: e.offset + size, len: e.len - size });
                }
                self.live.push(Extent { offset: e.offset, len: size });
                return Some(Allocation { base: self.base + e.offset, len: size, owner: self.id });
            }
            i += 1;
        }
        proof {
            lemma_no_fit(self.free@, size as int);
        }
        None
    }

    /// Takes `allocation` back: its bytes join the free list where their
    /// offset belongs and fuse with a free neighbour on either side.
    ///
    /// Returns whether the allocation was one that this allocator had handed
    /// out and not yet taken back; if it was not, nothing changes.
    pub fn free(&mut self, allocation: &Allocation) -> (released: bool)
        requires
            old(self).wf(),
        ensures
            final(self).wf(),
            released == old(self)@.is_live(*allocation),
            final(self)@ == old(self)@.after_free(*allocation),
    {
        if allocation.owner != self.id || allocation.base < self.base {
            return false;
        }
        let e = Extent { offset: allocation.base - self.base, len: allocation.len };
        let mut k: usize = 0;
        while k < self.live.len() && !(self.live[k].offset == e.offset && self.live[k].len == e.len)
            invariant
                *self == *old(self),
                self.wf(),
                0 <= k <= self.live.len(),
                forall|j: int| 0 <= j < k ==> #[trigger] self.live@[j] != e,
            decreases self.live.len() - k,
        {
            k += 1;
        }
        if k == self.live.len() {
            proof {
                lemma_no_position(self.live@, e);
                assert(!self.live@.contains(e));
            }
            return false;
        }
        let mut p: usize = 0;
        while p < self.free.len() && self.free[p].offset < e.offset
            invariant
                *self == *old(self),
                self.wf(),
                0 <= p <= self.free.len(),
                forall|j: int| 0 <= j < p ==> (#[trigger] self.free@[j]).offset < e.offset,
                apart(self.free@),
            decreases self.free.len() - p,
        {
            p += 1;
        }
        proof {
            assert(self.live@[k as int] == e);
            assert(self.live@.contains(e));
            assert(is_first_position(self.live@, e, k as int));
            lemma_position_unique(self.live@, e, k as int);
            assert forall|j: int| p <= j < self.free.len() implies (#[trigger] self.free@[j]).offset
                >= e.offset by {
                if j > p {
                    assert(self.free@[p as int].end() < self.free@[j].offset);
                }
            }
            assert(is_insertion_point(self.free@, e.offset as int, p as int));
            lemma_insertion_point_unique(self.free@, e.offset as int, p as int);
            lemma_free_keeps_wf(self@, e, k as int, p as int);
        }
        let left = p > 0 && self.free[p - 1].offset + self.free[p - 1].len == e.offset;
        let right = p < self.free.len() && e.offset + e.len == self.free[p].offset;
        if left && right {
            let before = self.free[p - 1];
            let after = self.free[p];
            self.free.set(
                p - 1,
                Extent { offset: before.offset, len: before.len + e.len + after.len },
            );
            self.free.remove(p);
        } else if left {
            let before = self.free[p - 1];
            self.free.set(p - 1, Extent { offset: before.offset, len: before.len + e.len });
        } else if right {
            let after = self.free[p];
            self.free.set(p, Extent { offset: e.offset, len: e.len + after.len });
        } else {
            self.free.insert(p, e);
        }
        self.live.remove(k);
        true
    }
}

/// In a valid region the free extents and the live extents together hold
/// exactly as many bytes as the region.
pub proof fn lemma_every_byte_accounted_for(r: Region)
    requires
        r.wf(),
    ensures
        total(r.free) + total(r.live) == r.size,
{
}

/// A request keeps a valid region valid. What it is served with lies inside
/// the region, was not handed out before and is handed out afterwards; and
/// whatever was handed out before still is.
pub proof fn lemma_alloc_hands_out(r: Region, n: usize)
    requires
        r.wf(),
        n > 0,
    ensures
        r.after_alloc(n).wf(),
        r.served(n) matches Some(e) ==> {
            &&& e.len == n
            &&& e.end() <= r.size
            &&& !r.live.contains(e)
            &&& r.after_alloc(n).live.contains(e)
            &&& r.is_live(r.allocation(e)) == r.live.contains(e)
        },
        forall|e: Extent| r.live.contains(e) ==> #[trigger] r.after_alloc(n).live.contains(e),
        forall|e: Extent| #[trigger]
            r.after_alloc(n).live.contains(e) ==> r.live.contains(e) || r.served(n) == Some(e),
{
    if let Some(i) = first_fit(r.free, n as int) {
        assert(fits_first_at(r.free, n as int, i));
        lemma_alloc_keeps_wf(r, n, i);
        let e = Extent { offset: r.free[i].offset, len: n };
        let after = r.after_alloc(n);
        assert(r.free[i].len > 0 && r.free[i].end() <= r.size);
        if r.live.contains(e) {
            let k = choose|k: int| 0 <= k < r.live.len() && r.live[k] == e;
            assert(r.free[i].disjoint(r.live[k]));
        }
        assert(after.live[r.live.len() as int] == e);
        assert forall|x: Extent| r.live.contains(x) implies #[trigger] after.live.contains(x) by {
            let k = choose|k: int| 0 <= k < r.live.len() && r.live[k] == x;
            assert(after.live[k] == x);
        }
        assert forall|x: Extent| #[trigger] after.live.contains(x) implies r.live.contains(x)
            || x == e by {
            let k = choose|k: int| 0 <= k < after.live.len() && after.live[k] == x;
            if k < r.live.len() {
                assert(r.live[k] == x);
            }
        }
        assert(r.extent_of(r.allocation(e)) == Some(e));
    }
}

/// Taking an allocation back keeps a valid region valid. The allocation is
/// not handed out afterwards, and every other is if and only if it was
/// before.
pub proof fn lemma_free_takes_back(r: Region, a: Allocation)
    requires
        r.wf(),
    ensures
        r.after_free(a).wf(),
        !r.after_free(a).is_live(a),
        forall|b: Allocation| b != a ==> r.is_live(b) == #[trigger] r.after_free(a).is_live(b),
        !r.is_live(a) ==> r.after_free(a) == r,
{
    if let Some(e) = r.extent_of(a) {
        if let Some(k) = position(r.live, e) {
            assert(is_first_position(r.live, e, k));
            let p = insertion_point(r.free, e.offset as int);
            lemma_insertion_point_exists(r, e, k);
            lemma_free_keeps_wf(r, e, k, p);
            let after = r.after_free(a);
            assert(after.live == r.live.remove(k));
            if after.live.contains(e) {
                let m = choose|m: int| 0 <= m < after.live.len() && after.live[m] == e;
                let m0 = if m < k { m } else { m + 1 };
                assert(r.live[m0] == e);
                assert(r.live[m0].disjoint(r.live[k]));
                assert(r.live[k].len > 0);
            }
            assert forall|b: Allocation| b != a implies r.is_live(b) == #[trigger] after.is_live(
                b,
            ) by {
                if let Some(f) = r.extent_of(b) {
                    assert(after.extent_of(b) == Some(f));
                    assert(f != e);
                    if r.live.contains(f) {
                        let m = choose|m: int| 0 <= m < r.live.len() && r.live[m] == f;
                        let m1 = if m < k { m } else { m - 1 };
                        assert(after.live[m1] == f);
                    }
                    if after.live.contains(f) {
                        let m = choose|m: int| 0 <= m < after.live.len() && after.live[m] == f;
                        let m0 = if m < k { m } else { m + 1 };
                        assert(r.live[m0] == f);
                    }
                }
            }
        } else {
            if r.live.contains(e) {
                lemma_contained_has_position(r.live, e);
            }
        }
    }
}

/// A request that is served and then taken back leaves the region exactly as
/// it was: the bytes fuse with the extent that they were carved from.
pub proof fn lemma_alloc_then_free_restores(r: Region, n: usize)
    requires
        r.wf(),
        n > 0,
        r.served(n) is Some,
    ensures
        r.after_alloc(n).after_free(r.allocation(r.served(n).unwrap())) == r,
{
    let i = first_fit(r.free, n as int).unwrap();
    assert(fits_first_at(r.free, n as int, i));
    lemma_alloc_keeps_wf(r, n, i);
    lemma_alloc_hands_out(r, n);
    let whole = r.free[i];
    let e = Extent { offset: whole.offset, len: n };
    let mid = r.after_alloc(n);
    let a = r.allocation(e);
    assert(whole.len > 0 && whole.end() <= r.size);
    assert(mid.extent_of(a) == Some(e));
    // the request is the last that was handed out, and the only one of its kind
    let last = r.live.len() as int;
    assert(mid.live[last] == e);
    assert forall|j: int| 0 <= j < last implies #[trigger] mid.live[j] != e by {
        assert(mid.live[j] == r.live[j]);
        assert(r.live.contains(r.live[j]));
    }
    assert(is_first_position(mid.live, e, last));
    lemma_position_unique(mid.live, e, last);
    assert(mid.live.remove(last) =~= r.live);
    // its bytes belong where the extent stood that they were carved from
    assert forall|j: int| 0 <= j < i implies (#[trigger] mid.free[j]).offset < e.offset by {
        assert(mid.free[j] == r.free[j]);
        assert(r.free[j].end() < r.free[i].offset);
        assert(r.free[j].len > 0);
    }
    assert forall|j: int| i <= j < mid.free.len() implies (#[trigger] mid.free[j]).offset
        >= e.offset by {
        if whole.len == n {
            assert(mid.free[j] == r.free[j + 1]);
            assert(r.free[i].end() < r.free[j + 1].offset);
        } else if j > i {
            assert(mid.free[j] == r.free[j]);
            assert(r.free[i].end() < r.free[j].offset);
        }
    }
    assert(is_insertion_point(mid.free, e.offset as int, i));
    lemma_insertion_point_unique(mid.free, e.offset as int, i);
    if i > 0 {
        assert(mid.free[i - 1] == r.free[i - 1]);
        assert(r.free[i - 1].end() < r.free[i].offset);
    }
    if whole.len == n {
        if i < mid.free.len() {
            assert(mid.free[i] == r.free[i + 1]);
            assert(r.free[i].end() < r.free[i + 1].offset);
        }
        assert(give_back(mid.free, e) =~= r.free);
    } else {
        assert(mid.free[i] == Extent {
            offset: (whole.offset + n) as usize,
            len: (whole.len - n) as usize,
        });
        assert(give_back(mid.free, e) =~= r.free);
    }
}

/// A sorted list has a place for every offset.
proof fn lemma_insertion_point_exists(r: Region, e: Extent, k: int)
    requires
        r.wf(),
        0 <= k < r.live.len(),
        r.live[k] == e,
    ensures
        is_insertion_point(r.free, e.offset as int, insertion_point(r.free, e.offset as int)),
{
    lemma_sorted_has_insertion_point(r.free, e.offset as int);
}

/// Carving a request out of the first extent that fits keeps a region valid.
proof fn lemma_alloc_keeps_wf(r: Region, n: usize, i: int)
    requires
        r.wf(),
        n > 0,
        fits_first_at(r.free, n as int, i),
    ensures
        first_fit(r.free, n as int) == Some(i),
        r.after_alloc(n).wf(),
        r.free[i].offset + n <= r.size,
        r.base + r.free[i].offset + n <= usize::MAX,
{
    lemma_first_fit_unique(r.free, n as int, i);
    let e = r.free[i];
    let taken = Extent { offset: e.offset, len: n };
    let after = r.after_alloc(n);
    assert(e.len > 0 && e.end() <= r.size);
    lemma_total_push(r.live, taken);
    if e.len == n {
        lemma_total_remove(r.free, i);
        assert(after.free =~= r.free.remove(i));
        assert forall|a: int, b: int| 0 <= a < b < after.free.len() implies (
        #[trigger] after.free[a]).end() < (#[trigger] after.free[b]).offset by {
            let a0 = if a < i { a } else { a + 1 };
            let b0 = if b < i { b } else { b + 1 };
            assert(r.free[a0].end() < r.free[b0].offset);
        }
        assert forall|a: int, b: int|
            0 <= a < after.free.len() && 0 <= b < after.live.len() implies (
        #[trigger] after.free[a]).disjoint(#[trigger] after.live[b]) by {
            let a0 = if a < i { a } else { a + 1 };
            if b < r.live.len() {
                assert(r.free[a0].disjoint(r.live[b]));
            } else {
                if a0 < i {
                    assert(r.free[a0].end() < r.free[i].offset);
                } else {
                    assert(r.free[i].end() < r.free[a0].offset);
                }
            }
        }
    } else {
        let rest = Extent { offset: (e.offset + n) as usize, len: (e.len - n) as usize };
        lemma_total_update(r.free, i, rest);
        assert(after.free =~= r.free.update(i, rest));
        assert forall|a: int, b: int| 0 <= a < b < after.free.len() implies (
        #[trigger] after.free[a]).end() < (#[trigger] after.free[b]).offset by {
            assert(r.free[a].end() < r.free[b].offset);
        }
        assert forall|a: int, b: int|
            0 <= a < after.free.len() && 0 <= b < after.live.len() implies (
        #[trigger] after.free[a]).disjoint(#[trigger] after.live[b]) by {
            if b < r.live.len() {
                assert(r.free[a].disjoint(r.live[b]));
            } else {
                if a < i {
                    assert(r.free[a].end() < r.free[i].offset);
                } else if a > i {
                    assert(r.free[i].end() < r.free[a].offset);
                }
            }
        }
    }
    assert forall|a: int, b: int|
        0 <= a < after.live.len() && 0 <= b < after.live.len() && a != b implies (
    #[trigger] after.live[a]).disjoint(#[trigger] after.live[b]) by {
        if a < r.live.len() && b < r.live.len() {
            assert(r.live[a].disjoint(r.live[b]));
        } else if a < r.live.len() {
            assert(r.free[i].disjoint(r.live[a]));
        } else {
            assert(r.free[i].disjoint(r.live[b]));
        }
    }
}

/// What holds of a live extent `e` that is about to join the free list `s`
/// at position `p`, and of the extents `live` that stay handed out.
spec fn ready_to_join(s: Seq<Extent>, live: Seq<Extent>, e: Extent, p: int, size: int) -> bool {
    &&& size <= usize::MAX
    &&& inside(s, size)
    &&& inside(live, size)
    &&& apart(s)
    &&& disjoint_from(s, live)
    &&& e.len > 0
    &&& e.end() <= size
    &&& 0 <= p <= s.len()
    &&& forall|b: int| 0 <= b < live.len() ==> (#[trigger] live[b]).disjoint(e)
    &&& forall|j: int| 0 <= j < p ==> (#[trigger] s[j]).end() <= e.offset
    &&& forall|j: int| p <= j < s.len() ==> e.end() <= (#[trigger] s[j]).offset
}

/// What holds of the free list `t` once the extent has joined it.
spec fn joined(t: Seq<Extent>, live: Seq<Extent>, size: int) -> bool {
    &&& inside(t, size)
    &&& apart(t)
    &&& disjoint_from(t, live)
}

proof fn lemma_join_between(s: Seq<Extent>, live: Seq<Extent>, e: Extent, p: int, size: int)
    requires
        ready_to_join(s, live, e, p, size),
        p > 0 ==> s[p - 1].end() != e.offset,
        p < s.len() ==> e.end() != s[p].offset,
    ensures
        joined(s.insert(p, e), live, size),
{
    let t = s.insert(p, e);
    assert forall|a: int| 0 <= a < t.len() implies (#[trigger] t[a]).len > 0 && t[a].end()
        <= size by {
        if a != p {
            let a0 = if a < p { a } else { a - 1 };
            assert(t[a] == s[a0]);
        }
    }
    assert forall|a: int, b: int| 0 <= a < b < t.len() implies (#[trigger] t[a]).end() < (
    #[trigger] t[b]).offset by {
        let a0 = if a < p { a } else { a - 1 };
        let b0 = if b < p { b } else { b - 1 };
        if a == p {
            assert(t[b] == s[b0]);
            assert(e.end() <= s[b0].offset);
            if b0 > p {
                assert(s[p].end() < s[b0].offset);
            }
        } else if b == p {
            assert(t[a] == s[a0]);
            assert(s[a0].end() <= e.offset);
            if a0 < p - 1 {
                assert(s[a0].end() < s[p - 1].offset);
            }
        } else {
            assert(t[a] == s[a0] && t[b] == s[b0]);
            assert(s[a0].end() < s[b0].offset);
        }
    }
    assert forall|a: int, b: int| 0 <= a < t.len() && 0 <= b < live.len() implies (
    #[trigger] t[a]).disjoint(#[trigger] live[b]) by {
        if a == p {
            assert(live[b].disjoint(e));
        } else {
            let a0 = if a < p { a } else { a - 1 };
            assert(t[a] == s[a0]);
            assert(s[a0].disjoint(live[b]));
        }
    }
}

proof fn lemma_join_left(s: Seq<Extent>, live: Seq<Extent>, e: Extent, p: int, size: int)
    requires
        ready_to_join(s, live, e, p, size),
        p > 0,
        s[p - 1].end() == e.offset,
        p < s.len() ==> e.end() != s[p].offset,
    ensures
        joined(
            s.update(
                p - 1,
                Extent { offset: s[p - 1].offset, len: (s[p - 1].len + e.len) as usize },
            ),
            live,
            size,
        ),
{
    let fused = Extent { offset: s[p - 1].offset, len: (s[p - 1].len + e.len) as usize };
    let t = s.update(p - 1, fused);
    assert(s[p - 1].len > 0 && s[p - 1].end() <= size);
    assert(fused.end() == e.end());
    assert forall|a: int| 0 <= a < t.len() implies (#[trigger] t[a]).len > 0 && t[a].end()
        <= size by {
        if a != p - 1 {
            assert(t[a] == s[a]);
        }
    }
    assert forall|a: int, b: int| 0 <= a < b < t.len() implies (#[trigger] t[a]).end() < (
    #[trigger] t[b]).offset by {
        assert(s[a].end() < s[b].offset);
        if a == p - 1 {
            assert(t[b] == s[b]);
            assert(e.end() <= s[b].offset);
            if b > p {
                assert(s[p].end() < s[b].offset);
            }
        } else if b == p - 1 {
            assert(t[a] == s[a]);
        } else {
            assert(t[a] == s[a] && t[b] == s[b]);
        }
    }
    assert forall|a: int, b: int| 0 <= a < t.len() && 0 <= b < live.len() implies (
    #[trigger] t[a]).disjoint(#[trigger] live[b]) by {
        assert(s[a].disjoint(live[b]));
        assert(live[b].disjoint(e));
        if a != p - 1 {
            assert(t[a] == s[a]);
        }
    }
}

proof fn lemma_join_right(s: Seq<Extent>, live: Seq<Extent>, e: Extent, p: int, size: int)
    requires
        ready_to_join(s, live, e, p, size),
        p < s.len(),
        e.end() == s[p].offset,
        p > 0 ==> s[p - 1].end() != e.offset,
    ensures
        joined(
            s.update(p, Extent { offset: e.offset, len: (e.len + s[p].len) as usize }),
            live,
            size,
        ),
{
    let fused = Extent { offset: e.offset, len: (e.len + s[p].len) as usize };
    let t = s.update(p, fused);
    assert(s[p].len > 0 && s[p].end() <= size);
    assert(fused.end() == s[p].end());
    assert forall|a: int| 0 <= a < t.len() implies (#[trigger] t[a]).len > 0 && t[a].end()
        <= size by {
        if a != p {
            assert(t[a] == s[a]);
        }
    }
    assert forall|a: int, b: int| 0 <= a < b < t.len() implies (#[trigger] t[a]).end() < (
    #[trigger] t[b]).offset by {
        assert(s[a].end() < s[b].offset);
        if b == p {
            assert(t[a] == s[a]);
            assert(s[a].end() <= e.offset);
            if a < p - 1 {
                assert(s[a].end() < s[p - 1].offset);
            }
        } else if a == p {
            assert(t[b] == s[b]);
        } else {
            assert(t[a] == s[a] && t[b] == s[b]);
        }
    }
    assert forall|a: int, b: int| 0 <= a < t.len() && 0 <= b < live.len() implies (
    #[trigger] t[a]).disjoint(#[trigger] live[b]) by {
        assert(s[a].disjoint(live[b]));
        assert(live[b].disjoint(e));
        if a != p {
            assert(t[a] == s[a]);
        }
    }
}

proof fn lemma_join_both(s: Seq<Extent>, live: Seq<Extent>, e: Extent, p: int, size: int)
    requires
        ready_to_join(s, live, e, p, size),
        0 < p < s.len(),
        s[p - 1].end() == e.offset,
        e.end() == s[p].offset,
    ensures
        joined(
            s.update(
                p - 1,
                Extent { offset: s[p - 1].offset, len: (s[p - 1].len + e.len + s[p].len) as usize },
            ).remove(p),
            live,
            size,
        ),
{
    let fused = Extent {
        offset: s[p - 1].offset,
        len: (s[p - 1].len + e.len + s[p].len) as usize,
    };
    let t = s.update(p - 1, fused).remove(p);
    assert(s[p - 1].len > 0 && s[p - 1].end() <= size);
    assert(s[p].len > 0 && s[p].end() <= size);
    assert(fused.end() == s[p].end());
    assert forall|a: int| 0 <= a < t.len() implies (#[trigger] t[a]).len > 0 && t[a].end()
        <= size by {
        let a0 = if a < p { a } else { a + 1 };
        if a != p - 1 {
            assert(t[a] == s[a0]);
        }
    }
    assert forall|a: int, b: int| 0 <= a < b < t.len() implies (#[trigger] t[a]).end() < (
    #[trigger] t[b]).offset by {
        let a0 = if a < p { a } else { a + 1 };
        let b0 = if b < p { b } else { b + 1 };
        assert(s[a0].end() < s[b0].offset);
        if a == p - 1 {
            assert(t[b] == s[b0]);
            assert(s[p].end() < s[b0].offset);
        } else if b == p - 1 {
            assert(t[a] == s[a0]);
        } else {
            assert(t[a] == s[a0] && t[b] == s[b0]);
        }
    }
    assert forall|a: int, b: int| 0 <= a < t.len() && 0 <= b < live.len() implies (
    #[trigger] t[a]).disjoint(#[trigger] live[b]) by {
        let a0 = if a < p { a } else { a + 1 };
        assert(s[a0].disjoint(live[b]));
        assert(live[b].disjoint(e));
        if a == p - 1 {
            assert(s[p].disjoint(live[b]));
        } else {
            assert(t[a] == s[a0]);
        }
    }
}

/// Taking one extent out of the live list leaves the others as they were.
proof fn lemma_live_remove(s: Seq<Extent>, live: Seq<Extent>, k: int, size: int)
    requires
        inside(live, size),
        pairwise_disjoint(live),
        disjoint_from(s, live),
        0 <= k < live.len(),
    ensures
        inside(live.remove(k), size),
        pairwise_disjoint(live.remove(k)),
        disjoint_from(s, live.remove(k)),
        forall|b: int|
            0 <= b < live.remove(k).len() ==> (#[trigger] live.remove(k)[b]).disjoint(live[k]),
{
    let t = live.remove(k);
    assert forall|b: int| 0 <= b < t.len() implies (#[trigger] t[b]).len > 0 && t[b].end()
        <= size && t[b].disjoint(live[k]) by {
        let b0 = if b < k { b } else { b + 1 };
        assert(t[b] == live[b0]);
        assert(live[b0].disjoint(live[k]));
    }
    assert forall|a: int, b: int| 0 <= a < t.len() && 0 <= b < t.len() && a != b implies (
    #[trigger] t[a]).disjoint(#[trigger] t[b]) by {
        let a0 = if a < k { a } else { a + 1 };
        let b0 = if b < k { b } else { b + 1 };
        assert(t[a] == live[a0] && t[b] == live[b0]);
        assert(live[a0].disjoint(live[b0]));
    }
    assert forall|a: int, b: int| 0 <= a < s.len() && 0 <= b < t.len() implies (
    #[trigger] s[a]).disjoint(#[trigger] t[b]) by {
        let b0 = if b < k { b } else { b + 1 };
        assert(t[b] == live[b0]);
        assert(s[a].disjoint(live[b0]));
    }
}

/// Returning a live extent to the free list keeps a region valid.
proof fn lemma_free_keeps_wf(r: Region, e: Extent, k: int, p: int)
    requires
        r.wf(),
        0 <= k < r.live.len(),
        r.live[k] == e,
        is_insertion_point(r.free, e.offset as int, p),
    ensures
        (Region { free: give_back(r.free, e), live: r.live.remove(k), ..r }).wf(),
        p > 0 ==> r.free[p - 1].end() <= e.offset,
        p < r.free.len() ==> e.end() <= r.free[p].offset,
        p > 0 ==> r.free[p - 1].end() <= r.size,
        p < r.free.len() ==> r.free[p].end() <= r.size,
        e.end() <= r.size,
{
    lemma_insertion_point_unique(r.free, e.offset as int, p);
    let s = r.free;
    let size = r.size as int;
    let live = r.live.remove(k);
    lemma_live_remove(s, r.live, k, size);
    lemma_total_remove(r.live, k);
    assert(e.len > 0 && e.end() <= r.size);
    assert forall|j: int| 0 <= j < p implies (#[trigger] s[j]).end() <= e.offset by {
        assert(s[j].disjoint(r.live[k]));
    }
    assert forall|j: int| p <= j < s.len() implies e.end() <= (#[trigger] s[j]).offset by {
        assert(s[j].disjoint(r.live[k]));
        assert(s[j].len > 0);
    }
    assert(ready_to_join(s, live, e, p, size));
    if p > 0 {
        assert(s[p - 1].len > 0 && s[p - 1].end() <= size);
    }
    if p < s.len() {
        assert(s[p].len > 0 && s[p].end() <= size);
    }
    let left = p > 0 && s[p - 1].end() == e.offset;
    let right = p < s.len() && e.end() == s[p].offset;
    if left && right {
        let fused = Extent {
            offset: s[p - 1].offset,
            len: (s[p - 1].len + e.len + s[p].len) as usize,
        };
        lemma_join_both(s, live, e, p, size);
        lemma_total_update(s, p - 1, fused);
        lemma_total_remove(s.update(p - 1, fused), p);
    } else if left {
        let fused = Extent { offset: s[p - 1].offset, len: (s[p - 1].len + e.len) as usize };
        lemma_join_left(s, live, e, p, size);
        lemma_total_update(s, p - 1, fused);
    } else if right {
        let fused = Extent { offset: e.offset, len: (e.len + s[p].len) as usize };
        lemma_join_right(s, live, e, p, size);
        lemma_total_update(s, p, fused);
    } else {
        lemma_join_between(s, live, e, p, size);
        lemma_total_insert(s, p, e);
    }
}

} // verus!
