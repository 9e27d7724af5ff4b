//! An allocator that grows by whole regions.

use vstd::pervasive::unreached;
use vstd::prelude::*;
use crate::process::ProcessRef;
use crate::protocol::{Request, RequestView};
use crate::process_memory::extent::{
    first_fit, fits_first_at, lemma_first_fit_unique, lemma_total_push, total, Extent,
};
use crate::process_memory::raw_allocator::{
    lemma_alloc_hands_out, lemma_alloc_then_free_restores, lemma_free_takes_back, Allocation,
    RawAllocator, Region,
};

verus! {

/// The size of the region that the allocator asks for when a request fits in
/// one page.
pub const PAGE_SIZE: usize = 4096;

/// One past the highest address that a 32-bit target can use.
pub const NARROW_LIMIT: u64 = 0x1_0000_0000;

/// `size` rounded up to whole pages.
pub open spec fn round_up_page(size: int) -> int {
    (size + PAGE_SIZE - 1) / (PAGE_SIZE as int) * PAGE_SIZE
}

/// The size of the region to reserve for a request of `size` bytes that no
/// existing region can serve: the request rounded up to whole pages, and one
/// page at the least.
pub open spec fn growth_len(size: usize) -> int {
    if round_up_page(size as int) > PAGE_SIZE {
        round_up_page(size as int)
    } else {
        PAGE_SIZE as int
    }
}

/// Computes [`growth_len`], or reports that it does not fit the address space.
pub fn growth_for(size: usize) -> (r: Option<usize>)
    ensures
        r is Some <==> growth_len(size) <= usize::MAX,
        r matches Some(len) ==> len == growth_len(size) && len >= size && len >= PAGE_SIZE,
{
    let whole: usize = size / PAGE_SIZE;
    let pages: usize = if size % PAGE_SIZE == 0 {
        whole
    } else {
        whole + 1
    };
    assert(pages == (size + PAGE_SIZE - 1) / (PAGE_SIZE as int));
    if pages <= 1 {
        return Some(PAGE_SIZE);
    }
    pages.checked_mul(PAGE_SIZE)
}

/// Whether the `len` bytes at `base` share no address with the region `r`.
pub open spec fn clear_of(r: Region, base: usize, len: usize) -> bool {
    base + len <= r.base || r.base + r.size <= base
}

/// The mathematical state of a [`DynamicMultiBufferAllocator`].
pub ghost struct Arena {
    /// The process whose memory is managed.
    pub process: ProcessRef,
    /// The regions reserved so far, oldest first.
    pub regions: Seq<Region>,
}

impl Arena {
    /// The invariant of an arena: every region is valid and carries its
    /// position as id; no two regions share an address; in a 32-bit target
    /// every region lies below 4 GiB; and the regions can be counted in a
    /// machine word.
    pub open spec fn wf(self) -> bool {
        &&& self.regions.len() < usize::MAX
        &&& forall|i: int|
            0 <= i < self.regions.len() ==> (#[trigger] self.regions[i]).wf() && self.regions[i].id
                == i
        &&& forall|i: int, j: int|
            0 <= i < self.regions.len() && 0 <= j < self.regions.len() && i != j ==> clear_of(
                #[trigger] self.regions[i],
                (#[trigger] self.regions[j]).base,
                self.regions[j].size,
            )
        &&& self.process.is_x86() ==> forall|i: int|
            0 <= i < self.regions.len() ==> (#[trigger] self.regions[i]).base
                + self.regions[i].size <= NARROW_LIMIT
    }

    /// `i` is the oldest region that can serve a request for `n` bytes.
    pub open spec fn serves_first(self, n: usize, i: int) -> bool {
        &&& 0 <= i < self.regions.len()
        &&& self.regions[i].served(n) is Some
        &&& forall|j: int| 0 <= j < i ==> (#[trigger] self.regions[j]).served(n) is None
    }

    /// The oldest region that can serve a request for `n` bytes, if any can.
    pub open spec fn serving(self, n: usize) -> Option<int> {
        if exists|i: int| self.serves_first(n, i) {
            Some(choose|i: int| self.serves_first(n, i))
        } else {
            None
        }
    }

    /// The allocation that a request for `n` bytes is served with, if a
    /// region can serve it.
    pub open spec fn served(self, n: usize) -> Option<Allocation> {
        match self.serving(n) {
            Some(i) => Some(self.regions[i].allocation(self.regions[i].served(n).unwrap())),
            None => None,
        }
    }

    /// The arena after a request for `n` bytes.
    pub open spec fn after_alloc(self, n: usize) -> Arena {
        match self.serving(n) {
            Some(i) => Arena {
                regions: self.regions.update(i, self.regions[i].after_alloc(n)),
                ..self
            },
            None => self,
        }
    }

    /// Whether in every region the free extents and the live extents together
    /// hold exactly as many bytes as the region.
    pub open spec fn accounted(self) -> bool {
        forall|i: int|
            0 <= i < self.regions.len() ==> total((#[trigger] self.regions[i]).free) + total(
                self.regions[i].live,
            ) == self.regions[i].size
    }

    /// What a request for `n` bytes has done to the arena when `after` is
    /// what it left.
    ///
    /// Every region still accounts for all of its bytes, and whatever was
    /// handed out still is, where it was. A request that was served has moved
    /// exactly `n` bytes from free to live in one region and left the others
    /// alone; what it was served with is not empty, does not start at the
    /// null address, lies in that region, was not handed out before and
    /// shares no address with anything that was. A request that was not
    /// served has changed nothing.
    pub open spec fn requested(self, after: Arena, n: usize) -> bool {
        &&& after.accounted()
        &&& after.regions.len() == self.regions.len()
        &&& forall|y: Allocation| self.is_live(y) ==> #[trigger] after.is_live(y)
        &&& match self.serving(n) {
            Some(i) => {
                let x = self.served(n).unwrap();
                &&& x.len == n
                &&& x.base > 0
                &&& x.owner == i
                &&& self.regions[i].base <= x.base
                &&& x.end() <= self.regions[i].base + self.regions[i].size
                &&& !self.is_live(x)
                &&& after.is_live(x)
                &&& forall|y: Allocation| self.is_live(y) ==> #[trigger] x.disjoint(y)
                &&& total(after.regions[i].free) == total(self.regions[i].free) - n
                &&& total(after.regions[i].live) == total(self.regions[i].live) + n
                &&& forall|j: int|
                    0 <= j < self.regions.len() && j != i ==> #[trigger] after.regions[j]
                        == self.regions[j]
            },
            None => after == self,
        }
    }

    /// Whether the host may add the `len` bytes at `base` as a new region:
    /// the range is not empty, does not start at the null address, does not
    /// wrap around, shares no address with a region of the arena and, in a
    /// 32-bit target, lies below 4 GiB; and the arena can count one region
    /// more.
    pub open spec fn admits(self, base: usize, len: usize) -> bool {
        &&& self.regions.len() + 1 < usize::MAX
        &&& base > 0
        &&& len > 0
        &&& base + len <= usize::MAX
        &&& self.process.is_x86() ==> base + len <= NARROW_LIMIT
        &&& forall|i: int|
            0 <= i < self.regions.len() ==> clear_of(#[trigger] self.regions[i], base, len)
    }

    /// The arena with the `len` bytes at `base` as its newest region.
    pub open spec fn after_grow(self, base: usize, len: usize) -> Arena {
        Arena {
            regions: self.regions.push(Region::fresh(self.regions.len() as usize, base, len)),
            ..self
        }
    }

    /// `i` is the region that holds `address`.
    pub open spec fn holds_at(self, address: usize, i: int) -> bool {
        0 <= i < self.regions.len() && self.regions[i].contains(address)
    }

    /// The region that holds `address`, if one does.
    pub open spec fn holder(self, address: usize) -> Option<int> {
        if exists|i: int| self.holds_at(address, i) {
            Some(choose|i: int| self.holds_at(address, i))
        } else {
            None
        }
    }

    /// Whether `a` is handed out: the region that holds its first byte has it
    /// in its list of live allocations.
    pub open spec fn is_live(self, a: Allocation) -> bool {
        match self.holder(a.base) {
            Some(i) => self.regions[i].is_live(a),
            None => false,
        }
    }

    /// The arena after `a` was returned. An arena that did not hand `a` out
    /// stays as it is.
    pub open spec fn after_free(self, a: Allocation) -> Arena {
        match self.holder(a.base) {
            Some(i) => Arena {
                regions: self.regions.update(i, self.regions[i].after_free(a)),
                ..self
            },
            None => self,
        }
    }
}

/// An allocator over any number of regions of the target's memory.
///
/// Requests are served from the oldest region that has room. When none has,
/// the host reserves a new region and adds it.
#[derive(Debug)]
pub struct DynamicMultiBufferAllocator {
    process: ProcessRef,
    regions: Vec<RawAllocator>,
}

impl View for DynamicMultiBufferAllocator {
    type V = Arena;

    closed spec fn view(&self) -> Arena {
        Arena {
            process: self.process,
            regions: Seq::new(self.regions@.len(), |i: int| self.regions@[i]@),
        }
    }
}

impl DynamicMultiBufferAllocator {
    /// Whether the allocator is in a valid state.
    pub open spec fn wf(&self) -> bool {
        self@.wf()
    }

    /// An allocator for `process` that owns no region yet.
    pub fn new(process: ProcessRef) -> (r: DynamicMultiBufferAllocator)
        ensures
            r.wf(),
            r@ == (Arena { process, regions: seq![] }),
    {
        let r = DynamicMultiBufferAllocator { process, regions: Vec::new() };
        assert(r@.regions =~= seq![]);
        r
    }

    /// The process whose memory is managed.
    pub fn process(&self) -> (r: ProcessRef)
        ensures
            r == self@.process,
    {
        self.process
    }

    /// Gives the allocator up: the requests that hand its regions back to the
    /// target, oldest first.
    pub fn into_releases(self) -> (r: Vec<Request>)
        ensures
            r@.len() == self@.regions.len(),
            forall|i: int|
                0 <= i < r@.len() ==> (#[trigger] r@[i])@ == (RequestView::Release {
                    base: self@.regions[i].base,
                }),
    {
        let mut requests: Vec<Request> = Vec::new();
        let mut i: usize = 0;
        while i < self.regions.len()
            invariant
                0 <= i <= self.regions.len(),
                requests@.len() == i,
                forall|j: int|
                    0 <= j < i ==> (#[trigger] requests@[j])@ == (RequestView::Release {
                        base: self@.regions[j].base,
                    }),
            decreases self.regions.len() - i,
        {
            requests.push(Request::Release { base: self.regions[i].base() });
            i += 1;
        }
        requests
    }

    /// The number of regions.
    pub fn region_count(&self) -> (r: usize)
        ensures
            r == self@.regions.len(),
    {
        self.regions.len()
    }

    /// The allocator of the region with the id `i`.
    pub fn region(&self, i: usize) -> (r: &RawAllocator)
        requires
            self.wf(),
            i < self@.regions.len(),
        ensures
            r@ == self@.regions[i as int],
            r.wf(),
    {
        assert(self@.regions[i as int].wf());
        &self.regions[i]
    }

    /// Serves a request for `size` bytes from the oldest region that has room
    /// for it, or reports that none has.
    pub fn allocate(&mut self, size: usize) -> (r: Option<Allocation>)
        requires
            old(self).wf(),
            size > 0,
        ensures
            final(self).wf(),
            final(self)@ == old(self)@.after_alloc(size),
            r == old(self)@.served(size),
    {
        let mut i: usize = 0;
        while i < self.regions.len()
            invariant
                self@ == old(self)@,
                self.wf(),
                size > 0,
                0 <= i <= self.regions.len(),
                forall|j: int| 0 <= j < i ==> (#[trigger] self@.regions[j]).served(size) is None,
            decreases self.regions.len() - i,
        {
            let ghost before = self@;
            assert(before.regions[i as int].wf());
            let r = self.regions[i].allocate(size);
            if r.is_some() {
                proof {
                    assert(before.serves_first(size, i as int));
                    lemma_serving_unique(before, size, i as int);
                    assert(self@.regions =~= before.regions.update(
                        i as int,
                        before.regions[i as int].after_alloc(size),
                    ));
                }
                return r;
            }
            proof {
                assert(self@.regions =~= before.regions);
            }
            i += 1;
        }
        proof {
            lemma_not_served(self@, size);
        }
        None
    }

    /// Whether the `len` bytes at `base` may become a region of this
    /// allocator.
    pub fn admits(&self, base: usize, len: usize) -> (r: bool)
        requires
            self.wf(),
        ensures
            r == self@.admits(base, len),
    {
        if self.regions.len() >= usize::MAX - 1 {
            return false;
        }
        if base == 0 || len == 0 || len > usize::MAX - base {
            return false;
        }
        if self.process.is_x86() && (base as u64 > NARROW_LIMIT || len as u64 > NARROW_LIMIT
            - base as u64) {
            return false;
        }
        let mut i: usize = 0;
        while i < self.regions.len()
            invariant
                self.wf(),
                0 <= i <= self.regions.len(),
                base + len <= usize::MAX,
                forall|j: int| 0 <= j < i ==> clear_of(#[trigger] self@.regions[j], base, len),
            decreases self.regions.len() - i,
        {
            let r = &self.regions[i];
            assert(self@.regions[i as int].wf());
            if !(base + len <= r.base() || r.base() + r.capacity() <= base) {
                return false;
            }
            i += 1;
        }
        true
    }

    /// Adds the `len` bytes that the host reserved at `base` as the newest
    /// region, if the arena admits them. Returns whether it did.
    pub fn grow(&mut self, base: usize, len: usize) -> (accepted: bool)
        requires
            old(self).wf(),
        ensures
            final(self).wf(),
            accepted == old(self)@.admits(base, len),
            final(self)@ == if accepted {
                old(self)@.after_grow(base, len)
            } else {
                old(self)@
            },
    {
        if !self.admits(base, len) {
            return false;
        }
        let id = self.regions.len();
        let ghost before = self@;
        match RawAllocator::new(id, base, len) {
            Some(region) => {
                self.regions.push(region);
                proof {
                    assert(self@.regions =~= before.regions.push(Region::fresh(id, base, len)));
                    assert forall|i: int, j: int|
                        0 <= i < self@.regions.len() && 0 <= j < self@.regions.len() && i
                            != j implies clear_of(
                        #[trigger] self@.regions[i],
                        (#[trigger] self@.regions[j]).base,
                        self@.regions[j].size,
                    ) by {
                        if i < id && j < id {
                            assert(clear_of(
                                before.regions[i],
                                before.regions[j].base,
                                before.regions[j].size,
                            ));
                        } else if i < id {
                            assert(clear_of(before.regions[i], base, len));
                        } else {
                            assert(clear_of(before.regions[j], base, len));
                        }
                    }
                }
                true
            },
            None => unreached(),
        }
    }

    /// Takes `allocation` back into the region that holds its first byte.
    ///
    /// Returns whether the allocation was handed out by this allocator and
    /// not yet taken back; if it was not, nothing changes.
    pub fn free(&mut self, allocation: &Allocation) -> (released: bool)
        requires
            old(self).wf(),
        ensures
            final(self).wf(),
            released == old(self)@.is_live(*allocation),
            final(self)@ == old(self)@.after_free(*allocation),
    {
        let mut i: usize = 0;
        while i < self.regions.len()
            invariant
                *self == *old(self),
                self.wf(),
                0 <= i <= self.regions.len(),
                forall|j: int|
                    0 <= j < i ==> !(#[trigger] self@.regions[j]).contains(allocation.base),
            decreases self.regions.len() - i,
        {
            assert(self@.regions[i as int].wf());
            if self.regions[i].contains(allocation.base) {
                let ghost before = self@;
                proof {
                    assert(before.holds_at(allocation.base, i as int));
                    lemma_holder_unique(before, allocation.base, i as int);
                }
                let released = self.regions[i].free(allocation);
                proof {
                    assert(self@.regions =~= before.regions.update(
                        i as int,
                        before.regions[i as int].after_free(*allocation),
                    ));
                }
                return released;
            }
            i += 1;
        }
        proof {
            if exists|i: int| self@.holds_at(allocation.base, i) {
                let c = choose|c: int| self@.holds_at(allocation.base, c);
                assert(!self@.regions[c].contains(allocation.base));
            }
        }
        false
    }
}

/// No two regions of a valid arena hold the same address.
pub proof fn lemma_holder_unique(a: Arena, address: usize, i: int)
    requires
        a.wf(),
        a.holds_at(address, i),
    ensures
        a.holder(address) == Some(i),
{
    let c = choose|c: int| a.holds_at(address, c);
    if c != i {
        assert(a.regions[c].wf() && a.regions[i].wf());
        assert(clear_of(a.regions[c], a.regions[i].base, a.regions[i].size));
    }
}

/// What is served lies inside a region of the arena, holds as many bytes as
/// were asked for, and was not handed out before.
pub proof fn lemma_served_is_sound(a: Arena, n: usize)
    requires
        a.wf(),
        n > 0,
    ensures
        a.served(n) matches Some(x) ==> {
            &&& x.len == n
            &&& x.base > 0
            &&& x.end() <= usize::MAX
            &&& a.process.is_x86() ==> x.end() <= NARROW_LIMIT
            &&& a.serving(n) matches Some(i) && x.owner == i && a.regions[i].base <= x.base
                && x.end() <= a.regions[i].base + a.regions[i].size
        },
{
    if let Some(i) = a.serving(n) {
        assert(a.serves_first(n, i));
        let r = a.regions[i];
        assert(r.wf());
        let k = first_fit(r.free, n as int).unwrap();
        assert(fits_first_at(r.free, n as int, k));
        assert(r.free[k].len > 0 && r.free[k].end() <= r.size);
    }
}

/// An allocation that is handed out is not empty and lies inside the region
/// that holds its first byte.
pub proof fn lemma_live_allocation_inside(a: Arena, x: Allocation)
    requires
        a.wf(),
        a.is_live(x),
    ensures
        x.len > 0,
        a.holder(x.base) matches Some(i) && 0 <= i < a.regions.len() && a.regions[i].base
            <= x.base && x.end() <= a.regions[i].base + a.regions[i].size && x.owner == i,
        a.process.is_x86() ==> x.end() <= NARROW_LIMIT,
{
    let i = a.holder(x.base).unwrap();
    assert(a.holds_at(x.base, i));
    let r = a.regions[i];
    assert(r.wf());
    let e = r.extent_of(x).unwrap();
    let k = choose|k: int| 0 <= k < r.live.len() && r.live[k] == e;
    assert(r.live[k].len > 0 && r.live[k].end() <= r.size);
}

/// No two allocations that are handed out share an address.
pub proof fn lemma_live_allocations_apart(a: Arena, x: Allocation, y: Allocation)
    requires
        a.wf(),
        a.is_live(x),
        a.is_live(y),
        x != y,
    ensures
        x.disjoint(y),
{
    lemma_live_allocation_inside(a, x);
    lemma_live_allocation_inside(a, y);
    let i = a.holder(x.base).unwrap();
    let j = a.holder(y.base).unwrap();
    if i == j {
        let r = a.regions[i];
        assert(r.wf());
        let ex = r.extent_of(x).unwrap();
        let ey = r.extent_of(y).unwrap();
        let kx = choose|k: int| 0 <= k < r.live.len() && r.live[k] == ex;
        let ky = choose|k: int| 0 <= k < r.live.len() && r.live[k] == ey;
        assert(ex != ey);
        assert(r.live[kx].disjoint(r.live[ky]));
    } else {
        assert(clear_of(a.regions[i], a.regions[j].base, a.regions[j].size));
    }
}

/// A request keeps a valid arena valid. What it is served with was not
/// handed out before and is handed out afterwards; and whatever was handed
/// out before still is.
pub proof fn lemma_request_hands_out(a: Arena, n: usize)
    requires
        a.wf(),
        n > 0,
    ensures
        a.after_alloc(n).wf(),
        a.served(n) matches Some(x) ==> !a.is_live(x) && a.after_alloc(n).is_live(x),
        forall|y: Allocation| a.is_live(y) ==> #[trigger] a.after_alloc(n).is_live(y),
        forall|y: Allocation| #[trigger]
            a.after_alloc(n).is_live(y) ==> a.is_live(y) || a.served(n) == Some(y),
{
    if let Some(i) = a.serving(n) {
        assert(a.serves_first(n, i));
        let r = a.regions[i];
        assert(r.wf());
        lemma_alloc_hands_out(r, n);
        lemma_served_is_sound(a, n);
        let after = a.after_alloc(n);
        let e = r.served(n).unwrap();
        let x = r.allocation(e);
        assert(after.regions[i] == r.after_alloc(n));
        assert forall|k: int| 0 <= k < after.regions.len() implies (
        #[trigger] after.regions[k]).wf() && after.regions[k].id == k by {
            if k != i {
                assert(after.regions[k] == a.regions[k]);
                assert(a.regions[k].wf());
            }
        }
        assert forall|k: int, m: int|
            0 <= k < after.regions.len() && 0 <= m < after.regions.len() && k != m implies clear_of(
            #[trigger] after.regions[k],
            (#[trigger] after.regions[m]).base,
            after.regions[m].size,
        ) by {
            assert(clear_of(a.regions[k], a.regions[m].base, a.regions[m].size));
        }
        assert(after.wf()) by {
            if a.process.is_x86() {
                assert forall|k: int| 0 <= k < after.regions.len() implies (
                #[trigger] after.regions[k]).base + after.regions[k].size <= NARROW_LIMIT by {
                    assert(a.regions[k].base + a.regions[k].size <= NARROW_LIMIT);
                }
            }
        }
        assert(a.holds_at(x.base, i));
        lemma_holder_unique(a, x.base, i);
        assert(after.holds_at(x.base, i));
        lemma_holder_unique(after, x.base, i);
        assert forall|y: Allocation| a.is_live(y) implies #[trigger] after.is_live(y) by {
            let j = a.holder(y.base).unwrap();
            assert(a.holds_at(y.base, j));
            assert(after.holds_at(y.base, j));
            lemma_holder_unique(after, y.base, j);
            if j == i {
                let f = r.extent_of(y).unwrap();
                assert(r.after_alloc(n).live.contains(f));
            }
        }
        assert forall|y: Allocation| #[trigger] after.is_live(y) implies a.is_live(y) || y
            == x by {
            let j = after.holder(y.base).unwrap();
            assert(after.holds_at(y.base, j));
            assert(a.holds_at(y.base, j));
            lemma_holder_unique(a, y.base, j);
            if j == i {
                let f = r.extent_of(y).unwrap();
                assert(r.after_alloc(n).extent_of(y) == Some(f));
                if !r.live.contains(f) {
                    assert(f == e);
                    assert(y.owner == x.owner && y.len == x.len);
                    assert(y.base == x.base);
                }
            }
        }
    }
}

/// In a valid arena every region accounts for all of its bytes.
pub proof fn lemma_valid_arena_accounts(a: Arena)
    requires
        a.wf(),
    ensures
        a.accounted(),
{
    assert forall|i: int| 0 <= i < a.regions.len() implies total(
        (#[trigger] a.regions[i]).free,
    ) + total(a.regions[i].live) == a.regions[i].size by {
        assert(a.regions[i].wf());
    }
}

/// A request leaves every region accounting for all of its bytes, moves
/// exactly the bytes that were asked for from free to live in one region, and
/// is served with memory that nothing else has.
pub proof fn lemma_request_accounts(a: Arena, n: usize)
    requires
        a.wf(),
        n > 0,
    ensures
        a.requested(a.after_alloc(n), n),
{
    let after = a.after_alloc(n);
    lemma_request_hands_out(a, n);
    lemma_served_is_sound(a, n);
    assert(after.accounted()) by {
        assert forall|i: int| 0 <= i < after.regions.len() implies total(
            (#[trigger] after.regions[i]).free,
        ) + total(after.regions[i].live) == after.regions[i].size by {
            assert(after.regions[i].wf());
        }
    }
    if let Some(i) = a.serving(n) {
        assert(a.serves_first(n, i));
        let r = a.regions[i];
        let x = a.served(n).unwrap();
        assert(r.wf());
        assert(after.regions[i] == r.after_alloc(n));
        assert(after.regions[i].wf());
        let e = r.served(n).unwrap();
        lemma_total_push(r.live, e);
        assert forall|y: Allocation| a.is_live(y) implies #[trigger] x.disjoint(y) by {
            lemma_live_allocations_apart(after, x, y);
        }
    }
}

/// A box that is taken and given back leaves no trace: the allocator is
/// exactly as it was, its free lists included.
pub proof fn lemma_take_and_give_back(a: Arena, n: usize)
    requires
        a.wf(),
        n > 0,
        a.served(n) is Some,
    ensures
        a.after_alloc(n).after_free(a.served(n).unwrap()) == a,
{
    let i = a.serving(n).unwrap();
    assert(a.serves_first(n, i));
    let r = a.regions[i];
    assert(r.wf());
    let x = a.served(n).unwrap();
    lemma_request_hands_out(a, n);
    lemma_served_is_sound(a, n);
    lemma_alloc_then_free_restores(r, n);
    let mid = a.after_alloc(n);
    assert(mid.holds_at(x.base, i));
    lemma_holder_unique(mid, x.base, i);
    assert(mid.after_free(x).regions =~= a.regions);
}

/// Taking an allocation back keeps a valid arena valid. The allocation is
/// not handed out afterwards, and every other is if and only if it was
/// before.
pub proof fn lemma_return_takes_back(a: Arena, x: Allocation)
    requires
        a.wf(),
    ensures
        a.after_free(x).wf(),
        !a.after_free(x).is_live(x),
        forall|y: Allocation| y != x ==> a.is_live(y) == #[trigger] a.after_free(x).is_live(y),
        !a.is_live(x) ==> a.after_free(x).regions =~= a.regions,
{
    if let Some(i) = a.holder(x.base) {
        assert(a.holds_at(x.base, i));
        let r = a.regions[i];
        assert(r.wf());
        lemma_free_takes_back(r, x);
        let after = a.after_free(x);
        assert(after.regions[i] == r.after_free(x));
        assert forall|k: int| 0 <= k < after.regions.len() implies (
        #[trigger] after.regions[k]).wf() && after.regions[k].id == k by {
            if k != i {
                assert(after.regions[k] == a.regions[k]);
                assert(a.regions[k].wf());
            }
        }
        assert forall|k: int, m: int|
            0 <= k < after.regions.len() && 0 <= m < after.regions.len() && k != m implies clear_of(
            #[trigger] after.regions[k],
            (#[trigger] after.regions[m]).base,
            after.regions[m].size,
        ) by {
            assert(clear_of(a.regions[k], a.regions[m].base, a.regions[m].size));
        }
        assert(after.wf()) by {
            if a.process.is_x86() {
                assert forall|k: int| 0 <= k < after.regions.len() implies (
                #[trigger] after.regions[k]).base + after.regions[k].size <= NARROW_LIMIT by {
                    assert(a.regions[k].base + a.regions[k].size <= NARROW_LIMIT);
                }
            }
        }
        assert(after.holds_at(x.base, i));
        lemma_holder_unique(after, x.base, i);
        assert forall|y: Allocation| y != x implies a.is_live(y) == #[trigger] after.is_live(
            y,
        ) by {
            lemma_same_holder(a, after, y.base);
        }
    } else {
        assert(a.after_free(x) == a);
    }
}

/// Two arenas whose regions stand at the same places hold an address in the
/// same region.
proof fn lemma_same_holder(a: Arena, b: Arena, address: usize)
    requires
        a.wf(),
        b.wf(),
        a.regions.len() == b.regions.len(),
        forall|k: int|
            0 <= k < a.regions.len() ==> (#[trigger] a.regions[k]).base == b.regions[k].base
                && a.regions[k].size == b.regions[k].size,
    ensures
        a.holder(address) == b.holder(address),
{
    if let Some(i) = a.holder(address) {
        assert(a.holds_at(address, i));
        assert(a.regions[i].base == b.regions[i].base);
        assert(b.holds_at(address, i));
        lemma_holder_unique(b, address, i);
    } else if let Some(j) = b.holder(address) {
        assert(b.holds_at(address, j));
        assert(a.regions[j].base == b.regions[j].base);
        assert(a.holds_at(address, j));
    }
}

/// A region that the arena admits keeps it valid and changes nothing of what
/// is handed out; and a request that fits in the region is served
/// afterwards.
pub proof fn lemma_growth_serves(a: Arena, base: usize, len: usize, n: usize)
    requires
        a.wf(),
        a.admits(base, len),
        0 < n <= len,
    ensures
        a.after_grow(base, len).wf(),
        a.after_grow(base, len).served(n) is Some,
        forall|y: Allocation| a.is_live(y) == #[trigger] a.after_grow(base, len).is_live(y),
{
    let after = a.after_grow(base, len);
    let id = a.regions.len() as int;
    let fresh = Region::fresh(id as usize, base, len);
    assert(after.regions[id] == fresh);
    assert(fresh.free.drop_last() =~= Seq::<Extent>::empty());
    assert(total(fresh.free.drop_last()) == 0);
    assert(total(fresh.free) == len);
    assert(fresh.wf());
    assert forall|k: int| 0 <= k < after.regions.len() implies (#[trigger] after.regions[k]).wf()
        && after.regions[k].id == k by {
        if k < id {
            assert(after.regions[k] == a.regions[k]);
            assert(a.regions[k].wf());
        }
    }
    assert forall|k: int, m: int|
        0 <= k < after.regions.len() && 0 <= m < after.regions.len() && k != m implies clear_of(
        #[trigger] after.regions[k],
        (#[trigger] after.regions[m]).base,
        after.regions[m].size,
    ) by {
        if k < id && m < id {
            assert(clear_of(a.regions[k], a.regions[m].base, a.regions[m].size));
        } else if k < id {
            assert(clear_of(a.regions[k], base, len));
        } else {
            assert(clear_of(a.regions[m], base, len));
        }
    }
    assert(after.wf()) by {
        if a.process.is_x86() {
            assert forall|k: int| 0 <= k < after.regions.len() implies (
            #[trigger] after.regions[k]).base + after.regions[k].size <= NARROW_LIMIT by {
                if k < id {
                    assert(a.regions[k].base + a.regions[k].size <= NARROW_LIMIT);
                }
            }
        }
    }
    assert(fits_first_at(fresh.free, n as int, 0));
    lemma_first_fit_unique(fresh.free, n as int, 0);
    assert(fresh.served(n) is Some);
    lemma_some_region_serves(after, n, id);
    assert forall|y: Allocation| a.is_live(y) == #[trigger] after.is_live(y) by {
        if let Some(i) = a.holder(y.base) {
            assert(a.holds_at(y.base, i));
            assert(after.holds_at(y.base, i));
            lemma_holder_unique(after, y.base, i);
        } else if let Some(j) = after.holder(y.base) {
            assert(after.holds_at(y.base, j));
            if j < id {
                assert(a.holds_at(y.base, j));
            } else {
                assert(after.regions[j].live =~= Seq::<Extent>::empty());
            }
        }
    }
}

/// If a region can serve a request, the oldest region that can is found.
proof fn lemma_some_region_serves(a: Arena, n: usize, i: int)
    requires
        0 <= i < a.regions.len(),
        a.regions[i].served(n) is Some,
    ensures
        a.serving(n) is Some,
        a.served(n) is Some,
    decreases i,
{
    if exists|j: int| 0 <= j < i && (#[trigger] a.regions[j]).served(n) is Some {
        let j = choose|j: int| 0 <= j < i && (#[trigger] a.regions[j]).served(n) is Some;
        lemma_some_region_serves(a, n, j);
    } else {
        assert(a.serves_first(n, i));
    }
}

pub proof fn lemma_serving_unique(a: Arena, n: usize, i: int)
    requires
        a.serves_first(n, i),
    ensures
        a.serving(n) == Some(i),
{
    let c = choose|c: int| a.serves_first(n, c);
    if c < i {
        assert(a.regions[c].served(n) is None);
    } else if i < c {
        assert(a.regions[i].served(n) is None);
    }
}

pub proof fn lemma_not_served(a: Arena, n: usize)
    requires
        forall|j: int| 0 <= j < a.regions.len() ==> (#[trigger] a.regions[j]).served(n) is None,
    ensures
        a.serving(n) is None,
{
    if exists|i: int| a.serves_first(n, i) {
        let c = choose|c: int| a.serves_first(n, c);
        assert(a.regions[c].served(n) is None);
    }
}

} // verus!

