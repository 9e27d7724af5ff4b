//! Owned slices of the target's memory.

use vstd::prelude::*;
use vstd::slice::slice_to_vec;
use crate::process::ProcessRef;
use crate::process_memory::dynamic_allocator::{
    growth_for, growth_len, lemma_growth_serves, lemma_request_accounts,
    lemma_return_takes_back, lemma_served_is_sound, lemma_valid_arena_accounts, Arena,
    DynamicMultiBufferAllocator,
};
use crate::process_memory::raw_allocator::{Allocation, RawAllocator};
use crate::protocol::{Request, RequestView};

verus! {

/// A range of the target's memory, addressed for reading, writing and
/// flushing.
#[derive(Debug, Clone, Copy, PartialEq, Eq, Structural)]
pub struct ProcessMemorySlice {
    pub process: ProcessRef,
    pub address: usize,
    pub len: usize,
}

impl ProcessMemorySlice {
    /// The `len` bytes at `address` in `process`.
    pub fn from_raw_parts(address: usize, len: usize, process: ProcessRef) -> (r:
        ProcessMemorySlice)
        ensures
            r == (ProcessMemorySlice { process, address, len }),
    {
        ProcessMemorySlice { process, address, len }
    }

    /// The request that copies `bytes` to the slice, `offset` bytes in.
    ///
    /// The bytes must lie within the slice.
    pub fn write(&self, offset: usize, bytes: &[u8]) -> (r: Request)
        requires
            offset + bytes@.len() <= self.len,
            self.address + self.len <= usize::MAX,
        ensures
            r@ == (RequestView::Write { address: (self.address + offset) as usize, bytes: bytes@ }),
    {
        Request::Write { address: self.address + offset, bytes: slice_to_vec(bytes) }
    }

    /// The request that copies `len` bytes out of the slice, from `offset`
    /// bytes in.
    ///
    /// The bytes must lie within the slice.
    pub fn read(&self, offset: usize, len: usize) -> (r: Request)
        requires
            offset + len <= self.len,
            self.address + self.len <= usize::MAX,
        ensures
            r@ == (RequestView::Read { address: (self.address + offset) as usize, len }),
    {
        Request::Read { address: self.address + offset, len }
    }

    /// The request that flushes the instruction cache for the whole slice.
    pub fn flush_instruction_cache(&self) -> (r: Request)
        ensures
            r@ == (RequestView::Flush { address: self.address, len: self.len }),
    {
        Request::Flush { address: self.address, len: self.len }
    }
}

/// The owner of one allocation in the target.
///
/// A box is made by a [`RemoteBoxAllocator`] and goes back to it through
/// [`RemoteBoxAllocator::free`], which consumes it. It cannot be copied.
#[derive(Debug)]
pub struct RemoteBox {
    allocation: Allocation,
    process: ProcessRef,
}

impl View for RemoteBox {
    type V = Allocation;

    closed spec fn view(&self) -> Allocation {
        self.allocation
    }
}

impl RemoteBox {
    /// Every box ends within the address space.
    #[verifier::type_invariant]
    closed spec fn within_address_space(self) -> bool {
        self.allocation.base + self.allocation.len <= usize::MAX
    }

    /// The process that the box lives in.
    pub closed spec fn spec_process(&self) -> ProcessRef {
        self.process
    }

    /// The box for `allocation` in `process`.
    pub(crate) fn new(process: ProcessRef, allocation: Allocation) -> (r: RemoteBox)
        requires
            allocation.end() <= usize::MAX,
        ensures
            r@ == allocation,
            r.spec_process() == process,
    {
        RemoteBox { allocation, process }
    }

    /// The process that the box lives in.
    pub fn process(&self) -> (r: ProcessRef)
        ensures
            r == self.spec_process(),
    {
        self.process
    }

    /// The allocation that the box owns.
    pub fn allocation(&self) -> (r: Allocation)
        ensures
            r == self@,
    {
        self.allocation
    }

    /// The number of bytes that the box owns.
    pub fn len(&self) -> (r: usize)
        ensures
            r == self@.len,
    {
        self.allocation.len
    }

    /// The address of the box in the target.
    pub fn address(&self) -> (r: usize)
        ensures
            r == self@.base,
    {
        self.allocation.base
    }

    /// The memory of the box, for reading, writing and flushing.
    pub fn memory(&self) -> (r: ProcessMemorySlice)
        ensures
            r == (ProcessMemorySlice {
                process: self.spec_process(),
                address: self@.base,
                len: self@.len,
            }),
            r.address + r.len <= usize::MAX,
    {
        proof {
            use_type_invariant(self);
        }
        ProcessMemorySlice::from_raw_parts(
            self.allocation.base,
            self.allocation.len,
            self.process,
        )
    }

    /// The request that copies the byte image `value` to the start of the box.
    ///
    /// The image must fit in the box.
    pub fn write(&self, value: &[u8]) -> (r: Request)
        requires
            value@.len() <= self@.len,
        ensures
            r@ == (RequestView::Write { address: self@.base, bytes: value@ }),
    {
        self.memory().write(0, value)
    }

    /// The request that copies the whole box out of the target.
    pub fn read(&self) -> (r: Request)
        ensures
            r@ == (RequestView::Read { address: self@.base, len: self@.len }),
    {
        self.memory().read(0, self.allocation.len)
    }

    /// The address of the box in the target.
    pub fn as_raw_ptr(&mut self) -> (r: usize)
        ensures
            *final(self) == *old(self),
            r == old(self)@.base,
    {
        self.allocation.base
    }

    /// The address of the value in the box.
    pub fn as_ptr(&mut self) -> (r: usize)
        ensures
            *final(self) == *old(self),
            r == old(self)@.base,
    {
        self.allocation.base
    }
}

/// What a request for memory comes to.
#[derive(Debug)]
pub enum AllocStep {
    /// The box that serves the request.
    Ready(RemoteBox),
    /// No region has room. The host is to reserve `len` bytes and add them
    /// with [`RemoteBoxAllocator::grow`]; the request then succeeds.
    Reserve { len: usize },
    /// No region has room, and the request is too large for one to be
    /// reserved: rounded up to whole pages it exceeds the address space.
    Refused,
}

/// What a request for a copy of a value in the target comes to.
#[derive(Debug)]
pub enum CopyStep {
    /// The box that will hold the copy, and the request that fills it.
    Write { target: RemoteBox, request: Request },
    /// No region has room. The host is to reserve `len` bytes and add them
    /// with [`RemoteBoxAllocator::grow`]; the request then succeeds.
    Reserve { len: usize },
    /// No region has room, and the value is too large for one to be
    /// reserved: rounded up to whole pages it exceeds the address space.
    Refused,
}

/// What a request for `size` bytes is answered with when no region has room:
/// the size of the region to reserve, if there can be such a region.
pub open spec fn unserved(r: AllocStep, size: usize) -> bool {
    if growth_len(size) <= usize::MAX {
        r matches AllocStep::Reserve { len } && len == growth_len(size)
    } else {
        r is Refused
    }
}

/// The allocator that all boxes of one target come from and go back to.
#[derive(Debug)]
pub struct RemoteBoxAllocator {
    inner: DynamicMultiBufferAllocator,
}

impl View for RemoteBoxAllocator {
    type V = Arena;

    closed spec fn view(&self) -> Arena {
        self.inner@
    }
}

impl RemoteBoxAllocator {
    /// Whether the allocator is in a valid state.
    pub open spec fn wf(&self) -> bool {
        self@.wf()
    }

    /// Whether `b` is a box of this allocator that has not gone back to it.
    pub open spec fn owns(&self, b: &RemoteBox) -> bool {
        self@.is_live(b@) && b.spec_process() == self@.process
    }

    /// An allocator for `process` that has reserved nothing yet.
    pub fn new(process: ProcessRef) -> (r: RemoteBoxAllocator)
        ensures
            r.wf(),
            r@ == (Arena { process, regions: seq![] }),
    {
        RemoteBoxAllocator { inner: DynamicMultiBufferAllocator::new(process) }
    }

    /// The process whose memory is managed.
    pub fn process(&self) -> (r: ProcessRef)
        ensures
            r == self@.process,
    {
        self.inner.process()
    }

    /// Gives the allocator up: the requests that hand its regions back to the
    /// target, oldest first. Every box of the allocator goes with them.
    pub fn into_releases(self) -> (r: Vec<Request>)
        ensures
            r@.len() == self@.regions.len(),
            forall|i: int|
                0 <= i < r@.len() ==> (#[trigger] r@[i])@ == (RequestView::Release {
                    base: self@.regions[i].base,
                }),
    {
        self.inner.into_releases()
    }

    /// The number of regions that the allocator has reserved.
    pub fn region_count(&self) -> (r: usize)
        ensures
            r == self@.regions.len(),
    {
        self.inner.region_count()
    }

    /// The allocator of the region with the id `i`.
    pub fn region(&self, i: usize) -> (r: &RawAllocator)
        requires
            self.wf(),
            i < self@.regions.len(),
        ensures
            r@ == self@.regions[i as int],
            r.wf(),
    {
        self.inner.region(i)
    }

    /// Asks for a box of `size` bytes.
    ///
    /// The request is served from the oldest region that has room. When none
    /// has, nothing changes and the answer says how much the host is to
    /// reserve, or that no region can be that large.
    pub fn alloc_raw(&mut self, size: usize) -> (r: AllocStep)
        requires
            old(self).wf(),
            size > 0,
        ensures
            final(self).wf(),
            final(self)@ == old(self)@.after_alloc(size),
            old(self)@.requested(final(self)@, size),
            match old(self)@.served(size) {
                Some(a) => r matches AllocStep::Ready(b) && b@ == a && b.spec_process() == old(
                    self,
                )@.process,
                None => unserved(r, size),
            },
    {
        proof {
            lemma_served_is_sound(self@, size);
            lemma_request_accounts(self@, size);
        }
        match self.inner.allocate(size) {
            Some(allocation) => AllocStep::Ready(RemoteBox::new(self.inner.process(), allocation)),
            None => match growth_for(size) {
                Some(len) => AllocStep::Reserve { len },
                None => AllocStep::Refused,
            },
        }
    }

    /// Asks for a box that a value of type `T` fits in.
    pub fn alloc_uninit<T>(&mut self) -> (r: AllocStep)
        requires
            old(self).wf(),
            core::mem::size_of::<T>() > 0,
        ensures
            final(self).wf(),
            final(self)@ == old(self)@.after_alloc(core::mem::size_of::<T>()),
            old(self)@.requested(final(self)@, core::mem::size_of::<T>()),
            match old(self)@.served(core::mem::size_of::<T>()) {
                Some(a) => r matches AllocStep::Ready(b) && b@ == a && b.spec_process() == old(
                    self,
                )@.process,
                None => unserved(r, core::mem::size_of::<T>()),
            },
    {
        self.alloc_raw(core::mem::size_of::<T>())
    }

    /// Asks for a box that `value` fits in.
    pub fn alloc_uninit_for<T: ?Sized>(&mut self, value: &T) -> (r: AllocStep)
        requires
            old(self).wf(),
            core::mem::size_of_val::<T>(value) > 0,
        ensures
            final(self).wf(),
            final(self)@ == old(self)@.after_alloc(core::mem::size_of_val::<T>(value)),
            old(self)@.requested(final(self)@, core::mem::size_of_val::<T>(value)),
            match old(self)@.served(core::mem::size_of_val::<T>(value)) {
                Some(a) => r matches AllocStep::Ready(b) && b@ == a && b.spec_process() == old(
                    self,
                )@.process,
                None => unserved(r, core::mem::size_of_val::<T>(value)),
            },
    {
        self.alloc_raw(core::mem::size_of_val(value))
    }

    /// Asks for a box that holds a copy of the byte image `value`.
    ///
    /// When a region has room, the answer is the box and the request that
    /// fills it with the image.
    pub fn alloc_and_copy(&mut self, value: &[u8]) -> (r: CopyStep)
        requires
            old(self).wf(),
            value@.len() > 0,
        ensures
            final(self).wf(),
            final(self)@ == old(self)@.after_alloc(value@.len() as usize),
            old(self)@.requested(final(self)@, value@.len() as usize),
            match old(self)@.served(value@.len() as usize) {
                Some(a) => r matches CopyStep::Write { target, request } && target@ == a
                    && target.spec_process() == old(self)@.process && request@ == (
                    RequestView::Write { address: a.base, bytes: value@ }),
                None => if growth_len(value@.len() as usize) <= usize::MAX {
                    r matches CopyStep::Reserve { len } && len == growth_len(
                        value@.len() as usize,
                    )
                } else {
                    r is Refused
                },
            },
    {
        match self.alloc_raw(value.len()) {
            AllocStep::Ready(target) => {
                let request = target.write(value);
                CopyStep::Write { target, request }
            },
            AllocStep::Reserve { len } => CopyStep::Reserve { len },
            AllocStep::Refused => CopyStep::Refused,
        }
    }

    /// Whether the `len` bytes at `base` may become a region of this
    /// allocator.
    pub fn admits(&self, base: usize, len: usize) -> (r: bool)
        requires
            self.wf(),
        ensures
            r == self@.admits(base, len),
    {
        self.inner.admits(base, len)
    }

    /// Adds the `len` bytes that the host reserved at `base` as the newest
    /// region, if the allocator admits them. Returns whether it did.
    pub fn grow(&mut self, base: usize, len: usize) -> (accepted: bool)
        requires
            old(self).wf(),
        ensures
            final(self).wf(),
            final(self)@.accounted(),
            accepted == old(self)@.admits(base, len),
            final(self)@ == if accepted {
                old(self)@.after_grow(base, len)
            } else {
                old(self)@
            },
            forall|y: Allocation| old(self)@.is_live(y) == #[trigger] final(self)@.is_live(y),
    {
        proof {
            if self@.admits(base, len) {
                lemma_growth_serves(self@, base, len, len);
            }
        }
        let accepted = self.inner.grow(base, len);
        proof {
            lemma_valid_arena_accounts(self@);
        }
        accepted
    }

    /// Takes back the allocation of a box that the engine keeps as a bare
    /// allocation.
    pub(crate) fn release(&mut self, allocation: &Allocation) -> (released: bool)
        requires
            old(self).wf(),
        ensures
            final(self).wf(),
            released == old(self)@.is_live(*allocation),
            final(self)@ == old(self)@.after_free(*allocation),
    {
        self.inner.free(allocation)
    }

    /// Takes the box back.
    ///
    /// Returns whether the box was one of this allocator; if it was not,
    /// nothing changes.
    pub fn free(&mut self, b: RemoteBox) -> (released: bool)
        requires
            old(self).wf(),
        ensures
            final(self).wf(),
            final(self)@.accounted(),
            released == old(self)@.is_live(b@),
            final(self)@ == old(self)@.after_free(b@),
            !final(self)@.is_live(b@),
            forall|y: Allocation|
                y != b@ ==> old(self)@.is_live(y) == #[trigger] final(self)@.is_live(y),
    {
        proof {
            lemma_return_takes_back(self@, b@);
        }
        let released = self.inner.free(&b.allocation);
        proof {
            lemma_valid_arena_accounts(self@);
        }
        released
    }
}

} // verus!
