//! What the requests that touch memory mean.
//!
//! The engine never sees the memory of the target. This module says what a
//! host that carries out its requests faithfully does to that memory, which
//! has one byte at every address, and what follows for the boxes of an
//! allocator.

use vstd::prelude::*;
use crate::process_memory::dynamic_allocator::{lemma_live_allocations_apart, Arena};
use crate::process_memory::raw_allocator::Allocation;
use crate::protocol::RequestView;

verus! {

/// The memory after `bytes` were copied to `address`.
pub open spec fn written(memory: spec_fn(int) -> u8, address: int, bytes: Seq<u8>) -> spec_fn(
    int,
) -> u8 {
    |a: int|
        if address <= a < address + bytes.len() {
            bytes[a - address]
        } else {
            memory(a)
        }
}

/// The `len` bytes of the memory at `address`.
pub open spec fn read_out(memory: spec_fn(int) -> u8, address: int, len: int) -> Seq<u8> {
    Seq::new(len as nat, |i: int| memory(address + i))
}

/// The memory after a request was carried out: a write changes the bytes
/// that it names, and no other request changes any.
pub open spec fn performed(memory: spec_fn(int) -> u8, request: RequestView) -> spec_fn(
    int,
) -> u8 {
    match request {
        RequestView::Write { address, bytes } => written(memory, address as int, bytes),
        _ => memory,
    }
}

/// The bytes that a read is answered with.
pub open spec fn answer(memory: spec_fn(int) -> u8, request: RequestView) -> Seq<u8> {
    match request {
        RequestView::Read { address, len } => read_out(memory, address as int, len as int),
        _ => Seq::empty(),
    }
}

/// The request that fills the allocation with the byte image `value`.
pub open spec fn write_of(a: Allocation, value: Seq<u8>) -> RequestView {
    RequestView::Write { address: a.base, bytes: value }
}

/// The request that fetches the allocation.
pub open spec fn read_of(a: Allocation) -> RequestView {
    RequestView::Read { address: a.base, len: a.len }
}

/// What was written is what is read at the same place.
pub proof fn lemma_read_back(memory: spec_fn(int) -> u8, address: int, bytes: Seq<u8>)
    ensures
        read_out(written(memory, address, bytes), address, bytes.len() as int) == bytes,
{
    assert(read_out(written(memory, address, bytes), address, bytes.len() as int) =~= bytes);
}

/// A write leaves every byte outside its range as it was.
pub proof fn lemma_write_keeps_others(
    memory: spec_fn(int) -> u8,
    address: int,
    bytes: Seq<u8>,
    other: int,
    len: int,
)
    requires
        len >= 0,
        other + len <= address || address + bytes.len() <= other,
    ensures
        read_out(written(memory, address, bytes), other, len) == read_out(memory, other, len),
{
    assert(read_out(written(memory, address, bytes), other, len) =~= read_out(
        memory,
        other,
        len,
    ));
}

/// A value that fills a box is the value that the box is read as: after the
/// request that writes the image, the request that reads the box is answered
/// with the image.
pub proof fn lemma_box_round_trip(memory: spec_fn(int) -> u8, a: Allocation, value: Seq<u8>)
    requires
        value.len() == a.len,
    ensures
        answer(performed(memory, write_of(a, value)), read_of(a)) == value,
{
    lemma_read_back(memory, a.base as int, value);
}

/// Writing to one box changes nothing of what another box of the same
/// allocator is read as.
pub proof fn lemma_boxes_do_not_interfere(
    arena: Arena,
    memory: spec_fn(int) -> u8,
    x: Allocation,
    y: Allocation,
    value: Seq<u8>,
)
    requires
        arena.wf(),
        arena.is_live(x),
        arena.is_live(y),
        x != y,
        value.len() <= x.len,
    ensures
        answer(performed(memory, write_of(x, value)), read_of(y)) == answer(memory, read_of(y)),
{
    lemma_live_allocations_apart(arena, x, y);
    lemma_write_keeps_others(memory, x.base as int, value, y.base as int, y.len as int);
}

} // verus!
