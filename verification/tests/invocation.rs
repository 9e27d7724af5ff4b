use std::collections::BTreeMap;

use dll_syringe::error::SyringeError;
use dll_syringe::invocation::Invocation;
use dll_syringe::process::ProcessRef;
use dll_syringe::process_memory::remote_box::RemoteBoxAllocator;
use dll_syringe::protocol::{Reply, Request};
use dll_syringe::stub::{Input, InvokeStep, Job, RemoteProcedureStub, StubKind};

const CALLEE: usize = 0x7FF9_0000_1000;

/// A target whose only function copies four bytes from its argument to its
/// result.
struct Memory {
    bytes: BTreeMap<usize, u8>,
    next_region: usize,
    seen: Vec<String>,
}

impl Memory {
    fn new() -> Memory {
        Memory { bytes: BTreeMap::new(), next_region: 0x2_0000_0000, seen: Vec::new() }
    }

    fn read(&self, address: usize, len: usize) -> Vec<u8> {
        (0..len).map(|i| *self.bytes.get(&(address + i)).unwrap_or(&0xCC)).collect()
    }

    fn word(&self, address: usize) -> usize {
        let mut raw = [0u8; 8];
        raw.copy_from_slice(&self.read(address, 8));
        u64::from_le_bytes(raw) as usize
    }

    fn perform(&mut self, request: Request) -> Reply {
        match request {
            Request::Reserve { len } => {
                self.seen.push(format!("reserve {}", len));
                let base = self.next_region;
                self.next_region += len;
                Reply::Reserved { base }
            }
            Request::Write { address, bytes } => {
                self.seen.push(format!("write {} at {:#x}", bytes.len(), address));
                for (i, b) in bytes.iter().enumerate() {
                    self.bytes.insert(address + i, *b);
                }
                Reply::Done
            }
            Request::Flush { address, len } => {
                self.seen.push(format!("flush {} at {:#x}", len, address));
                Reply::Done
            }
            Request::StartThread { entry, parameter } => {
                self.seen.push(format!("start {:#x} with {:#x}", entry, parameter));
                assert_eq!(self.read(entry + 4, 2), vec![0x48, 0xBA]);
                let result = self.word(entry + 6);
                assert_eq!(self.word(entry + 19), CALLEE);
                let value = self.read(parameter, 4);
                for (i, b) in value.iter().enumerate() {
                    self.bytes.insert(result + i, *b);
                }
                Reply::Thread { handle: 0x50, last_error: 0 }
            }
            Request::AwaitThread { .. } => Reply::Waited { reason: 0, last_error: 0 },
            Request::QueryExitCode { .. } => {
                Reply::ExitCode { queried: true, code: 0, last_error: 0 }
            }
            Request::CloseThread { .. } => Reply::Done,
            Request::Read { address, len } => {
                self.seen.push(format!("read {} at {:#x}", len, address));
                Reply::Bytes(self.read(address, len))
            }
            other => panic!("unexpected request {:?}", other),
        }
    }
}

fn job(arg: &[u8]) -> Job {
    Job {
        kind: StubKind::CallProcedure,
        callee: CALLEE,
        result_len: 4,
        clear_result: true,
        input: Input::Image(arg.to_vec()),
    }
}

fn finish(
    memory: &mut Memory,
    allocator: &mut RemoteBoxAllocator,
    stub: &mut Option<RemoteProcedureStub>,
    mut invocation: Invocation,
    first: InvokeStep,
) -> Result<Vec<u8>, SyringeError> {
    let mut step = first;
    loop {
        match step {
            InvokeStep::Done(outcome) => {
                assert!(invocation.is_finished());
                return outcome;
            }
            InvokeStep::Next(request) => {
                assert!(!invocation.is_finished());
                let reply = memory.perform(request);
                assert!(invocation.accepts(allocator, stub, &reply));
                step = invocation.resume(allocator, stub, reply);
            }
        }
    }
}

#[test]
fn first_invocation_builds_the_stub_in_order() {
    let mut memory = Memory::new();
    let mut allocator = RemoteBoxAllocator::new(ProcessRef::new(1, false));
    let mut stub = None;
    let (invocation, first) = Invocation::begin(job(&[1, 2, 3, 4]), &mut allocator, &mut stub);
    let result = finish(&mut memory, &mut allocator, &mut stub, invocation, first);
    assert_eq!(result, Ok(vec![1, 2, 3, 4]));
    assert_eq!(
        memory.seen,
        vec![
            "reserve 4096",
            "write 44 at 0x200000008",
            "flush 44 at 0x200000008",
            "write 4 at 0x200000000",
            "write 4 at 0x200000004",
            "start 0x200000008 with 0x200000000",
            "read 4 at 0x200000004",
        ]
    );
    // the result cell was set to zero before the call
    let stub = stub.unwrap();
    assert_eq!(stub.parameter.address(), 0x2_0000_0000);
    assert_eq!(stub.parameter.len(), 4);
    assert_eq!(stub.result.address(), 0x2_0000_0004);
    assert_eq!(stub.result.len(), 4);
    assert_eq!(stub.code.address(), 0x2_0000_0008);
    assert_eq!(stub.code.len(), 44);
}

#[test]
fn stub_that_serves_the_job_is_handed_back() {
    let mut memory = Memory::new();
    let mut allocator = RemoteBoxAllocator::new(ProcessRef::new(1, false));
    let mut stub = None;
    let (invocation, first) = Invocation::begin(job(&[1, 2, 3, 4]), &mut allocator, &mut stub);
    finish(&mut memory, &mut allocator, &mut stub, invocation, first).unwrap();
    memory.seen.clear();
    let (mut kept, invocation, first) = stub.take().unwrap().call(job(&[9, 9]), &mut allocator);
    assert!(kept.is_some());
    let result = finish(&mut memory, &mut allocator, &mut kept, invocation, first);
    assert_eq!(result, Ok(vec![9, 9, 3, 4]));
    assert_eq!(memory.seen.len(), 4);
    assert!(memory.seen[0].starts_with("write 2 at"));
}

#[test]
fn stub_that_is_too_small_makes_way() {
    let mut memory = Memory::new();
    let mut allocator = RemoteBoxAllocator::new(ProcessRef::new(1, false));
    let mut stub = None;
    let (invocation, first) = Invocation::begin(job(&[1, 2, 3, 4]), &mut allocator, &mut stub);
    finish(&mut memory, &mut allocator, &mut stub, invocation, first).unwrap();
    assert_eq!(allocator.region(0).live_bytes(), 52);
    let (kept, invocation, first) =
        stub.take().unwrap().call(job(&[1, 2, 3, 4, 5, 6]), &mut allocator);
    assert!(kept.is_none());
    let mut rebuilt = kept;
    let result = finish(&mut memory, &mut allocator, &mut rebuilt, invocation, first);
    assert_eq!(result, Ok(vec![1, 2, 3, 4]));
    let rebuilt = rebuilt.unwrap();
    assert_eq!(rebuilt.parameter.len(), 6);
    // the cells of the first stub went back before the second was built
    assert_eq!(rebuilt.parameter.address(), 0x2_0000_0000);
    assert_eq!(allocator.region(0).live_bytes(), 54);
}

#[test]
fn failure_before_the_stub_is_complete_gives_its_parts_back() {
    let mut allocator = RemoteBoxAllocator::new(ProcessRef::new(1, false));
    assert!(allocator.grow(0x5000_0000, 4096));
    let mut stub = None;
    let (mut invocation, first) =
        Invocation::begin(job(&[1, 2, 3, 4]), &mut allocator, &mut stub);
    assert!(matches!(first, InvokeStep::Next(Request::Write { address: 0x5000_0008, .. })));
    assert_eq!(allocator.region(0).live_bytes(), 52);
    let step =
        invocation.resume(&mut allocator, &mut stub, Reply::Failed { code: 299, target_alive: true });
    assert!(matches!(step, InvokeStep::Done(Err(SyringeError::RemoteIo(299)))));
    assert!(stub.is_none());
    assert_eq!(allocator.region(0).live_bytes(), 0);
    assert_eq!(allocator.region(0).free_bytes(), 4096);
}

#[test]
fn invocation_takes_no_reply_out_of_turn() {
    let mut allocator = RemoteBoxAllocator::new(ProcessRef::new(1, false));
    let mut stub = None;
    let (invocation, first) = Invocation::begin(job(&[1, 2, 3, 4]), &mut allocator, &mut stub);
    assert!(matches!(first, InvokeStep::Next(Request::Reserve { len: 4096 })));
    assert!(!invocation.accepts(&allocator, &stub, &Reply::Done));
    assert!(!invocation.accepts(&allocator, &stub, &Reply::Reserved { base: 0 }));
    assert!(invocation.accepts(&allocator, &stub, &Reply::Reserved { base: 0x1000 }));
    assert!(invocation.accepts(&allocator, &stub, &Reply::Failed { code: 8, target_alive: true }));
    assert!(!invocation.awaits_result());
}
