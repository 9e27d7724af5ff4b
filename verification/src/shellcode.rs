//! The trampolines that run in the target.
//!
//! Each trampoline is entered as the start routine of a remote thread: it
//! receives one pointer-sized argument and returns a 32-bit exit code. All
//! addresses in a trampoline are absolute, so its bytes are the same wherever
//! it is placed.

use vstd::prelude::*;
use crate::assembler::{assemble_twice, encoding, machine_code, Op, Reg32, Reg64};
use crate::error::SyringeError;
use iced_x86::IcedError;

verus! {

/// The first of the two addresses that every trampoline is assembled for.
pub const PROBE_FIRST: u64 = 0x1234_5678;

/// The second of the two addresses that every trampoline is assembled for.
pub const PROBE_SECOND: u64 = 0x1111_2222;

/// The bytes that the stack pointer is lowered by in a 64-bit trampoline: the
/// shadow space of the callee, and eight bytes to align the stack.
pub const FRAME_SIZE: i32 = 40;

/// The 32-bit trampoline that calls `void procedure(const T*, R*)` with the
/// thread's argument and `return_buffer`.
pub open spec fn call_procedure_x86(procedure: u32, return_buffer: u32) -> Seq<Op> {
    seq![
        Op::LoadR32 { dst: Reg32::Eax, base: Reg32::Esp, disp: 4 },
        Op::PushImm32 { imm: return_buffer },
        Op::PushR32 { src: Reg32::Eax },
        Op::MovR32Imm { dst: Reg32::Eax, imm: procedure },
        Op::CallR32 { target: Reg32::Eax },
        Op::MovR32Imm { dst: Reg32::Eax, imm: 0 },
        Op::RetPop { bytes: 4 },
    ]
}

/// The 64-bit trampoline that calls `void procedure(const T*, R*)` with the
/// thread's argument and `return_buffer`.
pub open spec fn call_procedure_x64(procedure: u64, return_buffer: u64) -> Seq<Op> {
    seq![
        Op::SubR64Imm { dst: Reg64::Rsp, imm: FRAME_SIZE },
        Op::MovR64Imm { dst: Reg64::Rdx, imm: return_buffer },
        Op::MovR64 { dst: Reg64::Rcx, src: Reg64::Rcx },
        Op::MovR64Imm { dst: Reg64::Rax, imm: procedure },
        Op::CallR64 { target: Reg64::Rax },
        Op::MovR64Imm { dst: Reg64::Rax, imm: 0 },
        Op::AddR64Imm { dst: Reg64::Rsp, imm: FRAME_SIZE },
        Op::Ret,
    ]
}

/// The 32-bit trampoline that calls `GetProcAddress` with the module handle
/// and the name that the thread's argument points at, and stores the address
/// it returns in `return_buffer`.
///
/// The two fields of the argument are eight bytes apart in either bitness.
pub open spec fn get_proc_address_x86(get_proc_address: u32, return_buffer: u32) -> Seq<Op> {
    seq![
        Op::LoadR32 { dst: Reg32::Eax, base: Reg32::Esp, disp: 4 },
        Op::PushMem32 { base: Reg32::Eax, disp: 8 },
        Op::PushMem32 { base: Reg32::Eax, disp: 0 },
        Op::MovR32Imm { dst: Reg32::Eax, imm: get_proc_address },
        Op::CallR32 { target: Reg32::Eax },
        Op::StoreAbs32 { address: return_buffer, src: Reg32::Eax },
        Op::MovR32Imm { dst: Reg32::Eax, imm: 0 },
        Op::RetPop { bytes: 4 },
    ]
}

/// The 64-bit trampoline that calls `GetProcAddress` with the module handle
/// and the name that the thread's argument points at, and stores the address
/// it returns in `return_buffer`.
pub open spec fn get_proc_address_x64(get_proc_address: u64, return_buffer: u64) -> Seq<Op> {
    seq![
        Op::SubR64Imm { dst: Reg64::Rsp, imm: FRAME_SIZE },
        Op::LoadR64 { dst: Reg64::Rdx, base: Reg64::Rcx, disp: 8 },
        Op::LoadR64 { dst: Reg64::Rcx, base: Reg64::Rcx, disp: 0 },
        Op::MovR64Imm { dst: Reg64::Rax, imm: get_proc_address },
        Op::CallR64 { target: Reg64::Rax },
        Op::StoreAbs64 { address: return_buffer, src: Reg64::Rax },
        Op::MovR64Imm { dst: Reg64::Rax, imm: 0 },
        Op::AddR64Imm { dst: Reg64::Rsp, imm: FRAME_SIZE },
        Op::Ret,
    ]
}

/// `code` is what `program` is encoded to, at either of the two probe
/// addresses, and is not empty.
pub open spec fn is_stub_code(bitness: u32, program: Seq<Op>, code: Seq<u8>) -> bool {
    &&& code.len() > 0
    &&& machine_code(bitness, program, PROBE_FIRST) == Some(code)
    &&& machine_code(bitness, program, PROBE_SECOND) == Some(code)
}

/// What a trampoline is accepted as, given the two encodings of it: the
/// first, when it is not empty and the second is the same.
pub open spec fn accepted(first: Seq<u8>, second: Seq<u8>) -> Option<Seq<u8>> {
    if first.len() > 0 && first == second {
        Some(first)
    } else {
        None
    }
}

/// The code of the trampoline `program`: what the assembler encodes it to,
/// when it encodes it for both probe addresses, to the same bytes and to at
/// least one. Otherwise the trampoline has no code.
pub open spec fn stub_code(bitness: u32, program: Seq<Op>) -> Option<Seq<u8>> {
    match (
        encoding(bitness, program, PROBE_FIRST),
        encoding(bitness, program, PROBE_SECOND),
    ) {
        (Some(first), Some(second)) => accepted(first, second),
        _ => None,
    }
}

/// What building a trampoline comes to, given its code: the code, or the
/// failure of the assembly when it has none.
pub open spec fn built(code: Option<Seq<u8>>, r: Result<Vec<u8>, SyringeError>) -> bool {
    match code {
        Some(code) => r matches Ok(c) && c@ == code,
        None => r matches Err(e) && e == SyringeError::StubAssembly,
    }
}

/// The code of a trampoline does not depend on where it is placed, as far as
/// the two probe addresses tell: it is what the assembler encodes the
/// trampoline to at either.
pub proof fn lemma_stub_code_is_stable(bitness: u32, program: Seq<Op>)
    ensures
        stub_code(bitness, program) matches Some(code) ==> is_stub_code(bitness, program, code),
{
}

/// Whether two byte strings are the same.
fn same_bytes(a: &Vec<u8>, b: &Vec<u8>) -> (r: bool)
    ensures
        r == (a@ == b@),
{
    if a.len() != b.len() {
        return false;
    }
    let mut i: usize = 0;
    while i < a.len()
        invariant
            a.len() == b.len(),
            0 <= i <= a.len(),
            forall|j: int| 0 <= j < i ==> a@[j] == b@[j],
        decreases a.len() - i,
    {
        if a[i] != b[i] {
            return false;
        }
        i += 1;
    }
    assert(a@ =~= b@);
    true
}

/// Decides what becomes of a trampoline that was assembled for two
/// addresses.
///
/// It is accepted when the assembler encoded it both times, to the same bytes
/// and to at least one. Anything else is a failure of the assembly.
pub fn accept_stub(assembled: Result<(Vec<u8>, Vec<u8>), IcedError>) -> (r: Result<
    Vec<u8>,
    SyringeError,
>)
    ensures
        match assembled {
            Ok(pair) => match accepted(pair.0@, pair.1@) {
                Some(code) => r matches Ok(c) && c@ == code,
                None => r == Err::<Vec<u8>, SyringeError>(SyringeError::StubAssembly),
            },
            Err(_) => r == Err::<Vec<u8>, SyringeError>(SyringeError::StubAssembly),
        },
{
    match assembled {
        Ok(pair) => {
            let (first, second) = pair;
            if first.len() > 0 && same_bytes(&first, &second) {
                Ok(first)
            } else {
                Err(SyringeError::StubAssembly)
            }
        },
        Err(_) => Err(SyringeError::StubAssembly),
    }
}

/// Assembles `program` and checks that its bytes do not depend on where it
/// is placed.
fn build(bitness: u32, program: &Vec<Op>) -> (r: Result<Vec<u8>, SyringeError>)
    ensures
        built(stub_code(bitness, program@), r),
{
    accept_stub(assemble_twice(bitness, program, PROBE_FIRST, PROBE_SECOND))
}

/// Assembles the 32-bit trampoline [`call_procedure_x86`]: its code, when it
/// has code, and the failure of the assembly when it has none.
///
/// Neither address may be null, and both must fit in 32 bits.
pub fn build_call_procedure_x86(procedure: usize, return_buffer: usize) -> (r: Result<
    Vec<u8>,
    SyringeError,
>)
    requires
        procedure != 0,
        return_buffer != 0,
        procedure <= u32::MAX,
        return_buffer <= u32::MAX,
    ensures
        built(stub_code(32, call_procedure_x86(procedure as u32, return_buffer as u32)), r),
{
    let program: Vec<Op> = vec![
        Op::LoadR32 { dst: Reg32::Eax, base: Reg32::Esp, disp: 4 },
        Op::PushImm32 { imm: return_buffer as u32 },
        Op::PushR32 { src: Reg32::Eax },
        Op::MovR32Imm { dst: Reg32::Eax, imm: procedure as u32 },
        Op::CallR32 { target: Reg32::Eax },
        Op::MovR32Imm { dst: Reg32::Eax, imm: 0 },
        Op::RetPop { bytes: 4 },
    ];
    assert(program@ =~= call_procedure_x86(procedure as u32, return_buffer as u32));
    build(32, &program)
}

/// Assembles the 64-bit trampoline [`call_procedure_x64`]: its code, when it
/// has code, and the failure of the assembly when it has none.
///
/// Neither address may be null.
pub fn build_call_procedure_x64(procedure: usize, return_buffer: usize) -> (r: Result<
    Vec<u8>,
    SyringeError,
>)
    requires
        procedure != 0,
        return_buffer != 0,
    ensures
        built(stub_code(64, call_procedure_x64(procedure as u64, return_buffer as u64)), r),
{
    let program: Vec<Op> = vec![
        Op::SubR64Imm { dst: Reg64::Rsp, imm: FRAME_SIZE },
        Op::MovR64Imm { dst: Reg64::Rdx, imm: return_buffer as u64 },
        Op::MovR64 { dst: Reg64::Rcx, src: Reg64::Rcx },
        Op::MovR64Imm { dst: Reg64::Rax, imm: procedure as u64 },
        Op::CallR64 { target: Reg64::Rax },
        Op::MovR64Imm { dst: Reg64::Rax, imm: 0 },
        Op::AddR64Imm { dst: Reg64::Rsp, imm: FRAME_SIZE },
        Op::Ret,
    ];
    assert(program@ =~= call_procedure_x64(procedure as u64, return_buffer as u64));
    build(64, &program)
}

/// Assembles the 32-bit trampoline [`get_proc_address_x86`]: its code, when
/// it has code, and the failure of the assembly when it has none.
///
/// Neither address may be null, and both must fit in 32 bits.
pub fn build_get_proc_address_x86(get_proc_address: usize, return_buffer: usize) -> (r: Result<
    Vec<u8>,
    SyringeError,
>)
    requires
        get_proc_address != 0,
        return_buffer != 0,
        get_proc_address <= u32::MAX,
        return_buffer <= u32::MAX,
    ensures
        built(
            stub_code(32, get_proc_address_x86(get_proc_address as u32, return_buffer as u32)),
            r,
        ),
{
    let program: Vec<Op> = vec![
        Op::LoadR32 { dst: Reg32::Eax, base: Reg32::Esp, disp: 4 },
        Op::PushMem32 { base: Reg32::Eax, disp: 8 },
        Op::PushMem32 { base: Reg32::Eax, disp: 0 },
        Op::MovR32Imm { dst: Reg32::Eax, imm: get_proc_address as u32 },
        Op::CallR32 { target: Reg32::Eax },
        Op::StoreAbs32 { address: return_buffer as u32, src: Reg32::Eax },
        Op::MovR32Imm { dst: Reg32::Eax, imm: 0 },
        Op::RetPop { bytes: 4 },
    ];
    assert(program@ =~= get_proc_address_x86(get_proc_address as u32, return_buffer as u32));
    build(32, &program)
}

/// Assembles the 64-bit trampoline [`get_proc_address_x64`]: its code, when
/// it has code, and the failure of the assembly when it has none.
///
/// Neither address may be null.
pub fn build_get_proc_address_x64(get_proc_address: usize, return_buffer: usize) -> (r: Result<
    Vec<u8>,
    SyringeError,
>)
    requires
        get_proc_address != 0,
        return_buffer != 0,
    ensures
        built(
            stub_code(64, get_proc_address_x64(get_proc_address as u64, return_buffer as u64)),
            r,
        ),
{
    let program: Vec<Op> = vec![
        Op::SubR64Imm { dst: Reg64::Rsp, imm: FRAME_SIZE },
        Op::LoadR64 { dst: Reg64::Rdx, base: Reg64::Rcx, disp: 8 },
        Op::LoadR64 { dst: Reg64::Rcx, base: Reg64::Rcx, disp: 0 },
        Op::MovR64Imm { dst: Reg64::Rax, imm: get_proc_address as u64 },
        Op::CallR64 { target: Reg64::Rax },
        Op::StoreAbs64 { address: return_buffer as u64, src: Reg64::Rax },
        Op::MovR64Imm { dst: Reg64::Rax, imm: 0 },
        Op::AddR64Imm { dst: Reg64::Rsp, imm: FRAME_SIZE },
        Op::Ret,
    ];
    assert(program@ =~= get_proc_address_x64(get_proc_address as u64, return_buffer as u64));
    build(64, &program)
}

} // verus!
