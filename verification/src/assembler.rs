//! The instructions that the trampolines are made of, and the assembler that
//! encodes them.
//!
//! The encoding itself is the work of `iced_x86`. This module describes each
//! instruction as a plain value, feeds the instructions to the assembler one
//! by one and names what the assembler makes of them: whether it takes an
//! instruction, and the bytes that come out. Nothing here is proved of the
//! assembler: what each function below claims of it is stated by that
//! function and believed. The claims are made of assemblers that this module
//! has created and filled; no other can arise.

use vstd::prelude::*;
use iced_x86::code_asm::{dword_ptr, eax, esp, qword_ptr, rax, rcx, rdx, rsp, CodeAssembler};
use iced_x86::IcedError;

verus! {

/// The 32-bit registers that the trampolines touch.
#[derive(Debug, Clone, Copy, PartialEq, Eq, Structural)]
pub enum Reg32 {
    Eax,
    Esp,
}

/// The 64-bit registers that the trampolines touch.
#[derive(Debug, Clone, Copy, PartialEq, Eq, Structural)]
pub enum Reg64 {
    Rax,
    Rcx,
    Rdx,
    Rsp,
}

/// One instruction, as the assembler is asked for it.
#[derive(Debug, Clone, Copy, PartialEq, Eq, Structural)]
#[allow(inconsistent_fields)]
pub enum Op {
    /// `mov dst, [base + disp]`
    LoadR32 { dst: Reg32, base: Reg32, disp: i32 },
    /// `push imm`
    PushImm32 { imm: u32 },
    /// `push src`
    PushR32 { src: Reg32 },
    /// `push dword [base + disp]`
    PushMem32 { base: Reg32, disp: i32 },
    /// `mov dst, imm`
    MovR32Imm { dst: Reg32, imm: u32 },
    /// `mov dword [address], src`
    StoreAbs32 { address: u32, src: Reg32 },
    /// `call target`
    CallR32 { target: Reg32 },
    /// `ret bytes`
    RetPop { bytes: u32 },
    /// `sub dst, imm`
    SubR64Imm { dst: Reg64, imm: i32 },
    /// `add dst, imm`
    AddR64Imm { dst: Reg64, imm: i32 },
    /// `mov dst, imm`
    MovR64Imm { dst: Reg64, imm: u64 },
    /// `mov dst, src`
    MovR64 { dst: Reg64, src: Reg64 },
    /// `mov dst, qword [base + disp]`
    LoadR64 { dst: Reg64, base: Reg64, disp: i32 },
    /// `mov qword [address], src`
    StoreAbs64 { address: u64, src: Reg64 },
    /// `call target`
    CallR64 { target: Reg64 },
    /// `ret`
    Ret,
}

/// `iced_x86::code_asm::CodeAssembler`, a list of instructions that can be
/// encoded. Nothing of its inside is known here.
#[verifier::external_type_specification]
#[verifier::external_body]
pub struct ExCodeAssembler(CodeAssembler);

/// `iced_x86::IcedError`, the error of every call into the assembler. Nothing
/// of its inside is known here.
#[verifier::external_type_specification]
#[verifier::external_body]
pub struct ExIcedError(IcedError);

/// The bitness that an assembler was created for.
pub uninterp spec fn assembler_bitness(a: CodeAssembler) -> u32;

/// The instructions that an assembler holds, in the order in which they were
/// added.
pub uninterp spec fn assembler_program(a: CodeAssembler) -> Seq<Op>;

/// Whether an assembler for `bitness` takes the instruction: whether the
/// method of `CodeAssembler` that adds it returns `Ok`.
pub uninterp spec fn op_accepted(bitness: u32, op: Op) -> bool;

/// The bytes that `CodeAssembler::assemble` encodes `program` to for a
/// processor in `bitness`-bit mode, when the first instruction is to stand at
/// `ip`; nothing when it refuses to encode the program.
pub uninterp spec fn machine_code(bitness: u32, program: Seq<Op>, ip: u64) -> Option<Seq<u8>>;

/// `CodeAssembler::new`: for a bitness of 16, 32 or 64, and for no other, an
/// assembler for that bitness that holds no instruction yet.
#[verifier::external_body]
fn asm_new(bitness: u32) -> (r: Result<CodeAssembler, IcedError>)
    ensures
        r is Ok <==> known_bitness(bitness),
        r matches Ok(a) ==> assembler_bitness(a) == bitness && assembler_program(a).len() == 0,
{
    CodeAssembler::new(bitness)
}

/// `CodeAssembler::mov` with a 32-bit register and a memory operand made of a
/// base register and a displacement. It succeeds exactly when the assembler
/// takes the instruction, which is then the last that the assembler holds,
/// behind those that it held. When it fails, the assembler holds what it held.
#[verifier::external_body]
fn asm_load_r32(
    a: &mut CodeAssembler,
    dst: Reg32,
    base: Reg32,
    disp: i32,
) -> (r: Result<(), IcedError>)
    ensures
        assembler_bitness(*final(a)) == assembler_bitness(*old(a)),
        r is Ok <==> op_accepted(assembler_bitness(*old(a)), Op::LoadR32 { dst, base, disp }),
        r is Ok ==> assembler_program(*final(a)) == assembler_program(*old(a)).push(
            Op::LoadR32 { dst, base, disp },
        ),
        r is Err ==> assembler_program(*final(a)) == assembler_program(*old(a)),
{
    let dst = match dst {
        Reg32::Eax => eax,
        Reg32::Esp => esp,
    };
    let base = match base {
        Reg32::Eax => eax,
        Reg32::Esp => esp,
    };
    a.mov(dst, base + disp)
}

/// `CodeAssembler::push` with a 32-bit immediate. It succeeds exactly when the
/// assembler takes the instruction, which is then the last that the assembler
/// holds, behind those that it held. When it fails, the assembler holds what
/// it held.
#[verifier::external_body]
fn asm_push_imm32(a: &mut CodeAssembler, imm: u32) -> (r: Result<(), IcedError>)
    ensures
        assembler_bitness(*final(a)) == assembler_bitness(*old(a)),
        r is Ok <==> op_accepted(assembler_bitness(*old(a)), Op::PushImm32 { imm }),
        r is Ok ==> assembler_program(*final(a)) == assembler_program(*old(a)).push(
            Op::PushImm32 { imm },
        ),
        r is Err ==> assembler_program(*final(a)) == assembler_program(*old(a)),
{
    a.push(imm)
}

/// `CodeAssembler::push` with a 32-bit register. It succeeds exactly when the
/// assembler takes the instruction, which is then the last that the assembler
/// holds, behind those that it held. When it fails, the assembler holds what
/// it held.
#[verifier::external_body]
fn asm_push_r32(a: &mut CodeAssembler, src: Reg32) -> (r: Result<(), IcedError>)
    ensures
        assembler_bitness(*final(a)) == assembler_bitness(*old(a)),
        r is Ok <==> op_accepted(assembler_bitness(*old(a)), Op::PushR32 { src }),
        r is Ok ==> assembler_program(*final(a)) == assembler_program(*old(a)).push(
            Op::PushR32 { src },
        ),
        r is Err ==> assembler_program(*final(a)) == assembler_program(*old(a)),
{
    let src = match src {
        Reg32::Eax => eax,
        Reg32::Esp => esp,
    };
    a.push(src)
}

/// `CodeAssembler::push` with a doubleword in memory, addressed by a base
/// register and a displacement. It succeeds exactly when the assembler takes
/// the instruction, which is then the last that the assembler holds, behind
/// those that it held. When it fails, the assembler holds what it held.
#[verifier::external_body]
fn asm_push_mem32(a: &mut CodeAssembler, base: Reg32, disp: i32) -> (r: Result<(), IcedError>)
    ensures
        assembler_bitness(*final(a)) == assembler_bitness(*old(a)),
        r is Ok <==> op_accepted(assembler_bitness(*old(a)), Op::PushMem32 { base, disp }),
        r is Ok ==> assembler_program(*final(a)) == assembler_program(*old(a)).push(
            Op::PushMem32 { base, disp },
        ),
        r is Err ==> assembler_program(*final(a)) == assembler_program(*old(a)),
{
    let base = match base {
        Reg32::Eax => eax,
        Reg32::Esp => esp,
    };
    a.push(dword_ptr(base + disp))
}

/// `CodeAssembler::mov` with a 32-bit register and a 32-bit immediate. It
/// succeeds exactly when the assembler takes the instruction, which is then
/// the last that the assembler holds, behind those that it held. When it
/// fails, the assembler holds what it held.
#[verifier::external_body]
fn asm_mov_r32_imm(a: &mut CodeAssembler, dst: Reg32, imm: u32) -> (r: Result<(), IcedError>)
    ensures
        assembler_bitness(*final(a)) == assembler_bitness(*old(a)),
        r is Ok <==> op_accepted(assembler_bitness(*old(a)), Op::MovR32Imm { dst, imm }),
        r is Ok ==> assembler_program(*final(a)) == assembler_program(*old(a)).push(
            Op::MovR32Imm { dst, imm },
        ),
        r is Err ==> assembler_program(*final(a)) == assembler_program(*old(a)),
{
    let dst = match dst {
        Reg32::Eax => eax,
        Reg32::Esp => esp,
    };
    a.mov(dst, imm)
}

/// `CodeAssembler::mov` with a doubleword at an absolute address and a 32-bit
/// register. It succeeds exactly when the assembler takes the instruction,
/// which is then the last that the assembler holds, behind those that it held.
/// When it fails, the assembler holds what it held.
#[verifier::external_body]
fn asm_store_abs32(
    a: &mut CodeAssembler,
    address: u32,
    src: Reg32,
) -> (r: Result<(), IcedError>)
    ensures
        assembler_bitness(*final(a)) == assembler_bitness(*old(a)),
        r is Ok <==> op_accepted(assembler_bitness(*old(a)), Op::StoreAbs32 { address, src }),
        r is Ok ==> assembler_program(*final(a)) == assembler_program(*old(a)).push(
            Op::StoreAbs32 { address, src },
        ),
        r is Err ==> assembler_program(*final(a)) == assembler_program(*old(a)),
{
    let src = match src {
        Reg32::Eax => eax,
        Reg32::Esp => esp,
    };
    a.mov(dword_ptr(address), src)
}

/// `CodeAssembler::call` with a 32-bit register. It succeeds exactly when the
/// assembler takes the instruction, which is then the last that the assembler
/// holds, behind those that it held. When it fails, the assembler holds what
/// it held.
#[verifier::external_body]
fn asm_call_r32(a: &mut CodeAssembler, target: Reg32) -> (r: Result<(), IcedError>)
    ensures
        assembler_bitness(*final(a)) == assembler_bitness(*old(a)),
        r is Ok <==> op_accepted(assembler_bitness(*old(a)), Op::CallR32 { target }),
        r is Ok ==> assembler_program(*final(a)) == assembler_program(*old(a)).push(
            Op::CallR32 { target },
        ),
        r is Err ==> assembler_program(*final(a)) == assembler_program(*old(a)),
{
    let target = match target {
        Reg32::Eax => eax,
        Reg32::Esp => esp,
    };
    a.call(target)
}

/// `CodeAssembler::ret_1`, the return that takes the given number of bytes off
/// the stack. It succeeds exactly when the assembler takes the instruction,
/// which is then the last that the assembler holds, behind those that it held.
/// When it fails, the assembler holds what it held.
#[verifier::external_body]
fn asm_ret_pop(a: &mut CodeAssembler, bytes: u32) -> (r: Result<(), IcedError>)
    ensures
        assembler_bitness(*final(a)) == assembler_bitness(*old(a)),
        r is Ok <==> op_accepted(assembler_bitness(*old(a)), Op::RetPop { bytes }),
        r is Ok ==> assembler_program(*final(a)) == assembler_program(*old(a)).push(
            Op::RetPop { bytes },
        ),
        r is Err ==> assembler_program(*final(a)) == assembler_program(*old(a)),
{
    a.ret_1(bytes)
}

/// `CodeAssembler::sub` with a 64-bit register and a 32-bit immediate. It
/// succeeds exactly when the assembler takes the instruction, which is then
/// the last that the assembler holds, behind those that it held. When it
/// fails, the assembler holds what it held.
#[verifier::external_body]
fn asm_sub_r64_imm(a: &mut CodeAssembler, dst: Reg64, imm: i32) -> (r: Result<(), IcedError>)
    ensures
        assembler_bitness(*final(a)) == assembler_bitness(*old(a)),
        r is Ok <==> op_accepted(assembler_bitness(*old(a)), Op::SubR64Imm { dst, imm }),
        r is Ok ==> assembler_program(*final(a)) == assembler_program(*old(a)).push(
            Op::SubR64Imm { dst, imm },
        ),
        r is Err ==> assembler_program(*final(a)) == assembler_program(*old(a)),
{
    let dst = match dst {
        Reg64::Rax => rax,
        Reg64::Rcx => rcx,
        Reg64::Rdx => rdx,
        Reg64::Rsp => rsp,
    };
    a.sub(dst, imm)
}

/// `CodeAssembler::add` with a 64-bit register and a 32-bit immediate. It
/// succeeds exactly when the assembler takes the instruction, which is then
/// the last that the assembler holds, behind those that it held. When it
/// fails, the assembler holds what it held.
#[verifier::external_body]
fn asm_add_r64_imm(a: &mut CodeAssembler, dst: Reg64, imm: i32) -> (r: Result<(), IcedError>)
    ensures
        assembler_bitness(*final(a)) == assembler_bitness(*old(a)),
        r is Ok <==> op_accepted(assembler_bitness(*old(a)), Op::AddR64Imm { dst, imm }),
        r is Ok ==> assembler_program(*final(a)) == assembler_program(*old(a)).push(
            Op::AddR64Imm { dst, imm },
        ),
        r is Err ==> assembler_program(*final(a)) == assembler_program(*old(a)),
{
    let dst = match dst {
        Reg64::Rax => rax,
        Reg64::Rcx => rcx,
        Reg64::Rdx => rdx,
        Reg64::Rsp => rsp,
    };
    a.add(dst, imm)
}

/// `CodeAssembler::mov` with a 64-bit register and a 64-bit immediate. It
/// succeeds exactly when the assembler takes the instruction, which is then
/// the last that the assembler holds, behind those that it held. When it
/// fails, the assembler holds what it held.
#[verifier::external_body]
fn asm_mov_r64_imm(a: &mut CodeAssembler, dst: Reg64, imm: u64) -> (r: Result<(), IcedError>)
    ensures
        assembler_bitness(*final(a)) == assembler_bitness(*old(a)),
        r is Ok <==> op_accepted(assembler_bitness(*old(a)), Op::MovR64Imm { dst, imm }),
        r is Ok ==> assembler_program(*final(a)) == assembler_program(*old(a)).push(
            Op::MovR64Imm { dst, imm },
        ),
        r is Err ==> assembler_program(*final(a)) == assembler_program(*old(a)),
{
    let dst = match dst {
        Reg64::Rax => rax,
        Reg64::Rcx => rcx,
        Reg64::Rdx => rdx,
        Reg64::Rsp => rsp,
    };
    a.mov(dst, imm)
}

/// `CodeAssembler::mov` with two 64-bit registers. It succeeds exactly when
/// the assembler takes the instruction, which is then the last that the
/// assembler holds, behind those that it held. When it fails, the assembler
/// holds what it held.
#[verifier::external_body]
fn asm_mov_r64(a: &mut CodeAssembler, dst: Reg64, src: Reg64) -> (r: Result<(), IcedError>)
    ensures
        assembler_bitness(*final(a)) == assembler_bitness(*old(a)),
        r is Ok <==> op_accepted(assembler_bitness(*old(a)), Op::MovR64 { dst, src }),
        r is Ok ==> assembler_program(*final(a)) == assembler_program(*old(a)).push(
            Op::MovR64 { dst, src },
        ),
        r is Err ==> assembler_program(*final(a)) == assembler_program(*old(a)),
{
    let dst = match dst {
        Reg64::Rax => rax,
        Reg64::Rcx => rcx,
        Reg64::Rdx => rdx,
        Reg64::Rsp => rsp,
    };
    let src = match src {
        Reg64::Rax => rax,
        Reg64::Rcx => rcx,
        Reg64::Rdx => rdx,
        Reg64::Rsp => rsp,
    };
    a.mov(dst, src)
}

/// `CodeAssembler::mov` with a 64-bit register and a quadword in memory,
/// addressed by a base register and a displacement. It succeeds exactly when
/// the assembler takes the instruction, which is then the last that the
/// assembler holds, behind those that it held. When it fails, the assembler
/// holds what it held.
#[verifier::external_body]
fn asm_load_r64(
    a: &mut CodeAssembler,
    dst: Reg64,
    base: Reg64,
    disp: i32,
) -> (r: Result<(), IcedError>)
    ensures
        assembler_bitness(*final(a)) == assembler_bitness(*old(a)),
        r is Ok <==> op_accepted(assembler_bitness(*old(a)), Op::LoadR64 { dst, base, disp }),
        r is Ok ==> assembler_program(*final(a)) == assembler_program(*old(a)).push(
            Op::LoadR64 { dst, base, disp },
        ),
        r is Err ==> assembler_program(*final(a)) == assembler_program(*old(a)),
{
    let dst = match dst {
        Reg64::Rax => rax,
        Reg64::Rcx => rcx,
        Reg64::Rdx => rdx,
        Reg64::Rsp => rsp,
    };
    let base = match base {
        Reg64::Rax => rax,
        Reg64::Rcx => rcx,
        Reg64::Rdx => rdx,
        Reg64::Rsp => rsp,
    };
    a.mov(dst, qword_ptr(base + disp))
}

/// `CodeAssembler::mov` with a quadword at an absolute address and a 64-bit
/// register. It succeeds exactly when the assembler takes the instruction,
/// which is then the last that the assembler holds, behind those that it held.
/// When it fails, the assembler holds what it held.
#[verifier::external_body]
fn asm_store_abs64(
    a: &mut CodeAssembler,
    address: u64,
    src: Reg64,
) -> (r: Result<(), IcedError>)
    ensures
        assembler_bitness(*final(a)) == assembler_bitness(*old(a)),
        r is Ok <==> op_accepted(assembler_bitness(*old(a)), Op::StoreAbs64 { address, src }),
        r is Ok ==> assembler_program(*final(a)) == assembler_program(*old(a)).push(
            Op::StoreAbs64 { address, src },
        ),
        r is Err ==> assembler_program(*final(a)) == assembler_program(*old(a)),
{
    let src = match src {
        Reg64::Rax => rax,
        Reg64::Rcx => rcx,
        Reg64::Rdx => rdx,
        Reg64::Rsp => rsp,
    };
    a.mov(qword_ptr(address), src)
}

/// `CodeAssembler::call` with a 64-bit register. It succeeds exactly when the
/// assembler takes the instruction, which is then the last that the assembler
/// holds, behind those that it held. When it fails, the assembler holds what
/// it held.
#[verifier::external_body]
fn asm_call_r64(a: &mut CodeAssembler, target: Reg64) -> (r: Result<(), IcedError>)
    ensures
        assembler_bitness(*final(a)) == assembler_bitness(*old(a)),
        r is Ok <==> op_accepted(assembler_bitness(*old(a)), Op::CallR64 { target }),
        r is Ok ==> assembler_program(*final(a)) == assembler_program(*old(a)).push(
            Op::CallR64 { target },
        ),
        r is Err ==> assembler_program(*final(a)) == assembler_program(*old(a)),
{
    let target = match target {
        Reg64::Rax => rax,
        Reg64::Rcx => rcx,
        Reg64::Rdx => rdx,
        Reg64::Rsp => rsp,
    };
    a.call(target)
}

/// `CodeAssembler::ret`. It succeeds exactly when the assembler takes the
/// instruction, which is then the last that the assembler holds, behind those
/// that it held. When it fails, the assembler holds what it held.
#[verifier::external_body]
fn asm_ret(a: &mut CodeAssembler) -> (r: Result<(), IcedError>)
    ensures
        assembler_bitness(*final(a)) == assembler_bitness(*old(a)),
        r is Ok <==> op_accepted(assembler_bitness(*old(a)), Op::Ret),
        r is Ok ==> assembler_program(*final(a)) == assembler_program(*old(a)).push(Op::Ret),
        r is Err ==> assembler_program(*final(a)) == assembler_program(*old(a)),
{
    a.ret()
}

/// `CodeAssembler::assemble`: the encoding of the instructions that the
/// assembler holds, for its bitness and the given address, or an error when
/// it refuses to encode them. The assembler keeps its instructions.
#[verifier::external_body]
fn asm_assemble(a: &mut CodeAssembler, ip: u64) -> (r: Result<Vec<u8>, IcedError>)
    ensures
        assembler_bitness(*final(a)) == assembler_bitness(*old(a)),
        assembler_program(*final(a)) == assembler_program(*old(a)),
        match r {
            Ok(code) => machine_code(
                assembler_bitness(*old(a)),
                assembler_program(*old(a)),
                ip,
            ) == Some(code@),
            Err(_) => machine_code(
                assembler_bitness(*old(a)),
                assembler_program(*old(a)),
                ip,
            ) is None,
        },
{
    a.assemble(ip)
}

/// Adds one instruction to the assembler, if the assembler takes it.
fn emit(a: &mut CodeAssembler, op: Op) -> (r: Result<(), IcedError>)
    ensures
        assembler_bitness(*final(a)) == assembler_bitness(*old(a)),
        r is Ok <==> op_accepted(assembler_bitness(*old(a)), op),
        r is Ok ==> assembler_program(*final(a)) == assembler_program(*old(a)).push(op),
        r is Err ==> assembler_program(*final(a)) == assembler_program(*old(a)),
{
    match op {
        Op::LoadR32 { dst, base, disp } => asm_load_r32(a, dst, base, disp),
        Op::PushImm32 { imm } => asm_push_imm32(a, imm),
        Op::PushR32 { src } => asm_push_r32(a, src),
        Op::PushMem32 { base, disp } => asm_push_mem32(a, base, disp),
        Op::MovR32Imm { dst, imm } => asm_mov_r32_imm(a, dst, imm),
        Op::StoreAbs32 { address, src } => asm_store_abs32(a, address, src),
        Op::CallR32 { target } => asm_call_r32(a, target),
        Op::RetPop { bytes } => asm_ret_pop(a, bytes),
        Op::SubR64Imm { dst, imm } => asm_sub_r64_imm(a, dst, imm),
        Op::AddR64Imm { dst, imm } => asm_add_r64_imm(a, dst, imm),
        Op::MovR64Imm { dst, imm } => asm_mov_r64_imm(a, dst, imm),
        Op::MovR64 { dst, src } => asm_mov_r64(a, dst, src),
        Op::LoadR64 { dst, base, disp } => asm_load_r64(a, dst, base, disp),
        Op::StoreAbs64 { address, src } => asm_store_abs64(a, address, src),
        Op::CallR64 { target } => asm_call_r64(a, target),
        Op::Ret => asm_ret(a),
    }
}

/// Whether the assembler knows a processor mode of `bitness` bits. It can be
/// made for these and for no other.
pub open spec fn known_bitness(bitness: u32) -> bool {
    bitness == 16 || bitness == 32 || bitness == 64
}

/// Whether an assembler for `bitness` takes every instruction of `program`.
pub open spec fn all_accepted(bitness: u32, program: Seq<Op>) -> bool {
    forall|i: int| 0 <= i < program.len() ==> op_accepted(bitness, #[trigger] program[i])
}

/// What assembling `program` for `bitness` at `ip` comes to: the bytes that
/// the assembler encodes it to, when the assembler can be made for the
/// bitness, takes every instruction and encodes the program; and nothing
/// otherwise.
pub open spec fn encoding(bitness: u32, program: Seq<Op>, ip: u64) -> Option<Seq<u8>> {
    if known_bitness(bitness) && all_accepted(bitness, program) {
        machine_code(bitness, program, ip)
    } else {
        None
    }
}

/// Encodes `program` for a processor in `bitness`-bit mode twice, once for
/// each of the two addresses.
///
/// Both encodings come back when both exist, and an error when either does
/// not.
pub fn assemble_twice(bitness: u32, program: &Vec<Op>, first_ip: u64, second_ip: u64) -> (r:
    Result<(Vec<u8>, Vec<u8>), IcedError>)
    ensures
        match (encoding(bitness, program@, first_ip), encoding(bitness, program@, second_ip)) {
            (Some(first), Some(second)) => r matches Ok(pair) && pair.0@ == first && pair.1@
                == second,
            _ => r is Err,
        },
{
    let mut a = match asm_new(bitness) {
        Ok(a) => a,
        Err(e) => {
            return Err(e);
        },
    };
    let mut i: usize = 0;
    proof {
        assert(assembler_program(a) =~= program@.take(0));
    }
    while i < program.len()
        invariant
            0 <= i <= program.len(),
            known_bitness(bitness),
            assembler_bitness(a) == bitness,
            assembler_program(a) == program@.take(i as int),
            forall|j: int| 0 <= j < i ==> op_accepted(bitness, #[trigger] program@[j]),
        decreases program.len() - i,
    {
        let op = program[i];
        match emit(&mut a, op) {
            Ok(()) => {},
            Err(e) => {
                proof {
                    assert(!op_accepted(bitness, program@[i as int]));
                }
                return Err(e);
            },
        }
        proof {
            assert(program@.take(i as int).push(op) =~= program@.take(i as int + 1));
        }
        i += 1;
    }
    proof {
        assert(program@.take(i as int) =~= program@);
        assert(all_accepted(bitness, program@));
    }
    let first = match asm_assemble(&mut a, first_ip) {
        Ok(code) => code,
        Err(e) => {
            return Err(e);
        },
    };
    let second = match asm_assemble(&mut a, second_ip) {
        Ok(code) => code,
        Err(e) => {
            return Err(e);
        },
    };
    Ok((first, second))
}

} // verus!
