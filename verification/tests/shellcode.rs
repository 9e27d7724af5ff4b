use dll_syringe::assembler::{assemble_twice, Op, Reg32, Reg64};
use dll_syringe::error::SyringeError;
use dll_syringe::stub::{assemble_stub, code_to_place, StubKind};
use dll_syringe::shellcode::{
    accept_stub, build_call_procedure_x64, build_call_procedure_x86, build_get_proc_address_x64,
    build_get_proc_address_x86,
};

#[test]
fn call_procedure_x86_has_the_listed_bytes() {
    let code = build_call_procedure_x86(0x1122_3344, 0x5566_7788).unwrap();
    let expected: Vec<u8> = vec![
        0x8B, 0x44, 0x24, 0x04, // mov eax, [esp+4]
        0x68, 0x88, 0x77, 0x66, 0x55, // push 0x55667788
        0x50, // push eax
        0xB8, 0x44, 0x33, 0x22, 0x11, // mov eax, 0x11223344
        0xFF, 0xD0, // call eax
        0xB8, 0x00, 0x00, 0x00, 0x00, // mov eax, 0
        0xC2, 0x04, 0x00, // ret 4
    ];
    assert_eq!(code, expected);
}

#[test]
fn call_procedure_x64_has_the_listed_bytes() {
    let code = build_call_procedure_x64(0x1122_3344_5566_7788, 0x0102_0304_0506_0708).unwrap();
    let expected: Vec<u8> = vec![
        0x48, 0x83, 0xEC, 0x28, // sub rsp, 40
        0x48, 0xBA, 0x08, 0x07, 0x06, 0x05, 0x04, 0x03, 0x02, 0x01, // mov rdx, result
        0x48, 0x89, 0xC9, // mov rcx, rcx
        0x48, 0xB8, 0x88, 0x77, 0x66, 0x55, 0x44, 0x33, 0x22, 0x11, // mov rax, callee
        0xFF, 0xD0, // call rax
        0x48, 0xB8, 0x00, 0x00, 0x00, 0x00, 0x00, 0x00, 0x00, 0x00, // mov rax, 0
        0x48, 0x83, 0xC4, 0x28, // add rsp, 40
        0xC3, // ret
    ];
    assert_eq!(code, expected);
}

#[test]
fn get_proc_address_x86_has_the_listed_bytes() {
    let code = build_get_proc_address_x86(0x1122_3344, 0x5566_7788).unwrap();
    let expected: Vec<u8> = vec![
        0x8B, 0x44, 0x24, 0x04, // mov eax, [esp+4]
        0xFF, 0x70, 0x08, // push dword [eax+8]
        0xFF, 0x30, // push dword [eax]
        0xB8, 0x44, 0x33, 0x22, 0x11, // mov eax, GetProcAddress
        0xFF, 0xD0, // call eax
        0xA3, 0x88, 0x77, 0x66, 0x55, // mov [result], eax
        0xB8, 0x00, 0x00, 0x00, 0x00, // mov eax, 0
        0xC2, 0x04, 0x00, // ret 4
    ];
    assert_eq!(code, expected);
}

#[test]
fn get_proc_address_x64_has_the_listed_bytes() {
    let code =
        build_get_proc_address_x64(0x1122_3344_5566_7788, 0x0102_0304_0506_0708).unwrap();
    let expected: Vec<u8> = vec![
        0x48, 0x83, 0xEC, 0x28, // sub rsp, 40
        0x48, 0x8B, 0x51, 0x08, // mov rdx, [rcx+8]
        0x48, 0x8B, 0x09, // mov rcx, [rcx]
        0x48, 0xB8, 0x88, 0x77, 0x66, 0x55, 0x44, 0x33, 0x22, 0x11, // mov rax, GetProcAddress
        0xFF, 0xD0, // call rax
        0x48, 0xA3, 0x08, 0x07, 0x06, 0x05, 0x04, 0x03, 0x02, 0x01, // mov [result], rax
        0x48, 0xB8, 0x00, 0x00, 0x00, 0x00, 0x00, 0x00, 0x00, 0x00, // mov rax, 0
        0x48, 0x83, 0xC4, 0x28, // add rsp, 40
        0xC3, // ret
    ];
    assert_eq!(code, expected);
}

#[test]
fn small_result_address_changes_the_push() {
    // An immediate that fits in a signed byte is pushed in its short form.
    let code = build_call_procedure_x86(0x1122_3344, 0x10).unwrap();
    assert_eq!(&code[4..6], &[0x6A, 0x10]);
    assert_eq!(code.len(), 22);
}

#[test]
fn stub_that_moves_with_its_address_is_refused() {
    let r = accept_stub(Ok((vec![0xE8, 1, 0, 0, 0], vec![0xE8, 2, 0, 0, 0])));
    assert_eq!(r, Err(SyringeError::StubAssembly));
}

#[test]
fn empty_stub_is_refused() {
    let r = accept_stub(Ok((vec![], vec![])));
    assert_eq!(r, Err(SyringeError::StubAssembly));
}

#[test]
fn stable_stub_is_accepted() {
    let r = accept_stub(Ok((vec![0xC3], vec![0xC3])));
    assert_eq!(r, Ok(vec![0xC3]));
}

#[test]
fn stub_bytes_do_not_depend_on_the_address() {
    let narrow = vec![
        Op::LoadR32 { dst: Reg32::Eax, base: Reg32::Esp, disp: 4 },
        Op::PushMem32 { base: Reg32::Eax, disp: 8 },
        Op::PushImm32 { imm: 0x5566_7788 },
        Op::PushR32 { src: Reg32::Eax },
        Op::MovR32Imm { dst: Reg32::Eax, imm: 0x1122_3344 },
        Op::CallR32 { target: Reg32::Eax },
        Op::StoreAbs32 { address: 0x5566_7788, src: Reg32::Eax },
        Op::RetPop { bytes: 4 },
    ];
    let wide = vec![
        Op::SubR64Imm { dst: Reg64::Rsp, imm: 40 },
        Op::LoadR64 { dst: Reg64::Rdx, base: Reg64::Rcx, disp: 8 },
        Op::MovR64Imm { dst: Reg64::Rdx, imm: 0x0102_0304_0506_0708 },
        Op::MovR64 { dst: Reg64::Rcx, src: Reg64::Rcx },
        Op::CallR64 { target: Reg64::Rax },
        Op::StoreAbs64 { address: 0x0102_0304_0506_0708, src: Reg64::Rax },
        Op::AddR64Imm { dst: Reg64::Rsp, imm: 40 },
        Op::Ret,
    ];
    for (first, second) in [(0u64, 0xFFFF_0000u64), (0x1234_5678, 0x1111_2222), (1, 0x7FFF_FFFF)] {
        let (a, b) = assemble_twice(32, &narrow, first, second).ok().unwrap();
        assert_eq!(a, b);
        assert!(!a.is_empty());
    }
    for (first, second) in
        [(0u64, 0xFFFF_FFFF_0000u64), (0x1234_5678, 0x1111_2222), (8, 0x7FFF_FFFF_FFFF_0000)]
    {
        let (a, b) = assemble_twice(64, &wide, first, second).ok().unwrap();
        assert_eq!(a, b);
        assert!(!a.is_empty());
    }
}

#[test]
fn assembler_refuses_a_bitness_it_does_not_know() {
    assert!(assemble_twice(48, &vec![Op::Ret], 0, 0).is_err());
    assert!(assemble_twice(0, &vec![Op::Ret], 0, 0).is_err());
    assert!(assemble_twice(128, &vec![Op::Ret], 0, 0).is_err());
    assert_eq!(assemble_twice(16, &vec![Op::Ret], 0, 9).ok(), Some((vec![0xC3], vec![0xC3])));
    assert_eq!(assemble_twice(32, &vec![Op::Ret], 0, 9).ok(), Some((vec![0xC3], vec![0xC3])));
    assert_eq!(assemble_twice(64, &vec![Op::Ret], 0, 9).ok(), Some((vec![0xC3], vec![0xC3])));
}

#[test]
fn wide_instruction_in_a_narrow_program_is_refused() {
    let program = vec![Op::MovR64Imm { dst: Reg64::Rax, imm: 1 }];
    assert!(assemble_twice(32, &program, 0, 0).is_err());
}

#[test]
fn code_that_was_built_is_the_code_to_place() {
    assert_eq!(code_to_place(Ok(vec![0x50, 0xC3])), Some(vec![0x50, 0xC3]));
    assert_eq!(code_to_place(Ok(vec![0x90; 5000])), Some(vec![0x90; 5000]));
    assert_eq!(code_to_place(Err(SyringeError::StubAssembly)), None);
}

#[test]
fn stub_is_the_trampoline_of_its_kind_and_bitness() {
    let callee = 0x1122_3344;
    let result = 0x5566_7788;
    assert_eq!(
        assemble_stub(StubKind::CallProcedure, true, callee, result),
        build_call_procedure_x86(callee, result).ok()
    );
    assert_eq!(
        assemble_stub(StubKind::CallProcedure, false, callee, result),
        build_call_procedure_x64(callee, result).ok()
    );
    assert_eq!(
        assemble_stub(StubKind::GetProcAddress, true, callee, result),
        build_get_proc_address_x86(callee, result).ok()
    );
    assert_eq!(
        assemble_stub(StubKind::GetProcAddress, false, callee, result),
        build_get_proc_address_x64(callee, result).ok()
    );
    let narrow = assemble_stub(StubKind::CallProcedure, true, callee, result).unwrap();
    let wide = assemble_stub(StubKind::CallProcedure, false, callee, result).unwrap();
    assert_eq!(narrow.len(), 25);
    assert_eq!(wide.len(), 44);
}

#[test]
fn instruction_that_the_assembler_does_not_take_is_refused() {
    // a return cannot take more than 65535 bytes off the stack
    assert!(assemble_twice(32, &vec![Op::RetPop { bytes: 0x1_0000 }], 0, 0).is_err());
    assert!(assemble_twice(32, &vec![Op::Ret, Op::RetPop { bytes: 0x1_0000 }], 0, 0).is_err());
    assert!(assemble_twice(64, &vec![Op::RetPop { bytes: 0x1_0000 }, Op::Ret], 0, 0).is_err());
    assert_eq!(
        assemble_twice(32, &vec![Op::RetPop { bytes: 0xFFFF }], 0, 0).ok(),
        Some((vec![0xC2, 0xFF, 0xFF], vec![0xC2, 0xFF, 0xFF]))
    );
}
