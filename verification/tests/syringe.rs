use std::collections::{BTreeMap, BTreeSet};

use dll_syringe::error::SyringeError;
use dll_syringe::process::{ProcessModule, ProcessRef};
use dll_syringe::protocol::{Reply, Request};
use dll_syringe::remote_procedure::RemoteProcedure;
use dll_syringe::stub::InvokeStep;
use dll_syringe::syringe::{HelpData, Outcome, Step, Syringe};
use dll_syringe::state::Load;

const KERNEL32: usize = 0x7FF8_0000_0000;
const LOAD_LIBRARY: usize = KERNEL32 + 0x1_2340;
const FREE_LIBRARY: usize = KERNEL32 + 0x1_5670;
const GET_PROC_ADDRESS: usize = KERNEL32 + 0x1_89A0;
const KERNEL32_X86: usize = 0x7600_0000;
const PAYLOAD_PATH: &str = "C:\\t\\payload.dll";
const PAYLOAD: usize = 0x7FF8_1234_0000;
const PAYLOAD_X86: usize = 0x6A50_0000;
const ECHO: usize = 0x1_100;
const ADD: usize = 0x1_200;

/// A target process that exists only in the memory of the test.
struct Target {
    narrow: bool,
    alive: bool,
    memory: BTreeMap<usize, u8>,
    next_region: usize,
    flushed: BTreeSet<usize>,
    modules: Vec<usize>,
    threads: BTreeMap<usize, u32>,
    next_thread: usize,
    closed: Vec<usize>,
    seen: Vec<&'static str>,
    fail_writes: Option<u32>,
    paused: u32,
    starts_after: u32,
    released: Vec<usize>,
}

/// The text of a path that is given in UTF-16 with its nul terminator.
fn text(path: &[u16]) -> String {
    assert_eq!(path.last(), Some(&0));
    String::from_utf16(&path[..path.len() - 1]).unwrap()
}

fn put16(image: &mut [u8], at: usize, value: u16) {
    image[at..at + 2].copy_from_slice(&value.to_le_bytes());
}

fn put32(image: &mut [u8], at: usize, value: u32) {
    image[at..at + 4].copy_from_slice(&value.to_le_bytes());
}

/// The image of a 32-bit `kernel32.dll` that exports the three functions.
fn kernel32_image() -> Vec<u8> {
    let exports: [(&str, u32); 3] =
        [("FreeLibrary", 0x5670), ("GetProcAddress", 0x89A0), ("LoadLibraryW", 0x2340)];
    let mut image = vec![0u8; 0x600];
    image[0] = b'M';
    image[1] = b'Z';
    put32(&mut image, 0x3C, 0x40);
    image[0x40..0x44].copy_from_slice(b"PE\0\0");
    put16(&mut image, 0x44, 0x014C);
    put16(&mut image, 0x46, 1);
    put16(&mut image, 0x54, 0xE0);
    put16(&mut image, 0x56, 0x2102);
    let opt = 0x58;
    put16(&mut image, opt, 0x010B);
    put32(&mut image, opt + 28, 0x1000_0000);
    put32(&mut image, opt + 32, 0x1000);
    put32(&mut image, opt + 36, 0x200);
    put16(&mut image, opt + 40, 6);
    put16(&mut image, opt + 48, 6);
    put32(&mut image, opt + 56, 0x2000);
    put32(&mut image, opt + 60, 0x200);
    put16(&mut image, opt + 68, 3);
    put32(&mut image, opt + 92, 16);
    put32(&mut image, opt + 96, 0x1000);
    put32(&mut image, opt + 100, 0x400);
    let sec = opt + 0xE0;
    image[sec..sec + 6].copy_from_slice(b".edata");
    put32(&mut image, sec + 8, 0x400);
    put32(&mut image, sec + 12, 0x1000);
    put32(&mut image, sec + 16, 0x400);
    put32(&mut image, sec + 20, 0x200);
    put32(&mut image, sec + 36, 0x4000_0040);
    let dir = 0x200;
    let n = exports.len() as u32;
    let addresses = 40u32;
    let names = addresses + 4 * n;
    let ordinals = names + 4 * n;
    let library_name = ordinals + 2 * n;
    let mut strings = library_name + 16;
    put32(&mut image, dir + 12, 0x1000 + library_name);
    put32(&mut image, dir + 16, 1);
    put32(&mut image, dir + 20, n);
    put32(&mut image, dir + 24, n);
    put32(&mut image, dir + 28, 0x1000 + addresses);
    put32(&mut image, dir + 32, 0x1000 + names);
    put32(&mut image, dir + 36, 0x1000 + ordinals);
    let at = dir + library_name as usize;
    image[at..at + 12].copy_from_slice(b"kernel32.dll");
    for (i, (name, rva)) in exports.iter().enumerate() {
        put32(&mut image, dir + addresses as usize + 4 * i, *rva);
        put32(&mut image, dir + names as usize + 4 * i, 0x1000 + strings);
        put16(&mut image, dir + ordinals as usize + 2 * i, i as u16);
        let at = dir + strings as usize;
        image[at..at + name.len()].copy_from_slice(name.as_bytes());
        strings += name.len() as u32 + 1;
    }
    image
}

impl Target {
    fn new(narrow: bool) -> Target {
        Target {
            narrow,
            alive: true,
            memory: BTreeMap::new(),
            next_region: if narrow { 0x0040_0000 } else { 0x1_4000_0000 },
            flushed: BTreeSet::new(),
            modules: vec![if narrow { KERNEL32_X86 } else { KERNEL32 }],
            threads: BTreeMap::new(),
            next_thread: 0x100,
            closed: Vec::new(),
            seen: Vec::new(),
            fail_writes: None,
            paused: 0,
            starts_after: 0,
            released: Vec::new(),
        }
    }

    fn payload(&self) -> usize {
        if self.narrow {
            PAYLOAD_X86
        } else {
            PAYLOAD
        }
    }

    fn kernel32(&self) -> usize {
        if self.narrow {
            KERNEL32_X86
        } else {
            KERNEL32
        }
    }

    fn read(&self, address: usize, len: usize) -> Vec<u8> {
        (0..len).map(|i| *self.memory.get(&(address + i)).unwrap_or(&0xCC)).collect()
    }

    fn write(&mut self, address: usize, bytes: &[u8]) {
        for (i, b) in bytes.iter().enumerate() {
            self.memory.insert(address + i, *b);
        }
    }

    fn read_u64(&self, address: usize) -> u64 {
        let mut raw = [0u8; 8];
        raw.copy_from_slice(&self.read(address, 8));
        u64::from_le_bytes(raw)
    }

    fn read_u32(&self, address: usize) -> u32 {
        let mut raw = [0u8; 4];
        raw.copy_from_slice(&self.read(address, 4));
        u32::from_le_bytes(raw)
    }

    fn wide_string(&self, address: usize) -> String {
        let mut units = Vec::new();
        let mut at = address;
        loop {
            let unit = u16::from_le_bytes([self.read(at, 1)[0], self.read(at + 1, 1)[0]]);
            if unit == 0 {
                break;
            }
            units.push(unit);
            at += 2;
        }
        String::from_utf16(&units).unwrap()
    }

    fn c_string(&self, address: usize) -> String {
        let mut bytes = Vec::new();
        let mut at = address;
        while self.read(at, 1)[0] != 0 {
            bytes.push(self.read(at, 1)[0]);
            at += 1;
        }
        String::from_utf8(bytes).unwrap()
    }

    fn export(&self, module: usize, name: &str) -> usize {
        if module != self.payload() || !self.modules.contains(&module) {
            return 0;
        }
        match name {
            "echo" => module + ECHO,
            "add" => module + ADD,
            _ => 0,
        }
    }

    /// Runs the payload function at `callee` on the argument at `argument`.
    fn call(&mut self, callee: usize, argument: usize, result: usize) {
        if callee == self.payload() + ECHO {
            let value = self.read(argument, 4);
            self.write(result, &value);
        } else if callee == self.payload() + ADD {
            let mut a = [0u8; 8];
            a.copy_from_slice(&self.read(argument, 8));
            let mut b = [0u8; 8];
            b.copy_from_slice(&self.read(argument + 8, 8));
            let sum = f64::from_le_bytes(a) + f64::from_le_bytes(b);
            self.write(result, &sum.to_le_bytes());
        } else {
            panic!("thread started at {:#x}, where no function stands", callee);
        }
    }

    /// Runs the trampoline at `entry` as the processor would.
    fn run_stub(&mut self, entry: usize, parameter: usize) -> u32 {
        assert!(self.flushed.contains(&entry), "code is run before it was flushed");
        let head = self.read(entry, 8);
        if self.narrow {
            assert_eq!(&head[..4], &[0x8B, 0x44, 0x24, 0x04]);
            if head[4] == 0xFF {
                // push [eax+8]; push [eax]; mov eax, f; call eax; mov [r], eax
                assert_eq!(&self.read(entry + 4, 6), &[0xFF, 0x70, 0x08, 0xFF, 0x30, 0xB8]);
                let f = self.read_u32(entry + 10) as usize;
                assert_eq!(f, KERNEL32_X86 + 0x89A0);
                assert_eq!(&self.read(entry + 14, 3), &[0xFF, 0xD0, 0xA3]);
                let result = self.read_u32(entry + 17) as usize;
                let module = self.read_u32(parameter) as usize;
                let name = self.c_string(self.read_u32(parameter + 8) as usize);
                let found = self.export(module, &name) as u32;
                self.write(result, &found.to_le_bytes());
            } else {
                // push r; push eax; mov eax, f; call eax
                assert_eq!(head[4], 0x68);
                let result = self.read_u32(entry + 5) as usize;
                assert_eq!(&self.read(entry + 9, 2), &[0x50, 0xB8]);
                let callee = self.read_u32(entry + 11) as usize;
                self.call(callee, parameter, result);
            }
        } else {
            assert_eq!(&head[..4], &[0x48, 0x83, 0xEC, 0x28]);
            if head[4..6] == [0x48, 0xBA] {
                // mov rdx, r; mov rcx, rcx; mov rax, f; call rax
                let result = self.read_u64(entry + 6) as usize;
                assert_eq!(&self.read(entry + 14, 5), &[0x48, 0x89, 0xC9, 0x48, 0xB8]);
                let callee = self.read_u64(entry + 19) as usize;
                self.call(callee, parameter, result);
            } else {
                // mov rdx, [rcx+8]; mov rcx, [rcx]; mov rax, f; call rax; mov [r], rax
                assert_eq!(
                    &self.read(entry + 4, 9),
                    &[0x48, 0x8B, 0x51, 0x08, 0x48, 0x8B, 0x09, 0x48, 0xB8]
                );
                let f = self.read_u64(entry + 13) as usize;
                assert_eq!(f, GET_PROC_ADDRESS);
                assert_eq!(&self.read(entry + 21, 4), &[0xFF, 0xD0, 0x48, 0xA3]);
                let result = self.read_u64(entry + 25) as usize;
                let module = self.read_u64(parameter) as usize;
                let name = self.c_string(self.read_u64(parameter + 8) as usize);
                let found = self.export(module, &name) as u64;
                self.write(result, &found.to_le_bytes());
            }
        }
        0
    }

    fn start(&mut self, entry: usize, parameter: usize) -> u32 {
        let base = self.kernel32();
        let (load_library, free_library) = if self.narrow {
            (base + 0x2340, base + 0x5670)
        } else {
            (LOAD_LIBRARY, FREE_LIBRARY)
        };
        if entry == load_library {
            if self.wide_string(parameter) == PAYLOAD_PATH {
                let handle = self.payload();
                if !self.modules.contains(&handle) {
                    self.modules.push(handle);
                }
                handle as u32
            } else {
                0
            }
        } else if entry == free_library {
            match self.modules.iter().position(|m| *m == parameter) {
                Some(i) => {
                    self.modules.remove(i);
                    1
                }
                None => 0,
            }
        } else {
            self.run_stub(entry, parameter)
        }
    }

    fn perform(&mut self, request: Request) -> Reply {
        self.seen.push(match &request {
            Request::Reserve { .. } => "reserve",
            Request::Release { .. } => "release",
            Request::Pause { .. } => "pause",
            Request::Write { .. } => "write",
            Request::Read { .. } => "read",
            Request::Flush { .. } => "flush",
            Request::StartThread { .. } => "start",
            Request::AwaitThread { .. } => "await",
            Request::QueryExitCode { .. } => "query",
            Request::CloseThread { .. } => "close",
            Request::FindModuleByPath { .. } => "find",
            Request::FindKernel32 => "kernel32",
            Request::ModuleHandles => "handles",
            Request::LoadError { .. } => "load-error",
            Request::UnloadError { .. } => "unload-error",
            Request::LocalKernel32 => "local",
            Request::ReadWow64Kernel32 => "image",
        });
        if let Request::CloseThread { thread } = &request {
            self.closed.push(*thread);
            return Reply::Done;
        }
        if let Request::LocalKernel32 = &request {
            return Reply::Kernel32 {
                base: KERNEL32,
                load_library: LOAD_LIBRARY,
                free_library: FREE_LIBRARY,
                get_proc_address: GET_PROC_ADDRESS,
            };
        }
        if let Request::ReadWow64Kernel32 = &request {
            return Reply::Bytes(kernel32_image());
        }
        if let Request::Pause { millis } = &request {
            self.paused += *millis;
            return Reply::Done;
        }
        if let Request::Release { base } = &request {
            self.released.push(*base);
            return Reply::Done;
        }
        if !self.alive {
            return Reply::Failed { code: 5, target_alive: false };
        }
        match request {
            Request::Reserve { len } => {
                let base = self.next_region;
                self.next_region += len + 0x1_0000;
                Reply::Reserved { base }
            }
            Request::Write { address, bytes } => {
                if let Some(code) = self.fail_writes {
                    return Reply::Failed { code, target_alive: true };
                }
                self.write(address, &bytes);
                self.flushed.remove(&address);
                Reply::Done
            }
            Request::Read { address, len } => Reply::Bytes(self.read(address, len)),
            Request::Flush { address, .. } => {
                self.flushed.insert(address);
                Reply::Done
            }
            Request::StartThread { entry, parameter } => {
                let code = self.start(entry, parameter);
                let handle = self.next_thread;
                self.next_thread += 4;
                self.threads.insert(handle, code);
                Reply::Thread { handle, last_error: 0 }
            }
            Request::AwaitThread { thread } => {
                assert!(self.threads.contains_key(&thread));
                Reply::Waited { reason: 0, last_error: 0 }
            }
            Request::QueryExitCode { thread } => {
                Reply::ExitCode { queried: true, code: self.threads[&thread], last_error: 0 }
            }
            Request::FindModuleByPath { path } => Reply::Module(if text(&path) == PAYLOAD_PATH {
                self.modules.iter().copied().find(|m| *m == self.payload())
            } else {
                None
            }),
            Request::FindKernel32 => Reply::Module(if self.paused >= self.starts_after {
                Some(self.kernel32())
            } else {
                None
            }),
            Request::ModuleHandles => Reply::Handles(self.modules.clone()),
            Request::LoadError { path } => {
                assert_ne!(text(&path), PAYLOAD_PATH);
                Reply::ErrorCode(126)
            }
            Request::UnloadError { module } => {
                assert!(!self.modules.contains(&module));
                Reply::ErrorCode(6)
            }
            Request::CloseThread { .. }
            | Request::LocalKernel32
            | Request::ReadWow64Kernel32
            | Request::Pause { .. }
            | Request::Release { .. } => unreachable!(),
        }
    }

    fn count(&self, kind: &str) -> usize {
        self.seen.iter().filter(|k| **k == kind).count()
    }
}

fn run(syringe: &mut Syringe, target: &mut Target, first: Step) -> Result<Outcome, SyringeError> {
    let mut step = first;
    loop {
        match step {
            Step::Done(outcome) => {
                assert!(syringe.is_idle());
                return outcome;
            }
            Step::Next(request) => {
                assert!(!syringe.is_idle());
                let reply = target.perform(request);
                assert!(syringe.accepts(&reply), "{:?} is not expected", reply);
                step = syringe.resume(reply);
            }
        }
    }
}

fn call(
    syringe: &mut Syringe,
    target: &mut Target,
    procedure: &mut RemoteProcedure,
    arg: Vec<u8>,
) -> Result<Vec<u8>, SyringeError> {
    let mut step = syringe.call_procedure(procedure, arg);
    loop {
        match step {
            InvokeStep::Done(outcome) => {
                assert!(!procedure.is_busy());
                return outcome;
            }
            InvokeStep::Next(request) => {
                assert!(procedure.is_busy());
                let reply = target.perform(request);
                assert!(syringe.accepts_for(procedure, &reply), "{:?} is not expected", reply);
                step = syringe.resume_procedure(procedure, reply);
            }
        }
    }
}

fn injected(outcome: Result<Outcome, SyringeError>) -> usize {
    match outcome {
        Ok(Outcome::Injected(handle)) => handle,
        other => panic!("not an injection: {:?}", other),
    }
}

fn live_bytes(syringe: &Syringe) -> usize {
    let allocator = syringe.allocator();
    (0..allocator.region_count()).map(|i| allocator.region(i).live_bytes()).sum()
}

fn at(syringe: &Syringe, handle: usize) -> ProcessModule {
    ProcessModule::new(handle, syringe.process())
}

fn send<T: Send>() {}

fn sync<T: Sync>() {}

#[test]
fn syringe_is_send() {
    send::<Syringe>();
}

#[test]
fn syringe_is_sync() {
    sync::<Syringe>();
}

#[test]
fn new_syringe_knows_nothing() {
    let process = ProcessRef::new(0x1F0, false);
    let syringe = Syringe::new(process);
    assert!(syringe.is_idle());
    assert_eq!(syringe.process(), process);
    assert_eq!(syringe.process().handle(), 0x1F0);
    assert!(!syringe.process().is_x86());
    assert_eq!(syringe.allocator().region_count(), 0);
    assert!(!syringe.accepts(&Reply::Done));
}

#[test]
fn help_data_of_a_wide_target_comes_from_the_host() {
    let syringe = Syringe::new(ProcessRef::new(1, false));
    assert!(matches!(
        syringe.get_inject_help_data_for_process(),
        Ok(HelpData::Load(Load::Local))
    ));
}

#[test]
fn help_data_of_a_narrow_target_comes_from_its_own_library() {
    let syringe = Syringe::new(ProcessRef::new(1, true));
    assert!(matches!(
        syringe.get_inject_help_data_for_process(),
        Ok(HelpData::Load(Load::Locating { waited: 0 }))
    ));
}

#[test]
fn inject_then_eject() {
    let mut target = Target::new(false);
    let mut syringe = Syringe::new(ProcessRef::new(1, false));
    let first = syringe.inject(PAYLOAD_PATH);
    let handle = injected(run(&mut syringe, &mut target, first));
    assert_eq!(handle, PAYLOAD);
    assert_eq!(handle as u32, 0x1234_0000);
    assert!(target.modules.contains(&handle));
    assert_eq!(
        target.seen,
        vec![
            "local", "reserve", "write", "start", "await", "query", "close", "find"
        ]
    );
    assert_eq!(live_bytes(&syringe), 0);
    assert!(matches!(
        syringe.get_inject_help_data_for_process(),
        Ok(HelpData::Cached(data)) if data.get_load_library_fn_ptr() == LOAD_LIBRARY
    ));

    target.seen.clear();
    let first = syringe.eject(handle);
    let outcome = run(&mut syringe, &mut target, first);
    assert!(matches!(outcome, Ok(Outcome::Ejected)));
    assert!(!target.modules.contains(&handle));
    assert_eq!(target.seen, vec!["start", "await", "query", "close", "handles"]);
    assert_eq!(target.closed.len(), 2);
    assert_ne!(target.closed[0], target.closed[1]);
}

#[test]
fn path_is_written_where_the_thread_reads_it() {
    let mut target = Target::new(false);
    let mut syringe = Syringe::new(ProcessRef::new(1, false));
    let mut step = syringe.inject(PAYLOAD_PATH);
    let mut written = None;
    loop {
        match step {
            Step::Done(_) => break,
            Step::Next(request) => {
                match &request {
                    Request::Reserve { len } => assert_eq!(*len, 4096),
                    Request::Write { address, bytes } => {
                        assert_eq!(bytes.len(), 34);
                        written = Some(*address);
                    }
                    Request::StartThread { entry, parameter } => {
                        assert_eq!(*entry, LOAD_LIBRARY);
                        assert_eq!(Some(*parameter), written);
                    }
                    Request::FindModuleByPath { path } => assert_eq!(text(path), PAYLOAD_PATH),
                    _ => {}
                }
                let reply = target.perform(request);
                step = syringe.resume(reply);
            }
        }
    }
    assert_eq!(written, Some(0x1_4000_0000));
}

#[test]
fn echo() {
    let mut target = Target::new(false);
    let mut syringe = Syringe::new(ProcessRef::new(1, false));
    let first = syringe.inject(PAYLOAD_PATH);
    let module = injected(run(&mut syringe, &mut target, first));
    let first = syringe.get_procedure(at(&syringe, module), "echo", 4);
    let mut procedure = match run(&mut syringe, &mut target, first) {
        Ok(Outcome::Procedure(Some(p))) => p,
        other => panic!("no procedure: {:?}", other),
    };
    assert_eq!(procedure.as_ptr(), PAYLOAD + ECHO);
    assert_eq!(procedure.process(), syringe.process());
    let result =
        call(&mut syringe, &mut target, &mut procedure, 0xDEAD_BEEFu32.to_le_bytes().to_vec());
    assert_eq!(result, Ok(0xDEAD_BEEFu32.to_le_bytes().to_vec()));
    // the stub is kept: a second call writes the argument and nothing else
    target.seen.clear();
    let result = call(&mut syringe, &mut target, &mut procedure, 7u32.to_le_bytes().to_vec());
    assert_eq!(result, Ok(7u32.to_le_bytes().to_vec()));
    assert_eq!(target.seen, vec!["write", "start", "await", "query", "close", "read"]);
}

#[test]
fn add() {
    let mut target = Target::new(false);
    let mut syringe = Syringe::new(ProcessRef::new(1, false));
    let first = syringe.inject(PAYLOAD_PATH);
    let module = injected(run(&mut syringe, &mut target, first));
    let first = syringe.get_procedure(at(&syringe, module), "add", 8);
    let mut procedure = match run(&mut syringe, &mut target, first) {
        Ok(Outcome::Procedure(Some(p))) => p,
        other => panic!("no procedure: {:?}", other),
    };
    let mut arg = 1.5f64.to_le_bytes().to_vec();
    arg.extend_from_slice(&2.25f64.to_le_bytes());
    let result = call(&mut syringe, &mut target, &mut procedure, arg).unwrap();
    let mut raw = [0u8; 8];
    raw.copy_from_slice(&result);
    assert_eq!(f64::from_le_bytes(raw), 3.75);
}

#[test]
fn invalid_path() {
    let mut target = Target::new(false);
    let mut syringe = Syringe::new(ProcessRef::new(1, false));
    let first = syringe.inject("invalid path");
    let outcome = run(&mut syringe, &mut target, first);
    assert!(matches!(outcome, Err(SyringeError::RemoteOperationFailed(126))));
    assert_eq!(target.closed.len(), 1);
    assert_eq!(live_bytes(&syringe), 0);
    assert_eq!(target.count("find"), 0);
    assert_eq!(target.seen.last(), Some(&"load-error"));
}

#[test]
fn crashed_target() {
    let mut target = Target::new(false);
    let mut syringe = Syringe::new(ProcessRef::new(1, false));
    target.alive = false;
    let first = syringe.inject(PAYLOAD_PATH);
    let outcome = run(&mut syringe, &mut target, first);
    assert!(matches!(outcome, Err(SyringeError::ProcessInaccessible)));
    assert!(syringe.is_idle());
}

#[test]
fn procedure_on_unloaded_module() {
    let mut target = Target::new(false);
    let mut syringe = Syringe::new(ProcessRef::new(1, false));
    let first = syringe.inject(PAYLOAD_PATH);
    let module = injected(run(&mut syringe, &mut target, first));
    let first = syringe.get_procedure_address(at(&syringe, module), "nonexistent");
    let outcome = run(&mut syringe, &mut target, first);
    assert!(matches!(outcome, Ok(Outcome::Address(None))));
    let first = syringe.get_procedure(at(&syringe, module), "nonexistent", 4);
    let outcome = run(&mut syringe, &mut target, first);
    assert!(matches!(outcome, Ok(Outcome::Procedure(None))));
    let first = syringe.eject(module);
    assert!(matches!(run(&mut syringe, &mut target, first), Ok(Outcome::Ejected)));
    let first = syringe.get_procedure_address(at(&syringe, module), "echo");
    let outcome = run(&mut syringe, &mut target, first);
    assert!(matches!(outcome, Ok(Outcome::Address(None))));
}

#[test]
fn lookup_builds_its_stub_once() {
    let mut target = Target::new(false);
    let mut syringe = Syringe::new(ProcessRef::new(1, false));
    let first = syringe.inject(PAYLOAD_PATH);
    let module = injected(run(&mut syringe, &mut target, first));
    target.seen.clear();
    let first = syringe.get_procedure_address(at(&syringe, module), "echo");
    let outcome = run(&mut syringe, &mut target, first);
    assert!(matches!(outcome, Ok(Outcome::Address(Some(a))) if a == PAYLOAD + ECHO));
    assert_eq!(
        target.seen,
        vec![
            "write", "flush", "write", "write", "write", "start", "await", "query", "close",
            "read"
        ]
    );
    // parameter cell, result cell and code stay; the name has gone back
    let kept = live_bytes(&syringe);
    assert!(kept > 16 + 8);
    target.seen.clear();
    let first = syringe.get_procedure_address(at(&syringe, module), "add");
    let outcome = run(&mut syringe, &mut target, first);
    assert!(matches!(outcome, Ok(Outcome::Address(Some(a))) if a == PAYLOAD + ADD));
    assert_eq!(
        target.seen,
        vec!["write", "write", "write", "start", "await", "query", "close", "read"]
    );
    assert_eq!(live_bytes(&syringe), kept);
}

#[test]
fn narrow_target_is_served_from_its_own_kernel32() {
    let mut target = Target::new(true);
    let mut syringe = Syringe::new(ProcessRef::new(1, true));
    let first = syringe.inject(PAYLOAD_PATH);
    let module = injected(run(&mut syringe, &mut target, first));
    assert_eq!(module, PAYLOAD_X86);
    assert_eq!(&target.seen[..3], &["kernel32", "image", "reserve"]);
    assert!(matches!(
        syringe.get_inject_help_data_for_process(),
        Ok(HelpData::Cached(data)) if data.get_load_library_fn_ptr() == KERNEL32_X86 + 0x2340
            && data.get_free_library_fn_ptr() == KERNEL32_X86 + 0x5670
            && data.get_proc_address_fn_ptr() == KERNEL32_X86 + 0x89A0
    ));
    let first = syringe.get_procedure(at(&syringe, module), "echo", 4);
    let mut procedure = match run(&mut syringe, &mut target, first) {
        Ok(Outcome::Procedure(Some(p))) => p,
        other => panic!("no procedure: {:?}", other),
    };
    assert_eq!(procedure.as_ptr(), PAYLOAD_X86 + ECHO);
    let result = call(&mut syringe, &mut target, &mut procedure, 0x0102_0304u32.to_le_bytes().to_vec());
    assert_eq!(result, Ok(vec![4, 3, 2, 1]));
    let first = syringe.eject(module);
    assert!(matches!(run(&mut syringe, &mut target, first), Ok(Outcome::Ejected)));
}

#[test]
fn path_with_a_nul_is_refused_at_once() {
    let mut syringe = Syringe::new(ProcessRef::new(1, false));
    let step = syringe.inject("C:\\t\0\\payload.dll");
    assert!(matches!(step, Step::Done(Err(SyringeError::PathEncoding))));
    assert!(syringe.is_idle());
}

#[test]
fn failed_write_is_a_remote_io_error() {
    let mut target = Target::new(false);
    let mut syringe = Syringe::new(ProcessRef::new(1, false));
    target.fail_writes = Some(998);
    let first = syringe.inject(PAYLOAD_PATH);
    let outcome = run(&mut syringe, &mut target, first);
    assert!(matches!(outcome, Err(SyringeError::RemoteIo(998))));
    assert_eq!(live_bytes(&syringe), 0);
    assert_eq!(target.count("start"), 0);
    // the next operation does without loading the help data again
    target.fail_writes = None;
    target.seen.clear();
    let first = syringe.inject(PAYLOAD_PATH);
    assert_eq!(injected(run(&mut syringe, &mut target, first)), PAYLOAD);
    assert_eq!(target.count("local"), 0);
    assert_eq!(target.count("reserve"), 0);
}

#[test]
fn image_that_is_no_library_is_a_parse_error() {
    let mut syringe = Syringe::new(ProcessRef::new(1, true));
    let step = syringe.inject(PAYLOAD_PATH);
    assert!(matches!(step, Step::Next(Request::FindKernel32)));
    let reply = Reply::Module(Some(KERNEL32_X86));
    assert!(syringe.accepts(&reply));
    let step = syringe.resume(reply);
    assert!(matches!(step, Step::Next(Request::ReadWow64Kernel32)));
    let reply = Reply::Bytes(vec![0x7F, b'E', b'L', b'F', 2, 1, 1, 0, 0, 0, 0, 0, 0, 0, 0, 0]);
    assert!(syringe.accepts(&reply));
    let step = syringe.resume(reply);
    assert!(matches!(step, Step::Done(Err(SyringeError::PeParse))));
    assert!(syringe.is_idle());
}

#[test]
fn replies_that_the_engine_cannot_go_on_with_are_not_accepted() {
    let mut target = Target::new(false);
    let mut syringe = Syringe::new(ProcessRef::new(1, false));
    let step = syringe.inject(PAYLOAD_PATH);
    assert!(matches!(step, Step::Next(Request::LocalKernel32)));
    assert!(!syringe.accepts(&Reply::Done));
    assert!(!syringe.accepts(&Reply::Kernel32 {
        base: KERNEL32,
        load_library: 0,
        free_library: FREE_LIBRARY,
        get_proc_address: GET_PROC_ADDRESS,
    }));
    let reply = target.perform(Request::LocalKernel32);
    let step = syringe.resume(reply);
    assert!(matches!(step, Step::Next(Request::Reserve { len: 4096 })));
    assert!(!syringe.accepts(&Reply::Reserved { base: 0 }));
    assert!(syringe.accepts(&Reply::Reserved { base: 0x5000_0000 }));
    let mut step = syringe.resume(Reply::Reserved { base: 0x5000_0000 });
    // up to the lookup of the module
    loop {
        match step {
            Step::Next(Request::FindModuleByPath { .. }) => break,
            Step::Next(request) => {
                let reply = target.perform(request);
                step = syringe.resume(reply);
            }
            Step::Done(outcome) => panic!("over too early: {:?}", outcome),
        }
    }
    assert!(!syringe.accepts(&Reply::Module(None)));
    assert!(!syringe.accepts(&Reply::Module(Some(PAYLOAD + 1))));
    assert!(syringe.accepts(&Reply::Module(Some(0xABCD_1234_0000))));
    assert!(syringe.accepts(&Reply::Module(Some(PAYLOAD))));
    let step = syringe.resume(Reply::Module(Some(PAYLOAD)));
    assert!(matches!(step, Step::Done(Ok(Outcome::Injected(PAYLOAD)))));

    let mut step = syringe.eject(PAYLOAD);
    loop {
        match step {
            Step::Next(Request::ModuleHandles) => break,
            Step::Next(request) => {
                let reply = target.perform(request);
                step = syringe.resume(reply);
            }
            Step::Done(outcome) => panic!("over too early: {:?}", outcome),
        }
    }
    assert!(!syringe.accepts(&Reply::Handles(vec![KERNEL32, PAYLOAD])));
    assert!(syringe.accepts(&Reply::Handles(vec![KERNEL32])));
}

#[test]
fn eject_of_a_module_that_is_not_loaded_fails() {
    let mut target = Target::new(false);
    let mut syringe = Syringe::new(ProcessRef::new(1, false));
    let first = syringe.eject(0x1234_5678);
    let outcome = run(&mut syringe, &mut target, first);
    assert!(matches!(outcome, Err(SyringeError::RemoteOperationFailed(6))));
    assert_eq!(
        target.seen,
        vec!["local", "start", "await", "query", "close", "unload-error"]
    );
}

#[test]
fn argument_that_outgrows_its_cell_gets_a_new_stub() {
    let mut target = Target::new(false);
    let mut syringe = Syringe::new(ProcessRef::new(1, false));
    let first = syringe.inject(PAYLOAD_PATH);
    let module = injected(run(&mut syringe, &mut target, first));
    let mut procedure = RemoteProcedure::new(module + ECHO, 4, syringe.process());
    let result = call(&mut syringe, &mut target, &mut procedure, vec![1, 2, 3, 4]);
    assert_eq!(result, Ok(vec![1, 2, 3, 4]));
    let small = live_bytes(&syringe);
    target.seen.clear();
    let result = call(&mut syringe, &mut target, &mut procedure, vec![9, 8, 7, 6, 5, 4, 3, 2]);
    assert_eq!(result, Ok(vec![9, 8, 7, 6]));
    assert_eq!(target.count("flush"), 1);
    assert_eq!(live_bytes(&syringe), small + 4);
    target.seen.clear();
    let result = call(&mut syringe, &mut target, &mut procedure, vec![5, 5, 5, 5]);
    assert_eq!(result, Ok(vec![5, 5, 5, 5]));
    assert_eq!(target.count("flush"), 0);
}

#[test]
fn large_argument_gets_a_region_of_its_own() {
    let mut target = Target::new(false);
    let mut syringe = Syringe::new(ProcessRef::new(1, false));
    let first = syringe.inject(PAYLOAD_PATH);
    let module = injected(run(&mut syringe, &mut target, first));
    let mut procedure = RemoteProcedure::new(module + ECHO, 4, syringe.process());
    let mut arg = vec![0u8; 10_000];
    arg[..4].copy_from_slice(&[0xAA, 0xBB, 0xCC, 0xDD]);
    let mut step = syringe.call_procedure(&mut procedure, arg);
    match &step {
        InvokeStep::Next(Request::Reserve { len }) => assert_eq!(*len, 12288),
        other => panic!("no region was asked for: {:?}", other),
    }
    let result = loop {
        match step {
            InvokeStep::Done(outcome) => break outcome,
            InvokeStep::Next(request) => {
                let reply = target.perform(request);
                assert!(syringe.accepts_for(&procedure, &reply));
                step = syringe.resume_procedure(&mut procedure, reply);
            }
        }
    };
    assert_eq!(result, Ok(vec![0xAA, 0xBB, 0xCC, 0xDD]));
    assert_eq!(syringe.allocator().region_count(), 2);
}

#[test]
fn target_that_is_still_starting_is_looked_at_again() {
    let mut target = Target::new(true);
    target.starts_after = 30;
    let mut syringe = Syringe::new(ProcessRef::new(1, true));
    let first = syringe.inject(PAYLOAD_PATH);
    assert_eq!(injected(run(&mut syringe, &mut target, first)), PAYLOAD_X86);
    assert_eq!(
        &target.seen[..8],
        &["kernel32", "pause", "kernel32", "pause", "kernel32", "pause", "kernel32", "image"]
    );
    assert_eq!(target.paused, 30);
}

#[test]
fn target_without_kernel32_is_given_one_second() {
    let mut target = Target::new(true);
    target.starts_after = u32::MAX;
    let mut syringe = Syringe::new(ProcessRef::new(1, true));
    let mut step = syringe.inject(PAYLOAD_PATH);
    let mut looks = 0;
    loop {
        match step {
            Step::Next(request) => {
                if let Request::Pause { millis } = &request {
                    assert_eq!(*millis, 10);
                }
                if let Request::FindKernel32 = &request {
                    looks += 1;
                }
                let reply = target.perform(request);
                if !syringe.accepts(&reply) {
                    assert!(matches!(reply, Reply::Module(None)));
                    break;
                }
                step = syringe.resume(reply);
            }
            Step::Done(outcome) => panic!("over without kernel32: {:?}", outcome),
        }
    }
    assert_eq!(target.paused, 1000);
    assert_eq!(looks, 101);
}

#[test]
fn closing_hands_every_region_back() {
    let mut target = Target::new(false);
    let mut syringe = Syringe::new(ProcessRef::new(1, false));
    let first = syringe.inject(PAYLOAD_PATH);
    let module = injected(run(&mut syringe, &mut target, first));
    let mut procedure = RemoteProcedure::new(module + ECHO, 4, syringe.process());
    let mut arg = vec![0u8; 5000];
    arg[0] = 1;
    let _ = call(&mut syringe, &mut target, &mut procedure, arg).unwrap();
    assert_eq!(syringe.allocator().region_count(), 2);
    let bases: Vec<usize> =
        (0..2).map(|i| syringe.allocator().region(i).base()).collect();
    let releases = syringe.close();
    assert_eq!(releases.len(), 2);
    for (request, base) in releases.into_iter().zip(bases) {
        assert!(matches!(request, Request::Release { base: b } if b == base));
    }
}

#[test]
fn wide_target_of_a_narrow_host_is_not_supported() {
    let mut syringe = Syringe::for_host(ProcessRef::new(1, false), false);
    assert!(matches!(
        syringe.get_inject_help_data_for_process(),
        Err(SyringeError::UnsupportedTarget)
    ));
    let step = syringe.inject(PAYLOAD_PATH);
    assert!(matches!(step, Step::Done(Err(SyringeError::UnsupportedTarget))));
    assert!(syringe.is_idle());
    let step = syringe.eject(PAYLOAD);
    assert!(matches!(step, Step::Done(Err(SyringeError::UnsupportedTarget))));
    let step = syringe.get_procedure_address(at(&syringe, PAYLOAD), "echo");
    assert!(matches!(step, Step::Done(Err(SyringeError::UnsupportedTarget))));
}

#[test]
fn narrow_target_of_a_narrow_host_shares_its_kernel32() {
    let mut syringe = Syringe::for_host(ProcessRef::new(1, true), false);
    assert!(matches!(
        syringe.get_inject_help_data_for_process(),
        Ok(HelpData::Load(Load::Local))
    ));
    let step = syringe.inject(PAYLOAD_PATH);
    assert!(matches!(step, Step::Next(Request::LocalKernel32)));
    // functions above 4 GiB cannot be called in a 32-bit target
    assert!(!syringe.accepts(&Reply::Kernel32 {
        base: KERNEL32,
        load_library: LOAD_LIBRARY,
        free_library: FREE_LIBRARY,
        get_proc_address: GET_PROC_ADDRESS,
    }));
    assert!(syringe.accepts(&Reply::Kernel32 {
        base: KERNEL32_X86,
        load_library: KERNEL32_X86 + 0x2340,
        free_library: KERNEL32_X86 + 0x5670,
        get_proc_address: KERNEL32_X86 + 0x89A0,
    }));
}

#[test]
fn thread_that_cannot_be_created_fails_the_injection() {
    let mut target = Target::new(false);
    let mut syringe = Syringe::new(ProcessRef::new(1, false));
    let mut step = syringe.inject(PAYLOAD_PATH);
    let outcome = loop {
        match step {
            Step::Done(outcome) => break outcome,
            Step::Next(Request::StartThread { .. }) => {
                step = syringe.resume(Reply::Thread { handle: 0, last_error: 8 });
            }
            Step::Next(request) => {
                let reply = target.perform(request);
                step = syringe.resume(reply);
            }
        }
    };
    assert!(matches!(outcome, Err(SyringeError::RemoteIo(8))));
    assert!(target.closed.is_empty());
    assert_eq!(live_bytes(&syringe), 0);
}

#[test]
fn failure_while_the_thread_runs_closes_its_handle_first() {
    let mut target = Target::new(false);
    let mut syringe = Syringe::new(ProcessRef::new(1, false));
    let first = syringe.inject(PAYLOAD_PATH);
    let module = injected(run(&mut syringe, &mut target, first));
    target.seen.clear();
    target.closed.clear();
    let mut step = syringe.get_procedure_address(at(&syringe, module), "echo");
    let outcome = loop {
        match step {
            Step::Done(outcome) => break outcome,
            Step::Next(Request::AwaitThread { .. }) => {
                target.seen.push("await");
                step = syringe.resume(Reply::Failed { code: 6, target_alive: false });
            }
            Step::Next(request) => {
                let reply = target.perform(request);
                step = syringe.resume(reply);
            }
        }
    };
    assert!(matches!(outcome, Err(SyringeError::ProcessInaccessible)));
    assert_eq!(target.closed.len(), 1);
    assert_eq!(target.seen.last(), Some(&"close"));
    assert_eq!(target.count("read"), 0);
}

#[test]
fn failed_load_asks_for_its_error_code() {
    let mut target = Target::new(false);
    let mut syringe = Syringe::new(ProcessRef::new(1, false));
    let mut step = syringe.inject("invalid path");
    loop {
        match step {
            Step::Next(Request::LoadError { path }) => {
                assert_eq!(text(&path), "invalid path");
                break;
            }
            Step::Next(request) => {
                let reply = target.perform(request);
                step = syringe.resume(reply);
            }
            Step::Done(outcome) => panic!("over too early: {:?}", outcome),
        }
    }
    assert!(!syringe.accepts(&Reply::Done));
    assert!(!syringe.accepts(&Reply::Module(None)));
    assert!(syringe.accepts(&Reply::ErrorCode(193)));
    let step = syringe.resume(Reply::ErrorCode(193));
    assert!(matches!(step, Step::Done(Err(SyringeError::RemoteOperationFailed(193)))));
    assert!(syringe.is_idle());
    // a host that cannot tell ends the injection with its own failure
    let mut step = syringe.inject("invalid path");
    loop {
        match step {
            Step::Next(Request::LoadError { .. }) => break,
            Step::Next(request) => {
                let reply = target.perform(request);
                step = syringe.resume(reply);
            }
            Step::Done(outcome) => panic!("over too early: {:?}", outcome),
        }
    }
    let step = syringe.resume(Reply::Failed { code: 50, target_alive: true });
    assert!(matches!(step, Step::Done(Err(SyringeError::RemoteIo(50)))));
}

#[test]
fn module_carries_its_process() {
    let process = ProcessRef::new(0x44, true);
    let module = ProcessModule::new(0x7000_0000, process);
    assert_eq!(module.handle(), 0x7000_0000);
    assert_eq!(module.process(), process);
    assert_ne!(module, ProcessModule::new(0x7000_0000, ProcessRef::new(0x45, true)));
}

#[test]
fn path_of_any_usual_length_is_accepted() {
    let mut syringe = Syringe::new(ProcessRef::new(1, false));
    let long = "C:\\".to_string() + &"d\u{1F600}".repeat(5000) + ".dll";
    let step = syringe.inject(&long);
    assert!(matches!(step, Step::Next(Request::LocalKernel32)));
}

#[test]
fn path_in_wide_units_needs_no_unicode() {
    let mut target = Target::new(false);
    let mut syringe = Syringe::new(ProcessRef::new(1, false));
    let units: Vec<u16> = PAYLOAD_PATH.encode_utf16().collect();
    let first = syringe.inject_wide(&units);
    assert_eq!(injected(run(&mut syringe, &mut target, first)), PAYLOAD);
    // a terminator that is there already is not doubled
    let mut with_nul = units.clone();
    with_nul.push(0);
    let mut step = syringe.inject_wide(&with_nul);
    loop {
        match step {
            Step::Next(Request::Write { bytes, .. }) => {
                assert_eq!(bytes.len(), 2 * with_nul.len());
                break;
            }
            Step::Next(request) => {
                let reply = target.perform(request);
                step = syringe.resume(reply);
            }
            Step::Done(outcome) => panic!("over too early: {:?}", outcome),
        }
    }
    // an unpaired surrogate is no Unicode, and is a path all the same
    let mut other = Syringe::new(ProcessRef::new(1, false));
    let step = other.inject_wide(&[0x43, 0x3A, 0x5C, 0xD800, 0x2E, 0x64]);
    assert!(matches!(step, Step::Next(Request::LocalKernel32)));
    let mut third = Syringe::new(ProcessRef::new(1, false));
    let step = third.inject_wide(&[0x43, 0, 0x5C]);
    assert!(matches!(step, Step::Done(Err(SyringeError::PathEncoding))));
    assert!(third.is_idle());
}

#[test]
fn inject_with_valid_path_succeeds() {
    let mut target = Target::new(false);
    let mut syringe = Syringe::new(ProcessRef::new(1, false));
    let first = syringe.inject(PAYLOAD_PATH);
    run(&mut syringe, &mut target, first).unwrap();
}

#[test]
fn inject_with_invalid_path_fails_with_remote_io() {
    let mut target = Target::new(false);
    let mut syringe = Syringe::new(ProcessRef::new(1, false));
    let first = syringe.inject("invalid path");
    let result = run(&mut syringe, &mut target, first);
    assert!(result.is_err());
    let err = result.unwrap_err();
    assert!(matches!(err, SyringeError::RemoteOperationFailed(_)));
    assert_eq!(err.raw_os_error(), Some(126));
}

#[test]
fn inject_with_crashed_process_fails_with_io() {
    let mut target = Target::new(false);
    let mut syringe = Syringe::new(ProcessRef::new(1, false));
    target.alive = false;
    let first = syringe.inject(PAYLOAD_PATH);
    let result = run(&mut syringe, &mut target, first);
    assert!(result.is_err());
    let err = result.unwrap_err();
    assert!(matches!(err, SyringeError::ProcessInaccessible));
    assert_eq!(err.raw_os_error(), None);
}

#[test]
fn error_code_is_carried_by_the_errors_that_have_one() {
    assert_eq!(SyringeError::RemoteIo(5).raw_os_error(), Some(5));
    assert_eq!(SyringeError::RemoteOperationFailed(126).raw_os_error(), Some(126));
    assert_eq!(SyringeError::StubAssembly.raw_os_error(), None);
    assert_eq!(SyringeError::PathEncoding.raw_os_error(), None);
    assert_eq!(SyringeError::PeParse.raw_os_error(), None);
    assert_eq!(SyringeError::UnsupportedTarget.raw_os_error(), None);
}
