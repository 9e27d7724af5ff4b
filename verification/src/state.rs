//! The states of the injector, and how it moves between them.

use vstd::bytes::spec_u64_from_le_bytes;
use vstd::prelude::*;
use crate::error::SyringeError;
use crate::inject_help::{help_data_at, help_data_in, parsed_exports, HelpDataView};
use crate::invocation::{entering, start};
use crate::process::ProcessRef;
use crate::process_memory::dynamic_allocator::{growth_len, Arena, NARROW_LIMIT};
use crate::process_memory::raw_allocator::Allocation;
use crate::protocol::{failure, ReplyView, RequestView, POLL_BUDGET_MS, POLL_INTERVAL_MS};
use crate::remote_thread::{RemoteThread, ThreadStepView};
use crate::stub::{
    addressable, InputView, InvokeStepView, JobView, Run, Stage, StubKind, StubView,
    POINTER_CELL_LEN,
};
use crate::wide::{has_inner_nul, has_inner_nul_unit, le_image, terminated, wide_units};

verus! {

/// What an operation was asked to do.
#[derive(Debug)]
pub enum Plan {
    /// Load the library at `path`, which is given in UTF-16 with its nul
    /// terminator; `image` is the path as the target reads it.
    Inject { path: Vec<u16>, image: Vec<u8> },
    /// Unload the library with the handle `module`.
    Eject { module: usize },
    /// Look up the export `name` of the library with the handle `module`.
    /// With `wrap`, the outcome is a procedure whose result takes that many
    /// bytes; without, it is the bare address.
    Resolve { module: usize, name: Vec<u8>, wrap: Option<usize> },
}

/// The mathematical value of a [`Plan`].
pub ghost enum PlanView {
    Inject { path: Seq<u16>, image: Seq<u8> },
    Eject { module: usize },
    Resolve { module: usize, name: Seq<u8>, wrap: Option<usize> },
}

impl View for Plan {
    type V = PlanView;

    open spec fn view(&self) -> PlanView {
        match *self {
            Plan::Inject { path, image } => PlanView::Inject { path: path@, image: image@ },
            Plan::Eject { module } => PlanView::Eject { module },
            Plan::Resolve { module, name, wrap } => PlanView::Resolve { module, name: name@, wrap },
        }
    }
}

impl PlanView {
    /// Whether the plan can be carried out: what it copies to the target is
    /// not empty, and a region can be reserved for it; so for the result of a
    /// procedure.
    pub open spec fn wf(self) -> bool {
        match self {
            PlanView::Inject { image, .. } => 0 < image.len() <= usize::MAX && growth_len(
                image.len() as usize,
            ) <= usize::MAX,
            PlanView::Eject { .. } => true,
            PlanView::Resolve { name, wrap, .. } => 0 < name.len() <= usize::MAX && growth_len(
                name.len() as usize,
            ) <= usize::MAX && (wrap matches Some(n) ==> n > 0 && growth_len(n) <= usize::MAX),
        }
    }
}

/// How far the engine has come in learning where the target keeps
/// `kernel32.dll`.
#[derive(Debug, Clone, Copy)]
pub enum Load {
    /// The host looks the library up in its own process.
    Local,
    /// The host looks the library up among the modules of the target, after
    /// pauses of `waited` milliseconds in all.
    Locating { waited: u32 },
    /// The host pauses before it looks again.
    Pausing { waited: u32 },
    /// The host reads the file that the library at `base` was loaded from.
    Reading { base: usize },
}

/// What the engine is waiting for.
#[derive(Debug, Clone, Copy)]
#[allow(inconsistent_fields)]
pub enum Task {
    /// Nothing: no operation is in progress.
    Idle,
    /// The help data of the target.
    Loading { load: Load },
    /// A region of `len` bytes for the path of the library.
    Growing { len: usize },
    /// The copy of the path to the target.
    WritingPath { target: Allocation },
    /// The thread that loads the library.
    Injecting { target: Allocation, thread: RemoteThread },
    /// The module that the library was loaded as.
    Locating { exit_code: u32 },
    /// The thread that unloads the library.
    Ejecting { module: usize, thread: RemoteThread },
    /// The modules of the target after the library was unloaded.
    Listing { module: usize },
    /// The error code behind a load or an unload that failed in the target.
    Diagnosing,
    /// The call that looks up an export.
    Resolving { wrap: Option<usize> },
}

/// The call that looks up an export, in progress.
pub ghost struct Call {
    pub job: JobView,
    pub stage: Stage,
    pub growing: Option<usize>,
}

/// What an operation ends with when it succeeds.
pub ghost enum OutcomeView {
    /// The handle of the library that was loaded.
    Injected(usize),
    /// The library was unloaded.
    Ejected,
    /// The address of the export, if the library has it.
    Address(Option<usize>),
    /// The export as a procedure, if the library has it: its address, and the
    /// number of bytes in its result.
    Procedure(Option<(usize, usize)>),
}

/// The mathematical value of a [`Step`](crate::syringe::Step).
pub ghost enum StepView {
    Next(RequestView),
    Done(Result<OutcomeView, SyringeError>),
}

/// Where the help data of a target comes from.
pub ghost enum Route {
    /// It was loaded before.
    Cached(HelpDataView),
    /// It is to be loaded, beginning in the given way.
    Load(Load),
}

/// The low 32 bits of a handle.
pub open spec fn low32(handle: usize) -> u32 {
    (handle as u64 % 0x1_0000_0000) as u32
}

/// The address that the eight bytes of a pointer cell hold.
pub open spec fn address_in(bytes: Seq<u8>) -> u64 {
    spec_u64_from_le_bytes(bytes)
}

/// The request that a stage of loading the help data has outstanding.
pub open spec fn load_request(load: Load) -> RequestView {
    match load {
        Load::Local => RequestView::LocalKernel32,
        Load::Locating { .. } => RequestView::FindKernel32,
        Load::Pausing { .. } => RequestView::Pause { millis: POLL_INTERVAL_MS },
        Load::Reading { .. } => RequestView::ReadWow64Kernel32,
    }
}

/// The job of looking up the export `name` of `module` with the
/// `GetProcAddress` that `data` points at.
pub open spec fn resolve_job(data: HelpDataView, module: usize, name: Seq<u8>) -> JobView {
    JobView {
        kind: StubKind::GetProcAddress,
        callee: data.get_proc_address() as usize,
        result_len: POINTER_CELL_LEN,
        clear_result: true,
        input: InputView::Export { module, name },
    }
}

/// What a lookup ends with, given the bytes of the result cell: the address
/// in them, or nothing when the address is null.
pub open spec fn resolved(bytes: Seq<u8>, wrap: Option<usize>) -> OutcomeView {
    let address = address_in(bytes);
    match wrap {
        Some(result_len) => OutcomeView::Procedure(
            if address == 0 {
                None
            } else {
                Some((address as usize, result_len))
            },
        ),
        None => OutcomeView::Address(
            if address == 0 {
                None
            } else {
                Some(address as usize)
            },
        ),
    }
}

/// The plan of loading the library at the path with the given units, nul
/// terminator included, if a region can be reserved for it.
pub open spec fn load_plan(units: Seq<u16>) -> Option<PlanView> {
    let image = le_image(units);
    if growth_len(image.len() as usize) > usize::MAX {
        None
    } else {
        Some(PlanView::Inject { path: units, image })
    }
}

/// The plan of loading the library at `path`, if the path can be encoded and
/// a region can be reserved for it.
pub open spec fn inject_plan(path: Seq<char>) -> Option<PlanView> {
    if has_inner_nul(path) {
        None
    } else {
        load_plan(wide_units(path))
    }
}

/// The plan of loading the library at the path that is given in UTF-16, if
/// no nul stands before its end and a region can be reserved for it.
pub open spec fn inject_wide_plan(path: Seq<u16>) -> Option<PlanView> {
    if has_inner_nul_unit(path) {
        None
    } else {
        load_plan(terminated(path))
    }
}

/// The plan of looking up the export whose name has the given bytes.
pub open spec fn resolve_plan(module: usize, name: Seq<u8>, wrap: Option<usize>) -> PlanView {
    PlanView::Resolve { module, name: name.push(0u8), wrap }
}

/// The mathematical state of a [`Syringe`](crate::syringe::Syringe).
pub ghost struct State {
    /// Whether the host runs 64-bit code.
    pub host_x64: bool,
    /// The help data for a 32-bit target, once loaded.
    pub x86_data: Option<HelpDataView>,
    /// The help data for a 64-bit target, once loaded.
    pub x64_data: Option<HelpDataView>,
    /// The stub that looks up exports, once built.
    pub stub: Option<StubView>,
    /// The allocator of the target's memory.
    pub arena: Arena,
    /// What the operation in progress was asked to do.
    pub plan: Option<PlanView>,
    /// What the engine is waiting for.
    pub task: Task,
    /// The call that looks up an export, while it is in progress.
    pub call: Option<Call>,
}

impl State {
    /// The state of an injector for `process` that has learnt and reserved
    /// nothing yet.
    pub open spec fn fresh(process: ProcessRef, host_x64: bool) -> State {
        State {
            host_x64,
            x86_data: None,
            x64_data: None,
            stub: None,
            arena: Arena { process, regions: seq![] },
            plan: None,
            task: Task::Idle,
            call: None,
        }
    }

    /// Whether the target runs 32-bit code.
    pub open spec fn narrow(self) -> bool {
        self.arena.process.is_x86()
    }

    /// The help data of the target, once loaded.
    pub open spec fn data(self) -> Option<HelpDataView> {
        if self.narrow() {
            self.x86_data
        } else {
            self.x64_data
        }
    }

    /// The state once the help data of the target is `data`.
    pub open spec fn with_data(self, data: HelpDataView) -> State {
        if self.narrow() {
            State { x86_data: Some(data), ..self }
        } else {
            State { x64_data: Some(data), ..self }
        }
    }

    /// Whether help data can be used in the target: every function has an
    /// address and, in a 32-bit target, stands below 4 GiB.
    pub open spec fn fits(self, data: HelpDataView) -> bool {
        data.wf() && (self.narrow() ==> data.below(NARROW_LIMIT as int))
    }

    /// The call in progress together with what it works on.
    pub open spec fn run(self) -> Run {
        Run {
            stage: self.call.unwrap().stage,
            growing: self.call.unwrap().growing,
            arena: self.arena,
            stub: self.stub,
        }
    }

    /// What holds of the engine whatever it is waiting for: the allocator is
    /// valid, and the help data, the stub and the plan can be used.
    pub open spec fn sound(self) -> bool {
        &&& self.arena.wf()
        &&& self.data() matches Some(d) ==> self.fits(d)
        &&& self.stub matches Some(s) ==> addressable(s.code, self.narrow()) && addressable(
            s.parameter,
            self.narrow(),
        ) && addressable(s.result, self.narrow())
        &&& self.plan matches Some(plan) ==> plan.wf()
    }

    /// The invariant of the engine.
    pub open spec fn wf(self) -> bool {
        &&& self.sound()
        &&& match self.task {
            Task::Idle => self.plan is None && self.call is None,
            Task::Loading { load } => self.plan is Some && self.call is None && (
            load matches Load::Pausing { waited } ==> waited < POLL_BUDGET_MS),
            Task::Growing { .. } => self.plan matches Some(PlanView::Inject { .. })
                && self.data() is Some && self.call is None,
            Task::WritingPath { target } => self.plan matches Some(PlanView::Inject { .. })
                && self.data() is Some && self.call is None && addressable(target, self.narrow()),
            Task::Injecting { target, thread } => self.plan matches Some(PlanView::Inject { .. })
                && self.call is None && addressable(target, self.narrow()) && thread.impartial(),
            Task::Locating { exit_code } => self.plan matches Some(PlanView::Inject { .. })
                && self.call is None && exit_code != 0,
            Task::Ejecting { thread, .. } => self.call is None && thread.impartial(),
            Task::Listing { .. } => self.call is None,
            Task::Diagnosing => self.call is None,
            Task::Resolving { wrap } => self.plan is None && (self.call matches Some(call)
                && self.run().wf(call.job) && !(call.stage is Finished) && call.job.result_len
                == POINTER_CELL_LEN) && (wrap matches Some(n) ==> n > 0 && growth_len(n)
                <= usize::MAX),
        }
    }

    /// Where the help data of the target comes from.
    ///
    /// A target of the host's own bitness shares the host's `kernel32.dll`. A
    /// 32-bit target of a 64-bit host has its own, which is read from its
    /// file. A 64-bit target of a 32-bit host cannot be served.
    pub open spec fn route(self) -> Result<Route, SyringeError> {
        if let Some(data) = self.data() {
            Ok(Route::Cached(data))
        } else if self.narrow() {
            if self.host_x64 {
                Ok(Route::Load(Load::Locating { waited: 0 }))
            } else {
                Ok(Route::Load(Load::Local))
            }
        } else {
            if self.host_x64 {
                Ok(Route::Load(Load::Local))
            } else {
                Err(SyringeError::UnsupportedTarget)
            }
        }
    }

    /// The end of the operation in progress.
    pub open spec fn finish(self, result: Result<OutcomeView, SyringeError>) -> (State, StepView) {
        (State { plan: None, task: Task::Idle, call: None, ..self }, StepView::Done(result))
    }

    /// The state in which `plan` is to be carried out.
    pub open spec fn planning(self, plan: PlanView) -> State {
        State { plan: Some(plan), ..self }
    }

    /// The beginning of an operation: the plan is carried out when the help
    /// data is there, and the help data is loaded first when it is not.
    pub open spec fn launch(self, built: Option<Seq<u8>>) -> (State, StepView) {
        match self.route() {
            Ok(Route::Cached(data)) => self.carry_out(data, built),
            Ok(Route::Load(load)) => (
                State { task: Task::Loading { load }, ..self },
                StepView::Next(load_request(load)),
            ),
            Err(e) => self.finish(Err(e)),
        }
    }

    /// The state once a thread of the target is being created.
    pub open spec fn run_thread(self, task: Task, entry: int, parameter: usize) -> (
        State,
        StepView,
    ) {
        (
            State { task, ..self },
            StepView::Next(RequestView::StartThread { entry: entry as usize, parameter }),
        )
    }

    /// What becomes of the plan once the help data is there.
    ///
    /// An injection copies the path to the target. An ejection runs
    /// `FreeLibrary` on the module at once. A lookup begins a call through
    /// the stub for `GetProcAddress`.
    pub open spec fn carry_out(self, data: HelpDataView, built: Option<Seq<u8>>) -> (
        State,
        StepView,
    ) {
        match self.plan {
            Some(PlanView::Inject { image, .. }) => match self.arena.served(image.len() as usize) {
                Some(target) => (
                    State {
                        task: Task::WritingPath { target },
                        arena: self.arena.after_alloc(image.len() as usize),
                        ..self
                    },
                    StepView::Next(RequestView::Write { address: target.base, bytes: image }),
                ),
                None => (
                    State {
                        task: Task::Growing { len: growth_len(image.len() as usize) as usize },
                        ..self
                    },
                    StepView::Next(
                        RequestView::Reserve { len: growth_len(image.len() as usize) as usize },
                    ),
                ),
            },
            Some(PlanView::Eject { module }) => self.run_thread(
                Task::Ejecting { module, thread: RemoteThread::Starting },
                data.free_library(),
                module,
            ),
            Some(PlanView::Resolve { module, name, wrap }) => {
                let job = resolve_job(data, module, name);
                self.follow(job, wrap, start(job, self.arena, self.stub).advance(job, built))
            },
            None => arbitrary(),
        }
    }

    /// The run whose advance may assemble a trampoline when the operation
    /// begins, and its job.
    pub open spec fn launching(self) -> Option<(Run, JobView)> {
        match self.route() {
            Ok(Route::Cached(data)) => self.assembling(data),
            _ => None,
        }
    }

    /// The run whose advance may assemble a trampoline when the plan is
    /// carried out with `data`, and its job.
    pub open spec fn assembling(self, data: HelpDataView) -> Option<(Run, JobView)> {
        match self.plan {
            Some(PlanView::Resolve { module, name, .. }) => {
                let job = resolve_job(data, module, name);
                Some((start(job, self.arena, self.stub), job))
            },
            _ => None,
        }
    }

    /// What becomes of the engine after a step of the call that looks up an
    /// export: it follows the call while that goes on, and ends with the
    /// address that the call fetched.
    pub open spec fn follow(
        self,
        job: JobView,
        wrap: Option<usize>,
        step: (Run, InvokeStepView),
    ) -> (State, StepView) {
        let after = State { arena: step.0.arena, stub: step.0.stub, ..self };
        match step.1 {
            InvokeStepView::Next(request) => (
                State {
                    plan: None,
                    task: Task::Resolving { wrap },
                    call: Some(Call { job, stage: step.0.stage, growing: step.0.growing }),
                    ..after
                },
                StepView::Next(request),
            ),
            InvokeStepView::Done(Ok(bytes)) => after.finish(Ok(resolved(bytes, wrap))),
            InvokeStepView::Done(Err(e)) => after.finish(Err(e)),
        }
    }

    /// Whether `reply` answers the request that is outstanding.
    ///
    /// Beside the kind of the reply this asks of its contents what the engine
    /// cannot go on without: that the host's `kernel32.dll` has the three
    /// exports, that the target has a `kernel32.dll` once it was given a
    /// second to load it, that a region does not
    /// overlap another, that the module which was loaded is found and its
    /// handle agrees with the exit code of the thread, that the module which
    /// was unloaded is gone, and that an address which was fetched is one.
    pub open spec fn expects(self, reply: ReplyView) -> bool {
        match self.task {
            Task::Idle => false,
            Task::Loading { load } => match (load, reply) {
                (_, ReplyView::Failed { .. }) => true,
                (
                    Load::Local,
                    ReplyView::Kernel32 { base, load_library, free_library, get_proc_address },
                ) => help_data_at(base, load_library, free_library, get_proc_address) matches Some(
                    d,
                ) && self.fits(d),
                (Load::Locating { .. }, ReplyView::Module(Some(_))) => true,
                (Load::Locating { waited }, ReplyView::Module(None)) => waited < POLL_BUDGET_MS,
                (Load::Pausing { .. }, ReplyView::Done) => true,
                (Load::Reading { .. }, ReplyView::Bytes(_)) => true,
                _ => false,
            },
            Task::Growing { len } => match reply {
                ReplyView::Failed { .. } => true,
                ReplyView::Reserved { base } => self.arena.admits(base, len),
                _ => false,
            },
            Task::WritingPath { .. } => reply is Done || reply is Failed,
            Task::Injecting { thread, .. } => thread.expects(reply),
            Task::Locating { exit_code } => match reply {
                ReplyView::Failed { .. } => true,
                ReplyView::Module(Some(handle)) => low32(handle) == exit_code,
                _ => false,
            },
            Task::Ejecting { thread, .. } => thread.expects(reply),
            Task::Listing { module } => match reply {
                ReplyView::Failed { .. } => true,
                ReplyView::Handles(handles) => !handles.contains(module),
                _ => false,
            },
            Task::Diagnosing => reply is ErrorCode || reply is Failed,
            Task::Resolving { .. } => self.run().expects(self.call.unwrap().job, reply) && (
            self.call.unwrap().stage is ReadingResult ==> (reply matches ReplyView::Bytes(bytes)
                ==> address_in(bytes) <= usize::MAX && (self.narrow() ==> address_in(bytes)
                <= u32::MAX))),
        }
    }

    /// The help data that a reply completes, if it does.
    pub open spec fn loaded(self, reply: ReplyView) -> Option<HelpDataView> {
        match (self.task, reply) {
            (
                Task::Loading { load: Load::Local },
                ReplyView::Kernel32 { base, load_library, free_library, get_proc_address },
            ) => help_data_at(base, load_library, free_library, get_proc_address),
            (Task::Loading { load: Load::Reading { base } }, ReplyView::Bytes(image)) => {
                match parsed_exports(image) {
                    Some(exports) => match help_data_in(base, exports) {
                        Some(d) => if self.fits(d) {
                            Some(d)
                        } else {
                            None
                        },
                        None => None,
                    },
                    None => None,
                }
            },
            _ => None,
        }
    }

    /// The run whose advance may assemble a trampoline when `reply` arrives,
    /// and its job.
    pub open spec fn advancing(self, reply: ReplyView) -> Option<(Run, JobView)> {
        match self.task {
            Task::Loading { .. } => match self.loaded(reply) {
                Some(d) => self.with_data(d).assembling(d),
                None => None,
            },
            Task::Resolving { .. } => match entering(self.run(), reply) {
                Some(run) => Some((run, self.call.unwrap().job)),
                None => None,
            },
            _ => None,
        }
    }

    /// What the engine comes to when `reply`, which answers the outstanding
    /// request, arrives.
    ///
    /// A request that failed ends the operation. A target that has no
    /// `kernel32.dll` yet is looked at again after a pause, until the pauses
    /// add up to a second. The path of a library goes
    /// back to the allocator as soon as the thread that read it has ended.
    /// When a thread that ran `LoadLibraryW` or `FreeLibrary` returned zero,
    /// the operation has failed: the engine asks the host for the error code
    /// behind the failure and ends with that code.
    ///
    /// `built` is what assembling a trampoline gives, should the step come to
    /// assemble one: the code, or nothing.
    pub open spec fn next(self, reply: ReplyView, built: Option<Seq<u8>>) -> (State, StepView) {
        match self.task {
            Task::Idle => arbitrary(),
            Task::Loading { load } => match (load, reply) {
                (_, ReplyView::Failed { code, target_alive }) => self.finish(
                    Err(failure(code, target_alive)),
                ),
                (Load::Locating { .. }, ReplyView::Module(Some(base))) => (
                    State { task: Task::Loading { load: Load::Reading { base } }, ..self },
                    StepView::Next(RequestView::ReadWow64Kernel32),
                ),
                (Load::Locating { waited }, ReplyView::Module(None)) => (
                    State { task: Task::Loading { load: Load::Pausing { waited } }, ..self },
                    StepView::Next(RequestView::Pause { millis: POLL_INTERVAL_MS }),
                ),
                (Load::Pausing { waited }, ReplyView::Done) => (
                    State {
                        task: Task::Loading {
                            load: Load::Locating { waited: (waited + POLL_INTERVAL_MS) as u32 },
                        },
                        ..self
                    },
                    StepView::Next(RequestView::FindKernel32),
                ),
                _ => match self.loaded(reply) {
                    Some(d) => self.with_data(d).carry_out(d, built),
                    None => self.finish(Err(SyringeError::PeParse)),
                },
            },
            Task::Growing { len } => match reply {
                ReplyView::Reserved { base } => (State {
                    arena: self.arena.after_grow(base, len),
                    ..self
                }).carry_out(self.data().unwrap(), built),
                ReplyView::Failed { code, target_alive } => self.finish(
                    Err(failure(code, target_alive)),
                ),
                _ => arbitrary(),
            },
            Task::WritingPath { target } => match reply {
                ReplyView::Failed { code, target_alive } => (State {
                    arena: self.arena.after_free(target),
                    ..self
                }).finish(Err(failure(code, target_alive))),
                _ => self.run_thread(
                    Task::Injecting { target, thread: RemoteThread::Starting },
                    self.data().unwrap().load_library(),
                    target.base,
                ),
            },
            Task::Injecting { target, thread } => {
                let freed = State { arena: self.arena.after_free(target), ..self };
                match thread.next(reply) {
                    ThreadStepView::Next(then, request) => (
                        State { task: Task::Injecting { target, thread: then }, ..self },
                        StepView::Next(request),
                    ),
                    ThreadStepView::Done(Ok(code)) => if code == 0 {
                        (
                            State { task: Task::Diagnosing, ..freed },
                            StepView::Next(
                                RequestView::LoadError { path: self.plan.unwrap()->Inject_path },
                            ),
                        )
                    } else {
                        (
                            State { task: Task::Locating { exit_code: code }, ..freed },
                            StepView::Next(
                                RequestView::FindModuleByPath {
                                    path: self.plan.unwrap()->Inject_path,
                                },
                            ),
                        )
                    },
                    ThreadStepView::Done(Err(e)) => freed.finish(Err(e)),
                }
            },
            Task::Locating { .. } => match reply {
                ReplyView::Module(Some(handle)) => self.finish(Ok(OutcomeView::Injected(handle))),
                ReplyView::Failed { code, target_alive } => self.finish(
                    Err(failure(code, target_alive)),
                ),
                _ => arbitrary(),
            },
            Task::Ejecting { module, thread } => match thread.next(reply) {
                ThreadStepView::Next(then, request) => (
                    State { task: Task::Ejecting { module, thread: then }, ..self },
                    StepView::Next(request),
                ),
                ThreadStepView::Done(Ok(code)) => if code == 0 {
                    (
                        State { task: Task::Diagnosing, ..self },
                        StepView::Next(RequestView::UnloadError { module }),
                    )
                } else {
                    (
                        State { task: Task::Listing { module }, ..self },
                        StepView::Next(RequestView::ModuleHandles),
                    )
                },
                ThreadStepView::Done(Err(e)) => self.finish(Err(e)),
            },
            Task::Diagnosing => match reply {
                ReplyView::ErrorCode(code) => self.finish(
                    Err(SyringeError::RemoteOperationFailed(code)),
                ),
                ReplyView::Failed { code, target_alive } => self.finish(
                    Err(failure(code, target_alive)),
                ),
                _ => arbitrary(),
            },
            Task::Listing { .. } => match reply {
                ReplyView::Handles(_) => self.finish(Ok(OutcomeView::Ejected)),
                ReplyView::Failed { code, target_alive } => self.finish(
                    Err(failure(code, target_alive)),
                ),
                _ => arbitrary(),
            },
            Task::Resolving { wrap } => self.follow(
                self.call.unwrap().job,
                wrap,
                self.run().next(self.call.unwrap().job, reply, built),
            ),
        }
    }
}

} // verus!
