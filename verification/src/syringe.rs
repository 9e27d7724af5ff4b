//! The injector: loading a library into the target, unloading it again, and
//! looking up the functions that it exports.
//!
//! An operation begins with [`Syringe::inject`], [`Syringe::eject`],
//! [`Syringe::get_procedure_address`] or [`Syringe::get_procedure`] and is
//! carried on with [`Syringe::resume`], one reply at a time, until it answers
//! with its outcome.

use vstd::bytes::u64_from_le_bytes;
use vstd::pervasive::unreached;
use vstd::prelude::*;
use vstd::string::StringSliceAdditionalSpecFns;
use crate::error::SyringeError;
use crate::inject_help::{HelpDataView, InjectHelpData};
use crate::invocation::{entering, may_come_of, start, Invocation};
use crate::process::{ProcessModule, ProcessRef};
use crate::process_memory::dynamic_allocator::{
    growth_for, growth_len, lemma_served_is_sound, NARROW_LIMIT, PAGE_SIZE,
};
use crate::process_memory::raw_allocator::Allocation;
use crate::process_memory::remote_box::{CopyStep, RemoteBoxAllocator};
use crate::protocol::{failure_of, Reply, Request, RequestView, POLL_BUDGET_MS, POLL_INTERVAL_MS};
use crate::remote_procedure::RemoteProcedure;
use crate::remote_thread::{RemoteThread, ThreadStep};
use crate::state::{
    address_in, inject_plan, inject_wide_plan, load_plan, low32, resolve_job, resolve_plan, Call,
    Load, OutcomeView, Plan, PlanView, Route, State, StepView, Task,
};
use crate::stub::{
    stub_view, Input, InvokeStep, Job, RemoteProcedureStub, StubKind, POINTER_CELL_LEN,
};
use crate::wide::{
    copy_units, encode_name, encode_wide, has_inner_nul, has_inner_nul_unit, has_nul, le_bytes,
    terminate,
};

verus! {

/// What an operation ends with when it succeeds.
#[derive(Debug)]
pub enum Outcome {
    /// The handle of the library that was loaded.
    Injected(usize),
    /// The library was unloaded.
    Ejected,
    /// The address of the export, if the library has it.
    Address(Option<usize>),
    /// The export as a procedure, if the library has it.
    Procedure(Option<RemoteProcedure>),
}

impl View for Outcome {
    type V = OutcomeView;

    open spec fn view(&self) -> OutcomeView {
        match *self {
            Outcome::Injected(handle) => OutcomeView::Injected(handle),
            Outcome::Ejected => OutcomeView::Ejected,
            Outcome::Address(address) => OutcomeView::Address(address),
            Outcome::Procedure(Some(p)) => OutcomeView::Procedure(
                Some((p.spec_ptr(), p.result_len())),
            ),
            Outcome::Procedure(None) => OutcomeView::Procedure(None),
        }
    }
}

/// What an operation comes to after a reply.
#[derive(Debug)]
pub enum Step {
    /// The operation goes on with this request.
    Next(Request),
    /// The operation is over.
    Done(Result<Outcome, SyringeError>),
}

impl View for Step {
    type V = StepView;

    open spec fn view(&self) -> StepView {
        match *self {
            Step::Next(request) => StepView::Next(request@),
            Step::Done(Ok(outcome)) => StepView::Done(Ok(outcome@)),
            Step::Done(Err(e)) => StepView::Done(Err(e)),
        }
    }
}

impl Step {
    /// Whether a procedure that the step hands out is one of `process` that
    /// can be called, has no stub yet and is not being called.
    pub open spec fn hands_out_new(&self, process: ProcessRef) -> bool {
        *self matches Step::Done(Ok(Outcome::Procedure(Some(p)))) ==> p.stub() is None
            && p.call_in_progress() is None && p.spec_process() == process && p.sound()
    }
}

/// The help data of a target, or how to come by it.
#[derive(Debug, Clone, Copy)]
pub enum HelpData {
    /// The data was loaded before.
    Cached(InjectHelpData),
    /// The data is to be loaded, beginning in the given way.
    Load(Load),
}

/// An injector for one target process.
///
/// It keeps what it has learnt of the target, the memory that it has
/// reserved there and the stub that looks up exports, so that later
/// operations are cheaper than the first.
#[derive(Debug)]
pub struct Syringe {
    host_x64: bool,
    x86_data: Option<InjectHelpData>,
    x64_data: Option<InjectHelpData>,
    get_proc_address_stub: Option<RemoteProcedureStub>,
    remote_allocator: RemoteBoxAllocator,
    plan: Option<Plan>,
    task: Task,
    call: Option<Invocation>,
}

/// The value of help data that may not have been loaded yet.
pub open spec fn data_view(data: Option<InjectHelpData>) -> Option<HelpDataView> {
    match data {
        Some(d) => Some(d@),
        None => None,
    }
}

impl View for Syringe {
    type V = State;

    closed spec fn view(&self) -> State {
        State {
            host_x64: self.host_x64,
            x86_data: data_view(self.x86_data),
            x64_data: data_view(self.x64_data),
            stub: stub_view(self.get_proc_address_stub),
            arena: self.remote_allocator@,
            plan: match self.plan {
                Some(plan) => Some(plan@),
                None => None,
            },
            task: self.task,
            call: match self.call {
                Some(call) => Some(
                    Call { job: call.job(), stage: call.stage(), growing: call.growing() },
                ),
                None => None,
            },
        }
    }
}

/// Whether the host runs 64-bit code.
pub fn host_is_x64() -> (r: bool)
    ensures
        r == (usize::BITS == 64),
{
    usize::BITS == 64
}

/// The low 32 bits of a handle.
pub fn low_half(handle: usize) -> (r: u32)
    ensures
        r == low32(handle),
{
    (handle as u64 % 0x1_0000_0000) as u32
}

/// Whether `module` is among `handles`.
pub fn lists(handles: &Vec<usize>, module: usize) -> (r: bool)
    ensures
        r == handles@.contains(module),
{
    let mut i: usize = 0;
    while i < handles.len()
        invariant
            0 <= i <= handles.len(),
            forall|j: int| 0 <= j < i ==> handles@[j] != module,
        decreases handles.len() - i,
    {
        if handles[i] == module {
            return true;
        }
        i += 1;
    }
    false
}

impl Syringe {
    /// Whether the injector is in a valid state.
    pub open spec fn wf(&self) -> bool {
        self@.wf()
    }

    /// An injector for `process` that has learnt and reserved nothing yet,
    /// for a host that runs in this process.
    pub fn new(process: ProcessRef) -> (r: Syringe)
        ensures
            r.wf(),
            r@ == State::fresh(process, usize::BITS == 64),
    {
        Self::for_host(process, host_is_x64())
    }

    /// An injector for `process` that has learnt and reserved nothing yet,
    /// for a host that runs 64-bit code or does not.
    pub fn for_host(process: ProcessRef, host_x64: bool) -> (r: Syringe)
        ensures
            r.wf(),
            r@ == State::fresh(process, host_x64),
    {
        Syringe {
            host_x64,
            x86_data: None,
            x64_data: None,
            get_proc_address_stub: None,
            remote_allocator: RemoteBoxAllocator::new(process),
            plan: None,
            task: Task::Idle,
            call: None,
        }
    }

    /// The target of the injector.
    pub fn process(&self) -> (r: ProcessRef)
        ensures
            r == self@.arena.process,
    {
        self.remote_allocator.process()
    }

    /// Gives the injector up: the requests that hand the regions which it
    /// reserved back to the target, oldest first. What it built in them goes
    /// with them.
    pub fn close(self) -> (r: Vec<Request>)
        ensures
            r@.len() == self@.arena.regions.len(),
            forall|i: int|
                0 <= i < r@.len() ==> (#[trigger] r@[i])@ == (RequestView::Release {
                    base: self@.arena.regions[i].base,
                }),
    {
        self.remote_allocator.into_releases()
    }

    /// The allocator of the target's memory.
    pub fn allocator(&self) -> (r: &RemoteBoxAllocator)
        ensures
            r@ == self@.arena,
    {
        &self.remote_allocator
    }

    /// Whether no operation is in progress.
    pub fn is_idle(&self) -> (r: bool)
        ensures
            r == (self@.task is Idle),
    {
        matches!(self.task, Task::Idle)
    }

    fn data(&self) -> (r: Option<InjectHelpData>)
        ensures
            data_view(r) == self@.data(),
    {
        if self.remote_allocator.process().is_x86() {
            self.x86_data
        } else {
            self.x64_data
        }
    }

    /// Says where the help data of the target comes from: from an earlier
    /// operation, from the host's own process, or from the file of the
    /// target's `kernel32.dll`.
    pub fn get_inject_help_data_for_process(&self) -> (r: Result<HelpData, SyringeError>)
        ensures
            match self@.route() {
                Ok(Route::Cached(data)) => r matches Ok(HelpData::Cached(d)) && d@ == data,
                Ok(Route::Load(load)) => r matches Ok(HelpData::Load(l)) && l == load,
                Err(e) => r matches Err(f) && f == e,
            },
    {
        let narrow = self.remote_allocator.process().is_x86();
        match self.data() {
            Some(data) => Ok(HelpData::Cached(data)),
            None => if narrow {
                if self.host_x64 {
                    Ok(HelpData::Load(Load::Locating { waited: 0 }))
                } else {
                    Ok(HelpData::Load(Load::Local))
                }
            } else {
                if self.host_x64 {
                    Ok(HelpData::Load(Load::Local))
                } else {
                    Err(SyringeError::UnsupportedTarget)
                }
            },
        }
    }

    /// Ends the operation in progress.
    fn finish(&mut self, result: Result<Outcome, SyringeError>) -> (step: Step)
        requires
            old(self)@.sound(),
        ensures
            final(self).wf(),
            (final(self)@, step@) == old(self)@.finish(
                match result {
                    Ok(outcome) => Ok(outcome@),
                    Err(e) => Err(e),
                },
            ),
            step == Step::Done(result),
    {
        self.plan = None;
        self.task = Task::Idle;
        self.call = None;
        Step::Done(result)
    }

    /// Asks for a thread of the target.
    fn run_thread(&mut self, entry: usize, parameter: usize) -> (r: (RemoteThread, Step))
        ensures
            *final(self) == *old(self),
            r.0 == RemoteThread::Starting,
            r.1@ == StepView::Next(RequestView::StartThread { entry, parameter }),
    {
        let (thread, request) = RemoteThread::start(entry, parameter);
        (thread, Step::Next(request))
    }

    /// Follows the call that looks up an export.
    fn follow(&mut self, call: Invocation, wrap: Option<usize>, step: InvokeStep) -> (r: Step)
        requires
            old(self)@.sound(),
            call.run(old(self)@.arena, old(self)@.stub).wf(call.job()),
            call.job().result_len == POINTER_CELL_LEN,
            call.stage() is Finished <==> step is Done,
            wrap matches Some(n) ==> n > 0 && growth_len(n) <= usize::MAX,
            step matches InvokeStep::Done(Ok(bytes)) ==> bytes@.len() == POINTER_CELL_LEN
                && address_in(bytes@) <= usize::MAX && (old(self)@.narrow() ==> address_in(bytes@)
                <= u32::MAX),
        ensures
            final(self).wf(),
            (final(self)@, r@) == old(self)@.follow(
                call.job(),
                wrap,
                (call.run(old(self)@.arena, old(self)@.stub), step@),
            ),
            r.hands_out_new(old(self)@.arena.process),
    {
        match step {
            InvokeStep::Next(request) => {
                self.plan = None;
                self.task = Task::Resolving { wrap };
                self.call = Some(call);
                Step::Next(request)
            },
            InvokeStep::Done(Ok(bytes)) => {
                let address = u64_from_le_bytes(bytes.as_slice());
                let found = if address == 0 {
                    None
                } else {
                    Some(address as usize)
                };
                let outcome = match wrap {
                    Some(result_len) => Outcome::Procedure(
                        match found {
                            Some(ptr) => Some(
                                RemoteProcedure::new(
                                    ptr,
                                    result_len,
                                    self.remote_allocator.process(),
                                ),
                            ),
                            None => None,
                        },
                    ),
                    None => Outcome::Address(found),
                };
                self.finish(Ok(outcome))
            },
            InvokeStep::Done(Err(e)) => self.finish(Err(e)),
        }
    }

    /// Carries the plan out, now that the help data is there.
    fn carry_out(&mut self, data: InjectHelpData) -> (r: (Step, Ghost<Option<Seq<u8>>>))
        requires
            old(self)@.sound(),
            old(self)@.plan is Some,
            old(self)@.call is None,
            old(self)@.data() == Some(data@),
        ensures
            final(self).wf(),
            final(self)@.host_x64 == old(self)@.host_x64,
            final(self)@.arena.process == old(self)@.arena.process,
            old(self)@.assembling(data@) matches Some(pair) ==> may_come_of(pair.0, pair.1, r.1@),
            (final(self)@, r.0@) == old(self)@.carry_out(data@, r.1@),
            r.0.hands_out_new(old(self)@.arena.process),
    {
        let resolve = match &self.plan {
            Some(Plan::Resolve { .. }) => true,
            _ => false,
        };
        if resolve {
            return self.begin_lookup(data);
        }
        match &self.plan {
            Some(Plan::Inject { image, .. }) => {
                let n = image.len();
                proof {
                    lemma_served_is_sound(self@.arena, n);
                }
                match self.remote_allocator.alloc_and_copy(image.as_slice()) {
                    CopyStep::Write { target, request } => {
                        self.task = Task::WritingPath { target: target.allocation() };
                        (Step::Next(request), Ghost(None))
                    },
                    CopyStep::Reserve { len } => {
                        self.task = Task::Growing { len };
                        (Step::Next(Request::Reserve { len }), Ghost(None))
                    },
                    CopyStep::Refused => unreached(),
                }
            },
            Some(Plan::Eject { module }) => {
                let module = *module;
                let (thread, step) = self.run_thread(data.get_free_library_fn_ptr(), module);
                self.task = Task::Ejecting { module, thread };
                (step, Ghost(None))
            },
            _ => unreached(),
        }
    }

    /// Begins the call that looks up an export.
    fn begin_lookup(&mut self, data: InjectHelpData) -> (r: (Step, Ghost<Option<Seq<u8>>>))
        requires
            old(self)@.sound(),
            old(self)@.plan matches Some(PlanView::Resolve { .. }),
            old(self)@.call is None,
            old(self)@.data() == Some(data@),
        ensures
            final(self).wf(),
            final(self)@.host_x64 == old(self)@.host_x64,
            final(self)@.arena.process == old(self)@.arena.process,
            old(self)@.assembling(data@) matches Some(pair) ==> may_come_of(pair.0, pair.1, r.1@),
            (final(self)@, r.0@) == old(self)@.carry_out(data@, r.1@),
            r.0.hands_out_new(old(self)@.arena.process),
    {
        match self.plan.take() {
            Some(Plan::Resolve { module, name, wrap }) => {
                let job = Job {
                    kind: StubKind::GetProcAddress,
                    callee: data.get_proc_address_fn_ptr(),
                    result_len: POINTER_CELL_LEN,
                    clear_result: true,
                    input: Input::Export { module, name },
                };
                assert(job@ == resolve_job(data@, module, name@));
                let ghost before = self@;
                let (call, step, Ghost(built)) = Invocation::begin_with(
                    job,
                    &mut self.remote_allocator,
                    &mut self.get_proc_address_stub,
                );
                assert(self@.sound());
                (self.follow(call, wrap, step), Ghost(built))
            },
            _ => unreached(),
        }
    }

    /// Begins the operation that the plan describes: with the help data if
    /// it is there, and with loading it if it is not.
    fn launch(&mut self, plan: Plan) -> (r: (Step, Ghost<Option<Seq<u8>>>))
        requires
            old(self).wf(),
            old(self)@.task is Idle,
            plan@.wf(),
        ensures
            final(self).wf(),
            final(self)@.host_x64 == old(self)@.host_x64,
            final(self)@.arena.process == old(self)@.arena.process,
            old(self)@.planning(plan@).launching() matches Some(pair) ==> may_come_of(
                pair.0,
                pair.1,
                r.1@,
            ),
            (final(self)@, r.0@) == old(self)@.planning(plan@).launch(r.1@),
            r.0.hands_out_new(old(self)@.arena.process),
    {
        self.plan = Some(plan);
        match self.get_inject_help_data_for_process() {
            Ok(HelpData::Cached(data)) => self.carry_out(data),
            Ok(HelpData::Load(load)) => {
                self.task = Task::Loading { load };
                (
                    Step::Next(
                        match load {
                            Load::Local => Request::LocalKernel32,
                            Load::Locating { .. } => Request::FindKernel32,
                            Load::Pausing { .. } => Request::Pause { millis: POLL_INTERVAL_MS },
                            Load::Reading { .. } => Request::ReadWow64Kernel32,
                        },
                    ),
                    Ghost(None),
                )
            },
            Err(e) => (self.finish(Err(e)), Ghost(None)),
        }
    }

    /// Keeps the help data of the target.
    fn keep(&mut self, data: InjectHelpData)
        ensures
            final(self)@ == old(self)@.with_data(data@),
    {
        if self.remote_allocator.process().is_x86() {
            self.x86_data = Some(data);
        } else {
            self.x64_data = Some(data);
        }
    }

    /// Whether help data can be used in the target.
    fn fits(&self, data: &InjectHelpData) -> (r: bool)
        requires
            data.wf(),
        ensures
            r == self@.fits(data@),
    {
        !self.remote_allocator.process().is_x86() || data.below(NARROW_LIMIT)
    }

    /// Gives the copy of the path back to the allocator.
    fn drop_path(&mut self, target: Allocation)
        requires
            old(self)@.sound(),
        ensures
            final(self)@.sound(),
            final(self)@ == (State { arena: old(self)@.arena.after_free(target), ..old(self)@ }),
    {
        let _ = self.remote_allocator.release(&target);
    }

    /// The step after a reply to a request that loads the help data.
    fn on_loading(&mut self, load: Load, reply: Reply) -> (r: (Step, Ghost<Option<Seq<u8>>>))
        requires
            old(self).wf(),
            old(self)@.task == (Task::Loading { load }),
            old(self)@.expects(reply@),
        ensures
            final(self).wf(),
            final(self)@.host_x64 == old(self)@.host_x64,
            final(self)@.arena.process == old(self)@.arena.process,
            old(self)@.advancing(reply@) matches Some(pair) ==> may_come_of(pair.0, pair.1, r.1@),
            (final(self)@, r.0@) == old(self)@.next(reply@, r.1@),
            r.0.hands_out_new(old(self)@.arena.process),
    {
        match reply {
            Reply::Failed { code, target_alive } => (
                self.finish(Err(failure_of(code, target_alive))),
                Ghost(None),
            ),
            Reply::Module(Some(base)) => {
                self.task = Task::Loading { load: Load::Reading { base } };
                (Step::Next(Request::ReadWow64Kernel32), Ghost(None))
            },
            Reply::Module(None) => {
                let waited = match load {
                    Load::Locating { waited } => waited,
                    _ => unreached(),
                };
                self.task = Task::Loading { load: Load::Pausing { waited } };
                (Step::Next(Request::Pause { millis: POLL_INTERVAL_MS }), Ghost(None))
            },
            Reply::Done => {
                let waited = match load {
                    Load::Pausing { waited } => waited,
                    _ => unreached(),
                };
                self.task = Task::Loading {
                    load: Load::Locating { waited: waited + POLL_INTERVAL_MS },
                };
                (Step::Next(Request::FindKernel32), Ghost(None))
            },
            Reply::Kernel32 { base, load_library, free_library, get_proc_address } => {
                let local = InjectHelpData::from_local(
                    base,
                    load_library,
                    free_library,
                    get_proc_address,
                );
                match local {
                    Some(data) => {
                        self.keep(data);
                        self.carry_out(data)
                    },
                    None => unreached(),
                }
            },
            Reply::Bytes(image) => {
                let base = match load {
                    Load::Reading { base } => base,
                    _ => unreached(),
                };
                match InjectHelpData::from_image(base, image.as_slice()) {
                    Ok(data) => if self.fits(&data) {
                        self.keep(data);
                        self.carry_out(data)
                    } else {
                        (self.finish(Err(SyringeError::PeParse)), Ghost(None))
                    },
                    Err(_) => (self.finish(Err(SyringeError::PeParse)), Ghost(None)),
                }
            },
            _ => unreached(),
        }
    }

    /// The step after a reply to the request for a region.
    fn on_growing(&mut self, len: usize, reply: Reply) -> (r: (Step, Ghost<Option<Seq<u8>>>))
        requires
            old(self).wf(),
            old(self)@.task == (Task::Growing { len }),
            old(self)@.expects(reply@),
        ensures
            final(self).wf(),
            final(self)@.host_x64 == old(self)@.host_x64,
            final(self)@.arena.process == old(self)@.arena.process,
            (final(self)@, r.0@) == old(self)@.next(reply@, r.1@),
            r.0.hands_out_new(old(self)@.arena.process),
    {
        match reply {
            Reply::Reserved { base } => {
                let _ = self.remote_allocator.grow(base, len);
                match self.data() {
                    Some(data) => self.carry_out(data),
                    None => unreached(),
                }
            },
            Reply::Failed { code, target_alive } => (
                self.finish(Err(failure_of(code, target_alive))),
                Ghost(None),
            ),
            _ => unreached(),
        }
    }

    /// The step after a reply to the copy of the path.
    fn on_path_written(&mut self, target: Allocation, reply: Reply) -> (r: Step)
        requires
            old(self).wf(),
            old(self)@.task == (Task::WritingPath { target }),
            old(self)@.expects(reply@),
        ensures
            final(self).wf(),
            final(self)@.host_x64 == old(self)@.host_x64,
            final(self)@.arena.process == old(self)@.arena.process,
            forall|built: Option<Seq<u8>>|
                (final(self)@, r@) == #[trigger] old(self)@.next(reply@, built),
            r.hands_out_new(old(self)@.arena.process),
    {
        match reply {
            Reply::Failed { code, target_alive } => {
                self.drop_path(target);
                self.finish(Err(failure_of(code, target_alive)))
            },
            _ => match self.data() {
                Some(data) => {
                    let (thread, step) = self.run_thread(
                        data.get_load_library_fn_ptr(),
                        target.base,
                    );
                    self.task = Task::Injecting { target, thread };
                    step
                },
                None => unreached(),
            },
        }
    }

    /// The step after a reply of the thread that loads the library.
    fn on_injecting(&mut self, target: Allocation, thread: RemoteThread, reply: Reply) -> (r:
        Step)
        requires
            old(self).wf(),
            old(self)@.task == (Task::Injecting { target, thread }),
            old(self)@.expects(reply@),
        ensures
            final(self).wf(),
            final(self)@.host_x64 == old(self)@.host_x64,
            final(self)@.arena.process == old(self)@.arena.process,
            forall|built: Option<Seq<u8>>|
                (final(self)@, r@) == #[trigger] old(self)@.next(reply@, built),
            r.hands_out_new(old(self)@.arena.process),
    {
        match thread.resume(&reply) {
            ThreadStep::Next(then, request) => {
                self.task = Task::Injecting { target, thread: then };
                Step::Next(request)
            },
            ThreadStep::Done(Ok(code)) => {
                self.drop_path(target);
                let path = match &self.plan {
                    Some(Plan::Inject { path, .. }) => copy_units(path),
                    _ => unreached(),
                };
                if code == 0 {
                    self.task = Task::Diagnosing;
                    Step::Next(Request::LoadError { path })
                } else {
                    self.task = Task::Locating { exit_code: code };
                    Step::Next(Request::FindModuleByPath { path })
                }
            },
            ThreadStep::Done(Err(e)) => {
                self.drop_path(target);
                self.finish(Err(e))
            },
        }
    }

    /// The step after a reply of the thread that unloads the library.
    fn on_ejecting(&mut self, module: usize, thread: RemoteThread, reply: Reply) -> (r: Step)
        requires
            old(self).wf(),
            old(self)@.task == (Task::Ejecting { module, thread }),
            old(self)@.expects(reply@),
        ensures
            final(self).wf(),
            final(self)@.host_x64 == old(self)@.host_x64,
            final(self)@.arena.process == old(self)@.arena.process,
            forall|built: Option<Seq<u8>>|
                (final(self)@, r@) == #[trigger] old(self)@.next(reply@, built),
            r.hands_out_new(old(self)@.arena.process),
    {
        match thread.resume(&reply) {
            ThreadStep::Next(then, request) => {
                self.task = Task::Ejecting { module, thread: then };
                Step::Next(request)
            },
            ThreadStep::Done(Ok(code)) => if code == 0 {
                self.task = Task::Diagnosing;
                Step::Next(Request::UnloadError { module })
            } else {
                self.task = Task::Listing { module };
                Step::Next(Request::ModuleHandles)
            },
            ThreadStep::Done(Err(e)) => self.finish(Err(e)),
        }
    }

    /// The step after the reply that ends an injection or an ejection, well
    /// or with the error code behind its failure.
    fn on_checked(&mut self, reply: Reply) -> (r: Step)
        requires
            old(self).wf(),
            old(self)@.task is Locating || old(self)@.task is Listing || old(self)@.task
                is Diagnosing,
            old(self)@.expects(reply@),
        ensures
            final(self).wf(),
            final(self)@.host_x64 == old(self)@.host_x64,
            final(self)@.arena.process == old(self)@.arena.process,
            forall|built: Option<Seq<u8>>|
                (final(self)@, r@) == #[trigger] old(self)@.next(reply@, built),
            r.hands_out_new(old(self)@.arena.process),
    {
        match reply {
            Reply::Module(Some(handle)) => self.finish(Ok(Outcome::Injected(handle))),
            Reply::Handles(_) => self.finish(Ok(Outcome::Ejected)),
            Reply::ErrorCode(code) => self.finish(Err(SyringeError::RemoteOperationFailed(code))),
            Reply::Failed { code, target_alive } => self.finish(
                Err(failure_of(code, target_alive)),
            ),
            _ => unreached(),
        }
    }

    /// The step after a reply to the call that looks up an export.
    fn on_resolving(&mut self, wrap: Option<usize>, reply: Reply) -> (r: (
        Step,
        Ghost<Option<Seq<u8>>>,
    ))
        requires
            old(self).wf(),
            old(self)@.task == (Task::Resolving { wrap }),
            old(self)@.expects(reply@),
        ensures
            final(self).wf(),
            final(self)@.host_x64 == old(self)@.host_x64,
            final(self)@.arena.process == old(self)@.arena.process,
            old(self)@.advancing(reply@) matches Some(pair) ==> may_come_of(pair.0, pair.1, r.1@),
            (final(self)@, r.0@) == old(self)@.next(reply@, r.1@),
            r.0.hands_out_new(old(self)@.arena.process),
    {
        let mut call = match self.call.take() {
            Some(call) => call,
            None => unreached(),
        };
        let (step, Ghost(built)) = call.resume_with(
            &mut self.remote_allocator,
            &mut self.get_proc_address_stub,
            reply,
        );
        assert(self@.sound());
        (self.follow(call, wrap, step), Ghost(built))
    }

    /// Takes the operation one step further, and tells what the assembler
    /// gave.
    fn resume_with(&mut self, reply: Reply) -> (r: (Step, Ghost<Option<Seq<u8>>>))
        requires
            old(self).wf(),
            old(self)@.expects(reply@),
        ensures
            final(self).wf(),
            final(self)@.host_x64 == old(self)@.host_x64,
            final(self)@.arena.process == old(self)@.arena.process,
            old(self)@.advancing(reply@) matches Some(pair) ==> may_come_of(pair.0, pair.1, r.1@),
            (final(self)@, r.0@) == old(self)@.next(reply@, r.1@),
            r.0.hands_out_new(old(self)@.arena.process),
    {
        match self.task {
            Task::Idle => unreached(),
            Task::Loading { load } => self.on_loading(load, reply),
            Task::Growing { len } => self.on_growing(len, reply),
            Task::WritingPath { target } => (self.on_path_written(target, reply), Ghost(None)),
            Task::Injecting { target, thread } => (
                self.on_injecting(target, thread, reply),
                Ghost(None),
            ),
            Task::Locating { .. } => (self.on_checked(reply), Ghost(None)),
            Task::Ejecting { module, thread } => (
                self.on_ejecting(module, thread, reply),
                Ghost(None),
            ),
            Task::Listing { .. } => (self.on_checked(reply), Ghost(None)),
            Task::Diagnosing => (self.on_checked(reply), Ghost(None)),
            Task::Resolving { wrap } => self.on_resolving(wrap, reply),
        }
    }

    /// Begins to load the library at `payload_path` into the target.
    ///
    /// A path with a nul character before its end, or one too long for a
    /// region of the target, is refused at once; a path without such a nul
    /// whose characters, at four bytes each, leave a page of the address space
    /// free is never too long. Otherwise the path is copied
    /// to the target and `LoadLibraryW` is run on it in a new thread; before
    /// that, the help data of the target is loaded if this is the first
    /// operation. The operation ends with the handle of the module that the
    /// target has for the path.
    pub fn inject(&mut self, payload_path: &str) -> (step: Step)
        requires
            old(self).wf(),
            old(self)@.task is Idle,
        ensures
            final(self).wf(),
            match inject_plan(payload_path@) {
                Some(plan) => (final(self)@, step@) == old(self)@.planning(plan).launch(None),
                None => final(self)@ == old(self)@ && step@ == StepView::Done(
                    Err(SyringeError::PathEncoding),
                ),
            },
            !has_inner_nul(payload_path@) && 4 * payload_path@.len() + 2 + PAGE_SIZE <= usize::MAX
                ==> inject_plan(payload_path@) is Some,
    {
        match encode_wide(payload_path) {
            Ok(path) => self.load(path),
            Err(e) => Step::Done(Err(e)),
        }
    }

    /// Begins to load the library at `payload_path`, which is given in
    /// UTF-16, into the target.
    ///
    /// A path with a nul unit before its end, or one too long for a region of
    /// the target, is refused at once; a path without such a nul whose units,
    /// at two bytes each, leave a page of the address space free is never too
    /// long. Otherwise the operation goes as [`inject`](Self::inject) does.
    pub fn inject_wide(&mut self, payload_path: &[u16]) -> (step: Step)
        requires
            old(self).wf(),
            old(self)@.task is Idle,
        ensures
            final(self).wf(),
            match inject_wide_plan(payload_path@) {
                Some(plan) => (final(self)@, step@) == old(self)@.planning(plan).launch(None),
                None => final(self)@ == old(self)@ && step@ == StepView::Done(
                    Err(SyringeError::PathEncoding),
                ),
            },
            !has_inner_nul_unit(payload_path@) && 2 * payload_path@.len() + 2 + PAGE_SIZE
                <= usize::MAX ==> inject_wide_plan(payload_path@) is Some,
    {
        match terminate(payload_path) {
            Ok(path) => self.load(path),
            Err(e) => Step::Done(Err(e)),
        }
    }

    /// Begins to load the library at the path with the given units, nul
    /// terminator included.
    fn load(&mut self, path: Vec<u16>) -> (step: Step)
        requires
            old(self).wf(),
            old(self)@.task is Idle,
            path@.len() > 0,
        ensures
            final(self).wf(),
            match load_plan(path@) {
                Some(plan) => (final(self)@, step@) == old(self)@.planning(plan).launch(None),
                None => final(self)@ == old(self)@ && step@ == StepView::Done(
                    Err(SyringeError::PathEncoding),
                ),
            },
            2 * path@.len() + PAGE_SIZE <= usize::MAX ==> load_plan(path@) is Some,
    {
        let image = le_bytes(&path);
        if growth_for(image.len()).is_none() {
            return Step::Done(Err(SyringeError::PathEncoding));
        }
        let plan = Plan::Inject { path, image };
        let (step, Ghost(built)) = self.launch(plan);
        step
    }

    /// Begins to unload the library with the handle `module` from the
    /// target.
    ///
    /// `FreeLibrary` is run on the handle in a new thread; before that, the
    /// help data of the target is loaded if this is the first operation. The
    /// operation ends once the target no longer lists the module.
    pub fn eject(&mut self, module: usize) -> (step: Step)
        requires
            old(self).wf(),
            old(self)@.task is Idle,
        ensures
            final(self).wf(),
            (final(self)@, step@) == old(self)@.planning(PlanView::Eject { module }).launch(None),
    {
        let (step, Ghost(built)) = self.launch(Plan::Eject { module });
        step
    }

    /// Begins to look up the address of the export `name` of the module
    /// `module`.
    ///
    /// The name is copied to the target and handed to `GetProcAddress`
    /// through a stub that is built with the first lookup and kept. The
    /// operation ends with the address, or with nothing when the module has
    /// no such export.
    ///
    /// The name must not hold a nul, and a region of the target must be able
    /// to take it.
    pub fn get_procedure_address(&mut self, module: ProcessModule, name: &str) -> (step:
        Step)
        requires
            old(self).wf(),
            old(self)@.task is Idle,
            module.process() == old(self)@.arena.process,
            !has_nul(name.spec_bytes()),
            growth_len((name.spec_bytes().len() + 1) as usize) <= usize::MAX,
            name.spec_bytes().len() < usize::MAX,
        ensures
            final(self).wf(),
            exists|built: Option<Seq<u8>>|
                (old(self)@.planning(
                    resolve_plan(module.handle(), name.spec_bytes(), None),
                ).launching() matches Some(pair) ==> may_come_of(pair.0, pair.1, built)) && (
                    final(self)@,
                    step@,
                ) == #[trigger] old(self)@.planning(
                    resolve_plan(module.handle(), name.spec_bytes(), None),
                ).launch(built),
    {
        let ghost wanted = resolve_plan(module.handle(), name.spec_bytes(), None);
        let plan = Plan::Resolve { module: module.handle(), name: encode_name(name), wrap: None };
        assert(plan@ == wanted);
        assert(wanted.wf());
        let (step, Ghost(built)) = self.launch(plan);
        assert((self@, step@) == old(self)@.planning(wanted).launch(built));
        step
    }

    /// Begins to look up the export `name` of the module `module` as a
    /// procedure whose result takes `result_len` bytes.
    ///
    /// The operation goes as [`get_procedure_address`](Self::get_procedure_address)
    /// does, and ends with a procedure for the address that was found.
    ///
    /// The module must be one of the target. The name must not hold a nul,
    /// the result must not be empty, and a region of the target must be able
    /// to take either.
    pub fn get_procedure(&mut self, module: ProcessModule, name: &str, result_len: usize) -> (step:
        Step)
        requires
            old(self).wf(),
            old(self)@.task is Idle,
            module.process() == old(self)@.arena.process,
            !has_nul(name.spec_bytes()),
            growth_len((name.spec_bytes().len() + 1) as usize) <= usize::MAX,
            name.spec_bytes().len() < usize::MAX,
            result_len > 0,
            growth_len(result_len) <= usize::MAX,
        ensures
            final(self).wf(),
            step.hands_out_new(old(self)@.arena.process),
            exists|built: Option<Seq<u8>>|
                (old(self)@.planning(
                    resolve_plan(module.handle(), name.spec_bytes(), Some(result_len)),
                ).launching() matches Some(pair) ==> may_come_of(pair.0, pair.1, built)) && (
                    final(self)@,
                    step@,
                ) == #[trigger] old(self)@.planning(
                    resolve_plan(module.handle(), name.spec_bytes(), Some(result_len)),
                ).launch(built),
    {
        let ghost wanted = resolve_plan(module.handle(), name.spec_bytes(), Some(result_len));
        let plan = Plan::Resolve {
            module: module.handle(),
            name: encode_name(name),
            wrap: Some(result_len),
        };
        assert(plan@ == wanted);
        assert(wanted.wf());
        let (step, Ghost(built)) = self.launch(plan);
        assert((self@, step@) == old(self)@.planning(wanted).launch(built));
        step
    }

    /// Whether `reply` answers the request that is outstanding.
    pub fn accepts(&self, reply: &Reply) -> (r: bool)
        requires
            self.wf(),
        ensures
            r == self@.expects(reply@),
    {
        match self.task {
            Task::Idle => false,
            Task::Loading { load } => match (load, reply) {
                (_, Reply::Failed { .. }) => true,
                (
                    Load::Local,
                    Reply::Kernel32 { base, load_library, free_library, get_proc_address },
                ) => match InjectHelpData::from_local(
                    *base,
                    *load_library,
                    *free_library,
                    *get_proc_address,
                ) {
                    Some(data) => self.fits(&data),
                    None => false,
                },
                (Load::Locating { .. }, Reply::Module(Some(_))) => true,
                (Load::Locating { waited }, Reply::Module(None)) => waited < POLL_BUDGET_MS,
                (Load::Pausing { .. }, Reply::Done) => true,
                (Load::Reading { .. }, Reply::Bytes(_)) => true,
                _ => false,
            },
            Task::Growing { len } => match reply {
                Reply::Failed { .. } => true,
                Reply::Reserved { base } => self.remote_allocator.admits(*base, len),
                _ => false,
            },
            Task::WritingPath { .. } => matches!(reply, Reply::Done | Reply::Failed { .. }),
            Task::Injecting { thread, .. } => thread.accepts(reply),
            Task::Locating { exit_code } => match reply {
                Reply::Failed { .. } => true,
                Reply::Module(Some(handle)) => low_half(*handle) == exit_code,
                _ => false,
            },
            Task::Ejecting { thread, .. } => thread.accepts(reply),
            Task::Listing { module } => match reply {
                Reply::Failed { .. } => true,
                Reply::Handles(handles) => !lists(handles, module),
                _ => false,
            },
            Task::Diagnosing => matches!(reply, Reply::ErrorCode(_) | Reply::Failed { .. }),
            Task::Resolving { .. } => match &self.call {
                Some(call) => {
                    if !call.accepts(&self.remote_allocator, &self.get_proc_address_stub, reply) {
                        return false;
                    }
                    if !call.awaits_result() {
                        return true;
                    }
                    match reply {
                        Reply::Bytes(bytes) => {
                            let address = u64_from_le_bytes(bytes.as_slice());
                            let narrow = self.remote_allocator.process().is_x86();
                            address <= usize::MAX as u64 && (!narrow || address <= u32::MAX as u64)
                        },
                        _ => true,
                    }
                },
                None => unreached(),
            },
        }
    }

    /// Takes the operation in progress one step further with the reply to
    /// its outstanding request.
    pub fn resume(&mut self, reply: Reply) -> (step: Step)
        requires
            old(self).wf(),
            old(self)@.expects(reply@),
        ensures
            final(self).wf(),
            step.hands_out_new(old(self)@.arena.process),
            exists|built: Option<Seq<u8>>|
                (old(self)@.advancing(reply@) matches Some(pair) ==> may_come_of(
                    pair.0,
                    pair.1,
                    built,
                )) && (final(self)@, step@) == #[trigger] old(self)@.next(reply@, built),
    {
        let (step, Ghost(built)) = self.resume_with(reply);
        step
    }

    /// Begins a call of `procedure` with the byte image `arg` of its
    /// argument, in the memory of this injector.
    ///
    /// The call goes as [`RemoteProcedure::call`] says. The injector itself
    /// stays idle; only its allocator takes part.
    pub fn call_procedure(&mut self, procedure: &mut RemoteProcedure, arg: Vec<u8>) -> (step:
        InvokeStep)
        requires
            old(self).wf(),
            old(self)@.task is Idle,
            old(procedure).wf(old(self)@.arena),
            old(procedure).call_in_progress() is None,
            arg@.len() > 0,
            growth_len(arg@.len() as usize) <= usize::MAX,
        ensures
            final(self).wf(),
            final(self)@ == (State { arena: final(self)@.arena, ..old(self)@ }),
            final(procedure).wf(final(self)@.arena),
            final(procedure).spec_ptr() == old(procedure).spec_ptr(),
            final(procedure).result_len() == old(procedure).result_len(),
            final(procedure).call_in_progress() is Some <==> step is Next,
            exists|built: Option<Seq<u8>>|
                may_come_of(
                    start(old(procedure).job(arg@), old(self)@.arena, old(procedure).stub()),
                    old(procedure).job(arg@),
                    built,
                ) && final(procedure).reached(
                    old(procedure).job(arg@),
                    final(self)@.arena,
                    step@,
                    #[trigger] start(
                        old(procedure).job(arg@),
                        old(self)@.arena,
                        old(procedure).stub(),
                    ).advance(old(procedure).job(arg@), built),
                ),
    {
        procedure.call(&mut self.remote_allocator, arg)
    }

    /// Whether `reply` answers the request that the call of `procedure` has
    /// outstanding.
    pub fn accepts_for(&self, procedure: &RemoteProcedure, reply: &Reply) -> (r: bool)
        requires
            self.wf(),
        ensures
            r == (procedure.call_in_progress() matches Some(call) && call.run(
                self@.arena,
                procedure.stub(),
            ).expects(call.job(), reply@)),
    {
        procedure.accepts(&self.remote_allocator, reply)
    }

    /// Takes the call of `procedure` one step further with the reply to its
    /// outstanding request.
    ///
    /// The call goes as [`RemoteProcedure::resume`] says.
    pub fn resume_procedure(&mut self, procedure: &mut RemoteProcedure, reply: Reply) -> (step:
        InvokeStep)
        requires
            old(self).wf(),
            old(self)@.task is Idle,
            old(procedure).wf(old(self)@.arena),
            old(procedure).call_in_progress() matches Some(call) && call.run(
                old(self)@.arena,
                old(procedure).stub(),
            ).expects(call.job(), reply@),
        ensures
            final(self).wf(),
            final(self)@ == (State { arena: final(self)@.arena, ..old(self)@ }),
            final(procedure).wf(final(self)@.arena),
            final(procedure).spec_ptr() == old(procedure).spec_ptr(),
            final(procedure).result_len() == old(procedure).result_len(),
            final(procedure).call_in_progress() is Some <==> step is Next,
            exists|built: Option<Seq<u8>>|
                (entering(old(procedure).running(old(self)@.arena), reply@) matches Some(run)
                    ==> may_come_of(run, old(procedure).call_in_progress().unwrap().job(), built))
                    && final(procedure).reached(
                    old(procedure).call_in_progress().unwrap().job(),
                    final(self)@.arena,
                    step@,
                    #[trigger] old(procedure).running(old(self)@.arena).next(
                        old(procedure).call_in_progress().unwrap().job(),
                        reply@,
                        built,
                    ),
                ),
    {
        procedure.resume(&mut self.remote_allocator, reply)
    }
}

} // verus!
