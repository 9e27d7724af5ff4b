//! Calling a function in the target through a trampoline.
//!
//! A stub is a trampoline in the target together with the cell that its
//! argument is written to and the cell that its result is read from. An
//! [`Invocation`] builds the stub when there is none, copies the argument
//! over, runs the trampoline in a thread of the target and fetches the result.

use vstd::bytes::spec_u64_to_le_bytes;
use vstd::prelude::*;
use crate::assembler::Op;
use crate::error::SyringeError;
use crate::process_memory::dynamic_allocator::{growth_for, growth_len, Arena, NARROW_LIMIT};
use crate::process_memory::raw_allocator::Allocation;
use crate::process_memory::remote_box::RemoteBox;
use crate::protocol::{failure, ReplyView, Request, RequestView};
use crate::remote_thread::{RemoteThread, ThreadStepView};
use crate::shellcode::{
    build_call_procedure_x64, build_call_procedure_x86, build_get_proc_address_x64,
    build_get_proc_address_x86, call_procedure_x64, call_procedure_x86, get_proc_address_x64,
    get_proc_address_x86, stub_code,
};

verus! {

/// The number of bytes in the argument of the trampoline that looks up an
/// export: a module handle and the address of a name, eight bytes each.
pub const EXPORT_QUERY_LEN: usize = 16;

/// The number of bytes in a cell that holds an address of the target.
pub const POINTER_CELL_LEN: usize = 8;

/// A trampoline in the target, with the cells for its argument and result.
#[derive(Debug)]
pub struct RemoteProcedureStub {
    pub code: RemoteBox,
    pub parameter: RemoteBox,
    pub result: RemoteBox,
}

/// The mathematical value of a [`RemoteProcedureStub`].
pub ghost struct StubView {
    pub code: Allocation,
    pub parameter: Allocation,
    pub result: Allocation,
}

impl View for RemoteProcedureStub {
    type V = StubView;

    open spec fn view(&self) -> StubView {
        StubView { code: self.code@, parameter: self.parameter@, result: self.result@ }
    }
}

/// The value of a stub that may not have been built yet.
pub open spec fn stub_view(stub: Option<RemoteProcedureStub>) -> Option<StubView> {
    match stub {
        Some(s) => Some(s@),
        None => None,
    }
}

/// Which trampoline a stub runs.
#[derive(Debug, Clone, Copy, PartialEq, Eq, Structural)]
pub enum StubKind {
    /// The trampoline that calls a function of the form
    /// `void f(const T* argument, R* result)`.
    CallProcedure,
    /// The trampoline that calls `GetProcAddress` and stores what it returns.
    GetProcAddress,
}

/// What the trampoline is given.
#[derive(Debug)]
pub enum Input {
    /// The byte image of the argument.
    Image(Vec<u8>),
    /// A module of the target and the name of one of its exports, nul
    /// included. The name is copied to the target, and the argument is the
    /// module handle followed by the address of that copy.
    Export { module: usize, name: Vec<u8> },
}

/// One call through a stub.
#[derive(Debug)]
pub struct Job {
    /// The trampoline to run.
    pub kind: StubKind,
    /// The function that the trampoline calls.
    pub callee: usize,
    /// The number of bytes that the function writes as its result.
    pub result_len: usize,
    /// Whether the result cell is set to zero before the call.
    pub clear_result: bool,
    /// What the function is called with.
    pub input: Input,
}

/// Whether an allocation can be addressed: it is not empty, does not start
/// at the null address, does not wrap around and, in a 32-bit target, lies
/// below 4 GiB.
pub open spec fn addressable(a: Allocation, narrow: bool) -> bool {
    &&& a.len > 0
    &&& a.base > 0
    &&& a.end() <= usize::MAX
    &&& narrow ==> a.end() <= NARROW_LIMIT
}

/// The mathematical value of an [`Input`].
pub ghost enum InputView {
    Image(Seq<u8>),
    Export { module: usize, name: Seq<u8> },
}

impl View for Input {
    type V = InputView;

    open spec fn view(&self) -> InputView {
        match *self {
            Input::Image(image) => InputView::Image(image@),
            Input::Export { module, name } => InputView::Export { module, name: name@ },
        }
    }
}

/// The mathematical value of a [`Job`].
pub ghost struct JobView {
    pub kind: StubKind,
    pub callee: usize,
    pub result_len: usize,
    pub clear_result: bool,
    pub input: InputView,
}

impl View for Job {
    type V = JobView;

    open spec fn view(&self) -> JobView {
        JobView {
            kind: self.kind,
            callee: self.callee,
            result_len: self.result_len,
            clear_result: self.clear_result,
            input: self.input@,
        }
    }
}

impl JobView {
    /// The number of bytes in the argument of the trampoline.
    pub open spec fn parameter_len(self) -> usize {
        match self.input {
            InputView::Image(image) => image.len() as usize,
            InputView::Export { .. } => EXPORT_QUERY_LEN,
        }
    }

    /// The bytes that are copied to the target beside the argument.
    pub open spec fn attachment(self) -> Option<Seq<u8>> {
        match self.input {
            InputView::Image(_) => None,
            InputView::Export { name, .. } => Some(name),
        }
    }

    /// The byte image of the argument, given where the attachment stands.
    pub open spec fn parameter_image(self, attachment: Option<Allocation>) -> Seq<u8> {
        match self.input {
            InputView::Image(image) => image,
            InputView::Export { module, .. } => spec_u64_to_le_bytes(module as u64)
                + spec_u64_to_le_bytes(
                match attachment {
                    Some(a) => a.base as u64,
                    None => 0,
                },
            ),
        }
    }

    /// Whether the job can be carried out in a target of the given bitness:
    /// the function is not null and, in a 32-bit target, stands below 4 GiB;
    /// argument, result and attachment are not empty, and a region can be
    /// reserved for each; and the cell that receives an address holds one.
    pub open spec fn wf(self, narrow: bool) -> bool {
        &&& self.callee != 0
        &&& narrow ==> self.callee <= u32::MAX
        &&& self.parameter_len() > 0
        &&& growth_len(self.parameter_len()) <= usize::MAX
        &&& self.result_len > 0
        &&& growth_len(self.result_len) <= usize::MAX
        &&& self.kind == StubKind::GetProcAddress ==> self.result_len >= POINTER_CELL_LEN
        &&& match self.input {
            InputView::Image(image) => image.len() <= usize::MAX,
            InputView::Export { name, .. } => 0 < name.len() <= usize::MAX && growth_len(
                name.len() as usize,
            ) <= usize::MAX,
        }
    }
}

/// The instructions of the trampoline of the given kind that calls `callee`
/// and has its result in `result`.
pub open spec fn stub_program(kind: StubKind, narrow: bool, callee: usize, result: usize) -> Seq<
    Op,
> {
    match (kind, narrow) {
        (StubKind::CallProcedure, true) => call_procedure_x86(callee as u32, result as u32),
        (StubKind::CallProcedure, false) => call_procedure_x64(callee as u64, result as u64),
        (StubKind::GetProcAddress, true) => get_proc_address_x86(callee as u32, result as u32),
        (StubKind::GetProcAddress, false) => get_proc_address_x64(callee as u64, result as u64),
    }
}

/// The bitness of the processor mode that a target runs in.
pub open spec fn bitness(narrow: bool) -> u32 {
    if narrow {
        32
    } else {
        64
    }
}

/// Whether `built` is what assembling the trampoline comes to: the code of
/// the trampoline, when it has code and a region can be reserved for it, and
/// nothing otherwise.
pub open spec fn may_be_built(
    kind: StubKind,
    narrow: bool,
    callee: usize,
    result: usize,
    built: Option<Seq<u8>>,
) -> bool {
    built == kept(stub_code(bitness(narrow), stub_program(kind, narrow, callee, result)))
}

/// Assembles the trampoline of the given kind.
///
/// The answer is the code of the trampoline, when it has code and a region
/// can be reserved for it. In every other case there is no code.
pub fn assemble_stub(kind: StubKind, narrow: bool, callee: usize, result: usize) -> (r: Option<
    Vec<u8>,
>)
    requires
        callee != 0,
        result != 0,
        narrow ==> callee <= u32::MAX && result <= u32::MAX,
    ensures
        code_view(r) == kept(
            stub_code(bitness(narrow), stub_program(kind, narrow, callee, result)),
        ),
{
    let built = match kind {
        StubKind::CallProcedure => if narrow {
            build_call_procedure_x86(callee, result)
        } else {
            build_call_procedure_x64(callee, result)
        },
        StubKind::GetProcAddress => if narrow {
            build_get_proc_address_x86(callee, result)
        } else {
            build_get_proc_address_x64(callee, result)
        },
    };
    let ghost code = stub_code(bitness(narrow), stub_program(kind, narrow, callee, result));
    assert(built_view(built) == code);
    code_to_place(built)
}

/// What a trampoline that was built is kept as: itself, when a region can be
/// reserved for it. A trampoline that was not built counts as none, and so
/// does one that no region could take.
pub open spec fn kept(built: Option<Seq<u8>>) -> Option<Seq<u8>> {
    match built {
        Some(code) => if growth_len(code.len() as usize) <= usize::MAX {
            Some(code)
        } else {
            None
        },
        None => None,
    }
}

/// The bytes of the code that building a trampoline came to, if it came to
/// any.
pub open spec fn built_view(built: Result<Vec<u8>, SyringeError>) -> Option<Seq<u8>> {
    match built {
        Ok(code) => Some(code@),
        Err(_) => None,
    }
}

/// The bytes of the code, if there is code.
pub open spec fn code_view(code: Option<Vec<u8>>) -> Option<Seq<u8>> {
    match code {
        Some(code) => Some(code@),
        None => None,
    }
}

/// Decides what becomes of a trampoline, given what building it came to.
///
/// The code is handed on when it was built and a region can be reserved for
/// it. In every other case there is no code to place.
pub fn code_to_place(built: Result<Vec<u8>, SyringeError>) -> (r: Option<Vec<u8>>)
    ensures
        code_view(r) == kept(built_view(built)),
{
    match built {
        Ok(code) => if growth_for(code.len()).is_some() {
            Some(code)
        } else {
            None
        },
        Err(_) => None,
    }
}

/// How far an invocation has come.
#[derive(Debug, Clone, Copy)]
#[allow(inconsistent_fields)]
pub enum Stage {
    /// The cell for the argument is to be allocated.
    AllocParameter,
    /// The cell for the result is to be allocated.
    AllocResult { parameter: Allocation },
    /// The trampoline is to be assembled and given a place.
    AllocCode { parameter: Allocation, result: Allocation },
    /// The trampoline is being copied to the target.
    WritingCode { parameter: Allocation, result: Allocation, code: Allocation },
    /// The instruction cache is being flushed for the trampoline.
    FlushingCode { parameter: Allocation, result: Allocation, code: Allocation },
    /// The stub exists, and the attachment is to be given a place.
    Attach,
    /// The attachment is being copied to the target.
    WritingAttachment { attachment: Allocation },
    /// The argument is being copied to its cell.
    WritingParameter { attachment: Option<Allocation> },
    /// The result cell is being set to zero.
    ClearingResult { attachment: Option<Allocation> },
    /// The trampoline runs.
    Running { attachment: Option<Allocation>, thread: RemoteThread },
    /// The result cell is being read.
    ReadingResult { attachment: Option<Allocation> },
    /// The invocation is over.
    Finished,
}

/// What an invocation comes to after a reply.
#[derive(Debug)]
pub enum InvokeStep {
    /// The invocation goes on with this request.
    Next(Request),
    /// The invocation is over: the bytes of the result cell, or why there
    /// are none.
    Done(Result<Vec<u8>, SyringeError>),
}

/// The mathematical value of an [`InvokeStep`].
pub ghost enum InvokeStepView {
    Next(RequestView),
    Done(Result<Seq<u8>, SyringeError>),
}

impl View for InvokeStep {
    type V = InvokeStepView;

    open spec fn view(&self) -> InvokeStepView {
        match *self {
            InvokeStep::Next(request) => InvokeStepView::Next(request@),
            InvokeStep::Done(Ok(bytes)) => InvokeStepView::Done(Ok(bytes@)),
            InvokeStep::Done(Err(e)) => InvokeStepView::Done(Err(e)),
        }
    }
}

/// A run of `n` zero bytes.
pub open spec fn zeros(n: usize) -> Seq<u8> {
    Seq::new(n as nat, |i: int| 0u8)
}

/// An invocation together with what it works on: the memory of the target
/// and the stub.
pub ghost struct Run {
    /// How far the invocation has come.
    pub stage: Stage,
    /// The size of the region that the host is reserving, if it is.
    pub growing: Option<usize>,
    /// The allocator of the target's memory.
    pub arena: Arena,
    /// The stub, once it is built.
    pub stub: Option<StubView>,
}

impl Run {
    /// Whether the target runs 32-bit code.
    pub open spec fn narrow(self) -> bool {
        self.arena.process.is_x86()
    }

    /// Whether the stage is one in which memory is asked for.
    pub open spec fn at_entry(self) -> bool {
        self.stage is AllocParameter || self.stage is AllocResult || self.stage is AllocCode
            || self.stage is Attach
    }

    /// Whether the stub is still being built.
    pub open spec fn building(self) -> bool {
        self.stage is AllocParameter || self.stage is AllocResult || self.stage is AllocCode
            || self.stage is WritingCode || self.stage is FlushingCode
    }

    /// Whether every allocation that the invocation holds for itself can be
    /// addressed.
    pub open spec fn holds_addressable(self) -> bool {
        let narrow = self.narrow();
        match self.stage {
            Stage::AllocResult { parameter } => addressable(parameter, narrow),
            Stage::AllocCode { parameter, result } => addressable(parameter, narrow)
                && addressable(result, narrow),
            Stage::WritingCode { parameter, result, code } => addressable(parameter, narrow)
                && addressable(result, narrow) && addressable(code, narrow),
            Stage::FlushingCode { parameter, result, code } => addressable(parameter, narrow)
                && addressable(result, narrow) && addressable(code, narrow),
            Stage::WritingAttachment { attachment } => addressable(attachment, narrow),
            Stage::WritingParameter { attachment } => attachment matches Some(a) ==> addressable(
                a,
                narrow,
            ),
            Stage::ClearingResult { attachment } => attachment matches Some(a) ==> addressable(
                a,
                narrow,
            ),
            Stage::Running { attachment, .. } => attachment matches Some(a) ==> addressable(
                a,
                narrow,
            ),
            Stage::ReadingResult { attachment } => attachment matches Some(a) ==> addressable(
                a,
                narrow,
            ),
            _ => true,
        }
    }

    /// Whether the cells of a stub that is being built are large enough for
    /// the job.
    pub open spec fn cells_fit(self, job: JobView) -> bool {
        match self.stage {
            Stage::AllocResult { parameter } => parameter.len >= job.parameter_len(),
            Stage::AllocCode { parameter, result } => parameter.len >= job.parameter_len()
                && result.len >= job.result_len,
            Stage::WritingCode { parameter, result, .. } => parameter.len >= job.parameter_len()
                && result.len >= job.result_len,
            Stage::FlushingCode { parameter, result, .. } => parameter.len >= job.parameter_len()
                && result.len >= job.result_len,
            _ => true,
        }
    }

    /// The invariant of an invocation of `job`.
    pub open spec fn wf(self, job: JobView) -> bool {
        &&& self.arena.wf()
        &&& job.wf(self.narrow())
        &&& self.holds_addressable()
        &&& self.cells_fit(job)
        &&& self.growing is Some ==> self.at_entry()
        &&& self.building() ==> self.stub is None
        &&& self.stub matches Some(s) ==> addressable(s.code, self.narrow()) && addressable(
            s.parameter,
            self.narrow(),
        ) && addressable(s.result, self.narrow())
        &&& !self.building() && !(self.stage is Finished) ==> (self.stub matches Some(s)
            && s.parameter.len >= job.parameter_len() && s.result.len >= job.result_len)
        &&& self.stage is WritingAttachment ==> job.attachment() is Some
    }

    /// Whether `reply` answers the request that is outstanding.
    pub open spec fn expects(self, job: JobView, reply: ReplyView) -> bool {
        if let Some(len) = self.growing {
            match reply {
                ReplyView::Failed { .. } => true,
                ReplyView::Reserved { base } => self.arena.admits(base, len),
                _ => false,
            }
        } else {
            match self.stage {
                Stage::WritingCode { .. }
                | Stage::FlushingCode { .. }
                | Stage::WritingAttachment { .. }
                | Stage::WritingParameter { .. }
                | Stage::ClearingResult { .. } => reply is Done || reply is Failed,
                Stage::Running { thread, .. } => thread.expects(reply),
                Stage::ReadingResult { .. } => match reply {
                    ReplyView::Failed { .. } => true,
                    ReplyView::Bytes(bytes) => bytes.len() == job.result_len,
                    _ => false,
                },
                _ => false,
            }
        }
    }

    /// The allocator after the run gave back all that it holds for itself:
    /// the parts of a stub that is not complete, last first, or the
    /// attachment.
    pub open spec fn released(self) -> Arena {
        match self.stage {
            Stage::AllocResult { parameter } => self.arena.after_free(parameter),
            Stage::AllocCode { parameter, result } => self.arena.after_free(result).after_free(
                parameter,
            ),
            Stage::WritingCode { parameter, result, code } => self.arena.after_free(
                code,
            ).after_free(result).after_free(parameter),
            Stage::FlushingCode { parameter, result, code } => self.arena.after_free(
                code,
            ).after_free(result).after_free(parameter),
            Stage::WritingAttachment { attachment } => self.arena.after_free(attachment),
            Stage::WritingParameter { attachment } => without(self.arena, attachment),
            Stage::ClearingResult { attachment } => without(self.arena, attachment),
            Stage::Running { attachment, .. } => without(self.arena, attachment),
            Stage::ReadingResult { attachment } => without(self.arena, attachment),
            _ => self.arena,
        }
    }

    /// The end of the run in failure: what it holds for itself goes back to
    /// the allocator.
    pub open spec fn fail(self, e: SyringeError) -> (Run, InvokeStepView) {
        (
            Run { stage: Stage::Finished, growing: None, arena: self.released(), ..self },
            InvokeStepView::Done(Err(e)),
        )
    }

    /// The run while the host reserves a region of `len` bytes.
    pub open spec fn reserve(self, len: int) -> (Run, InvokeStepView) {
        (
            Run { growing: Some(len as usize), ..self },
            InvokeStepView::Next(RequestView::Reserve { len: len as usize }),
        )
    }

    /// The run once the argument is on its way to its cell.
    pub open spec fn write_parameter(self, job: JobView, attachment: Option<Allocation>) -> (
        Run,
        InvokeStepView,
    ) {
        (
            Run { stage: Stage::WritingParameter { attachment }, ..self },
            InvokeStepView::Next(
                RequestView::Write {
                    address: self.stub.unwrap().parameter.base,
                    bytes: job.parameter_image(attachment),
                },
            ),
        )
    }

    /// The run once the thread is being created.
    pub open spec fn start_thread(self, attachment: Option<Allocation>) -> (Run, InvokeStepView) {
        (
            Run { stage: Stage::Running { attachment, thread: RemoteThread::Starting }, ..self },
            InvokeStepView::Next(
                RequestView::StartThread {
                    entry: self.stub.unwrap().code.base,
                    parameter: self.stub.unwrap().parameter.base,
                },
            ),
        )
    }

    /// How many entry stages lie ahead of the stage.
    pub open spec fn entries_ahead(self) -> nat {
        match self.stage {
            Stage::AllocParameter => 2,
            Stage::AllocResult { .. } => 1,
            _ => 0,
        }
    }

    /// What the run does in an entry stage: it takes the memory that the
    /// stage needs and goes on until a request is due. When no region has
    /// room, the request is for a new region, and the stage is entered again
    /// once the region is there.
    ///
    /// `built` is what assembling the trampoline gives, should the run come to
    /// assemble it: the code, or nothing.
    pub open spec fn advance(self, job: JobView, built: Option<Seq<u8>>) -> (Run, InvokeStepView)
        decreases self.entries_ahead(),
    {
        match self.stage {
            Stage::AllocParameter => match self.arena.served(job.parameter_len()) {
                Some(parameter) => (Run {
                    stage: Stage::AllocResult { parameter },
                    arena: self.arena.after_alloc(job.parameter_len()),
                    ..self
                }).advance(job, built),
                None => self.reserve(growth_len(job.parameter_len())),
            },
            Stage::AllocResult { parameter } => match self.arena.served(job.result_len) {
                Some(result) => (Run {
                    stage: Stage::AllocCode { parameter, result },
                    arena: self.arena.after_alloc(job.result_len),
                    ..self
                }).advance(job, built),
                None => self.reserve(growth_len(job.result_len)),
            },
            Stage::AllocCode { parameter, result } => match built {
                Some(image) => match self.arena.served(image.len() as usize) {
                    Some(code) => (
                        Run {
                            stage: Stage::WritingCode { parameter, result, code },
                            arena: self.arena.after_alloc(image.len() as usize),
                            ..self
                        },
                        InvokeStepView::Next(
                            RequestView::Write { address: code.base, bytes: image },
                        ),
                    ),
                    None => self.reserve(growth_len(image.len() as usize)),
                },
                None => self.fail(SyringeError::StubAssembly),
            },
            Stage::Attach => match job.attachment() {
                Some(image) => match self.arena.served(image.len() as usize) {
                    Some(attachment) => (
                        Run {
                            stage: Stage::WritingAttachment { attachment },
                            arena: self.arena.after_alloc(image.len() as usize),
                            ..self
                        },
                        InvokeStepView::Next(
                            RequestView::Write { address: attachment.base, bytes: image },
                        ),
                    ),
                    None => self.reserve(growth_len(image.len() as usize)),
                },
                None => self.write_parameter(job, None),
            },
            _ => arbitrary(),
        }
    }

    /// The cell that the trampoline will have its result in, if the run
    /// comes to assemble the trampoline in its next advance.
    pub open spec fn assembles_for(self, job: JobView) -> Option<Allocation>
        decreases self.entries_ahead(),
    {
        match self.stage {
            Stage::AllocParameter => match self.arena.served(job.parameter_len()) {
                Some(parameter) => (Run {
                    stage: Stage::AllocResult { parameter },
                    arena: self.arena.after_alloc(job.parameter_len()),
                    ..self
                }).assembles_for(job),
                None => None,
            },
            Stage::AllocResult { parameter } => match self.arena.served(job.result_len) {
                Some(result) => Some(result),
                None => None,
            },
            Stage::AllocCode { result, .. } => Some(result),
            _ => None,
        }
    }

    /// What the run comes to when `reply`, which answers the outstanding
    /// request, arrives.
    ///
    /// A request that failed ends the run; what the run holds for itself goes
    /// back to the allocator. `built` is as in [`advance`](Self::advance).
    pub open spec fn next(self, job: JobView, reply: ReplyView, built: Option<Seq<u8>>) -> (
        Run,
        InvokeStepView,
    ) {
        if let ReplyView::Failed { code, target_alive } = reply {
            if let Stage::Running { attachment, thread } = self.stage {
                self.thread_step(job, attachment, thread.next(reply))
            } else {
                self.fail(failure(code, target_alive))
            }
        } else if let Some(len) = self.growing {
            match reply {
                ReplyView::Reserved { base } => (Run {
                    growing: None,
                    arena: self.arena.after_grow(base, len),
                    ..self
                }).advance(job, built),
                _ => arbitrary(),
            }
        } else {
            match self.stage {
                Stage::WritingCode { parameter, result, code } => (
                    Run { stage: Stage::FlushingCode { parameter, result, code }, ..self },
                    InvokeStepView::Next(RequestView::Flush { address: code.base, len: code.len }),
                ),
                Stage::FlushingCode { parameter, result, code } => (Run {
                    stage: Stage::Attach,
                    stub: Some(StubView { code, parameter, result }),
                    ..self
                }).advance(job, built),
                Stage::WritingAttachment { attachment } => self.write_parameter(
                    job,
                    Some(attachment),
                ),
                Stage::WritingParameter { attachment } => if job.clear_result {
                    (
                        Run { stage: Stage::ClearingResult { attachment }, ..self },
                        InvokeStepView::Next(
                            RequestView::Write {
                                address: self.stub.unwrap().result.base,
                                bytes: zeros(job.result_len),
                            },
                        ),
                    )
                } else {
                    self.start_thread(attachment)
                },
                Stage::ClearingResult { attachment } => self.start_thread(attachment),
                Stage::Running { attachment, thread } => self.thread_step(
                    job,
                    attachment,
                    thread.next(reply),
                ),
                Stage::ReadingResult { attachment } => match reply {
                    ReplyView::Bytes(bytes) => (
                        Run { stage: Stage::Finished, arena: self.released(), ..self },
                        InvokeStepView::Done(Ok(bytes)),
                    ),
                    _ => arbitrary(),
                },
                _ => arbitrary(),
            }
        }
    }

    /// What the run comes to after a step of its thread: it follows the
    /// thread while that runs, reads the result cell when the thread has
    /// ended, and fails when the thread could not be run.
    pub open spec fn thread_step(
        self,
        job: JobView,
        attachment: Option<Allocation>,
        step: ThreadStepView,
    ) -> (Run, InvokeStepView) {
        match step {
            ThreadStepView::Next(thread, request) => (
                Run { stage: Stage::Running { attachment, thread }, ..self },
                InvokeStepView::Next(request),
            ),
            ThreadStepView::Done(Ok(_)) => (
                Run { stage: Stage::ReadingResult { attachment }, ..self },
                InvokeStepView::Next(
                    RequestView::Read {
                        address: self.stub.unwrap().result.base,
                        len: job.result_len,
                    },
                ),
            ),
            ThreadStepView::Done(Err(e)) => self.fail(e),
        }
    }
}

/// The arena after the allocation, if there is one, went back to it.
pub open spec fn without(arena: Arena, a: Option<Allocation>) -> Arena {
    match a {
        Some(a) => arena.after_free(a),
        None => arena,
    }
}

} // verus!
