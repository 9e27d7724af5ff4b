//! The executable side of a call through a stub.

use vstd::bytes::u64_to_le_bytes;
use vstd::pervasive::unreached;
use vstd::prelude::*;
use vstd::slice::slice_to_vec;
use crate::error::SyringeError;
use crate::process_memory::dynamic_allocator::{lemma_served_is_sound, Arena};
use crate::process_memory::raw_allocator::Allocation;
use crate::process_memory::remote_box::{AllocStep, CopyStep, RemoteBox, RemoteBoxAllocator};
use crate::protocol::{failure_of, Reply, ReplyView, Request, RequestView};
use crate::remote_thread::{RemoteThread, ThreadStep};
use crate::stub::{
    addressable, assemble_stub, may_be_built, stub_view, zeros, Input, InvokeStep, InvokeStepView,
    Job, JobView, RemoteProcedureStub, Run, Stage, StubView, EXPORT_QUERY_LEN,
};

verus! {

/// One call through a stub, in progress.
#[derive(Debug)]
pub struct Invocation {
    job: Job,
    stage: Stage,
    growing: Option<usize>,
}

/// Whether `built` is what assembling the trampoline comes to in the advance
/// that `run` is about to make, should that advance assemble one.
pub open spec fn may_come_of(run: Run, job: JobView, built: Option<Seq<u8>>) -> bool {
    run.assembles_for(job) matches Some(result) ==> may_be_built(
        job.kind,
        run.narrow(),
        job.callee,
        result.base,
        built,
    )
}

/// The run that an invocation of `job` starts as.
///
/// A stub whose cells are large enough is used again. One that is too small
/// is given back to the allocator, and a new one is built.
pub open spec fn start(job: JobView, arena: Arena, stub: Option<StubView>) -> Run {
    match stub {
        Some(s) => if s.parameter.len >= job.parameter_len() && s.result.len >= job.result_len {
            Run { stage: Stage::Attach, growing: None, arena, stub }
        } else {
            Run {
                stage: Stage::AllocParameter,
                growing: None,
                arena: arena.after_free(s.code).after_free(s.result).after_free(s.parameter),
                stub: None,
            }
        },
        None => Run { stage: Stage::AllocParameter, growing: None, arena, stub: None },
    }
}

/// The run that makes an advance when `reply` arrives in `run`, if one does.
pub open spec fn entering(run: Run, reply: ReplyView) -> Option<Run> {
    if reply is Failed {
        None
    } else if let Some(len) = run.growing {
        match reply {
            ReplyView::Reserved { base } => Some(
                Run { growing: None, arena: run.arena.after_grow(base, len), ..run },
            ),
            _ => None,
        }
    } else {
        None
    }
}

/// Whether a stub can be used in a target of the given bitness.
pub open spec fn usable(stub: Option<StubView>, narrow: bool) -> bool {
    stub matches Some(s) ==> addressable(s.code, narrow) && addressable(
        s.parameter,
        narrow,
    ) && addressable(s.result, narrow)
}

impl Invocation {
    /// What is being called, and with what.
    pub closed spec fn job(&self) -> JobView {
        self.job@
    }

    /// How far the invocation has come.
    pub closed spec fn stage(&self) -> Stage {
        self.stage
    }

    /// The size of the region that the host is reserving, if it is.
    pub closed spec fn growing(&self) -> Option<usize> {
        self.growing
    }

    /// The invocation together with what it works on.
    pub open spec fn run(&self, arena: Arena, stub: Option<StubView>) -> Run {
        Run { stage: self.stage(), growing: self.growing(), arena, stub }
    }

    /// Whether the invocation is waiting for the bytes of the result cell.
    pub fn awaits_result(&self) -> (r: bool)
        ensures
            r == (self.stage() is ReadingResult && self.growing() is None),
    {
        matches!(self.stage, Stage::ReadingResult { .. }) && self.growing.is_none()
    }

    /// Whether the invocation is over.
    pub fn is_finished(&self) -> (r: bool)
        ensures
            r == (self.stage() is Finished),
    {
        matches!(self.stage, Stage::Finished)
    }

    fn parameter_len(&self) -> (r: usize)
        ensures
            r == self.job@.parameter_len(),
    {
        match &self.job.input {
            Input::Image(image) => image.len(),
            Input::Export { .. } => EXPORT_QUERY_LEN,
        }
    }

    /// Gives one allocation back to the allocator.
    fn give_back(allocator: &mut RemoteBoxAllocator, a: Allocation)
        requires
            old(allocator).wf(),
        ensures
            final(allocator)@.process == old(allocator)@.process,
            final(allocator).wf(),
            final(allocator)@ == old(allocator)@.after_free(a),
    {
        let _ = allocator.release(&a);
    }

    /// Ends the invocation in failure.
    fn fail(&mut self, allocator: &mut RemoteBoxAllocator, e: SyringeError) -> (step: InvokeStep)
        requires
            old(allocator).wf(),
        ensures
            final(allocator)@.process == old(allocator)@.process,
            final(allocator).wf(),
            final(self).job@ == old(self).job@,
            final(self).stage is Finished,
            final(self).growing is None,
            final(allocator)@ == old(self).run(old(allocator)@, None).released(),
            step@ == InvokeStepView::Done(Err(e)),
    {
        self.release(allocator);
        self.growing = None;
        InvokeStep::Done(Err(e))
    }

    /// Gives back what the invocation holds for itself, and ends it.
    fn release(&mut self, allocator: &mut RemoteBoxAllocator)
        requires
            old(allocator).wf(),
        ensures
            final(allocator)@.process == old(allocator)@.process,
            final(allocator).wf(),
            final(self).job@ == old(self).job@,
            final(self).growing == old(self).growing,
            final(self).stage is Finished,
            final(allocator)@ == old(self).run(old(allocator)@, None).released(),
    {
        match self.stage {
            Stage::AllocResult { parameter } => {
                Self::give_back(allocator, parameter);
            },
            Stage::AllocCode { parameter, result } => {
                Self::give_back(allocator, result);
                Self::give_back(allocator, parameter);
            },
            Stage::WritingCode { parameter, result, code } => {
                Self::give_back(allocator, code);
                Self::give_back(allocator, result);
                Self::give_back(allocator, parameter);
            },
            Stage::FlushingCode { parameter, result, code } => {
                Self::give_back(allocator, code);
                Self::give_back(allocator, result);
                Self::give_back(allocator, parameter);
            },
            Stage::WritingAttachment { attachment } => {
                Self::give_back(allocator, attachment);
            },
            Stage::WritingParameter { attachment: Some(a) } => {
                Self::give_back(allocator, a);
            },
            Stage::ClearingResult { attachment: Some(a) } => {
                Self::give_back(allocator, a);
            },
            Stage::Running { attachment: Some(a), .. } => {
                Self::give_back(allocator, a);
            },
            Stage::ReadingResult { attachment: Some(a) } => {
                Self::give_back(allocator, a);
            },
            _ => {},
        }
        self.stage = Stage::Finished;
    }

    /// Asks the host for a region of `len` bytes.
    fn reserve(&mut self, len: usize) -> (step: InvokeStep)
        ensures
            final(self).job@ == old(self).job@,
            final(self).stage == old(self).stage,
            final(self).growing == Some(len),
            step@ == InvokeStepView::Next(RequestView::Reserve { len }),
    {
        self.growing = Some(len);
        InvokeStep::Next(Request::Reserve { len })
    }

    /// Sends the argument to its cell.
    fn write_parameter(
        &mut self,
        stub: &RemoteProcedureStub,
        attachment: Option<Allocation>,
    ) -> (step: InvokeStep)
        ensures
            final(self).job@ == old(self).job@,
            final(self).growing == old(self).growing,
            final(self).stage == (Stage::WritingParameter { attachment }),
            step@ == InvokeStepView::Next(
                RequestView::Write {
                    address: stub@.parameter.base,
                    bytes: old(self).job@.parameter_image(attachment),
                },
            ),
    {
        let bytes = match &self.job.input {
            Input::Image(image) => slice_to_vec(image.as_slice()),
            Input::Export { module, .. } => {
                let mut bytes = u64_to_le_bytes(*module as u64);
                let mut address = u64_to_le_bytes(
                    match attachment {
                        Some(a) => a.base as u64,
                        None => 0,
                    },
                );
                bytes.append(&mut address);
                bytes
            },
        };
        self.stage = Stage::WritingParameter { attachment };
        InvokeStep::Next(Request::Write { address: stub.parameter.address(), bytes })
    }

    /// Asks for the thread that runs the trampoline.
    fn start_thread(
        &mut self,
        stub: &RemoteProcedureStub,
        attachment: Option<Allocation>,
    ) -> (step: InvokeStep)
        ensures
            final(self).job@ == old(self).job@,
            final(self).growing == old(self).growing,
            final(self).stage == (Stage::Running { attachment, thread: RemoteThread::Starting }),
            step@ == InvokeStepView::Next(
                RequestView::StartThread {
                    entry: stub@.code.base,
                    parameter: stub@.parameter.base,
                },
            ),
    {
        let (thread, request) = RemoteThread::start(stub.code.address(), stub.parameter.address());
        self.stage = Stage::Running { attachment, thread };
        InvokeStep::Next(request)
    }

    /// Assembles the trampoline and asks for its place in the target.
    fn advance_code(&mut self, allocator: &mut RemoteBoxAllocator) -> (r: (
        InvokeStep,
        Ghost<Option<Seq<u8>>>,
    ))
        requires
            old(self).run(old(allocator)@, None).wf(old(self).job@),
            old(self).growing is None,
            old(self).stage is AllocCode,
        ensures
            r.0 matches InvokeStep::Done(result) ==> result is Err,
            final(self).stage is Finished <==> r.0 is Done,
            final(allocator)@.process == old(allocator)@.process,
            final(self).job@ == old(self).job@,
            final(self).run(final(allocator)@, None).wf(old(self).job@),
            may_come_of(old(self).run(old(allocator)@, None), old(self).job@, r.1@),
            (final(self).run(final(allocator)@, None), r.0@) == old(self).run(
                old(allocator)@,
                None,
            ).advance(old(self).job@, r.1@),
    {
        let narrow = allocator.process().is_x86();
        match self.stage {
            Stage::AllocCode { parameter, result } => {
                match assemble_stub(self.job.kind, narrow, self.job.callee, result.base) {
                    Some(image) => {
                        let n = image.len();
                        proof {
                            lemma_served_is_sound(allocator@, n);
                        }
                        match allocator.alloc_and_copy(image.as_slice()) {
                            CopyStep::Write { target, request } => {
                                self.stage =
                                Stage::WritingCode { parameter, result, code: target.allocation() };
                                (InvokeStep::Next(request), Ghost(Some(image@)))
                            },
                            CopyStep::Reserve { len } => (self.reserve(len), Ghost(Some(image@))),
                            CopyStep::Refused => unreached(),
                        }
                    },
                    None => (self.fail(allocator, SyringeError::StubAssembly), Ghost(None)),
                }
            },
            _ => unreached(),
        }
    }

    /// Asks for the result cell, and goes on to the trampoline.
    fn advance_result(&mut self, allocator: &mut RemoteBoxAllocator) -> (r: (
        InvokeStep,
        Ghost<Option<Seq<u8>>>,
    ))
        requires
            old(self).run(old(allocator)@, None).wf(old(self).job@),
            old(self).growing is None,
            old(self).stage is AllocResult,
        ensures
            r.0 matches InvokeStep::Done(result) ==> result is Err,
            final(self).stage is Finished <==> r.0 is Done,
            final(allocator)@.process == old(allocator)@.process,
            final(self).job@ == old(self).job@,
            final(self).run(final(allocator)@, None).wf(old(self).job@),
            may_come_of(old(self).run(old(allocator)@, None), old(self).job@, r.1@),
            (final(self).run(final(allocator)@, None), r.0@) == old(self).run(
                old(allocator)@,
                None,
            ).advance(old(self).job@, r.1@),
    {
        match self.stage {
            Stage::AllocResult { parameter } => {
                proof {
                    lemma_served_is_sound(allocator@, self.job.result_len);
                }
                match allocator.alloc_raw(self.job.result_len) {
                    AllocStep::Ready(cell) => {
                        self.stage = Stage::AllocCode { parameter, result: cell.allocation() };
                        self.advance_code(allocator)
                    },
                    AllocStep::Reserve { len } => (self.reserve(len), Ghost(None)),
            AllocStep::Refused => unreached(),
                }
            },
            _ => unreached(),
        }
    }

    /// Asks for the argument cell, and goes on to the result cell.
    fn advance_parameter(&mut self, allocator: &mut RemoteBoxAllocator) -> (r: (
        InvokeStep,
        Ghost<Option<Seq<u8>>>,
    ))
        requires
            old(self).run(old(allocator)@, None).wf(old(self).job@),
            old(self).growing is None,
            old(self).stage is AllocParameter,
        ensures
            r.0 matches InvokeStep::Done(result) ==> result is Err,
            final(self).stage is Finished <==> r.0 is Done,
            final(allocator)@.process == old(allocator)@.process,
            final(self).job@ == old(self).job@,
            final(self).run(final(allocator)@, None).wf(old(self).job@),
            may_come_of(old(self).run(old(allocator)@, None), old(self).job@, r.1@),
            (final(self).run(final(allocator)@, None), r.0@) == old(self).run(
                old(allocator)@,
                None,
            ).advance(old(self).job@, r.1@),
    {
        let n = self.parameter_len();
        proof {
            lemma_served_is_sound(allocator@, n);
        }
        match allocator.alloc_raw(n) {
            AllocStep::Ready(cell) => {
                self.stage = Stage::AllocResult { parameter: cell.allocation() };
                self.advance_result(allocator)
            },
            AllocStep::Reserve { len } => (self.reserve(len), Ghost(None)),
            AllocStep::Refused => unreached(),
        }
    }

    /// Asks for the place of the attachment, or sends the argument when
    /// there is none.
    fn attach(&mut self, allocator: &mut RemoteBoxAllocator, stub: &RemoteProcedureStub) -> (step:
        InvokeStep)
        requires
            old(self).run(old(allocator)@, Some(stub@)).wf(old(self).job@),
            old(self).growing is None,
            old(self).stage is Attach,
        ensures
            step matches InvokeStep::Done(result) ==> result is Err,
            final(self).stage is Finished <==> step is Done,
            final(allocator)@.process == old(allocator)@.process,
            final(self).job@ == old(self).job@,
            final(self).run(final(allocator)@, Some(stub@)).wf(old(self).job@),
            forall|built: Option<Seq<u8>>|
                (final(self).run(final(allocator)@, Some(stub@)), step@) == #[trigger] old(
                    self,
                ).run(old(allocator)@, Some(stub@)).advance(old(self).job@, built),
    {
        let copied = match &self.job.input {
            Input::Export { name, .. } => {
                let n = name.len();
                proof {
                    lemma_served_is_sound(allocator@, n);
                }
                Some(allocator.alloc_and_copy(name.as_slice()))
            },
            Input::Image(_) => None,
        };
        match copied {
            Some(CopyStep::Write { target, request }) => {
                self.stage = Stage::WritingAttachment { attachment: target.allocation() };
                InvokeStep::Next(request)
            },
            Some(CopyStep::Reserve { len }) => self.reserve(len),
            Some(CopyStep::Refused) => unreached(),
            None => self.write_parameter(stub, None),
        }
    }

    /// Takes the memory that the stage needs and goes on until a request is
    /// due.
    fn advance(&mut self, allocator: &mut RemoteBoxAllocator, stub: &Option<
        RemoteProcedureStub,
    >) -> (r: (InvokeStep, Ghost<Option<Seq<u8>>>))
        requires
            old(self).run(old(allocator)@, stub_view(*stub)).wf(old(self).job@),
            old(self).growing is None,
            old(self).run(old(allocator)@, stub_view(*stub)).at_entry(),
        ensures
            r.0 matches InvokeStep::Done(result) ==> result is Err,
            final(self).stage is Finished <==> r.0 is Done,
            final(allocator)@.process == old(allocator)@.process,
            final(self).job@ == old(self).job@,
            final(self).run(final(allocator)@, stub_view(*stub)).wf(old(self).job@),
            may_come_of(old(self).run(old(allocator)@, stub_view(*stub)), old(self).job@, r.1@),
            (final(self).run(final(allocator)@, stub_view(*stub)), r.0@) == old(self).run(
                old(allocator)@,
                stub_view(*stub),
            ).advance(old(self).job@, r.1@),
    {
        match stub {
            Some(s) => (self.attach(allocator, s), Ghost(None)),
            None => match self.stage {
                Stage::AllocParameter => self.advance_parameter(allocator),
                Stage::AllocResult { .. } => self.advance_result(allocator),
                Stage::AllocCode { .. } => self.advance_code(allocator),
                _ => unreached(),
            },
        }
    }

    /// Follows the thread that runs the trampoline.
    fn thread_step(
        &mut self,
        allocator: &mut RemoteBoxAllocator,
        stub: &RemoteProcedureStub,
        attachment: Option<Allocation>,
        step: ThreadStep,
    ) -> (r: InvokeStep)
        requires
            old(self).run(old(allocator)@, Some(stub@)).wf(old(self).job@),
            old(self).growing is None,
            old(self).stage matches Stage::Running { attachment: a, .. } && a == attachment,
        ensures
            r matches InvokeStep::Done(result) ==> result is Err,
            final(self).stage is Finished <==> r is Done,
            final(allocator)@.process == old(allocator)@.process,
            final(self).job@ == old(self).job@,
            final(self).run(final(allocator)@, Some(stub@)).wf(old(self).job@),
            (final(self).run(final(allocator)@, Some(stub@)), r@) == old(self).run(
                old(allocator)@,
                Some(stub@),
            ).thread_step(old(self).job@, attachment, step@),
    {
        match step {
            ThreadStep::Next(thread, request) => {
                self.stage = Stage::Running { attachment, thread };
                InvokeStep::Next(request)
            },
            ThreadStep::Done(Ok(_)) => {
                self.stage = Stage::ReadingResult { attachment };
                InvokeStep::Next(
                    Request::Read { address: stub.result.address(), len: self.job.result_len },
                )
            },
            ThreadStep::Done(Err(e)) => self.fail(allocator, e),
        }
    }

    /// Begins an invocation of `job`.
    ///
    /// A stub whose cells are large enough for the job is used again. One
    /// that is too small goes back to the allocator, and a new one is built.
    pub fn begin(job: Job, allocator: &mut RemoteBoxAllocator, stub: &mut Option<
        RemoteProcedureStub,
    >) -> (r: (Invocation, InvokeStep))
        requires
            old(allocator).wf(),
            job@.wf(old(allocator)@.process.is_x86()),
            usable(stub_view(*old(stub)), old(allocator)@.process.is_x86()),
        ensures
            final(allocator)@.process == old(allocator)@.process,
            r.0.job() == job@,
            r.0.run(final(allocator)@, stub_view(*final(stub))).wf(job@),
            exists|built: Option<Seq<u8>>|
                may_come_of(start(job@, old(allocator)@, stub_view(*old(stub))), job@, built) && (
                    r.0.run(final(allocator)@, stub_view(*final(stub))),
                    r.1@,
                ) == #[trigger] start(job@, old(allocator)@, stub_view(*old(stub))).advance(
                    job@,
                    built,
                ),
    {
        let (invocation, step, Ghost(built)) = Self::begin_with(job, allocator, stub);
        (invocation, step)
    }

    /// Begins an invocation, and tells what the assembler gave.
    pub(crate) fn begin_with(job: Job, allocator: &mut RemoteBoxAllocator, stub: &mut Option<
        RemoteProcedureStub,
    >) -> (r: (Invocation, InvokeStep, Ghost<Option<Seq<u8>>>))
        requires
            old(allocator).wf(),
            job@.wf(old(allocator)@.process.is_x86()),
            usable(stub_view(*old(stub)), old(allocator)@.process.is_x86()),
        ensures
            r.1 matches InvokeStep::Done(result) ==> result is Err,
            r.0.stage() is Finished <==> r.1 is Done,
            final(allocator)@.process == old(allocator)@.process,
            r.0.job() == job@,
            r.0.run(final(allocator)@, stub_view(*final(stub))).wf(job@),
            may_come_of(start(job@, old(allocator)@, stub_view(*old(stub))), job@, r.2@),
            (r.0.run(final(allocator)@, stub_view(*final(stub))), r.1@) == start(
                job@,
                old(allocator)@,
                stub_view(*old(stub)),
            ).advance(job@, r.2@),
    {
        let stage = Self::prepare(&job, allocator, stub);
        let ghost run = start(job@, old(allocator)@, stub_view(*old(stub)));
        let mut invocation = Invocation { job, stage, growing: None };
        assert(invocation.run(allocator@, stub_view(*stub)) == run);
        let (step, Ghost(built)) = invocation.advance(allocator, stub);
        (invocation, step, Ghost(built))
    }

    /// Decides whether the stub serves the job, and gives it back to the
    /// allocator when it does not.
    fn prepare(job: &Job, allocator: &mut RemoteBoxAllocator, stub: &mut Option<
        RemoteProcedureStub,
    >) -> (stage: Stage)
        requires
            old(allocator).wf(),
            job@.wf(old(allocator)@.process.is_x86()),
            usable(stub_view(*old(stub)), old(allocator)@.process.is_x86()),
        ensures
            final(allocator)@.process == old(allocator)@.process,
            final(allocator).wf(),
            (Run {
                stage,
                growing: None,
                arena: final(allocator)@,
                stub: stub_view(*final(stub)),
            }) == start(job@, old(allocator)@, stub_view(*old(stub))),
            (Run {
                stage,
                growing: None,
                arena: final(allocator)@,
                stub: stub_view(*final(stub)),
            }).wf(job@),
    {
        let needed = match &job.input {
            Input::Image(image) => image.len(),
            Input::Export { .. } => EXPORT_QUERY_LEN,
        };
        let reuse = match &*stub {
            Some(s) => s.parameter.len() >= needed && s.result.len() >= job.result_len,
            None => false,
        };
        if reuse {
            return Stage::Attach;
        }
        match stub.take() {
            Some(s) => {
                let _ = allocator.free(s.code);
                let _ = allocator.free(s.result);
                let _ = allocator.free(s.parameter);
            },
            None => {},
        }
        Stage::AllocParameter
    }

    /// Whether `reply` answers the request that is outstanding.
    pub fn accepts(
        &self,
        allocator: &RemoteBoxAllocator,
        stub: &Option<RemoteProcedureStub>,
        reply: &Reply,
    ) -> (r: bool)
        requires
            allocator.wf(),
        ensures
            r == self.run(allocator@, stub_view(*stub)).expects(self.job(), reply@),
    {
        match self.growing {
            Some(len) => match reply {
                Reply::Failed { .. } => true,
                Reply::Reserved { base } => allocator.admits(*base, len),
                _ => false,
            },
            None => match self.stage {
                Stage::WritingCode { .. }
                | Stage::FlushingCode { .. }
                | Stage::WritingAttachment { .. }
                | Stage::WritingParameter { .. }
                | Stage::ClearingResult { .. } => matches!(
                    reply,
                    Reply::Done | Reply::Failed { .. }
                ),
                Stage::Running { thread, .. } => thread.accepts(reply),
                Stage::ReadingResult { .. } => match reply {
                    Reply::Failed { .. } => true,
                    Reply::Bytes(bytes) => bytes.len() == self.job.result_len,
                    _ => false,
                },
                _ => false,
            },
        }
    }

    /// Takes the invocation one step further with the reply to its
    /// outstanding request.
    pub fn resume(
        &mut self,
        allocator: &mut RemoteBoxAllocator,
        stub: &mut Option<RemoteProcedureStub>,
        reply: Reply,
    ) -> (step: InvokeStep)
        requires
            old(self).run(old(allocator)@, stub_view(*old(stub))).wf(old(self).job()),
            old(self).run(old(allocator)@, stub_view(*old(stub))).expects(
                old(self).job(),
                reply@,
            ),
        ensures
            final(allocator)@.process == old(allocator)@.process,
            final(self).job() == old(self).job(),
            final(self).run(final(allocator)@, stub_view(*final(stub))).wf(old(self).job()),
            exists|built: Option<Seq<u8>>|
                (entering(
                    old(self).run(old(allocator)@, stub_view(*old(stub))),
                    reply@,
                ) matches Some(run) ==> may_come_of(run, old(self).job(), built)) && (
                    final(self).run(final(allocator)@, stub_view(*final(stub))),
                    step@,
                ) == #[trigger] old(self).run(old(allocator)@, stub_view(*old(stub))).next(
                    old(self).job(),
                    reply@,
                    built,
                ),
    {
        let (step, Ghost(built)) = self.resume_with(allocator, stub, reply);
        step
    }

    /// Takes the invocation one step further, and tells what the assembler
    /// gave.
    pub(crate) fn resume_with(
        &mut self,
        allocator: &mut RemoteBoxAllocator,
        stub: &mut Option<RemoteProcedureStub>,
        reply: Reply,
    ) -> (r: (InvokeStep, Ghost<Option<Seq<u8>>>))
        requires
            old(self).run(old(allocator)@, stub_view(*old(stub))).wf(old(self).job()),
            old(self).run(old(allocator)@, stub_view(*old(stub))).expects(
                old(self).job(),
                reply@,
            ),
        ensures
            r.0 matches InvokeStep::Done(Ok(bytes)) ==> old(self).stage() is ReadingResult
                && old(self).growing() is None && reply@ == ReplyView::Bytes(bytes@),
            final(self).stage() is Finished <==> r.0 is Done,
            final(allocator)@.process == old(allocator)@.process,
            final(self).job() == old(self).job(),
            final(self).run(final(allocator)@, stub_view(*final(stub))).wf(old(self).job()),
            entering(old(self).run(old(allocator)@, stub_view(*old(stub))), reply@) matches Some(
                run,
            ) ==> may_come_of(run, old(self).job(), r.1@),
            (final(self).run(final(allocator)@, stub_view(*final(stub))), r.0@) == old(self).run(
                old(allocator)@,
                stub_view(*old(stub)),
            ).next(old(self).job(), reply@, r.1@),
    {
        if let Reply::Failed { .. } = reply {
            return (self.on_failure(allocator, stub, reply), Ghost(None));
        }
        if self.growing.is_some() {
            return self.on_region(allocator, stub, reply);
        }
        match self.stage {
            Stage::FlushingCode { .. } => self.on_flushed(allocator, stub),
            Stage::Running { .. } => (self.on_thread(allocator, stub, reply), Ghost(None)),
            Stage::ReadingResult { .. } => (self.on_result(allocator, reply), Ghost(None)),
            _ => (self.on_written(stub), Ghost(None)),
        }
    }

    /// The step after a request that failed.
    fn on_failure(
        &mut self,
        allocator: &mut RemoteBoxAllocator,
        stub: &Option<RemoteProcedureStub>,
        reply: Reply,
    ) -> (r: InvokeStep)
        requires
            old(self).run(old(allocator)@, stub_view(*stub)).wf(old(self).job()),
            old(self).run(old(allocator)@, stub_view(*stub)).expects(old(self).job(), reply@),
            reply is Failed,
        ensures
            r matches InvokeStep::Done(result) ==> result is Err,
            final(self).stage is Finished <==> r is Done,
            final(allocator)@.process == old(allocator)@.process,
            final(self).job() == old(self).job(),
            final(self).run(final(allocator)@, stub_view(*stub)).wf(old(self).job()),
            forall|built: Option<Seq<u8>>|
                (final(self).run(final(allocator)@, stub_view(*stub)), r@) == #[trigger] old(
                    self,
                ).run(old(allocator)@, stub_view(*stub)).next(old(self).job(), reply@, built),
    {
        match reply {
            Reply::Failed { code, target_alive } => {
                if let Stage::Running { attachment, thread } = self.stage {
                    if self.growing.is_none() {
                        let step = thread.resume(&reply);
                        return match stub {
                            Some(s) => self.thread_step(allocator, s, attachment, step),
                            None => unreached(),
                        };
                    }
                }
                self.fail(allocator, failure_of(code, target_alive))
            },
            _ => unreached(),
        }
    }

    /// The step after the host reserved a region.
    fn on_region(
        &mut self,
        allocator: &mut RemoteBoxAllocator,
        stub: &Option<RemoteProcedureStub>,
        reply: Reply,
    ) -> (r: (InvokeStep, Ghost<Option<Seq<u8>>>))
        requires
            old(self).run(old(allocator)@, stub_view(*stub)).wf(old(self).job()),
            old(self).run(old(allocator)@, stub_view(*stub)).expects(old(self).job(), reply@),
            !(reply is Failed),
            old(self).growing() is Some,
        ensures
            r.0 matches InvokeStep::Done(result) ==> result is Err,
            final(self).stage is Finished <==> r.0 is Done,
            final(allocator)@.process == old(allocator)@.process,
            final(self).job() == old(self).job(),
            final(self).run(final(allocator)@, stub_view(*stub)).wf(old(self).job()),
            entering(old(self).run(old(allocator)@, stub_view(*stub)), reply@) matches Some(run)
                ==> may_come_of(run, old(self).job(), r.1@),
            (final(self).run(final(allocator)@, stub_view(*stub)), r.0@) == old(self).run(
                old(allocator)@,
                stub_view(*stub),
            ).next(old(self).job(), reply@, r.1@),
    {
        match (self.growing, reply) {
            (Some(len), Reply::Reserved { base }) => {
                let _ = allocator.grow(base, len);
                self.growing = None;
                self.advance(allocator, stub)
            },
            _ => unreached(),
        }
    }

    /// The step after the instruction cache was flushed: the stub is
    /// complete.
    fn on_flushed(&mut self, allocator: &mut RemoteBoxAllocator, stub: &mut Option<
        RemoteProcedureStub,
    >) -> (r: (InvokeStep, Ghost<Option<Seq<u8>>>))
        requires
            old(self).run(old(allocator)@, stub_view(*old(stub))).wf(old(self).job()),
            old(self).growing() is None,
            old(self).stage() is FlushingCode,
        ensures
            r.0 matches InvokeStep::Done(result) ==> result is Err,
            final(self).stage is Finished <==> r.0 is Done,
            final(allocator)@.process == old(allocator)@.process,
            final(self).job() == old(self).job(),
            final(self).run(final(allocator)@, stub_view(*final(stub))).wf(old(self).job()),
            forall|reply: ReplyView|
                !(reply is Failed) ==> (
                    final(self).run(final(allocator)@, stub_view(*final(stub))),
                    r.0@,
                ) == #[trigger] old(self).run(old(allocator)@, stub_view(*old(stub))).next(
                    old(self).job(),
                    reply,
                    r.1@,
                ),
    {
        match self.stage {
            Stage::FlushingCode { parameter, result, code } => {
                let process = allocator.process();
                *stub = Some(
                    RemoteProcedureStub {
                        code: RemoteBox::new(process, code),
                        parameter: RemoteBox::new(process, parameter),
                        result: RemoteBox::new(process, result),
                    },
                );
                self.stage = Stage::Attach;
                self.advance(allocator, stub)
            },
            _ => unreached(),
        }
    }

    /// The step after a reply of the thread that runs the trampoline.
    fn on_thread(
        &mut self,
        allocator: &mut RemoteBoxAllocator,
        stub: &Option<RemoteProcedureStub>,
        reply: Reply,
    ) -> (r: InvokeStep)
        requires
            old(self).run(old(allocator)@, stub_view(*stub)).wf(old(self).job()),
            old(self).run(old(allocator)@, stub_view(*stub)).expects(old(self).job(), reply@),
            !(reply is Failed),
            old(self).growing() is None,
            old(self).stage() is Running,
        ensures
            r matches InvokeStep::Done(result) ==> result is Err,
            final(self).stage is Finished <==> r is Done,
            final(allocator)@.process == old(allocator)@.process,
            final(self).job() == old(self).job(),
            final(self).run(final(allocator)@, stub_view(*stub)).wf(old(self).job()),
            forall|built: Option<Seq<u8>>|
                (final(self).run(final(allocator)@, stub_view(*stub)), r@) == #[trigger] old(
                    self,
                ).run(old(allocator)@, stub_view(*stub)).next(old(self).job(), reply@, built),
    {
        match (self.stage, stub) {
            (Stage::Running { attachment, thread }, Some(s)) => {
                let step = thread.resume(&reply);
                self.thread_step(allocator, s, attachment, step)
            },
            _ => unreached(),
        }
    }

    /// The step after the result cell was read: the invocation is over.
    fn on_result(&mut self, allocator: &mut RemoteBoxAllocator, reply: Reply) -> (r: InvokeStep)
        requires
            old(allocator).wf(),
            !(reply is Failed),
            reply is Bytes,
            old(self).growing() is None,
            old(self).stage() is ReadingResult,
        ensures
            r matches InvokeStep::Done(Ok(bytes)) && reply@ == ReplyView::Bytes(bytes@),
            final(self).stage is Finished <==> r is Done,
            final(allocator).wf(),
            final(allocator)@.process == old(allocator)@.process,
            final(self).job() == old(self).job(),
            final(self).stage() is Finished,
            final(self).growing() is None,
            forall|built: Option<Seq<u8>>, stub: Option<StubView>|
                (final(self).run(final(allocator)@, stub), r@) == #[trigger] old(self).run(
                    old(allocator)@,
                    stub,
                ).next(old(self).job(), reply@, built),
    {
        match reply {
            Reply::Bytes(bytes) => {
                self.release(allocator);
                InvokeStep::Done(Ok(bytes))
            },
            _ => unreached(),
        }
    }

    /// The step after a write to the target was carried out.
    fn on_written(&mut self, stub: &Option<RemoteProcedureStub>) -> (r: InvokeStep)
        requires
            old(self).growing() is None,
            old(self).stage() is WritingCode || old(self).stage() is WritingAttachment || old(
                self,
            ).stage() is WritingParameter || old(self).stage() is ClearingResult,
            !(old(self).stage() is WritingCode) ==> *stub is Some,
        ensures
            r matches InvokeStep::Done(result) ==> result is Err,
            final(self).stage is Finished <==> r is Done,
            final(self).job() == old(self).job(),
            final(self).growing() is None,
            forall|built: Option<Seq<u8>>, reply: ReplyView, arena: Arena|
                !(reply is Failed) ==> (final(self).run(arena, stub_view(*stub)), r@)
                    == #[trigger] old(self).run(arena, stub_view(*stub)).next(
                    old(self).job(),
                    reply,
                    built,
                ),
            final(self).stage() is FlushingCode || final(self).stage() is WritingParameter
                || final(self).stage() is ClearingResult || final(self).stage() is Running,
            final(self).stage() matches Stage::FlushingCode { parameter, result, code } ==> old(
                self,
            ).stage() == (Stage::WritingCode { parameter, result, code }),
            final(self).stage() matches Stage::WritingParameter { attachment } ==> old(
                self,
            ).stage() == (Stage::WritingAttachment { attachment: attachment.unwrap() })
                && attachment is Some,
            final(self).stage() matches Stage::ClearingResult { attachment } ==> old(
                self,
            ).stage() == (Stage::WritingParameter { attachment }),
            final(self).stage() matches Stage::Running { attachment, .. } ==> old(self).stage()
                == (Stage::WritingParameter { attachment }) || old(self).stage() == (
            Stage::ClearingResult { attachment }),
    {
        match self.stage {
            Stage::WritingCode { parameter, result, code } => {
                self.stage = Stage::FlushingCode { parameter, result, code };
                InvokeStep::Next(Request::Flush { address: code.base, len: code.len })
            },
            Stage::WritingAttachment { attachment } => match stub {
                Some(s) => self.write_parameter(s, Some(attachment)),
                None => unreached(),
            },
            Stage::WritingParameter { attachment } => match stub {
                Some(s) => if self.job.clear_result {
                    self.stage = Stage::ClearingResult { attachment };
                    InvokeStep::Next(
                        Request::Write {
                            address: s.result.address(),
                            bytes: zero_bytes(self.job.result_len),
                        },
                    )
                } else {
                    self.start_thread(s, attachment)
                },
                None => unreached(),
            },
            Stage::ClearingResult { attachment } => match stub {
                Some(s) => self.start_thread(s, attachment),
                None => unreached(),
            },
            _ => unreached(),
        }
    }
}

impl RemoteProcedureStub {
    /// Begins a call through this stub: the stub serves the job when its
    /// cells are large enough, and makes way for a new one when they are not.
    ///
    /// Hands back the stub, unless it has made way, with the invocation and
    /// its first step.
    pub fn call(self, job: Job, allocator: &mut RemoteBoxAllocator) -> (r: (
        Option<RemoteProcedureStub>,
        Invocation,
        InvokeStep,
    ))
        requires
            old(allocator).wf(),
            job@.wf(old(allocator)@.process.is_x86()),
            usable(Some(self@), old(allocator)@.process.is_x86()),
        ensures
            r.1.job() == job@,
            r.1.run(final(allocator)@, stub_view(r.0)).wf(job@),
            r.1.stage() is Finished <==> r.2 is Done,
            exists|built: Option<Seq<u8>>|
                may_come_of(start(job@, old(allocator)@, Some(self@)), job@, built) && (
                    r.1.run(final(allocator)@, stub_view(r.0)),
                    r.2@,
                ) == #[trigger] start(job@, old(allocator)@, Some(self@)).advance(job@, built),
    {
        let mut slot = Some(self);
        let (invocation, step, Ghost(built)) = Invocation::begin_with(job, allocator, &mut slot);
        (slot, invocation, step)
    }
}

/// A run of `n` zero bytes.
pub fn zero_bytes(n: usize) -> (r: Vec<u8>)
    ensures
        r@ == zeros(n),
{
    let mut bytes: Vec<u8> = Vec::new();
    let mut i: usize = 0;
    while i < n
        invariant
            0 <= i <= n,
            bytes@ == zeros(i),
        decreases n - i,
    {
        bytes.push(0u8);
        proof {
            assert(bytes@ =~= zeros((i + 1) as usize));
        }
        i += 1;
    }
    bytes
}

} // verus!
