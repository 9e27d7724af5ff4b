//! A function of the target that the host can call.

use vstd::prelude::*;
use crate::invocation::{entering, may_come_of, start, usable, Invocation};
use crate::process::ProcessRef;
use crate::process_memory::dynamic_allocator::{growth_len, Arena};
use crate::process_memory::remote_box::RemoteBoxAllocator;
use crate::protocol::Reply;
use crate::stub::{
    stub_view, Input, InputView, InvokeStep, InvokeStepView, Job, JobView, RemoteProcedureStub, Run,
    StubKind, StubView,
};

verus! {

/// A function in the target of the form `void f(const T* argument, R* result)`.
///
/// The stub through which the function is called is built with the first
/// call, and kept for the calls that follow.
#[derive(Debug)]
pub struct RemoteProcedure {
    ptr: usize,
    result_len: usize,
    process: ProcessRef,
    stub: Option<RemoteProcedureStub>,
    call: Option<Invocation>,
}

impl RemoteProcedure {
    /// The address of the function in the target.
    pub closed spec fn spec_ptr(&self) -> usize {
        self.ptr
    }

    /// The number of bytes that the function writes as its result.
    pub closed spec fn result_len(&self) -> usize {
        self.result_len
    }

    /// The process that the function lives in.
    pub closed spec fn spec_process(&self) -> ProcessRef {
        self.process
    }

    /// The stub of the function, once it is built.
    pub closed spec fn stub(&self) -> Option<StubView> {
        stub_view(self.stub)
    }

    /// The call in progress, if there is one.
    pub closed spec fn call_in_progress(&self) -> Option<Invocation> {
        self.call
    }

    /// The job of calling this function with the byte image `image`.
    pub open spec fn job(&self, image: Seq<u8>) -> JobView {
        JobView {
            kind: StubKind::CallProcedure,
            callee: self.spec_ptr(),
            result_len: self.result_len(),
            clear_result: false,
            input: InputView::Image(image),
        }
    }

    /// The call in progress together with what it works on.
    pub open spec fn running(&self, arena: Arena) -> Run {
        self.call_in_progress().unwrap().run(arena, self.stub())
    }

    /// Whether this function, the allocator `arena` and the answer `step`
    /// are what `target` says they come to in a call that carries out `job`.
    pub open spec fn reached(
        &self,
        job: JobView,
        arena: Arena,
        step: InvokeStepView,
        target: (Run, InvokeStepView),
    ) -> bool {
        &&& step == target.1
        &&& arena == target.0.arena
        &&& self.stub() == target.0.stub
        &&& self.call_in_progress() matches Some(call) ==> call.job() == job && call.run(
            arena,
            self.stub(),
        ) == target.0
    }

    /// Whether the function can be called at all: it is not null and, in a
    /// 32-bit target, stands below 4 GiB; its result is not empty and fits a
    /// region; and a stub that was built for it can be used.
    pub open spec fn sound(&self) -> bool {
        &&& self.spec_ptr() != 0
        &&& self.spec_process().is_x86() ==> self.spec_ptr() <= u32::MAX
        &&& self.result_len() > 0
        &&& growth_len(self.result_len()) <= usize::MAX
        &&& usable(self.stub(), self.spec_process().is_x86())
    }

    /// Whether the function can be called in `arena`: it can be called at
    /// all, the arena is valid and belongs to the process of the function,
    /// and a call in progress is in a valid state.
    pub open spec fn wf(&self, arena: Arena) -> bool {
        &&& arena.wf()
        &&& self.spec_process() == arena.process
        &&& self.sound()
        &&& self.call_in_progress() matches Some(call) ==> call.run(arena, self.stub()).wf(
            call.job(),
        ) && !(call.stage() is Finished)
    }

    /// The function at `ptr` in `process`, whose result takes `result_len`
    /// bytes.
    pub fn new(ptr: usize, result_len: usize, process: ProcessRef) -> (r: RemoteProcedure)
        ensures
            r.spec_ptr() == ptr,
            r.result_len() == result_len,
            r.spec_process() == process,
            r.stub() is None,
            r.call_in_progress() is None,
    {
        RemoteProcedure { ptr, result_len, process, stub: None, call: None }
    }

    /// The process that the function lives in.
    pub fn process(&self) -> (r: ProcessRef)
        ensures
            r == self.spec_process(),
    {
        self.process
    }

    /// The address of the function in the target.
    pub fn as_ptr(&self) -> (r: usize)
        ensures
            r == self.spec_ptr(),
    {
        self.ptr
    }

    /// The number of bytes that the function writes as its result.
    pub fn result_size(&self) -> (r: usize)
        ensures
            r == self.result_len(),
    {
        self.result_len
    }

    /// Whether a call is in progress.
    pub fn is_busy(&self) -> (r: bool)
        ensures
            r == self.call_in_progress() is Some,
    {
        self.call.is_some()
    }

    /// Begins a call of the function with the byte image `arg` of its
    /// argument.
    ///
    /// A stub that exists and whose argument cell holds `arg` is used again;
    /// otherwise a stub is built, with cells for this argument and for the
    /// result. The answer is the first request of the call, or its end when
    /// the trampoline could not be assembled.
    pub fn call(&mut self, allocator: &mut RemoteBoxAllocator, arg: Vec<u8>) -> (step: InvokeStep)
        requires
            old(self).wf(old(allocator)@),
            old(self).call_in_progress() is None,
            arg@.len() > 0,
            growth_len(arg@.len() as usize) <= usize::MAX,
        ensures
            final(self).wf(final(allocator)@),
            final(allocator)@.process == old(allocator)@.process,
            final(self).spec_ptr() == old(self).spec_ptr(),
            final(self).result_len() == old(self).result_len(),
            final(self).call_in_progress() is Some <==> step is Next,
            exists|built: Option<Seq<u8>>|
                may_come_of(
                    start(old(self).job(arg@), old(allocator)@, old(self).stub()),
                    old(self).job(arg@),
                    built,
                ) && final(self).reached(
                    old(self).job(arg@),
                    final(allocator)@,
                    step@,
                    #[trigger] start(
                        old(self).job(arg@),
                        old(allocator)@,
                        old(self).stub(),
                    ).advance(old(self).job(arg@), built),
                ),
    {
        let ghost n = arg.len();
        let job = Job {
            kind: StubKind::CallProcedure,
            callee: self.ptr,
            result_len: self.result_len,
            clear_result: false,
            input: Input::Image(arg),
        };
        let ghost view = job@;
        let (call, step, Ghost(built)) = Invocation::begin_with(job, allocator, &mut self.stub);
        let ghost target = start(view, old(allocator)@, old(self).stub()).advance(view, built);
        if !call.is_finished() {
            self.call = Some(call);
        }
        assert(self.reached(view, allocator@, step@, target));
        step
    }

    /// Whether `reply` answers the request that is outstanding.
    pub fn accepts(&self, allocator: &RemoteBoxAllocator, reply: &Reply) -> (r: bool)
        requires
            allocator.wf(),
        ensures
            r == (self.call_in_progress() matches Some(call) && call.run(
                allocator@,
                self.stub(),
            ).expects(call.job(), reply@)),
    {
        match &self.call {
            Some(call) => call.accepts(allocator, &self.stub, reply),
            None => false,
        }
    }

    /// Takes the call in progress one step further with the reply to its
    /// outstanding request. The call ends with the bytes that the function
    /// wrote as its result.
    pub fn resume(&mut self, allocator: &mut RemoteBoxAllocator, reply: Reply) -> (step:
        InvokeStep)
        requires
            old(self).wf(old(allocator)@),
            old(self).call_in_progress() matches Some(call) && call.run(
                old(allocator)@,
                old(self).stub(),
            ).expects(call.job(), reply@),
        ensures
            final(self).wf(final(allocator)@),
            final(allocator)@.process == old(allocator)@.process,
            final(self).spec_ptr() == old(self).spec_ptr(),
            final(self).result_len() == old(self).result_len(),
            final(self).call_in_progress() is Some <==> step is Next,
            exists|built: Option<Seq<u8>>|
                (entering(old(self).running(old(allocator)@), reply@) matches Some(run)
                    ==> may_come_of(run, old(self).call_in_progress().unwrap().job(), built))
                    && final(self).reached(
                    old(self).call_in_progress().unwrap().job(),
                    final(allocator)@,
                    step@,
                    #[trigger] old(self).running(old(allocator)@).next(
                        old(self).call_in_progress().unwrap().job(),
                        reply@,
                        built,
                    ),
                ),
    {
        let mut call = match self.call.take() {
            Some(call) => call,
            None => vstd::pervasive::unreached(),
        };
        let ghost job = call.job();
        let ghost run = call.run(old(allocator)@, old(self).stub());
        let (step, Ghost(built)) = call.resume_with(allocator, &mut self.stub, reply);
        let ghost target = run.next(job, reply@, built);
        if !call.is_finished() {
            self.call = Some(call);
        }
        proof {
            assert(step@ == target.1);
            assert(allocator@ == target.0.arena);
            assert(self.stub() == target.0.stub);
            assert(self.reached(job, allocator@, step@, target));
            assert(old(self).running(old(allocator)@) == run);
            assert(old(self).call_in_progress().unwrap().job() == job);
        }
        step
    }
}

} // verus!
