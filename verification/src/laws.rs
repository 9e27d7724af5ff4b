//! What holds of every operation of the engine.

use vstd::bytes::{
    lemma_auto_spec_u64_to_from_le_bytes, spec_u64_to_le_bytes, spec_u64_to_le_bytes_open,
    spec_u64_to_le_bytes_to_open,
};
use vstd::prelude::*;
use crate::error::SyringeError;
use crate::invocation::start;
use crate::inject_help::HelpDataView;
use crate::state::{address_in, low32, resolve_job, OutcomeView, PlanView, State, StepView, Task};
use crate::stub::{zeros, POINTER_CELL_LEN};
use crate::process_memory::dynamic_allocator::{
    lemma_growth_serves, lemma_request_hands_out, lemma_return_takes_back,
};
use crate::process_memory::raw_allocator::Allocation;
use crate::protocol::{ReplyView, RequestView};
use crate::remote_thread::ThreadStepView;
use crate::stub::{InvokeStepView, JobView, Run, Stage, StubView};

verus! {

/// Whether the run holds the allocation for itself: as a part of a stub that
/// is not complete, or as the attachment.
pub open spec fn holds(run: Run, a: Allocation) -> bool {
    match run.stage {
        Stage::AllocResult { parameter } => a == parameter,
        Stage::AllocCode { parameter, result } => a == parameter || a == result,
        Stage::WritingCode { parameter, result, code } => a == parameter || a == result || a
            == code,
        Stage::FlushingCode { parameter, result, code } => a == parameter || a == result || a
            == code,
        Stage::WritingAttachment { attachment } => a == attachment,
        Stage::WritingParameter { attachment } => attachment == Some(a),
        Stage::ClearingResult { attachment } => attachment == Some(a),
        Stage::Running { attachment, .. } => attachment == Some(a),
        Stage::ReadingResult { attachment } => attachment == Some(a),
        _ => false,
    }
}

/// Once a run has given back what it holds for itself, none of that is
/// handed out any more, and the allocator is as valid as it was.
pub proof fn lemma_released_holds_nothing(run: Run)
    requires
        run.arena.wf(),
    ensures
        run.released().wf(),
        forall|a: Allocation| holds(run, a) ==> !(#[trigger] run.released().is_live(a)),
{
    match run.stage {
        Stage::AllocResult { parameter } => {
            lemma_return_takes_back(run.arena, parameter);
        },
        Stage::AllocCode { parameter, result } => {
            lemma_return_takes_back(run.arena, result);
            lemma_return_takes_back(run.arena.after_free(result), parameter);
        },
        Stage::WritingCode { parameter, result, code } => {
            lemma_return_takes_back(run.arena, code);
            lemma_return_takes_back(run.arena.after_free(code), result);
            lemma_return_takes_back(run.arena.after_free(code).after_free(result), parameter);
        },
        Stage::FlushingCode { parameter, result, code } => {
            lemma_return_takes_back(run.arena, code);
            lemma_return_takes_back(run.arena.after_free(code), result);
            lemma_return_takes_back(run.arena.after_free(code).after_free(result), parameter);
        },
        Stage::WritingAttachment { attachment } => {
            lemma_return_takes_back(run.arena, attachment);
        },
        Stage::WritingParameter { attachment: Some(a) } => {
            lemma_return_takes_back(run.arena, a);
        },
        Stage::ClearingResult { attachment: Some(a) } => {
            lemma_return_takes_back(run.arena, a);
        },
        Stage::Running { attachment: Some(a), .. } => {
            lemma_return_takes_back(run.arena, a);
        },
        Stage::ReadingResult { attachment: Some(a) } => {
            lemma_return_takes_back(run.arena, a);
        },
        _ => {},
    }
}

/// An advance asks for a region, for a write or for nothing at all: it never
/// starts a thread. When it ends the run, nothing that the run held for
/// itself is handed out any more.
pub proof fn lemma_advance_is_careful(run: Run, job: JobView, built: Option<Seq<u8>>)
    requires
        run.arena.wf(),
        job.wf(run.narrow()),
        run.at_entry(),
        run.stage is Attach ==> run.stub is Some,
        built matches Some(code) ==> code.len() > 0,
    ensures
        !(run.advance(job, built).1 matches InvokeStepView::Next(RequestView::StartThread { .. })),
        run.advance(job, built).1 is Done ==> forall|a: Allocation|
            holds(run, a) ==> !(#[trigger] run.advance(job, built).0.arena.is_live(a)),
        run.advance(job, built).0.stub == run.stub,
    decreases run.entries_ahead(),
{
    match run.stage {
        Stage::AllocParameter => {
            if let Some(parameter) = run.arena.served(job.parameter_len()) {
                lemma_request_hands_out(run.arena, job.parameter_len());
                lemma_advance_is_careful(
                    Run {
                        stage: Stage::AllocResult { parameter },
                        arena: run.arena.after_alloc(job.parameter_len()),
                        ..run
                    },
                    job,
                    built,
                );
            }
        },
        Stage::AllocResult { parameter } => {
            if let Some(result) = run.arena.served(job.result_len) {
                lemma_request_hands_out(run.arena, job.result_len);
                lemma_advance_is_careful(
                    Run {
                        stage: Stage::AllocCode { parameter, result },
                        arena: run.arena.after_alloc(job.result_len),
                        ..run
                    },
                    job,
                    built,
                );
            }
        },
        Stage::AllocCode { .. } => {
            lemma_released_holds_nothing(run);
        },
        _ => {},
    }
}

/// Instructions are run only after they were written and the instruction
/// cache was flushed for them: a step asks for a thread only at the code of
/// the stub, with the argument cell of the stub as its parameter; and a stub
/// comes to be only in the step that follows the flush of its code.
pub proof fn lemma_runs_only_flushed_code(
    run: Run,
    job: JobView,
    reply: ReplyView,
    built: Option<Seq<u8>>,
)
    requires
        run.wf(job),
        run.expects(job, reply),
        built matches Some(code) ==> code.len() > 0,
    ensures
        run.next(job, reply, built).1 matches InvokeStepView::Next(
            RequestView::StartThread { entry, parameter },
        ) ==> run.stub matches Some(s) && entry == s.code.base && parameter == s.parameter.base,
        run.stub is None && run.next(job, reply, built).0.stub is Some ==> (
        run.stage matches Stage::FlushingCode { code, .. } && reply is Done && run.next(
            job,
            reply,
            built,
        ).0.stub.unwrap().code == code),
        forall|parameter: Allocation, result: Allocation, code: Allocation|
            run.stage == (Stage::WritingCode { parameter, result, code }) && reply is Done
                ==> run.next(job, reply, built) == (
                Run { stage: Stage::FlushingCode { parameter, result, code }, ..run },
                InvokeStepView::Next(RequestView::Flush { address: code.base, len: code.len }),
            ),
{
    if reply is Failed {
    } else if let Some(len) = run.growing {
        if let ReplyView::Reserved { base } = reply {
            lemma_growth_serves(run.arena, base, len, len);
            lemma_advance_is_careful(
                Run { growing: None, arena: run.arena.after_grow(base, len), ..run },
                job,
                built,
            );
        }
    } else if let Stage::FlushingCode { parameter, result, code } = run.stage {
        lemma_advance_is_careful(
            Run { stage: Stage::Attach, stub: Some(StubView { code, parameter, result }), ..run },
            job,
            built,
        );
    }
}

/// When a step ends the run, nothing that the run held for itself is handed
/// out any more: the attachment and the parts of a stub that did not come to
/// be have gone back to the allocator.
pub proof fn lemma_end_returns_what_was_held(
    run: Run,
    job: JobView,
    reply: ReplyView,
    built: Option<Seq<u8>>,
)
    requires
        run.wf(job),
        run.expects(job, reply),
        built matches Some(code) ==> code.len() > 0,
    ensures
        run.next(job, reply, built).1 is Done ==> forall|a: Allocation|
            holds(run, a) ==> !(#[trigger] run.next(job, reply, built).0.arena.is_live(a)),
{
    lemma_released_holds_nothing(run);
    if reply is Failed {
    } else if let Some(len) = run.growing {
        if let ReplyView::Reserved { base } = reply {
            lemma_growth_serves(run.arena, base, len, len);
            let grown = Run { growing: None, arena: run.arena.after_grow(base, len), ..run };
            lemma_advance_is_careful(grown, job, built);
            assert forall|a: Allocation| holds(run, a) implies holds(grown, a) by {}
        }
    } else if let Stage::FlushingCode { parameter, result, code } = run.stage {
        lemma_advance_is_careful(
            Run { stage: Stage::Attach, stub: Some(StubView { code, parameter, result }), ..run },
            job,
            built,
        );
    }
}

/// A lookup ends well only with an address or a procedure.
proof fn lemma_follow_resolves(
    state: State,
    job: JobView,
    wrap: Option<usize>,
    step: (Run, InvokeStepView),
)
    ensures
        state.follow(job, wrap, step).1 matches StepView::Done(Ok(outcome)) ==> outcome is Address
            || outcome is Procedure,
{
}

/// Carrying a plan out ends well only with an address or a procedure.
proof fn lemma_carry_out_resolves(state: State, data: HelpDataView, built: Option<Seq<u8>>)
    requires
        state.plan is Some,
    ensures
        state.carry_out(data, built).1 matches StepView::Done(Ok(outcome)) ==> outcome is Address
            || outcome is Procedure,
{
    if let Some(PlanView::Resolve { module, name, wrap }) = state.plan {
        let job = resolve_job(data, module, name);
        let step = start(job, state.arena, state.stub).advance(job, built);
        lemma_follow_resolves(state, job, wrap, step);
    }
}

/// Only the last step of an injection ends with a handle, and only the last
/// step of an ejection with nothing.
proof fn lemma_only_checks_end_well(state: State, reply: ReplyView, built: Option<Seq<u8>>)
    requires
        state.wf(),
        state.expects(reply),
        !(state.task is Locating),
        !(state.task is Listing),
    ensures
        state.next(reply, built).1 matches StepView::Done(Ok(outcome)) ==> outcome is Address
            || outcome is Procedure,
{
    match state.task {
        Task::Loading { .. } => {
            if let Some(d) = state.loaded(reply) {
                lemma_carry_out_resolves(state.with_data(d), d, built);
            }
        },
        Task::Growing { len } => {
            if let ReplyView::Reserved { base } = reply {
                lemma_carry_out_resolves(
                    State { arena: state.arena.after_grow(base, len), ..state },
                    state.data().unwrap(),
                    built,
                );
            }
        },
        Task::Resolving { wrap } => {
            let job = state.call.unwrap().job;
            lemma_follow_resolves(state, job, wrap, state.run().next(job, reply, built));
        },
        _ => {},
    }
}

/// An injection ends well only after the thread that ran `LoadLibraryW` has
/// returned something other than zero, and only with a handle whose low half
/// is what the thread returned.
pub proof fn lemma_injected_handle_matches_exit_code(
    state: State,
    reply: ReplyView,
    built: Option<Seq<u8>>,
)
    requires
        state.wf(),
        state.expects(reply),
    ensures
        state.next(reply, built).1 matches StepView::Done(Ok(OutcomeView::Injected(handle)))
            ==> state.task matches Task::Locating { exit_code } && exit_code != 0 && low32(handle)
            == exit_code,
{
    if !(state.task is Locating) && !(state.task is Listing) {
        lemma_only_checks_end_well(state, reply, built);
    }
}

/// An ejection ends well only after the target has listed its modules and
/// the module was not among them any more.
pub proof fn lemma_ejected_module_is_gone(state: State, reply: ReplyView, built: Option<Seq<u8>>)
    requires
        state.wf(),
        state.expects(reply),
    ensures
        state.next(reply, built).1 matches StepView::Done(Ok(OutcomeView::Ejected))
            ==> state.task matches Task::Listing { module } && reply matches ReplyView::Handles(
            handles,
        ) && !handles.contains(module),
{
    if !(state.task is Locating) && !(state.task is Listing) {
        lemma_only_checks_end_well(state, reply, built);
    }
}

/// Whether the injection in progress holds `a` as the copy of the path.
pub open spec fn holds_path(state: State, a: Allocation) -> bool {
    match state.task {
        Task::WritingPath { target } => a == target,
        Task::Injecting { target, .. } => a == target,
        _ => false,
    }
}

/// The copy of the path of a library goes back to the allocator as soon as
/// the injection has no more use for it: when the copy could not be written,
/// and when the thread that read it is over, however that thread ended.
pub proof fn lemma_path_goes_back(state: State, reply: ReplyView, built: Option<Seq<u8>>)
    requires
        state.wf(),
        state.expects(reply),
    ensures
        forall|target: Allocation|
            holds_path(state, target) && !(state.next(reply, built).0.task is Injecting) ==> !(
            #[trigger] state.next(reply, built).0.arena.is_live(target)),
{
    match state.task {
        Task::WritingPath { target } => {
            lemma_return_takes_back(state.arena, target);
        },
        Task::Injecting { target, .. } => {
            lemma_return_takes_back(state.arena, target);
        },
        _ => {},
    }
}

/// When a thread that ran `LoadLibraryW` or `FreeLibrary` returned zero, the
/// engine asks for the error code behind the failure: of the load of the
/// path that was to be injected, or of the unload of the module that was to
/// be ejected.
pub proof fn lemma_zero_exit_code_is_diagnosed(
    state: State,
    reply: ReplyView,
    built: Option<Seq<u8>>,
)
    requires
        state.wf(),
        state.expects(reply),
        match state.task {
            Task::Injecting { thread, .. } => thread.next(reply) == ThreadStepView::Done(Ok(0)),
            Task::Ejecting { thread, .. } => thread.next(reply) == ThreadStepView::Done(Ok(0)),
            _ => false,
        },
    ensures
        state.next(reply, built).0.task is Diagnosing,
        state.next(reply, built).1 == StepView::Next(
            match state.task {
                Task::Ejecting { module, .. } => RequestView::UnloadError { module },
                _ => RequestView::LoadError { path: state.plan.unwrap()->Inject_path },
            },
        ),
{
}

/// After a load or an unload has failed in the target, the operation ends
/// with `RemoteOperationFailed`, and the code that the error carries is the
/// code that the host reported for that failure. No other step of an
/// injection or an ejection ends with that error.
pub proof fn lemma_failed_operation_keeps_its_code(
    state: State,
    reply: ReplyView,
    built: Option<Seq<u8>>,
)
    requires
        state.wf(),
        state.expects(reply),
        state.task is WritingPath || state.task is Injecting || state.task is Locating
            || state.task is Ejecting || state.task is Listing || state.task is Diagnosing,
    ensures
        state.task is Diagnosing ==> (reply matches ReplyView::ErrorCode(code) ==> state.next(
            reply,
            built,
        ).1 == StepView::Done(Err(SyringeError::RemoteOperationFailed(code)))),
        forall|code: u32|
            state.next(reply, built).1 == StepView::Done(
                Err(SyringeError::RemoteOperationFailed(code)),
            ) ==> state.task is Diagnosing && reply == ReplyView::ErrorCode(code),
{
}

/// When a request fails because the target is gone, and no thread handle is
/// open that would have to be closed first, the operation ends at once and
/// says that the target is inaccessible.
pub proof fn lemma_gone_target_ends_the_operation(
    state: State,
    code: u32,
    built: Option<Seq<u8>>,
)
    requires
        state.wf(),
        !(state.task is Idle),
        !(state.task is Injecting),
        !(state.task is Ejecting),
        state.task is Resolving ==> !(state.call.unwrap().stage is Running),
    ensures
        state.next(ReplyView::Failed { code, target_alive: false }, built).1 == StepView::Done(
            Err(SyringeError::ProcessInaccessible),
        ),
{
}

/// A pointer cell that holds the address `x` is read as `x`, and a cell that
/// was set to zero and not written since is read as the null address.
pub proof fn lemma_pointer_cell_round_trip(x: u64)
    ensures
        address_in(spec_u64_to_le_bytes(x)) == x,
        address_in(zeros(POINTER_CELL_LEN)) == 0,
{
    lemma_auto_spec_u64_to_from_le_bytes();
    spec_u64_to_le_bytes_to_open(0);
    assert(spec_u64_to_le_bytes_open(0) =~= zeros(POINTER_CELL_LEN)) by {
        assert(0u64 & 0xff == 0 && (0u64 >> 8) & 0xff == 0 && (0u64 >> 16) & 0xff == 0 && (0u64
            >> 24) & 0xff == 0 && (0u64 >> 32) & 0xff == 0 && (0u64 >> 40) & 0xff == 0 && (0u64
            >> 48) & 0xff == 0 && (0u64 >> 56) & 0xff == 0) by (bit_vector);
    }
}

} // verus!
