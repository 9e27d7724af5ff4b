//! Running one thread in the target, from its creation to the release of its
//! handle.

use vstd::pervasive::unreached;
use vstd::prelude::*;
use crate::error::SyringeError;
use crate::protocol::{
    failure, failure_of, Reply, ReplyView, Request, RequestView, STILL_ACTIVE, WAIT_FAILED,
};

verus! {

/// How far the run of a remote thread has come.
///
/// Each stage has one request outstanding. From the moment the thread exists
/// the run holds its handle, and it ends only after it has asked the host to
/// close it.
#[derive(Debug, Clone, Copy)]
pub enum RemoteThread {
    /// The thread is being created.
    Starting,
    /// The thread runs, and the host waits for it to end.
    Waiting { thread: usize },
    /// The thread has ended, and its exit code is being queried.
    Querying { thread: usize },
    /// The handle is being closed; `outcome` is what the run ends with.
    Closing { thread: usize, outcome: Result<u32, SyringeError> },
}

/// What a run comes to after a reply.
#[derive(Debug)]
pub enum ThreadStep {
    /// The run goes on: its new stage, and the request to perform next.
    Next(RemoteThread, Request),
    /// The run is over: the exit code of the thread, or why there is none.
    Done(Result<u32, SyringeError>),
}

/// The mathematical value of a [`ThreadStep`].
pub ghost enum ThreadStepView {
    Next(RemoteThread, RequestView),
    Done(Result<u32, SyringeError>),
}

impl View for ThreadStep {
    type V = ThreadStepView;

    open spec fn view(&self) -> ThreadStepView {
        match *self {
            ThreadStep::Next(stage, request) => ThreadStepView::Next(stage, request@),
            ThreadStep::Done(outcome) => ThreadStepView::Done(outcome),
        }
    }
}

impl RemoteThread {
    /// The handle that the run holds, if the thread exists.
    pub open spec fn handle(self) -> Option<usize> {
        match self {
            RemoteThread::Starting => None,
            RemoteThread::Waiting { thread } => Some(thread),
            RemoteThread::Querying { thread } => Some(thread),
            RemoteThread::Closing { thread, .. } => Some(thread),
        }
    }

    /// Whether the outcome that the run keeps while the handle is closed is
    /// the exit code of the thread or a failure of the host: a run never
    /// judges what the thread did.
    pub open spec fn impartial(self) -> bool {
        self matches RemoteThread::Closing { outcome: Err(e), .. } ==> e is RemoteIo || e
            is ProcessInaccessible
    }

    /// Whether `reply` answers the request that is outstanding in this stage.
    ///
    /// An exit code that says the thread is still running does not answer the
    /// query for it: the wait before it has returned.
    pub open spec fn expects(self, reply: ReplyView) -> bool {
        match (self, reply) {
            (_, ReplyView::Failed { .. }) => true,
            (RemoteThread::Starting, ReplyView::Thread { .. }) => true,
            (RemoteThread::Waiting { .. }, ReplyView::Waited { .. }) => true,
            (RemoteThread::Querying { .. }, ReplyView::ExitCode { queried, code, .. }) => queried
                ==> code != STILL_ACTIVE,
            (RemoteThread::Closing { .. }, ReplyView::Done) => true,
            _ => false,
        }
    }

    /// What the run comes to when `reply`, which answers the outstanding
    /// request, arrives.
    ///
    /// A thread that could not be created ends the run at once. Any later
    /// failure is kept as the outcome while the handle is closed. A failure to
    /// close the handle does not change the outcome.
    pub open spec fn next(self, reply: ReplyView) -> ThreadStepView {
        match self {
            RemoteThread::Starting => match reply {
                ReplyView::Thread { handle, last_error } => if handle == 0 {
                    ThreadStepView::Done(Err(SyringeError::RemoteIo(last_error)))
                } else {
                    ThreadStepView::Next(
                        RemoteThread::Waiting { thread: handle },
                        RequestView::AwaitThread { thread: handle },
                    )
                },
                ReplyView::Failed { code, target_alive } => ThreadStepView::Done(
                    Err(failure(code, target_alive)),
                ),
                _ => arbitrary(),
            },
            RemoteThread::Waiting { thread } => match reply {
                ReplyView::Waited { reason, last_error } => if reason == WAIT_FAILED {
                    closing(thread, Err(SyringeError::RemoteIo(last_error)))
                } else {
                    ThreadStepView::Next(
                        RemoteThread::Querying { thread },
                        RequestView::QueryExitCode { thread },
                    )
                },
                ReplyView::Failed { code, target_alive } => closing(
                    thread,
                    Err(failure(code, target_alive)),
                ),
                _ => arbitrary(),
            },
            RemoteThread::Querying { thread } => match reply {
                ReplyView::ExitCode { queried, code, last_error } => if queried {
                    closing(thread, Ok(code))
                } else {
                    closing(thread, Err(SyringeError::RemoteIo(last_error)))
                },
                ReplyView::Failed { code, target_alive } => closing(
                    thread,
                    Err(failure(code, target_alive)),
                ),
                _ => arbitrary(),
            },
            RemoteThread::Closing { outcome, .. } => ThreadStepView::Done(outcome),
        }
    }

    /// Begins the run of a thread at `entry` with the argument `parameter`.
    pub fn start(entry: usize, parameter: usize) -> (r: (RemoteThread, Request))
        ensures
            r.0 == RemoteThread::Starting,
            r.1@ == (RequestView::StartThread { entry, parameter }),
    {
        (RemoteThread::Starting, Request::StartThread { entry, parameter })
    }

    /// Whether `reply` answers the request that is outstanding in this stage.
    pub fn accepts(&self, reply: &Reply) -> (r: bool)
        ensures
            r == self.expects(reply@),
    {
        match (self, reply) {
            (_, Reply::Failed { .. }) => true,
            (RemoteThread::Starting, Reply::Thread { .. }) => true,
            (RemoteThread::Waiting { .. }, Reply::Waited { .. }) => true,
            (RemoteThread::Querying { .. }, Reply::ExitCode { queried, code, .. }) => !*queried
                || *code != STILL_ACTIVE,
            (RemoteThread::Closing { .. }, Reply::Done) => true,
            _ => false,
        }
    }

    /// Takes the run one step further with the reply to its outstanding
    /// request.
    pub fn resume(self, reply: &Reply) -> (r: ThreadStep)
        requires
            self.expects(reply@),
        ensures
            r@ == self.next(reply@),
    {
        match self {
            RemoteThread::Starting => match reply {
                Reply::Thread { handle, last_error } => if *handle == 0 {
                    ThreadStep::Done(Err(SyringeError::RemoteIo(*last_error)))
                } else {
                    ThreadStep::Next(
                        RemoteThread::Waiting { thread: *handle },
                        Request::AwaitThread { thread: *handle },
                    )
                },
                Reply::Failed { code, target_alive } => ThreadStep::Done(
                    Err(failure_of(*code, *target_alive)),
                ),
                _ => unreached(),
            },
            RemoteThread::Waiting { thread } => match reply {
                Reply::Waited { reason, last_error } => if *reason == WAIT_FAILED {
                    close(thread, Err(SyringeError::RemoteIo(*last_error)))
                } else {
                    ThreadStep::Next(
                        RemoteThread::Querying { thread },
                        Request::QueryExitCode { thread },
                    )
                },
                Reply::Failed { code, target_alive } => close(
                    thread,
                    Err(failure_of(*code, *target_alive)),
                ),
                _ => unreached(),
            },
            RemoteThread::Querying { thread } => match reply {
                Reply::ExitCode { queried, code, last_error } => if *queried {
                    close(thread, Ok(*code))
                } else {
                    close(thread, Err(SyringeError::RemoteIo(*last_error)))
                },
                Reply::Failed { code, target_alive } => close(
                    thread,
                    Err(failure_of(*code, *target_alive)),
                ),
                _ => unreached(),
            },
            RemoteThread::Closing { outcome, .. } => ThreadStep::Done(outcome),
        }
    }
}

/// The step that asks for the handle to be closed and keeps `outcome` for
/// the end of the run.
pub open spec fn closing(thread: usize, outcome: Result<u32, SyringeError>) -> ThreadStepView {
    ThreadStepView::Next(
        RemoteThread::Closing { thread, outcome },
        RequestView::CloseThread { thread },
    )
}

fn close(thread: usize, outcome: Result<u32, SyringeError>) -> (r: ThreadStep)
    ensures
        r@ == closing(thread, outcome),
{
    ThreadStep::Next(RemoteThread::Closing { thread, outcome }, Request::CloseThread { thread })
}

/// The requests that a run in `stage` makes while it is fed `replies` one
/// after the other, until it is over or the replies run out.
pub open spec fn requests(stage: RemoteThread, replies: Seq<ReplyView>) -> Seq<RequestView>
    decreases replies.len(),
{
    if replies.len() == 0 {
        Seq::empty()
    } else {
        match stage.next(replies[0]) {
            ThreadStepView::Next(then, request) => seq![request] + requests(
                then,
                replies.drop_first(),
            ),
            ThreadStepView::Done(_) => Seq::empty(),
        }
    }
}

/// Whether each of `replies` answers the request that a run in `stage` has
/// outstanding when it arrives, and the run is over with the last of them,
/// not before.
pub open spec fn completes(stage: RemoteThread, replies: Seq<ReplyView>) -> bool
    decreases replies.len(),
{
    if replies.len() == 0 {
        false
    } else {
        stage.expects(replies[0]) && match stage.next(replies[0]) {
            ThreadStepView::Next(then, _) => completes(then, replies.drop_first()),
            ThreadStepView::Done(_) => replies.len() == 1,
        }
    }
}

/// The outcome of a run in `stage` that `replies` complete.
pub open spec fn outcome(stage: RemoteThread, replies: Seq<ReplyView>) -> Result<u32, SyringeError>
    decreases replies.len(),
{
    if replies.len() == 0 {
        arbitrary()
    } else {
        match stage.next(replies[0]) {
            ThreadStepView::Next(then, _) => outcome(then, replies.drop_first()),
            ThreadStepView::Done(result) => result,
        }
    }
}

/// The handles that the requests of `trace` close, in order.
pub open spec fn closed_handles(trace: Seq<RequestView>) -> Seq<usize>
    decreases trace.len(),
{
    if trace.len() == 0 {
        Seq::empty()
    } else {
        match trace[0] {
            RequestView::CloseThread { thread } => seq![thread] + closed_handles(
                trace.drop_first(),
            ),
            _ => closed_handles(trace.drop_first()),
        }
    }
}

/// A run that holds a handle asks for it to be closed once, as its last
/// request, and for no other.
proof fn lemma_holder_closes_once(stage: RemoteThread, replies: Seq<ReplyView>)
    requires
        stage is Waiting || stage is Querying,
        completes(stage, replies),
    ensures
        closed_handles(requests(stage, replies)) == seq![stage.handle().unwrap()],
    decreases replies.len(),
{
    reveal_with_fuel(completes, 3);
    reveal_with_fuel(requests, 3);
    let thread = stage.handle().unwrap();
    let rest = replies.drop_first();
    match stage.next(replies[0]) {
        ThreadStepView::Next(then, request) => {
            let tail = requests(then, rest);
            let trace = seq![request] + tail;
            assert(trace.drop_first() =~= tail);
            assert(trace[0] == request);
            if then is Closing {
                assert(request == (RequestView::CloseThread { thread }));
                assert(rest.len() > 0);
                assert(then.next(rest[0]) is Done);
                assert(tail =~= Seq::<RequestView>::empty());
                assert(closed_handles(trace) =~= seq![thread] + closed_handles(tail));
                assert(closed_handles(trace) =~= seq![thread]);
            } else {
                lemma_holder_closes_once(then, rest);
                assert(!(request is CloseThread));
                assert(closed_handles(trace) == closed_handles(tail));
            }
        },
        ThreadStepView::Done(_) => {},
    }
}

/// Every run of a remote thread that comes to its end has asked for the
/// handle of the thread to be closed exactly once, and when no thread was
/// created it has asked for nothing to be closed.
pub proof fn lemma_handle_closed_exactly_once(replies: Seq<ReplyView>)
    requires
        completes(RemoteThread::Starting, replies),
    ensures
        closed_handles(requests(RemoteThread::Starting, replies)) == match replies[0] {
            ReplyView::Thread { handle, .. } => if handle != 0 {
                seq![handle]
            } else {
                Seq::<usize>::empty()
            },
            _ => Seq::<usize>::empty(),
        },
{
    let rest = replies.drop_first();
    match RemoteThread::Starting.next(replies[0]) {
        ThreadStepView::Next(then, request) => {
            let tail = requests(then, rest);
            let trace = seq![request] + tail;
            assert(trace.drop_first() =~= tail);
            assert(trace[0] == request);
            lemma_holder_closes_once(then, rest);
            assert(closed_handles(trace) == closed_handles(tail));
        },
        ThreadStepView::Done(_) => {
            assert(requests(RemoteThread::Starting, replies) =~= Seq::<RequestView>::empty());
        },
    }
}

} // verus!
