use dll_syringe::error::SyringeError;
use dll_syringe::protocol::{failure_of, Reply, Request, STILL_ACTIVE, WAIT_FAILED};
use dll_syringe::remote_thread::{RemoteThread, ThreadStep};

fn drive(replies: Vec<Reply>) -> (Vec<Request>, Result<u32, SyringeError>) {
    let (mut thread, first) = RemoteThread::start(0x1000, 0x2000);
    let mut requests = vec![first];
    for reply in replies {
        assert!(thread.accepts(&reply));
        match thread.resume(&reply) {
            ThreadStep::Next(then, request) => {
                thread = then;
                requests.push(request);
            }
            ThreadStep::Done(outcome) => return (requests, outcome),
        }
    }
    panic!("the run did not come to its end");
}

fn closes(requests: &[Request]) -> Vec<usize> {
    requests
        .iter()
        .filter_map(|r| match r {
            Request::CloseThread { thread } => Some(*thread),
            _ => None,
        })
        .collect()
}

#[test]
fn thread_that_runs_to_its_end_yields_its_exit_code() {
    let (requests, outcome) = drive(vec![
        Reply::Thread { handle: 0x44, last_error: 0 },
        Reply::Waited { reason: 0, last_error: 0 },
        Reply::ExitCode { queried: true, code: 7, last_error: 0 },
        Reply::Done,
    ]);
    assert_eq!(outcome, Ok(7));
    assert_eq!(requests.len(), 4);
    assert!(matches!(requests[0], Request::StartThread { entry: 0x1000, parameter: 0x2000 }));
    assert!(matches!(requests[1], Request::AwaitThread { thread: 0x44 }));
    assert!(matches!(requests[2], Request::QueryExitCode { thread: 0x44 }));
    assert!(matches!(requests[3], Request::CloseThread { thread: 0x44 }));
}

#[test]
fn null_handle_fails_with_the_last_error() {
    let (requests, outcome) = drive(vec![Reply::Thread { handle: 0, last_error: 5 }]);
    assert_eq!(outcome, Err(SyringeError::RemoteIo(5)));
    assert!(closes(&requests).is_empty());
}

#[test]
fn failed_wait_closes_the_handle_and_fails() {
    let (requests, outcome) = drive(vec![
        Reply::Thread { handle: 0x44, last_error: 0 },
        Reply::Waited { reason: WAIT_FAILED, last_error: 6 },
        Reply::Done,
    ]);
    assert_eq!(outcome, Err(SyringeError::RemoteIo(6)));
    assert_eq!(closes(&requests), vec![0x44]);
}

#[test]
fn failed_query_closes_the_handle_and_fails() {
    let (requests, outcome) = drive(vec![
        Reply::Thread { handle: 0x44, last_error: 0 },
        Reply::Waited { reason: 0, last_error: 0 },
        Reply::ExitCode { queried: false, code: 0, last_error: 31 },
        Reply::Done,
    ]);
    assert_eq!(outcome, Err(SyringeError::RemoteIo(31)));
    assert_eq!(closes(&requests), vec![0x44]);
}

#[test]
fn failure_to_close_does_not_change_the_outcome() {
    let (requests, outcome) = drive(vec![
        Reply::Thread { handle: 0x44, last_error: 0 },
        Reply::Waited { reason: 0, last_error: 0 },
        Reply::ExitCode { queried: true, code: 0xDEAD_BEEF, last_error: 0 },
        Reply::Failed { code: 6, target_alive: true },
    ]);
    assert_eq!(outcome, Ok(0xDEAD_BEEF));
    assert_eq!(closes(&requests), vec![0x44]);
}

#[test]
fn every_path_closes_the_handle_exactly_once() {
    let failed = || Reply::Failed { code: 1, target_alive: true };
    let created = || Reply::Thread { handle: 0x90, last_error: 0 };
    let waited = || Reply::Waited { reason: 0, last_error: 0 };
    let paths: Vec<Vec<Reply>> = vec![
        vec![created(), failed(), Reply::Done],
        vec![created(), waited(), failed(), Reply::Done],
        vec![created(), Reply::Waited { reason: WAIT_FAILED, last_error: 2 }, failed()],
        vec![
            created(),
            waited(),
            Reply::ExitCode { queried: true, code: 1, last_error: 0 },
            Reply::Done,
        ],
    ];
    for path in paths {
        let (requests, _) = drive(path);
        assert_eq!(closes(&requests), vec![0x90]);
        assert!(matches!(requests.last(), Some(Request::CloseThread { thread: 0x90 })));
    }
    let (requests, outcome) = drive(vec![Reply::Failed { code: 8, target_alive: false }]);
    assert_eq!(outcome, Err(SyringeError::ProcessInaccessible));
    assert!(closes(&requests).is_empty());
}

#[test]
fn replies_out_of_turn_are_not_accepted() {
    let (thread, _) = RemoteThread::start(1, 2);
    assert!(!thread.accepts(&Reply::Done));
    assert!(!thread.accepts(&Reply::Waited { reason: 0, last_error: 0 }));
    assert!(thread.accepts(&Reply::Thread { handle: 3, last_error: 0 }));
    let waiting = RemoteThread::Waiting { thread: 3 };
    assert!(!waiting.accepts(&Reply::Thread { handle: 3, last_error: 0 }));
    let querying = RemoteThread::Querying { thread: 3 };
    assert!(!querying.accepts(&Reply::ExitCode {
        queried: true,
        code: STILL_ACTIVE,
        last_error: 0
    }));
    assert!(querying.accepts(&Reply::ExitCode {
        queried: false,
        code: STILL_ACTIVE,
        last_error: 0
    }));
    assert!(querying.accepts(&Reply::ExitCode { queried: true, code: 258, last_error: 0 }));
}

#[test]
fn failure_names_the_target_that_is_gone() {
    assert_eq!(failure_of(5, true), SyringeError::RemoteIo(5));
    assert_eq!(failure_of(5, false), SyringeError::ProcessInaccessible);
    assert_eq!(STILL_ACTIVE, 259);
    assert_eq!(WAIT_FAILED, 0xFFFF_FFFF);
}
