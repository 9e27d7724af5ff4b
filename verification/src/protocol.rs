//! What the engine asks of its host, and what the host answers.
//!
//! The host owns the handle to the target process and is the only one to call
//! the operating system. It performs one [`Request`] at a time and hands the
//! outcome back as a [`Reply`].

use vstd::prelude::*;
use crate::error::SyringeError;

verus! {

/// The value that `WaitForSingleObject` returns when the wait itself failed.
pub const WAIT_FAILED: u32 = 0xFFFF_FFFF;

/// The exit code that a thread reports while it is still running.
pub const STILL_ACTIVE: u32 = 259;

/// How long the host pauses between two looks for `kernel32.dll` in a target
/// that is still starting, in milliseconds.
pub const POLL_INTERVAL_MS: u32 = 10;

/// How long the engine keeps looking for `kernel32.dll` in a target that is
/// still starting, in milliseconds of pauses.
pub const POLL_BUDGET_MS: u32 = 1000;

/// One action against the operating system.
#[derive(Debug)]
pub enum Request {
    /// Reserve and commit `len` bytes in the target, readable, writable and
    /// executable. Answered by [`Reply::Reserved`].
    Reserve { len: usize },
    /// Give the region that was reserved at `base` back to the target.
    /// Answered by [`Reply::Done`].
    Release { base: usize },
    /// Copy `bytes` to `address` in the target. Answered by [`Reply::Done`].
    Write { address: usize, bytes: Vec<u8> },
    /// Copy `len` bytes from `address` in the target. Answered by
    /// [`Reply::Bytes`].
    Read { address: usize, len: usize },
    /// Flush the instruction cache for the `len` bytes at `address` in the
    /// target. Answered by [`Reply::Done`].
    Flush { address: usize, len: usize },
    /// Start a thread in the target at `entry`, with `parameter` as its only
    /// argument. Answered by [`Reply::Thread`].
    StartThread { entry: usize, parameter: usize },
    /// Wait, without a time limit, until `thread` has ended. Answered by
    /// [`Reply::Waited`].
    AwaitThread { thread: usize },
    /// Query the exit code of `thread`. Answered by [`Reply::ExitCode`].
    QueryExitCode { thread: usize },
    /// Close the handle `thread`. Answered by [`Reply::Done`].
    CloseThread { thread: usize },
    /// Look up the module of the target that was loaded from `path`, which is
    /// given in UTF-16 with its nul terminator. Answered by [`Reply::Module`].
    FindModuleByPath { path: Vec<u16> },
    /// Look up `kernel32.dll` among the modules of the target. Answered by
    /// [`Reply::Module`].
    FindKernel32,
    /// Let `millis` milliseconds pass. Answered by [`Reply::Done`].
    Pause { millis: u32 },
    /// List the handles of all modules of the target. Answered by
    /// [`Reply::Handles`].
    ModuleHandles,
    /// Find out why the target could not load the library at `path`, which is
    /// given in UTF-16 with its nul terminator: the error code that loading it
    /// fails with. Answered by [`Reply::ErrorCode`].
    LoadError { path: Vec<u16> },
    /// Find out why the target could not unload the module `module`: the
    /// error code that unloading it fails with. Answered by
    /// [`Reply::ErrorCode`].
    UnloadError { module: usize },
    /// Look up `kernel32.dll` and three of its exports in the host's own
    /// process. Answered by [`Reply::Kernel32`].
    LocalKernel32,
    /// Read the file `kernel32.dll` from the directory of 32-bit system
    /// libraries. Answered by [`Reply::Bytes`].
    ReadWow64Kernel32,
}

/// The mathematical value of a [`Request`].
pub ghost enum RequestView {
    Reserve { len: usize },
    Release { base: usize },
    Write { address: usize, bytes: Seq<u8> },
    Read { address: usize, len: usize },
    Flush { address: usize, len: usize },
    StartThread { entry: usize, parameter: usize },
    AwaitThread { thread: usize },
    QueryExitCode { thread: usize },
    CloseThread { thread: usize },
    FindModuleByPath { path: Seq<u16> },
    FindKernel32,
    Pause { millis: u32 },
    ModuleHandles,
    LoadError { path: Seq<u16> },
    UnloadError { module: usize },
    LocalKernel32,
    ReadWow64Kernel32,
}

impl View for Request {
    type V = RequestView;

    open spec fn view(&self) -> RequestView {
        match *self {
            Request::Reserve { len } => RequestView::Reserve { len },
            Request::Release { base } => RequestView::Release { base },
            Request::Write { address, bytes } => RequestView::Write { address, bytes: bytes@ },
            Request::Read { address, len } => RequestView::Read { address, len },
            Request::Flush { address, len } => RequestView::Flush { address, len },
            Request::StartThread { entry, parameter } => RequestView::StartThread {
                entry,
                parameter,
            },
            Request::AwaitThread { thread } => RequestView::AwaitThread { thread },
            Request::QueryExitCode { thread } => RequestView::QueryExitCode { thread },
            Request::CloseThread { thread } => RequestView::CloseThread { thread },
            Request::FindModuleByPath { path } => RequestView::FindModuleByPath { path: path@ },
            Request::FindKernel32 => RequestView::FindKernel32,
            Request::Pause { millis } => RequestView::Pause { millis },
            Request::ModuleHandles => RequestView::ModuleHandles,
            Request::LoadError { path } => RequestView::LoadError { path: path@ },
            Request::UnloadError { module } => RequestView::UnloadError { module },
            Request::LocalKernel32 => RequestView::LocalKernel32,
            Request::ReadWow64Kernel32 => RequestView::ReadWow64Kernel32,
        }
    }
}

/// The outcome of one [`Request`].
#[derive(Debug)]
pub enum Reply {
    /// The operating system refused the request. `code` is its last-error
    /// code; `target_alive` tells whether the target was still running.
    Failed { code: u32, target_alive: bool },
    /// The request was carried out and has nothing to report.
    Done,
    /// The address of the region that was reserved.
    Reserved { base: usize },
    /// The bytes that were read.
    Bytes(Vec<u8>),
    /// What creating the thread returned: its handle, null when the thread
    /// could not be created, and the last-error code at that moment.
    Thread { handle: usize, last_error: u32 },
    /// What the wait returned, and the last-error code at that moment.
    Waited { reason: u32, last_error: u32 },
    /// Whether the exit code could be queried, the exit code, and the
    /// last-error code at that moment.
    ExitCode { queried: bool, code: u32, last_error: u32 },
    /// The handle of the module that was looked up, if the target has it.
    Module(Option<usize>),
    /// The handles of all modules of the target.
    Handles(Vec<usize>),
    /// The error code behind a failure in the target.
    ErrorCode(u32),
    /// The address of the host's own `kernel32.dll`, and in it those of
    /// `LoadLibraryW`, `FreeLibrary` and `GetProcAddress`.
    Kernel32 { base: usize, load_library: usize, free_library: usize, get_proc_address: usize },
}

/// The mathematical value of a [`Reply`].
pub ghost enum ReplyView {
    Failed { code: u32, target_alive: bool },
    Done,
    Reserved { base: usize },
    Bytes(Seq<u8>),
    Thread { handle: usize, last_error: u32 },
    Waited { reason: u32, last_error: u32 },
    ExitCode { queried: bool, code: u32, last_error: u32 },
    Module(Option<usize>),
    Handles(Seq<usize>),
    ErrorCode(u32),
    Kernel32 { base: usize, load_library: usize, free_library: usize, get_proc_address: usize },
}

impl View for Reply {
    type V = ReplyView;

    open spec fn view(&self) -> ReplyView {
        match *self {
            Reply::Failed { code, target_alive } => ReplyView::Failed { code, target_alive },
            Reply::Done => ReplyView::Done,
            Reply::Reserved { base } => ReplyView::Reserved { base },
            Reply::Bytes(bytes) => ReplyView::Bytes(bytes@),
            Reply::Thread { handle, last_error } => ReplyView::Thread { handle, last_error },
            Reply::Waited { reason, last_error } => ReplyView::Waited { reason, last_error },
            Reply::ExitCode { queried, code, last_error } => ReplyView::ExitCode {
                queried,
                code,
                last_error,
            },
            Reply::Module(module) => ReplyView::Module(module),
            Reply::Handles(handles) => ReplyView::Handles(handles@),
            Reply::ErrorCode(code) => ReplyView::ErrorCode(code),
            Reply::Kernel32 { base, load_library, free_library, get_proc_address } => {
                ReplyView::Kernel32 { base, load_library, free_library, get_proc_address }
            },
        }
    }
}

/// The error that a refused request ends an operation with: the target is
/// inaccessible when it no longer runs, and the request failed otherwise.
pub open spec fn failure(code: u32, target_alive: bool) -> SyringeError {
    if target_alive {
        SyringeError::RemoteIo(code)
    } else {
        SyringeError::ProcessInaccessible
    }
}

/// Computes [`failure`].
pub fn failure_of(code: u32, target_alive: bool) -> (e: SyringeError)
    ensures
        e == failure(code, target_alive),
{
    if target_alive {
        SyringeError::RemoteIo(code)
    } else {
        SyringeError::ProcessInaccessible
    }
}

} // verus!
