//! The error kinds an operation of the engine can end with.

use vstd::prelude::*;

verus! {

/// Why an operation against the target process failed.
#[derive(Debug, Clone, Copy, PartialEq, Eq, Structural)]
pub enum SyringeError {
    /// An operating-system call against the target failed; the payload is the
    /// last-error code the host observed.
    RemoteIo(u32),
    /// The remote thread ran to completion, but its exit code says that the
    /// operation it performed failed; the payload is the error code that the
    /// host found behind the failure.
    RemoteOperationFailed(u32),
    /// The target has terminated, or the handles to it are no longer valid.
    ProcessInaccessible,
    /// The combination of host and target bitness is not supported.
    UnsupportedTarget,
    /// The assembler rejected a trampoline, or the trampoline it produced
    /// depends on where it is placed.
    StubAssembly,
    /// The payload path cannot be encoded as a nul-terminated wide string.
    PathEncoding,
    /// The 32-bit `kernel32.dll` image could not be parsed, or lacks a
    /// required export.
    PeParse,
}

impl SyringeError {
    /// The operating-system error code behind the error, if it has one.
    pub open spec fn os_code(self) -> Option<u32> {
        match self {
            SyringeError::RemoteIo(code) => Some(code),
            SyringeError::RemoteOperationFailed(code) => Some(code),
            _ => None,
        }
    }

    /// The operating-system error code behind the error, if it has one.
    pub fn raw_os_error(&self) -> (r: Option<u32>)
        ensures
            r == self.os_code(),
    {
        match self {
            SyringeError::RemoteIo(code) => Some(*code),
            SyringeError::RemoteOperationFailed(code) => Some(*code),
            _ => None,
        }
    }
}

} // verus!
