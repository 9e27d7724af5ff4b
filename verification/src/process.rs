//! The token that stands for the target process.

use vstd::prelude::*;

verus! {

/// A reference to the target process: the handle that the host opened it
/// with, and whether the process runs 32-bit code.
///
/// The engine treats the handle as an opaque number that it hands back to the
/// host with every request.
#[derive(Debug, Clone, Copy, PartialEq, Eq, Structural)]
pub struct ProcessRef {
    handle: usize,
    x86: bool,
}

impl ProcessRef {
    /// Whether the target runs 32-bit code.
    pub closed spec fn spec_is_x86(self) -> bool {
        self.x86
    }

    /// The handle of the target.
    pub closed spec fn spec_handle(self) -> usize {
        self.handle
    }

    /// A reference to the process behind `handle`.
    pub fn new(handle: usize, is_x86: bool) -> (r: ProcessRef)
        ensures
            r.spec_handle() == handle,
            r.spec_is_x86() == is_x86,
    {
        ProcessRef { handle, x86: is_x86 }
    }

    /// The handle of the target.
    #[verifier::when_used_as_spec(spec_handle)]
    pub fn handle(self) -> (r: usize)
        ensures
            r == self.spec_handle(),
    {
        self.handle
    }

    /// Whether the target runs 32-bit code.
    #[verifier::when_used_as_spec(spec_is_x86)]
    pub fn is_x86(self) -> (r: bool)
        ensures
            r == self.spec_is_x86(),
    {
        self.x86
    }
}

/// A module of a process: the handle that the process knows it by, and the
/// process that it is loaded in.
#[derive(Debug, Clone, Copy, PartialEq, Eq, Structural)]
pub struct ProcessModule {
    handle: usize,
    process: ProcessRef,
}

impl ProcessModule {
    /// The handle of the module.
    pub closed spec fn spec_handle(self) -> usize {
        self.handle
    }

    /// The process that the module is loaded in.
    pub closed spec fn spec_process(self) -> ProcessRef {
        self.process
    }

    /// The module of `process` with the handle `handle`.
    pub fn new(handle: usize, process: ProcessRef) -> (r: ProcessModule)
        ensures
            r.spec_handle() == handle,
            r.spec_process() == process,
    {
        ProcessModule { handle, process }
    }

    /// The handle of the module.
    #[verifier::when_used_as_spec(spec_handle)]
    pub fn handle(self) -> (r: usize)
        ensures
            r == self.spec_handle(),
    {
        self.handle
    }

    /// The process that the module is loaded in.
    #[verifier::when_used_as_spec(spec_process)]
    pub fn process(self) -> (r: ProcessRef)
        ensures
            r == self.spec_process(),
    {
        self.process
    }
}

} // verus!
