//! A host-agnostic engine for loading libraries into another process and
//! calling functions there.
//!
//! The engine never touches the operating system itself. Every operation is a
//! small state machine: it hands the host a [`Request`](protocol::Request) to
//! perform against the target process and is resumed with the
//! [`Reply`](protocol::Reply). All book-keeping, encoding and decision making
//! happens here.

pub mod assembler;
pub mod error;
pub mod inject_help;
pub mod invocation;
pub mod laws;
pub mod process;
pub mod process_memory;
pub mod protocol;
pub mod remote_procedure;
pub mod remote_thread;
pub mod shellcode;
pub mod state;
pub mod stub;
pub mod syringe;
pub mod wide;

pub use crate::error::SyringeError;
pub use crate::process::{ProcessModule, ProcessRef};
pub use crate::remote_procedure::RemoteProcedure;
pub use crate::syringe::{Outcome, Step, Syringe};
