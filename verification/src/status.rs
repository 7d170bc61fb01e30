//! Outcomes of process-control operations.

use vstd::prelude::*;

verus! {

/// The signal number that the kernel delivers when the traced child
/// executes the trap opcode of a software breakpoint (SIGTRAP).
pub const TRAP_SIGNAL: i32 = 5;

/// State of the traced child after a blocking wait.
#[derive(Clone, Copy, Debug, PartialEq, Eq, Structural)]
pub enum Status {
    /// The child stopped on a signal; carries the signal number and the
    /// instruction pointer it stopped at.
    Stopped(i32, u64),
    /// The child exited normally; carries the exit code.
    Exited(i32),
    /// The child was terminated by a signal; carries the signal number.
    Signaled(i32),
}

/// A state transition reported by the kernel's wait call, reduced to the
/// plain values the debugger reads from it.
#[derive(Clone, Copy, Debug, PartialEq, Eq, Structural)]
pub enum WaitEvent {
    /// Normal exit with the given code.
    Exited(i32),
    /// Killed by the given signal.
    Signaled(i32),
    /// Stopped by the given signal.
    Stopped(i32),
    /// A transition the debugger has no use for (trace events, a resumed
    /// child, no change at all).
    Other,
}

/// Failure of a kernel-level trace operation.
#[derive(Clone, Copy, Debug, PartialEq, Eq, Structural)]
pub enum TraceError {
    /// The kernel refused the operation; carries the errno value.
    Kernel(i32),
    /// The kernel reported a state or a value the debugger cannot use.
    Unexpected,
}

impl Status {
    /// Interprets a wait event as the child's new status.  `rip` is the
    /// instruction pointer read from the stopped child's registers; it is
    /// only meaningful, and only used, for a stop.
    pub fn from_event(event: WaitEvent, rip: u64) -> (r: Option<Status>)
        ensures
            r == match event {
                WaitEvent::Exited(code) => Some(Status::Exited(code)),
                WaitEvent::Signaled(sig) => Some(Status::Signaled(sig)),
                WaitEvent::Stopped(sig) => Some(Status::Stopped(sig, rip)),
                WaitEvent::Other => None::<Status>,
            },
    {
        match event {
            WaitEvent::Exited(code) => Some(Status::Exited(code)),
            WaitEvent::Signaled(sig) => Some(Status::Signaled(sig)),
            WaitEvent::Stopped(sig) => Some(Status::Stopped(sig, rip)),
            WaitEvent::Other => None,
        }
    }
}

} // verus!
