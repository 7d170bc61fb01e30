//! The trusted boundary to the kernel's tracing interface.
//!
//! Every blocking or memory-touching call into the kernel goes through one
//! of the wrappers here; each names the `nix` function it relies on.  What
//! a call reports depends on the state of the traced child, so the wrappers
//! promise nothing about the values that come back: the verified callers
//! state what holds of every outcome.

use vstd::prelude::*;
use crate::status::WaitEvent;

verus! {

/// The kernel's register snapshot of a stopped x86-64 child.
#[verifier::external_type_specification]
#[verifier::external_body]
pub struct ExUserRegs(nix::libc::user_regs_struct);

/// Relies on nix::sys::wait::waitpid: blocks until the child with the
/// given pid changes state, and says which transition happened.  Errors
/// carry the errno value.
#[verifier::external_body]
pub(crate) fn wait_child(pid: i32) -> (r: Result<WaitEvent, i32>) {
    match nix::sys::wait::waitpid(nix::unistd::Pid::from_raw(pid), None) {
        Ok(nix::sys::wait::WaitStatus::Exited(_, code)) => Ok(WaitEvent::Exited(code)),
        Ok(nix::sys::wait::WaitStatus::Signaled(_, sig, _)) => Ok(WaitEvent::Signaled(sig as i32)),
        Ok(nix::sys::wait::WaitStatus::Stopped(_, sig)) => Ok(WaitEvent::Stopped(sig as i32)),
        Ok(_) => Ok(WaitEvent::Other),
        Err(e) => Err(e as i32),
    }
}

/// Relies on nix::sys::ptrace::read: reads the word of the stopped child's
/// memory at `addr` (PTRACE_PEEKDATA).
#[verifier::external_body]
pub(crate) fn peek_word(pid: i32, addr: usize) -> (r: Result<u64, i32>) {
    match nix::sys::ptrace::read(
        nix::unistd::Pid::from_raw(pid),
        addr as nix::sys::ptrace::AddressType,
    ) {
        Ok(w) => Ok(w as u64),
        Err(e) => Err(e as i32),
    }
}

/// Relies on nix::sys::ptrace::write: writes one word into the stopped
/// child's memory at `addr` (PTRACE_POKEDATA).
#[verifier::external_body]
pub(crate) fn poke_word(pid: i32, addr: usize, word: u64) -> (r: Result<(), i32>) {
    match nix::sys::ptrace::write(
        nix::unistd::Pid::from_raw(pid),
        addr as nix::sys::ptrace::AddressType,
        word as nix::libc::c_long,
    ) {
        Ok(()) => Ok(()),
        Err(e) => Err(e as i32),
    }
}

/// Relies on nix::sys::ptrace::getregs: snapshots the stopped child's
/// registers.  Hands back the instruction pointer and the frame pointer
/// beside the full snapshot, which `set_regs_rip` takes back unchanged.
#[verifier::external_body]
pub(crate) fn get_regs(pid: i32) -> (r: Result<(u64, u64, nix::libc::user_regs_struct), i32>) {
    match nix::sys::ptrace::getregs(nix::unistd::Pid::from_raw(pid)) {
        Ok(regs) => Ok((regs.rip, regs.rbp, regs)),
        Err(e) => Err(e as i32),
    }
}

/// Relies on nix::sys::ptrace::setregs: writes a register snapshot back
/// into the stopped child, with the instruction pointer set to `rip`.
#[verifier::external_body]
pub(crate) fn set_regs_rip(
    pid: i32,
    regs: nix::libc::user_regs_struct,
    rip: u64,
) -> (r: Result<(), i32>) {
    let mut updated = regs;
    updated.rip = rip;
    match nix::sys::ptrace::setregs(nix::unistd::Pid::from_raw(pid), updated) {
        Ok(()) => Ok(()),
        Err(e) => Err(e as i32),
    }
}

/// Relies on nix::sys::ptrace::cont: lets the stopped child run again
/// (PTRACE_CONT), delivering no signal.
#[verifier::external_body]
pub(crate) fn resume_child(pid: i32) -> (r: Result<(), i32>) {
    match nix::sys::ptrace::cont(nix::unistd::Pid::from_raw(pid), None) {
        Ok(()) => Ok(()),
        Err(e) => Err(e as i32),
    }
}

/// Relies on nix::sys::ptrace::step: lets the stopped child execute one
/// machine instruction (PTRACE_SINGLESTEP), delivering no signal.
#[verifier::external_body]
pub(crate) fn step_child(pid: i32) -> (r: Result<(), i32>) {
    match nix::sys::ptrace::step(nix::unistd::Pid::from_raw(pid), None) {
        Ok(()) => Ok(()),
        Err(e) => Err(e as i32),
    }
}

/// Relies on nix::sys::signal::kill: sends SIGKILL to the child.  Fails
/// with ESRCH when no such process exists, which callers treat as the
/// child being gone already.
#[verifier::external_body]
pub(crate) fn send_kill(pid: i32) -> (r: Result<(), i32>) {
    match nix::sys::signal::kill(nix::unistd::Pid::from_raw(pid), nix::sys::signal::Signal::SIGKILL)
    {
        Ok(()) => Ok(()),
        Err(e) => Err(e as i32),
    }
}

} // verus!
