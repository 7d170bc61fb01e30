//! The process controller: one traced child, and the word- and
//! byte-granular operations on it.
//!
//! The child is spawned outside the library (spawning needs the process
//! API); the controller takes over from the spawned pid and from then on
//! owns every trace operation on it.  What the kernel reports depends on
//! the child, so the contracts here state what holds of every outcome and
//! leave the byte-splicing arithmetic, which is where a slip would corrupt
//! the target, to the fully specified helpers in `words`.

use vstd::prelude::*;
use crate::status::{Status, TraceError, WaitEvent};
use crate::symbols::SymbolTable;
use crate::trace;
use crate::unwind::{frame_matches, spec_entry_name, Frame, UnwindError, MAX_FRAMES};
use crate::words;

verus! {

/// One process under trace control.
pub struct Inferior {
    pid: i32,
}

impl Inferior {
    /// The pid this controller traces.
    pub closed spec fn id(&self) -> i32 {
        self.pid
    }

    /// The adoption rule for a freshly spawned child: only a first wait
    /// that reports a stop makes the child usable.  An early exit, a
    /// termination by signal, an unusable wait transition or a failed
    /// wait is a spawn failure.
    pub fn accepts_initial(w: &Result<Status, TraceError>) -> (r: bool)
        ensures
            r == (*w matches Ok(Status::Stopped(_, _))),
    {
        match w {
            Ok(Status::Stopped(_, _)) => true,
            _ => false,
        }
    }

    /// Takes control of a child that was just spawned with tracing
    /// enabled, and blocks until the kernel reports its initial stop.
    /// The wait's outcome decides adoption by `accepts_initial`: a child
    /// that exits, is signaled, or cannot be waited on before that stop
    /// is not a usable inferior.
    pub fn from_spawned(pid: i32) -> (r: Option<Inferior>)
        ensures
            r matches Some(inf) ==> inf.id() == pid,
    {
        let inferior = Inferior { pid };
        let first = inferior.wait();
        if Inferior::accepts_initial(&first) {
            Some(inferior)
        } else {
            None
        }
    }

    /// Returns the pid of this inferior.
    pub fn pid(&self) -> (r: i32)
        ensures
            r == self.id(),
    {
        self.pid
    }

    /// Blocks until the child changes state and reports the resulting
    /// status.  A stop carries the instruction pointer read from the
    /// child's registers; a wait transition the debugger has no use for
    /// is an error, not a panic.
    pub fn wait(&self) -> (r: Result<Status, TraceError>) {
        match trace::wait_child(self.pid) {
            Ok(WaitEvent::Stopped(sig)) => {
                match trace::get_regs(self.pid) {
                    Ok((rip, _rbp, _regs)) => Ok(Status::Stopped(sig, rip)),
                    Err(e) => Err(TraceError::Kernel(e)),
                }
            },
            Ok(event) => {
                match Status::from_event(event, 0) {
                    Some(status) => Ok(status),
                    None => Err(TraceError::Unexpected),
                }
            },
            Err(e) => Err(TraceError::Kernel(e)),
        }
    }

    /// Resumes the child and blocks until it next stops, exits, or is
    /// signaled.
    pub fn cont(&self) -> (r: Result<Status, TraceError>) {
        match trace::resume_child(self.pid) {
            Ok(()) => self.wait(),
            Err(e) => Err(TraceError::Kernel(e)),
        }
    }

    /// Executes exactly one machine instruction of the child and blocks
    /// until the kernel reports the resulting stop.
    pub fn step(&self) -> (r: Result<Status, TraceError>) {
        match trace::step_child(self.pid) {
            Ok(()) => self.wait(),
            Err(e) => Err(TraceError::Kernel(e)),
        }
    }

    /// Terminates the child and reaps it.  Succeeds trivially when the
    /// child is gone already: killing twice, or killing after an exit,
    /// neither fails nor panics.
    pub fn kill(&mut self)
        ensures
            final(self).id() == old(self).id(),
    {
        let _ = trace::send_kill(self.pid);
        let _ = trace::wait_child(self.pid);
    }

    /// Reads the current instruction pointer of the stopped child.
    pub fn getrip(&self) -> (r: Result<u64, TraceError>) {
        match trace::get_regs(self.pid) {
            Ok((rip, _rbp, _regs)) => Ok(rip),
            Err(e) => Err(TraceError::Kernel(e)),
        }
    }

    /// Reads the instruction and frame pointers of the stopped child.
    pub fn get_pointers(&self) -> (r: Result<(u64, u64), TraceError>) {
        match trace::get_regs(self.pid) {
            Ok((rip, rbp, _regs)) => Ok((rip, rbp)),
            Err(e) => Err(TraceError::Kernel(e)),
        }
    }

    /// Moves the stopped child's instruction pointer back by one byte:
    /// after a trap opcode executes, the pointer sits just past it, and
    /// the displaced instruction must be re-executed from the trap's own
    /// address.  An instruction pointer of zero cannot be rewound.
    pub fn go_back_one_step(&self) -> (r: Result<(), TraceError>) {
        match trace::get_regs(self.pid) {
            Ok((rip, _rbp, regs)) => {
                if rip == 0 {
                    Err(TraceError::Unexpected)
                } else {
                    match trace::set_regs_rip(self.pid, regs, rip - 1) {
                        Ok(()) => Ok(()),
                        Err(e) => Err(TraceError::Kernel(e)),
                    }
                }
            },
            Err(e) => Err(TraceError::Kernel(e)),
        }
    }

    /// Writes one byte into the child's memory, synthesized from
    /// word-granular access: read the containing word, splice the byte in,
    /// write the word back.  Returns the byte the write displaced.
    pub fn write_byte(&mut self, addr: usize, val: u8) -> (r: Result<u8, TraceError>)
        ensures
            final(self).id() == old(self).id(),
    {
        let aligned = words::align_addr_to_word(addr);
        let off = (addr - aligned) as u64;
        match trace::peek_word(self.pid, aligned) {
            Ok(word) => {
                let orig = words::extract_byte(word, off);
                let updated = words::replace_byte(word, off, val);
                match trace::poke_word(self.pid, aligned, updated) {
                    Ok(()) => Ok(orig),
                    Err(e) => Err(TraceError::Kernel(e)),
                }
            },
            Err(e) => Err(TraceError::Kernel(e)),
        }
    }

    /// Arms a breakpoint: writes the trap opcode at `addr` and returns the
    /// displaced original byte, which must be recorded so the instruction
    /// can be restored before that address is ever executed.
    pub fn breakpoint(&mut self, addr: usize) -> (r: Result<u8, TraceError>)
        ensures
            final(self).id() == old(self).id(),
    {
        self.write_byte(addr, words::TRAP_OPCODE)
    }

    /// Walks the stopped child's frame-pointer chain.  A full backtrace
    /// holds at least one frame; every frame says of its own address
    /// exactly what the symbol table says; the last frame, and only the
    /// last, is the entry function; and the walk never exceeds its bound.
    pub fn backtrace(&self, syms: &SymbolTable) -> (r: Result<Vec<Frame>, UnwindError>)
        ensures
            r matches Ok(frames) ==> {
                &&& 1 <= frames@.len() <= MAX_FRAMES
                &&& forall|i: int|
                    0 <= i < frames@.len() ==> frame_matches(*syms, #[trigger] frames@[i])
                &&& frames@[frames@.len() - 1].function@ == spec_entry_name()
                &&& forall|i: int|
                    0 <= i < frames@.len() - 1 ==> (#[trigger] frames@[i].function)@
                        != spec_entry_name()
            },
    {
        let (rip, rbp) = match self.get_pointers() {
            Ok(p) => p,
            Err(_) => {
                return Err(UnwindError::Registers);
            },
        };
        if rip > usize::MAX as u64 || rbp > usize::MAX as u64 {
            return Err(UnwindError::BadFramePointer);
        }
        let mut ip: usize = rip as usize;
        let mut fp: usize = rbp as usize;
        let mut frames: Vec<Frame> = Vec::new();
        let mut fuel: usize = MAX_FRAMES;
        let entry = String::from_str("main");
        loop
            invariant
                entry@ == spec_entry_name(),
                frames@.len() + fuel == MAX_FRAMES,
                forall|i: int|
                    0 <= i < frames@.len() ==> frame_matches(*syms, #[trigger] frames@[i]),
                forall|i: int|
                    0 <= i < frames@.len() ==> (#[trigger] frames@[i].function)@
                        != spec_entry_name(),
            decreases fuel,
        {
            if fuel == 0 {
                return Err(UnwindError::TooDeep);
            }
            let func = syms.get_function_from_addr(ip);
            let line = syms.get_line_from_addr(ip);
            let (fname, floc) = match (func, line) {
                (Some(n), Some(l)) => (n, l),
                _ => {
                    return Err(UnwindError::UnknownLocation);
                },
            };
            let is_entry = fname == entry;
            let fr = Frame { function: fname, file: floc.0, line: floc.1, addr: ip };
            frames.push(fr);
            fuel = fuel - 1;
            if is_entry {
                return Ok(frames);
            }
            if !(fp % 8 == 0 && fp > 0 && fp <= usize::MAX - 8) {
                return Err(UnwindError::BadFramePointer);
            }
            let ret_word = match trace::peek_word(self.pid, fp + 8) {
                Ok(w) => w,
                Err(_) => {
                    return Err(UnwindError::MemoryRead);
                },
            };
            let saved_word = match trace::peek_word(self.pid, fp) {
                Ok(w) => w,
                Err(_) => {
                    return Err(UnwindError::MemoryRead);
                },
            };
            if ret_word > usize::MAX as u64 || saved_word > usize::MAX as u64 || saved_word
                <= fp as u64 {
                return Err(UnwindError::BadFramePointer);
            }
            ip = ret_word as usize;
            fp = saved_word as usize;
        }
    }
}

} // verus!
