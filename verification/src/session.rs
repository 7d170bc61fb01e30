//! The session controller: one operator, at most one traced child.
//!
//! The session is either Idle or Active; an Active session may in
//! addition sit on a bypassed breakpoint, whose trap has been lifted and
//! whose address the instruction pointer rests on.  A stop on the trap
//! signal at an installed breakpoint surfaces to the operator as a stop
//! at the breakpoint's own address, with the displaced byte already
//! restored; the next continue single-steps that original instruction,
//! re-arms the trap, and only then resumes.  Stops are always surfaced to
//! the operator rather than silently resumed, so hitting a breakpoint
//! hands control back.

use vstd::prelude::*;
use crate::breakpoints::{BreakpointState, BreakpointTable};
use crate::inferior::Inferior;
use crate::location::{parse_address, resolved_location};
use crate::status::{Status, TraceError, TRAP_SIGNAL};
use crate::symbols::SymbolTable;
use crate::unwind::{frame_matches, spec_entry_name, Frame, UnwindError, MAX_FRAMES};

verus! {

/// What a stop means to the session.
#[derive(Clone, Copy, Debug, PartialEq, Eq, Structural)]
pub enum StopDisposition {
    /// A trap fired one byte past an installed breakpoint: the child sits
    /// just after the trap opcode at this address.
    AtBreakpoint(usize),
    /// Anything else is the operator's to see as it is.
    Surface(Status),
}

/// Where a stop leads, given the registered breakpoints.
pub open spec fn spec_classify(status: Status, bps: Map<int, BreakpointState>) -> StopDisposition {
    match status {
        Status::Stopped(sig, rip) => {
            if sig == TRAP_SIGNAL && 1 <= rip && rip - 1 <= usize::MAX && bps.dom().contains(
                rip - 1,
            ) && (bps[rip - 1] is Installed) {
                StopDisposition::AtBreakpoint((rip - 1) as usize)
            } else {
                StopDisposition::Surface(status)
            }
        },
        _ => StopDisposition::Surface(status),
    }
}

/// Decides what a stop means: a trap one byte past an installed
/// breakpoint is a breakpoint hit, everything else surfaces.
pub fn classify_stop(status: Status, bps: &BreakpointTable) -> (r: StopDisposition)
    ensures
        r == spec_classify(status, bps@),
{
    match status {
        Status::Stopped(sig, rip) => {
            if sig == TRAP_SIGNAL && rip >= 1 && rip - 1 <= usize::MAX as u64 {
                let addr = (rip - 1) as usize;
                match bps.installed_byte(addr) {
                    Some(_) => StopDisposition::AtBreakpoint(addr),
                    None => StopDisposition::Surface(status),
                }
            } else {
                StopDisposition::Surface(status)
            }
        },
        _ => StopDisposition::Surface(status),
    }
}

/// The child of an Active session, with the breakpoint it currently
/// bypasses, if any.
enum SessionState {
    Idle,
    Active(Inferior, Option<usize>),
}

/// What registering a breakpoint came to.
#[derive(Clone, Copy, Debug, PartialEq, Eq, Structural)]
pub enum BreakpointOutcome {
    /// The location token matched nothing; nothing was recorded.
    Unresolved,
    /// The address is registered (and armed, when a child is live).
    Registered(usize),
    /// The address is registered but arming it in the live child failed;
    /// it stays Pending for the next run.
    InstallFailed(usize, TraceError),
}

/// What a run came to.
#[derive(Clone, Copy, Debug, PartialEq, Eq, Structural)]
pub enum RunOutcome {
    /// The child never reached its initial stop.
    SpawnFailed,
    /// The settled status the operator sees.
    Report(Status),
    /// A trace operation failed underway.
    Failed(TraceError),
}

/// What a continue came to.
#[derive(Clone, Copy, Debug, PartialEq, Eq, Structural)]
pub enum ContinueOutcome {
    NotRunning,
    Report(Status),
    Failed(TraceError),
}

/// What a backtrace came to.
pub enum BacktraceOutcome {
    NotRunning,
    Frames(Vec<Frame>),
    Failed(UnwindError),
}

/// One debugging session.
pub struct Debugger {
    target: String,
    state: SessionState,
    breakpoints: BreakpointTable,
    symbols: SymbolTable,
}

impl Debugger {
    /// Whether a traced child is live.
    pub closed spec fn running(&self) -> bool {
        self.state matches SessionState::Active(_, _)
    }

    /// The registered breakpoints.
    pub closed spec fn bps(&self) -> Map<int, BreakpointState> {
        self.breakpoints@
    }

    /// The symbol table the session resolves against.
    pub closed spec fn syms(&self) -> SymbolTable {
        self.symbols
    }

    /// The path of the target binary.
    pub closed spec fn spec_target(&self) -> Seq<char> {
        self.target@
    }

    /// A fresh session: no child, no breakpoints.
    pub fn new(target: String, symbols: SymbolTable) -> (r: Debugger)
        ensures
            !r.running(),
            r.bps() == Map::<int, BreakpointState>::empty(),
            r.syms() == symbols,
            r.spec_target() == target@,
    {
        Debugger {
            target,
            state: SessionState::Idle,
            breakpoints: BreakpointTable::new(),
            symbols,
        }
    }

    /// The path of the target binary, for spawning and reporting.
    pub fn target(&self) -> (r: &String)
        ensures
            r@ == self.spec_target(),
    {
        &self.target
    }

    /// Whether a traced child is live.
    pub fn is_running(&self) -> (r: bool)
        ensures
            r == self.running(),
    {
        match &self.state {
            SessionState::Idle => false,
            SessionState::Active(_, _) => true,
        }
    }

    /// Whether `addr` is a registered breakpoint address.
    pub fn has_breakpoint(&self, addr: usize) -> (r: bool)
        ensures
            r == self.bps().dom().contains(addr as int),
    {
        self.breakpoints.contains(addr)
    }

    /// Makes room for a new run: a live child is terminated and reaped
    /// first, and only then may a new one be spawned.  The registered
    /// breakpoints survive for the new lifetime.
    pub fn prepare_run(&mut self) -> (killed: bool)
        ensures
            !final(self).running(),
            killed == old(self).running(),
            final(self).bps() == old(self).bps(),
            final(self).syms() == old(self).syms(),
            final(self).spec_target() == old(self).spec_target(),
    {
        let mut st = SessionState::Idle;
        core::mem::swap(&mut st, &mut self.state);
        match st {
            SessionState::Idle => false,
            SessionState::Active(inf, _) => {
                let mut inf = inf;
                inf.kill();
                true
            },
        }
    }

    /// Adopts a freshly spawned, trace-enabled child: waits for its
    /// initial stop, re-applies every registered breakpoint to the fresh
    /// memory image, resumes, and settles the first stop.  No breakpoint
    /// is forgotten on the way.
    pub fn attach_run(&mut self, pid: i32) -> (r: RunOutcome)
        requires
            !old(self).running(),
        ensures
            final(self).bps().dom() == old(self).bps().dom(),
            final(self).syms() == old(self).syms(),
            final(self).spec_target() == old(self).spec_target(),
            r is SpawnFailed ==> !final(self).running() && final(self).bps() == old(self).bps(),
            r matches RunOutcome::Report(st) ==> ((st is Stopped) <==> final(self).running()),
    {
        match Inferior::from_spawned(pid) {
            None => RunOutcome::SpawnFailed,
            Some(inf) => {
                let mut inf = inf;
                install_all(&mut self.breakpoints, &mut inf);
                match inf.cont() {
                    Ok(status) => RunOutcome::Report(self.settle(inf, status)),
                    Err(e) => {
                        self.state = SessionState::Active(inf, None);
                        RunOutcome::Failed(e)
                    },
                }
            },
        }
    }

    /// Folds a fresh stop into the session.  A breakpoint hit has its
    /// displaced byte restored and the instruction pointer rewound onto
    /// it, and surfaces as a stop at the breakpoint's address; an exit or
    /// a termination empties the session.
    fn settle(&mut self, inf: Inferior, status: Status) -> (r: Status)
        ensures
            final(self).bps().dom() == old(self).bps().dom(),
            // a recorded original byte is never rewritten: an entry keeps
            // its state or falls back to Pending when its trap is gone
            forall|b: int|
                #[trigger] old(self).bps().dom().contains(b) ==> final(self).bps()[b] == old(
                    self,
                ).bps()[b] || final(self).bps()[b] is Pending,
            final(self).syms() == old(self).syms(),
            final(self).spec_target() == old(self).spec_target(),
            match spec_classify(status, old(self).bps()) {
                StopDisposition::Surface(st) => r == st && (final(self).running() <==> st is Stopped)
                    && final(self).bps() == old(self).bps(),
                StopDisposition::AtBreakpoint(addr) => (r == Status::Stopped(
                    TRAP_SIGNAL,
                    addr as u64,
                ) || r == status) && final(self).running() && r is Stopped,
            },
    {
        let mut inf = inf;
        match classify_stop(status, &self.breakpoints) {
            StopDisposition::AtBreakpoint(addr) => {
                match self.breakpoints.installed_byte(addr) {
                    Some(orig) => {
                        match inf.write_byte(addr, orig) {
                            Ok(_) => {
                                match inf.go_back_one_step() {
                                    Ok(()) => {
                                        self.state = SessionState::Active(inf, Some(addr));
                                        Status::Stopped(TRAP_SIGNAL, addr as u64)
                                    },
                                    Err(_) => {
                                        // the byte is restored but the pointer
                                        // could not be rewound: no bypass is
                                        // recorded, the disarmed entry falls
                                        // back to Pending, and the raw stop
                                        // surfaces
                                        self.breakpoints.set_state(
                                            addr,
                                            BreakpointState::Pending,
                                        );
                                        proof {
                                            assert(self.breakpoints@.dom() =~= old(
                                                self,
                                            ).bps().dom());
                                        }
                                        self.state = SessionState::Active(inf, None);
                                        status
                                    },
                                }
                            },
                            Err(_) => {
                                self.state = SessionState::Active(inf, None);
                                status
                            },
                        }
                    },
                    None => {
                        self.state = SessionState::Active(inf, None);
                        status
                    },
                }
            },
            StopDisposition::Surface(st) => {
                match st {
                    Status::Stopped(_, _) => {
                        self.state = SessionState::Active(inf, None);
                        st
                    },
                    _ => {
                        self.state = SessionState::Idle;
                        st
                    },
                }
            },
        }
    }

    /// Registers a breakpoint at the operator's location token.  An
    /// unresolvable token records nothing; a resolved address is added to
    /// the table, armed at once when a child is live, and an address
    /// already armed is never armed twice.
    pub fn register_breakpoint(&mut self, token: &str) -> (r: BreakpointOutcome)
        ensures
            final(self).syms() == old(self).syms(),
            final(self).spec_target() == old(self).spec_target(),
            final(self).running() == old(self).running(),
            (r is Unresolved) == (resolved_location(old(self).syms(), token@) is None),
            !old(self).running() ==> !(r is InstallFailed),
            match resolved_location(old(self).syms(), token@) {
                Some(a) => {
                    &&& final(self).bps().dom() == old(self).bps().dom().insert(a)
                    &&& match r {
                        BreakpointOutcome::Unresolved => false,
                        BreakpointOutcome::Registered(u) => u as int == a,
                        BreakpointOutcome::InstallFailed(u, _) => u as int == a,
                    }
                    // no other address is touched
                    &&& forall|b: int|
                        b != a && old(self).bps().dom().contains(b) ==> final(self).bps()[b]
                            == old(self).bps()[b]
                    // a recorded original byte survives re-registration:
                    // an armed address is never armed twice
                    &&& (old(self).bps().dom().contains(a) && old(self).bps()[a] is Installed
                        ==> final(self).bps()[a] == old(self).bps()[a])
                },
                None => final(self).bps() == old(self).bps(),
            },
            !old(self).running() ==> final(self).bps() == match resolved_location(
                old(self).syms(),
                token@,
            ) {
                Some(a) => if old(self).bps().dom().contains(a) {
                    old(self).bps()
                } else {
                    old(self).bps().insert(a, BreakpointState::Pending)
                },
                None => old(self).bps(),
            },
    {
        let addr = match parse_address(&self.symbols, token) {
            Some(a) => a,
            None => {
                return BreakpointOutcome::Unresolved;
            },
        };
        let _ = self.breakpoints.register(addr);
        proof {
            assert(self.breakpoints@.dom() =~= old(self).bps().dom().insert(addr as int));
        }
        let mut st = SessionState::Idle;
        core::mem::swap(&mut st, &mut self.state);
        match st {
            SessionState::Idle => {
                self.state = SessionState::Idle;
                BreakpointOutcome::Registered(addr)
            },
            SessionState::Active(inf, at) => {
                let mut inf = inf;
                let pending = match self.breakpoints.get(addr) {
                    Some(BreakpointState::Pending) => true,
                    _ => false,
                };
                let out = if pending {
                    match inf.breakpoint(addr) {
                        Ok(orig) => {
                            self.breakpoints.set_state(addr, BreakpointState::Installed(orig));
                            proof {
                                assert(self.breakpoints@.dom() =~= old(self).bps().dom().insert(
                                    addr as int,
                                ));
                            }
                            BreakpointOutcome::Registered(addr)
                        },
                        Err(e) => BreakpointOutcome::InstallFailed(addr, e),
                    }
                } else {
                    BreakpointOutcome::Registered(addr)
                };
                self.state = SessionState::Active(inf, at);
                out
            },
        }
    }

    /// Resumes the child.  With no child there is nothing to resume; on a
    /// bypassed breakpoint the displaced instruction is single-stepped
    /// and the trap re-armed before the real resume; the resulting stop
    /// settles as after a run.
    pub fn handle_continue(&mut self) -> (r: ContinueOutcome)
        ensures
            final(self).syms() == old(self).syms(),
            final(self).spec_target() == old(self).spec_target(),
            final(self).bps().dom() == old(self).bps().dom(),
            // continuing never rewrites a recorded original byte: an entry
            // keeps its state, or falls back to Pending when its trap
            // could not stay armed
            forall|b: int|
                #[trigger] old(self).bps().dom().contains(b) ==> final(self).bps()[b] == old(
                    self,
                ).bps()[b] || final(self).bps()[b] is Pending,
            (r is NotRunning) == !old(self).running(),
            !old(self).running() ==> *final(self) == *old(self),
            r matches ContinueOutcome::Report(st) ==> ((st is Stopped) <==> final(self).running()),
    {
        let mut st = SessionState::Idle;
        core::mem::swap(&mut st, &mut self.state);
        match st {
            SessionState::Idle => ContinueOutcome::NotRunning,
            SessionState::Active(inf, at) => {
                let mut inf = inf;
                if let Some(addr) = at {
                    match inf.step() {
                        Ok(Status::Stopped(_, _)) => {
                            match inf.breakpoint(addr) {
                                Ok(_) => {},
                                Err(_) => {
                                    // the trap could not be re-armed: the address
                                    // holds its original byte, so it is Pending
                                    if self.breakpoints.contains(addr) {
                                        self.breakpoints.set_state(
                                            addr,
                                            BreakpointState::Pending,
                                        );
                                        proof {
                                            assert(self.breakpoints@.dom()
                                                =~= old(self).bps().dom());
                                        }
                                    }
                                },
                            }
                        },
                        Ok(other) => {
                            // the displaced instruction ended the child
                            return ContinueOutcome::Report(other);
                        },
                        Err(e) => {
                            self.state = SessionState::Active(inf, Some(addr));
                            return ContinueOutcome::Failed(e);
                        },
                    }
                }
                match inf.cont() {
                    Ok(status) => ContinueOutcome::Report(self.settle(inf, status)),
                    Err(e) => {
                        self.state = SessionState::Active(inf, None);
                        ContinueOutcome::Failed(e)
                    },
                }
            },
        }
    }

    /// Walks the child's call stack.  With no child there is nothing to
    /// walk; a produced backtrace carries what the symbol table says of
    /// each frame, ending at the entry function.
    pub fn handle_backtrace(&self) -> (r: BacktraceOutcome)
        ensures
            (r is NotRunning) == !self.running(),
            r matches BacktraceOutcome::Frames(frames) ==> {
                &&& 1 <= frames@.len() <= MAX_FRAMES
                &&& forall|i: int|
                    0 <= i < frames@.len() ==> frame_matches(self.syms(), #[trigger] frames@[i])
                &&& frames@[frames@.len() - 1].function@ == spec_entry_name()
                &&& forall|i: int|
                    0 <= i < frames@.len() - 1 ==> (#[trigger] frames@[i].function)@
                        != spec_entry_name()
            },
    {
        match &self.state {
            SessionState::Idle => BacktraceOutcome::NotRunning,
            SessionState::Active(inf, _) => {
                match inf.backtrace(&self.symbols) {
                    Ok(frames) => BacktraceOutcome::Frames(frames),
                    Err(e) => BacktraceOutcome::Failed(e),
                }
            },
        }
    }

    /// Ends the session's hold on the child.  A live child is terminated
    /// and reaped; with no child, nothing is attempted at all, twice over
    /// as harmless as once.
    pub fn handle_quit(&mut self) -> (terminated: bool)
        ensures
            terminated == old(self).running(),
            !final(self).running(),
            final(self).bps() == old(self).bps(),
            final(self).syms() == old(self).syms(),
            final(self).spec_target() == old(self).spec_target(),
    {
        self.prepare_run()
    }
}

/// Re-applies every registered breakpoint to a fresh child: each address
/// is armed and its new displaced byte recorded, or falls back to Pending
/// when the child's memory refuses it.  No address is added or lost.
fn install_all(bps: &mut BreakpointTable, inf: &mut Inferior)
    ensures
        final(bps)@.dom() == old(bps)@.dom(),
{
    let addrs = bps.addresses();
    let n = addrs.len();
    let mut i: usize = 0;
    while i < n
        invariant
            i <= n,
            n == addrs@.len(),
            bps@.dom() =~= old(bps)@.dom(),
            forall|j: int| 0 <= j < addrs@.len() ==> old(bps)@.dom().contains(#[trigger] addrs@[j] as int),
        decreases n - i,
    {
        let addr = addrs[i];
        match inf.breakpoint(addr) {
            Ok(orig) => {
                bps.set_state(addr, BreakpointState::Installed(orig));
            },
            Err(_) => {
                bps.set_state(addr, BreakpointState::Pending);
            },
        }
        proof {
            assert(bps@.dom() =~= old(bps)@.dom());
        }
        i += 1;
    }
}

} // verus!
