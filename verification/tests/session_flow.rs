use deet::breakpoints::{BreakpointState, BreakpointTable};
use deet::session::{
    classify_stop, BreakpointOutcome, ContinueOutcome, Debugger, StopDisposition,
};
use deet::status::{Status, TRAP_SIGNAL};
use deet::symbols::{FunctionEntry, LineEntry, SymbolTable};

fn demo_symbols() -> SymbolTable {
    let mut t = SymbolTable::new();
    t.functions.push(FunctionEntry { name: String::from("main"), low: 0x1000, high: 0x1100 });
    t.lines.push(LineEntry { file: String::from("demo.c"), line: 7, addr: 0x1000 });
    t
}

#[test]
fn quit_with_no_process_attempts_no_terminate() {
    let mut dbg = Debugger::new(String::from("demo"), demo_symbols());
    assert!(!dbg.is_running());
    // ends at once; the session never had a child to terminate
    assert!(!dbg.handle_quit());
    assert!(!dbg.is_running());
    // quitting again is just as harmless
    assert!(!dbg.handle_quit());
}

#[test]
fn continue_and_backtrace_need_a_process() {
    let mut dbg = Debugger::new(String::from("demo"), demo_symbols());
    assert!(matches!(dbg.handle_continue(), ContinueOutcome::NotRunning));
    assert!(matches!(
        dbg.handle_backtrace(),
        deet::session::BacktraceOutcome::NotRunning
    ));
}

#[test]
fn breakpoints_survive_preparing_a_new_run() {
    let mut dbg = Debugger::new(String::from("demo"), demo_symbols());
    assert!(matches!(
        dbg.register_breakpoint("main"),
        BreakpointOutcome::Registered(0x1000)
    ));
    assert!(matches!(
        dbg.register_breakpoint("*0x1040"),
        BreakpointOutcome::Registered(0x1040)
    ));
    // with no live child there is nothing to kill, and nothing is lost
    assert!(!dbg.prepare_run());
    assert!(dbg.has_breakpoint(0x1000));
    assert!(dbg.has_breakpoint(0x1040));
    assert!(!dbg.has_breakpoint(0x2000));
}

#[test]
fn unresolvable_location_registers_nothing() {
    let mut dbg = Debugger::new(String::from("demo"), demo_symbols());
    assert!(matches!(
        dbg.register_breakpoint("no_such_symbol"),
        BreakpointOutcome::Unresolved
    ));
    assert!(!dbg.has_breakpoint(0x1000));
}

#[test]
fn trap_at_installed_breakpoint_is_a_hit() {
    let mut bps = BreakpointTable::new();
    bps.register(0x1000);
    bps.set_state(0x1000, BreakpointState::Installed(0x55));
    // the trap opcode leaves the instruction pointer one byte past it
    let stop = Status::Stopped(TRAP_SIGNAL, 0x1001);
    assert_eq!(classify_stop(stop, &bps), StopDisposition::AtBreakpoint(0x1000));
}

#[test]
fn trap_elsewhere_surfaces_as_it_is() {
    let mut bps = BreakpointTable::new();
    bps.register(0x1000);
    // registered but only Pending: not a hit
    let stop = Status::Stopped(TRAP_SIGNAL, 0x1001);
    assert_eq!(classify_stop(stop, &bps), StopDisposition::Surface(stop));
    // a stop on another signal surfaces
    let int_stop = Status::Stopped(2, 0x1001);
    assert_eq!(classify_stop(int_stop, &bps), StopDisposition::Surface(int_stop));
}

#[test]
fn exit_surfaces_with_its_code() {
    let bps = BreakpointTable::new();
    // a run with no breakpoints whose target exits with code 2
    assert_eq!(
        classify_stop(Status::Exited(2), &bps),
        StopDisposition::Surface(Status::Exited(2))
    );
    assert_eq!(
        classify_stop(Status::Signaled(9), &bps),
        StopDisposition::Surface(Status::Signaled(9))
    );
}
