//! The full breakpoint story, played out against the simulated target:
//! a breakpoint at the entry function's first instruction, a trap, a
//! single-frame backtrace, a step-over, and a clean exit.

use deet::breakpoints::{BreakpointState, BreakpointTable};
use deet::image::{MemoryImage, TargetSim};
use deet::session::{classify_stop, StopDisposition};
use deet::status::{Status, TRAP_SIGNAL};
use deet::symbols::{FunctionEntry, LineEntry, SymbolTable};
use deet::unwind::unwind_from_image;
use deet::words::TRAP_OPCODE;

#[test]
fn breakpoint_at_entry_trap_backtrace_continue() {
    let mut syms = SymbolTable::new();
    syms.functions.push(FunctionEntry { name: String::from("main"), low: 0x1000, high: 0x1100 });
    syms.lines.push(LineEntry { file: String::from("demo.c"), line: 3, addr: 0x1000 });

    // the target's first instructions
    let mut mem = MemoryImage::new();
    mem.set_word(0x1000, 0x1122_3344_5566_7788);
    let mut sim = TargetSim::new(mem, 0x1000);

    // register a breakpoint at function `main` and install it
    let entry_addr = 0x1000;
    let mut bps = BreakpointTable::new();
    bps.register(entry_addr);
    let orig = sim.install_breakpoint(entry_addr).unwrap();
    bps.set_state(entry_addr, BreakpointState::Installed(orig));
    assert_eq!(sim.mem.read_byte(entry_addr), Some(TRAP_OPCODE));

    // running the target executes the trap: it stops one byte past it
    let hit = sim.single_step().unwrap();
    assert_eq!(hit, TRAP_OPCODE);
    let stop = Status::Stopped(TRAP_SIGNAL, sim.rip as u64);
    assert_eq!(classify_stop(stop, &bps), StopDisposition::AtBreakpoint(entry_addr));

    // a backtrace at the entry function is the single frame `main (demo.c:3)`
    let frames = unwind_from_image(&syms, &sim.mem, entry_addr, 0x7000).unwrap();
    assert_eq!(frames.len(), 1);
    assert_eq!(frames[0].function, "main");
    assert_eq!(frames[0].file, "demo.c");
    assert_eq!(frames[0].line, 3);

    // continue: the displaced instruction runs exactly once, the trap is
    // re-armed, and the target goes on to exit cleanly
    assert!(sim.step_over_breakpoint(entry_addr, orig));
    // the log holds the trap fetch and then the one real execution
    assert_eq!(sim.executed, vec![TRAP_OPCODE, 0x88]);
    assert_eq!(sim.mem.read_byte(entry_addr), Some(TRAP_OPCODE));
    let final_status = Status::Exited(0);
    assert_eq!(
        classify_stop(final_status, &bps),
        StopDisposition::Surface(Status::Exited(0))
    );
}
