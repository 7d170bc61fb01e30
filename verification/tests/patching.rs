use deet::image::{MemoryImage, TargetSim};
use deet::words::{align_addr_to_word, extract_byte, replace_byte, TRAP_OPCODE};

#[test]
fn align_rounds_down_to_word() {
    assert_eq!(align_addr_to_word(0x1000), 0x1000);
    assert_eq!(align_addr_to_word(0x1007), 0x1000);
    assert_eq!(align_addr_to_word(0x1008), 0x1008);
    assert_eq!(align_addr_to_word(0), 0);
}

#[test]
fn byte_splice_round_trip() {
    let word: u64 = 0x1122_3344_5566_7788;
    let orig = extract_byte(word, 3);
    assert_eq!(orig, 0x55);
    let patched = replace_byte(word, 3, TRAP_OPCODE);
    assert_eq!(extract_byte(patched, 3), TRAP_OPCODE);
    // the other bytes did not move
    for off in 0..8u64 {
        if off != 3 {
            assert_eq!(extract_byte(patched, off), extract_byte(word, off));
        }
    }
    // restoring the displaced byte restores the word exactly
    assert_eq!(replace_byte(patched, 3, orig), word);
}

#[test]
fn install_writes_trap_and_returns_original() {
    let mut mem = MemoryImage::new();
    mem.set_word(0x1000, 0xaabb_ccdd_1122_3344);
    let mut sim = TargetSim::new(mem, 0x1000);
    let orig = sim.install_breakpoint(0x1002).unwrap();
    assert_eq!(orig, 0x22);
    assert_eq!(sim.mem.read_byte(0x1002), Some(TRAP_OPCODE));
    // a neighbouring byte is untouched
    assert_eq!(sim.mem.read_byte(0x1003), Some(0x11));
}

#[test]
fn step_over_executes_original_once_and_rearms() {
    let mut mem = MemoryImage::new();
    mem.set_word(0x1000, 0xaabb_ccdd_1122_3344);
    let mut sim = TargetSim::new(mem, 0x1000);
    let addr = 0x1002;
    let orig = sim.install_breakpoint(addr).unwrap();
    // the trap fired: the child sits one byte past the breakpoint
    sim.rip = addr + 1;
    assert!(sim.step_over_breakpoint(addr, orig));
    // the displaced instruction ran exactly once...
    assert_eq!(sim.executed, vec![orig]);
    // ...and the trap is armed again for the next pass
    assert_eq!(sim.mem.read_byte(addr), Some(TRAP_OPCODE));
    assert_eq!(sim.rip, addr + 1);
    // a second pass executes it exactly once more
    assert!(sim.step_over_breakpoint(addr, orig));
    assert_eq!(sim.executed, vec![orig, orig]);
    assert_eq!(sim.mem.read_byte(addr), Some(TRAP_OPCODE));
}

#[test]
fn install_on_unmapped_address_fails_cleanly() {
    let mem = MemoryImage::new();
    let mut sim = TargetSim::new(mem, 0);
    assert_eq!(sim.install_breakpoint(0x9999), None);
}

#[test]
fn step_over_succeeds_exactly_when_mapped() {
    // an unmapped address refuses the pass and changes nothing
    let mem = MemoryImage::new();
    let mut sim = TargetSim::new(mem, 0x9999 + 1);
    assert!(!sim.step_over_breakpoint(0x9999, 0x90));
    assert!(sim.executed.is_empty());
    assert_eq!(sim.rip, 0x9999 + 1);
    // a mapped one owes it
    let mut mem = MemoryImage::new();
    mem.set_word(0x2000, 0x9090_9090_9090_9090);
    let mut sim = TargetSim::new(mem, 0x2001);
    assert!(sim.step_over_breakpoint(0x2000, 0x90));
    assert_eq!(sim.executed, vec![0x90]);
}
