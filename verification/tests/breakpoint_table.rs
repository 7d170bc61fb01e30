use deet::breakpoints::{BreakpointState, BreakpointTable};

#[test]
fn register_records_pending() {
    let mut t = BreakpointTable::new();
    assert!(!t.contains(0x1000));
    assert!(t.register(0x1000));
    assert!(t.contains(0x1000));
    assert_eq!(t.get(0x1000), Some(BreakpointState::Pending));
    assert_eq!(t.installed_byte(0x1000), None);
}

#[test]
fn register_twice_keeps_recorded_byte() {
    let mut t = BreakpointTable::new();
    assert!(t.register(0x2000));
    t.set_state(0x2000, BreakpointState::Installed(0x55));
    // registering again must not forget the displaced original byte
    assert!(!t.register(0x2000));
    assert_eq!(t.installed_byte(0x2000), Some(0x55));
}

#[test]
fn addresses_lists_each_once() {
    let mut t = BreakpointTable::new();
    t.register(0x10);
    t.register(0x20);
    t.register(0x10);
    let mut addrs = t.addresses();
    addrs.sort();
    assert_eq!(addrs, vec![0x10, 0x20]);
}

#[test]
fn set_state_overwrites() {
    let mut t = BreakpointTable::new();
    t.register(0x40);
    t.set_state(0x40, BreakpointState::Installed(0x90));
    assert_eq!(t.installed_byte(0x40), Some(0x90));
    t.set_state(0x40, BreakpointState::Pending);
    assert_eq!(t.installed_byte(0x40), None);
    assert!(t.contains(0x40));
}
