use deet::parmap::output_slot;

#[test]
fn tags_map_back_to_their_slots() {
    // items are popped from the tail: the first tag belongs to the last slot
    assert_eq!(output_slot(5, 0), 4);
    assert_eq!(output_slot(5, 4), 0);
    assert_eq!(output_slot(1, 0), 0);
    // each slot is hit exactly once
    let mut seen = vec![false; 8];
    for tag in 0..8 {
        let slot = output_slot(8, tag);
        assert!(!seen[slot]);
        seen[slot] = true;
    }
    assert!(seen.iter().all(|s| *s));
}
