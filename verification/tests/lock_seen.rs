use lifekit::lock::life::{SeenStates, STATES_KEPT};

#[test]
fn a_repeat_is_reported_and_new_states_remembered() {
    let mut s = SeenStates::new();
    assert!(!s.observe(1));
    assert!(!s.observe(2));
    assert!(s.observe(1));
    assert!(s.contains(2));
    s.clear();
    assert!(!s.contains(1));
    assert!(!s.observe(1));
}

#[test]
fn the_oldest_state_is_forgotten_past_the_cap() {
    let mut s = SeenStates::new();
    for k in 0..STATES_KEPT as u64 {
        assert!(!s.observe(k));
    }
    assert!(s.contains(0));
    assert!(!s.observe(10_000));
    assert!(!s.contains(0));
    assert!(s.contains(1));
}
