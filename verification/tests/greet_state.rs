use lifekit::greet::state::{Greeter, Phase, COLLAPSE_MS, FAILED_HOLD_MS, GROW_MS, USERNAME_MAX};

fn to_password_phase(g: &mut Greeter) {
    g.type_username("voyd");
    assert!(g.user_submit(1000));
    g.advance(1000 + GROW_MS);
    assert_eq!(g.phase, Phase::EnterPassword);
}

#[test]
fn happy_path() {
    let mut g = Greeter::new();
    assert!(!g.user_submit(0));
    to_password_phase(&mut g);
    assert!(g.password_submit());
    assert_eq!(g.phase, Phase::Validating);
    assert!(!g.password_submit());
    assert!(g.on_auth_ok());
    assert_eq!(g.phase, Phase::Starting);
}

#[test]
fn failure_collapses_and_clears_username() {
    let mut g = Greeter::new();
    to_password_phase(&mut g);
    g.password_submit();
    g.on_auth_failed(5000);
    assert!(matches!(g.phase, Phase::Failed { .. }));
    g.advance(5000 + FAILED_HOLD_MS - 1);
    assert!(matches!(g.phase, Phase::Failed { .. }));
    g.advance(5000 + FAILED_HOLD_MS);
    assert!(matches!(g.phase, Phase::Collapsing { .. }));
    let t_collapse = 5000 + FAILED_HOLD_MS;
    assert!(!g.accepts_password_input());
    assert!(!g.password_submit());
    g.advance(t_collapse + COLLAPSE_MS);
    assert_eq!(g.phase, Phase::EnterUser);
    assert!(g.username.is_empty());
}

#[test]
fn grow_accepts_password_and_early_submit() {
    let mut g = Greeter::new();
    g.type_username("voyd");
    assert!(g.user_submit(1000));
    assert!(g.accepts_password_input());
    g.advance(1000 + GROW_MS / 2);
    assert!(matches!(g.phase, Phase::Growing { since: 1000 }));
    assert!(g.password_submit());
    assert_eq!(g.phase, Phase::Validating);
}

#[test]
fn passwordless_auth_ok_from_growing() {
    let mut g = Greeter::new();
    g.type_username("kiosk");
    g.user_submit(0);
    assert!(g.on_auth_ok());
    assert_eq!(g.phase, Phase::Starting);
}

#[test]
fn esc_cancel_returns_to_user() {
    let mut g = Greeter::new();
    to_password_phase(&mut g);
    g.cancel_to_user(10000);
    assert!(matches!(g.phase, Phase::Collapsing { .. }));
    g.advance(10000 + COLLAPSE_MS);
    assert_eq!(g.phase, Phase::EnterUser);
}

#[test]
fn auth_events_ignored_in_wrong_phases() {
    let mut g = Greeter::new();
    assert!(!g.on_auth_ok());
    g.on_auth_failed(0);
    assert_eq!(g.phase, Phase::EnterUser);
    g.cancel_to_user(0);
    assert_eq!(g.phase, Phase::EnterUser);
}

#[test]
fn username_editing() {
    let mut g = Greeter::new();
    g.type_username("  ");
    assert!(!g.user_submit(0));
    g.type_username("al\u{7}ice ");
    assert_eq!(g.username, "  alice ");
    assert_eq!(g.login_name(), "alice");
    g.erase_username(false);
    assert_eq!(g.username, "  alice");
    g.erase_username(true);
    assert!(g.username.is_empty());
    g.erase_username(false);
    assert!(g.username.is_empty());
    g.type_username(&"é".repeat(40));
    assert_eq!(g.username.chars().count(), USERNAME_MAX);
}
