use lifekit::lock::input::{key_action, Action, AuthState, InputState, Machine, TimerOps};
use xkeysym::Keysym;

fn ka(k: Keysym, utf8: Option<&str>, ctrl: bool) -> Action {
    key_action(k.raw(), utf8, ctrl)
}

#[test]
fn input_keysym_table() {
    assert_eq!(ka(Keysym::Return, Some("\r"), false), Action::Submit);
    assert_eq!(ka(Keysym::KP_Enter, None, false), Action::Submit);
    assert_eq!(ka(Keysym::m, Some("m"), true), Action::Submit);
    assert_eq!(ka(Keysym::m, Some("m"), false), Action::Append("m".into()));
    assert_eq!(ka(Keysym::BackSpace, None, false), Action::PopChar);
    assert_eq!(ka(Keysym::BackSpace, None, true), Action::ClearAll);
    assert_eq!(ka(Keysym::Delete, None, true), Action::ClearAll);
    assert_eq!(ka(Keysym::Escape, None, false), Action::ClearAll);
    assert_eq!(ka(Keysym::u, Some("u"), true), Action::ClearAll);
    assert_eq!(ka(Keysym::c, Some("c"), true), Action::ClearAll);
    assert_eq!(ka(Keysym::U, Some("U"), true), Action::ClearAll);
    assert_eq!(ka(Keysym::C, Some("C"), true), Action::ClearAll);
    assert_eq!(ka(Keysym::M, Some("M"), true), Action::Submit);
    assert_eq!(ka(Keysym::Shift_L, None, false), Action::Neutral);
    assert_eq!(ka(Keysym::a, Some("a"), false), Action::Append("a".into()));
    assert_eq!(ka(Keysym::a, Some("a"), true), Action::Ignore);
    assert_eq!(ka(Keysym::F5, None, false), Action::Ignore);
}

#[test]
fn every_modifier_is_neutral_and_empty_text_is_ignored() {
    for k in [
        Keysym::Caps_Lock,
        Keysym::Shift_L,
        Keysym::Shift_R,
        Keysym::Control_L,
        Keysym::Control_R,
        Keysym::Meta_L,
        Keysym::Meta_R,
        Keysym::Alt_L,
        Keysym::Alt_R,
        Keysym::Super_L,
        Keysym::Super_R,
    ] {
        assert_eq!(ka(k, None, false), Action::Neutral);
        assert_eq!(ka(k, Some("x"), true), Action::Neutral);
    }
    assert_eq!(ka(Keysym::KP_Delete, None, false), Action::PopChar);
    assert_eq!(ka(Keysym::j, Some("j"), true), Action::Submit);
    assert_eq!(ka(Keysym::D, Some("D"), true), Action::Submit);
    assert_eq!(ka(Keysym::a, Some(""), false), Action::Ignore);
    assert_eq!(ka(Keysym::eacute, Some("é"), false), Action::Append("é".into()));
}

#[test]
fn submit_gated_while_validating() {
    let mut m = Machine::new();
    let (go, _) = m.on_submit();
    assert!(go);
    assert_eq!(m.auth, AuthState::Validating);
    let (go2, _) = m.on_submit();
    assert!(!go2);
}

#[test]
fn wrong_reply_counts_and_resets() {
    let mut m = Machine::new();
    m.on_submit();
    assert!(!m.on_reply(false));
    assert_eq!(m.auth, AuthState::Invalid);
    assert_eq!(m.failed_attempts, 1);
    m.on_auth_idle();
    assert_eq!(m.auth, AuthState::Idle);
    m.on_submit();
    assert!(m.on_reply(true));
}

#[test]
fn backspace_to_empty_is_clear() {
    let mut m = Machine::new();
    let ops = m.on_backspace(true);
    assert_eq!(m.input, InputState::Clear);
    assert!(ops.cancel_password_clear);
    let ops = m.on_backspace(false);
    assert_eq!(m.input, InputState::Backspace);
    assert!(ops.arm_password_clear);
}

#[test]
fn timer_ops_per_event() {
    let mut m = Machine::new();
    let typing = TimerOps { arm_input_idle: true, arm_password_clear: true, cancel_password_clear: false };
    assert_eq!(m.on_letter(), typing);
    assert_eq!(m.input, InputState::Letter);
    assert_eq!(m.on_neutral(), typing);
    assert_eq!(m.input, InputState::Neutral);
    let cleared = TimerOps { arm_input_idle: true, arm_password_clear: false, cancel_password_clear: true };
    assert_eq!(m.on_clear(), cleared);
    m.on_input_idle();
    assert_eq!(m.input, InputState::Idle);
    let (go, ops) = m.on_submit();
    assert!(go);
    assert_eq!(ops, TimerOps { arm_input_idle: false, arm_password_clear: false, cancel_password_clear: true });
    let (go, ops) = m.on_submit();
    assert!(!go);
    assert_eq!(ops, TimerOps::default());
    m.on_auth_idle();
    assert_eq!(m.auth, AuthState::Validating);
}
