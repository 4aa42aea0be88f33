use lifekit::lock::input::{Action, AuthState, InputState};
use lifekit::lock::session::{Effect, Locker, Timer};

#[test]
fn typing_submitting_and_a_wrong_verdict() {
    let mut l = Locker::new();
    let fx = l.on_action(Action::Append("pw".into()));
    assert_eq!(fx, vec![Effect::KeyFlare, Effect::Arm(Timer::PasswordClear, 1), Effect::Arm(Timer::InputIdle, 1)]);
    assert_eq!(l.password.as_bytes(), b"pw");
    assert_eq!(l.machine.input, InputState::Letter);
    assert_eq!(l.on_action(Action::Submit), vec![Effect::ClearStatus, Effect::Send]);
    assert_eq!(l.machine.auth, AuthState::Validating);
    assert!(l.on_sent(true).is_empty());
    assert!(l.password.is_empty());
    assert_eq!(l.on_reply(Some(false)), vec![Effect::Wrong, Effect::Arm(Timer::AuthInvalid, 1)]);
    assert_eq!(l.machine.failed_attempts, 1);
    assert!(l.on_timer(Timer::AuthInvalid, 1).is_empty());
    assert_eq!(l.machine.auth, AuthState::Idle);
}

#[test]
fn empty_submit_is_ignored_and_stale_timers_do_nothing() {
    let mut l = Locker::new();
    assert!(l.on_action(Action::Submit).is_empty());
    l.on_action(Action::Append("a".into()));
    l.on_action(Action::Append("b".into()));
    assert!(l.on_timer(Timer::PasswordClear, 1).is_empty());
    assert_eq!(l.password.len(), 2);
    assert_eq!(l.on_timer(Timer::PasswordClear, 2), vec![Effect::ClearDim]);
    assert!(l.password.is_empty());
    assert_eq!(l.machine.input, InputState::Clear);
    l.on_timer(Timer::InputIdle, 1);
    assert_eq!(l.machine.input, InputState::Clear);
    l.on_timer(Timer::InputIdle, 2);
    assert_eq!(l.machine.input, InputState::Idle);
}

#[test]
fn backspace_and_clear() {
    let mut l = Locker::new();
    assert!(l.on_action(Action::PopChar).is_empty());
    l.on_action(Action::Append("ab".into()));
    let fx = l.on_action(Action::PopChar);
    assert_eq!(fx, vec![Effect::BackspaceFlare, Effect::Arm(Timer::PasswordClear, 2), Effect::Arm(Timer::InputIdle, 2)]);
    assert_eq!(l.machine.input, InputState::Backspace);
    let fx = l.on_action(Action::PopChar);
    assert_eq!(fx, vec![Effect::ClearDim, Effect::Arm(Timer::InputIdle, 3)]);
    assert_eq!(l.machine.input, InputState::Clear);
    l.on_action(Action::Append("x".into()));
    assert_eq!(l.on_action(Action::ClearAll), vec![Effect::ClearDim, Effect::Arm(Timer::InputIdle, 5)]);
    assert!(l.password.is_empty());
    assert_eq!(l.on_action(Action::Neutral), vec![Effect::Arm(Timer::PasswordClear, 4), Effect::Arm(Timer::InputIdle, 6)]);
    assert!(l.on_action(Action::Ignore).is_empty());
}

#[test]
fn broken_channel_and_dead_child() {
    let mut l = Locker::new();
    l.on_action(Action::Append("pw".into()));
    l.on_action(Action::Submit);
    assert_eq!(l.on_sent(false), vec![Effect::Wrong, Effect::Arm(Timer::AuthInvalid, 1)]);
    assert_eq!(l.machine.auth, AuthState::Invalid);
    assert!(l.password.is_empty());
    assert!(l.on_reply(None).is_empty());
    assert!(l.auth_dead);
    assert_eq!(l.machine.auth, AuthState::Idle);
    l.on_action(Action::Append("pw".into()));
    let fx = l.on_action(Action::Submit);
    assert_eq!(fx, vec![Effect::Wrong, Effect::StatusAuthBroken, Effect::Arm(Timer::AuthInvalid, 2)]);
    assert_eq!(l.machine.failed_attempts, 2);
    assert!(l.password.is_empty());
    let mut ok = Locker::new();
    ok.on_action(Action::Append("pw".into()));
    ok.on_action(Action::Submit);
    assert_eq!(ok.on_reply(Some(true)), vec![Effect::Unlock]);
}

#[test]
fn new_locker_starts_clean() {
    let l = Locker::new();
    assert_eq!((l.input_idle_gen, l.password_clear_gen, l.auth_invalid_gen), (0, 0, 0));
    assert!(!l.auth_dead);
    assert_eq!(l.machine.failed_attempts, 0);
    assert!(l.password.is_empty());
}
