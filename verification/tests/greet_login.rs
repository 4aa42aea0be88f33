use lifekit::greet::ipc::{IpcCmd, IpcEvent};
use lifekit::greet::login::{GreetEffect, Login, KEY_F3};
use lifekit::greet::secure_buf::SecureBuf;
use lifekit::greet::sessions::{SessionEntry, Sessions};
use lifekit::greet::state::{Greeter, Phase, GROW_MS, IDLE_COLLAPSE_MS};
use lifekit::lock::input::{KEY_BACKSPACE, KEY_DELETE, KEY_ESCAPE, KEY_RETURN};

fn entry(name: &str, cmd: &[&str]) -> SessionEntry {
    SessionEntry { name: name.to_string(), cmd: cmd.iter().map(|s| s.to_string()).collect() }
}

fn login() -> Login {
    let sessions = Sessions::from_entries(
        vec![entry("niri", &["niri-session"]), entry("Sway", &["sway"])],
        &vec!["niri-session".to_string()],
    );
    Login { greeter: Greeter::new(), password: SecureBuf::new(), sessions, password_clear_gen: 0, fatal: None }
}

fn type_text(l: &mut Login, s: &str, t: u64) -> Vec<GreetEffect> {
    l.on_key(0x61, Some(s), false, false, t)
}

fn to_password(l: &mut Login) {
    type_text(l, "voyd", 0);
    let fx = l.on_key(KEY_RETURN, None, false, false, 100);
    assert_eq!(fx.len(), 1);
    match &fx[0] {
        GreetEffect::Send(IpcCmd::CreateSession { username }) => assert_eq!(username, "voyd"),
        _ => panic!("expected CreateSession"),
    }
    l.greeter.advance(100 + GROW_MS);
    assert_eq!(l.greeter.phase, Phase::EnterPassword);
}

#[test]
fn ctrl_alt_delete_reboots_in_any_phase() {
    let mut l = login();
    let fx = l.on_key(KEY_DELETE, None, true, true, 0);
    assert_eq!(fx.len(), 1);
    assert!(matches!(fx[0], GreetEffect::Reboot));
}

#[test]
fn username_typing_and_erasing() {
    let mut l = login();
    type_text(&mut l, "ab", 0);
    assert_eq!(l.greeter.username, "ab");
    l.on_key(KEY_BACKSPACE, None, false, false, 0);
    assert_eq!(l.greeter.username, "a");
    l.on_key(0x75, Some("u"), true, false, 0);
    assert_eq!(l.greeter.username, "");
    let fx = l.on_key(KEY_RETURN, None, false, false, 0);
    assert!(fx.is_empty());
    assert_eq!(l.greeter.phase, Phase::EnterUser);
}

#[test]
fn f3_cycles_the_session() {
    let mut l = login();
    assert_eq!(l.sessions.current().name, "niri");
    l.on_key(KEY_F3, None, false, false, 0);
    assert_eq!(l.sessions.current().name, "Sway");
    l.on_key(KEY_F3, None, false, false, 0);
    assert_eq!(l.sessions.current().name, "niri");
}

#[test]
fn password_typing_arms_the_clear_timer() {
    let mut l = login();
    to_password(&mut l);
    let fx = type_text(&mut l, "pw", 1000);
    assert_eq!(l.password.as_bytes(), b"pw");
    assert!(matches!(fx[0], GreetEffect::KeyFlare));
    assert!(matches!(fx[1], GreetEffect::ArmPasswordClear(1)));
    let stale = l.on_password_clear(0);
    assert!(stale.is_empty());
    assert_eq!(l.password.len(), 2);
    let fx = l.on_password_clear(1);
    assert!(matches!(fx[0], GreetEffect::ClearDim));
    assert!(l.password.is_empty());
}

#[test]
fn escape_on_empty_password_backs_out() {
    let mut l = login();
    to_password(&mut l);
    let fx = l.on_key(KEY_ESCAPE, None, false, false, 2000);
    assert_eq!(fx.len(), 2);
    assert!(matches!(fx[0], GreetEffect::Send(IpcCmd::Cancel)));
    assert!(matches!(fx[1], GreetEffect::ClearDim));
    assert!(matches!(l.greeter.phase, Phase::Collapsing { .. }));
}

#[test]
fn escape_with_password_clears_it() {
    let mut l = login();
    to_password(&mut l);
    type_text(&mut l, "x", 1000);
    let fx = l.on_key(KEY_ESCAPE, None, false, false, 2000);
    assert_eq!(fx.len(), 1);
    assert!(l.password.is_empty());
    assert_eq!(l.greeter.phase, Phase::EnterPassword);
}

#[test]
fn enter_submits_only_a_nonempty_password() {
    let mut l = login();
    to_password(&mut l);
    let fx = l.on_key(KEY_RETURN, None, false, false, 1000);
    assert!(fx.is_empty());
    type_text(&mut l, "secret", 1000);
    let fx = l.on_key(KEY_RETURN, None, false, false, 1000);
    assert_eq!(fx.len(), 1);
    assert!(matches!(fx[0], GreetEffect::SendPassword));
    assert_eq!(l.greeter.phase, Phase::Validating);
    l.password_sent();
    assert!(l.password.is_empty());
}

#[test]
fn auth_ok_starts_the_selected_session_through_the_journal() {
    let mut l = login();
    to_password(&mut l);
    type_text(&mut l, "secret", 1000);
    l.on_key(KEY_RETURN, None, false, false, 1000);
    let fx = l.on_ipc_event(IpcEvent::AuthOk, 1100);
    assert_eq!(l.greeter.phase, Phase::Starting);
    match &fx[0] {
        GreetEffect::Send(IpcCmd::StartSession { cmd }) => {
            assert_eq!(cmd, &vec!["systemd-cat", "-t", "greetd-session", "--", "niri-session"]);
        }
        _ => panic!("expected StartSession"),
    }
    let fx = l.on_ipc_event(IpcEvent::SessionStarted, 1200);
    assert!(matches!(fx[0], GreetEffect::Exit));
}

#[test]
fn auth_failure_clears_and_cancels() {
    let mut l = login();
    to_password(&mut l);
    type_text(&mut l, "nope", 1000);
    l.on_key(KEY_RETURN, None, false, false, 1000);
    let fx = l.on_ipc_event(IpcEvent::AuthFailed("bad".to_string()), 1100);
    assert_eq!(fx.len(), 2);
    assert!(matches!(fx[0], GreetEffect::Wrong));
    assert!(matches!(fx[1], GreetEffect::Send(IpcCmd::Cancel)));
    assert!(l.password.is_empty());
    assert!(matches!(l.greeter.phase, Phase::Failed { .. }));
}

#[test]
fn second_prompt_while_validating_fails_the_login() {
    let mut l = login();
    to_password(&mut l);
    type_text(&mut l, "pw", 1000);
    l.on_key(KEY_RETURN, None, false, false, 1000);
    let fx = l.on_ipc_event(IpcEvent::Prompt { secret: true, message: "OTP".to_string() }, 1100);
    assert_eq!(fx.len(), 3);
    match &fx[2] {
        GreetEffect::Info(m) => assert_eq!(m, "unsupported extra auth prompt"),
        _ => panic!("expected Info"),
    }
}

#[test]
fn fatal_is_recorded() {
    let mut l = login();
    let fx = l.on_ipc_event(IpcEvent::Fatal("gone".to_string()), 0);
    assert!(fx.is_empty());
    assert_eq!(l.fatal.as_deref(), Some("gone"));
}

#[test]
fn idle_password_box_falls_back_to_the_username() {
    let mut l = login();
    to_password(&mut l);
    let t0 = 100 + GROW_MS;
    assert!(l.on_tick(t0 + IDLE_COLLAPSE_MS, t0).is_empty());
    assert_eq!(l.greeter.phase, Phase::EnterPassword);
    let fx = l.on_tick(t0 + IDLE_COLLAPSE_MS + 1, t0);
    assert!(matches!(fx[0], GreetEffect::Send(IpcCmd::Cancel)));
    assert!(matches!(l.greeter.phase, Phase::Collapsing { .. }));
}

#[test]
fn a_typed_password_keeps_the_box() {
    let mut l = login();
    to_password(&mut l);
    type_text(&mut l, "x", 1000);
    assert!(l.on_tick(1_000_000, 0).is_empty());
    assert_eq!(l.greeter.phase, Phase::EnterPassword);
}

#[test]
fn session_line_only_with_a_choice() {
    let l = login();
    assert_eq!(l.session_line().as_deref(), Some("F3: niri"));
    let one = Login {
        greeter: Greeter::new(),
        password: SecureBuf::new(),
        sessions: Sessions::from_entries(vec![entry("niri", &["niri-session"])], &vec![]),
        password_clear_gen: 0,
        fatal: None,
    };
    assert_eq!(one.session_line(), None);
}

#[test]
fn fatal_message_wins_over_info() {
    let mut l = login();
    assert_eq!(l.message_line(Some("Last login".into())).as_deref(), Some("Last login"));
    assert_eq!(l.message_line(None), None);
    l.fatal = Some("greetd gone".into());
    assert_eq!(l.message_line(Some("Last login".into())).as_deref(), Some("greetd gone"));
}
