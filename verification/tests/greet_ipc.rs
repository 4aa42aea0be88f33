use lifekit::greet::ipc::{AuthKind, Conversation, Ipc, IpcCmd, IpcEvent, Outcome, Plan, Request, Response, Then};

fn create(c: &mut Conversation, user: &str) -> Plan {
    c.on_cmd(IpcCmd::CreateSession { username: user.to_string() })
}

#[test]
fn login_conversation_decisions() {
    let mut c = Conversation::new();
    match create(&mut c, "voyd") {
        Plan::Send { cancel_first: false, request: Request::CreateSession { username }, then: Then::PumpAuth } => {
            assert_eq!(username, "voyd")
        }
        _ => panic!("create"),
    }
    assert!(c.in_session);
    match c.on_auth_response(Response::AuthMessage { kind: AuthKind::Secret, message: "Password: ".into() }) {
        Outcome::Done(IpcEvent::Prompt { secret: true, message }) => assert_eq!(message, "Password: "),
        _ => panic!("prompt"),
    }
    match c.on_cmd(IpcCmd::PostAuth { password: Some("ok".into()) }) {
        Plan::Send { request: Request::PostAuthMessageResponse { response: Some(p) }, then: Then::PumpAuth, .. } => {
            assert_eq!(p, "ok")
        }
        _ => panic!("post"),
    }
    match c.on_auth_response(Response::AuthMessage { kind: AuthKind::Info, message: "Last login: yesterday".into() }) {
        Outcome::More(IpcEvent::Info(m)) => assert_eq!(m, "Last login: yesterday"),
        _ => panic!("info"),
    }
    assert!(matches!(c.on_auth_response(Response::Success), Outcome::Done(IpcEvent::AuthOk)));
    match c.on_cmd(IpcCmd::StartSession { cmd: vec!["niri-session".into()] }) {
        Plan::Send { request: Request::StartSession { cmd, env }, then: Then::AwaitStart, .. } => {
            assert_eq!(cmd, vec!["niri-session"]);
            assert!(env.is_empty());
        }
        _ => panic!("start"),
    }
    assert!(matches!(c.on_start_response(Response::Success), Outcome::Exit(IpcEvent::SessionStarted)));
}

#[test]
fn lingering_failed_session_is_cancelled_before_recreate() {
    let mut c = Conversation::new();
    create(&mut c, "relogin");
    match c.on_auth_response(Response::Error { auth_error: true, description: String::new() }) {
        Outcome::Done(IpcEvent::AuthFailed(m)) => assert_eq!(m, "authentication failed"),
        _ => panic!("failed"),
    }
    assert!(matches!(create(&mut c, "voyd"), Plan::Send { cancel_first: true, .. }));
}

#[test]
fn stale_submit_and_cancel_outside_session_are_skipped() {
    let mut c = Conversation::new();
    assert!(matches!(c.on_cmd(IpcCmd::PostAuth { password: None }), Plan::Skip));
    assert!(matches!(c.on_cmd(IpcCmd::Cancel), Plan::Skip));
    create(&mut c, "a");
    assert!(matches!(
        c.on_cmd(IpcCmd::Cancel),
        Plan::Send { request: Request::CancelSession, then: Then::AwaitAck, .. }
    ));
    assert!(!c.in_session);
    assert!(matches!(c.on_cmd(IpcCmd::PostAuth { password: Some("x".into()) }), Plan::Skip));
}

#[test]
fn error_texts() {
    let mut c = Conversation::new();
    match c.on_auth_response(Response::Error { auth_error: true, description: "denied".into() }) {
        Outcome::Done(IpcEvent::AuthFailed(m)) => assert_eq!(m, "denied"),
        _ => panic!(),
    }
    match c.on_auth_response(Response::Error { auth_error: false, description: String::new() }) {
        Outcome::Done(IpcEvent::AuthFailed(m)) => assert_eq!(m, ""),
        _ => panic!(),
    }
    match c.on_auth_response(Response::AuthMessage { kind: AuthKind::Visible, message: "OTP:".into() }) {
        Outcome::Done(IpcEvent::Prompt { secret: false, message }) => assert_eq!(message, "OTP:"),
        _ => panic!(),
    }
    create(&mut c, "u");
    match c.on_start_response(Response::Error { auth_error: false, description: "no such file".into() }) {
        Outcome::Done(IpcEvent::AuthFailed(m)) => assert_eq!(m, "start_session: no such file"),
        _ => panic!(),
    }
    assert!(!c.in_session);
    match c.on_start_response(Response::AuthMessage { kind: AuthKind::Info, message: "?".into() }) {
        Outcome::Fatal(m) => assert_eq!(m, "unexpected reply to start_session"),
        _ => panic!(),
    }
}

#[test]
fn ipc_send_queues_commands() {
    let (tx, rx) = std::sync::mpsc::channel();
    let ipc = Ipc { tx };
    ipc.send(IpcCmd::Cancel);
    assert!(matches!(rx.recv().unwrap(), IpcCmd::Cancel));
    drop(rx);
    ipc.send(IpcCmd::Cancel);
}

fn secret_prompt(c: &Conversation) -> Outcome {
    c.on_auth_response(Response::AuthMessage { kind: AuthKind::Secret, message: "Password: ".into() })
}

#[test]
fn full_login_conversation() {
    let mut c = Conversation::new();
    // Attempt 1: wrong password.
    assert!(matches!(
        create(&mut c, "voyd"),
        Plan::Send { cancel_first: false, request: Request::CreateSession { .. }, then: Then::PumpAuth }
    ));
    assert!(matches!(secret_prompt(&c), Outcome::Done(IpcEvent::Prompt { secret: true, .. })));
    match c.on_cmd(IpcCmd::PostAuth { password: Some("wrong".into()) }) {
        Plan::Send { request: Request::PostAuthMessageResponse { response: Some(p) }, .. } => assert_eq!(p, "wrong"),
        _ => panic!("post"),
    }
    assert!(matches!(
        c.on_auth_response(Response::Error { auth_error: true, description: String::new() }),
        Outcome::Done(IpcEvent::AuthFailed(_))
    ));
    // The app resets: cancel.
    assert!(matches!(
        c.on_cmd(IpcCmd::Cancel),
        Plan::Send { request: Request::CancelSession, then: Then::AwaitAck, .. }
    ));
    // Attempt 2: right password, with a display-only Info first.
    assert!(matches!(create(&mut c, "voyd"), Plan::Send { cancel_first: false, request: Request::CreateSession { .. }, .. }));
    assert!(matches!(secret_prompt(&c), Outcome::Done(IpcEvent::Prompt { secret: true, .. })));
    match c.on_cmd(IpcCmd::PostAuth { password: Some("ok".into()) }) {
        Plan::Send { request: Request::PostAuthMessageResponse { response: Some(p) }, .. } => assert_eq!(p, "ok"),
        _ => panic!("post"),
    }
    match c.on_auth_response(Response::AuthMessage { kind: AuthKind::Info, message: "Last login: yesterday".into() }) {
        Outcome::More(IpcEvent::Info(m)) => assert!(m.contains("Last login")),
        _ => panic!("info"),
    }
    assert!(matches!(c.on_auth_response(Response::Success), Outcome::Done(IpcEvent::AuthOk)));
    match c.on_cmd(IpcCmd::StartSession { cmd: vec!["niri-session".into()] }) {
        Plan::Send { request: Request::StartSession { cmd, .. }, then: Then::AwaitStart, .. } => {
            assert_eq!(cmd, vec!["niri-session"])
        }
        _ => panic!("start"),
    }
    assert!(matches!(c.on_start_response(Response::Success), Outcome::Exit(IpcEvent::SessionStarted)));
}

#[test]
fn second_secret_prompt_is_surfaced() {
    let mut c = Conversation::new();
    create(&mut c, "voyd");
    assert!(matches!(secret_prompt(&c), Outcome::Done(IpcEvent::Prompt { .. })));
    assert!(matches!(c.on_cmd(IpcCmd::PostAuth { password: Some("pw".into()) }), Plan::Send { .. }));
    // A second answer is wanted: the prompt reaches the app.
    assert!(matches!(secret_prompt(&c), Outcome::Done(IpcEvent::Prompt { secret: true, .. })));
    // What the app does with an unexpected prompt.
    assert!(matches!(c.on_cmd(IpcCmd::Cancel), Plan::Send { request: Request::CancelSession, .. }));
}
