//! The greeter's side of the greetd conversation, as decisions: what to
//! send for each command from the UI, and what each greetd answer means
//! for the UI. The worker thread performs the socket reads and writes and
//! hands each answer back here.
use vstd::prelude::*;
use crate::chars::{chars_of, extend_chars, string_of};

verus! {

/// What the UI asks the worker to do.
pub enum IpcCmd {
    CreateSession { username: String },
    PostAuth { password: Option<String> },
    StartSession { cmd: Vec<String> },
    Cancel,
}

/// What the worker tells the UI.
#[derive(Debug)]
pub enum IpcEvent {
    /// greetd wants an answer to a prompt.
    Prompt { secret: bool, message: String },
    /// A display-only PAM line.
    Info(String),
    /// Authenticated: the UI should start the session.
    AuthOk,
    /// Refused: the UI resets and cancels.
    AuthFailed(String),
    /// The session start was accepted.
    SessionStarted,
    /// The socket is gone; nothing more can be done from inside.
    Fatal(String),
}

/// A request on the greetd socket.
pub enum Request {
    CreateSession { username: String },
    PostAuthMessageResponse { response: Option<String> },
    StartSession { cmd: Vec<String>, env: Vec<String> },
    CancelSession,
}

#[derive(Clone, Copy, Debug, PartialEq, Eq, Structural)]
pub enum AuthKind {
    Visible,
    Secret,
    Info,
    Error,
}

/// A greetd answer. `auth_error` tells an authentication failure from
/// another error.
pub enum Response {
    Success,
    Error { auth_error: bool, description: String },
    AuthMessage { kind: AuthKind, message: String },
}

/// What the worker reads after sending a request.
#[derive(Clone, Copy, Debug, PartialEq, Eq, Structural)]
pub enum Then {
    /// Answers of the authentication conversation, until one is final.
    PumpAuth,
    /// The answer to a session start.
    AwaitStart,
    /// The acknowledgement of a cancel, whatever it says.
    AwaitAck,
}

/// What the worker does for a command.
pub enum Plan {
    /// Nothing (a stale submission, or nothing to cancel).
    Skip,
    /// Cancel the lingering session first (sending the cancel and reading
    /// its acknowledgement) when `cancel_first`, then send `request` and
    /// read as `then` says.
    Send { cancel_first: bool, request: Request, then: Then },
}

/// What an answer means.
pub enum Outcome {
    /// Tell the UI; the conversation waits for the UI's next command.
    Done(IpcEvent),
    /// Tell the UI, acknowledge with an empty response and read on.
    More(IpcEvent),
    /// Tell the UI and stop: the session is starting.
    Exit(IpcEvent),
    /// The conversation broke.
    Fatal(String),
}

/// The worker's memory: whether greetd holds a session for us (from a
/// create until it starts, is cancelled, or the socket dies).
pub struct Conversation {
    pub in_session: bool,
}

pub open spec fn auth_failed_text() -> Seq<char> {
    "authentication failed"@
}

pub open spec fn start_failed_prefix() -> Seq<char> {
    "start_session: "@
}

impl Conversation {
    pub fn new() -> (c: Conversation)
        ensures
            !c.in_session,
    {
        Conversation { in_session: false }
    }

    /// Decide what a UI command turns into on the socket.
    pub fn on_cmd(&mut self, cmd: IpcCmd) -> (p: Plan)
        ensures
            match cmd {
                IpcCmd::CreateSession { username } => final(self).in_session && (p matches Plan::Send {
                    cancel_first,
                    request: Request::CreateSession { username: u },
                    then,
                } && cancel_first == old(self).in_session && u == username && then == Then::PumpAuth),
                IpcCmd::PostAuth { password } => final(self).in_session == old(self).in_session && if old(self).in_session {
                    p matches Plan::Send {
                        cancel_first,
                        request: Request::PostAuthMessageResponse { response },
                        then,
                    } && !cancel_first && response == password && then == Then::PumpAuth
                } else {
                    p is Skip
                },
                IpcCmd::StartSession { cmd: c } => final(self).in_session == old(self).in_session && (
                p matches Plan::Send { cancel_first, request: Request::StartSession { cmd: c2, env }, then }
                    && !cancel_first && c2 == c && env@.len() == 0 && then == Then::AwaitStart),
                IpcCmd::Cancel => !final(self).in_session && if old(self).in_session {
                    p matches Plan::Send { cancel_first, request: Request::CancelSession, then }
                        && !cancel_first && then == Then::AwaitAck
                } else {
                    p is Skip
                },
            },
    {
        match cmd {
            IpcCmd::CreateSession { username } => {
                let cancel_first = self.in_session;
                self.in_session = true;
                Plan::Send {
                    cancel_first,
                    request: Request::CreateSession { username },
                    then: Then::PumpAuth,
                }
            },
            IpcCmd::PostAuth { password } => {
                if !self.in_session {
                    Plan::Skip
                } else {
                    Plan::Send {
                        cancel_first: false,
                        request: Request::PostAuthMessageResponse { response: password },
                        then: Then::PumpAuth,
                    }
                }
            },
            IpcCmd::StartSession { cmd } => Plan::Send {
                cancel_first: false,
                request: Request::StartSession { cmd, env: Vec::new() },
                then: Then::AwaitStart,
            },
            IpcCmd::Cancel => {
                if self.in_session {
                    self.in_session = false;
                    Plan::Send { cancel_first: false, request: Request::CancelSession, then: Then::AwaitAck }
                } else {
                    Plan::Skip
                }
            },
        }
    }

    /// What an answer of the authentication conversation means: success
    /// and failures are final, a prompt waits for the UI, display-only
    /// lines are passed on and acknowledged.
    pub fn on_auth_response(&self, r: Response) -> (o: Outcome)
        ensures
            match r {
                Response::Success => o matches Outcome::Done(IpcEvent::AuthOk),
                Response::Error { auth_error, description } => o matches Outcome::Done(
                    IpcEvent::AuthFailed(m),
                ) && m@ == (if auth_error && description@.len() == 0 {
                    auth_failed_text()
                } else {
                    description@
                }),
                Response::AuthMessage { kind, message } => if kind == AuthKind::Secret || kind
                    == AuthKind::Visible {
                    o matches Outcome::Done(IpcEvent::Prompt { secret, message: m }) && secret == (kind
                        == AuthKind::Secret) && m == message
                } else {
                    o matches Outcome::More(IpcEvent::Info(m)) && m == message
                },
            },
    {
        match r {
            Response::Success => Outcome::Done(IpcEvent::AuthOk),
            Response::Error { auth_error, description } => {
                let msg = if auth_error && chars_of(description.as_str()).len() == 0 {
                    String::from_str("authentication failed")
                } else {
                    description
                };
                Outcome::Done(IpcEvent::AuthFailed(msg))
            },
            Response::AuthMessage { kind, message } => match kind {
                AuthKind::Secret => Outcome::Done(IpcEvent::Prompt { secret: true, message }),
                AuthKind::Visible => Outcome::Done(IpcEvent::Prompt { secret: false, message }),
                AuthKind::Info | AuthKind::Error => Outcome::More(IpcEvent::Info(message)),
            },
        }
    }

    /// What the answer to a session start means: success ends the worker,
    /// an error drops the session and is reported as a failure, anything
    /// else breaks the conversation.
    pub fn on_start_response(&mut self, r: Response) -> (o: Outcome)
        ensures
            match r {
                Response::Success => o matches Outcome::Exit(IpcEvent::SessionStarted)
                    && final(self).in_session == old(self).in_session,
                Response::Error { auth_error, description } => !final(self).in_session && (
                o matches Outcome::Done(IpcEvent::AuthFailed(m)) && m@ == start_failed_prefix()
                    + description@),
                Response::AuthMessage { .. } => final(self).in_session == old(self).in_session && (
                o matches Outcome::Fatal(m) && m@ == "unexpected reply to start_session"@),
            },
    {
        match r {
            Response::Success => Outcome::Exit(IpcEvent::SessionStarted),
            Response::Error { auth_error: _, description } => {
                self.in_session = false;
                let mut v = chars_of("start_session: ");
                extend_chars(&mut v, &chars_of(description.as_str()));
                Outcome::Done(IpcEvent::AuthFailed(string_of(&v)))
            },
            Response::AuthMessage { .. } => Outcome::Fatal(
                String::from_str("unexpected reply to start_session"),
            ),
        }
    }
}

#[verifier::external_type_specification]
#[verifier::external_body]
#[verifier::reject_recursive_types(T)]
pub struct ExSender<T>(std::sync::mpsc::Sender<T>);

/// `Sender::send`: queues the command for the worker; false once the
/// worker is gone (its receiver dropped), which the caller may ignore.
#[verifier::external_body]
fn send_cmd(tx: &std::sync::mpsc::Sender<IpcCmd>, cmd: IpcCmd) -> (queued: bool) {
    tx.send(cmd).is_ok()
}

/// The UI's handle on the worker.
pub struct Ipc {
    pub tx: std::sync::mpsc::Sender<IpcCmd>,
}

impl Ipc {
    /// Queue a command; a worker that has stopped drops it.
    pub fn send(&self, cmd: IpcCmd) {
        let _ = send_cmd(&self.tx, cmd);
    }
}

} // verus!
