//! The greeter's input and greetd-event controller: which key goes where
//! in each phase, what each greetd answer does to the phases, the password
//! and the session picker, and the effects the caller performs (drawing,
//! timers, commands to the greetd worker, rebooting, exiting).
use vstd::prelude::*;
use crate::greet::ipc::{IpcCmd, IpcEvent};
use crate::greet::secure_buf::{appended, char_start, SecureBuf};
use crate::greet::sessions::{cmd_view, str_views, Sessions};
use crate::greet::state::{advance_spec, auth_failed_spec, cancel_spec, takes_password, typed, user_submit_spec, Greeter, Phase, IDLE_COLLAPSE_MS};
use crate::chars::{chars_of, extend_chars, string_of, trim};
use crate::lock::input::{key_action, key_spec, Action, KEY_BACKSPACE, KEY_DELETE, KEY_ESCAPE, KEY_KP_DELETE, KEY_KP_ENTER, KEY_RETURN};

verus! {

/// The F3 keysym: cycle sessions.
pub const KEY_F3: u32 = 0xffc0;

/// What the caller does after an event.
pub enum GreetEffect {
    /// Ctrl+Alt+Del: reboot the machine.
    Reboot,
    /// Send a command to the greetd worker.
    Send(IpcCmd),
    /// Send the password bytes (as text) to the greetd worker, then call
    /// `password_sent`.
    SendPassword,
    KeyFlare,
    BackspaceFlare,
    ClearDim,
    Wrong,
    /// Arm the password-clear timer with this generation.
    ArmPasswordClear(u64),
    /// Show this line under the date.
    Info(String),
    /// The session is starting: exit successfully.
    Exit,
}

pub struct Login {
    pub greeter: Greeter,
    pub password: SecureBuf,
    pub sessions: Sessions,
    pub password_clear_gen: u64,
    /// The worker reported the conversation broken.
    pub fatal: Option<String>,
}

/// The command that starts a session: its output goes to the journal.
pub open spec fn start_cmd(session: Seq<Seq<char>>) -> Seq<Seq<char>> {
    seq!["systemd-cat"@, "-t"@, "greetd-session"@, "--"@] + session
}

/// The key's text, as characters.
pub open spec fn text_of(utf8: Option<&str>) -> Option<Seq<char>> {
    match utf8 {
        Some(s) => Some(s@),
        None => None,
    }
}

/// A key in the username box (from `a` to `b`, effects `fx0` then `fx1`):
/// F3 cycles the session; Enter submits a non-blank name (creating the
/// greetd session for the trimmed name); Backspace deletes a character
/// (Ctrl: all); Esc and Ctrl+U clear; other text without Ctrl is typed.
pub open spec fn username_key(
    a: Login,
    b: Login,
    keysym: u32,
    text: Option<Seq<char>>,
    ctrl: bool,
    t: u64,
    fx0: Seq<GreetEffect>,
    fx1: Seq<GreetEffect>,
) -> bool {
    &&& b.password == a.password
    &&& b.password_clear_gen == a.password_clear_gen
    &&& b.fatal == a.fatal
    &&& keysym == KEY_F3 ==> b.greeter == a.greeter && b.sessions.index() == (a.sessions.index() + 1) % (
    a.sessions.names().len() as int) && b.sessions.names() == a.sessions.names() && b.sessions.cmds()
        == a.sessions.cmds()
    &&& keysym != KEY_F3 ==> b.sessions == a.sessions
    &&& keysym == KEY_RETURN || keysym == KEY_KP_ENTER ==> ({
        let go = user_submit_spec(a.greeter.phase, a.greeter.username@, t);
        &&& b.greeter.username == a.greeter.username
        &&& match go {
            Some(p) => b.greeter.phase == p && fx1 == fx0.push(
                GreetEffect::Send(IpcCmd::CreateSession { username: fx1.last()->Send_0->username }),
            ) && fx1.last()->Send_0->username@ == trim(a.greeter.username@),
            None => b.greeter == a.greeter && fx1 == fx0,
        }
    })
    &&& keysym == KEY_BACKSPACE ==> b.greeter.phase == a.greeter.phase && (if ctrl {
        b.greeter.username@.len() == 0
    } else {
        b.greeter.username@ == (if a.greeter.username@.len() == 0 {
            a.greeter.username@
        } else {
            a.greeter.username@.drop_last()
        })
    })
    &&& keysym == KEY_ESCAPE || ((keysym == 0x75 || keysym == 0x55) && ctrl) ==> b.greeter.phase
        == a.greeter.phase && b.greeter.username@.len() == 0
    &&& !(keysym == KEY_F3 || keysym == KEY_RETURN || keysym == KEY_KP_ENTER || keysym == KEY_BACKSPACE
        || keysym == KEY_ESCAPE || ((keysym == 0x75 || keysym == 0x55) && ctrl)) ==> b.greeter.phase
        == a.greeter.phase && b.greeter.username@ == (match text {
        Some(s) if !ctrl => typed(a.greeter.username@, s),
        _ => a.greeter.username@,
    })
    &&& keysym != KEY_RETURN && keysym != KEY_KP_ENTER ==> fx1 == fx0
}

/// A key while the password is taken (from `a` to `b`, effects `fx0`
/// then `fx1`): text is appended (a flare, the clear timer re-armed);
/// Backspace deletes a character (a flare and the timer, or a dim when
/// that empties it); the clearing keys empty it, except Esc on an empty
/// password, which backs out to the username box and cancels the greetd
/// session; Enter submits a non-empty password; other keys do nothing.
pub open spec fn password_key(
    a: Login,
    b: Login,
    keysym: u32,
    text: Option<Seq<char>>,
    ctrl: bool,
    t: u64,
    fx0: Seq<GreetEffect>,
    fx1: Seq<GreetEffect>,
) -> bool {
    let gen1 = (a.password_clear_gen + 1) as u64;
    &&& b.sessions == a.sessions
    &&& b.fatal == a.fatal
    &&& b.greeter.username == a.greeter.username
    &&& match key_spec(keysym, text, ctrl) {
        None => {
            &&& b.greeter == a.greeter
            &&& b.password.bytes() == appended(a.password.bytes(), text.unwrap())
            &&& b.password_clear_gen == gen1
            &&& fx1 == fx0.push(GreetEffect::KeyFlare).push(GreetEffect::ArmPasswordClear(gen1))
        },
        Some(Action::PopChar) => {
            &&& b.greeter == a.greeter
            &&& if a.password.bytes().len() == 0 {
                b.password.bytes() == a.password.bytes() && b.password_clear_gen == a.password_clear_gen && fx1
                    == fx0
            } else {
                let left = a.password.bytes().take(char_start(a.password.bytes(), a.password.bytes().len() - 1));
                &&& b.password.bytes() == left
                &&& if left.len() == 0 {
                    b.password_clear_gen == a.password_clear_gen && fx1 == fx0.push(GreetEffect::ClearDim)
                } else {
                    b.password_clear_gen == gen1 && fx1 == fx0.push(GreetEffect::BackspaceFlare).push(
                        GreetEffect::ArmPasswordClear(gen1),
                    )
                }
            }
        },
        Some(Action::ClearAll) => {
            &&& b.password_clear_gen == a.password_clear_gen
            &&& if keysym == KEY_ESCAPE && a.password.bytes().len() == 0 {
                &&& b.greeter.phase == cancel_spec(a.greeter.phase, t)
                &&& b.password.bytes() == a.password.bytes()
                &&& fx1 == fx0.push(GreetEffect::Send(IpcCmd::Cancel)).push(GreetEffect::ClearDim)
            } else {
                b.greeter == a.greeter && b.password.bytes().len() == 0 && fx1 == fx0.push(GreetEffect::ClearDim)
            }
        },
        Some(Action::Submit) => {
            &&& b.password == a.password
            &&& b.password_clear_gen == a.password_clear_gen
            &&& if a.password.bytes().len() == 0 {
                b.greeter == a.greeter && fx1 == fx0
            } else {
                b.greeter.phase == Phase::Validating && fx1 == fx0.push(GreetEffect::SendPassword)
            }
        },
        Some(_) => b.greeter == a.greeter && b.password == a.password && b.password_clear_gen
            == a.password_clear_gen && fx1 == fx0,
    }
}

impl Login {
    /// The session line under the username box: `F3: ` and the chosen
    /// session's name, shown only when there is more than one to pick.
    pub fn session_line(&self) -> (r: Option<String>)
        ensures
            self.sessions.names().len() > 1 ==> (r matches Some(s) && s@ == "F3: "@
                + self.sessions.names()[self.sessions.index()]),
            self.sessions.names().len() <= 1 ==> r is None,
    {
        if self.sessions.len() <= 1 {
            return None;
        }
        let mut v = chars_of("F3: ");
        let name = chars_of(self.sessions.current().name.as_str());
        extend_chars(&mut v, &name);
        Some(string_of(&v))
    }

    /// The message line: a broken conversation's message wins over the
    /// transient `info`.
    pub fn message_line(&self, info: Option<String>) -> (r: Option<String>)
        ensures
            r == (match self.fatal {
                Some(f) => Some(f),
                None => info,
            }),
    {
        match &self.fatal {
            Some(f) => Some(f.clone()),
            None => info,
        }
    }

    pub open spec fn wf(&self) -> bool {
        &&& self.password.wf()
        &&& self.password_clear_gen < u64::MAX
    }

    fn arm(&mut self, fx: &mut Vec<GreetEffect>)
        requires
            old(self).password_clear_gen < u64::MAX,
        ensures
            final(self).password_clear_gen == old(self).password_clear_gen + 1,
            final(fx)@.len() == old(fx)@.len() + 1,
            forall|k: int| 0 <= k < old(fx)@.len() ==> final(fx)@[k] == old(fx)@[k],
            final(fx)@.last() == GreetEffect::ArmPasswordClear(final(self).password_clear_gen),
            final(self).greeter == old(self).greeter,
            final(self).password == old(self).password,
            final(self).sessions == old(self).sessions,
            final(self).fatal == old(self).fatal,
    {
        self.password_clear_gen = self.password_clear_gen + 1;
        fx.push(GreetEffect::ArmPasswordClear(self.password_clear_gen));
    }

    /// A key press: Ctrl+Alt+Del reboots; in the username box the name is
    /// edited and submitted; while the cube grows or stands the password
    /// takes the keys; otherwise keys are ignored.
    pub fn on_key(&mut self, keysym: u32, utf8: Option<&str>, ctrl: bool, alt: bool, t: u64) -> (fx: Vec<GreetEffect>)
        requires
            old(self).wf(),
            old(self).password_clear_gen < u64::MAX - 1,
        ensures
            final(self).password.wf(),
            final(self).password_clear_gen < u64::MAX,
            if ctrl && alt && (keysym == KEY_DELETE || keysym == KEY_KP_DELETE) {
                fx@ == seq![GreetEffect::Reboot] && *final(self) == *old(self)
            } else if old(self).greeter.phase == Phase::EnterUser {
                username_key(*old(self), *final(self), keysym, text_of(utf8), ctrl, t, Seq::empty(), fx@)
            } else if takes_password(old(self).greeter.phase) {
                password_key(*old(self), *final(self), keysym, text_of(utf8), ctrl, t, Seq::empty(), fx@)
            } else {
                fx@.len() == 0 && *final(self) == *old(self)
            },
    {
        let mut fx: Vec<GreetEffect> = Vec::new();
        if ctrl && alt && (keysym == KEY_DELETE || keysym == KEY_KP_DELETE) {
            fx.push(GreetEffect::Reboot);
            return fx;
        }
        match self.greeter.phase {
            Phase::EnterUser => {
                self.on_key_username(keysym, utf8, ctrl, t, &mut fx);
            },
            Phase::Growing { .. } | Phase::EnterPassword => {
                self.on_key_password(keysym, utf8, ctrl, t, &mut fx);
            },
            _ => {},
        }
        fx
    }

    /// The username box: F3 cycles sessions, Enter submits the name,
    /// Backspace deletes (all with Ctrl), Esc and Ctrl+U clear, other
    /// text without Ctrl is typed.
    pub fn on_key_username(&mut self, keysym: u32, utf8: Option<&str>, ctrl: bool, t: u64, fx: &mut Vec<GreetEffect>)
        requires
            old(self).greeter.phase == Phase::EnterUser,
        ensures
            username_key(*old(self), *final(self), keysym, text_of(utf8), ctrl, t, old(fx)@, final(fx)@),
    {
        if keysym == KEY_F3 {
            self.sessions.cycle();
        } else if keysym == KEY_RETURN || keysym == KEY_KP_ENTER {
            if self.greeter.user_submit(t) {
                let username = self.greeter.login_name();
                fx.push(GreetEffect::Send(IpcCmd::CreateSession { username }));
            }
        } else if keysym == KEY_BACKSPACE {
            self.greeter.erase_username(ctrl);
        } else if keysym == KEY_ESCAPE {
            self.greeter.erase_username(true);
        } else if (keysym == 0x75 || keysym == 0x55) && ctrl {
            self.greeter.erase_username(true);
        } else if !ctrl {
            match utf8 {
                Some(s) => self.greeter.type_username(s),
                None => {},
            }
        }
    }

    /// Password keys: typed text goes to the buffer, deletion and clearing
    /// as on the lock screen; Esc on an empty password backs out to the
    /// username box; Enter submits a non-empty password.
    pub fn on_key_password(&mut self, keysym: u32, utf8: Option<&str>, ctrl: bool, t: u64, fx: &mut Vec<GreetEffect>)
        requires
            takes_password(old(self).greeter.phase),
            old(self).password.wf(),
            old(self).password_clear_gen < u64::MAX,
        ensures
            final(self).password.wf(),
            final(self).password_clear_gen <= old(self).password_clear_gen + 1,
            password_key(*old(self), *final(self), keysym, text_of(utf8), ctrl, t, old(fx)@, final(fx)@),
    {
        let a = key_action(keysym, utf8, ctrl);
        match a {
            Action::Append(s) => {
                self.password.push_str(s.as_str());
                fx.push(GreetEffect::KeyFlare);
                let ghost mid = fx@;
                self.arm(fx);
                proof {
                    assert(fx@ =~= mid.push(GreetEffect::ArmPasswordClear(self.password_clear_gen)));
                }
            },
            Action::PopChar => {
                if self.password.pop_char() {
                    if self.password.is_empty() {
                        fx.push(GreetEffect::ClearDim);
                    } else {
                        fx.push(GreetEffect::BackspaceFlare);
                        let ghost mid = fx@;
                        self.arm(fx);
                        proof {
                            assert(fx@ =~= mid.push(GreetEffect::ArmPasswordClear(self.password_clear_gen)));
                        }
                    }
                }
            },
            Action::ClearAll => {
                if keysym == KEY_ESCAPE && self.password.is_empty() {
                    self.greeter.cancel_to_user(t);
                    fx.push(GreetEffect::Send(IpcCmd::Cancel));
                    fx.push(GreetEffect::ClearDim);
                } else {
                    self.password.clear();
                    fx.push(GreetEffect::ClearDim);
                }
            },
            Action::Submit => {
                if self.password.is_empty() {
                    return;
                }
                if self.greeter.password_submit() {
                    fx.push(GreetEffect::SendPassword);
                }
            },
            Action::Neutral | Action::Ignore => {},
        }
    }

    /// The password went to the worker: the buffer is cleared.
    pub fn password_sent(&mut self)
        requires
            old(self).password.wf(),
        ensures
            final(self).password.wf(),
            final(self).password.bytes().len() == 0,
            final(self).greeter == old(self).greeter,
    {
        self.password.clear();
    }

    /// A greetd event: a second prompt while validating is unsupported and
    /// fails the login; success starts the selected session through the
    /// journal; failure clears the password, shows it and cancels.
    pub fn on_ipc_event(&mut self, ev: IpcEvent, t: u64) -> (fx: Vec<GreetEffect>)
        requires
            old(self).password.wf(),
        ensures
            final(self).password.wf(),
            final(self).sessions == old(self).sessions,
            match ev {
                IpcEvent::Prompt { .. } => if old(self).greeter.phase == Phase::Validating {
                    &&& final(self).password.bytes().len() == 0
                    &&& final(self).greeter.phase == auth_failed_spec(old(self).greeter.phase, t)
                    &&& fx@.len() == 3 && fx@[0] is Wrong && (fx@[1] matches GreetEffect::Send(IpcCmd::Cancel))
                    &&& (fx@[2] matches GreetEffect::Info(m) && m@ == "unsupported extra auth prompt"@)
                } else {
                    final(self).greeter == old(self).greeter && fx@.len() == 0
                },
                IpcEvent::Info(m) => final(self).greeter == old(self).greeter && fx@ == seq![GreetEffect::Info(m)],
                IpcEvent::AuthOk => if old(self).greeter.phase is Growing || old(self).greeter.phase is EnterPassword
                    || old(self).greeter.phase is Validating {
                    &&& final(self).greeter.phase == Phase::Starting
                    &&& fx@.len() == 1
                    &&& (fx@[0] matches GreetEffect::Send(IpcCmd::StartSession { cmd }) && str_views(cmd@)
                        == start_cmd(old(self).sessions.cmds()[old(self).sessions.index()]))
                } else {
                    final(self).greeter == old(self).greeter && fx@.len() == 0
                },
                IpcEvent::AuthFailed(_) => {
                    &&& final(self).password.bytes().len() == 0
                    &&& final(self).greeter.phase == auth_failed_spec(old(self).greeter.phase, t)
                    &&& fx@.len() == 2 && fx@[0] is Wrong && (fx@[1] matches GreetEffect::Send(IpcCmd::Cancel))
                },
                IpcEvent::SessionStarted => final(self).greeter == old(self).greeter && fx@.len() == 1 && fx@[0] is Exit,
                IpcEvent::Fatal(m) => final(self).greeter == old(self).greeter && fx@.len() == 0 && final(self).fatal
                    == Some(m),
            },
    {
        let mut fx: Vec<GreetEffect> = Vec::new();
        match ev {
            IpcEvent::Prompt { .. } => {
                if self.greeter.phase == Phase::Validating {
                    self.password.clear();
                    self.greeter.on_auth_failed(t);
                    fx.push(GreetEffect::Wrong);
                    fx.push(GreetEffect::Send(IpcCmd::Cancel));
                    fx.push(GreetEffect::Info(String::from_str("unsupported extra auth prompt")));
                }
            },
            IpcEvent::Info(m) => {
                fx.push(GreetEffect::Info(m));
            },
            IpcEvent::AuthOk => {
                if self.greeter.on_auth_ok() {
                    let mut cmd: Vec<String> = vec![
                        String::from_str("systemd-cat"),
                        String::from_str("-t"),
                        String::from_str("greetd-session"),
                        String::from_str("--"),
                    ];
                    let cur = self.sessions.current();
                    let ghost head = str_views(cmd@);
                    for k in 0..cur.cmd.len()
                        invariant
                            head == seq!["systemd-cat"@, "-t"@, "greetd-session"@, "--"@],
                            str_views(cmd@) == head + cmd_view(*cur).take(k as int),
                    {
                        let ghost before = str_views(cmd@);
                        let w = cur.cmd[k].clone();
                        cmd.push(w);
                        proof {
                            assert(str_views(cmd@) =~= before.push(cur.cmd@[k as int]@));
                            assert(cmd_view(*cur).take(k + 1) =~= cmd_view(*cur).take(k as int).push(
                                cur.cmd@[k as int]@,
                            ));
                            assert(str_views(cmd@) =~= head + cmd_view(*cur).take(k + 1));
                        }
                    }
                    proof {
                        assert(cmd_view(*cur).take(cur.cmd@.len() as int) =~= cmd_view(*cur));
                    }
                    fx.push(GreetEffect::Send(IpcCmd::StartSession { cmd }));
                }
            },
            IpcEvent::AuthFailed(_) => {
                self.password.clear();
                self.greeter.on_auth_failed(t);
                fx.push(GreetEffect::Wrong);
                fx.push(GreetEffect::Send(IpcCmd::Cancel));
            },
            IpcEvent::SessionStarted => {
                fx.push(GreetEffect::Exit);
            },
            IpcEvent::Fatal(m) => {
                self.fatal = Some(m);
            },
        }
        fx
    }

    /// The password-clear timer fired: only the latest generation clears a
    /// non-empty password.
    pub fn on_password_clear(&mut self, gen: u64) -> (fx: Vec<GreetEffect>)
        requires
            old(self).password.wf(),
        ensures
            final(self).password.wf(),
            final(self).greeter == old(self).greeter,
            if gen == old(self).password_clear_gen && old(self).password.bytes().len() > 0 {
                final(self).password.bytes().len() == 0 && fx@.len() == 1 && fx@[0] is ClearDim
            } else {
                final(self).password == old(self).password && fx@.len() == 0
            },
    {
        let mut fx: Vec<GreetEffect> = Vec::new();
        if gen == self.password_clear_gen && !self.password.is_empty() {
            self.password.clear();
            fx.push(GreetEffect::ClearDim);
        }
        fx
    }
    /// A frame tick at scene time `t`, the last key having come at
    /// `last_key_t`: the timed phases advance, and sitting at the password
    /// box with nothing typed for longer than `IDLE_COLLAPSE_MS` falls back
    /// to the username box (the name is entered anew each attempt) and
    /// cancels the greetd session.
    pub fn on_tick(&mut self, t: u64, last_key_t: u64) -> (fx: Vec<GreetEffect>)
        requires
            old(self).password.wf(),
        ensures
            final(self).password == old(self).password,
            final(self).sessions == old(self).sessions,
            ({
                let (p, clear) = advance_spec(old(self).greeter.phase, t);
                let idle = p == Phase::EnterPassword && old(self).password.bytes().len() == 0 && t > last_key_t
                    && t - last_key_t > IDLE_COLLAPSE_MS;
                &&& final(self).greeter.phase == (if idle {
                    cancel_spec(p, t)
                } else {
                    p
                })
                &&& clear ==> final(self).greeter.username@.len() == 0
                &&& !clear ==> final(self).greeter.username == old(self).greeter.username
                &&& fx@.len() == (if idle {
                    1int
                } else {
                    0int
                })
                &&& idle ==> (fx@[0] matches GreetEffect::Send(IpcCmd::Cancel))
            }),
    {
        let mut fx: Vec<GreetEffect> = Vec::new();
        self.greeter.advance(t);
        if self.greeter.phase == Phase::EnterPassword && self.password.is_empty() && t > last_key_t && t
            - last_key_t > IDLE_COLLAPSE_MS {
            self.greeter.cancel_to_user(t);
            fx.push(GreetEffect::Send(IpcCmd::Cancel));
        }
        fx
    }
}

} // verus!
