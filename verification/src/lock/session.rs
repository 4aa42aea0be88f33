//! The lock screen's input controller: key actions, the password buffer,
//! the indicator machine and the generation-keyed timers, with the visual
//! and I/O effects each event asks of the caller. The caller draws, arms
//! the timers, and writes to and reads from the authentication child.
use vstd::prelude::*;
use crate::greet::secure_buf::{appended, char_start, SecureBuf};
use crate::lock::input::{
    auth_idle_spec, backspace_spec, clear_spec, reply_spec, submit_spec, Action, AuthState, InputState, Machine,
};

verus! {

/// A one-shot timer of the controller.
#[derive(Clone, Copy, Debug, PartialEq, Eq, Structural)]
pub enum Timer {
    /// Return the input indicator to idle.
    InputIdle,
    /// Clear a half-typed password.
    PasswordClear,
    /// End the wrong-password display.
    AuthInvalid,
}

/// What the caller does after an event.
#[derive(Clone, Copy, Debug, PartialEq, Eq, Structural)]
pub enum Effect {
    /// Flash for a typed key.
    KeyFlare,
    /// Flash for a deleted character.
    BackspaceFlare,
    /// Dim for a cleared buffer.
    ClearDim,
    /// The wrong-password display.
    Wrong,
    /// Arm the timer with this generation; when it fires, call `on_timer`
    /// with both.
    Arm(Timer, u64),
    /// Drop the authentication message shown.
    ClearStatus,
    /// Show that the authenticator is gone.
    StatusAuthBroken,
    /// Write the password to the authentication child, then call `on_sent`.
    Send,
    /// Unlock the session.
    Unlock,
}

pub struct Locker {
    pub machine: Machine,
    pub password: SecureBuf,
    /// The authentication child is gone: nothing can succeed any more.
    pub auth_dead: bool,
    pub input_idle_gen: u64,
    pub password_clear_gen: u64,
    pub auth_invalid_gen: u64,
}

impl Locker {
    pub open spec fn wf(&self) -> bool {
        &&& self.password.wf()
        &&& self.machine.failed_attempts < u32::MAX
        &&& self.input_idle_gen < u64::MAX
        &&& self.password_clear_gen < u64::MAX
        &&& self.auth_invalid_gen < u64::MAX
    }

    pub fn new() -> (l: Locker)
        ensures
            l.wf(),
            l.password.bytes().len() == 0,
            l.machine.input == InputState::Idle && l.machine.auth == AuthState::Idle,
            l.machine.failed_attempts == 0,
            !l.auth_dead,
            l.password.page() == Seq::new(crate::greet::secure_buf::PAGE as nat, |i: int| 0u8),
            l.input_idle_gen == 0,
            l.password_clear_gen == 0,
            l.auth_invalid_gen == 0,
    {
        Locker {
            machine: Machine::new(),
            password: SecureBuf::new(),
            auth_dead: false,
            input_idle_gen: 0,
            password_clear_gen: 0,
            auth_invalid_gen: 0,
        }
    }

    fn arm(&mut self, t: Timer, fx: &mut Vec<Effect>)
        requires
            t == Timer::InputIdle ==> old(self).input_idle_gen < u64::MAX,
            t == Timer::PasswordClear ==> old(self).password_clear_gen < u64::MAX,
            t == Timer::AuthInvalid ==> old(self).auth_invalid_gen < u64::MAX,
        ensures
            t == Timer::InputIdle ==> final(self).input_idle_gen == old(self).input_idle_gen + 1
                && final(fx)@ == old(fx)@.push(Effect::Arm(t, (old(self).input_idle_gen + 1) as u64)),
            t == Timer::PasswordClear ==> final(self).password_clear_gen == old(self).password_clear_gen + 1
                && final(fx)@ == old(fx)@.push(Effect::Arm(t, (old(self).password_clear_gen + 1) as u64)),
            t == Timer::AuthInvalid ==> final(self).auth_invalid_gen == old(self).auth_invalid_gen + 1
                && final(fx)@ == old(fx)@.push(Effect::Arm(t, (old(self).auth_invalid_gen + 1) as u64)),
            t != Timer::InputIdle ==> final(self).input_idle_gen == old(self).input_idle_gen,
            t != Timer::PasswordClear ==> final(self).password_clear_gen == old(self).password_clear_gen,
            t != Timer::AuthInvalid ==> final(self).auth_invalid_gen == old(self).auth_invalid_gen,
            final(self).machine == old(self).machine,
            final(self).password == old(self).password,
            final(self).auth_dead == old(self).auth_dead,
    {
        match t {
            Timer::InputIdle => {
                self.input_idle_gen = self.input_idle_gen + 1;
                fx.push(Effect::Arm(t, self.input_idle_gen));
            },
            Timer::PasswordClear => {
                self.password_clear_gen = self.password_clear_gen + 1;
                fx.push(Effect::Arm(t, self.password_clear_gen));
            },
            Timer::AuthInvalid => {
                self.auth_invalid_gen = self.auth_invalid_gen + 1;
                fx.push(Effect::Arm(t, self.auth_invalid_gen));
            },
        }
    }

    /// React to a key action.
    pub fn on_action(&mut self, a: Action) -> (fx: Vec<Effect>)
        requires
            old(self).wf(),
            old(self).input_idle_gen < u64::MAX - 1,
            old(self).password_clear_gen < u64::MAX - 1,
            old(self).auth_invalid_gen < u64::MAX - 1,
        ensures
            final(self).wf() || old(self).machine.failed_attempts + 1 == u32::MAX,
            final(self).password.wf(),
            match a {
                Action::Append(s) => {
                    &&& final(self).password.bytes() == appended(old(self).password.bytes(), s@)
                    &&& final(self).machine == (Machine { input: InputState::Letter, ..old(self).machine })
                    &&& fx@ == seq![
                        Effect::KeyFlare,
                        Effect::Arm(Timer::PasswordClear, (old(self).password_clear_gen + 1) as u64),
                        Effect::Arm(Timer::InputIdle, (old(self).input_idle_gen + 1) as u64),
                    ]
                },
                Action::PopChar => (old(self).password.bytes().len() > 0 ==> final(self).password.bytes()
                    == old(self).password.bytes().take(
                    char_start(old(self).password.bytes(), old(self).password.bytes().len() - 1),
                )) && if old(self).password.bytes().len() == 0 {
                    final(self).machine == old(self).machine && fx@.len() == 0 && final(self).password.bytes()
                        == old(self).password.bytes()
                } else if final(self).password.bytes().len() == 0 {
                    final(self).machine == backspace_spec(old(self).machine, true) && fx@ == seq![
                        Effect::ClearDim,
                        Effect::Arm(Timer::InputIdle, (old(self).input_idle_gen + 1) as u64),
                    ]
                } else {
                    final(self).machine == backspace_spec(old(self).machine, false) && fx@ == seq![
                        Effect::BackspaceFlare,
                        Effect::Arm(Timer::PasswordClear, (old(self).password_clear_gen + 1) as u64),
                        Effect::Arm(Timer::InputIdle, (old(self).input_idle_gen + 1) as u64),
                    ]
                },
                Action::ClearAll => {
                    &&& final(self).password.bytes().len() == 0
                    &&& final(self).machine == clear_spec(old(self).machine)
                    &&& fx@ == seq![Effect::ClearDim, Effect::Arm(Timer::InputIdle, (old(self).input_idle_gen + 1) as u64)]
                },
                Action::Submit => if old(self).password.bytes().len() == 0 {
                    final(self).machine == old(self).machine && fx@.len() == 0
                } else if old(self).auth_dead {
                    &&& final(self).password.bytes().len() == 0
                    &&& final(self).machine == reply_spec(submit_spec(old(self).machine).0, false)
                    &&& fx@ == seq![
                        Effect::Wrong,
                        Effect::StatusAuthBroken,
                        Effect::Arm(Timer::AuthInvalid, (old(self).auth_invalid_gen + 1) as u64),
                    ]
                } else {
                    &&& final(self).machine == submit_spec(old(self).machine).0
                    &&& final(self).password.bytes() == old(self).password.bytes()
                    &&& fx@ == (if submit_spec(old(self).machine).1 {
                        seq![Effect::ClearStatus, Effect::Send]
                    } else {
                        Seq::empty()
                    })
                },
                Action::Neutral => {
                    &&& final(self).password == old(self).password
                    &&& final(self).machine == (Machine { input: InputState::Neutral, ..old(self).machine })
                    &&& fx@ == seq![
                        Effect::Arm(Timer::PasswordClear, (old(self).password_clear_gen + 1) as u64),
                        Effect::Arm(Timer::InputIdle, (old(self).input_idle_gen + 1) as u64),
                    ]
                },
                Action::Ignore => final(self).machine == old(self).machine && fx@.len() == 0 && final(self).password
                    == old(self).password,
            },
            final(self).auth_dead == old(self).auth_dead,
    {
        let mut fx: Vec<Effect> = Vec::new();
        match a {
            Action::Append(s) => {
                self.password.push_str(s.as_str());
                self.machine.on_letter();
                fx.push(Effect::KeyFlare);
                self.arm(Timer::PasswordClear, &mut fx);
                self.arm(Timer::InputIdle, &mut fx);
            },
            Action::PopChar => {
                let removed = self.password.pop_char();
                let now_empty = self.password.is_empty();
                if removed {
                    self.machine.on_backspace(now_empty);
                    if now_empty {
                        fx.push(Effect::ClearDim);
                    } else {
                        fx.push(Effect::BackspaceFlare);
                        self.arm(Timer::PasswordClear, &mut fx);
                    }
                    self.arm(Timer::InputIdle, &mut fx);
                }
            },
            Action::ClearAll => {
                self.password.clear();
                self.machine.on_clear();
                fx.push(Effect::ClearDim);
                self.arm(Timer::InputIdle, &mut fx);
            },
            Action::Submit => {
                if self.password.is_empty() {
                    return fx;
                }
                if self.auth_dead {
                    self.password.clear();
                    self.machine.on_submit();
                    self.machine.on_reply(false);
                    fx.push(Effect::Wrong);
                    fx.push(Effect::StatusAuthBroken);
                    self.arm(Timer::AuthInvalid, &mut fx);
                    return fx;
                }
                let (go, _) = self.machine.on_submit();
                if go {
                    fx.push(Effect::ClearStatus);
                    fx.push(Effect::Send);
                }
            },
            Action::Neutral => {
                self.machine.on_neutral();
                self.arm(Timer::PasswordClear, &mut fx);
                self.arm(Timer::InputIdle, &mut fx);
            },
            Action::Ignore => {},
        }
        fx
    }

    /// The password was written to the authentication child (`ok`) or the
    /// channel broke. The buffer is cleared either way; a broken channel
    /// counts as a failed attempt so the machine does not stay validating.
    pub fn on_sent(&mut self, ok: bool) -> (fx: Vec<Effect>)
        requires
            old(self).wf(),
            old(self).auth_invalid_gen < u64::MAX - 1,
            old(self).input_idle_gen < u64::MAX - 1,
            old(self).password_clear_gen < u64::MAX - 1,
        ensures
            final(self).password.wf(),
            final(self).password.bytes().len() == 0,
            ok ==> final(self).machine == old(self).machine && fx@.len() == 0,
            !ok ==> final(self).machine == reply_spec(old(self).machine, false) && fx@ == seq![
                Effect::Wrong,
                Effect::Arm(Timer::AuthInvalid, (old(self).auth_invalid_gen + 1) as u64),
            ],
            final(self).auth_dead == old(self).auth_dead,
    {
        let mut fx: Vec<Effect> = Vec::new();
        self.password.clear();
        if !ok {
            self.machine.on_reply(false);
            fx.push(Effect::Wrong);
            self.arm(Timer::AuthInvalid, &mut fx);
        }
        fx
    }

    /// A verdict from the authentication child: `Some(true)` unlocks,
    /// `Some(false)` shows the failure (with PAM's message, which the
    /// caller displays), `None` means the child is gone: authentication
    /// returns to idle and every later submission fails.
    pub fn on_reply(&mut self, verdict: Option<bool>) -> (fx: Vec<Effect>)
        requires
            old(self).wf(),
            old(self).auth_invalid_gen < u64::MAX - 1,
            old(self).input_idle_gen < u64::MAX - 1,
            old(self).password_clear_gen < u64::MAX - 1,
        ensures
            final(self).password == old(self).password,
            verdict == Some(true) ==> final(self).machine == old(self).machine && fx@ == seq![Effect::Unlock]
                && final(self).auth_dead == old(self).auth_dead,
            verdict == Some(false) ==> final(self).machine == reply_spec(old(self).machine, false) && fx@ == seq![
                Effect::Wrong,
                Effect::Arm(Timer::AuthInvalid, (old(self).auth_invalid_gen + 1) as u64),
            ] && final(self).auth_dead == old(self).auth_dead,
            verdict is None ==> final(self).machine == (Machine { auth: AuthState::Idle, ..old(self).machine })
                && final(self).auth_dead && fx@.len() == 0,
    {
        let mut fx: Vec<Effect> = Vec::new();
        match verdict {
            Some(true) => {
                self.machine.on_reply(true);
                fx.push(Effect::Unlock);
            },
            Some(false) => {
                self.machine.on_reply(false);
                fx.push(Effect::Wrong);
                self.arm(Timer::AuthInvalid, &mut fx);
            },
            None => {
                self.machine.auth = AuthState::Idle;
                self.auth_dead = true;
            },
        }
        fx
    }

    /// A timer fired. Only the most recently armed generation acts; a
    /// stale one does nothing.
    pub fn on_timer(&mut self, t: Timer, gen: u64) -> (fx: Vec<Effect>)
        requires
            old(self).wf(),
        ensures
            final(self).password.wf(),
            final(self).auth_dead == old(self).auth_dead,
            t == Timer::InputIdle ==> fx@.len() == 0 && final(self).password == old(self).password
                && final(self).machine == (if gen == old(self).input_idle_gen {
                Machine { input: InputState::Idle, ..old(self).machine }
            } else {
                old(self).machine
            }),
            t == Timer::AuthInvalid ==> fx@.len() == 0 && final(self).password == old(self).password
                && final(self).machine == (if gen == old(self).auth_invalid_gen {
                auth_idle_spec(old(self).machine)
            } else {
                old(self).machine
            }),
            t == Timer::PasswordClear ==> if gen == old(self).password_clear_gen && old(self).password.bytes().len() > 0 {
                final(self).password.bytes().len() == 0 && final(self).machine == clear_spec(old(self).machine)
                    && fx@ == seq![Effect::ClearDim]
            } else {
                final(self).password == old(self).password && final(self).machine == old(self).machine
                    && fx@.len() == 0
            },
    {
        let mut fx: Vec<Effect> = Vec::new();
        match t {
            Timer::InputIdle => {
                if gen == self.input_idle_gen {
                    self.machine.on_input_idle();
                }
            },
            Timer::PasswordClear => {
                if gen == self.password_clear_gen && !self.password.is_empty() {
                    self.password.clear();
                    self.machine.on_clear();
                    fx.push(Effect::ClearDim);
                }
            },
            Timer::AuthInvalid => {
                if gen == self.auth_invalid_gen {
                    self.machine.on_auth_idle();
                }
            },
        }
        fx
    }
}

} // verus!
