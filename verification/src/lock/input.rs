//! Keyboard handling and the lock screen's indicator state machines: what a
//! key press means, and how the input and authentication indicators move
//! on each event. The caller owns the timers and performs the actions.
use vstd::prelude::*;
use crate::chars::chars_of;

verus! {

/// Keysym values (X11 keysym numbering, as xkbcommon reports them).
pub const KEY_RETURN: u32 = 0xff0d;

pub const KEY_KP_ENTER: u32 = 0xff8d;

pub const KEY_BACKSPACE: u32 = 0xff08;

pub const KEY_DELETE: u32 = 0xffff;

pub const KEY_KP_DELETE: u32 = 0xff9f;

pub const KEY_ESCAPE: u32 = 0xff1b;

pub const KEY_CAPS_LOCK: u32 = 0xffe5;

pub const KEY_SHIFT_L: u32 = 0xffe1;

pub const KEY_SHIFT_R: u32 = 0xffe2;

pub const KEY_CONTROL_L: u32 = 0xffe3;

pub const KEY_CONTROL_R: u32 = 0xffe4;

pub const KEY_META_L: u32 = 0xffe7;

pub const KEY_META_R: u32 = 0xffe8;

pub const KEY_ALT_L: u32 = 0xffe9;

pub const KEY_ALT_R: u32 = 0xffea;

pub const KEY_SUPER_L: u32 = 0xffeb;

pub const KEY_SUPER_R: u32 = 0xffec;

/// What a key press means.
#[derive(Debug, PartialEq, Eq)]
pub enum Action {
    /// Append this text to the password buffer.
    Append(String),
    /// Delete one character (Backspace/Delete without Ctrl).
    PopChar,
    /// Clear the whole buffer (Esc, Ctrl+U, Ctrl+C, Ctrl+Backspace/Delete).
    ClearAll,
    /// Submit the buffer (Return, KP_Enter, Ctrl+m/j/d).
    Submit,
    /// A bare modifier went down (Shift, Ctrl, Caps, Alt, Super).
    Neutral,
    /// Nothing relevant.
    Ignore,
}

/// Keys that submit when Ctrl is held: m, j, d in either case.
pub open spec fn is_submit_chord(k: u32) -> bool {
    k == 0x6d || k == 0x6a || k == 0x64 || k == 0x4d || k == 0x4a || k == 0x44
}

/// Keys that clear when Ctrl is held: u, c in either case.
pub open spec fn is_clear_chord(k: u32) -> bool {
    k == 0x75 || k == 0x63 || k == 0x55 || k == 0x43
}

pub open spec fn is_erase_key(k: u32) -> bool {
    k == KEY_BACKSPACE || k == KEY_DELETE || k == KEY_KP_DELETE
}

pub open spec fn is_modifier_key(k: u32) -> bool {
    ||| k == KEY_CAPS_LOCK
    ||| k == KEY_SHIFT_L
    ||| k == KEY_SHIFT_R
    ||| k == KEY_CONTROL_L
    ||| k == KEY_CONTROL_R
    ||| k == KEY_META_L
    ||| k == KEY_META_R
    ||| k == KEY_ALT_L
    ||| k == KEY_ALT_R
    ||| k == KEY_SUPER_L
    ||| k == KEY_SUPER_R
}

/// The meaning of a key press, with the text it produced (if any) and
/// whether Ctrl is held; None stands for appending that text. With Caps
/// Lock on, letters report their uppercase keysym, so the Ctrl chords match
/// both cases.
pub open spec fn key_spec(k: u32, text: Option<Seq<char>>, ctrl: bool) -> Option<Action> {
    if k == KEY_RETURN || k == KEY_KP_ENTER {
        Some(Action::Submit)
    } else if is_submit_chord(k) && ctrl {
        Some(Action::Submit)
    } else if is_erase_key(k) {
        if ctrl {
            Some(Action::ClearAll)
        } else {
            Some(Action::PopChar)
        }
    } else if k == KEY_ESCAPE {
        Some(Action::ClearAll)
    } else if is_clear_chord(k) && ctrl {
        Some(Action::ClearAll)
    } else if is_modifier_key(k) {
        Some(Action::Neutral)
    } else {
        match text {
            Some(s) => if s.len() > 0 && !ctrl {
                None
            } else {
                Some(Action::Ignore)
            },
            None => Some(Action::Ignore),
        }
    }
}

/// `a` is what `key_spec` says, the appended text being the key's text.
pub open spec fn action_matches(a: Action, k: u32, text: Option<Seq<char>>, ctrl: bool) -> bool {
    match key_spec(k, text, ctrl) {
        None => a matches Action::Append(s) && s@ == text.unwrap(),
        Some(other) => a == other,
    }
}

/// The erase keys, BackSpace (0xff08), Delete (0xffff) and keypad Delete
/// (0xff9f), whatever text they report: alone each deletes one character;
/// only with Ctrl do they clear the whole password.
pub proof fn erase_keys_delete_one_character(k: u32, text: Option<Seq<char>>)
    requires
        k == 0xff08 || k == 0xffff || k == 0xff9f,
    ensures
        key_spec(k, text, false) == Some(Action::PopChar),
        key_spec(k, text, true) == Some(Action::ClearAll),
        forall|a: Action| action_matches(a, k, text, false) <==> a == Action::PopChar,
        forall|a: Action| action_matches(a, k, text, true) <==> a == Action::ClearAll,
{
}

pub fn key_action(keysym: u32, utf8: Option<&str>, ctrl: bool) -> (a: Action)
    ensures
        action_matches(a, keysym, match utf8 {
            Some(s) => Some(s@),
            None => None,
        }, ctrl),
{
    let k = keysym;
    if k == KEY_RETURN || k == KEY_KP_ENTER {
        Action::Submit
    } else if (k == 0x6d || k == 0x6a || k == 0x64 || k == 0x4d || k == 0x4a || k == 0x44) && ctrl {
        Action::Submit
    } else if k == KEY_BACKSPACE || k == KEY_DELETE || k == KEY_KP_DELETE {
        if ctrl {
            Action::ClearAll
        } else {
            Action::PopChar
        }
    } else if k == KEY_ESCAPE {
        Action::ClearAll
    } else if (k == 0x75 || k == 0x63 || k == 0x55 || k == 0x43) && ctrl {
        Action::ClearAll
    } else if k == KEY_CAPS_LOCK || k == KEY_SHIFT_L || k == KEY_SHIFT_R || k == KEY_CONTROL_L
        || k == KEY_CONTROL_R || k == KEY_META_L || k == KEY_META_R || k == KEY_ALT_L || k
        == KEY_ALT_R || k == KEY_SUPER_L || k == KEY_SUPER_R {
        Action::Neutral
    } else {
        match utf8 {
            Some(s) => {
                if !ctrl && chars_of(s).len() > 0 {
                    Action::Append(String::from_str(s))
                } else {
                    Action::Ignore
                }
            },
            None => Action::Ignore,
        }
    }
}

/// Drives the short-lived visual reactions to typing.
#[derive(Clone, Copy, Debug, PartialEq, Eq, Structural)]
pub enum InputState {
    Idle,
    Clear,
    Letter,
    Backspace,
    Neutral,
}

/// Drives the verifying / wrong visuals and gates submission.
#[derive(Clone, Copy, Debug, PartialEq, Eq, Structural)]
pub enum AuthState {
    Idle,
    Validating,
    Invalid,
}

/// Timers the caller must (re)arm or cancel after an event: the input-idle
/// timer returns the input indicator to idle, the password-clear timer
/// empties a half-typed password.
#[derive(Clone, Copy, Debug, PartialEq, Eq, Default, Structural)]
pub struct TimerOps {
    pub arm_input_idle: bool,
    pub arm_password_clear: bool,
    pub cancel_password_clear: bool,
}

/// Milliseconds before the input indicator returns to idle.
pub const INPUT_IDLE_MS: u64 = 1500;

/// Milliseconds an invalid verdict stays on screen.
pub const AUTH_INVALID_MS: u64 = 3000;

/// Milliseconds before a half-typed password is cleared.
pub const PASSWORD_CLEAR_MS: u64 = 10000;

pub open spec fn no_ops() -> TimerOps {
    TimerOps { arm_input_idle: false, arm_password_clear: false, cancel_password_clear: false }
}

/// Typing activity: re-arm both timers.
pub open spec fn typing_ops() -> TimerOps {
    TimerOps { arm_input_idle: true, arm_password_clear: true, cancel_password_clear: false }
}

/// The buffer went empty: re-arm the idle timer, drop the clear timer.
pub open spec fn cleared_ops() -> TimerOps {
    TimerOps { arm_input_idle: true, arm_password_clear: false, cancel_password_clear: true }
}

pub open spec fn submit_ops() -> TimerOps {
    TimerOps { arm_input_idle: false, arm_password_clear: false, cancel_password_clear: true }
}

pub struct Machine {
    pub input: InputState,
    pub auth: AuthState,
    pub failed_attempts: u32,
}

/// The machine after a submit request, and whether the submission goes
/// ahead: it is refused while a verdict is pending.
pub open spec fn submit_spec(m: Machine) -> (Machine, bool) {
    if m.auth == AuthState::Validating {
        (m, false)
    } else {
        (Machine { input: InputState::Idle, auth: AuthState::Validating, ..m }, true)
    }
}

/// The machine after a verdict; a wrong one counts and shows invalid.
pub open spec fn reply_spec(m: Machine, ok: bool) -> Machine {
    if ok {
        m
    } else {
        Machine { auth: AuthState::Invalid, failed_attempts: (m.failed_attempts + 1) as u32, ..m }
    }
}

/// The machine once the invalid display times out.
pub open spec fn auth_idle_spec(m: Machine) -> Machine {
    if m.auth == AuthState::Invalid {
        Machine { auth: AuthState::Idle, ..m }
    } else {
        m
    }
}

/// The machine after the buffer was cleared.
pub open spec fn clear_spec(m: Machine) -> Machine {
    Machine { input: InputState::Clear, ..m }
}

/// The machine after a backspace; emptying the buffer counts as a clear.
pub open spec fn backspace_spec(m: Machine, now_empty: bool) -> Machine {
    if now_empty {
        clear_spec(m)
    } else {
        Machine { input: InputState::Backspace, ..m }
    }
}

impl Machine {
    pub fn new() -> (m: Machine)
        ensures
            m.input == InputState::Idle,
            m.auth == AuthState::Idle,
            m.failed_attempts == 0,
    {
        Machine { input: InputState::Idle, auth: AuthState::Idle, failed_attempts: 0 }
    }

    /// A letter was appended.
    pub fn on_letter(&mut self) -> (ops: TimerOps)
        ensures
            *final(self) == (Machine { input: InputState::Letter, ..*old(self) }),
            ops == typing_ops(),
    {
        self.input = InputState::Letter;
        TimerOps { arm_input_idle: true, arm_password_clear: true, cancel_password_clear: false }
    }

    /// Backspace removed a character; `now_empty` says the buffer is empty
    /// after it.
    pub fn on_backspace(&mut self, now_empty: bool) -> (ops: TimerOps)
        ensures
            *final(self) == backspace_spec(*old(self), now_empty),
            ops == (if now_empty { cleared_ops() } else { typing_ops() }),
    {
        if now_empty {
            self.on_clear()
        } else {
            self.input = InputState::Backspace;
            TimerOps { arm_input_idle: true, arm_password_clear: true, cancel_password_clear: false }
        }
    }

    /// The buffer was cleared.
    pub fn on_clear(&mut self) -> (ops: TimerOps)
        ensures
            *final(self) == clear_spec(*old(self)),
            ops == cleared_ops(),
    {
        self.input = InputState::Clear;
        TimerOps { arm_input_idle: true, arm_password_clear: false, cancel_password_clear: true }
    }

    /// A bare modifier went down.
    pub fn on_neutral(&mut self) -> (ops: TimerOps)
        ensures
            *final(self) == (Machine { input: InputState::Neutral, ..*old(self) }),
            ops == typing_ops(),
    {
        self.input = InputState::Neutral;
        TimerOps { arm_input_idle: true, arm_password_clear: true, cancel_password_clear: false }
    }

    /// Submit requested: whether the submission proceeds (not while
    /// validating; an empty buffer is the caller's to refuse).
    pub fn on_submit(&mut self) -> (r: (bool, TimerOps))
        ensures
            (*final(self), r.0) == submit_spec(*old(self)),
            r.1 == (if r.0 { submit_ops() } else { no_ops() }),
    {
        if self.auth == AuthState::Validating {
            return (false, TimerOps { arm_input_idle: false, arm_password_clear: false, cancel_password_clear: false });
        }
        self.input = InputState::Idle;
        self.auth = AuthState::Validating;
        (true, TimerOps { arm_input_idle: false, arm_password_clear: false, cancel_password_clear: true })
    }

    /// A verdict arrived: true when the session should unlock.
    pub fn on_reply(&mut self, ok: bool) -> (unlock: bool)
        requires
            ok || old(self).failed_attempts < u32::MAX,
        ensures
            unlock == ok,
            *final(self) == reply_spec(*old(self), ok),
    {
        if ok {
            return true;
        }
        self.auth = AuthState::Invalid;
        self.failed_attempts = self.failed_attempts + 1;
        false
    }

    /// The input-idle timer fired.
    pub fn on_input_idle(&mut self)
        ensures
            *final(self) == (Machine { input: InputState::Idle, ..*old(self) }),
    {
        self.input = InputState::Idle;
    }

    /// The invalid-verdict timer fired.
    pub fn on_auth_idle(&mut self)
        ensures
            *final(self) == auth_idle_spec(*old(self)),
    {
        if self.auth == AuthState::Invalid {
            self.auth = AuthState::Idle;
        }
    }
}

/// A submission that went ahead leaves the machine validating, and a second
/// submit before the verdict is refused and changes nothing.
pub proof fn submit_is_gated_while_validating(m: Machine)
    requires
        m.auth != AuthState::Validating,
    ensures
        submit_spec(m).1,
        submit_spec(submit_spec(m).0).1 == false,
        submit_spec(submit_spec(m).0).0 == submit_spec(m).0,
{
}

/// A wrong verdict counts one failed attempt and shows invalid until the
/// invalid timer fires, which returns authentication to idle; a right
/// verdict changes nothing.
pub proof fn wrong_reply_counts_then_resets(m: Machine)
    requires
        m.failed_attempts < u32::MAX,
    ensures
        reply_spec(m, false).auth == AuthState::Invalid,
        reply_spec(m, false).failed_attempts == m.failed_attempts + 1,
        auth_idle_spec(reply_spec(m, false)).auth == AuthState::Idle,
        auth_idle_spec(reply_spec(m, false)).failed_attempts == m.failed_attempts + 1,
        reply_spec(m, true) == m,
{
}

/// A backspace that empties the buffer is exactly a clear.
pub proof fn backspace_to_empty_is_clear(m: Machine)
    ensures
        backspace_spec(m, true) == clear_spec(m),
{
}

/// The failed-attempt count never goes down: no event but a wrong verdict
/// touches it, and that one adds one.
pub proof fn failed_attempts_only_grow(m: Machine, ok: bool, now_empty: bool)
    requires
        m.failed_attempts < u32::MAX,
    ensures
        submit_spec(m).0.failed_attempts == m.failed_attempts,
        backspace_spec(m, now_empty).failed_attempts == m.failed_attempts,
        auth_idle_spec(m).failed_attempts == m.failed_attempts,
        reply_spec(m, ok).failed_attempts >= m.failed_attempts,
{
}

} // verus!
