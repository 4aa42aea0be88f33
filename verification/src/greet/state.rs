//! The greeter's phase machine: username box, cube growing, password,
//! validating, session start, or a failure that collapses back to the box.
//! Times are scene milliseconds; the caller owns the clock, the timers, the
//! IPC and the password buffer, and calls these transitions.
use vstd::prelude::*;
use crate::chars::{chars_of, is_control, is_ctrl, string_of, trim, trim_chars};

verus! {

/// Milliseconds the cube takes to grow out of the box.
pub const GROW_MS: u64 = 800;

/// Milliseconds the cube takes to collapse back into it.
pub const COLLAPSE_MS: u64 = 450;

/// Milliseconds a wrong password is held on screen before collapsing.
pub const FAILED_HOLD_MS: u64 = 900;

/// Milliseconds of idleness with an empty password before collapsing.
pub const IDLE_COLLAPSE_MS: u64 = 45000;

/// Longest username, in characters.
pub const USERNAME_MAX: usize = 32;

#[derive(Clone, Copy, Debug, PartialEq, Eq, Structural)]
pub enum Phase {
    /// Username box, clock and session line; no cube.
    EnterUser,
    /// Cube scaling up out of the box; password keys are already accepted.
    Growing { since: u64 },
    EnterPassword,
    /// Submission in flight; input ignored.
    Validating,
    /// Wrong password: the failure is shown at full scale.
    Failed { since: u64 },
    /// Cube scaling back down; input ignored. Ends in `EnterUser`, cleared.
    Collapsing { since: u64 },
    /// The session start was sent; waiting for greetd's answer.
    Starting,
}

pub struct Greeter {
    pub phase: Phase,
    pub username: String,
}

/// Password keys are taken while the cube grows and once it stands.
pub open spec fn takes_password(p: Phase) -> bool {
    p is Growing || p is EnterPassword
}

/// Phases in which greetd's verdict is awaited.
pub open spec fn awaits_verdict(p: Phase) -> bool {
    p is Growing || p is EnterPassword || p is Validating
}

/// The phase once scene time `t` is reached: timed phases end when their
/// duration has elapsed. Returns the phase and whether the username is to
/// be cleared.
pub open spec fn advance_spec(p: Phase, t: u64) -> (Phase, bool) {
    match p {
        Phase::Growing { since } => if t >= since && t - since >= GROW_MS {
            (Phase::EnterPassword, false)
        } else {
            (p, false)
        },
        Phase::Failed { since } => if t >= since && t - since >= FAILED_HOLD_MS {
            (Phase::Collapsing { since: t }, false)
        } else {
            (p, false)
        },
        Phase::Collapsing { since } => if t >= since && t - since >= COLLAPSE_MS {
            (Phase::EnterUser, true)
        } else {
            (p, false)
        },
        _ => (p, false),
    }
}

pub open spec fn user_submit_spec(p: Phase, name: Seq<char>, t: u64) -> Option<Phase> {
    if p == Phase::EnterUser && trim(name).len() > 0 {
        Some(Phase::Growing { since: t })
    } else {
        None
    }
}

pub open spec fn auth_failed_spec(p: Phase, t: u64) -> Phase {
    if awaits_verdict(p) {
        Phase::Failed { since: t }
    } else {
        p
    }
}

pub open spec fn cancel_spec(p: Phase, t: u64) -> Phase {
    if takes_password(p) {
        Phase::Collapsing { since: t }
    } else {
        p
    }
}

/// The username after typing `text`: control characters are dropped and
/// nothing is added past `USERNAME_MAX` characters.
pub open spec fn typed(name: Seq<char>, text: Seq<char>) -> Seq<char>
    decreases text.len(),
{
    if text.len() == 0 {
        name
    } else {
        let before = typed(name, text.drop_last());
        let c = text.last();
        if !is_ctrl(c) && before.len() < USERNAME_MAX {
            before.push(c)
        } else {
            before
        }
    }
}

impl Greeter {
    pub fn new() -> (g: Greeter)
        ensures
            g.phase == Phase::EnterUser,
            g.username@ == Seq::<char>::empty(),
    {
        Greeter { phase: Phase::EnterUser, username: String::new() }
    }

    /// Advance the time-driven transitions to scene time `t`; finishing
    /// the collapse clears the username, which is entered anew each time.
    pub fn advance(&mut self, t: u64)
        ensures
            final(self).phase == advance_spec(old(self).phase, t).0,
            advance_spec(old(self).phase, t).1 ==> final(self).username@ == Seq::<char>::empty(),
            !advance_spec(old(self).phase, t).1 ==> final(self).username == old(self).username,
    {
        match self.phase {
            Phase::Growing { since } => {
                if t >= since && t - since >= GROW_MS {
                    self.phase = Phase::EnterPassword;
                }
            },
            Phase::Failed { since } => {
                if t >= since && t - since >= FAILED_HOLD_MS {
                    self.phase = Phase::Collapsing { since: t };
                }
            },
            Phase::Collapsing { since } => {
                if t >= since && t - since >= COLLAPSE_MS {
                    self.phase = Phase::EnterUser;
                    self.username = String::new();
                }
            },
            _ => {},
        }
    }

    /// Enter on the username: true when the cube starts growing (and the
    /// caller creates the session); refused outside the username box or for
    /// a blank name.
    pub fn user_submit(&mut self, t: u64) -> (go: bool)
        ensures
            go == (user_submit_spec(old(self).phase, old(self).username@, t) is Some),
            go ==> final(self).phase == user_submit_spec(old(self).phase, old(self).username@, t).unwrap(),
            !go ==> final(self).phase == old(self).phase,
            final(self).username == old(self).username,
    {
        if self.phase != Phase::EnterUser {
            return false;
        }
        let name = trim_chars(&chars_of(self.username.as_str()));
        if name.len() == 0 {
            return false;
        }
        self.phase = Phase::Growing { since: t };
        true
    }

    /// Whether keys go to the password buffer now.
    pub fn accepts_password_input(&self) -> (r: bool)
        ensures
            r == takes_password(self.phase),
    {
        match self.phase {
            Phase::Growing { .. } | Phase::EnterPassword => true,
            _ => false,
        }
    }

    /// Enter on the password: true when it is submitted (and the caller
    /// posts it); refused unless password input is taken.
    pub fn password_submit(&mut self) -> (go: bool)
        ensures
            go == takes_password(old(self).phase),
            go ==> final(self).phase == Phase::Validating,
            !go ==> final(self).phase == old(self).phase,
            final(self).username == old(self).username,
    {
        if !self.accepts_password_input() {
            return false;
        }
        self.phase = Phase::Validating;
        true
    }

    /// greetd accepted (possibly straight after the session was created,
    /// for a passwordless login): true when the caller starts the session.
    pub fn on_auth_ok(&mut self) -> (go: bool)
        ensures
            go == awaits_verdict(old(self).phase),
            go ==> final(self).phase == Phase::Starting,
            !go ==> final(self).phase == old(self).phase,
            final(self).username == old(self).username,
    {
        match self.phase {
            Phase::Growing { .. } | Phase::EnterPassword | Phase::Validating => {
                self.phase = Phase::Starting;
                true
            },
            _ => false,
        }
    }

    /// greetd refused: hold the failure, then collapse (through `advance`).
    pub fn on_auth_failed(&mut self, t: u64)
        ensures
            final(self).phase == auth_failed_spec(old(self).phase, t),
            final(self).username == old(self).username,
    {
        match self.phase {
            Phase::Growing { .. } | Phase::EnterPassword | Phase::Validating => {
                self.phase = Phase::Failed { since: t };
            },
            _ => {},
        }
    }

    /// Esc on an empty password, or the idle timeout: collapse back.
    pub fn cancel_to_user(&mut self, t: u64)
        ensures
            final(self).phase == cancel_spec(old(self).phase, t),
            final(self).username == old(self).username,
    {
        match self.phase {
            Phase::Growing { .. } | Phase::EnterPassword => {
                self.phase = Phase::Collapsing { since: t };
            },
            _ => {},
        }
    }

    /// Type `text` into the username box.
    pub fn type_username(&mut self, text: &str)
        ensures
            final(self).username@ == typed(old(self).username@, text@),
            final(self).phase == old(self).phase,
    {
        let mut name = chars_of(self.username.as_str());
        let t = chars_of(text);
        for i in 0..t.len()
            invariant
                t@ == text@,
                name@ == typed(old(self).username@, t@.take(i as int)),
        {
            proof {
                assert(t@.take(i + 1).drop_last() =~= t@.take(i as int));
            }
            let c = t[i];
            if !is_control(c) && name.len() < USERNAME_MAX {
                name.push(c);
            }
        }
        proof {
            assert(t@.take(t@.len() as int) =~= t@);
        }
        self.username = string_of(&name);
    }

    /// Backspace in the username box: the last character goes, or all of
    /// them with Ctrl.
    pub fn erase_username(&mut self, all: bool)
        ensures
            all ==> final(self).username@ == Seq::<char>::empty(),
            !all ==> final(self).username@ == (if old(self).username@.len() == 0 {
                old(self).username@
            } else {
                old(self).username@.drop_last()
            }),
            final(self).phase == old(self).phase,
    {
        if all {
            self.username = String::new();
            return;
        }
        let mut name = chars_of(self.username.as_str());
        if name.len() > 0 {
            name.pop();
        }
        self.username = string_of(&name);
    }

    /// The username as sent to greetd: trimmed.
    pub fn login_name(&self) -> (s: String)
        ensures
            s@ == trim(self.username@),
    {
        string_of(&trim_chars(&chars_of(self.username.as_str())))
    }
}

/// A typed username never grows past `USERNAME_MAX` characters (from one
/// within the limit) and holds no control character that was not there.
pub proof fn typed_username_is_bounded(name: Seq<char>, text: Seq<char>)
    requires
        name.len() <= USERNAME_MAX,
    ensures
        typed(name, text).len() <= USERNAME_MAX,
        typed(name, text).len() >= name.len(),
        forall|k: int|
            name.len() <= k < typed(name, text).len() ==> !is_ctrl(#[trigger] typed(name, text)[k]),
        typed(name, text).take(name.len() as int) == name,
    decreases text.len(),
{
    if text.len() > 0 {
        typed_username_is_bounded(name, text.drop_last());
        let before = typed(name, text.drop_last());
        if !is_ctrl(text.last()) && before.len() < USERNAME_MAX {
            assert(before.push(text.last()).take(name.len() as int) =~= before.take(name.len() as int));
        }
    } else {
        assert(name.take(name.len() as int) =~= name);
    }
}

/// A failure always returns to the username box with the name cleared:
/// after the hold the cube collapses, and once the collapse has run its
/// course the box is back, empty.
pub proof fn failure_collapses_to_cleared_box(p: Phase, t_fail: u64, t_hold: u64, t_done: u64)
    requires
        awaits_verdict(p),
        t_hold >= t_fail + FAILED_HOLD_MS,
        t_done >= t_hold + COLLAPSE_MS,
    ensures
        auth_failed_spec(p, t_fail) == (Phase::Failed { since: t_fail }),
        advance_spec(auth_failed_spec(p, t_fail), t_hold).0 == (Phase::Collapsing { since: t_hold }),
        advance_spec(advance_spec(auth_failed_spec(p, t_fail), t_hold).0, t_done) == (Phase::EnterUser, true),
{
}

/// Verdicts and cancels outside their phases change nothing, and while a
/// submission is in flight no second one is taken.
pub proof fn stray_events_are_ignored(p: Phase, t: u64)
    ensures
        !awaits_verdict(p) ==> auth_failed_spec(p, t) == p,
        !takes_password(p) ==> cancel_spec(p, t) == p,
        !takes_password(Phase::Validating),
        user_submit_spec(Phase::Validating, seq!['x'], t) is None,
{
}

} // verus!
