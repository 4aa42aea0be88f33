//! The transient effects that typing and authentication put on the Life
//! scene: a keystroke flares one random panel of the 27 in the accent, a
//! backspace in the urgent colour; clearing the buffer dims everything
//! briefly; a wrong password kills every cell under an urgent flash, after
//! which the faces are reseeded. Times are milliseconds of scene time.
use vstd::prelude::*;

verus! {

/// How long a panel flare lasts.
pub const FLARE_MS: u64 = 800;

/// How long the cleared-buffer dim lasts.
pub const DIM_MS: u64 = 300;

/// How long the wrong-password flash lasts.
pub const WRONG_MS: u64 = 400;

/// Panels on the cube: three faces of three by three.
pub const PANELS: u8 = 27;

/// Which configured colour a flare is drawn in.
#[derive(Clone, Copy, PartialEq, Eq, Debug, Structural)]
pub enum Tint {
    Accent,
    Urgent,
}

/// A panel lit up from `start`.
#[derive(Clone, Copy, PartialEq, Eq, Debug, Structural)]
pub struct Flare {
    pub panel: u8,
    pub tint: Tint,
    pub start: u64,
}

/// The scene-wide effect running, if any.
#[derive(Clone, Copy, PartialEq, Eq, Debug, Structural)]
pub enum Effect {
    Dim { start: u64 },
    Wrong { start: u64 },
}

/// A flare still showing at `now`.
pub open spec fn flare_live(f: Flare, now: u64) -> bool {
    now < f.start + FLARE_MS
}

/// Whether the wrong-password flash has run its course at `now`.
pub open spec fn wrong_done(e: Option<Effect>, now: u64) -> bool {
    match e {
        Some(Effect::Wrong { start }) => now >= start + WRONG_MS,
        _ => false,
    }
}

/// The effect still running at `now`.
pub open spec fn effect_after(e: Option<Effect>, now: u64) -> Option<Effect> {
    match e {
        Some(Effect::Wrong { start }) => if now >= start + WRONG_MS {
            None
        } else {
            e
        },
        Some(Effect::Dim { start }) => if now >= start + DIM_MS {
            None
        } else {
            e
        },
        None => None,
    }
}

/// The faces are reseeded once per wrong password: once the flash has
/// been retired, no later retiring reports it again.
pub proof fn flash_reseeds_once(e: Option<Effect>, now: u64, later: u64)
    requires
        wrong_done(e, now),
    ensures
        effect_after(e, now) == None::<Effect>,
        !wrong_done(effect_after(e, now), later),
{
}

/// The flares and the scene-wide effect, oldest flare first.
pub struct Effects {
    pub flares: Vec<Flare>,
    pub effect: Option<Effect>,
}

impl Effects {
    /// Nothing running.
    pub fn new() -> (e: Effects)
        ensures
            e.flares@ == Seq::<Flare>::empty(),
            e.effect == None::<Effect>,
    {
        Effects { flares: Vec::new(), effect: None }
    }

    /// A keystroke: `panel` (drawn by the caller, nothing about the key
    /// influences it) flares in the accent colour.
    pub fn key_flare(&mut self, panel: u8, now: u64)
        requires
            panel < PANELS,
        ensures
            final(self).flares@ == old(self).flares@.push(Flare { panel, tint: Tint::Accent, start: now }),
            final(self).effect == old(self).effect,
    {
        self.flares.push(Flare { panel, tint: Tint::Accent, start: now });
    }

    /// A backspace: `panel` flares in the urgent colour.
    pub fn backspace_flare(&mut self, panel: u8, now: u64)
        requires
            panel < PANELS,
        ensures
            final(self).flares@ == old(self).flares@.push(Flare { panel, tint: Tint::Urgent, start: now }),
            final(self).effect == old(self).effect,
    {
        self.flares.push(Flare { panel, tint: Tint::Urgent, start: now });
    }

    /// The buffer was cleared: a brief global dim.
    pub fn clear_dim(&mut self, now: u64)
        ensures
            final(self).flares@ == old(self).flares@,
            final(self).effect == Some(Effect::Dim { start: now }),
    {
        self.effect = Some(Effect::Dim { start: now });
    }

    /// A wrong password: the flares go and the flash starts (the caller
    /// kills every face cell).
    pub fn wrong(&mut self, now: u64)
        ensures
            final(self).flares@ == Seq::<Flare>::empty(),
            final(self).effect == Some(Effect::Wrong { start: now }),
    {
        self.flares = Vec::new();
        self.effect = Some(Effect::Wrong { start: now });
    }

    /// Retire what has run its course by `now`. True when the
    /// wrong-password flash has just ended and the faces are due a fresh
    /// soup.
    pub fn expire(&mut self, now: u64) -> (reseed: bool)
        ensures
            reseed == wrong_done(old(self).effect, now),
            final(self).effect == effect_after(old(self).effect, now),
            final(self).flares@ == old(self).flares@.filter(|f: Flare| flare_live(f, now)),
    {
        let mut reseed = false;
        match self.effect {
            Some(Effect::Wrong { start }) => {
                if now >= start && now - start >= WRONG_MS {
                    self.effect = None;
                    reseed = true;
                }
            },
            Some(Effect::Dim { start }) => {
                if now >= start && now - start >= DIM_MS {
                    self.effect = None;
                }
            },
            None => {},
        }
        let ghost all = self.flares@;
        let mut kept: Vec<Flare> = Vec::new();
        for i in 0..self.flares.len()
            invariant
                all == self.flares@,
                kept@ == all.take(i as int).filter(|f: Flare| flare_live(f, now)),
        {
            let f = self.flares[i];
            proof {
                reveal(Seq::filter);
                assert(all.take(i + 1).drop_last() =~= all.take(i as int));
            }
            if now < f.start || now - f.start < FLARE_MS {
                kept.push(f);
            }
        }
        proof {
            assert(all.take(all.len() as int) =~= all);
        }
        self.flares = kept;
        reseed
    }
}

} // verus!
