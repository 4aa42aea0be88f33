//! One running Life simulation and the bookkeeping that keeps it lively:
//! it steps through the generations that the clock has crossed, resyncs
//! instead of racing after a long stall, and reseeds a board that has
//! thinned out or has kept repeating itself for too long. Times are whole
//! ticks of the caller's clock; the fractional generation is the caller's
//! and arrives as its whole part and whether anything lies past it.
use vstd::prelude::*;
use crate::lock::life::{
    bits_of, change_of, hash_upto, live_count, next_gen, recorded, xorshift, Board, Change, Rng, SeenStates,
};

verus! {

/// The generator state `k` steps after `s`.
pub open spec fn stepped(s: u64, k: nat) -> u64
    decreases k,
{
    if k == 0 {
        s
    } else {
        xorshift(stepped(s, (k - 1) as nat))
    }
}

/// A fresh soup of `n` cells drawn from generator state `s`: cell `i`
/// lives when the generator's draw number `i + 1` falls below
/// `density_bits`.
pub open spec fn soup_of(s: u64, n: nat, density_bits: u64) -> Seq<bool> {
    Seq::new(n, |i: int| bits_of(stepped(s, (i + 1) as nat)) < density_bits)
}

/// Draw a fresh soup of `n` cells, one generator draw per cell.
pub fn soup(rng: &mut Rng, n: usize, density_bits: u64) -> (keep: Vec<bool>)
    ensures
        keep@ == soup_of(old(rng).state(), n as nat, density_bits),
        final(rng).state() == stepped(old(rng).state(), n as nat),
{
    let ghost s0 = rng.state();
    let mut keep: Vec<bool> = Vec::new();
    for i in 0..n
        invariant
            keep@ == soup_of(s0, i as nat, density_bits),
            rng.state() == stepped(s0, i as nat),
    {
        let r = rng.next_bits();
        keep.push(r < density_bits);
        proof {
            assert(keep@ =~= soup_of(s0, (i + 1) as nat, density_bits));
        }
    }
    keep
}

/// How a simulation keeps itself lively.
#[derive(Clone, Copy)]
pub struct Liveliness {
    /// A seeded cell starts alive when its generator draw (53 bits) is
    /// below this.
    pub density_bits: u64,
    /// A board with fewer live cells than this after a generation is
    /// reseeded.
    pub min_live: usize,
    /// A board that has been repeating itself for this long is reseeded.
    pub stale_hold: u64,
}

/// What one generation, or a reseed within it, did to the board.
pub struct Generation {
    pub gen: u64,
    pub changes: Vec<Change>,
}

/// A simulation: the board, the last generation stepped, the fingerprints
/// seen since the last reseed and since when the board has been repeating
/// itself.
pub struct Sim {
    pub board: Board,
    pub gen: u64,
    pub seen: SeenStates,
    pub stale_since: Option<u64>,
    pub rules: Liveliness,
}

/// The state of a simulation, as the contracts see it.
pub struct SimView {
    pub alive: Seq<bool>,
    pub gen: u64,
    pub seen: Seq<u64>,
    pub stale_since: Option<u64>,
}

/// Cell by cell, what going from `a` to `b` did.
pub open spec fn changes(a: Seq<bool>, b: Seq<bool>) -> Seq<Change> {
    Seq::new(a.len(), |i: int| change_of(a[i], b[i]))
}

pub open spec fn gen_view(g: Generation) -> (u64, Seq<Change>) {
    (g.gen, g.changes@)
}

/// The generation stepped from once a stall of the clock has been
/// caught up with: when the fractional generation (`target` and a bit
/// more if `past`) is more than four ahead, the simulation jumps to it.
pub open spec fn resynced(gen: u64, target: u64, past: bool) -> u64 {
    if target > gen + 4 || (target == gen + 4 && past) {
        target
    } else {
        gen
    }
}

/// Whether a board has been repeating itself long enough, at time `now`,
/// having first repeated at `since`.
pub open spec fn held(since: u64, now: u64, hold: u64) -> bool {
    now >= since + hold
}

/// One generation at time `now` from state `v` and generator state `rng`:
/// the board steps; then it is reseeded if it has thinned below the
/// minimum or has kept repeating for the hold time; otherwise a new
/// fingerprint is remembered (and the repeat clock stopped), a repeated one
/// starts the repeat clock if it is not running. Gives the next state, the
/// generator state after and what the generation did.
pub open spec fn tick(v: SimView, w: int, h: int, rules: Liveliness, now: u64, rng: u64) -> (
    SimView,
    u64,
    Seq<(u64, Seq<Change>)>,
) {
    let g = (v.gen + 1) as u64;
    let a1 = next_gen(v.alive, w, h);
    let key = hash_upto(a1, a1.len() as int);
    let repeat = v.seen.contains(key);
    let since = match v.stale_since {
        Some(s) => s,
        None => now,
    };
    let due = live_count(a1) < rules.min_live || (repeat && held(since, now, rules.stale_hold));
    if due {
        let fresh = soup_of(rng, a1.len(), rules.density_bits);
        (
            SimView { alive: fresh, gen: g, seen: Seq::empty(), stale_since: None },
            stepped(rng, a1.len()),
            seq![(g, changes(v.alive, a1)), (g, changes(a1, fresh))],
        )
    } else {
        (
            SimView {
                alive: a1,
                gen: g,
                seen: if repeat {
                    v.seen
                } else {
                    recorded(v.seen, key)
                },
                stale_since: if repeat {
                    Some(since)
                } else {
                    None
                },
            },
            rng,
            seq![(g, changes(v.alive, a1))],
        )
    }
}

/// `k` generations in a row at time `now`.
pub open spec fn ticks(v: SimView, w: int, h: int, rules: Liveliness, now: u64, rng: u64, k: nat) -> (
    SimView,
    u64,
    Seq<(u64, Seq<Change>)>,
)
    decreases k,
{
    if k == 0 {
        (v, rng, Seq::empty())
    } else {
        let r = ticks(v, w, h, rules, now, rng, (k - 1) as nat);
        let t = tick(r.0, w, h, rules, now, r.1);
        (t.0, t.1, r.2 + t.2)
    }
}

/// Each generation advances the count by one: `k` of them in a row end
/// `k` generations on.
pub proof fn ticks_count_generations(v: SimView, w: int, h: int, rules: Liveliness, now: u64, rng: u64, k: nat)
    requires
        v.gen + k <= u64::MAX,
    ensures
        ticks(v, w, h, rules, now, rng, k).0.gen == v.gen + k,
    decreases k,
{
    if k > 0 {
        ticks_count_generations(v, w, h, rules, now, rng, (k - 1) as nat);
    }
}

impl Sim {
    pub open spec fn wf(&self) -> bool {
        self.board.wf()
    }

    pub closed spec fn view(&self) -> SimView {
        SimView { alive: self.board.alive@, gen: self.gen, seen: self.seen@, stale_since: self.stale_since }
    }

    /// A `w`×`h` simulation at generation 0, seeded with a fresh soup.
    pub fn new(w: usize, h: usize, rules: Liveliness, rng: &mut Rng) -> (s: Sim)
        requires
            w * h <= usize::MAX,
        ensures
            s.wf(),
            s.board.w == w,
            s.board.h == h,
            s.rules == rules,
            s.view() == (SimView {
                alive: soup_of(old(rng).state(), (w * h) as nat, rules.density_bits),
                gen: 0,
                seen: Seq::empty(),
                stale_since: None,
            }),
            final(rng).state() == stepped(old(rng).state(), (w * h) as nat),
    {
        let mut board = Board::new(w, h);
        let keep = soup(rng, w * h, rules.density_bits);
        board.reseed(&keep);
        Sim { board, gen: 0, seen: SeenStates::new(), stale_since: None, rules }
    }

    /// Crossfade into a fresh soup now: what it did to each cell.
    pub fn reseed(&mut self, rng: &mut Rng) -> (ch: Vec<Change>)
        requires
            old(self).wf(),
        ensures
            final(self).wf(),
            final(self).board.w == old(self).board.w,
            final(self).board.h == old(self).board.h,
            final(self).rules == old(self).rules,
            final(self).view() == (SimView {
                alive: soup_of(old(rng).state(), old(self).view().alive.len(), old(self).rules.density_bits),
                gen: old(self).view().gen,
                seen: Seq::empty(),
                stale_since: None,
            }),
            final(rng).state() == stepped(old(rng).state(), old(self).view().alive.len()),
            ch@ == changes(old(self).view().alive, final(self).view().alive),
    {
        let keep = soup(rng, self.board.alive.len(), self.rules.density_bits);
        let ch = self.board.reseed(&keep);
        self.seen.clear();
        self.stale_since = None;
        ch
    }

    /// Every live cell dies at once: what it did to each cell.
    pub fn kill_all(&mut self) -> (ch: Vec<Change>)
        requires
            old(self).wf(),
        ensures
            final(self).wf(),
            final(self).board.w == old(self).board.w,
            final(self).board.h == old(self).board.h,
            final(self).rules == old(self).rules,
            final(self).view() == (SimView {
                alive: Seq::new(old(self).view().alive.len(), |i: int| false),
                gen: old(self).view().gen,
                seen: Seq::empty(),
                stale_since: None,
            }),
            ch@ == changes(old(self).view().alive, final(self).view().alive),
    {
        let ch = self.board.kill_all();
        self.seen.clear();
        self.stale_since = None;
        ch
    }

    /// One generation at time `now`, its records appended to `out`.
    fn generation(&mut self, now: u64, rng: &mut Rng, out: &mut Vec<Generation>)
        requires
            old(self).wf(),
            old(self).gen < u64::MAX,
        ensures
            final(self).wf(),
            final(self).board.w == old(self).board.w,
            final(self).board.h == old(self).board.h,
            final(self).rules == old(self).rules,
            ({
                let t = tick(
                    old(self).view(),
                    old(self).board.w as int,
                    old(self).board.h as int,
                    old(self).rules,
                    now,
                    old(rng).state(),
                );
                &&& final(self).view() == t.0
                &&& final(rng).state() == t.1
                &&& final(out)@.map_values(|g: Generation| gen_view(g)) == old(out)@.map_values(
                    |g: Generation| gen_view(g),
                ) + t.2
            }),
    {
        let ghost v0 = self.view();
        let ghost r0 = rng.state();
        let ghost o0 = out@;
        self.gen = self.gen + 1;
        let ghost a0 = self.board.alive@;
        let stepped_ch = self.board.step();
        let ghost a1 = self.board.alive@;
        assert(a1 == next_gen(v0.alive, self.board.w as int, self.board.h as int));
        out.push(Generation { gen: self.gen, changes: stepped_ch });
        let pop = self.board.population();
        let key = self.board.hash();
        let repeat = self.seen.contains(key);
        let mut due = pop < self.rules.min_live;
        if repeat {
            let since = match self.stale_since {
                Some(s) => s,
                None => now,
            };
            self.stale_since = Some(since);
            if now >= since && now - since >= self.rules.stale_hold {
                due = true;
            }
        } else {
            self.stale_since = None;
            self.seen.observe(key);
        }
        let ghost mid = out@;
        if due {
            let keep = soup(rng, self.board.alive.len(), self.rules.density_bits);
            let ch = self.board.reseed(&keep);
            out.push(Generation { gen: self.gen, changes: ch });
            self.seen.clear();
            self.stale_since = None;
        }
        proof {
            let t = tick(v0, self.board.w as int, self.board.h as int, self.rules, now, r0);
            assert(stepped_ch@ == changes(a0, a1));
            assert(mid.map_values(|g: Generation| gen_view(g)) =~= o0.map_values(|g: Generation| gen_view(g)).push(
                (self.gen, changes(a0, a1)),
            ));
            if due {
                assert(out@.map_values(|g: Generation| gen_view(g)) =~= mid.map_values(|g: Generation| gen_view(g)).push(
                    t.2[1],
                ));
            }
            assert(out@.map_values(|g: Generation| gen_view(g)) =~= o0.map_values(|g: Generation| gen_view(g)) + t.2);
        }
    }

    /// Step through the generations that the clock has crossed at time
    /// `now`, the fractional generation being `target` and a bit more if
    /// `past`. After a stall of more than four generations the simulation
    /// jumps straight to `target` instead of racing through them. Gives
    /// what each generation, and each reseed, did.
    pub fn advance(&mut self, target: u64, past: bool, now: u64, rng: &mut Rng) -> (out: Vec<Generation>)
        requires
            old(self).wf(),
        ensures
            final(self).wf(),
            final(self).board.w == old(self).board.w,
            final(self).board.h == old(self).board.h,
            final(self).rules == old(self).rules,
            final(self).view().gen == if target > resynced(old(self).view().gen, target, past) {
                target
            } else {
                resynced(old(self).view().gen, target, past)
            },
            ({
                let g0 = resynced(old(self).view().gen, target, past);
                let k = if target > g0 {
                    (target - g0) as nat
                } else {
                    0nat
                };
                let start = SimView { gen: g0, ..old(self).view() };
                let r = ticks(
                    start,
                    old(self).board.w as int,
                    old(self).board.h as int,
                    old(self).rules,
                    now,
                    old(rng).state(),
                    k,
                );
                &&& final(self).view() == r.0
                &&& final(rng).state() == r.1
                &&& out@.map_values(|g: Generation| gen_view(g)) == r.2
            }),
    {
        if target >= self.gen && (target - self.gen > 4 || (target - self.gen == 4 && past)) {
            self.gen = target;
        }
        let ghost start = self.view();
        let ghost r0 = rng.state();
        let ghost g0 = self.gen;
        let mut out: Vec<Generation> = Vec::new();
        assert(out@.map_values(|g: Generation| gen_view(g)) =~= Seq::empty());
        while self.gen < target
            invariant
                self.wf(),
                self.board.w == old(self).board.w,
                self.board.h == old(self).board.h,
                self.rules == old(self).rules,
                g0 <= self.gen,
                g0 < target ==> self.gen <= target,
                g0 >= target ==> self.gen == g0,
                ({
                    let r = ticks(
                        start,
                        self.board.w as int,
                        self.board.h as int,
                        self.rules,
                        now,
                        r0,
                        (self.gen - g0) as nat,
                    );
                    &&& self.view() == r.0
                    &&& rng.state() == r.1
                    &&& out@.map_values(|g: Generation| gen_view(g)) == r.2
                }),
            decreases target - self.gen,
        {
            self.generation(now, rng, &mut out);
        }
        proof {
            assert(g0 == resynced(old(self).view().gen, target, past));
            assert(start == (SimView { gen: g0, ..old(self).view() }));
            if g0 < target {
                assert(self.gen == target);
            } else {
                assert(self.gen == g0);
            }
        }
        out
    }
}

} // verus!
