//! Conway's Game of Life (B3/S23) on a torus, the board fingerprint used to
//! spot settled boards, and the xorshift64* generator that seeds them. The
//! colour timeline (birth and death stamps in fractional generations) is
//! kept beside the board by its renderer; `step` reports which cells were
//! born and which died so it can stamp them.
use vstd::prelude::*;
use std::collections::{HashSet, VecDeque};
use vstd::arithmetic::div_mod::{lemma_fundamental_div_mod_converse, lemma_mod_add_multiples_vanish, lemma_small_mod};

verus! {

/// Whether cell (`x`, `y`) of a `w`×`h` torus is alive, as 0 or 1;
/// coordinates wrap around both edges.
pub open spec fn at(a: Seq<bool>, w: int, h: int, x: int, y: int) -> int {
    if a[(y % h) * w + (x % w)] {
        1
    } else {
        0
    }
}

/// Live neighbours of cell (`x`, `y`) among its eight, wrapping around.
pub open spec fn neighbours(a: Seq<bool>, w: int, h: int, x: int, y: int) -> int {
    at(a, w, h, x - 1, y - 1) + at(a, w, h, x, y - 1) + at(a, w, h, x + 1, y - 1) + at(
        a,
        w,
        h,
        x - 1,
        y,
    ) + at(a, w, h, x + 1, y) + at(a, w, h, x - 1, y + 1) + at(a, w, h, x, y + 1) + at(
        a,
        w,
        h,
        x + 1,
        y + 1,
    )
}

/// B3/S23: born with three neighbours, survives with two or three.
pub open spec fn lives(alive: bool, n: int) -> bool {
    n == 3 || (alive && n == 2)
}

/// The next generation; cell `i` sits at (`i % w`, `i / w`).
pub open spec fn next_gen(a: Seq<bool>, w: int, h: int) -> Seq<bool> {
    Seq::new(a.len(), |i: int| lives(a[i], neighbours(a, w, h, i % w, i / w)))
}

/// Number of live cells.
pub open spec fn live_count(a: Seq<bool>) -> nat
    decreases a.len(),
{
    if a.len() == 0 {
        0
    } else {
        live_count(a.drop_last()) + if a.last() {
            1nat
        } else {
            0nat
        }
    }
}

/// What a generation did to one cell.
#[derive(Clone, Copy, Debug, PartialEq, Eq, Structural)]
pub enum Change {
    Same,
    Born,
    Died,
}

pub open spec fn change_of(before: bool, after: bool) -> Change {
    if !before && after {
        Change::Born
    } else if before && !after {
        Change::Died
    } else {
        Change::Same
    }
}

/// A `w`×`h` board, row-major.
pub struct Board {
    pub w: usize,
    pub h: usize,
    pub alive: Vec<bool>,
}

impl Board {
    pub open spec fn wf(&self) -> bool {
        self.w * self.h == self.alive@.len()
    }

    /// An empty `w`×`h` board.
    pub fn new(w: usize, h: usize) -> (b: Board)
        requires
            w * h <= usize::MAX,
        ensures
            b.wf(),
            b.w == w,
            b.h == h,
            b.alive@ == Seq::new((w * h) as nat, |i: int| false),
    {
        let n = w * h;
        let mut alive: Vec<bool> = Vec::new();
        for i in 0..n
            invariant
                alive@ == Seq::new(i as nat, |k: int| false),
        {
            alive.push(false);
        }
        Board { w, h, alive }
    }

    /// Live cells.
    pub fn population(&self) -> (n: usize)
        ensures
            n == live_count(self.alive@),
    {
        let mut n: usize = 0;
        for i in 0..self.alive.len()
            invariant
                n == live_count(self.alive@.take(i as int)),
                n <= i,
        {
            proof {
                assert(self.alive@.take(i as int + 1).drop_last() =~= self.alive@.take(i as int));
            }
            if self.alive[i] {
                n += 1;
            }
        }
        proof {
            assert(self.alive@.take(self.alive@.len() as int) =~= self.alive@);
        }
        n
    }

    /// Kill every live cell at once; each live cell is reported dead.
    pub fn kill_all(&mut self) -> (ch: Vec<Change>)
        ensures
            final(self).w == old(self).w,
            final(self).h == old(self).h,
            final(self).alive@ == Seq::new(old(self).alive@.len(), |i: int| false),
            ch@ == Seq::new(old(self).alive@.len(), |i: int| change_of(old(self).alive@[i], false)),
    {
        let n = self.alive.len();
        let mut keep: Vec<bool> = Vec::new();
        for i in 0..n
            invariant
                keep@ == Seq::new(i as nat, |k: int| false),
        {
            keep.push(false);
        }
        let ch = self.reseed(&keep);
        proof {
            assert(ch@ =~= Seq::new(old(self).alive@.len(), |i: int| change_of(old(self).alive@[i], false)));
        }
        ch
    }

    /// Replace the cells with a fresh soup: cell `i` lives iff `keep[i]`.
    /// Reports which cells were born and which died.
    pub fn reseed(&mut self, keep: &Vec<bool>) -> (ch: Vec<Change>)
        requires
            keep@.len() == old(self).alive@.len(),
        ensures
            final(self).w == old(self).w,
            final(self).h == old(self).h,
            final(self).alive@ == keep@,
            ch@ == Seq::new(keep@.len(), |i: int| change_of(old(self).alive@[i], keep@[i])),
    {
        let mut ch: Vec<Change> = Vec::new();
        let n = keep.len();
        let mut i: usize = 0;
        while i < n
            invariant
                n == keep@.len(),
                i <= n,
                keep@.len() == old(self).alive@.len(),
                self.alive@.len() == old(self).alive@.len(),
                self.w == old(self).w,
                self.h == old(self).h,
                forall|k: int| 0 <= k < i ==> self.alive@[k] == keep@[k],
                forall|k: int| i <= k < keep@.len() ==> self.alive@[k] == old(self).alive@[k],
                ch@ == Seq::new(i as nat, |k: int| change_of(old(self).alive@[k], keep@[k])),
            decreases n - i,
        {
            let before = self.alive[i];
            let after = keep[i];
            let c = if !before && after {
                Change::Born
            } else if before && !after {
                Change::Died
            } else {
                Change::Same
            };
            ch.push(c);
            self.alive.set(i, after);
            proof {
                assert(ch@ =~= Seq::new((i + 1) as nat, |k: int| change_of(old(self).alive@[k], keep@[k])));
            }
            i += 1;
        }
        proof {
            assert(self.alive@ =~= keep@);
        }
        ch
    }

    /// One B3/S23 generation on the torus. Reports, cell by cell, whether
    /// it was born, died or stayed as it was.
    pub fn step(&mut self) -> (ch: Vec<Change>)
        requires
            old(self).wf(),
        ensures
            final(self).wf(),
            final(self).w == old(self).w,
            final(self).h == old(self).h,
            final(self).alive@ == next_gen(old(self).alive@, old(self).w as int, old(self).h as int),
            ch@ == Seq::new(
                old(self).alive@.len(),
                |i: int| change_of(old(self).alive@[i], final(self).alive@[i]),
            ),
    {
        let next = next_board(&self.alive, self.w, self.h);
        let mut ch: Vec<Change> = Vec::new();
        for i in 0..next.len()
            invariant
                next@.len() == self.alive@.len(),
                ch@ == Seq::new(i as nat, |k: int| change_of(self.alive@[k], next@[k])),
        {
            let before = self.alive[i];
            let after = next[i];
            let c = if !before && after {
                Change::Born
            } else if before && !after {
                Change::Died
            } else {
                Change::Same
            };
            ch.push(c);
            proof {
                assert(ch@ =~= Seq::new((i + 1) as nat, |k: int| change_of(self.alive@[k], next@[k])));
            }
        }
        self.alive = next;
        ch
    }

    /// FNV-1a over the indices of the live cells: equal boards give equal
    /// fingerprints, so a repeat marks a settled or cycling board.
    pub fn hash(&self) -> (r: u64)
        ensures
            r == hash_upto(self.alive@, self.alive@.len() as int),
    {
        let mut hsh: u64 = FNV_OFFSET;
        for i in 0..self.alive.len()
            invariant
                hsh == hash_upto(self.alive@, i as int),
        {
            if self.alive[i] {
                hsh = (hsh ^ (i as u64)).wrapping_mul(FNV_PRIME);
            }
        }
        hsh
    }
}

pub const FNV_OFFSET: u64 = 0xcbf29ce484222325;

pub const FNV_PRIME: u64 = 0x100000001b3;

/// The fingerprint of the first `n` cells.
pub open spec fn hash_upto(a: Seq<bool>, n: int) -> u64
    decreases n,
{
    if n <= 0 {
        FNV_OFFSET
    } else if a[n - 1] {
        vstd::wrapping::u64_specs::wrapping_mul(hash_upto(a, n - 1) ^ ((n - 1) as u64), FNV_PRIME)
    } else {
        hash_upto(a, n - 1)
    }
}

/// `(v - 1) mod n` for `v < n`.
fn wrap_dec(v: usize, n: usize) -> (r: usize)
    requires
        v < n,
    ensures
        r == (v - 1) % (n as int),
        r < n,
{
    if v == 0 {
        proof {
            lemma_mod_add_multiples_vanish(-1, n as int);
            lemma_small_mod((n - 1) as nat, n as nat);
        }
        n - 1
    } else {
        proof {
            lemma_small_mod((v - 1) as nat, n as nat);
        }
        v - 1
    }
}

/// `(v + 1) mod n` for `v < n`.
fn wrap_inc(v: usize, n: usize) -> (r: usize)
    requires
        v < n,
    ensures
        r == (v + 1) % (n as int),
        r < n,
{
    if v + 1 == n {
        proof {
            vstd::arithmetic::div_mod::lemma_mod_self_0(n as int);
        }
        0
    } else {
        proof {
            lemma_small_mod((v + 1) as nat, n as nat);
        }
        v + 1
    }
}

proof fn lemma_cell_index(r: int, c: int, w: int, h: int)
    requires
        0 <= r < h,
        0 <= c < w,
    ensures
        0 <= r * w,
        0 <= r * w + c < w * h,
{
    assert(0 <= r * w && 0 <= r * w + c < w * h) by (nonlinear_arith)
        requires
            0 <= r < h,
            0 <= c < w,
    ;
}

/// Cell (`c`, `r`) as 0 or 1.
fn cell(a: &Vec<bool>, w: usize, h: usize, r: usize, c: usize) -> (v: u8)
    requires
        w * h == a@.len(),
        r < h,
        c < w,
    ensures
        v == (if a@[r * w + c] { 1int } else { 0int }),
{
    let _len = a.len();
    proof {
        lemma_cell_index(r as int, c as int, w as int, h as int);
    }
    if a[r * w + c] {
        1
    } else {
        0
    }
}

/// Live neighbours of cell (`x`, `y`).
fn count_at(a: &Vec<bool>, w: usize, h: usize, x: usize, y: usize) -> (n: u8)
    requires
        w * h == a@.len(),
        x < w,
        y < h,
    ensures
        n == neighbours(a@, w as int, h as int, x as int, y as int),
{
    let ym = wrap_dec(y, h);
    let yp = wrap_inc(y, h);
    let xm = wrap_dec(x, w);
    let xp = wrap_inc(x, w);
    proof {
        lemma_small_mod(y as nat, h as nat);
        lemma_small_mod(x as nat, w as nat);
    }
    cell(a, w, h, ym, xm) + cell(a, w, h, ym, x) + cell(a, w, h, ym, xp) + cell(a, w, h, y, xm)
        + cell(a, w, h, y, xp) + cell(a, w, h, yp, xm) + cell(a, w, h, yp, x) + cell(
        a,
        w,
        h,
        yp,
        xp,
    )
}

/// The next generation of a `w`×`h` board.
fn next_board(a: &Vec<bool>, w: usize, h: usize) -> (r: Vec<bool>)
    requires
        w * h == a@.len(),
    ensures
        r@ == next_gen(a@, w as int, h as int),
{
    let n = a.len();
    let mut r: Vec<bool> = Vec::new();
    let mut x: usize = 0;
    let mut y: usize = 0;
    let mut i: usize = 0;
    while i < n
        invariant
            w * h == a@.len(),
            n == a@.len(),
            i <= n,
            i == y * w + x,
            i < n ==> x < w && y < h,
            r@.len() == i,
            forall|k: int| 0 <= k < i ==> r@[k] == next_gen(a@, w as int, h as int)[k],
        decreases n - i,
    {
        proof {
            lemma_fundamental_div_mod_converse(i as int, w as int, y as int, x as int);
        }
        let c = count_at(a, w, h, x, y);
        let alive = a[i];
        r.push(c == 3 || (alive && c == 2));
        i += 1;
        if x + 1 == w {
            x = 0;
            y += 1;
            proof {
                assert(y * w == (y - 1) * w + w) by (nonlinear_arith);
                if i < n {
                    assert(y < h) by (nonlinear_arith)
                        requires
                            i == y * w,
                            i < n,
                            n == w * h,
                            w > 0,
                    ;
                }
            }
        } else {
            x += 1;
        }
    }
    proof {
        assert(r@ =~= next_gen(a@, w as int, h as int));
    }
    r
}

/// A board with every cell dead has no population.
pub proof fn dead_board_has_no_population(n: nat)
    ensures
        live_count(Seq::new(n, |i: int| false)) == 0,
    decreases n,
{
    if n > 0 {
        assert(Seq::new(n, |i: int| false).drop_last() =~= Seq::new((n - 1) as nat, |i: int| false));
        dead_board_has_no_population((n - 1) as nat);
    }
}

/// The xorshift64* generator.
pub struct Rng {
    state: u64,
}

/// One xorshift64 step of the state.
pub open spec fn xorshift(s: u64) -> u64 {
    let a = s ^ (s >> 12u64);
    let b = a ^ (a << 25u64);
    b ^ (b >> 27u64)
}

pub const XORSHIFT_MUL: u64 = 0x2545F4914F6CDD1D;

/// The 53 random bits drawn from a state (already stepped).
pub open spec fn bits_of(s: u64) -> u64 {
    vstd::wrapping::u64_specs::wrapping_mul(s, XORSHIFT_MUL) >> 11u64
}

/// Seed used when the clock cannot be read.
pub const FALLBACK_SEED: u64 = 0x9e3779b97f4a7c15;

/// Nanoseconds since the Unix epoch, truncated to 64 bits; None when the
/// clock reads before the epoch.
#[verifier::external_body]
fn unix_nanos() -> Option<u64> {
    std::time::SystemTime::now().duration_since(std::time::UNIX_EPOCH).ok().map(|d| d.as_nanos() as u64)
}

impl Rng {
    pub closed spec fn state(&self) -> u64 {
        self.state
    }

    /// A generator seeded from the clock.
    pub fn new() -> (r: Rng)
        ensures
            r.state() % 2 == 1,
    {
        let seed = match unix_nanos() {
            Some(n) => n,
            None => FALLBACK_SEED,
        };
        Rng::from_seed(seed)
    }

    /// A generator seeded with `seed`; the low bit is forced on so the state
    /// is never zero.
    pub fn from_seed(seed: u64) -> (r: Rng)
        ensures
            r.state() == seed | 1,
            r.state() % 2 == 1,
    {
        assert((seed | 1) % 2 == 1) by (bit_vector);
        Rng { state: seed | 1 }
    }

    /// Step the state and return 53 uniformly distributed bits.
    pub fn next_bits(&mut self) -> (r: u64)
        ensures
            final(self).state() == xorshift(old(self).state()),
            r == bits_of(final(self).state()),
            r < 0x20_0000_0000_0000,
    {
        let mut s = self.state;
        s = s ^ (s >> 12);
        s = s ^ (s << 25);
        s = s ^ (s >> 27);
        self.state = s;
        let m = s.wrapping_mul(XORSHIFT_MUL);
        assert(m >> 11u64 < 0x20_0000_0000_0000) by (bit_vector);
        m >> 11
    }
}

/// A nonzero state stays nonzero, so the generator never gets stuck.
pub proof fn xorshift_keeps_nonzero(s: u64)
    requires
        s != 0,
    ensures
        xorshift(s) != 0,
{
    assert(s != 0 ==> (s ^ (s >> 12u64)) != 0) by (bit_vector);
    let a = s ^ (s >> 12u64);
    assert(a != 0 ==> (a ^ (a << 25u64)) != 0) by (bit_vector);
    let b = a ^ (a << 25u64);
    assert(b != 0 ==> (b ^ (b >> 27u64)) != 0) by (bit_vector);
}

/// How many distinct board fingerprints are remembered.
pub const STATES_KEPT: usize = 600;

/// The board fingerprints seen since the last reseed, oldest first: each
/// at most once, and no more than `STATES_KEPT` of them (the oldest is
/// forgotten first). A fingerprint seen again means the board has settled
/// into a still life or an oscillator.
pub struct SeenStates {
    order: VecDeque<u64>,
    /// The same fingerprints, for lookup.
    set: HashSet<u64>,
}

/// `s` holds no value twice.
pub open spec fn distinct(s: Seq<u64>) -> bool {
    forall|i: int, j: int| 0 <= i < j < s.len() ==> s[i] != s[j]
}

/// The fingerprints remembered after a new one, `key`, is recorded.
pub open spec fn recorded(s: Seq<u64>, key: u64) -> Seq<u64> {
    if s.len() + 1 > STATES_KEPT {
        s.push(key).drop_first()
    } else {
        s.push(key)
    }
}

impl View for SeenStates {
    type V = Seq<u64>;

    closed spec fn view(&self) -> Seq<u64> {
        self.order@
    }
}

impl SeenStates {
    #[verifier::type_invariant]
    spec fn inv(self) -> bool {
        &&& distinct(self.order@)
        &&& self.order@.len() <= STATES_KEPT
        &&& forall|k: u64| self.set@.contains(k) <==> self.order@.contains(k)
    }

    pub fn new() -> (s: SeenStates)
        ensures
            s@ == Seq::<u64>::empty(),
    {
        SeenStates { order: VecDeque::new(), set: HashSet::new() }
    }

    /// Whether `key` is among the remembered fingerprints.
    pub fn contains(&self, key: u64) -> (r: bool)
        ensures
            r == self@.contains(key),
    {
        broadcast use vstd::std_specs::hash::group_hash_axioms;
        proof {
            use_type_invariant(self);
        }
        self.set.contains(&key)
    }

    /// Look up the fingerprint of the board just stepped: a repeat is
    /// reported and changes nothing; a new one is remembered, forgetting
    /// the oldest beyond `STATES_KEPT`.
    pub fn observe(&mut self, key: u64) -> (repeat: bool)
        ensures
            repeat == old(self)@.contains(key),
            repeat ==> final(self)@ == old(self)@,
            !repeat ==> final(self)@ == recorded(old(self)@, key),
            distinct(final(self)@),
            final(self)@.len() <= STATES_KEPT,
    {
        proof {
            use_type_invariant(&*self);
        }
        if self.contains(key) {
            return true;
        }
        broadcast use vstd::std_specs::hash::group_hash_axioms;
        let mut taken = SeenStates::new();
        std::mem::swap(self, &mut taken);
        let SeenStates { mut order, mut set } = taken;
        let ghost before = order@;
        let ghost set0 = set@;
        order.push_back(key);
        set.insert(key);
        if order.len() > STATES_KEPT {
            match order.pop_front() {
                Some(gone) => {
                    assert(gone == before[0]);
                    set.remove(&gone);
                },
                None => {},
            }
        }
        proof {
            assert(order@ =~= recorded(before, key));
            assert forall|i: int, j: int| 0 <= i < j < order@.len() implies order@[i] != order@[j] by {
                if before.len() + 1 > STATES_KEPT {
                    assert(order@[i] == before.push(key)[i + 1]);
                    assert(order@[j] == before.push(key)[j + 1]);
                } else {
                    assert(order@[i] == before.push(key)[i]);
                    assert(order@[j] == before.push(key)[j]);
                }
            }
            assert forall|k: u64| set@.contains(k) <==> order@.contains(k) by {
                if before.len() + 1 > STATES_KEPT {
                    if order@.contains(k) {
                        let i = choose|i: int| 0 <= i < order@.len() && order@[i] == k;
                        assert(before.push(key)[i + 1] == k);
                        if i + 1 < before.len() {
                            assert(before[i + 1] == k);
                            assert(before[0] != before[i + 1]);
                        }
                    }
                    if set@.contains(k) {
                        assert(k != before[0]);
                        if k != key {
                            assert(before.contains(k));
                            let i = choose|i: int| 0 <= i < before.len() && before[i] == k;
                            assert(i != 0);
                            assert(order@[i - 1] == k);
                        } else {
                            assert(order@[order@.len() - 1] == key);
                        }
                    }
                } else {
                    if order@.contains(k) {
                        let i = choose|i: int| 0 <= i < order@.len() && order@[i] == k;
                        if i < before.len() {
                            assert(before[i] == k);
                        }
                    }
                    if set@.contains(k) && k != key {
                        let i = choose|i: int| 0 <= i < before.len() && before[i] == k;
                        assert(order@[i] == k);
                    }
                    if k == key {
                        assert(order@[order@.len() - 1] == key);
                    }
                }
            }
        }
        *self = SeenStates { order, set };
        false
    }

    /// Forget every fingerprint (the board was reseeded).
    pub fn clear(&mut self)
        ensures
            final(self)@ == Seq::<u64>::empty(),
    {
        *self = SeenStates::new();
    }
}

/// A fingerprint just recorded is recognised if the board comes round to
/// it again: the tracker reports it as a repeat.
pub proof fn recorded_state_repeats(s: Seq<u64>, key: u64)
    requires
        s.len() <= STATES_KEPT,
    ensures
        recorded(s, key).contains(key),
        recorded(s, key).len() <= STATES_KEPT,
{
    let r = recorded(s, key);
    assert(r[r.len() - 1] == key);
}

} // verus!
