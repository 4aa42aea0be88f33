//! The notification daemon's decisions: what each bus event, expiry timer
//! and click does to the popup queue, and what the caller must then do
//! (report a close on the bus, start a timer, re-read the configuration,
//! reconcile and repaint the surface). Expiry follows visibility: a popup
//! has a live timer exactly while it is on screen, so a burst beyond the
//! visible count does not burn the timeouts of popups nobody saw.
use vstd::prelude::*;
use crate::note::cfg::{AnchorCorner, Cfg};
use crate::note::state::{
    body_lines, compose_note, entry_spec, find_note, position_of, remembered, style_for, summary_lines, timeout_spec,
    effective_timeout, AppEvent, HistoryRing, Note, NoteData, Queue, HISTORY_CAP, REASON_CLOSED, REASON_DISMISSED,
    REASON_EXPIRED,
};
use crate::note::layout::{compose_spec, grid_view, Cell, Grid};

verus! {

/// What the caller does after an event.
pub enum NoteEffect {
    /// Report `NotificationClosed(id, reason)` on the bus.
    Closed { id: u32, reason: u32 },
    /// Start a one-shot timer of `ms` milliseconds; when it fires, call
    /// `on_expiry(id, gen)`.
    ArmTimer { id: u32, gen: u64, ms: u64 },
    /// Re-read the configuration and hand it to `restyle`.
    Reload,
    /// Reconcile the surface with the visible popups and repaint.
    Refresh,
    /// Nudge the status bar's history badge: an entry went to history
    /// unseen.
    PingBadge,
}

/// The daemon's state besides the display.
pub struct Notifier {
    pub cfg: Cfg,
    pub queue: Queue,
    /// Do not disturb: new notifications go straight to history.
    pub dnd: bool,
    /// The last timer generation handed out; 0 means none yet.
    pub timer_gen: u64,
}

/// No id occurs twice in the queue.
pub open spec fn ids_distinct(notes: Seq<Note>) -> bool {
    forall|i: int, j: int| 0 <= i < j < notes.len() ==> notes[i].data.id != notes[j].data.id
}

/// Every popup on screen (the first `max`) has a timer key, and every
/// popup off screen has none.
pub open spec fn timers_follow_visibility(notes: Seq<Note>, max: int) -> bool {
    forall|i: int|
        0 <= i < notes.len() ==> (#[trigger] notes[i].deadline_gen != 0 <==> i < max)
}

/// How many on-screen popups before position `i` have no timer key yet.
pub open spec fn unarmed_before(notes: Seq<Note>, max: int, i: int) -> int
    decreases i,
{
    if i <= 0 {
        0
    } else {
        unarmed_before(notes, max, i - 1) + if i - 1 < max && notes[i - 1].deadline_gen == 0 {
            1int
        } else {
            0int
        }
    }
}

/// The timer key of popup `i` once timers are reconciled with
/// visibility: an on-screen popup without one gets the next generation,
/// an off-screen popup loses its key (its pending timer goes stale).
pub open spec fn synced_deadline(notes: Seq<Note>, max: int, gen0: int, i: int) -> u64 {
    if i < max {
        if notes[i].deadline_gen == 0 {
            (gen0 + unarmed_before(notes, max, i) + 1) as u64
        } else {
            notes[i].deadline_gen
        }
    } else {
        0
    }
}

/// The timers started while reconciling the first `i` popups.
pub open spec fn arm_effects(notes: Seq<Note>, max: int, gen0: int, cfg: Cfg, i: int) -> Seq<NoteEffect>
    decreases i,
{
    if i <= 0 {
        Seq::empty()
    } else {
        let j = i - 1;
        let prev = arm_effects(notes, max, gen0, cfg, j);
        if j < max && notes[j].deadline_gen == 0 {
            match timeout_spec(cfg, notes[j].data) {
                Some(ms) => prev.push(
                    NoteEffect::ArmTimer {
                        id: notes[j].data.id,
                        gen: (gen0 + unarmed_before(notes, max, j) + 1) as u64,
                        ms,
                    },
                ),
                None => prev,
            }
        } else {
            prev
        }
    }
}

/// `after` (with generation `gen1`) is `before` (with `gen0`) with its
/// timers reconciled with visibility.
pub open spec fn synced(before: Seq<Note>, gen0: u64, after: Seq<Note>, gen1: u64, max: int) -> bool {
    &&& after.len() == before.len()
    &&& forall|i: int|
        0 <= i < before.len() ==> {
            &&& (#[trigger] after[i]).data == before[i].data
            &&& after[i].grid == before[i].grid
            &&& after[i].deadline_gen == synced_deadline(before, max, gen0 as int, i)
        }
    &&& gen1 == gen0 + unarmed_before(before, max, before.len() as int)
}

/// `notes` with the timer key of the popup `id` set to `gen`.
pub open spec fn rearmed(notes: Seq<Note>, id: u32, gen: u64) -> Seq<Note> {
    match position_of(notes, id) {
        Some(k) => notes.update(k, Note { data: notes[k].data, grid: notes[k].grid, deadline_gen: gen }),
        None => notes,
    }
}

/// The timer started for a popup, if it expires at all.
pub open spec fn timer_effect(id: u32, gen: u64, timeout: Option<u64>) -> Seq<NoteEffect> {
    match timeout {
        Some(ms) => seq![NoteEffect::ArmTimer { id, gen, ms }],
        None => Seq::empty(),
    }
}

/// The framed grid a popup shows for `d` under `cfg`.
pub open spec fn framed(cfg: Cfg, d: NoteData) -> Seq<Seq<Cell>> {
    compose_spec(
        d.app@,
        summary_lines(d, cfg.max_width),
        body_lines(d, cfg.max_width, cfg.max_lines),
        style_for(cfg, d.urgency),
        cfg.max_width as int,
    )
}

/// The queue after `d` arrives with grid `g`: a popup with the same id is
/// replaced in place and keeps its timer key; otherwise `d` goes first.
pub open spec fn after_upsert(notes: Seq<Note>, d: NoteData, g: Grid) -> Seq<Note> {
    match position_of(notes, d.id) {
        Some(k) => notes.update(k, Note { data: d, grid: g, deadline_gen: notes[k].deadline_gen }),
        None => seq![Note { data: d, grid: g, deadline_gen: 0 }] + notes,
    }
}

/// The popup `id` is in the queue and on screen.
pub open spec fn shown(notes: Seq<Note>, max: int, id: u32) -> bool {
    match position_of(notes, id) {
        Some(k) => k < max,
        None => false,
    }
}

/// What the timers and effects of a reconciliation from (`notes`, `gen0`)
/// come to, after `pre` effects.
pub open spec fn sync_effects(pre: Seq<NoteEffect>, notes: Seq<Note>, max: int, gen0: u64, cfg: Cfg) -> Seq<
    NoteEffect,
> {
    pre + arm_effects(notes, max, gen0 as int, cfg, notes.len() as int).push(NoteEffect::Refresh)
}

/// A notification arrived. In do-not-disturb it goes straight to
/// history as unseen, pinging the badge. Otherwise it is framed and queued (replacing a popup
/// with its id in place); a replaced popup on screen restarts its timer;
/// then timers are reconciled and the surface refreshed.
pub open spec fn notified(a: Notifier, b: Notifier, d: NoteData, fx: Seq<NoteEffect>) -> bool {
    &&& b.cfg == a.cfg
    &&& b.dnd == a.dnd
    &&& if a.dnd {
        &&& b.queue.notes@ == a.queue.notes@
        &&& remembered(a.queue.history, b.queue.history, d, false)
        &&& b.timer_gen == a.timer_gen
        &&& fx == seq![NoteEffect::PingBadge]
    } else {
        let max = a.cfg.max_visible as int;
        let again = shown(a.queue.notes@, max, d.id);
        let g1: u64 = if again {
            (a.timer_gen + 1) as u64
        } else {
            a.timer_gen
        };
        &&& b.queue.history == a.queue.history
        &&& exists|g: Grid|
            #[trigger] grid_view(g@) == framed(a.cfg, d) && {
                let mid = after_upsert(a.queue.notes@, d, g);
                let mid2 = if again {
                    rearmed(mid, d.id, g1)
                } else {
                    mid
                };
                let pre = if again {
                    timer_effect(d.id, g1, timeout_spec(a.cfg, d))
                } else {
                    Seq::empty()
                };
                &&& synced(mid2, g1, b.queue.notes@, b.timer_gen, max)
                &&& fx == sync_effects(pre, mid2, max, g1, a.cfg)
            }
    }
}

/// The badge ping owed when an entry goes to history: one if unseen.
pub open spec fn badge(seen: bool) -> Seq<NoteEffect> {
    if seen {
        Seq::empty()
    } else {
        seq![NoteEffect::PingBadge]
    }
}

/// Popup `id` is removed (recorded in history, `seen` or not, an unseen
/// one pinging the badge) and its close reported with `reason`; then
/// timers are reconciled and the surface refreshed. Without such a popup nothing happens.
pub open spec fn removed(a: Notifier, b: Notifier, id: u32, seen: bool, reason: u32, fx: Seq<NoteEffect>) -> bool {
    &&& b.cfg == a.cfg
    &&& b.dnd == a.dnd
    &&& match position_of(a.queue.notes@, id) {
        Some(k) => {
            let rest = a.queue.notes@.remove(k);
            &&& remembered(a.queue.history, b.queue.history, a.queue.notes@[k].data, seen)
            &&& synced(rest, a.timer_gen, b.queue.notes@, b.timer_gen, a.cfg.max_visible as int)
            &&& fx == sync_effects(
                badge(seen) + seq![NoteEffect::Closed { id, reason }],
                rest,
                a.cfg.max_visible as int,
                a.timer_gen,
                a.cfg,
            )
        },
        None => {
            &&& b.queue.notes@ == a.queue.notes@
            &&& b.queue.history == a.queue.history
            &&& b.timer_gen == a.timer_gen
            &&& fx.len() == 0
        },
    }
}

/// The history after the popups `gone` were dismissed one after another,
/// first to last: the last dismissed comes first, older entries follow,
/// up to the cap; the unseen count is untouched.
pub open spec fn dismissed_into(before: HistoryRing, after: HistoryRing, gone: Seq<NoteData>) -> bool {
    let n = gone.len() as int;
    let total = n + before.entries@.len();
    let len = if total <= HISTORY_CAP {
        total
    } else {
        HISTORY_CAP as int
    };
    &&& after.entries@.len() == len
    &&& forall|j: int| 0 <= j < len && j < n ==> entry_spec(#[trigger] after.entries@[j], gone[n - 1 - j])
    &&& forall|j: int| 0 <= j < len && n <= j ==> #[trigger] after.entries@[j] == before.entries@[j - n]
    &&& after.unseen == before.unseen
}

/// The data of each popup, in queue order.
pub open spec fn datas(notes: Seq<Note>) -> Seq<NoteData> {
    notes.map_values(|n: Note| n.data)
}

/// Every popup was dismissed, newest first, each close reported; the
/// queue is empty and the surface refreshed.
pub open spec fn dismissed_all(a: Notifier, b: Notifier, fx: Seq<NoteEffect>) -> bool {
    &&& b.cfg == a.cfg
    &&& b.dnd == a.dnd
    &&& b.queue.notes@.len() == 0
    &&& b.timer_gen == a.timer_gen
    &&& dismissed_into(a.queue.history, b.queue.history, datas(a.queue.notes@))
    &&& fx == a.queue.notes@.map_values(
        |n: Note| NoteEffect::Closed { id: n.data.id, reason: REASON_DISMISSED },
    ).push(NoteEffect::Refresh)
}

/// Everything but the do-not-disturb flag is unchanged.
pub open spec fn same_but_dnd(a: Notifier, b: Notifier) -> bool {
    &&& b.cfg == a.cfg
    &&& b.queue.notes@ == a.queue.notes@
    &&& b.queue.history == a.queue.history
    &&& b.timer_gen == a.timer_gen
}

/// A timer armed for popup `id` under generation `gen` is still the
/// popup's current one.
pub open spec fn live_timer(notes: Seq<Note>, id: u32, gen: u64) -> bool {
    exists|k: int| 0 <= k < notes.len() && (#[trigger] notes[k]).data.id == id && notes[k].deadline_gen == gen
}

/// Where a visible popup was drawn on the surface, for hit-testing.
#[derive(Clone, Copy, Debug, PartialEq, Eq, Structural)]
pub struct Band {
    pub id: u32,
    pub x0: usize,
    pub y0: usize,
    pub x1: usize,
    pub y1: usize,
}

pub open spec fn hits(b: Band, x: int, y: int) -> bool {
    b.x0 <= x < b.x1 && b.y0 <= y < b.y1
}

/// The popup under the pointer: the first band that holds it.
pub open spec fn first_hit(bands: Seq<Band>, x: int, y: int) -> Option<u32>
    decreases bands.len(),
{
    if bands.len() == 0 {
        None
    } else if hits(bands[0], x, y) {
        Some(bands[0].id)
    } else {
        first_hit(bands.drop_first(), x, y)
    }
}

/// Popup `id` was clicked away: removed as seen if it is still queued,
/// its dismissal reported either way, then timers reconciled and the
/// surface refreshed.
pub open spec fn clicked_away(a: Notifier, b: Notifier, id: u32, fx: Seq<NoteEffect>) -> bool {
    &&& b.cfg == a.cfg
    &&& b.dnd == a.dnd
    &&& match position_of(a.queue.notes@, id) {
        Some(k) => {
            let rest = a.queue.notes@.remove(k);
            &&& remembered(a.queue.history, b.queue.history, a.queue.notes@[k].data, true)
            &&& synced(rest, a.timer_gen, b.queue.notes@, b.timer_gen, a.cfg.max_visible as int)
            &&& fx == sync_effects(
                seq![NoteEffect::Closed { id, reason: REASON_DISMISSED }],
                rest,
                a.cfg.max_visible as int,
                a.timer_gen,
                a.cfg,
            )
        },
        None => {
            &&& b.queue.history == a.queue.history
            &&& synced(a.queue.notes@, a.timer_gen, b.queue.notes@, b.timer_gen, a.cfg.max_visible as int)
            &&& fx == sync_effects(
                seq![NoteEffect::Closed { id, reason: REASON_DISMISSED }],
                a.queue.notes@,
                a.cfg.max_visible as int,
                a.timer_gen,
                a.cfg,
            )
        },
    }
}

/// The first band holding (`x`, `y`).
pub fn hit_test(bands: &Vec<Band>, x: usize, y: usize) -> (r: Option<u32>)
    ensures
        r == first_hit(bands@, x as int, y as int),
{
    let n = bands.len();
    let mut i: usize = 0;
    assert(bands@.skip(0) =~= bands@);
    while i < n
        invariant
            n == bands@.len(),
            i <= n,
            first_hit(bands@, x as int, y as int) == first_hit(bands@.skip(i as int), x as int, y as int),
        decreases n - i,
    {
        let b = bands[i];
        proof {
            assert(bands@.skip(i as int)[0] == b);
            assert(bands@.skip(i as int).drop_first() =~= bands@.skip(i + 1));
        }
        if b.x0 <= x && x < b.x1 && b.y0 <= y && y < b.y1 {
            return Some(b.id);
        }
        i = i + 1;
    }
    None
}

/// Vertical gap between stacked popups, in pixels.
pub const INTER_GAP: usize = 8;

/// Pixel width of a popup: one cell per column of its first row.
pub open spec fn popup_w(n: Note, cw: int) -> int {
    if n.grid@.len() == 0 {
        0
    } else {
        n.grid@[0]@.len() * cw
    }
}

/// Pixel height of a popup: one cell per row.
pub open spec fn popup_h(n: Note, ch: int) -> int {
    n.grid@.len() * ch
}

/// The top of popup `i` in a stack of `vis`, each followed by the gap.
pub open spec fn stack_top(vis: Seq<Note>, ch: int, i: int) -> int
    decreases i,
{
    if i <= 0 {
        0
    } else {
        stack_top(vis, ch, i - 1) + popup_h(vis[i - 1], ch) + INTER_GAP
    }
}

/// The stacked popups' sizes fit in machine words.
pub open spec fn stack_fits(vis: Seq<Note>, cw: int, ch: int) -> bool {
    &&& stack_top(vis, ch, vis.len() as int) <= usize::MAX
    &&& forall|i: int| 0 <= i < vis.len() ==> popup_w(#[trigger] vis[i], cw) <= usize::MAX
}

/// The widest popup of the first `i`.
pub open spec fn widest(vis: Seq<Note>, cw: int, i: int) -> int
    decreases i,
{
    if i <= 0 {
        0
    } else {
        let w = popup_w(vis[i - 1], cw);
        let m = widest(vis, cw, i - 1);
        if w > m {
            w
        } else {
            m
        }
    }
}

/// Popups hug the right edge of the surface when it is anchored right.
pub open spec fn right_aligned(a: AnchorCorner) -> bool {
    a == AnchorCorner::TopRight || a == AnchorCorner::BottomRight
}

/// Where popup `i` of the stack sits on a surface `w` pixels wide.
pub open spec fn band_of(vis: Seq<Note>, i: int, w: int, cw: int, ch: int, right: bool) -> Band {
    let pw = popup_w(vis[i], cw);
    let x = if right && pw <= w {
        w - pw
    } else {
        0
    };
    let y = stack_top(vis, ch, i);
    Band { id: vis[i].data.id, x0: x as usize, y0: y as usize, x1: (x + pw) as usize, y1: (y + popup_h(vis[i], ch)) as usize }
}

proof fn lemma_popup_h_nonneg(n: Note, ch: int)
    requires
        ch >= 0,
    ensures
        popup_h(n, ch) >= 0,
{
    assert(n.grid@.len() * ch >= 0) by (nonlinear_arith)
        requires
            ch >= 0,
    ;
}

proof fn lemma_stack_nonneg(vis: Seq<Note>, ch: int, i: int)
    requires
        ch >= 0,
    ensures
        stack_top(vis, ch, i) >= 0,
    decreases i,
{
    if i > 0 {
        lemma_stack_nonneg(vis, ch, i - 1);
        lemma_popup_h_nonneg(vis[i - 1], ch);
    }
}

/// Popup `i` ends (with its gap) no lower than where a later one starts.
proof fn lemma_stack_grows(vis: Seq<Note>, ch: int, i: int, j: int)
    requires
        0 <= i < j,
        ch >= 0,
    ensures
        stack_top(vis, ch, i) + popup_h(vis[i], ch) + INTER_GAP <= stack_top(vis, ch, j),
    decreases j,
{
    if i < j - 1 {
        lemma_stack_grows(vis, ch, i, j - 1);
        lemma_popup_h_nonneg(vis[j - 1], ch);
    }
}

proof fn lemma_unarmed_bounds(notes: Seq<Note>, max: int, i: int)
    ensures
        0 <= unarmed_before(notes, max, i),
        i >= 0 ==> unarmed_before(notes, max, i) <= i,
    decreases i,
{
    if i > 0 {
        lemma_unarmed_bounds(notes, max, i - 1);
    }
}

proof fn lemma_synced_follows(before: Seq<Note>, gen0: u64, after: Seq<Note>, gen1: u64, max: int)
    requires
        synced(before, gen0, after, gen1, max),
        gen0 + before.len() <= u64::MAX,
    ensures
        timers_follow_visibility(after, max),
{
    assert forall|i: int| 0 <= i < after.len() implies (#[trigger] after[i].deadline_gen != 0 <==> i < max) by {
        lemma_unarmed_bounds(before, max, i);
    }
}

proof fn lemma_distinct_remove(notes: Seq<Note>, k: int)
    requires
        ids_distinct(notes),
        0 <= k < notes.len(),
    ensures
        ids_distinct(notes.remove(k)),
{
    let r = notes.remove(k);
    assert forall|i: int, j: int| 0 <= i < j < r.len() implies r[i].data.id != r[j].data.id by {
        let oi = if i < k {
            i
        } else {
            i + 1
        };
        let oj = if j < k {
            j
        } else {
            j + 1
        };
        assert(r[i] == notes[oi]);
        assert(r[j] == notes[oj]);
    }
}

proof fn lemma_synced_distinct(before: Seq<Note>, gen0: u64, after: Seq<Note>, gen1: u64, max: int)
    requires
        synced(before, gen0, after, gen1, max),
        ids_distinct(before),
    ensures
        ids_distinct(after),
{
    assert forall|i: int, j: int| 0 <= i < j < after.len() implies after[i].data.id != after[j].data.id by {
        assert(after[i].data == before[i].data);
        assert(after[j].data == before[j].data);
    }
}

/// Upserting keeps ids distinct and puts `d` where `position_of` says:
/// in place of the popup with its id, or first.
proof fn lemma_upsert(notes: Seq<Note>, d: NoteData, g: Grid)
    requires
        ids_distinct(notes),
    ensures
        ids_distinct(after_upsert(notes, d, g)),
        after_upsert(notes, d, g).len() <= notes.len() + 1,
        position_of(after_upsert(notes, d, g), d.id) == match position_of(notes, d.id) {
            Some(k) => Some(k),
            None => Some(0int),
        },
{
    crate::note::state::lemma_position_of(notes, d.id);
    let mid = after_upsert(notes, d, g);
    crate::note::state::lemma_position_of(mid, d.id);
    match position_of(notes, d.id) {
        Some(k) => {
            assert(mid[k].data.id == d.id);
            assert forall|j: int| 0 <= j < k implies mid[j].data.id != d.id by {
                assert(mid[j] == notes[j]);
            }
            assert forall|i: int, j: int| 0 <= i < j < mid.len() implies mid[i].data.id != mid[j].data.id by {
                if i != k {
                    assert(mid[i] == notes[i]);
                }
                if j != k {
                    assert(mid[j] == notes[j]);
                }
            }
        },
        None => {
            assert(mid[0].data.id == d.id);
            assert forall|i: int, j: int| 0 <= i < j < mid.len() implies mid[i].data.id != mid[j].data.id by {
                if i > 0 {
                    assert(mid[i] == notes[i - 1]);
                }
                assert(mid[j] == notes[j - 1]);
            }
        },
    }
}

proof fn lemma_rearmed_distinct(notes: Seq<Note>, id: u32, gen: u64)
    requires
        ids_distinct(notes),
    ensures
        ids_distinct(rearmed(notes, id, gen)),
        rearmed(notes, id, gen).len() == notes.len(),
{
    crate::note::state::lemma_position_of(notes, id);
    let r = rearmed(notes, id, gen);
    assert forall|i: int, j: int| 0 <= i < j < r.len() implies r[i].data.id != r[j].data.id by {
        assert(r[i].data == notes[i].data);
        assert(r[j].data == notes[j].data);
    }
}

/// Two queues that agree on every popup's data and timer key reconcile
/// alike.
proof fn lemma_same_keys(s1: Seq<Note>, s2: Seq<Note>, max: int, gen0: int, cfg: Cfg, i: int)
    requires
        s1.len() == s2.len(),
        i <= s1.len(),
        forall|j: int| 0 <= j < s1.len() ==> (#[trigger] s1[j]).data == s2[j].data && s1[j].deadline_gen == s2[j].deadline_gen,
    ensures
        unarmed_before(s1, max, i) == unarmed_before(s2, max, i),
        arm_effects(s1, max, gen0, cfg, i) == arm_effects(s2, max, gen0, cfg, i),
    decreases i,
{
    if i > 0 {
        lemma_same_keys(s1, s2, max, gen0, cfg, i - 1);
        assert(s1[i - 1].data == s2[i - 1].data);
    }
}

/// A popup's history after a dismissal of `d`, following earlier ones.
proof fn lemma_dismiss_step(h0: HistoryRing, h1: HistoryRing, h2: HistoryRing, gone: Seq<NoteData>, d: NoteData)
    requires
        dismissed_into(h0, h1, gone),
        remembered(h1, h2, d, true),
    ensures
        dismissed_into(h0, h2, gone.push(d)),
{
    let n = gone.len() as int;
    let g2 = gone.push(d);
    let total = n + 1 + h0.entries@.len();
    let len2 = if total <= HISTORY_CAP {
        total
    } else {
        HISTORY_CAP as int
    };
    assert forall|j: int| 0 <= j < len2 && j < n + 1 implies entry_spec(#[trigger] h2.entries@[j], g2[n + 1 - 1 - j]) by {
        if j > 0 {
            assert(h2.entries@[j] == h1.entries@[j - 1]);
            assert(entry_spec(h1.entries@[j - 1], gone[n - 1 - (j - 1)]));
            assert(g2[n - j] == gone[n - j]);
        }
    }
    assert forall|j: int| 0 <= j < len2 && n + 1 <= j implies #[trigger] h2.entries@[j] == h0.entries@[j - (n + 1)] by {
        assert(h2.entries@[j] == h1.entries@[j - 1]);
        assert(h1.entries@[j - 1] == h0.entries@[j - 1 - n]);
    }
}

impl Notifier {
    pub open spec fn wf(&self) -> bool {
        &&& ids_distinct(self.queue.notes@)
        &&& timers_follow_visibility(self.queue.notes@, self.cfg.max_visible as int)
        &&& self.cfg.max_width <= usize::MAX - 4
        &&& self.queue.history.entries@.len() <= HISTORY_CAP
    }

    /// Generations left for the next event: at most one per popup plus
    /// two are handed out.
    pub open spec fn has_room(&self) -> bool {
        self.timer_gen + self.queue.notes@.len() + 2 <= u64::MAX
    }

    /// An empty daemon over `history`, not in do-not-disturb.
    pub fn new(cfg: Cfg, history: HistoryRing) -> (n: Notifier)
        requires
            cfg.max_width <= usize::MAX - 4,
            history.entries@.len() <= HISTORY_CAP,
        ensures
            n.wf(),
            n.cfg == cfg,
            n.queue.notes@.len() == 0,
            n.queue.history == history,
            !n.dnd,
            n.timer_gen == 0,
    {
        Notifier { cfg, queue: Queue::new(history), dnd: false, timer_gen: 0 }
    }

    /// Hand out the next generation as the timer key of popup `id` and
    /// start its timer if it expires at all.
    fn arm_expiry(&mut self, id: u32, timeout: Option<u64>, fx: &mut Vec<NoteEffect>)
        requires
            old(self).timer_gen < u64::MAX,
        ensures
            final(self).timer_gen == old(self).timer_gen + 1,
            final(self).queue.notes@ == rearmed(old(self).queue.notes@, id, final(self).timer_gen),
            final(self).queue.history == old(self).queue.history,
            final(self).cfg == old(self).cfg,
            final(self).dnd == old(self).dnd,
            final(fx)@ == old(fx)@ + timer_effect(id, final(self).timer_gen, timeout),
    {
        self.timer_gen = self.timer_gen + 1;
        let gen = self.timer_gen;
        proof {
            crate::note::state::lemma_position_of(self.queue.notes@, id);
        }
        match find_note(&self.queue.notes, id) {
            Some(k) => {
                self.queue.notes[k].deadline_gen = gen;
            },
            None => {},
        }
        match timeout {
            Some(ms) => {
                fx.push(NoteEffect::ArmTimer { id, gen, ms });
            },
            None => {},
        }
        assert(fx@ =~= old(fx)@ + timer_effect(id, gen, timeout));
    }
    /// Reconcile the timers with visibility (on-screen popups without a
    /// timer get one, off-screen popups lose theirs), then have the
    /// surface refreshed.
    fn sync(&mut self, fx: &mut Vec<NoteEffect>)
        requires
            old(self).timer_gen + old(self).queue.notes@.len() <= u64::MAX,
        ensures
            synced(
                old(self).queue.notes@,
                old(self).timer_gen,
                final(self).queue.notes@,
                final(self).timer_gen,
                old(self).cfg.max_visible as int,
            ),
            final(self).queue.history == old(self).queue.history,
            final(self).cfg == old(self).cfg,
            final(self).dnd == old(self).dnd,
            final(fx)@ == old(fx)@ + arm_effects(
                old(self).queue.notes@,
                old(self).cfg.max_visible as int,
                old(self).timer_gen as int,
                old(self).cfg,
                old(self).queue.notes@.len() as int,
            ).push(NoteEffect::Refresh),
    {
        let ghost before = self.queue.notes@;
        let ghost gen0 = self.timer_gen;
        let ghost fx0 = fx@;
        let max = self.cfg.max_visible;
        let n = self.queue.notes.len();
        let mut i: usize = 0;
        while i < n
            invariant
                n == before.len(),
                n == self.queue.notes@.len(),
                i <= n,
                max == self.cfg.max_visible,
                gen0 + n <= u64::MAX,
                self.cfg == old(self).cfg,
                self.queue.history == old(self).queue.history,
                self.dnd == old(self).dnd,
                self.timer_gen == gen0 + unarmed_before(before, max as int, i as int),
                forall|j: int|
                    0 <= j < n ==> {
                        &&& (#[trigger] self.queue.notes@[j]).data == before[j].data
                        &&& self.queue.notes@[j].grid == before[j].grid
                        &&& self.queue.notes@[j].deadline_gen == if j < i {
                            synced_deadline(before, max as int, gen0 as int, j)
                        } else {
                            before[j].deadline_gen
                        }
                    },
                fx@ == fx0 + arm_effects(before, max as int, gen0 as int, self.cfg, i as int),
            decreases n - i,
        {
            proof {
                lemma_unarmed_bounds(before, max as int, i as int);
            }
            if i < max && self.queue.notes[i].deadline_gen == 0 {
                self.timer_gen = self.timer_gen + 1;
                let gen = self.timer_gen;
                self.queue.notes[i].deadline_gen = gen;
                let id = self.queue.notes[i].data.id;
                match effective_timeout(&self.cfg, &self.queue.notes[i].data) {
                    Some(ms) => {
                        fx.push(NoteEffect::ArmTimer { id, gen, ms });
                    },
                    None => {},
                }
            } else if i >= max && self.queue.notes[i].deadline_gen != 0 {
                self.queue.notes[i].deadline_gen = 0;
            }
            i = i + 1;
        }
        fx.push(NoteEffect::Refresh);
    }
    /// Whether popup `id` is queued and on screen.
    fn shown_now(&self, id: u32) -> (r: bool)
        ensures
            r == shown(self.queue.notes@, self.cfg.max_visible as int, id),
    {
        proof {
            crate::note::state::lemma_position_of(self.queue.notes@, id);
        }
        match find_note(&self.queue.notes, id) {
            Some(k) => k < self.cfg.max_visible,
            None => false,
        }
    }

    /// A notification arrived.
    fn notify(&mut self, d: NoteData) -> (fx: Vec<NoteEffect>)
        requires
            old(self).wf(),
            old(self).has_room(),
        ensures
            final(self).wf(),
            notified(*old(self), *final(self), d, fx@),
    {
        let mut fx: Vec<NoteEffect> = Vec::new();
        if self.dnd {
            self.queue.remember(&d, false);
            fx.push(NoteEffect::PingBadge);
            return fx;
        }
        let id = d.id;
        let timeout = effective_timeout(&self.cfg, &d);
        let grid = compose_note(&self.cfg, &d);
        let ghost g = grid;
        let ghost a = *self;
        let replaced = self.queue.upsert(d, grid);
        let ghost mid = self.queue.notes@;
        proof {
            lemma_upsert(a.queue.notes@, d, g);
        }
        let again = replaced && self.shown_now(id);
        proof {
            assert(again == shown(a.queue.notes@, a.cfg.max_visible as int, d.id));
        }
        if again {
            self.arm_expiry(id, timeout, &mut fx);
            proof {
                lemma_rearmed_distinct(mid, id, self.timer_gen);
            }
        }
        let ghost mid2 = self.queue.notes@;
        let ghost g1 = self.timer_gen;
        let ghost pre = fx@;
        self.sync(&mut fx);
        proof {
            lemma_synced_distinct(mid2, g1, self.queue.notes@, self.timer_gen, self.cfg.max_visible as int);
            lemma_synced_follows(mid2, g1, self.queue.notes@, self.timer_gen, self.cfg.max_visible as int);
            if !again {
                assert(pre =~= Seq::<NoteEffect>::empty());
            }
            assert(grid_view(g@) == framed(a.cfg, d));
        }
        fx
    }

    /// Remove popup `id` if it is queued, recording it in history (`seen`
    /// or not) and reporting the close with `reason`.
    fn remove_note(&mut self, id: u32, seen: bool, reason: u32) -> (fx: Vec<NoteEffect>)
        requires
            old(self).wf(),
            old(self).has_room(),
        ensures
            final(self).wf(),
            removed(*old(self), *final(self), id, seen, reason, fx@),
    {
        let mut fx: Vec<NoteEffect> = Vec::new();
        let ghost a = *self;
        proof {
            crate::note::state::lemma_position_of(a.queue.notes@, id);
        }
        if self.queue.remove(id, seen) {
            proof {
                let k = position_of(a.queue.notes@, id)->0;
                lemma_distinct_remove(a.queue.notes@, k);
            }
            if !seen {
                fx.push(NoteEffect::PingBadge);
            }
            fx.push(NoteEffect::Closed { id, reason });
            let ghost rest = self.queue.notes@;
            let ghost pre = fx@;
            self.sync(&mut fx);
            proof {
                assert(pre =~= badge(seen) + seq![NoteEffect::Closed { id, reason }]);
                lemma_synced_distinct(rest, a.timer_gen, self.queue.notes@, self.timer_gen, a.cfg.max_visible as int);
                lemma_synced_follows(rest, a.timer_gen, self.queue.notes@, self.timer_gen, a.cfg.max_visible as int);
            }
        }
        fx
    }

    /// Dismiss every popup, newest first, reporting each close.
    fn dismiss_all(&mut self) -> (fx: Vec<NoteEffect>)
        requires
            old(self).wf(),
            old(self).has_room(),
        ensures
            final(self).wf(),
            dismissed_all(*old(self), *final(self), fx@),
    {
        let ghost a = *self;
        let n = self.queue.notes.len();
        let mut ids: Vec<u32> = Vec::new();
        for i in 0..n
            invariant
                n == self.queue.notes@.len(),
                ids@.len() == i,
                forall|j: int| 0 <= j < i ==> ids@[j] == (#[trigger] self.queue.notes@[j]).data.id,
        {
            ids.push(self.queue.notes[i].data.id);
        }
        let mut fx: Vec<NoteEffect> = Vec::new();
        let ghost closed_of = |m: Note| NoteEffect::Closed { id: m.data.id, reason: REASON_DISMISSED };
        for i in 0..n
            invariant
                n == a.queue.notes@.len(),
                ids@.len() == n,
                forall|j: int| 0 <= j < n ==> ids@[j] == (#[trigger] a.queue.notes@[j]).data.id,
                ids_distinct(a.queue.notes@),
                a.queue.history.entries@.len() <= HISTORY_CAP,
                self.queue.notes@ == a.queue.notes@.skip(i as int),
                self.cfg == a.cfg,
                self.dnd == a.dnd,
                self.timer_gen == a.timer_gen,
                dismissed_into(a.queue.history, self.queue.history, datas(a.queue.notes@).take(i as int)),
                closed_of == (|m: Note| NoteEffect::Closed { id: m.data.id, reason: REASON_DISMISSED }),
                fx@ == a.queue.notes@.take(i as int).map_values(closed_of),
        {
            let id = ids[i];
            let ghost h1 = self.queue.history;
            let ghost cur = self.queue.notes@;
            let ghost old_fx = fx@;
            proof {
                crate::note::state::lemma_position_of(cur, id);
                assert(cur[0] == a.queue.notes@[i as int]);
                assert forall|j: int| 0 < j < cur.len() implies cur[j].data.id != id by {
                    assert(cur[j] == a.queue.notes@[i + j]);
                }
                assert(position_of(cur, id) == Some(0int));
            }
            self.queue.remove(id, true);
            fx.push(NoteEffect::Closed { id, reason: REASON_DISMISSED });
            proof {
                assert(self.queue.notes@ =~= a.queue.notes@.skip(i + 1));
                lemma_dismiss_step(
                    a.queue.history,
                    h1,
                    self.queue.history,
                    datas(a.queue.notes@).take(i as int),
                    a.queue.notes@[i as int].data,
                );
                assert(datas(a.queue.notes@).take(i as int).push(a.queue.notes@[i as int].data) =~= datas(
                    a.queue.notes@,
                ).take(i + 1));
                let want = a.queue.notes@.take(i + 1).map_values(closed_of);
                assert(want.len() == i + 1);
                assert forall|j: int| 0 <= j < i + 1 implies fx@[j] == want[j] by {
                    if j < i {
                        assert(a.queue.notes@.take(i + 1)[j] == a.queue.notes@.take(i as int)[j]);
                        assert(fx@[j] == old_fx[j]);
                    } else {
                        assert(a.queue.notes@.take(i + 1)[j] == a.queue.notes@[i as int]);
                    }
                }
                assert(fx@ =~= want);
            }
        }
        let ghost pre = fx@;
        self.sync(&mut fx);
        proof {
            assert(a.queue.notes@.take(n as int) =~= a.queue.notes@);
            assert(datas(a.queue.notes@).take(n as int) =~= datas(a.queue.notes@));
            assert(self.queue.notes@.len() == 0);
            assert(fx@ =~= pre.push(NoteEffect::Refresh));
        }
        fx
    }

    /// React to a bus event: queue or history a notification, close one,
    /// switch do-not-disturb, ask for a configuration reload, or dismiss
    /// everything.
    pub fn on_event(&mut self, ev: AppEvent) -> (fx: Vec<NoteEffect>)
        requires
            old(self).wf(),
            old(self).has_room(),
        ensures
            final(self).wf(),
            match ev {
                AppEvent::Notify(d) => notified(*old(self), *final(self), d, fx@),
                AppEvent::Close(id) => removed(*old(self), *final(self), id, false, REASON_CLOSED, fx@),
                AppEvent::DndChanged(on) => final(self).dnd == on && same_but_dnd(*old(self), *final(self))
                    && fx@.len() == 0,
                AppEvent::Reload => final(self).dnd == old(self).dnd && same_but_dnd(*old(self), *final(self))
                    && fx@ == seq![NoteEffect::Reload],
                AppEvent::DismissAll => dismissed_all(*old(self), *final(self), fx@),
            },
    {
        match ev {
            AppEvent::Notify(d) => self.notify(d),
            AppEvent::Close(id) => self.remove_note(id, false, REASON_CLOSED),
            AppEvent::DndChanged(on) => {
                self.dnd = on;
                Vec::new()
            },
            AppEvent::Reload => {
                let mut fx: Vec<NoteEffect> = Vec::new();
                fx.push(NoteEffect::Reload);
                fx
            },
            AppEvent::DismissAll => self.dismiss_all(),
        }
    }
    /// The expiry timer of popup `id` under generation `gen` fired: if it
    /// is still that popup's timer, the popup expires (unseen); a stale
    /// timer does nothing.
    pub fn on_expiry(&mut self, id: u32, gen: u64) -> (fx: Vec<NoteEffect>)
        requires
            old(self).wf(),
            old(self).has_room(),
        ensures
            final(self).wf(),
            if live_timer(old(self).queue.notes@, id, gen) {
                removed(*old(self), *final(self), id, false, REASON_EXPIRED, fx@)
            } else {
                same_but_dnd(*old(self), *final(self)) && final(self).dnd == old(self).dnd && fx@.len() == 0
            },
    {
        let ghost notes = self.queue.notes@;
        proof {
            crate::note::state::lemma_position_of(notes, id);
        }
        let live = match find_note(&self.queue.notes, id) {
            Some(k) => self.queue.notes[k].deadline_gen == gen,
            None => false,
        };
        proof {
            if live_timer(notes, id, gen) {
                let k = choose|k: int| 0 <= k < notes.len() && (#[trigger] notes[k]).data.id == id && notes[k].deadline_gen == gen;
                let p = position_of(notes, id)->0;
                assert(k == p);
            }
            if live {
                let p = position_of(notes, id)->0;
                assert(notes[p].data.id == id);
            }
        }
        if live {
            self.remove_note(id, false, REASON_EXPIRED)
        } else {
            Vec::new()
        }
    }

    /// A click at (`x`, `y`) on the surface whose popups were drawn at
    /// `bands`: the popup under it is dismissed.
    pub fn click(&mut self, bands: &Vec<Band>, x: usize, y: usize) -> (fx: Vec<NoteEffect>)
        requires
            old(self).wf(),
            old(self).has_room(),
        ensures
            final(self).wf(),
            match first_hit(bands@, x as int, y as int) {
                Some(id) => clicked_away(*old(self), *final(self), id, fx@),
                None => same_but_dnd(*old(self), *final(self)) && final(self).dnd == old(self).dnd && fx@.len() == 0,
            },
    {
        match hit_test(bands, x, y) {
            Some(id) => {
                let ghost a = *self;
                proof {
                    crate::note::state::lemma_position_of(a.queue.notes@, id);
                }
                let found = self.queue.remove(id, true);
                proof {
                    if found {
                        lemma_distinct_remove(a.queue.notes@, position_of(a.queue.notes@, id)->0);
                    }
                }
                let mut fx: Vec<NoteEffect> = Vec::new();
                fx.push(NoteEffect::Closed { id, reason: REASON_DISMISSED });
                let ghost rest = self.queue.notes@;
                let ghost pre = fx@;
                self.sync(&mut fx);
                proof {
                    assert(pre =~= seq![NoteEffect::Closed { id, reason: REASON_DISMISSED }]);
                    lemma_synced_distinct(rest, a.timer_gen, self.queue.notes@, self.timer_gen, a.cfg.max_visible as int);
                    lemma_synced_follows(rest, a.timer_gen, self.queue.notes@, self.timer_gen, a.cfg.max_visible as int);
                }
                fx
            },
            None => Vec::new(),
        }
    }

    /// Take a new configuration: every popup is re-framed under it, then
    /// timers are reconciled with the (possibly new) visible count and the
    /// surface refreshed.
    pub fn restyle(&mut self, cfg: Cfg) -> (fx: Vec<NoteEffect>)
        requires
            old(self).wf(),
            old(self).has_room(),
            cfg.max_width <= usize::MAX - 4,
        ensures
            final(self).wf(),
            final(self).cfg == cfg,
            final(self).dnd == old(self).dnd,
            final(self).queue.history == old(self).queue.history,
            final(self).queue.notes@.len() == old(self).queue.notes@.len(),
            forall|i: int|
                0 <= i < old(self).queue.notes@.len() ==> {
                    &&& (#[trigger] final(self).queue.notes@[i]).data == old(self).queue.notes@[i].data
                    &&& grid_view(final(self).queue.notes@[i].grid@) == framed(cfg, old(self).queue.notes@[i].data)
                    &&& final(self).queue.notes@[i].deadline_gen == synced_deadline(
                        old(self).queue.notes@,
                        cfg.max_visible as int,
                        old(self).timer_gen as int,
                        i,
                    )
                },
            final(self).timer_gen == old(self).timer_gen + unarmed_before(
                old(self).queue.notes@,
                cfg.max_visible as int,
                old(self).queue.notes@.len() as int,
            ),
            fx@ == sync_effects(Seq::empty(), old(self).queue.notes@, cfg.max_visible as int, old(self).timer_gen, cfg),
    {
        let ghost a = *self;
        self.cfg = cfg;
        let n = self.queue.notes.len();
        for i in 0..n
            invariant
                n == self.queue.notes@.len(),
                n == a.queue.notes@.len(),
                self.cfg == cfg,
                cfg.max_width <= usize::MAX - 4,
                self.dnd == a.dnd,
                self.timer_gen == a.timer_gen,
                self.queue.history == a.queue.history,
                forall|j: int|
                    0 <= j < n ==> {
                        &&& (#[trigger] self.queue.notes@[j]).data == a.queue.notes@[j].data
                        &&& self.queue.notes@[j].deadline_gen == a.queue.notes@[j].deadline_gen
                        &&& j < i ==> grid_view(self.queue.notes@[j].grid@) == framed(cfg, a.queue.notes@[j].data)
                    },
        {
            let g = compose_note(&self.cfg, &self.queue.notes[i].data);
            self.queue.notes[i].grid = g;
        }
        let ghost mid = self.queue.notes@;
        let mut fx: Vec<NoteEffect> = Vec::new();
        self.sync(&mut fx);
        proof {
            lemma_same_keys(mid, a.queue.notes@, cfg.max_visible as int, a.timer_gen as int, cfg, n as int);
            assert forall|i: int| 0 <= i < n implies unarmed_before(mid, cfg.max_visible as int, i) == unarmed_before(
                a.queue.notes@,
                cfg.max_visible as int,
                i,
            ) by {
                lemma_same_keys(mid, a.queue.notes@, cfg.max_visible as int, a.timer_gen as int, cfg, i);
            }
            assert(ids_distinct(mid)) by {
                assert forall|i: int, j: int| 0 <= i < j < mid.len() implies mid[i].data.id != mid[j].data.id by {
                    assert(mid[i].data == a.queue.notes@[i].data);
                    assert(mid[j].data == a.queue.notes@[j].data);
                }
            }
            lemma_synced_distinct(mid, a.timer_gen, self.queue.notes@, self.timer_gen, cfg.max_visible as int);
            lemma_synced_follows(mid, a.timer_gen, self.queue.notes@, self.timer_gen, cfg.max_visible as int);
        }
        fx
    }
    /// The popups on screen, in stack order.
    pub open spec fn on_screen(&self) -> Seq<Note> {
        let n = self.queue.notes@.len() as int;
        let m = self.cfg.max_visible as int;
        self.queue.notes@.take(if n <= m { n } else { m })
    }

    /// Where each popup on screen is drawn on a surface `surface_w` pixels
    /// wide, with `cw`×`ch` cells: stacked from the top with a gap between,
    /// against the right edge when the stack is anchored right.
    pub fn bands(&self, surface_w: usize, cw: usize, ch: usize) -> (r: Vec<Band>)
        requires
            stack_fits(self.on_screen(), cw as int, ch as int),
        ensures
            r@.len() == self.on_screen().len(),
            forall|i: int|
                0 <= i < r@.len() ==> #[trigger] r@[i] == band_of(
                    self.on_screen(),
                    i,
                    surface_w as int,
                    cw as int,
                    ch as int,
                    right_aligned(self.cfg.anchor),
                ),
    {
        let vis = self.queue.visible(self.cfg.max_visible);
        let ghost v = self.on_screen();
        assert(vis@ =~= v);
        let right = match self.cfg.anchor {
            AnchorCorner::TopRight | AnchorCorner::BottomRight => true,
            _ => false,
        };
        let mut r: Vec<Band> = Vec::new();
        let mut y: usize = 0;
        let n = vis.len();
        for i in 0..n
            invariant
                n == v.len(),
                vis@ == v,
                stack_fits(v, cw as int, ch as int),
                right == right_aligned(self.cfg.anchor),
                y == stack_top(v, ch as int, i as int),
                r@.len() == i,
                forall|j: int|
                    0 <= j < i ==> #[trigger] r@[j] == band_of(v, j, surface_w as int, cw as int, ch as int, right),
        {
            proof {
                lemma_stack_nonneg(v, ch as int, i as int);
                lemma_popup_h_nonneg(v[i as int], ch as int);
                if i + 1 < n {
                    lemma_stack_grows(v, ch as int, i as int, n as int);
                } else {
                    assert(stack_top(v, ch as int, i + 1) == stack_top(v, ch as int, n as int));
                }
                assert(popup_w(v[i as int], cw as int) <= usize::MAX);
            }
            let note = &vis[i];
            let pw = crate::note::frame::popup_width(&note.grid, cw);
            let ph = crate::note::frame::popup_height(&note.grid, ch);
            let x = if right && pw <= surface_w {
                surface_w - pw
            } else {
                0
            };
            r.push(Band { id: note.data.id, x0: x, y0: y, x1: x + pw, y1: y + ph });
            y = y + ph + INTER_GAP;
        }
        r
    }

    /// The surface size for the popups on screen (the widest popup by the
    /// stack's height, gaps between), or None when nothing is on screen
    /// and the surface goes away.
    pub fn surface_size(&self, cw: usize, ch: usize) -> (r: Option<(usize, usize)>)
        requires
            stack_fits(self.on_screen(), cw as int, ch as int),
        ensures
            match r {
                None => self.on_screen().len() == 0,
                Some((w, h)) => {
                    &&& self.on_screen().len() > 0
                    &&& w == widest(self.on_screen(), cw as int, self.on_screen().len() as int)
                    &&& h == stack_top(self.on_screen(), ch as int, self.on_screen().len() as int) - INTER_GAP
                },
            },
    {
        let vis = self.queue.visible(self.cfg.max_visible);
        let ghost v = self.on_screen();
        assert(vis@ =~= v);
        let n = vis.len();
        if n == 0 {
            return None;
        }
        let mut w: usize = 0;
        let mut y: usize = 0;
        for i in 0..n
            invariant
                n == v.len(),
                n > 0,
                vis@ == v,
                stack_fits(v, cw as int, ch as int),
                y == stack_top(v, ch as int, i as int),
                w == widest(v, cw as int, i as int),
        {
            proof {
                lemma_stack_nonneg(v, ch as int, i as int);
                lemma_popup_h_nonneg(v[i as int], ch as int);
                if i + 1 < n {
                    lemma_stack_grows(v, ch as int, i as int, n as int);
                } else {
                    assert(stack_top(v, ch as int, i + 1) == stack_top(v, ch as int, n as int));
                }
                assert(popup_w(v[i as int], cw as int) <= usize::MAX);
            }
            let note = &vis[i];
            let pw = crate::note::frame::popup_width(&note.grid, cw);
            let ph = crate::note::frame::popup_height(&note.grid, ch);
            if pw > w {
                w = pw;
            }
            y = y + ph + INTER_GAP;
        }
        proof {
            assert(stack_top(v, ch as int, n as int) >= INTER_GAP) by {
                lemma_stack_nonneg(v, ch as int, n - 1);
                lemma_popup_h_nonneg(v[n - 1], ch as int);
            }
        }
        Some((w, y - INTER_GAP))
    }
}

} // verus!
