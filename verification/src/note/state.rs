//! Notification model: the popup queue (newest first), the history ring of
//! closed notifications with its unseen counter, expiry and framing.
use vstd::prelude::*;
use std::collections::VecDeque;
use crate::chars::{chars_of, trim_chars, trim};
use crate::note::cfg::Cfg;
use crate::note::layout::{compose, compose_spec, str_views, Grid, Style, grid_view, max2, min2};
use crate::note::text::{one_line, one_line_spec, strip_markup, strip_from, wrap, wrap_spec, eff_cols};

verus! {

#[derive(Clone, Copy, PartialEq, Eq, Debug, Structural)]
pub enum Urgency {
    Low,
    Normal,
    Critical,
}

impl Urgency {
    /// The `urgency` hint byte: 0 low, 2 critical, anything else normal.
    pub fn from_hint(byte: u8) -> (u: Urgency)
        ensures
            u == (if byte == 0 {
                Urgency::Low
            } else if byte == 2 {
                Urgency::Critical
            } else {
                Urgency::Normal
            }),
    {
        match byte {
            0 => Urgency::Low,
            2 => Urgency::Critical,
            _ => Urgency::Normal,
        }
    }
}

/// Close reasons of org.freedesktop.Notifications.
pub const REASON_EXPIRED: u32 = 1;

pub const REASON_DISMISSED: u32 = 2;

pub const REASON_CLOSED: u32 = 3;

/// One notification as it arrives from the bus.
#[derive(Clone, Debug)]
pub struct NoteData {
    pub id: u32,
    pub app: String,
    pub summary: String,
    pub body: String,
    pub urgency: Urgency,
    /// -1 = server default, 0 = never expire, > 0 = milliseconds.
    pub timeout_ms: i32,
}

/// Everything the daemon's main loop reacts to besides display events.
pub enum AppEvent {
    Notify(NoteData),
    Close(u32),
    DndChanged(bool),
    DismissAll,
    /// Re-read the configuration and restyle live.
    Reload,
}

pub struct HistoryEntry {
    pub app: String,
    pub summary: String,
    pub body: String,
}

/// The history ring (newest first) plus the count of entries that arrived
/// unseen since the history was last read.
pub struct HistoryRing {
    pub entries: VecDeque<HistoryEntry>,
    pub unseen: u32,
}

/// Most entries the history ring keeps.
pub const HISTORY_CAP: usize = 50;

pub fn new_history() -> (h: HistoryRing)
    ensures
        h.entries@.len() == 0,
        h.unseen == 0,
{
    HistoryRing { entries: VecDeque::new(), unseen: 0 }
}

pub struct Note {
    pub data: NoteData,
    pub grid: Grid,
    /// Generation key of the expiry timer armed for this note; 0 = none.
    pub deadline_gen: u64,
}

/// Popup queue, newest first: the first `max_visible` notes are on screen,
/// the rest wait.
pub struct Queue {
    pub notes: Vec<Note>,
    pub history: HistoryRing,
}

/// Index of the first note with `id`.
pub open spec fn position_of(notes: Seq<Note>, id: u32) -> Option<int>
    decreases notes.len(),
{
    if notes.len() == 0 {
        None
    } else {
        match position_of(notes.drop_last(), id) {
            Some(k) => Some(k),
            None => if notes.last().data.id == id {
                Some(notes.len() - 1)
            } else {
                None
            },
        }
    }
}

pub(crate) proof fn lemma_position_of(notes: Seq<Note>, id: u32)
    ensures
        match position_of(notes, id) {
            Some(k) => 0 <= k < notes.len() && notes[k].data.id == id && forall|j: int|
                0 <= j < k ==> (#[trigger] notes[j]).data.id != id,
            None => forall|j: int| 0 <= j < notes.len() ==> (#[trigger] notes[j]).data.id != id,
        },
    decreases notes.len(),
{
    if notes.len() > 0 {
        lemma_position_of(notes.drop_last(), id);
        assert forall|j: int| 0 <= j < notes.len() - 1 implies notes[j] == notes.drop_last()[j] by {}
    }
}

pub(crate) fn find_note(notes: &Vec<Note>, id: u32) -> (r: Option<usize>)
    ensures
        match r {
            Some(k) => position_of(notes@, id) == Some(k as int),
            None => position_of(notes@, id) is None,
        },
{
    proof {
        lemma_position_of(notes@, id);
    }
    for i in 0..notes.len()
        invariant
            forall|j: int| 0 <= j < i ==> (#[trigger] notes@[j]).data.id != id,
            match position_of(notes@, id) {
                Some(k) => 0 <= k < notes@.len() && notes@[k].data.id == id && forall|j: int|
                    0 <= j < k ==> (#[trigger] notes@[j]).data.id != id,
                None => forall|j: int|
                    0 <= j < notes@.len() ==> (#[trigger] notes@[j]).data.id != id,
            },
    {
        if notes[i].data.id == id {
            return Some(i);
        }
    }
    None
}

/// The history entry recorded for a closed notification.
pub open spec fn entry_spec(e: HistoryEntry, d: NoteData) -> bool {
    &&& e.app@ == d.app@
    &&& e.summary@ == one_line_spec(d.summary@)
    &&& e.body@ == one_line_spec(d.body@)
}

impl Queue {
    pub fn new(history: HistoryRing) -> (q: Queue)
        ensures
            q.notes@.len() == 0,
            q.history == history,
    {
        Queue { notes: Vec::new(), history }
    }

    /// Insert, or replace by id: a replacement keeps the note's position and
    /// its timer key. Returns true if this was a replacement.
    pub fn upsert(&mut self, data: NoteData, grid: Grid) -> (replaced: bool)
        ensures
            replaced == (position_of(old(self).notes@, data.id) is Some),
            final(self).history == old(self).history,
            match position_of(old(self).notes@, data.id) {
                Some(k) => final(self).notes@ == old(self).notes@.update(
                    k,
                    Note { data: data, grid: grid, deadline_gen: old(self).notes@[k].deadline_gen },
                ),
                None => final(self).notes@ == seq![Note { data: data, grid: grid, deadline_gen: 0 }]
                    + old(self).notes@,
            },
    {
        proof {
            lemma_position_of(self.notes@, data.id);
        }
        match find_note(&self.notes, data.id) {
            Some(k) => {
                let gen = self.notes[k].deadline_gen;
                let note = Note { data, grid, deadline_gen: gen };
                self.notes.set(k, note);
                true
            },
            None => {
                self.notes.insert(0, Note { data, grid, deadline_gen: 0 });
                assert(self.notes@ =~= seq![Note { data: data, grid: grid, deadline_gen: 0 }]
                    + old(self).notes@);
                false
            },
        }
    }

    /// Remove by id, recording it in history. `seen` says whether the user
    /// closed it; unseen removals (expiry, sender close) count towards the
    /// unseen badge.
    pub fn remove(&mut self, id: u32, seen: bool) -> (found: bool)
        ensures
            found == (position_of(old(self).notes@, id) is Some),
            match position_of(old(self).notes@, id) {
                Some(k) => {
                    &&& final(self).notes@ == old(self).notes@.remove(k)
                    &&& remembered(old(self).history, final(self).history, old(self).notes@[k].data, seen)
                },
                None => final(self).notes@ == old(self).notes@ && final(self).history == old(self).history,
            },
    {
        proof {
            lemma_position_of(self.notes@, id);
        }
        match find_note(&self.notes, id) {
            Some(k) => {
                let n = self.notes.remove(k);
                self.remember(&n.data, seen);
                true
            },
            None => false,
        }
    }

    /// Record a notification in the history ring (one-line, markup
    /// stripped, newest first, at most `HISTORY_CAP` entries). Unseen
    /// arrivals bump the unseen counter.
    pub fn remember(&mut self, d: &NoteData, seen: bool)
        ensures
            remembered(old(self).history, final(self).history, *d, seen),
            final(self).notes == old(self).notes,
    {
        let e = HistoryEntry {
            app: d.app.clone(),
            summary: one_line(d.summary.as_str()),
            body: one_line(d.body.as_str()),
        };
        self.history.entries.push_front(e);
        self.history.entries.truncate(HISTORY_CAP);
        if !seen {
            self.history.unseen = if self.history.unseen < u32::MAX {
                self.history.unseen + 1
            } else {
                u32::MAX
            };
        }
    }

    /// The notes on screen: the first `max` of the queue.
    pub fn visible(&self, max: usize) -> (v: &[Note])
        ensures
            v@ == self.notes@.take(min2(self.notes@.len() as int, max as int)),
    {
        let n = if self.notes.len() <= max {
            self.notes.len()
        } else {
            max
        };
        vstd::slice::slice_subrange(self.notes.as_slice(), 0, n)
    }
}

/// `after` is `before` with `d` recorded: its entry first, older entries
/// kept up to the cap, the unseen count bumped (saturating) unless seen.
pub open spec fn remembered(before: HistoryRing, after: HistoryRing, d: NoteData, seen: bool) -> bool {
    let all_len: int = before.entries@.len() as int + 1;
    let n = if all_len <= HISTORY_CAP { all_len } else { HISTORY_CAP as int };
    &&& after.entries@.len() == n
    &&& entry_spec(after.entries@[0], d)
    &&& forall|k: int| 1 <= k < n ==> after.entries@[k] == before.entries@[k - 1]
    &&& after.unseen == (if seen {
        before.unseen
    } else if before.unseen < u32::MAX {
        (before.unseen + 1) as u32
    } else {
        u32::MAX
    })
}

/// Summary lines: wrapped, at most two.
pub open spec fn summary_lines(d: NoteData, max_width: usize) -> Seq<Seq<char>> {
    let w = wrap_spec(strip_from(d.summary@, 0), max_width as nat);
    if w.len() <= 2 { w } else { w.take(2) }
}

/// Body lines: none for a blank body, else wrapped, at most `max_lines`.
pub open spec fn body_lines(d: NoteData, max_width: usize, max_lines: usize) -> Seq<Seq<char>> {
    let src = strip_from(d.body@, 0);
    let w = if trim(src).len() == 0 {
        Seq::empty()
    } else {
        wrap_spec(src, max_width as nat)
    };
    if w.len() <= max_lines { w } else { w.take(max_lines as int) }
}

pub open spec fn style_for(cfg: Cfg, u: Urgency) -> Style {
    match u {
        Urgency::Critical => cfg.critical_border_style,
        _ => cfg.border_style,
    }
}

fn truncate_lines(v: &mut Vec<String>, n: usize)
    ensures
        final(v)@ == (if old(v)@.len() <= n { old(v)@ } else { old(v)@.take(n as int) }),
{
    v.truncate(n);
}

/// Wrap and frame one notification per the configuration (the frame style
/// follows the urgency).
pub fn compose_note(cfg: &Cfg, d: &NoteData) -> (g: Grid)
    requires
        cfg.max_width <= usize::MAX - 4,
    ensures
        grid_view(g@) == compose_spec(
            d.app@,
            summary_lines(*d, cfg.max_width),
            body_lines(*d, cfg.max_width, cfg.max_lines),
            style_for(*cfg, d.urgency),
            cfg.max_width as int,
        ),
{
    let style = match d.urgency {
        Urgency::Critical => cfg.critical_border_style,
        _ => cfg.border_style,
    };
    let stripped_summary = strip_markup(d.summary.as_str());
    let mut summary = wrap(stripped_summary.as_str(), cfg.max_width);
    truncate_lines(&mut summary, 2);
    let body_src = strip_markup(d.body.as_str());
    let body_chars = chars_of(body_src.as_str());
    let trimmed = trim_chars(&body_chars);
    let mut body: Vec<String> = if trimmed.len() == 0 {
        Vec::new()
    } else {
        wrap(body_src.as_str(), cfg.max_width)
    };
    truncate_lines(&mut body, cfg.max_lines);
    proof {
        assert(str_views(summary@) =~= summary_lines(*d, cfg.max_width));
        assert(str_views(body@) =~= body_lines(*d, cfg.max_width, cfg.max_lines));
        assert(eff_cols(cfg.max_width as nat) <= max2(cfg.max_width as int, 2));
    }
    compose(d.app.as_str(), summary.as_slice(), body.as_slice(), style, cfg.max_width)
}

/// Effective expiry in milliseconds; None = never. Critical notes use the
/// critical timeout, a negative client timeout means the default, 0 never.
pub open spec fn timeout_spec(cfg: Cfg, d: NoteData) -> Option<u64> {
    let ms: u64 = match d.urgency {
        Urgency::Critical => cfg.critical_timeout_ms,
        _ => if d.timeout_ms < 0 {
            cfg.default_timeout_ms
        } else {
            d.timeout_ms as u64
        },
    };
    if ms > 0 {
        Some(ms)
    } else {
        None
    }
}

/// When a notification expires: a critical one after the configured
/// critical timeout; any other after the client's own timeout when it gives
/// one (zero or more), else after the configured default. A timeout of zero
/// means it stays until dismissed. Low and normal urgency are treated alike.
pub proof fn expiry_follows_urgency(cfg: Cfg, d: NoteData)
    ensures
        d.urgency == Urgency::Critical ==> timeout_spec(cfg, d) == (if cfg.critical_timeout_ms == 0 {
            None
        } else {
            Some(cfg.critical_timeout_ms)
        }),
        d.urgency != Urgency::Critical && d.timeout_ms >= 0 ==> timeout_spec(cfg, d) == (if d.timeout_ms == 0 {
            None
        } else {
            Some(d.timeout_ms as u64)
        }),
        d.urgency != Urgency::Critical && d.timeout_ms < 0 ==> timeout_spec(cfg, d) == (if cfg.default_timeout_ms
            == 0 {
            None
        } else {
            Some(cfg.default_timeout_ms)
        }),
        timeout_spec(cfg, NoteData { urgency: Urgency::Low, ..d }) == timeout_spec(
            cfg,
            NoteData { urgency: Urgency::Normal, ..d },
        ),
{
}

pub fn effective_timeout(cfg: &Cfg, d: &NoteData) -> (r: Option<u64>)
    ensures
        r == timeout_spec(*cfg, *d),
{
    let ms: u64 = match d.urgency {
        Urgency::Critical => cfg.critical_timeout_ms,
        _ => if d.timeout_ms < 0 {
            cfg.default_timeout_ms
        } else {
            d.timeout_ms as u64
        },
    };
    if ms > 0 {
        Some(ms)
    } else {
        None
    }
}

} // verus!
