//! What the daemon's bus methods and the `ctl` client decide: the id a
//! notification gets, the notification built from a bus call, handing the
//! history to a reader (which clears the unseen count), the `ctl` command
//! line, and how a history entry is printed.
use vstd::prelude::*;
use crate::chars::{chars_of, eq_lit, extend_chars, string_of};
use crate::note::state::{HistoryEntry, HistoryRing, NoteData, Urgency};

verus! {

/// Hands out notification ids: a replacement keeps the id it replaces,
/// anything else takes the next one (counting from 1, wrapping).
pub struct IdSource {
    pub next: u32,
}

impl IdSource {
    pub fn new() -> (s: IdSource)
        ensures
            s.next == 1,
    {
        IdSource { next: 1 }
    }

    /// The id for a notification replacing `replaces_id` (0 for none).
    pub fn assign(&mut self, replaces_id: u32) -> (id: u32)
        ensures
            replaces_id != 0 ==> id == replaces_id && final(self).next == old(self).next,
            replaces_id == 0 ==> id == old(self).next && final(self).next == (if old(self).next == u32::MAX {
                0
            } else {
                (old(self).next + 1) as u32
            }),
    {
        if replaces_id != 0 {
            replaces_id
        } else {
            let id = self.next;
            self.next = self.next.wrapping_add(1);
            id
        }
    }
}

/// The urgency a call's hints give: the `urgency` byte when it is one,
/// else normal.
pub open spec fn urgency_of(hint: Option<u8>) -> Urgency {
    match hint {
        Some(b) => if b == 0 {
            Urgency::Low
        } else if b == 2 {
            Urgency::Critical
        } else {
            Urgency::Normal
        },
        None => Urgency::Normal,
    }
}

/// The notification a `Notify` call describes, under id `id` (icons and
/// actions are not used).
pub fn note_from_call(id: u32, app: &str, summary: &str, body: &str, urgency_hint: Option<u8>, expire_timeout: i32) -> (d:
    NoteData)
    ensures
        d.id == id,
        d.app@ == app@,
        d.summary@ == summary@,
        d.body@ == body@,
        d.urgency == urgency_of(urgency_hint),
        d.timeout_ms == expire_timeout,
{
    let urgency = match urgency_hint {
        Some(b) => Urgency::from_hint(b),
        None => Urgency::Normal,
    };
    NoteData {
        id,
        app: String::from_str(app),
        summary: String::from_str(summary),
        body: String::from_str(body),
        urgency,
        timeout_ms: expire_timeout,
    }
}

/// One history entry as (app, summary, body).
pub open spec fn entry_view(e: HistoryEntry) -> (Seq<char>, Seq<char>, Seq<char>) {
    (e.app@, e.summary@, e.body@)
}

pub open spec fn entries_view(s: Seq<HistoryEntry>) -> Seq<(Seq<char>, Seq<char>, Seq<char>)> {
    s.map_values(|e: HistoryEntry| entry_view(e))
}

pub open spec fn triples_view(s: Seq<(String, String, String)>) -> Seq<(Seq<char>, Seq<char>, Seq<char>)> {
    s.map_values(|t: (String, String, String)| (t.0@, t.1@, t.2@))
}

/// The history for a reader, newest first; reading it clears the unseen
/// count. Also says whether there were unseen entries (the status bar is
/// then told to refresh).
pub fn read_history(h: &mut HistoryRing) -> (r: (Vec<(String, String, String)>, bool))
    ensures
        triples_view(r.0@) == entries_view(old(h).entries@),
        r.1 == (old(h).unseen > 0),
        final(h).unseen == 0,
        final(h).entries == old(h).entries,
{
    let mut out: Vec<(String, String, String)> = Vec::new();
    let n = h.entries.len();
    for i in 0..n
        invariant
            n == h.entries@.len(),
            h.entries == old(h).entries,
            h.unseen == old(h).unseen,
            triples_view(out@) == entries_view(h.entries@.take(i as int)),
    {
        let e = &h.entries[i];
        let ghost before = out@;
        let t = (e.app.clone(), e.summary.clone(), e.body.clone());
        assert((t.0@, t.1@, t.2@) == entry_view(h.entries@[i as int]));
        out.push(t);
        proof {
            assert(triples_view(before).len() == before.len());
            assert(h.entries@.take(i as int).len() == i);
            assert(entries_view(h.entries@.take(i as int)).len() == i);
            assert(before.len() == i);
            assert(triples_view(out@) =~= entries_view(h.entries@.take(i + 1))) by {
                assert forall|j: int| 0 <= j < i + 1 implies triples_view(out@)[j] == entries_view(
                    h.entries@.take(i + 1),
                )[j] by {
                    if j < i {
                        assert(out@[j] == before[j]);
                        assert(triples_view(before)[j] == entries_view(h.entries@.take(i as int))[j]);
                    }
                }
            }
        }
    }
    proof {
        assert(h.entries@.take(n as int) =~= h.entries@);
    }
    let had_unseen = h.unseen > 0;
    h.unseen = 0;
    (out, had_unseen)
}

/// A `lifenote ctl` command.
#[derive(Clone, Copy, Debug, PartialEq, Eq, Structural)]
pub enum CtlCmd {
    DndToggle,
    DndSet(bool),
    DndGet,
    DismissAll,
    Reload,
    History,
    Unseen,
    /// Anything else: print the usage and exit with status 2.
    Usage,
}

pub open spec fn ctl_spec(args: Seq<Seq<char>>) -> CtlCmd {
    if args.len() == 2 && args[0] == "dnd"@ {
        if args[1] == "toggle"@ {
            CtlCmd::DndToggle
        } else if args[1] == "on"@ {
            CtlCmd::DndSet(true)
        } else if args[1] == "off"@ {
            CtlCmd::DndSet(false)
        } else if args[1] == "get"@ {
            CtlCmd::DndGet
        } else {
            CtlCmd::Usage
        }
    } else if args.len() == 1 && args[0] == "dismiss-all"@ {
        CtlCmd::DismissAll
    } else if args.len() == 1 && args[0] == "reload"@ {
        CtlCmd::Reload
    } else if args.len() == 1 && args[0] == "history"@ {
        CtlCmd::History
    } else if args.len() == 1 && args[0] == "unseen"@ {
        CtlCmd::Unseen
    } else {
        CtlCmd::Usage
    }
}

fn is_word(s: &String, w: &str) -> (r: bool)
    ensures
        r == (s@ == w@),
{
    eq_lit(&chars_of(s.as_str()), chars_of(w).as_slice())
}

/// The command the `ctl` arguments (after `ctl`) name.
pub fn parse_ctl(args: &Vec<String>) -> (c: CtlCmd)
    ensures
        c == ctl_spec(args@.map_values(|s: String| s@)),
{
    let ghost a = args@.map_values(|s: String| s@);
    if args.len() == 2 && is_word(&args[0], "dnd") {
        assert(a[0] == args@[0]@ && a[1] == args@[1]@);
        if is_word(&args[1], "toggle") {
            CtlCmd::DndToggle
        } else if is_word(&args[1], "on") {
            CtlCmd::DndSet(true)
        } else if is_word(&args[1], "off") {
            CtlCmd::DndSet(false)
        } else if is_word(&args[1], "get") {
            CtlCmd::DndGet
        } else {
            CtlCmd::Usage
        }
    } else if args.len() == 1 {
        assert(a[0] == args@[0]@);
        if is_word(&args[0], "dismiss-all") {
            CtlCmd::DismissAll
        } else if is_word(&args[0], "reload") {
            CtlCmd::Reload
        } else if is_word(&args[0], "history") {
            CtlCmd::History
        } else if is_word(&args[0], "unseen") {
            CtlCmd::Unseen
        } else {
            CtlCmd::Usage
        }
    } else {
        proof {
            if args.len() == 2 {
                assert(a[0] == args@[0]@);
            }
        }
        CtlCmd::Usage
    }
}

/// How `ctl history` prints an entry: `[app] summary`, then ` — body`
/// when there is a body.
pub open spec fn history_line_spec(app: Seq<char>, summary: Seq<char>, body: Seq<char>) -> Seq<char> {
    let head = seq!['['] + app + seq![']', ' '] + summary;
    if body.len() == 0 {
        head
    } else {
        head + " — "@ + body
    }
}

pub fn history_line(app: &str, summary: &str, body: &str) -> (s: String)
    ensures
        s@ == history_line_spec(app@, summary@, body@),
{
    let mut v: Vec<char> = Vec::new();
    v.push('[');
    extend_chars(&mut v, &chars_of(app));
    v.push(']');
    v.push(' ');
    extend_chars(&mut v, &chars_of(summary));
    let b = chars_of(body);
    if b.len() > 0 {
        extend_chars(&mut v, &chars_of(" — "));
        extend_chars(&mut v, &b);
    }
    proof {
        let head = seq!['['] + app@ + seq![']', ' '] + summary@;
        if body@.len() == 0 {
            assert(v@ =~= head);
        } else {
            assert(v@ =~= head + " — "@ + body@);
        }
    }
    string_of(&v)
}

} // verus!
