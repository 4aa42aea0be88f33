//! The greeter's session picker: `Name=`/`Exec=` read from the
//! `[Desktop Entry]` section of each session file, and the ring of sessions
//! that F3 cycles through. Reading the session directory is the caller's.
use vstd::prelude::*;
use crate::chars::{chars_of, eq_lit, join_spaced, join_with_spaces, split_words, starts_with_lit, string_of, tail_from, trim, trim_chars, words};
use crate::note::text::{paragraphs, split_paragraphs, views};

verus! {

/// One session: its display name and the command greetd starts.
pub struct SessionEntry {
    pub name: String,
    pub cmd: Vec<String>,
}

pub open spec fn str_views(v: Seq<String>) -> Seq<Seq<char>> {
    v.map_values(|s: String| s@)
}

pub open spec fn ascii_lower(c: char) -> char {
    if 'A' <= c && c <= 'Z' {
        ((c as u32) + 32) as char
    } else {
        c
    }
}

/// `v` is `true` ignoring ASCII case.
pub open spec fn is_true_word(v: Seq<char>) -> bool {
    &&& v.len() == 4
    &&& ascii_lower(v[0]) == 't'
    &&& ascii_lower(v[1]) == 'r'
    &&& ascii_lower(v[2]) == 'u'
    &&& ascii_lower(v[3]) == 'e'
}

pub open spec fn starts(v: Seq<char>, p: Seq<char>) -> bool {
    p.len() <= v.len() && v.take(p.len() as int) == p
}

pub open spec fn key_name() -> Seq<char> {
    seq!['N', 'a', 'm', 'e', '=']
}

pub open spec fn key_exec() -> Seq<char> {
    seq!['E', 'x', 'e', 'c', '=']
}

pub open spec fn key_hidden() -> Seq<char> {
    seq!['H', 'i', 'd', 'd', 'e', 'n', '=']
}

pub open spec fn key_no_display() -> Seq<char> {
    seq!['N', 'o', 'D', 'i', 's', 'p', 'l', 'a', 'y', '=']
}

pub open spec fn entry_header() -> Seq<char> {
    seq!['[', 'D', 'e', 's', 'k', 't', 'o', 'p', ' ', 'E', 'n', 't', 'r', 'y', ']']
}

/// Reading state: inside `[Desktop Entry]`, the first `Name=` and `Exec=`
/// values, and whether `Hidden`/`NoDisplay` was set.
pub type Scan = (bool, Option<Seq<char>>, Option<Seq<char>>, bool);

/// One (untrimmed) line read into the state.
pub open spec fn scan_line(st: Scan, raw: Seq<char>) -> Scan {
    let line = trim(raw);
    let (in_entry, name, exec, hidden) = st;
    if line.len() > 0 && line[0] == '[' {
        (line == entry_header(), name, exec, hidden)
    } else if !in_entry {
        st
    } else if starts(line, key_name()) {
        (in_entry, if name is None { Some(trim(line.skip(5))) } else { name }, exec, hidden)
    } else if starts(line, key_exec()) {
        (in_entry, name, if exec is None { Some(trim(line.skip(5))) } else { exec }, hidden)
    } else if starts(line, key_hidden()) {
        (in_entry, name, exec, hidden || is_true_word(trim(line.skip(7))))
    } else if starts(line, key_no_display()) {
        (in_entry, name, exec, hidden || is_true_word(trim(line.skip(10))))
    } else {
        st
    }
}

pub open spec fn scan(lines: Seq<Seq<char>>) -> Scan
    decreases lines.len(),
{
    if lines.len() == 0 {
        (false, None, None, false)
    } else {
        scan_line(scan(lines.drop_last()), lines.last())
    }
}

/// The words that are not `%` field codes.
pub open spec fn drop_codes(ws: Seq<Seq<char>>) -> Seq<Seq<char>>
    decreases ws.len(),
{
    if ws.len() == 0 {
        ws
    } else {
        let r = drop_codes(ws.drop_last());
        if ws.last().len() > 0 && ws.last()[0] == '%' {
            r
        } else {
            r.push(ws.last())
        }
    }
}

/// The session a desktop file describes, as (name, command): none when it
/// is hidden, has no `Exec=` or an empty command. The name defaults to the
/// command's first word.
pub open spec fn desktop_spec(text: Seq<char>) -> Option<(Seq<char>, Seq<Seq<char>>)> {
    let (_, name, exec, hidden) = scan(paragraphs(text));
    if hidden {
        None
    } else {
        match exec {
            None => None,
            Some(e) => {
                let cmd = drop_codes(words(e));
                if cmd.len() == 0 {
                    None
                } else {
                    Some(
                        (
                            match name {
                                Some(n) => n,
                                None => cmd[0],
                            },
                            cmd,
                        ),
                    )
                }
            },
        }
    }
}

pub open spec fn opt_view(o: Option<Vec<char>>) -> Option<Seq<char>> {
    match o {
        Some(v) => Some(v@),
        None => None,
    }
}

/// `v` is `true` ignoring ASCII case.
fn true_word(v: &Vec<char>) -> (r: bool)
    ensures
        r == is_true_word(v@),
{
    if v.len() != 4 {
        return false;
    }
    (v[0] == 't' || v[0] == 'T') && (v[1] == 'r' || v[1] == 'R') && (v[2] == 'u' || v[2] == 'U') && (
        v[3] == 'e' || v[3] == 'E')
}

/// The trimmed value after a key of `len` characters.
fn value_after(line: &Vec<char>, len: usize) -> (r: Vec<char>)
    requires
        len <= line@.len(),
    ensures
        r@ == trim(line@.skip(len as int)),
{
    trim_chars(&tail_from(line, len))
}

/// Read one line into the state.
fn scan_step(
    raw: &Vec<char>,
    in_entry: &mut bool,
    name: &mut Option<Vec<char>>,
    exec: &mut Option<Vec<char>>,
    hidden: &mut bool,
)
    ensures
        (*final(in_entry), opt_view(*final(name)), opt_view(*final(exec)), *final(hidden))
            == scan_line((*old(in_entry), opt_view(*old(name)), opt_view(*old(exec)), *old(hidden)), raw@),
{
    let line = trim_chars(raw);
    if line.len() > 0 && line[0] == '[' {
        *in_entry = eq_lit(&line, &['[', 'D', 'e', 's', 'k', 't', 'o', 'p', ' ', 'E', 'n', 't', 'r', 'y', ']']);
        return;
    }
    if !*in_entry {
        return;
    }
    if starts_with_lit(&line, &['N', 'a', 'm', 'e', '=']) {
        if name.is_none() {
            *name = Some(value_after(&line, 5));
        }
    } else if starts_with_lit(&line, &['E', 'x', 'e', 'c', '=']) {
        if exec.is_none() {
            *exec = Some(value_after(&line, 5));
        }
    } else if starts_with_lit(&line, &['H', 'i', 'd', 'd', 'e', 'n', '=']) {
        let v = value_after(&line, 7);
        if true_word(&v) {
            *hidden = true;
        }
    } else if starts_with_lit(&line, &['N', 'o', 'D', 'i', 's', 'p', 'l', 'a', 'y', '=']) {
        let v = value_after(&line, 10);
        if true_word(&v) {
            *hidden = true;
        }
    }
}

/// The words of `e` without `%` codes, as strings.
fn command_words(e: &Vec<char>) -> (cmd: Vec<String>)
    ensures
        str_views(cmd@) == drop_codes(words(e@)),
{
    let ws = split_words(e);
    let ghost wv = words(e@);
    let mut cmd: Vec<String> = Vec::new();
    for i in 0..ws.len()
        invariant
            ws@.len() == wv.len(),
            forall|k: int| 0 <= k < ws@.len() ==> (#[trigger] ws@[k])@ == wv[k],
            str_views(cmd@) == drop_codes(wv.take(i as int)),
    {
        proof {
            assert(wv.take(i + 1).drop_last() =~= wv.take(i as int));
        }
        let w = &ws[i];
        if !(w.len() > 0 && w[0] == '%') {
            let ghost before = str_views(cmd@);
            cmd.push(string_of(w));
            proof {
                assert(str_views(cmd@) =~= before.push(ws@[i as int]@));
            }
        }
    }
    proof {
        assert(wv.take(ws@.len() as int) =~= wv);
    }
    cmd
}

/// Read one desktop file: only its `[Desktop Entry]` section counts;
/// hidden entries are dropped and `%` field codes stripped from the command.
pub fn parse_desktop(text: &str) -> (r: Option<SessionEntry>)
    ensures
        match desktop_spec(text@) {
            None => r is None,
            Some((n, c)) => r matches Some(e) && e.name@ == n && str_views(e.cmd@) == c,
        },
{
    let v = chars_of(text);
    let lines = split_paragraphs(&v);
    let ghost lv = views(lines@);
    let mut in_entry = false;
    let mut name: Option<Vec<char>> = None;
    let mut exec: Option<Vec<char>> = None;
    let mut hidden = false;
    for i in 0..lines.len()
        invariant
            lv == views(lines@),
            lv == paragraphs(v@),
            (in_entry, opt_view(name), opt_view(exec), hidden) == scan(lv.take(i as int)),
    {
        proof {
            assert(lv.take(i + 1).drop_last() =~= lv.take(i as int));
        }
        scan_step(&lines[i], &mut in_entry, &mut name, &mut exec, &mut hidden);
    }
    proof {
        assert(lv.take(lines@.len() as int) =~= lv);
    }
    if hidden {
        return None;
    }
    let e = match exec {
        Some(e) => e,
        None => {
            return None;
        },
    };
    let cmd = command_words(&e);
    if cmd.len() == 0 {
        return None;
    }
    let name_s = match name {
        Some(n) => string_of(&n),
        None => cmd[0].clone(),
    };
    Some(SessionEntry { name: name_s, cmd })
}

/// `w` holds `pat` somewhere.
pub open spec fn contains_seq(w: Seq<char>, pat: Seq<char>) -> bool {
    exists|i: int| 0 <= i && i + pat.len() <= w.len() && #[trigger] w.subrange(i, i + pat.len()) == pat
}

pub open spec fn niri_session() -> Seq<char> {
    seq!['n', 'i', 'r', 'i', '-', 's', 'e', 's', 's', 'i', 'o', 'n']
}

/// The command starts the niri session: one of its words contains
/// `niri-session`.
pub open spec fn is_niri(cmd: Seq<Seq<char>>) -> bool {
    exists|k: int| 0 <= k < cmd.len() && contains_seq(#[trigger] cmd[k], niri_session())
}

/// Index of the first niri session, or 0.
pub open spec fn default_index(cmds: Seq<Seq<Seq<char>>>) -> int
    decreases cmds.len(),
{
    if cmds.len() == 0 {
        0
    } else if is_niri(cmds[0]) {
        0
    } else if exists|k: int| 1 <= k < cmds.len() && is_niri(#[trigger] cmds[k]) {
        1 + default_index(cmds.skip(1))
    } else {
        0
    }
}

fn contains_pat(w: &Vec<char>, pat: &[char]) -> (r: bool)
    ensures
        r == contains_seq(w@, pat@),
{
    if pat.len() > w.len() {
        return false;
    }
    let wl = w.len();
    let last = wl - pat.len();
    let mut i: usize = 0;
    loop
        invariant
            wl == w@.len(),
            last == w@.len() - pat@.len(),
            pat@.len() <= w@.len(),
            i <= last,
            forall|j: int| 0 <= j < i ==> #[trigger] w@.subrange(j, j + pat@.len()) != pat@,
        decreases last - i,
    {
        let mut ok = true;
        let mut k: usize = 0;
        while k < pat.len()
            invariant
                wl == w@.len(),
                i <= last,
                last == w@.len() - pat@.len(),
                pat@.len() <= w@.len(),
                k <= pat@.len(),
                ok == (forall|m: int| 0 <= m < k ==> w@[i + m] == pat@[m]),
            decreases pat@.len() - k,
        {
            if w[i + k] != pat[k] {
                ok = false;
            }
            k += 1;
        }
        if ok {
            assert(w@.subrange(i as int, i + pat@.len()) =~= pat@);
            return true;
        }
        assert(w@.subrange(i as int, i + pat@.len()) != pat@) by {
            let m = choose|m: int| 0 <= m < pat@.len() && w@[i + m] != pat@[m];
            assert(w@.subrange(i as int, i + pat@.len())[m] != pat@[m]);
        }
        if i == last {
            return false;
        }
        i += 1;
    }
}

pub open spec fn cmd_view(e: SessionEntry) -> Seq<Seq<char>> {
    str_views(e.cmd@)
}

fn entry_is_niri(e: &SessionEntry) -> (r: bool)
    ensures
        r == is_niri(cmd_view(*e)),
{
    let pat = ['n', 'i', 'r', 'i', '-', 's', 'e', 's', 's', 'i', 'o', 'n'];
    assert(pat@ == niri_session());
    for k in 0..e.cmd.len()
        invariant
            pat@ == niri_session(),
            forall|j: int| 0 <= j < k ==> !contains_seq(#[trigger] cmd_view(*e)[j], niri_session()),
    {
        if contains_pat(&chars_of(e.cmd[k].as_str()), &pat) {
            assert(cmd_view(*e)[k as int] == e.cmd@[k as int]@);
            return true;
        }
    }
    false
}

/// The sessions F3 cycles through, with the one selected.
pub struct Sessions {
    entries: Vec<SessionEntry>,
    idx: usize,
}

impl Sessions {
    #[verifier::type_invariant]
    spec fn inv(self) -> bool {
        0 < self.entries@.len() && self.idx < self.entries@.len()
    }

    /// The sessions' names and commands, in cycle order.
    pub closed spec fn names(self) -> Seq<Seq<char>> {
        self.entries@.map_values(|e: SessionEntry| e.name@)
    }

    pub closed spec fn cmds(self) -> Seq<Seq<Seq<char>>> {
        self.entries@.map_values(|e: SessionEntry| cmd_view(e))
    }

    /// The selected position.
    pub closed spec fn index(self) -> int {
        self.idx as int
    }

    /// The sessions read from the session files (in file-name order); with
    /// none, a single entry runs `fallback_cmd` under its words joined by
    /// spaces. The niri session is selected when there is one.
    pub fn from_entries(entries: Vec<SessionEntry>, fallback_cmd: &Vec<String>) -> (s: Sessions)
        ensures
            entries@.len() > 0 ==> s.names() == entries@.map_values(|e: SessionEntry| e.name@)
                && s.cmds() == entries@.map_values(|e: SessionEntry| cmd_view(e)),
            entries@.len() == 0 ==> s.names() == seq![join_spaced(str_views(fallback_cmd@))]
                && s.cmds() == seq![str_views(fallback_cmd@)],
            s.index() == default_index(s.cmds()),
    {
        let mut entries = entries;
        if entries.len() == 0 {
            let mut ws: Vec<Vec<char>> = Vec::new();
            let mut cmd: Vec<String> = Vec::new();
            for i in 0..fallback_cmd.len()
                invariant
                    ws@.map_values(|w: Vec<char>| w@) == str_views(fallback_cmd@).take(i as int),
                    str_views(cmd@) == str_views(fallback_cmd@).take(i as int),
            {
                let ghost before_w = ws@.map_values(|w: Vec<char>| w@);
                let ghost before_c = str_views(cmd@);
                ws.push(chars_of(fallback_cmd[i].as_str()));
                cmd.push(fallback_cmd[i].clone());
                proof {
                    assert(ws@.map_values(|w: Vec<char>| w@) =~= before_w.push(fallback_cmd@[i as int]@));
                    assert(str_views(cmd@) =~= before_c.push(fallback_cmd@[i as int]@));
                    assert(str_views(fallback_cmd@).take(i + 1) =~= str_views(fallback_cmd@).take(
                        i as int,
                    ).push(fallback_cmd@[i as int]@));
                }
            }
            proof {
                assert(str_views(fallback_cmd@).take(fallback_cmd@.len() as int) =~= str_views(fallback_cmd@));
            }
            let name = string_of(&join_with_spaces(&ws));
            entries.push(SessionEntry { name, cmd });
        }
        let idx = first_niri(&entries);
        proof {
            assert(entries@.map_values(|e: SessionEntry| cmd_view(e)) =~= entries@.map_values(
                |e: SessionEntry| cmd_view(e),
            ));
        }
        Sessions { entries, idx }
    }

    /// The selected session.
    pub fn current(&self) -> (e: &SessionEntry)
        ensures
            e.name@ == self.names()[self.index()],
            cmd_view(*e) == self.cmds()[self.index()],
    {
        proof {
            use_type_invariant(self);
        }
        &self.entries[self.idx]
    }

    pub fn len(&self) -> (n: usize)
        ensures
            n == self.names().len(),
            n > 0,
    {
        proof {
            use_type_invariant(self);
        }
        self.entries.len()
    }

    /// Select the next session, wrapping around after the last.
    pub fn cycle(&mut self)
        ensures
            final(self).names() == old(self).names(),
            final(self).cmds() == old(self).cmds(),
            final(self).index() == (old(self).index() + 1) % (old(self).names().len() as int),
    {
        proof {
            use_type_invariant(&*self);
        }
        let n = self.entries.len();
        if self.idx + 1 == n {
            proof {
                vstd::arithmetic::div_mod::lemma_mod_self_0(n as int);
            }
            self.idx = 0;
        } else {
            proof {
                vstd::arithmetic::div_mod::lemma_small_mod((self.idx + 1) as nat, n as nat);
            }
            self.idx = self.idx + 1;
        }
    }
}

fn first_niri(entries: &Vec<SessionEntry>) -> (i: usize)
    ensures
        i == default_index(entries@.map_values(|e: SessionEntry| cmd_view(e))),
        entries@.len() > 0 ==> i < entries@.len(),
{
    let ghost cs = entries@.map_values(|e: SessionEntry| cmd_view(e));
    for k in 0..entries.len()
        invariant
            cs == entries@.map_values(|e: SessionEntry| cmd_view(e)),
            forall|j: int| 0 <= j < k ==> !is_niri(#[trigger] cs[j]),
    {
        if entry_is_niri(&entries[k]) {
            proof {
                lemma_default_index(cs, k as int);
            }
            return k;
        }
    }
    proof {
        lemma_default_index_none(cs);
    }
    0
}

proof fn lemma_default_index(cs: Seq<Seq<Seq<char>>>, k: int)
    requires
        0 <= k < cs.len(),
        is_niri(cs[k]),
        forall|j: int| 0 <= j < k ==> !is_niri(#[trigger] cs[j]),
    ensures
        default_index(cs) == k,
    decreases k,
{
    if k > 0 {
        assert(cs.skip(1)[k - 1] == cs[k]);
        assert forall|j: int| 0 <= j < k - 1 implies !is_niri(#[trigger] cs.skip(1)[j]) by {
            assert(cs.skip(1)[j] == cs[j + 1]);
        }
        lemma_default_index(cs.skip(1), k - 1);
    }
}

proof fn lemma_default_index_none(cs: Seq<Seq<Seq<char>>>)
    requires
        forall|j: int| 0 <= j < cs.len() ==> !is_niri(#[trigger] cs[j]),
    ensures
        default_index(cs) == 0,
{
}

/// `n` presses of F3 from position `i` of a ring of `len` sessions.
pub open spec fn cycled(i: int, len: int, n: nat) -> int
    decreases n,
{
    if n == 0 {
        i
    } else {
        (cycled(i, len, (n - 1) as nat) + 1) % len
    }
}

/// Cycling visits the ring in order and comes back: `n` presses from `i`
/// land on `(i + n) mod len`, so `len` presses return to the start.
pub proof fn cycling_wraps_around(i: int, len: int, n: nat)
    requires
        0 <= i < len,
    ensures
        cycled(i, len, n) == (i + n) % len,
        cycled(i, len, len as nat) == i,
{
    lemma_cycled_closed(i, len, n);
    lemma_cycled_closed(i, len, len as nat);
    vstd::arithmetic::div_mod::lemma_mod_multiples_vanish(1, i, len);
    vstd::arithmetic::div_mod::lemma_small_mod(i as nat, len as nat);
}

proof fn lemma_cycled_closed(i: int, len: int, n: nat)
    requires
        0 <= i < len,
    ensures
        cycled(i, len, n) == (i + n) % len,
    decreases n,
{
    if n > 0 {
        lemma_cycled_closed(i, len, (n - 1) as nat);
        let x = i + n - 1;
        vstd::arithmetic::div_mod::lemma_fundamental_div_mod(x, len);
        vstd::arithmetic::div_mod::lemma_mod_multiples_vanish(x / len, x % len + 1, len);
        assert(len * (x / len) + (x % len + 1) == x + 1);
    } else {
        vstd::arithmetic::div_mod::lemma_small_mod(i as nat, len as nat);
    }
}

} // verus!
