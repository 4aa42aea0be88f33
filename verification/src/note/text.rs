//! Body text preparation for notifications: markup stripping, the one-line
//! history form, and word wrap. Columns are counted in characters.
use vstd::prelude::*;
use crate::num::{parse_u32_at, parse_u32_spec};
use crate::chars::{utf8_len, utf8_width, chars_of, is_word, is_ws, join_spaced, join_with_spaces, lemma_words_are_words, split_words, string_of, words};

verus! {

// ----- markup stripping --------------------------------------------------

/// Index just past the first `>` at or after `i` (the end of `s` if none).
pub open spec fn tag_end(s: Seq<char>, i: int) -> int
    decreases s.len() - i,
{
    if i >= s.len() {
        s.len() as int
    } else if s[i] == '>' {
        i + 1
    } else {
        tag_end(s, i + 1)
    }
}

/// Scan of an entity name starting at `i`, `bytes` bytes collected so far:
/// the index where the name stops, and whether a `;` stopped it. The name
/// stops at `;`, at `&` or `<`, once it holds 8 bytes, or at the end.
pub open spec fn ent_scan(s: Seq<char>, i: int, bytes: nat) -> (int, bool)
    decreases s.len() - i,
{
    if i >= s.len() {
        (i, false)
    } else if s[i] == ';' {
        (i, true)
    } else if bytes >= 8 || s[i] == '&' || s[i] == '<' {
        (i, false)
    } else {
        ent_scan(s, i + 1, bytes + utf8_len(s[i]))
    }
}

/// `char::from_u32`: scalar values only.
pub open spec fn char_of(code: u32) -> Option<char> {
    if code < 0xd800 || (0xe000 <= code && code <= 0x10ffff) {
        Some(code as char)
    } else {
        None
    }
}

/// The character an entity name stands for: the five XML names, `#xHEX`,
/// `#XHEX` and `#DEC`.
pub open spec fn decode_entity(ent: Seq<char>) -> Option<char> {
    if ent == seq!['a', 'm', 'p'] {
        Some('&')
    } else if ent == seq!['l', 't'] {
        Some('<')
    } else if ent == seq!['g', 't'] {
        Some('>')
    } else if ent == seq!['q', 'u', 'o', 't'] {
        Some('"')
    } else if ent == seq!['a', 'p', 'o', 's'] {
        Some('\'')
    } else {
        let hex = if ent.len() >= 2 && ent[0] == '#' && (ent[1] == 'x' || ent[1] == 'X') {
            parse_u32_spec(ent.skip(2), 16)
        } else {
            None
        };
        let code = match hex {
            Some(v) => Some(v),
            None => if ent.len() >= 1 && ent[0] == '#' {
                parse_u32_spec(ent.skip(1), 10)
            } else {
                None
            },
        };
        match code {
            Some(v) => char_of(v),
            None => None,
        }
    }
}

pub proof fn lemma_tag_end_bounds(s: Seq<char>, i: int)
    requires
        0 <= i <= s.len(),
    ensures
        i <= tag_end(s, i) <= s.len(),
    decreases s.len() - i,
{
    if i < s.len() && s[i] != '>' {
        lemma_tag_end_bounds(s, i + 1);
    }
}

pub proof fn lemma_ent_scan_bounds(s: Seq<char>, i: int, bytes: nat)
    requires
        0 <= i <= s.len(),
    ensures
        i <= ent_scan(s, i, bytes).0 <= s.len(),
        ent_scan(s, i, bytes).1 ==> ent_scan(s, i, bytes).0 < s.len(),
    decreases s.len() - i,
{
    if i < s.len() && s[i] != ';' && !(bytes >= 8 || s[i] == '&' || s[i] == '<') {
        lemma_ent_scan_bounds(s, i + 1, bytes + utf8_len(s[i]));
    }
}

/// What `strip_markup` makes of `s` from index `i` on: `<...>` runs dropped
/// (to the end if unterminated), known entities decoded, anything else kept.
pub open spec fn strip_from(s: Seq<char>, i: int) -> Seq<char>
    decreases s.len() - i,
{
    if i < 0 || i >= s.len() {
        Seq::empty()
    } else if s[i] == '<' {
        proof {
            lemma_tag_end_bounds(s, i + 1);
        }
        strip_from(s, tag_end(s, i + 1))
    } else if s[i] == '&' {
        proof {
            lemma_ent_scan_bounds(s, i + 1, 0);
        }
        let (e, terminated) = ent_scan(s, i + 1, 0);
        let ent = s.subrange(i + 1, e);
        if !terminated {
            seq!['&'] + ent + strip_from(s, e)
        } else {
            match decode_entity(ent) {
                Some(ch) => seq![ch] + strip_from(s, e + 1),
                None => seq!['&'] + ent + seq![';'] + strip_from(s, e + 1),
            }
        }
    } else {
        seq![s[i]] + strip_from(s, i + 1)
    }
}

/// Text with neither a tag nor an entity in it comes through stripping
/// unchanged, from any index on.
pub proof fn plain_text_is_kept(s: Seq<char>, i: int)
    requires
        0 <= i <= s.len(),
        forall|k: int| i <= k < s.len() ==> s[k] != '<' && s[k] != '&',
    ensures
        strip_from(s, i) == s.skip(i),
    decreases s.len() - i,
{
    if i < s.len() {
        plain_text_is_kept(s, i + 1);
        assert(s.skip(i) =~= seq![s[i]] + s.skip(i + 1));
    } else {
        assert(s.skip(i) =~= Seq::<char>::empty());
    }
}

/// `char::from_u32`.
#[verifier::external_body]
pub(crate) fn char_from_u32(code: u32) -> (r: Option<char>)
    ensures
        r == char_of(code),
{
    char::from_u32(code)
}

/// Is `v[from..to]` exactly the characters `lit`?
fn span_is(v: &Vec<char>, from: usize, to: usize, lit: &[char]) -> (r: bool)
    requires
        from <= to <= v.len(),
    ensures
        r == (v@.subrange(from as int, to as int) == lit@),
{
    if to - from != lit.len() {
        return false;
    }
    let mut k: usize = 0;
    while k < lit.len()
        invariant
            from <= to <= v.len(),
            to - from == lit@.len(),
            k <= lit@.len(),
            forall|t: int| 0 <= t < k ==> v@[from + t] == lit@[t],
        decreases lit@.len() - k,
    {
        if v[from + k] != lit[k] {
            assert(v@.subrange(from as int, to as int)[k as int] != lit@[k as int]);
            return false;
        }
        k += 1;
    }
    assert(v@.subrange(from as int, to as int) =~= lit@);
    true
}

/// Decode the entity name `v[from..to]`.
fn decode_entity_at(v: &Vec<char>, from: usize, to: usize) -> (r: Option<char>)
    requires
        from <= to <= v.len(),
    ensures
        r == decode_entity(v@.subrange(from as int, to as int)),
{
    let ghost ent = v@.subrange(from as int, to as int);
    if span_is(v, from, to, &['a', 'm', 'p']) {
        return Some('&');
    }
    if span_is(v, from, to, &['l', 't']) {
        return Some('<');
    }
    if span_is(v, from, to, &['g', 't']) {
        return Some('>');
    }
    if span_is(v, from, to, &['q', 'u', 'o', 't']) {
        return Some('"');
    }
    if span_is(v, from, to, &['a', 'p', 'o', 's']) {
        return Some('\'');
    }
    let n = to - from;
    let mut name: Vec<char> = Vec::new();
    let mut k = from;
    while k < to
        invariant
            from <= k <= to <= v.len(),
            name@ == v@.subrange(from as int, k as int),
        decreases to - k,
    {
        name.push(v[k]);
        k += 1;
    }
    assert(name@ == ent);
    let hex = if n >= 2 && name[0] == '#' && (name[1] == 'x' || name[1] == 'X') {
        parse_u32_at(&name, 2, 16)
    } else {
        None
    };
    let code = match hex {
        Some(x) => Some(x),
        None => if n >= 1 && name[0] == '#' {
            parse_u32_at(&name, 1, 10)
        } else {
            None
        },
    };
    match code {
        Some(x) => char_from_u32(x),
        None => None,
    }
}

fn find_tag_end(v: &Vec<char>, i: usize) -> (j: usize)
    requires
        i <= v.len(),
    ensures
        j == tag_end(v@, i as int),
{
    let mut k = i;
    while k < v.len()
        invariant
            i <= k <= v.len(),
            tag_end(v@, i as int) == tag_end(v@, k as int),
        decreases v.len() - k,
    {
        if v[k] == '>' {
            return k + 1;
        }
        k += 1;
    }
    k
}

fn scan_entity(v: &Vec<char>, i: usize) -> (r: (usize, bool))
    requires
        i <= v.len(),
    ensures
        (r.0 as int, r.1) == ent_scan(v@, i as int, 0),
{
    let mut k = i;
    let mut bytes: usize = 0;
    while k < v.len()
        invariant
            i <= k <= v.len(),
            bytes <= 8 + 4,
            ent_scan(v@, i as int, 0) == ent_scan(v@, k as int, bytes as nat),
        decreases v.len() - k,
    {
        let c = v[k];
        if c == ';' {
            return (k, true);
        }
        if bytes >= 8 || c == '&' || c == '<' {
            return (k, false);
        }
        bytes = bytes + utf8_width(c);
        k += 1;
    }
    (k, false)
}

fn push_span(out: &mut Vec<char>, v: &Vec<char>, from: usize, to: usize)
    requires
        from <= to <= v.len(),
    ensures
        final(out)@ == old(out)@ + v@.subrange(from as int, to as int),
{
    let ghost start = out@;
    let mut k = from;
    while k < to
        invariant
            from <= k <= to <= v.len(),
            out@ == start + v@.subrange(from as int, k as int),
        decreases to - k,
    {
        out.push(v[k]);
        k += 1;
        assert(v@.subrange(from as int, k as int) == v@.subrange(from as int, k - 1).push(
            v@[k - 1],
        ));
    }
}

/// Drop `<...>` tag runs and decode the five XML entities plus numeric
/// forms. Unterminated tags are dropped to the end of the string; unknown
/// entities pass through literally.
pub fn strip_markup(s: &str) -> (r: String)
    ensures
        r@ == strip_from(s@, 0),
{
    let v = chars_of(s);
    let n = v.len();
    let mut out: Vec<char> = Vec::new();
    let mut i: usize = 0;
    while i < n
        invariant
            i <= n,
            n == v.len(),
            out@ + strip_from(v@, i as int) == strip_from(v@, 0),
        decreases n - i,
    {
        let ghost before = out@;
        let c = v[i];
        if c == '<' {
            let j = find_tag_end(&v, i + 1);
            proof {
                lemma_tag_end_bounds(v@, i + 1);
            }
            i = j;
        } else if c == '&' {
            let (e, terminated) = scan_entity(&v, i + 1);
            proof {
                lemma_ent_scan_bounds(v@, i + 1, 0);
            }
            if !terminated {
                out.push('&');
                push_span(&mut out, &v, i + 1, e);
                proof {
                    assert(out@ == before + (seq!['&'] + v@.subrange(i + 1, e as int)));
                }
                i = e;
            } else {
                match decode_entity_at(&v, i + 1, e) {
                    Some(ch) => {
                        out.push(ch);
                        assert(out@ == before + seq![ch]);
                    },
                    None => {
                        out.push('&');
                        push_span(&mut out, &v, i + 1, e);
                        out.push(';');
                        assert(out@ == before + (seq!['&'] + v@.subrange(i + 1, e as int)
                            + seq![';']));
                    },
                }
                i = e + 1;
            }
        } else {
            out.push(c);
            assert(out@ == before + seq![c]);
            i += 1;
        }
    }
    string_of(&out)
}

} // verus!

verus! {

// ----- one-line history form -----------------------------------------------

/// The one-line form of `s`: markup stripped, every whitespace run collapsed
/// to one space, no whitespace at either end.
pub open spec fn one_line_spec(s: Seq<char>) -> Seq<char> {
    join_spaced(words(strip_from(s, 0)))
}

/// Only single spaces separate the characters of `t`: no other whitespace,
/// no space at either end, no two spaces in a row.
pub open spec fn single_spaced(t: Seq<char>) -> bool {
    &&& forall|k: int| 0 <= k < t.len() ==> (#[trigger] t[k] == ' ' || !is_ws(t[k]))
    &&& t.len() > 0 ==> !is_ws(t[0]) && !is_ws(t.last())
    &&& forall|k: int| 0 <= k < t.len() - 1 ==> !(#[trigger] t[k] == ' ' && t[k + 1] == ' ')
}

proof fn lemma_join_single_spaced(ws: Seq<Seq<char>>)
    requires
        forall|k: int| 0 <= k < ws.len() ==> is_word(#[trigger] ws[k]),
    ensures
        single_spaced(join_spaced(ws)),
    decreases ws.len(),
{
    if ws.len() == 1 {
        assert(is_word(ws[0]));
    } else if ws.len() > 1 {
        let init = ws.drop_last();
        assert forall|k: int| 0 <= k < init.len() implies is_word(#[trigger] init[k]) by {
            assert(init[k] == ws[k]);
        }
        lemma_join_single_spaced(init);
        let a = join_spaced(init);
        let w = ws.last();
        assert(is_word(w));
        assert(is_word(init[0]));
        lemma_join_nonempty(init);
        let t = a.push(' ') + w;
        assert(t == join_spaced(ws));
        assert forall|k: int| 0 <= k < t.len() implies (#[trigger] t[k] == ' ' || !is_ws(t[k])) by {
            if k < a.len() {
                assert(t[k] == a[k]);
            } else if k > a.len() {
                assert(t[k] == w[k - a.len() - 1]);
            }
        }
        assert(t[0] == a[0]);
        assert(t.last() == w.last());
        assert forall|k: int| 0 <= k < t.len() - 1 implies !(#[trigger] t[k] == ' ' && t[k + 1]
            == ' ') by {
            if k < a.len() - 1 {
                assert(t[k] == a[k] && t[k + 1] == a[k + 1]);
            } else if k == a.len() - 1 {
                assert(t[k] == a.last());
            } else if k == a.len() {
                assert(t[k + 1] == w[0]);
            } else {
                assert(t[k] == w[k - a.len() - 1]);
            }
        }
    }
}

proof fn lemma_join_nonempty(ws: Seq<Seq<char>>)
    requires
        ws.len() > 0,
        forall|k: int| 0 <= k < ws.len() ==> is_word(#[trigger] ws[k]),
    ensures
        join_spaced(ws).len() > 0,
    decreases ws.len(),
{
    assert(is_word(ws.last()));
    assert(is_word(ws[0]));
}

/// One-line form for the history ring: markup stripped, all whitespace
/// (newlines included) collapsed to single spaces.
pub fn one_line(s: &str) -> (r: String)
    ensures
        r@ == one_line_spec(s@),
        single_spaced(r@),
{
    let stripped = strip_markup(s);
    let v = chars_of(stripped.as_str());
    let ws = split_words(&v);
    let joined = join_with_spaces(&ws);
    proof {
        let views = ws@.map_values(|w: Vec<char>| w@);
        assert(views =~= words(v@));
        lemma_words_are_words(v@);
        lemma_join_single_spaced(words(v@));
    }
    string_of(&joined)
}

} // verus!

verus! {

// ----- word wrap ------------------------------------------------------------

/// `str::split('\n')`, computed left to right: the pieces finished so far and
/// the piece in progress.
pub open spec fn split_nl_state(s: Seq<char>) -> (Seq<Seq<char>>, Seq<char>)
    decreases s.len(),
{
    if s.len() == 0 {
        (Seq::empty(), Seq::empty())
    } else {
        let (ps, cur) = split_nl_state(s.drop_last());
        if s.last() == '\n' {
            (ps.push(cur), Seq::empty())
        } else {
            (ps, cur.push(s.last()))
        }
    }
}

/// The `\n`-separated paragraphs of `s` (always at least one).
pub open spec fn paragraphs(s: Seq<char>) -> Seq<Seq<char>> {
    let (ps, cur) = split_nl_state(s);
    ps.push(cur)
}

/// Full `cols`-wide pieces cut off the front of an over-long word.
pub open spec fn chunks(w: Seq<char>, cols: nat) -> Seq<Seq<char>>
    decreases w.len(),
{
    if cols > 0 && w.len() > cols {
        seq![w.take(cols as int)] + chunks(w.skip(cols as int), cols)
    } else {
        Seq::empty()
    }
}

/// What is left of a word once `chunks` are cut off: at most `cols` long.
pub open spec fn chunk_rest(w: Seq<char>, cols: nat) -> Seq<char>
    decreases w.len(),
{
    if cols > 0 && w.len() > cols {
        chunk_rest(w.skip(cols as int), cols)
    } else {
        w
    }
}

/// Greedy placement of one word given (finished lines, current line): onto
/// the current line after a space if it fits, else onto a fresh line, hard
/// broken into `cols`-wide pieces if it is longer than a line.
pub open spec fn place_word(st: (Seq<Seq<char>>, Seq<char>), w: Seq<char>, cols: nat) -> (
    Seq<Seq<char>>,
    Seq<char>,
) {
    let (lines, line) = st;
    if line.len() > 0 && line.len() + 1 + w.len() <= cols {
        (lines, line.push(' ') + w)
    } else if line.len() == 0 && w.len() <= cols {
        (lines, w)
    } else {
        let flushed = if line.len() > 0 {
            lines.push(line)
        } else {
            lines
        };
        (flushed + chunks(w, cols), chunk_rest(w, cols))
    }
}

pub open spec fn place_words(ws: Seq<Seq<char>>, cols: nat) -> (Seq<Seq<char>>, Seq<char>)
    decreases ws.len(),
{
    if ws.len() == 0 {
        (Seq::empty(), Seq::empty())
    } else {
        place_word(place_words(ws.drop_last(), cols), ws.last(), cols)
    }
}

/// The lines one paragraph wraps to (its last line possibly empty).
pub open spec fn para_lines(p: Seq<char>, cols: nat) -> Seq<Seq<char>> {
    let (lines, line) = place_words(words(p), cols);
    lines.push(line)
}

pub open spec fn paras_lines(ps: Seq<Seq<char>>, cols: nat) -> Seq<Seq<char>>
    decreases ps.len(),
{
    if ps.len() == 0 {
        Seq::empty()
    } else {
        paras_lines(ps.drop_last(), cols) + para_lines(ps.last(), cols)
    }
}

/// Trailing empty lines removed, keeping at least one line.
pub open spec fn drop_trailing_blank(ls: Seq<Seq<char>>) -> Seq<Seq<char>>
    decreases ls.len(),
{
    if ls.len() > 1 && ls.last().len() == 0 {
        drop_trailing_blank(ls.drop_last())
    } else {
        ls
    }
}

/// `cols` as the wrapper uses it: at least one column.
pub open spec fn eff_cols(cols: nat) -> nat {
    if cols == 0 {
        1
    } else {
        cols
    }
}

/// The lines `wrap(s, cols)` returns.
pub open spec fn wrap_spec(s: Seq<char>, cols: nat) -> Seq<Seq<char>> {
    drop_trailing_blank(paras_lines(paragraphs(s), eff_cols(cols)))
}

pub open spec fn views(vv: Seq<Vec<char>>) -> Seq<Seq<char>> {
    vv.map_values(|w: Vec<char>| w@)
}

/// The `\n`-separated pieces of `v`.
pub fn split_paragraphs(v: &Vec<char>) -> (r: Vec<Vec<char>>)
    ensures
        views(r@) == paragraphs(v@),
{
    let mut done: Vec<Vec<char>> = Vec::new();
    let mut cur: Vec<char> = Vec::new();
    for i in 0..v.len()
        invariant
            views(done@) == split_nl_state(v@.take(i as int)).0,
            cur@ == split_nl_state(v@.take(i as int)).1,
    {
        let c = v[i];
        proof {
            assert(v@.take(i + 1).drop_last() == v@.take(i as int));
            assert(v@.take(i + 1).last() == c);
        }
        if c == '\n' {
            let piece = cur;
            let ghost pv = piece@;
            done.push(piece);
            assert(views(done@) =~= split_nl_state(v@.take(i as int)).0.push(pv));
            cur = Vec::new();
        } else {
            cur.push(c);
        }
    }
    assert(v@.take(v.len() as int) == v@);
    let ghost cv = cur@;
    let ghost before = views(done@);
    done.push(cur);
    assert(views(done@) =~= before.push(cv));
    done
}

proof fn lemma_chunks_step(w: Seq<char>, pos: int, cols: nat)
    requires
        cols > 0,
        0 <= pos,
        pos + cols < w.len(),
    ensures
        chunks(w.skip(pos), cols) == seq![w.subrange(pos, pos + cols)] + chunks(
            w.skip(pos + cols),
            cols,
        ),
        chunk_rest(w.skip(pos), cols) == chunk_rest(w.skip(pos + cols), cols),
{
    assert(w.skip(pos).take(cols as int) == w.subrange(pos, pos + cols));
    assert(w.skip(pos).skip(cols as int) == w.skip(pos + cols));
}

/// Place one word (the greedy step); `lines`/`line` are the running state.
fn place(lines: &mut Vec<Vec<char>>, line: &mut Vec<char>, w: &Vec<char>, cols: usize)
    requires
        cols > 0,
    ensures
        (views(final(lines)@), final(line)@) == place_word(
            (views(old(lines)@), old(line)@),
            w@,
            cols as nat,
        ),
{
    let wlen = w.len();
    let llen = line.len();
    if llen > 0 && wlen < cols && llen <= cols - 1 - wlen {
        line.push(' ');
        let ghost mid = line@;
        for k in 0..wlen
            invariant
                wlen == w.len(),
                line@ == mid + w@.take(k as int),
        {
            line.push(w[k]);
            assert(w@.take(k + 1) == w@.take(k as int).push(w@[k as int]));
        }
        assert(w@.take(wlen as int) == w@);
    } else if llen == 0 && wlen <= cols {
        let mut fresh: Vec<char> = Vec::new();
        for k in 0..wlen
            invariant
                wlen == w.len(),
                fresh@ == w@.take(k as int),
        {
            fresh.push(w[k]);
            assert(w@.take(k + 1) == w@.take(k as int).push(w@[k as int]));
        }
        assert(w@.take(wlen as int) == w@);
        *line = fresh;
    } else {
        let ghost old_lines = views(lines@);
        if llen > 0 {
            let ghost lv = line@;
            let mut full: Vec<char> = Vec::new();
            std::mem::swap(&mut full, line);
            lines.push(full);
            assert(views(lines@) =~= old_lines.push(lv));
        }
        let ghost flushed = views(lines@);
        let mut pos: usize = 0;
        assert(w@.skip(0) == w@);
        while wlen - pos > cols
            invariant
                pos <= wlen,
                wlen == w.len(),
                cols > 0,
                views(lines@) + chunks(w@.skip(pos as int), cols as nat) == flushed + chunks(
                    w@,
                    cols as nat,
                ),
                chunk_rest(w@.skip(pos as int), cols as nat) == chunk_rest(w@, cols as nat),
            decreases wlen - pos,
        {
            let mut piece: Vec<char> = Vec::new();
            for k in 0..cols
                invariant
                    pos + cols < wlen,
                    wlen == w.len(),
                    piece@ == w@.subrange(pos as int, pos + k),
            {
                piece.push(w[pos + k]);
            }
            proof {
                lemma_chunks_step(w@, pos as int, cols as nat);
            }
            let ghost pv = piece@;
            let ghost before = views(lines@);
            lines.push(piece);
            assert(views(lines@) =~= before.push(pv));
            pos = pos + cols;
            proof {
                assert(before.push(pv) + chunks(w@.skip(pos as int), cols as nat) =~= before
                    + (seq![pv] + chunks(w@.skip(pos as int), cols as nat)));
            }
        }
        assert(w@.skip(0) == w@);
        let mut rest: Vec<char> = Vec::new();
        let mut k = pos;
        while k < wlen
            invariant
                pos <= k <= wlen,
                wlen == w.len(),
                rest@ == w@.subrange(pos as int, k as int),
            decreases wlen - k,
        {
            rest.push(w[k]);
            k += 1;
        }
        assert(rest@ == w@.skip(pos as int));
        assert(chunks(w@.skip(pos as int), cols as nat) == Seq::<Seq<char>>::empty());
        assert(views(lines@) + Seq::<Seq<char>>::empty() == views(lines@));
        *line = rest;
    }
}

/// The lines one paragraph wraps to.
fn wrap_paragraph(p: &Vec<char>, cols: usize, out: &mut Vec<Vec<char>>)
    requires
        cols > 0,
    ensures
        views(final(out)@) == views(old(out)@) + para_lines(p@, cols as nat),
{
    let ws = split_words(p);
    let ghost wsv = words(p@);
    let mut lines: Vec<Vec<char>> = Vec::new();
    let mut line: Vec<char> = Vec::new();
    for i in 0..ws.len()
        invariant
            cols > 0,
            ws@.len() == wsv.len(),
            wsv == words(p@),
            forall|k: int| 0 <= k < ws@.len() ==> (#[trigger] ws@[k])@ == wsv[k],
            (views(lines@), line@) == place_words(wsv.take(i as int), cols as nat),
    {
        proof {
            assert(wsv.take(i + 1).drop_last() == wsv.take(i as int));
            assert(wsv.take(i + 1).last() == ws@[i as int]@);
        }
        place(&mut lines, &mut line, &ws[i], cols);
    }
    assert(wsv.take(ws.len() as int) == wsv);
    let ghost lv = line@;
    let ghost before = views(lines@);
    lines.push(line);
    assert(views(lines@) =~= before.push(lv));
    let ghost start = views(out@);
    for k in 0..lines.len()
        invariant
            views(out@) == start + views(lines@).take(k as int),
    {
        let ghost b = views(out@);
        out.push(lines[k].clone());
        assert(views(out@) =~= b.push(lines@[k as int]@));
        assert(views(lines@).take(k + 1) =~= views(lines@).take(k as int).push(
            lines@[k as int]@,
        ));
    }
    assert(views(lines@).take(lines.len() as int) == views(lines@));
}

/// All lines ever produced by `wrap` fit in `cols` columns.
pub open spec fn lines_fit(ls: Seq<Seq<char>>, cols: nat) -> bool {
    forall|k: int| 0 <= k < ls.len() ==> (#[trigger] ls[k]).len() <= cols
}

proof fn lemma_chunks_fit(w: Seq<char>, cols: nat)
    requires
        cols > 0,
    ensures
        lines_fit(chunks(w, cols), cols),
        chunk_rest(w, cols).len() <= cols,
    decreases w.len(),
{
    if w.len() > cols {
        lemma_chunks_fit(w.skip(cols as int), cols);
        let tail = chunks(w.skip(cols as int), cols);
        let all = seq![w.take(cols as int)] + tail;
        assert forall|k: int| 0 <= k < all.len() implies (#[trigger] all[k]).len() <= cols by {
            if k > 0 {
                assert(all[k] == tail[k - 1]);
            }
        }
    }
}

proof fn lemma_place_words_fit(ws: Seq<Seq<char>>, cols: nat)
    requires
        cols > 0,
    ensures
        lines_fit(place_words(ws, cols).0, cols),
        place_words(ws, cols).1.len() <= cols,
    decreases ws.len(),
{
    if ws.len() > 0 {
        lemma_place_words_fit(ws.drop_last(), cols);
        let (lines, line) = place_words(ws.drop_last(), cols);
        let w = ws.last();
        lemma_chunks_fit(w, cols);
        if !(line.len() > 0 && line.len() + 1 + w.len() <= cols) && !(line.len() == 0 && w.len()
            <= cols) {
            let flushed = if line.len() > 0 {
                lines.push(line)
            } else {
                lines
            };
            assert(lines_fit(flushed, cols)) by {
                if line.len() > 0 {
                    assert forall|k: int| 0 <= k < flushed.len() implies (
                    #[trigger] flushed[k]).len() <= cols by {
                        if k < lines.len() {
                            assert(flushed[k] == lines[k]);
                        }
                    }
                }
            }
            let all = flushed + chunks(w, cols);
            assert forall|k: int| 0 <= k < all.len() implies (#[trigger] all[k]).len() <= cols by {
                if k < flushed.len() {
                    assert(all[k] == flushed[k]);
                } else {
                    assert(all[k] == chunks(w, cols)[k - flushed.len()]);
                }
            }
        }
    }
}

proof fn lemma_paras_lines_fit(ps: Seq<Seq<char>>, cols: nat)
    requires
        cols > 0,
    ensures
        lines_fit(paras_lines(ps, cols), cols),
        ps.len() > 0 ==> paras_lines(ps, cols).len() > 0,
    decreases ps.len(),
{
    if ps.len() > 0 {
        lemma_paras_lines_fit(ps.drop_last(), cols);
        lemma_place_words_fit(words(ps.last()), cols);
        let a = paras_lines(ps.drop_last(), cols);
        let (lines, line) = place_words(words(ps.last()), cols);
        let b = lines.push(line);
        assert forall|k: int| 0 <= k < b.len() implies (#[trigger] b[k]).len() <= cols by {
            if k < lines.len() {
                assert(b[k] == lines[k]);
            }
        }
        let all = a + b;
        assert forall|k: int| 0 <= k < all.len() implies (#[trigger] all[k]).len() <= cols by {
            if k < a.len() {
                assert(all[k] == a[k]);
            } else {
                assert(all[k] == b[k - a.len()]);
            }
        }
    }
}

proof fn lemma_drop_trailing_fit(ls: Seq<Seq<char>>, cols: nat)
    requires
        lines_fit(ls, cols),
        ls.len() > 0,
    ensures
        lines_fit(drop_trailing_blank(ls), cols),
        drop_trailing_blank(ls).len() > 0,
    decreases ls.len(),
{
    if ls.len() > 1 && ls.last().len() == 0 {
        let d = ls.drop_last();
        assert forall|k: int| 0 <= k < d.len() implies (#[trigger] d[k]).len() <= cols by {
            assert(d[k] == ls[k]);
        }
        lemma_drop_trailing_fit(d, cols);
    }
}

/// Word-wrap to `cols` columns (at least one), honoring embedded newlines.
/// Words longer than a line are hard-broken. Trailing blank lines are
/// dropped, but the result always holds at least one line.
pub fn wrap(s: &str, cols: usize) -> (r: Vec<String>)
    ensures
        r@.len() == wrap_spec(s@, cols as nat).len(),
        forall|k: int| 0 <= k < r@.len() ==> (#[trigger] r@[k])@ == wrap_spec(s@, cols as nat)[k],
        r@.len() >= 1,
        forall|k: int| 0 <= k < r@.len() ==> (#[trigger] r@[k])@.len() <= eff_cols(cols as nat),
{
    let cols = if cols == 0 {
        1
    } else {
        cols
    };
    let v = chars_of(s);
    let paras = split_paragraphs(&v);
    let ghost pv = views(paras@);
    let mut lines: Vec<Vec<char>> = Vec::new();
    for i in 0..paras.len()
        invariant
            cols > 0,
            pv == views(paras@),
            views(lines@) == paras_lines(pv.take(i as int), cols as nat),
    {
        proof {
            assert(pv.take(i + 1).drop_last() == pv.take(i as int));
            assert(pv.take(i + 1).last() == paras@[i as int]@);
        }
        wrap_paragraph(&paras[i], cols, &mut lines);
    }
    assert(pv.take(paras.len() as int) == pv);
    proof {
        lemma_paras_lines_fit(pv, cols as nat);
    }
    while lines.len() > 1 && lines[lines.len() - 1].len() == 0
        invariant
            drop_trailing_blank(views(lines@)) == drop_trailing_blank(paras_lines(pv, cols as nat)),
            lines@.len() >= 1,
        decreases lines.len(),
    {
        let ghost before = views(lines@);
        lines.pop();
        assert(views(lines@) =~= before.drop_last());
    }
    let ghost fin = views(lines@);
    assert(drop_trailing_blank(fin) == fin);
    proof {
        lemma_drop_trailing_fit(paras_lines(pv, cols as nat), cols as nat);
    }
    let mut out: Vec<String> = Vec::new();
    for k in 0..lines.len()
        invariant
            fin == views(lines@),
            out@.len() == k,
            forall|t: int| 0 <= t < k ==> (#[trigger] out@[t])@ == fin[t],
    {
        out.push(string_of(&lines[k]));
    }
    out
}

} // verus!
