//! The greeter's system-wide colour file: `key=value` lines with `#`
//! comments, of which the five palette keys are honoured. The other
//! settings (sizes, timings, fonts) come from the command line.
use vstd::prelude::*;
use crate::chars::{chars_of, eq_lit, is_ascii_whitespace, is_ascii_ws, trim, trim_chars};
use crate::lock::colour::{hex_any_spec, parse_hex};
use crate::chars::string_of;
use crate::note::cfg::{chars_between, find_eq, first_eq, lemma_first_eq_bounds};

verus! {

/// Index of the first `#` that starts a comment: at the start of the line
/// or right after ASCII whitespace; the length of `s` if there is none.
pub open spec fn ascii_comment_at(s: Seq<char>, i: int) -> int
    decreases s.len() - i,
{
    if i >= s.len() {
        s.len() as int
    } else if s[i] == '#' && (i == 0 || is_ascii_ws(s[i - 1])) {
        i
    } else {
        ascii_comment_at(s, i + 1)
    }
}

proof fn lemma_ascii_comment_bounds(s: Seq<char>, i: int)
    requires
        0 <= i <= s.len(),
    ensures
        i <= ascii_comment_at(s, i) <= s.len(),
    decreases s.len() - i,
{
    if i < s.len() && !(s[i] == '#' && (i == 0 || is_ascii_ws(s[i - 1]))) {
        lemma_ascii_comment_bounds(s, i + 1);
    }
}

/// Strip a trailing `# comment`, but only a `#` that starts the line or
/// follows whitespace, so hex colour values (`mature=#990808`) survive.
pub fn strip_comment(raw: &str) -> (r: &str)
    ensures
        r@ == raw@.take(ascii_comment_at(raw@, 0)),
{
    let v = chars_of(raw);
    let i = ascii_comment_index(&v);
    proof {
        lemma_ascii_comment_bounds(v@, 0);
    }
    raw.substring_char(0, i)
}

fn ascii_comment_index(v: &Vec<char>) -> (i: usize)
    ensures
        i == ascii_comment_at(v@, 0),
{
    let mut i: usize = 0;
    while i < v.len()
        invariant
            i <= v@.len(),
            ascii_comment_at(v@, 0) == ascii_comment_at(v@, i as int),
        decreases v@.len() - i,
    {
        if v[i] == '#' && (i == 0 || is_ascii_whitespace(v[i - 1])) {
            return i;
        }
        i += 1;
    }
    i
}

/// The greeter palette as bytes: settled cells, newborn cells, the
/// keypress/verify accent, errors, and clock/box text.
#[derive(Clone, Copy, Debug, PartialEq, Eq)]
pub struct Colours {
    pub mature: [u8; 3],
    pub newborn: [u8; 3],
    pub accent: [u8; 3],
    pub urgent: [u8; 3],
    pub text: [u8; 3],
}

impl Colours {
    pub fn new() -> (c: Colours)
        ensures
            c.mature == [102u8, 116, 76],
            c.newborn == [135u8, 165, 64],
            c.accent == [164u8, 201, 75],
            c.urgent == [138u8, 59, 46],
            c.text == [123u8, 140, 90],
    {
        Colours {
            mature: [102, 116, 76],
            newborn: [135, 165, 64],
            accent: [164, 201, 75],
            urgent: [138, 59, 46],
            text: [123, 140, 90],
        }
    }
}

pub open spec fn keep_or(p: Option<[u8; 3]>, cur: [u8; 3]) -> [u8; 3] {
    match p {
        Some(v) => v,
        None => cur,
    }
}

/// The palette after `key=val`; unknown keys and bad values change nothing.
pub open spec fn colour_set(c: Colours, key: Seq<char>, val: Seq<char>) -> Colours {
    let p = hex_any_spec(val);
    if key == seq!['m', 'a', 't', 'u', 'r', 'e'] {
        Colours { mature: keep_or(p, c.mature), ..c }
    } else if key == seq!['n', 'e', 'w', 'b', 'o', 'r', 'n'] {
        Colours { newborn: keep_or(p, c.newborn), ..c }
    } else if key == seq!['a', 'c', 'c', 'e', 'n', 't'] {
        Colours { accent: keep_or(p, c.accent), ..c }
    } else if key == seq!['u', 'r', 'g', 'e', 'n', 't'] {
        Colours { urgent: keep_or(p, c.urgent), ..c }
    } else if key == seq!['t', 'e', 'x', 't'] {
        Colours { text: keep_or(p, c.text), ..c }
    } else {
        c
    }
}

/// The palette after one line of the colour file.
pub open spec fn colour_line(c: Colours, raw: Seq<char>) -> Colours {
    let line = trim(raw.take(ascii_comment_at(raw, 0)));
    if line.len() == 0 {
        c
    } else {
        match first_eq(line, 0) {
            None => c,
            Some(k) => colour_set(c, trim(line.take(k)), trim(line.skip(k + 1))),
        }
    }
}

impl Colours {
    /// Apply one line of the colour file.
    pub fn apply_line(&mut self, raw: &str)
        ensures
            *final(self) == colour_line(*old(self), raw@),
    {
        let line = trim_chars(&chars_of(strip_comment(raw)));
        if line.len() == 0 {
            return;
        }
        proof {
            lemma_first_eq_bounds(line@, 0);
        }
        let k = match find_eq(&line) {
            Some(k) => k,
            None => {
                return;
            },
        };
        let key = trim_chars(&chars_between(&line, 0, k));
        let val = string_of(&trim_chars(&chars_between(&line, k + 1, line.len())));
        proof {
            assert(line@.subrange(0, k as int) =~= line@.take(k as int));
            assert(line@.subrange(k + 1, line@.len() as int) =~= line@.skip(k + 1));
        }
        let p = parse_hex(val.as_str());
        if let Some(rgb) = p {
            if eq_lit(&key, &['m', 'a', 't', 'u', 'r', 'e']) {
                self.mature = rgb;
            } else if eq_lit(&key, &['n', 'e', 'w', 'b', 'o', 'r', 'n']) {
                self.newborn = rgb;
            } else if eq_lit(&key, &['a', 'c', 'c', 'e', 'n', 't']) {
                self.accent = rgb;
            } else if eq_lit(&key, &['u', 'r', 'g', 'e', 'n', 't']) {
                self.urgent = rgb;
            } else if eq_lit(&key, &['t', 'e', 'x', 't']) {
                self.text = rgb;
            }
        }
    }
}

} // verus!
