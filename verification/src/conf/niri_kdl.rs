//! The compositor config is mostly hand-written: the tool owns only fenced
//! regions (`// LIFECONF:BEGIN <name>` … `// LIFECONF:END <name>`) and
//! rewrites their bodies, leaving every other character as it was.
use vstd::prelude::*;
use crate::chars::{chars_of, extend_chars, string_of};
use crate::note::cfg::chars_between;

verus! {

/// `pat` occurs in `s` at `i`.
pub open spec fn occurs_at(s: Seq<char>, pat: Seq<char>, i: int) -> bool {
    0 <= i && i + pat.len() <= s.len() && s.subrange(i, i + pat.len()) == pat
}

/// First index at or after `i` where `pat` occurs.
pub open spec fn find_from(s: Seq<char>, pat: Seq<char>, i: int) -> Option<int>
    decreases s.len() + 1 - i,
{
    if i < 0 || i + pat.len() > s.len() {
        None
    } else if occurs_at(s, pat, i) {
        Some(i)
    } else {
        find_from(s, pat, i + 1)
    }
}

/// Last index below `j` holding `c`.
pub open spec fn rfind_before(s: Seq<char>, c: char, j: int) -> Option<int>
    decreases j,
{
    if j <= 0 {
        None
    } else if s[j - 1] == c {
        Some(j - 1)
    } else {
        rfind_before(s, c, j - 1)
    }
}

pub open spec fn begin_marker(name: Seq<char>) -> Seq<char> {
    "// LIFECONF:BEGIN "@ + name
}

pub open spec fn end_marker(name: Seq<char>) -> Seq<char> {
    "// LIFECONF:END "@ + name
}

/// `src` with the body of region `name` replaced by `inner`: everything up
/// to the end of the BEGIN marker's line is kept, then `inner` and a line
/// break, then the END marker's line (its indentation included) and the
/// rest. None when a marker, or the line break after BEGIN, is missing.
pub open spec fn replace_spec(src: Seq<char>, name: Seq<char>, inner: Seq<char>) -> Option<Seq<char>> {
    match find_from(src, begin_marker(name), 0) {
        None => None,
        Some(bpos) => match find_from(src, seq!['\n'], bpos) {
            None => None,
            Some(nl) => match find_from(src, end_marker(name), nl + 1) {
                None => None,
                Some(epos) => match rfind_before(src, '\n', epos) {
                    None => None,
                    Some(k) => Some(src.take(nl + 1) + inner + seq!['\n'] + src.skip(k + 1)),
                },
            },
        },
    }
}

proof fn lemma_find_from_bounds(s: Seq<char>, pat: Seq<char>, i: int)
    requires
        0 <= i,
    ensures
        match find_from(s, pat, i) {
            Some(k) => i <= k && occurs_at(s, pat, k) && forall|j: int|
                i <= j < k ==> !occurs_at(s, pat, j),
            None => forall|j: int| i <= j ==> !occurs_at(s, pat, j),
        },
    decreases s.len() + 1 - i,
{
    if !(i < 0 || i + pat.len() > s.len()) && !occurs_at(s, pat, i) {
        lemma_find_from_bounds(s, pat, i + 1);
    }
}

proof fn lemma_rfind_bounds(s: Seq<char>, c: char, j: int)
    ensures
        match rfind_before(s, c, j) {
            Some(k) => 0 <= k < j,
            None => true,
        },
    decreases j,
{
    if j > 0 && s[j - 1] != c {
        lemma_rfind_bounds(s, c, j - 1);
    }
}

/// Does `pat` occur in `s` at `i`?
fn matches_at(s: &Vec<char>, pat: &Vec<char>, i: usize) -> (r: bool)
    ensures
        r == occurs_at(s@, pat@, i as int),
{
    let sl = s.len();
    if i > sl || pat.len() > sl - i {
        return false;
    }
    let mut k: usize = 0;
    while k < pat.len()
        invariant
            sl == s@.len(),
            i + pat@.len() <= s@.len(),
            k <= pat@.len(),
            forall|m: int| 0 <= m < k ==> s@[i + m] == pat@[m],
        decreases pat@.len() - k,
    {
        if s[i + k] != pat[k] {
            assert(s@.subrange(i as int, i + pat@.len())[k as int] != pat@[k as int]);
            return false;
        }
        k += 1;
    }
    assert(s@.subrange(i as int, i + pat@.len()) =~= pat@);
    true
}

/// First occurrence of `pat` in `s` at or after `from`.
fn find(s: &Vec<char>, pat: &Vec<char>, from: usize) -> (r: Option<usize>)
    ensures
        match r {
            Some(k) => find_from(s@, pat@, from as int) == Some(k as int),
            None => find_from(s@, pat@, from as int) is None,
        },
{
    let n = s.len();
    if pat.len() > n || from > n - pat.len() {
        proof {
            lemma_find_none(s@, pat@, from as int);
        }
        return None;
    }
    let last = n - pat.len();
    let mut i = from;
    loop
        invariant
            n == s@.len(),
            last == s@.len() - pat@.len(),
            from <= i <= last,
            find_from(s@, pat@, from as int) == find_from(s@, pat@, i as int),
        decreases last - i,
    {
        if matches_at(s, pat, i) {
            return Some(i);
        }
        if i == last {
            proof {
                lemma_find_none(s@, pat@, i + 1);
            }
            return None;
        }
        i += 1;
    }
}

proof fn lemma_find_none(s: Seq<char>, pat: Seq<char>, i: int)
    requires
        i + pat.len() > s.len(),
    ensures
        find_from(s, pat, i) is None,
{
}

/// Last `c` in `s` below index `j`.
fn rfind(s: &Vec<char>, c: char, j: usize) -> (r: Option<usize>)
    requires
        j <= s@.len(),
    ensures
        match r {
            Some(k) => rfind_before(s@, c, j as int) == Some(k as int),
            None => rfind_before(s@, c, j as int) is None,
        },
{
    let mut i = j;
    while i > 0
        invariant
            i <= j <= s@.len(),
            rfind_before(s@, c, j as int) == rfind_before(s@, c, i as int),
        decreases i,
    {
        if s[i - 1] == c {
            return Some(i - 1);
        }
        i -= 1;
    }
    None
}

/// Replace the body between `BEGIN name` and `END name` with `inner`,
/// keeping the marker lines and everything else. None if a marker is
/// missing.
pub fn replace_region(src: &str, name: &str, inner: &str) -> (r: Option<String>)
    ensures
        match replace_spec(src@, name@, inner@) {
            Some(out) => r matches Some(s) && s@ == out,
            None => r is None,
        },
{
    let s = chars_of(src);
    let nm = chars_of(name);
    let mut begin = chars_of("// LIFECONF:BEGIN ");
    extend_chars(&mut begin, &nm);
    let mut end = chars_of("// LIFECONF:END ");
    extend_chars(&mut end, &nm);
    let bpos = match find(&s, &begin, 0) {
        Some(b) => b,
        None => {
            return None;
        },
    };
    let nl_pat = vec!['\n'];
    assert(nl_pat@ =~= seq!['\n']);
    let nl = match find(&s, &nl_pat, bpos) {
        Some(k) => k,
        None => {
            return None;
        },
    };
    proof {
        lemma_find_from_bounds(s@, seq!['\n'], bpos as int);
    }
    let epos = match find(&s, &end, nl + 1) {
        Some(e) => e,
        None => {
            return None;
        },
    };
    proof {
        lemma_find_from_bounds(s@, end@, nl + 1);
    }
    let k = match rfind(&s, '\n', epos) {
        Some(k) => k,
        None => {
            return None;
        },
    };
    proof {
        lemma_rfind_bounds(s@, '\n', epos as int);
    }
    let mut out = chars_between(&s, 0, nl + 1);
    assert(out@ =~= s@.take(nl + 1));
    extend_chars(&mut out, &chars_of(inner));
    out.push('\n');
    let mut j: usize = k + 1;
    let ghost mid = out@;
    while j < s.len()
        invariant
            k + 1 <= j <= s@.len(),
            out@ == mid + s@.subrange(k + 1, j as int),
        decreases s@.len() - j,
    {
        out.push(s[j]);
        proof {
            assert(mid + s@.subrange(k + 1, j + 1) =~= (mid + s@.subrange(k + 1, j as int)).push(
                s@[j as int],
            ));
        }
        j += 1;
    }
    proof {
        assert(s@.subrange(k + 1, s@.len() as int) =~= s@.skip(k + 1));
    }
    Some(string_of(&out))
}

/// The text after rewriting the first `n` regions of `regions` in turn,
/// each (name, body); a region whose markers are missing is left as is.
pub open spec fn rewritten(src: Seq<char>, regions: Seq<(Seq<char>, Seq<char>)>, n: int) -> Seq<char>
    decreases n,
{
    if n <= 0 {
        src
    } else {
        let prev = rewritten(src, regions, n - 1);
        match replace_spec(prev, regions[n - 1].0, regions[n - 1].1) {
            Some(out) => out,
            None => prev,
        }
    }
}

/// The names of the first `n` regions whose markers were missing, in order.
pub open spec fn missing(src: Seq<char>, regions: Seq<(Seq<char>, Seq<char>)>, n: int) -> Seq<Seq<char>>
    decreases n,
{
    if n <= 0 {
        Seq::empty()
    } else {
        let prev = missing(src, regions, n - 1);
        if replace_spec(rewritten(src, regions, n - 1), regions[n - 1].0, regions[n - 1].1) is None {
            prev.push(regions[n - 1].0)
        } else {
            prev
        }
    }
}

pub open spec fn region_views(regions: Seq<(String, String)>) -> Seq<(Seq<char>, Seq<char>)> {
    regions.map_values(|r: (String, String)| (r.0@, r.1@))
}

/// Rewrite each named region of `src` in turn with its new body; returns
/// the new text and the names of the regions whose markers are missing
/// (those are left as they were).
pub fn rewrite_regions(src: &str, regions: &Vec<(String, String)>) -> (r: (String, Vec<String>))
    ensures
        r.0@ == rewritten(src@, region_views(regions@), regions@.len() as int),
        r.1@.map_values(|s: String| s@) == missing(src@, region_views(regions@), regions@.len() as int),
{
    let ghost rv = region_views(regions@);
    let mut text = String::from_str(src);
    let mut gone: Vec<String> = Vec::new();
    let n = regions.len();
    for i in 0..n
        invariant
            n == regions@.len(),
            rv == region_views(regions@),
            text@ == rewritten(src@, rv, i as int),
            gone@.map_values(|s: String| s@) == missing(src@, rv, i as int),
    {
        let (name, inner) = (&regions[i].0, &regions[i].1);
        assert(rv[i as int] == (name@, inner@));
        match replace_region(text.as_str(), name.as_str(), inner.as_str()) {
            Some(next) => {
                text = next;
            },
            None => {
                let ghost before = gone@;
                gone.push(name.clone());
                assert(gone@.map_values(|s: String| s@) =~= before.map_values(|s: String| s@).push(name@));
            },
        }
    }
    (text, gone)
}

} // verus!
