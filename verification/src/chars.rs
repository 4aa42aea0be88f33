//! Character-level building blocks shared by the text handling of every
//! module: Unicode whitespace, trimming, whitespace-separated words, and the
//! conversions between `&str`/`String` and vectors of `char`.
use vstd::prelude::*;

verus! {

/// Unicode `White_Space`: exactly the characters `char::is_whitespace` accepts.
pub open spec fn is_ws(c: char) -> bool {
    let v = c as u32;
    ||| 0x09 <= v <= 0x0d
    ||| v == 0x20
    ||| v == 0x85
    ||| v == 0xa0
    ||| v == 0x1680
    ||| 0x2000 <= v <= 0x200a
    ||| v == 0x2028
    ||| v == 0x2029
    ||| v == 0x202f
    ||| v == 0x205f
    ||| v == 0x3000
}

/// Unicode general category `Cc`: exactly the characters `char::is_control` accepts.
pub open spec fn is_ctrl(c: char) -> bool {
    let v = c as u32;
    v <= 0x1f || (0x7f <= v <= 0x9f)
}

/// ASCII whitespace as `u8::is_ascii_whitespace` defines it (no vertical tab).
pub open spec fn is_ascii_ws(c: char) -> bool {
    c == ' ' || c == '\t' || c == '\n' || c == '\x0C' || c == '\r'
}

pub fn is_whitespace(c: char) -> (r: bool)
    ensures
        r == is_ws(c),
{
    let v = c as u32;
    (0x09 <= v && v <= 0x0d) || v == 0x20 || v == 0x85 || v == 0xa0 || v == 0x1680 || (0x2000
        <= v && v <= 0x200a) || v == 0x2028 || v == 0x2029 || v == 0x202f || v == 0x205f || v
        == 0x3000
}

pub fn is_control(c: char) -> (r: bool)
    ensures
        r == is_ctrl(c),
{
    let v = c as u32;
    v <= 0x1f || (0x7f <= v && v <= 0x9f)
}

pub fn is_ascii_whitespace(c: char) -> (r: bool)
    ensures
        r == is_ascii_ws(c),
{
    c == ' ' || c == '\t' || c == '\n' || c == '\x0C' || c == '\r'
}

/// `c` with ASCII upper case letters lowered, as `to_ascii_lowercase` does.
pub open spec fn lower(c: char) -> char {
    if 'A' <= c && c <= 'Z' {
        ((c as u32) + 32) as char
    } else {
        c
    }
}

pub open spec fn lower_all(s: Seq<char>) -> Seq<char> {
    s.map_values(|c: char| lower(c))
}

/// `to_ascii_lowercase` on each character.
pub fn ascii_lowercase(v: &Vec<char>) -> (r: Vec<char>)
    ensures
        r@ == lower_all(v@),
{
    let mut r: Vec<char> = Vec::new();
    for i in 0..v.len()
        invariant
            r@ == lower_all(v@.take(i as int)),
    {
        let c = v[i];
        let l = if 'A' <= c && c <= 'Z' {
            ((c as u8) + 32) as char
        } else {
            c
        };
        proof {
            assert(lower_all(v@.take(i + 1)) =~= lower_all(v@.take(i as int)).push(lower(c)));
        }
        r.push(l);
    }
    proof {
        assert(v@.take(v@.len() as int) =~= v@);
    }
    r
}

/// Bytes of `c` in UTF-8.
pub open spec fn utf8_len(c: char) -> nat {
    let v = c as u32;
    if v < 0x80 {
        1
    } else if v < 0x800 {
        2
    } else if v < 0x10000 {
        3
    } else {
        4
    }
}

/// Bytes of `s` in UTF-8 (`str::len`).
pub open spec fn utf8_bytes(s: Seq<char>) -> nat
    decreases s.len(),
{
    if s.len() == 0 {
        0
    } else {
        utf8_bytes(s.drop_last()) + utf8_len(s.last())
    }
}

pub fn utf8_width(c: char) -> (n: usize)
    ensures
        n == utf8_len(c),
{
    let v = c as u32;
    if v < 0x80 {
        1
    } else if v < 0x800 {
        2
    } else if v < 0x10000 {
        3
    } else {
        4
    }
}

/// `str::len` of the characters of `v`, capped: the exact byte count when
/// it is below `cap`, otherwise some value at least `cap`.
pub fn utf8_bytes_capped(v: &Vec<char>, cap: usize) -> (n: usize)
    requires
        cap <= usize::MAX - 4,
    ensures
        n < cap ==> n == utf8_bytes(v@),
        n >= cap ==> utf8_bytes(v@) >= cap,
{
    let mut n: usize = 0;
    for i in 0..v.len()
        invariant
            cap <= usize::MAX - 4,
            n < cap ==> n == utf8_bytes(v@.take(i as int)),
            n >= cap ==> utf8_bytes(v@.take(i as int)) >= cap,
            n <= cap + 4,
    {
        assert(v@.take(i + 1).drop_last() == v@.take(i as int));
        if n < cap {
            n = n + utf8_width(v[i]);
        }
    }
    assert(v@.take(v.len() as int) == v@);
    n
}

/// Is `v` exactly the characters of `lit`?
pub fn eq_lit(v: &Vec<char>, lit: &[char]) -> (r: bool)
    ensures
        r == (v@ == lit@),
{
    if v.len() != lit.len() {
        return false;
    }
    let mut k: usize = 0;
    while k < lit.len()
        invariant
            v@.len() == lit@.len(),
            k <= lit@.len(),
            forall|t: int| 0 <= t < k ==> v@[t] == lit@[t],
        decreases lit@.len() - k,
    {
        if v[k] != lit[k] {
            return false;
        }
        k += 1;
    }
    assert(v@ =~= lit@);
    true
}

/// Does `v` start with the characters of `lit`?
pub fn starts_with_lit(v: &Vec<char>, lit: &[char]) -> (r: bool)
    ensures
        r == (lit@.len() <= v@.len() && v@.take(lit@.len() as int) == lit@),
{
    if v.len() < lit.len() {
        return false;
    }
    let mut k: usize = 0;
    while k < lit.len()
        invariant
            lit@.len() <= v@.len(),
            k <= lit@.len(),
            forall|t: int| 0 <= t < k ==> v@[t] == lit@[t],
        decreases lit@.len() - k,
    {
        if v[k] != lit[k] {
            assert(v@.take(lit@.len() as int)[k as int] != lit@[k as int]);
            return false;
        }
        k += 1;
    }
    assert(v@.take(lit@.len() as int) =~= lit@);
    true
}

/// `v[from..]` as a new vector.
pub fn tail_from(v: &Vec<char>, from: usize) -> (r: Vec<char>)
    requires
        from <= v.len(),
    ensures
        r@ == v@.skip(from as int),
{
    let mut r: Vec<char> = Vec::new();
    let mut k = from;
    while k < v.len()
        invariant
            from <= k <= v.len(),
            r@ == v@.subrange(from as int, k as int),
        decreases v.len() - k,
    {
        r.push(v[k]);
        k += 1;
    }
    r
}

/// `String::push`.
#[verifier::external_body]
fn push_char(s: &mut String, c: char)
    ensures
        final(s)@ == old(s)@.push(c),
{
    s.push(c);
}

/// The characters of `s`, in order.
pub fn chars_of(s: &str) -> (v: Vec<char>)
    ensures
        v@ == s@,
{
    let mut v: Vec<char> = Vec::new();
    for c in it: s.chars()
        invariant
            v@ == it.seq().take(it.index() as int),
    {
        v.push(c);
    }
    v
}

/// The string made of the characters of `v`.
pub fn string_of(v: &Vec<char>) -> (s: String)
    ensures
        s@ == v@,
{
    let mut s = String::new();
    for i in 0..v.len()
        invariant
            s@ == v@.take(i as int),
    {
        push_char(&mut s, v[i]);
        assert(v@.take(i + 1) == v@.take(i as int).push(v@[i as int]));
    }
    assert(v@.take(v.len() as int) == v@);
    s
}

/// Append the characters of `w` to `v`.
pub fn extend_chars(v: &mut Vec<char>, w: &Vec<char>)
    ensures
        final(v)@ == old(v)@ + w@,
{
    for i in 0..w.len()
        invariant
            v@ == old(v)@ + w@.take(i as int),
    {
        v.push(w[i]);
        proof {
            assert(old(v)@ + w@.take(i + 1) =~= (old(v)@ + w@.take(i as int)).push(w@[i as int]));
        }
    }
    proof {
        assert(w@.take(w@.len() as int) =~= w@);
    }
}

/// `s` without its leading whitespace.
pub open spec fn trim_start(s: Seq<char>) -> Seq<char>
    decreases s.len(),
{
    if s.len() > 0 && is_ws(s[0]) {
        trim_start(s.drop_first())
    } else {
        s
    }
}

/// `s` without its trailing whitespace.
pub open spec fn trim_end(s: Seq<char>) -> Seq<char>
    decreases s.len(),
{
    if s.len() > 0 && is_ws(s.last()) {
        trim_end(s.drop_last())
    } else {
        s
    }
}

/// `str::trim`: both ends stripped of whitespace.
pub open spec fn trim(s: Seq<char>) -> Seq<char> {
    trim_end(trim_start(s))
}

proof fn lemma_trim_start_skip(s: Seq<char>, i: int)
    requires
        0 <= i <= s.len(),
        forall|k: int| 0 <= k < i ==> is_ws(#[trigger] s[k]),
    ensures
        trim_start(s) == trim_start(s.skip(i)),
    decreases i,
{
    if i > 0 {
        assert(s.drop_first().skip(i - 1) == s.skip(i));
        lemma_trim_start_skip(s.drop_first(), i - 1);
    } else {
        assert(s.skip(0) == s);
    }
}

proof fn lemma_trim_end_take(s: Seq<char>, j: int)
    requires
        0 <= j <= s.len(),
        forall|k: int| j <= k < s.len() ==> is_ws(#[trigger] s[k]),
    ensures
        trim_end(s) == trim_end(s.take(j)),
    decreases s.len() - j,
{
    if j < s.len() {
        assert(s.drop_last().take(j) == s.take(j));
        lemma_trim_end_take(s.drop_last(), j);
    } else {
        assert(s.take(j) == s);
    }
}

/// `v` with leading and trailing whitespace removed.
pub fn trim_chars(v: &Vec<char>) -> (r: Vec<char>)
    ensures
        r@ == trim(v@),
{
    let n = v.len();
    let mut i: usize = 0;
    while i < n && is_whitespace(v[i])
        invariant
            i <= n,
            n == v.len(),
            forall|k: int| 0 <= k < i ==> is_ws(#[trigger] v@[k]),
        decreases n - i,
    {
        i += 1;
    }
    proof {
        lemma_trim_start_skip(v@, i as int);
    }
    let ghost mid = v@.skip(i as int);
    let mut j: usize = n;
    while j > i && is_whitespace(v[j - 1])
        invariant
            i <= j <= n,
            n == v.len(),
            forall|k: int| j <= k < n ==> is_ws(#[trigger] v@[k]),
        decreases j,
    {
        j -= 1;
    }
    let mut r: Vec<char> = Vec::new();
    let mut k: usize = i;
    while k < j
        invariant
            i <= k <= j <= n,
            n == v.len(),
            r@ == v@.subrange(i as int, k as int),
        decreases j - k,
    {
        r.push(v[k]);
        k += 1;
    }
    proof {
        if i < n && !is_ws(v@[i as int]) {
            assert(trim_start(mid) == mid);
        } else {
            assert(i == n);
            assert(mid.len() == 0);
        }
        assert(mid.len() == n - i);
        assert forall|t: int| (j - i) <= t < mid.len() implies is_ws(#[trigger] mid[t]) by {
            assert(mid[t] == v@[t + i]);
        }
        lemma_trim_end_take(mid, j - i);
        assert(mid.take(j - i) == r@);
        if j > i {
            assert(!is_ws(r@.last()));
        }
    }
    r
}

/// The whitespace-separated words of `s` (`str::split_whitespace`), computed
/// left to right: the words finished so far and the word in progress.
pub open spec fn words_state(s: Seq<char>) -> (Seq<Seq<char>>, Seq<char>)
    decreases s.len(),
{
    if s.len() == 0 {
        (Seq::empty(), Seq::empty())
    } else {
        let (ws, cur) = words_state(s.drop_last());
        if is_ws(s.last()) {
            if cur.len() > 0 {
                (ws.push(cur), Seq::empty())
            } else {
                (ws, Seq::empty())
            }
        } else {
            (ws, cur.push(s.last()))
        }
    }
}

/// `str::split_whitespace`: the maximal runs of non-whitespace characters.
pub open spec fn words(s: Seq<char>) -> Seq<Seq<char>> {
    let (ws, cur) = words_state(s);
    if cur.len() > 0 {
        ws.push(cur)
    } else {
        ws
    }
}

/// A word of `split_whitespace`: nonempty, with no whitespace in it.
pub open spec fn is_word(w: Seq<char>) -> bool {
    w.len() > 0 && forall|k: int| 0 <= k < w.len() ==> !is_ws(#[trigger] w[k])
}

proof fn lemma_words_state_shape(s: Seq<char>)
    ensures
        forall|k: int| 0 <= k < words_state(s).0.len() ==> is_word(#[trigger] words_state(s).0[k]),
        forall|k: int|
            0 <= k < words_state(s).1.len() ==> !is_ws(#[trigger] words_state(s).1[k]),
    decreases s.len(),
{
    if s.len() > 0 {
        lemma_words_state_shape(s.drop_last());
        let (ws, cur) = words_state(s.drop_last());
        if is_ws(s.last()) {
            if cur.len() > 0 {
                assert(is_word(cur));
                assert forall|k: int| 0 <= k < ws.push(cur).len() implies is_word(
                    #[trigger] ws.push(cur)[k],
                ) by {
                    if k < ws.len() {
                        assert(ws.push(cur)[k] == ws[k]);
                    }
                }
            }
        } else {
            assert forall|k: int| 0 <= k < cur.push(s.last()).len() implies !is_ws(
                #[trigger] cur.push(s.last())[k],
            ) by {
                if k < cur.len() {
                    assert(cur.push(s.last())[k] == cur[k]);
                }
            }
        }
    }
}

/// Every word of `s` is nonempty and free of whitespace.
pub proof fn lemma_words_are_words(s: Seq<char>)
    ensures
        forall|k: int| 0 <= k < words(s).len() ==> is_word(#[trigger] words(s)[k]),
{
    lemma_words_state_shape(s);
}

/// The words of `v`, as `split_whitespace` gives them.
pub fn split_words(v: &Vec<char>) -> (r: Vec<Vec<char>>)
    ensures
        r@.len() == words(v@).len(),
        forall|k: int| 0 <= k < r@.len() ==> (#[trigger] r@[k])@ == words(v@)[k],
{
    let mut done: Vec<Vec<char>> = Vec::new();
    let mut cur: Vec<char> = Vec::new();
    for i in 0..v.len()
        invariant
            ({
                let st = words_state(v@.take(i as int));
                &&& done@.len() == st.0.len()
                &&& forall|k: int| 0 <= k < done@.len() ==> (#[trigger] done@[k])@ == st.0[k]
                &&& cur@ == st.1
            }),
    {
        let c = v[i];
        proof {
            assert(v@.take(i + 1).drop_last() == v@.take(i as int));
            assert(v@.take(i + 1).last() == c);
        }
        if is_whitespace(c) {
            if cur.len() > 0 {
                let w = cur;
                done.push(w);
                cur = Vec::new();
            } else {
                cur = Vec::new();
            }
        } else {
            cur.push(c);
        }
    }
    assert(v@.take(v.len() as int) == v@);
    let ghost st = words_state(v@);
    if cur.len() > 0 {
        done.push(cur);
        assert(words(v@) == st.0.push(st.1));
        assert forall|k: int| 0 <= k < done@.len() implies (#[trigger] done@[k])@ == words(
            v@,
        )[k] by {
            if k < st.0.len() {
            }
        }
    }
    done
}

/// `words` joined by single spaces.
pub open spec fn join_spaced(ws: Seq<Seq<char>>) -> Seq<char>
    decreases ws.len(),
{
    if ws.len() == 0 {
        Seq::empty()
    } else if ws.len() == 1 {
        ws[0]
    } else {
        join_spaced(ws.drop_last()).push(' ') + ws.last()
    }
}

/// The words of `ws` joined by single spaces (`[..].join(" ")`).
pub fn join_with_spaces(ws: &Vec<Vec<char>>) -> (r: Vec<char>)
    ensures
        r@ == join_spaced(ws@.map_values(|w: Vec<char>| w@)),
{
    let ghost views = ws@.map_values(|w: Vec<char>| w@);
    let mut r: Vec<char> = Vec::new();
    for i in 0..ws.len()
        invariant
            views == ws@.map_values(|w: Vec<char>| w@),
            r@ == join_spaced(views.take(i as int)),
    {
        proof {
            assert(views.take(i + 1).drop_last() == views.take(i as int));
            assert(views.take(i + 1).last() == ws@[i as int]@);
        }
        if i > 0 {
            r.push(' ');
        } else {
            assert(views.take(0).len() == 0);
        }
        let w = &ws[i];
        for k in 0..w.len()
            invariant
                r@ == (if i > 0 {
                    join_spaced(views.take(i as int)).push(' ')
                } else {
                    Seq::<char>::empty()
                }) + w@.take(k as int),
        {
            r.push(w[k]);
            assert(w@.take(k + 1) == w@.take(k as int).push(w@[k as int]));
        }
        assert(w@.take(w.len() as int) == w@);
        if i == 0 {
            assert(views.take(1).len() == 1);
            assert(r@ == w@);
        }
    }
    assert(views.take(ws.len() as int) == views);
    r
}

} // verus!
