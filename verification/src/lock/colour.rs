//! Colour values of the lock screen and greeter palettes: `#rrggbb` with any
//! number of leading `#`, read as red, green and blue bytes.
use vstd::prelude::*;
use crate::chars::{chars_of, tail_from};
use crate::note::cfg::{hex6_chars, hex6_spec};

verus! {

/// Number of `#` characters at the start of `s`.
pub open spec fn leading_hashes(s: Seq<char>) -> nat
    decreases s.len(),
{
    if s.len() > 0 && s[0] == '#' {
        1 + leading_hashes(s.drop_first())
    } else {
        0
    }
}

/// `s` with every leading `#` removed, read as six hex digits.
pub open spec fn hex_any_spec(s: Seq<char>) -> Option<[u8; 3]> {
    hex6_spec(s.skip(leading_hashes(s) as int))
}

proof fn lemma_leading_hashes(s: Seq<char>, i: int)
    requires
        0 <= i <= s.len(),
        forall|k: int| 0 <= k < i ==> s[k] == '#',
    ensures
        leading_hashes(s) == i + leading_hashes(s.skip(i)),
    decreases i,
{
    if i > 0 {
        assert(s.drop_first().skip(i - 1) =~= s.skip(i));
        assert forall|k: int| 0 <= k < i - 1 implies s.drop_first()[k] == '#' by {
            assert(s.drop_first()[k] == s[k + 1]);
        }
        lemma_leading_hashes(s.drop_first(), i - 1);
    } else {
        assert(s.skip(0) =~= s);
    }
}

/// `v` without its leading `#` characters.
pub fn skip_hashes(v: &Vec<char>) -> (r: Vec<char>)
    ensures
        r@ == v@.skip(leading_hashes(v@) as int),
{
    let mut i: usize = 0;
    while i < v.len() && v[i] == '#'
        invariant
            i <= v@.len(),
            forall|k: int| 0 <= k < i ==> v@[k] == '#',
        decreases v@.len() - i,
    {
        i += 1;
    }
    proof {
        lemma_leading_hashes(v@, i as int);
        assert(leading_hashes(v@.skip(i as int)) == 0);
    }
    tail_from(v, i)
}

/// Parse a colour, dropping every leading `#`.
pub fn parse_hex(s: &str) -> (r: Option<[u8; 3]>)
    ensures
        r == hex_any_spec(s@),
{
    hex6_chars(&skip_hashes(&chars_of(s)))
}

} // verus!
