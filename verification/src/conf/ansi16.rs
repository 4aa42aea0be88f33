//! Colour formatting for the generated terminal palette.
use vstd::prelude::*;
use crate::chars::string_of;
use crate::num::{hex2, push_hex2};

verus! {

/// `#rrggbb` for a colour, lower-case hex.
pub fn fmt(c: (u8, u8, u8)) -> (s: String)
    ensures
        s@ == seq!['#'] + hex2(c.0) + hex2(c.1) + hex2(c.2),
{
    let mut v: Vec<char> = Vec::new();
    v.push('#');
    push_hex2(&mut v, c.0);
    push_hex2(&mut v, c.1);
    push_hex2(&mut v, c.2);
    string_of(&v)
}

} // verus!
