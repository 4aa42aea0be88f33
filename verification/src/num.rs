//! Integer parsing with the exact acceptance rules of Rust's `str::parse`
//! and `from_str_radix`: an optional sign, at least one digit, no
//! surrounding whitespace, and the value in range.
use vstd::prelude::*;

verus! {

/// Value of a digit character in `radix` (2..=36), if it is one.
pub open spec fn digit_value(c: char, radix: nat) -> Option<nat> {
    let v = c as u32;
    let d: int = if 0x30 <= v <= 0x39 {
        v - 0x30
    } else if 0x61 <= v <= 0x7a {
        v - 0x61 + 10
    } else if 0x41 <= v <= 0x5a {
        v - 0x41 + 10
    } else {
        99
    };
    if d < radix {
        Some(d as nat)
    } else {
        None
    }
}

pub open spec fn all_digits(ds: Seq<char>, radix: nat) -> bool {
    forall|k: int| 0 <= k < ds.len() ==> (#[trigger] digit_value(ds[k], radix)) is Some
}

/// The number the digits spell in `radix` (most significant first).
pub open spec fn digits_value(ds: Seq<char>, radix: nat) -> nat
    decreases ds.len(),
{
    if ds.len() == 0 {
        0
    } else {
        digits_value(ds.drop_last(), radix) * radix + digit_value(ds.last(), radix).unwrap()
    }
}

/// The magnitude an unsigned parse reads: an optional `+`, then at least one
/// digit (None for anything else).
pub open spec fn unsigned_value(d: Seq<char>, radix: nat) -> Option<nat> {
    if d.len() == 0 || (d.len() == 1 && d[0] == '+') {
        None
    } else {
        let ds = if d[0] == '+' {
            d.drop_first()
        } else {
            d
        };
        if all_digits(ds, radix) {
            Some(digits_value(ds, radix))
        } else {
            None
        }
    }
}

/// `u32::from_str_radix(d, radix)`; `d.parse::<u32>()` is radix 10.
pub open spec fn parse_u32_spec(d: Seq<char>, radix: nat) -> Option<u32> {
    match unsigned_value(d, radix) {
        Some(v) => if v <= u32::MAX {
            Some(v as u32)
        } else {
            None
        },
        None => None,
    }
}

/// `d.parse::<u64>()`.
pub open spec fn parse_u64_spec(d: Seq<char>) -> Option<u64> {
    match unsigned_value(d, 10) {
        Some(v) => if v <= u64::MAX {
            Some(v as u64)
        } else {
            None
        },
        None => None,
    }
}

/// `d.parse::<usize>()`.
pub open spec fn parse_usize_spec(d: Seq<char>) -> Option<usize> {
    match unsigned_value(d, 10) {
        Some(v) => if v <= usize::MAX {
            Some(v as usize)
        } else {
            None
        },
        None => None,
    }
}

/// `d.parse::<i32>()`: an optional `+` or `-`, then at least one digit.
pub open spec fn parse_i32_spec(d: Seq<char>) -> Option<i32> {
    if d.len() > 0 && d[0] == '-' {
        if d.len() == 1 {
            None
        } else if all_digits(d.drop_first(), 10) && digits_value(d.drop_first(), 10) <= 0x8000_0000 {
            Some((0 - digits_value(d.drop_first(), 10)) as i32)
        } else {
            None
        }
    } else {
        match unsigned_value(d, 10) {
            Some(v) => if v <= i32::MAX {
                Some(v as i32)
            } else {
                None
            },
            None => None,
        }
    }
}

pub(crate) fn digit(c: char, radix: u32) -> (r: Option<u32>)
    requires
        2 <= radix <= 36,
    ensures
        match r {
            Some(d) => digit_value(c, radix as nat) == Some(d as nat) && d < radix,
            None => digit_value(c, radix as nat) is None,
        },
{
    let v = c as u32;
    let d: u32 = if 0x30 <= v && v <= 0x39 {
        v - 0x30
    } else if 0x61 <= v && v <= 0x7a {
        v - 0x61 + 10
    } else if 0x41 <= v && v <= 0x5a {
        v - 0x41 + 10
    } else {
        99
    };
    if d < radix {
        Some(d)
    } else {
        None
    }
}

proof fn lemma_digits_value_grows(ds: Seq<char>, j: int, radix: nat)
    requires
        0 <= j <= ds.len(),
        radix >= 1,
        all_digits(ds, radix),
    ensures
        digits_value(ds.take(j), radix) <= digits_value(ds, radix),
    decreases ds.len() - j,
{
    if j < ds.len() {
        let d = ds.drop_last();
        assert(all_digits(d, radix)) by {
            assert forall|k: int| 0 <= k < d.len() implies (#[trigger] digit_value(
                d[k],
                radix,
            )) is Some by {
                assert(d[k] == ds[k]);
            }
        }
        assert(d.take(j) == ds.take(j));
        lemma_digits_value_grows(d, j, radix);
        let a = digits_value(d, radix);
        assert(a * radix >= a) by (nonlinear_arith)
            requires
                radix >= 1,
        ;
    } else {
        assert(ds.take(j) == ds);
    }
}

/// The digits `v[from..]` in `radix`, when they are all digits and spell at
/// most `limit`; None when one is not a digit or the value exceeds `limit`
/// (or there are no digits).
fn digits_at(v: &Vec<char>, from: usize, radix: u32, limit: u64) -> (r: Option<u64>)
    requires
        from <= v.len(),
        2 <= radix <= 36,
    ensures
        ({
            let ds = v@.skip(from as int);
            match r {
                Some(x) => ds.len() > 0 && all_digits(ds, radix as nat) && x == digits_value(
                    ds,
                    radix as nat,
                ) && x <= limit,
                None => ds.len() == 0 || !all_digits(ds, radix as nat) || digits_value(
                    ds,
                    radix as nat,
                ) > limit,
            }
        }),
{
    let ghost ds = v@.skip(from as int);
    let n = v.len();
    if from >= n {
        return None;
    }
    let mut acc: u128 = 0;
    let mut i = from;
    while i < n
        invariant
            from <= i <= n,
            n == v.len(),
            2 <= radix <= 36,
            ds == v@.skip(from as int),
            all_digits(ds.take(i - from), radix as nat),
            acc == digits_value(ds.take(i - from), radix as nat),
            acc <= limit,
        decreases n - i,
    {
        let c = v[i];
        let dv = digit(c, radix);
        let ghost pre = ds.take(i - from);
        let ghost post = ds.take(i - from + 1);
        assert(post.drop_last() == pre);
        assert(post.last() == c);
        match dv {
            None => {
                assert(ds[i - from] == c);
                assert(digit_value(ds[i - from], radix as nat) is None);
                return None;
            },
            Some(dd) => {
                assert(acc * (radix as u128) <= 0xffff_ffff_ffff_ffff * 36) by (nonlinear_arith)
                    requires
                        acc <= 0xffff_ffff_ffff_ffff,
                        radix <= 36,
                ;
                let next = acc * (radix as u128) + (dd as u128);
                assert(all_digits(post, radix as nat)) by {
                    assert forall|k: int| 0 <= k < post.len() implies (#[trigger] digit_value(
                        post[k],
                        radix as nat,
                    )) is Some by {
                        if k < pre.len() {
                            assert(post[k] == pre[k]);
                        }
                    }
                }
                assert(digits_value(post, radix as nat) == next);
                if next > limit as u128 {
                    proof {
                        if all_digits(ds, radix as nat) {
                            lemma_digits_value_grows(ds, i - from + 1, radix as nat);
                        }
                    }
                    return None;
                }
                acc = next;
                i += 1;
            },
        }
    }
    assert(ds.take(n - from) == ds);
    Some(acc as u64)
}

/// Magnitude of an unsigned parse of `v[from..]`, if at most `limit`.
fn unsigned_at(v: &Vec<char>, from: usize, radix: u32, limit: u64) -> (r: Option<u64>)
    requires
        from <= v.len(),
        2 <= radix <= 36,
    ensures
        match r {
            Some(x) => unsigned_value(v@.skip(from as int), radix as nat) == Some(x as nat) && x
                <= limit,
            None => match unsigned_value(v@.skip(from as int), radix as nat) {
                Some(m) => m > limit,
                None => true,
            },
        },
{
    let ghost d = v@.skip(from as int);
    if from >= v.len() {
        return None;
    }
    if v[from] == '+' {
        if from + 1 >= v.len() {
            return None;
        }
        assert(v@.skip(from + 1) == d.drop_first());
        digits_at(v, from + 1, radix, limit)
    } else {
        digits_at(v, from, radix, limit)
    }
}

/// `u32::from_str_radix(&v[from..], radix)`.
pub fn parse_u32_at(v: &Vec<char>, from: usize, radix: u32) -> (r: Option<u32>)
    requires
        from <= v.len(),
        2 <= radix <= 36,
    ensures
        r == parse_u32_spec(v@.skip(from as int), radix as nat),
{
    match unsigned_at(v, from, radix, 0xffff_ffff) {
        Some(x) => Some(x as u32),
        None => None,
    }
}

/// `s.parse::<u32>()`.
pub fn parse_u32(v: &Vec<char>) -> (r: Option<u32>)
    ensures
        r == parse_u32_spec(v@, 10),
{
    assert(v@.skip(0) == v@);
    parse_u32_at(v, 0, 10)
}

/// `s.parse::<u64>()`.
pub fn parse_u64(v: &Vec<char>) -> (r: Option<u64>)
    ensures
        r == parse_u64_spec(v@),
{
    assert(v@.skip(0) == v@);
    unsigned_at(v, 0, 10, 0xffff_ffff_ffff_ffff)
}

/// `s.parse::<usize>()`.
pub fn parse_usize(v: &Vec<char>) -> (r: Option<usize>)
    ensures
        r == parse_usize_spec(v@),
{
    assert(v@.skip(0) == v@);
    match unsigned_at(v, 0, 10, usize::MAX as u64) {
        Some(x) => Some(x as usize),
        None => None,
    }
}

/// `s.parse::<i32>()`.
pub fn parse_i32(v: &Vec<char>) -> (r: Option<i32>)
    ensures
        r == parse_i32_spec(v@),
{
    if v.len() > 0 && v[0] == '-' {
        if v.len() == 1 {
            return None;
        }
        assert(v@.skip(1) == v@.drop_first());
        match digits_at(v, 1, 10, 0x8000_0000) {
            Some(m) => Some((0 - (m as i64)) as i32),
            None => None,
        }
    } else {
        assert(v@.skip(0) == v@);
        match unsigned_at(v, 0, 10, 0x7fff_ffff) {
            Some(x) => Some(x as i32),
            None => None,
        }
    }
}

/// The decimal digit of `d < 10`.
pub open spec fn digit_char(d: nat) -> char {
    ((d + 0x30) as u32) as char
}

/// `n` in decimal, as `to_string` writes it.
pub open spec fn decimal(n: nat) -> Seq<char>
    decreases n,
{
    if n < 10 {
        seq![digit_char(n)]
    } else {
        decimal(n / 10).push(digit_char(n % 10))
    }
}

/// Append `n` in decimal to `v`.
pub fn push_decimal(v: &mut Vec<char>, n: u64)
    ensures
        final(v)@ == old(v)@ + decimal(n as nat),
    decreases n,
{
    if n >= 10 {
        push_decimal(v, n / 10);
    }
    let d = (n % 10) as u8;
    let c = (d + 0x30) as char;
    v.push(c);
    proof {
        if n >= 10 {
            assert(old(v)@ + decimal(n as nat) =~= (old(v)@ + decimal((n / 10) as nat)).push(
                digit_char((n % 10) as nat),
            ));
        } else {
            assert(old(v)@ + decimal(n as nat) =~= old(v)@.push(digit_char(n as nat)));
        }
    }
}

/// The lowercase hex digit of `d < 16`.
pub open spec fn hex_char(d: nat) -> char {
    if d < 10 {
        ((d + 0x30) as u32) as char
    } else {
        ((d - 10 + 0x61) as u32) as char
    }
}

/// `b` as two lowercase hex digits (`{:02x}`).
pub open spec fn hex2(b: u8) -> Seq<char> {
    seq![hex_char((b / 16) as nat), hex_char((b % 16) as nat)]
}

fn hex_digit_of(d: u8) -> (c: char)
    requires
        d < 16,
    ensures
        c == hex_char(d as nat),
{
    if d < 10 {
        (d + 0x30) as char
    } else {
        (d - 10 + 0x61) as char
    }
}

/// Append `b` as two lowercase hex digits.
pub fn push_hex2(v: &mut Vec<char>, b: u8)
    ensures
        final(v)@ == old(v)@ + hex2(b),
{
    v.push(hex_digit_of(b / 16));
    v.push(hex_digit_of(b % 16));
    assert(v@ =~= old(v)@ + hex2(b));
}

} // verus!
