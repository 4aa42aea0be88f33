//! The wire format between the lock screen and its authentication child.
//! A request is a little-endian `u32` length and that many password bytes;
//! a reply is one verdict byte (1 = authenticated), then a little-endian
//! `u32` length and that many bytes of PAM conversation text, at most
//! `MAX_MSG`. Reading and writing the pipes is the caller's.
use vstd::prelude::*;
use crate::chars::{chars_of, is_control, is_ctrl, string_of, trim, trim_chars};
use crate::greet::secure_buf::MAX_LEN;

verus! {

/// Child-side descriptor numbers of the request and reply pipes.
pub const REQUEST_FD: i32 = 3;

pub const REPLY_FD: i32 = 4;

/// Largest reply message, enforced on both ends.
pub const MAX_MSG: usize = 512;

/// The little-endian bytes of `v`.
pub open spec fn le_bytes(v: u32) -> Seq<u8> {
    seq![(v & 0xff) as u8, ((v >> 8u32) & 0xff) as u8, ((v >> 16u32) & 0xff) as u8, ((v >> 24u32) & 0xff) as u8]
}

/// The value four little-endian bytes spell.
pub open spec fn le_value(b: [u8; 4]) -> u32 {
    (b[0] as u32) | ((b[1] as u32) << 8u32) | ((b[2] as u32) << 16u32) | ((b[3] as u32) << 24u32)
}

pub fn to_le(v: u32) -> (b: [u8; 4])
    ensures
        b@ == le_bytes(v),
{
    let b = [(v & 0xff) as u8, ((v >> 8) & 0xff) as u8, ((v >> 16) & 0xff) as u8, ((v >> 24) & 0xff) as u8];
    assert(b@ =~= le_bytes(v));
    b
}

pub fn from_le(b: [u8; 4]) -> (v: u32)
    ensures
        v == le_value(b),
{
    (b[0] as u32) | ((b[1] as u32) << 8) | ((b[2] as u32) << 16) | ((b[3] as u32) << 24)
}

/// Reading back the bytes of a length gives the length.
pub proof fn le_round_trip(v: u32)
    ensures
        le_value([le_bytes(v)[0], le_bytes(v)[1], le_bytes(v)[2], le_bytes(v)[3]]) == v,
{
    let b0 = (v & 0xff) as u8;
    let b1 = ((v >> 8u32) & 0xff) as u8;
    let b2 = ((v >> 16u32) & 0xff) as u8;
    let b3 = ((v >> 24u32) & 0xff) as u8;
    assert(((b0 as u32) | ((b1 as u32) << 8u32) | ((b2 as u32) << 16u32) | ((b3 as u32) << 24u32)) == v)
        by (bit_vector)
        requires
            b0 == (v & 0xff) as u8,
            b1 == ((v >> 8u32) & 0xff) as u8,
            b2 == ((v >> 16u32) & 0xff) as u8,
            b3 == ((v >> 24u32) & 0xff) as u8,
    ;
}

fn push_all(out: &mut Vec<u8>, b: &[u8])
    ensures
        final(out)@ == old(out)@ + b@,
{
    for i in 0..b.len()
        invariant
            out@ == old(out)@ + b@.take(i as int),
    {
        out.push(b[i]);
        proof {
            assert(old(out)@ + b@.take(i + 1) =~= (old(out)@ + b@.take(i as int)).push(b@[i as int]));
        }
    }
    proof {
        assert(b@.take(b@.len() as int) =~= b@);
    }
}

/// A password-check request.
pub fn encode_request(pw: &[u8]) -> (r: Vec<u8>)
    requires
        pw@.len() <= u32::MAX,
    ensures
        r@ == le_bytes(pw@.len() as u32) + pw@,
{
    let len = to_le(pw.len() as u32);
    let mut out: Vec<u8> = Vec::new();
    push_all(&mut out, &len);
    push_all(&mut out, pw);
    out
}

/// The password length a request announces; None when it exceeds what the
/// password buffer can hold (the channel is then not ours).
pub fn request_len(b: [u8; 4]) -> (r: Option<usize>)
    ensures
        le_value(b) <= MAX_LEN ==> r == Some(le_value(b) as usize),
        le_value(b) > MAX_LEN ==> r is None,
{
    let v = from_le(b);
    if v as usize > MAX_LEN {
        None
    } else {
        Some(v as usize)
    }
}

pub open spec fn capped(msg: Seq<u8>) -> Seq<u8> {
    if msg.len() <= MAX_MSG {
        msg
    } else {
        msg.take(MAX_MSG as int)
    }
}

/// A verdict reply: 1 or 0, then the conversation text cut to `MAX_MSG`
/// bytes.
pub fn encode_reply(ok: bool, msg: &[u8]) -> (r: Vec<u8>)
    ensures
        r@ == seq![if ok { 1u8 } else { 0u8 }] + le_bytes(capped(msg@).len() as u32) + capped(msg@),
{
    let n = if msg.len() <= MAX_MSG {
        msg.len()
    } else {
        MAX_MSG
    };
    let body = vstd::slice::slice_subrange(msg, 0, n);
    let mut out: Vec<u8> = Vec::new();
    out.push(if ok {
        1
    } else {
        0
    });
    let len = to_le(n as u32);
    push_all(&mut out, &len);
    push_all(&mut out, body);
    assert(body@ =~= capped(msg@));
    out
}

/// The message length a reply announces; None when it is larger than
/// `MAX_MSG` (a broken channel).
pub fn reply_len(b: [u8; 4]) -> (r: Option<usize>)
    ensures
        le_value(b) <= MAX_MSG ==> r == Some(le_value(b) as usize),
        le_value(b) > MAX_MSG ==> r is None,
{
    let v = from_le(b);
    if v as usize > MAX_MSG {
        None
    } else {
        Some(v as usize)
    }
}

/// The verdict byte: 1 is a success.
pub fn verdict(b: u8) -> (ok: bool)
    ensures
        ok == (b == 1),
{
    b == 1
}

/// A conversation line with control characters blanked.
pub open spec fn blank_controls(s: Seq<char>) -> Seq<char> {
    s.map_values(|c: char| if is_ctrl(c) { ' ' } else { c })
}

/// A conversation line as shown: control characters blanked, trimmed;
/// None when nothing is left.
pub fn clean_message(msg: &str) -> (r: Option<String>)
    ensures
        trim(blank_controls(msg@)).len() == 0 ==> r is None,
        trim(blank_controls(msg@)).len() > 0 ==> (r matches Some(s) && s@ == trim(blank_controls(msg@))),
{
    let v = chars_of(msg);
    let mut b: Vec<char> = Vec::new();
    for i in 0..v.len()
        invariant
            v@ == msg@,
            b@ == blank_controls(v@.take(i as int)),
    {
        let c = v[i];
        b.push(if is_control(c) {
            ' '
        } else {
            c
        });
        proof {
            assert(b@ =~= blank_controls(v@.take(i + 1)));
        }
    }
    proof {
        assert(v@.take(v@.len() as int) =~= v@);
    }
    let t = trim_chars(&b);
    if t.len() == 0 {
        None
    } else {
        Some(string_of(&t))
    }
}

/// Conversation lines joined by ` · `.
pub open spec fn joined(ms: Seq<Seq<char>>) -> Seq<char>
    decreases ms.len(),
{
    if ms.len() == 0 {
        Seq::empty()
    } else if ms.len() == 1 {
        ms[0]
    } else {
        joined(ms.drop_last()) + seq![' ', '·', ' '] + ms.last()
    }
}

pub fn join_messages(ms: &Vec<String>) -> (r: String)
    ensures
        r@ == joined(ms@.map_values(|s: String| s@)),
{
    let ghost mv = ms@.map_values(|s: String| s@);
    let mut out: Vec<char> = Vec::new();
    for k in 0..ms.len()
        invariant
            mv == ms@.map_values(|s: String| s@),
            out@ == joined(mv.take(k as int)),
    {
        proof {
            assert(mv.take(k + 1).drop_last() =~= mv.take(k as int));
        }
        if k > 0 {
            out.push(' ');
            out.push('·');
            out.push(' ');
        }
        let w = chars_of(ms[k].as_str());
        for j in 0..w.len()
            invariant
                w@ == mv[k as int],
                k > 0 ==> out@ == joined(mv.take(k as int)) + seq![' ', '·', ' '] + w@.take(j as int),
                k == 0 ==> out@ == w@.take(j as int),
        {
            out.push(w[j]);
            proof {
                if k > 0 {
                    assert(joined(mv.take(k as int)) + seq![' ', '·', ' '] + w@.take(j + 1) =~= (joined(
                        mv.take(k as int),
                    ) + seq![' ', '·', ' '] + w@.take(j as int)).push(w@[j as int]));
                } else {
                    assert(w@.take(j + 1) =~= w@.take(j as int).push(w@[j as int]));
                }
            }
        }
        proof {
            assert(w@.take(w@.len() as int) =~= w@);
            if k == 0 {
                assert(mv.take(1) =~= seq![mv[0]]);
            }
        }
    }
    proof {
        assert(mv.take(ms@.len() as int) =~= mv);
    }
    string_of(&out)
}

} // verus!
