//! The password buffer: one page of bytes of which the first `len` hold the
//! password typed so far. Input past `MAX_LEN` is dropped whole, a deleted
//! character's bytes are zeroed, and clearing zeroes the whole page, so no
//! byte past `len` ever holds password data.
use vstd::prelude::*;
use zeroize::Zeroize;

verus! {

/// Longest password kept; input beyond it is dropped.
pub const MAX_LEN: usize = 1023;

/// Bytes of storage.
pub const PAGE: usize = 4096;

pub struct SecureBuf {
    data: Vec<u8>,
    len: usize,
}

/// `<[u8] as Zeroize>::zeroize` on `buf[from..to]`: writes zero over every
/// byte of the range with volatile stores, which the compiler may not
/// remove; the bytes outside the range and the length are untouched.
#[verifier::external_body]
fn zeroize_range(buf: &mut Vec<u8>, from: usize, to: usize)
    requires
        from <= to <= old(buf)@.len(),
        to - from <= isize::MAX,
    ensures
        final(buf)@.len() == old(buf)@.len(),
        forall|k: int| from <= k < to ==> final(buf)@[k] == 0u8,
        forall|k: int| 0 <= k < old(buf)@.len() && !(from <= k < to) ==> final(buf)@[k] == old(buf)@[k],
{
    buf[from..to].zeroize();
}

/// The password after appending `text`: input that would pass the
/// buffer's limit is dropped whole.
pub open spec fn appended(before: Seq<u8>, text: Seq<char>) -> Seq<u8> {
    if text.len() == 0 || before.len() + vstd::utf8::encode_utf8(text).len() > MAX_LEN {
        before
    } else {
        before + vstd::utf8::encode_utf8(text)
    }
}

/// Start of the character whose last byte is at `i`: walk back over
/// UTF-8 continuation bytes (10xxxxxx), stopping at index 0.
pub open spec fn char_start(b: Seq<u8>, i: int) -> int
    decreases i,
{
    if i > 0 && 0x80 <= b[i] && b[i] <= 0xbf {
        char_start(b, i - 1)
    } else {
        i
    }
}

proof fn lemma_char_start_bounds(b: Seq<u8>, i: int)
    requires
        0 <= i,
    ensures
        0 <= char_start(b, i) <= i,
    decreases i,
{
    if i > 0 && 0x80 <= b[i] && b[i] <= 0xbf {
        lemma_char_start_bounds(b, i - 1);
    }
}

impl SecureBuf {
    /// The page holds `PAGE` bytes, at most `MAX_LEN` of them password, and
    /// every byte past the password is zero.
    pub closed spec fn wf(self) -> bool {
        &&& self.data@.len() == PAGE
        &&& self.len <= MAX_LEN
        &&& forall|k: int| self.len <= k < PAGE ==> self.data@[k] == 0u8
    }

    /// The password bytes.
    pub closed spec fn bytes(self) -> Seq<u8> {
        self.data@.take(self.len as int)
    }

    /// The whole page.
    pub closed spec fn page(self) -> Seq<u8> {
        self.data@
    }

    pub fn new() -> (b: SecureBuf)
        ensures
            b.wf(),
            b.bytes() == Seq::<u8>::empty(),
            b.page() == Seq::new(PAGE as nat, |i: int| 0u8),
    {
        let mut data: Vec<u8> = Vec::new();
        for i in 0..PAGE
            invariant
                data@ == Seq::new(i as nat, |k: int| 0u8),
        {
            data.push(0);
        }
        let b = SecureBuf { data, len: 0 };
        assert(b.bytes() =~= Seq::<u8>::empty());
        b
    }

    pub fn len(&self) -> (n: usize)
        requires
            self.wf(),
        ensures
            n == self.bytes().len(),
            n <= MAX_LEN,
    {
        self.len
    }

    pub fn is_empty(&self) -> (r: bool)
        requires
            self.wf(),
        ensures
            r == (self.bytes().len() == 0),
    {
        self.len == 0
    }

    /// The password bytes.
    pub fn as_bytes(&self) -> (r: &[u8])
        requires
            self.wf(),
        ensures
            r@ == self.bytes(),
    {
        vstd::slice::slice_subrange(self.data.as_slice(), 0, self.len)
    }

    /// The whole page: the password, then zeroes.
    pub fn raw(&self) -> (r: &[u8])
        requires
            self.wf(),
        ensures
            r@ == self.page(),
            r@.len() == PAGE,
            r@.take(self.bytes().len() as int) == self.bytes(),
            forall|k: int| self.bytes().len() <= k < PAGE ==> r@[k] == 0u8,
    {
        self.data.as_slice()
    }

    /// Append the bytes of `s`; input that would pass `MAX_LEN` is dropped
    /// whole, so a character is never cut.
    pub fn push_str(&mut self, s: &str)
        requires
            old(self).wf(),
        ensures
            final(self).wf(),
            final(self).bytes() == appended(old(self).bytes(), s@),
            final(self).bytes().len() <= MAX_LEN,
    {
        let b = s.as_bytes();
        proof {
            lemma_encode_empty(s@);
        }
        if b.len() == 0 || b.len() > MAX_LEN - self.len {
            return;
        }
        let start = self.len;
        let n = b.len();
        for i in 0..n
            invariant
                n == b@.len(),
                start == old(self).len,
                start + n <= MAX_LEN,
                self.len == start,
                self.data@.len() == PAGE,
                forall|k: int| 0 <= k < start ==> self.data@[k] == old(self).data@[k],
                forall|k: int| 0 <= k < i ==> self.data@[start + k] == b@[k],
                forall|k: int| start + i <= k < PAGE ==> self.data@[k] == 0u8,
        {
            self.data.set(start + i, b[i]);
        }
        self.len = start + n;
        proof {
            assert(self.bytes() =~= old(self).bytes() + vstd::utf8::encode_utf8(s@));
        }
    }

    /// Remove the last character, zeroing its bytes. False when the buffer
    /// was already empty.
    pub fn pop_char(&mut self) -> (popped: bool)
        requires
            old(self).wf(),
        ensures
            final(self).wf(),
            final(self).bytes().len() <= MAX_LEN,
            popped == (old(self).bytes().len() > 0),
            popped ==> final(self).bytes() == old(self).bytes().take(
                char_start(old(self).bytes(), old(self).bytes().len() - 1),
            ),
            !popped ==> final(self).bytes() == old(self).bytes(),
    {
        if self.len == 0 {
            return false;
        }
        let mut start = self.len - 1;
        proof {
            lemma_char_start_bounds(self.bytes(), start as int);
        }
        while start > 0 && 0x80 <= self.data[start] && self.data[start] <= 0xbf
            invariant
                self.wf(),
                self.len > 0,
                start < self.len,
                char_start(self.bytes(), self.len - 1) == char_start(self.bytes(), start as int),
            decreases start,
        {
            start -= 1;
        }
        let ghost before = self.bytes();
        let len = self.len;
        zeroize_range(&mut self.data, start, len);
        self.len = start;
        proof {
            assert(self.bytes() =~= before.take(start as int));
        }
        true
    }

    /// Zero the whole page and empty the buffer.
    pub fn clear(&mut self)
        requires
            old(self).wf(),
        ensures
            final(self).wf(),
            final(self).bytes() == Seq::<u8>::empty(),
            final(self).page() == Seq::new(PAGE as nat, |i: int| 0u8),
    {
        zeroize_range(&mut self.data, 0, PAGE);
        self.len = 0;
        proof {
            assert(self.bytes() =~= Seq::<u8>::empty());
            assert(self.page() =~= Seq::new(PAGE as nat, |i: int| 0u8));
        }
    }
}

proof fn lemma_encode_empty(s: Seq<char>)
    ensures
        (vstd::utf8::encode_utf8(s).len() == 0) == (s.len() == 0),
{
    if s.len() > 0 {
        let c = s[0] as u32;
        assert(vstd::utf8::encode_scalar(c).len() >= 1);
    }
}

/// The encoding of one scalar: a first byte that is no continuation byte,
/// then one to three continuation bytes.
proof fn lemma_scalar_bytes(c: u32)
    requires
        vstd::utf8::is_scalar(c),
    ensures
        ({
            let e = vstd::utf8::encode_scalar(c);
            &&& 1 <= e.len() <= 4
            &&& !(0x80 <= e[0] && e[0] <= 0xbf)
            &&& forall|k: int| 1 <= k < e.len() ==> 0x80 <= #[trigger] e[k] && e[k] <= 0xbf
        }),
{
    assert(c <= 0x7f ==> ((c & 0x7f) as u8) < 0x80) by (bit_vector);
    assert(0xc0 <= (0xC0 | ((c >> 6u32) & 0x1F) as u8)) by (bit_vector);
    assert(0xc0 <= (0xE0 | ((c >> 12u32) & 0x0F) as u8)) by (bit_vector);
    assert(0xc0 <= (0xF0 | ((c >> 18u32) & 0x7) as u8)) by (bit_vector);
    assert(0x80 <= (0x80 | (c & 0x3F) as u8) <= 0xbf) by (bit_vector);
    assert(0x80 <= (0x80 | ((c >> 6u32) & 0x3F) as u8) <= 0xbf) by (bit_vector);
    assert(0x80 <= (0x80 | ((c >> 12u32) & 0x3F) as u8) <= 0xbf) by (bit_vector);
}

/// Deleting a character undoes typing it: after the bytes of one character
/// are appended, `pop_char` walks back exactly to where they start.
pub proof fn pop_undoes_one_char_push(before: Seq<u8>, c: char)
    ensures
        ({
            let after = before + vstd::utf8::encode_utf8(seq![c]);
            after.take(char_start(after, after.len() - 1)) == before
        }),
{
    let e = vstd::utf8::encode_utf8(seq![c]);
    assert(seq![c].drop_first() =~= Seq::<char>::empty());
    assert(vstd::utf8::encode_utf8(Seq::<char>::empty()) =~= Seq::<u8>::empty());
    assert(seq![c][0] == c);
    assert(e =~= vstd::utf8::encode_scalar(c as u32) + vstd::utf8::encode_utf8(Seq::<char>::empty()));
    assert(e =~= vstd::utf8::encode_scalar(c as u32));
    lemma_scalar_bytes(c as u32);
    let after = before + e;
    let n = before.len() as int;
    assert forall|k: int| 0 <= k < e.len() implies after[n + k] == e[k] by {}
    let w = e.len() as int;
    if w >= 4 {
        assert(char_start(after, n + 3) == char_start(after, n + 2));
    }
    if w >= 3 {
        assert(char_start(after, n + 2) == char_start(after, n + 1));
    }
    if w >= 2 {
        assert(char_start(after, n + 1) == char_start(after, n));
    }
    assert(char_start(after, n) == n);
    assert(after.take(n) =~= before);
}

proof fn lemma_encode_concat(a: Seq<char>, b: Seq<char>)
    ensures
        vstd::utf8::encode_utf8(a + b) == vstd::utf8::encode_utf8(a) + vstd::utf8::encode_utf8(b),
    decreases a.len(),
{
    if a.len() == 0 {
        assert(a + b =~= b);
        assert(vstd::utf8::encode_utf8(a) =~= Seq::<u8>::empty());
        assert(vstd::utf8::encode_utf8(a) + vstd::utf8::encode_utf8(b) =~= vstd::utf8::encode_utf8(b));
    } else {
        assert((a + b)[0] == a[0]);
        assert((a + b).drop_first() =~= a.drop_first() + b);
        lemma_encode_concat(a.drop_first(), b);
        let e0 = vstd::utf8::encode_scalar(a[0] as u32);
        assert(e0 + (vstd::utf8::encode_utf8(a.drop_first()) + vstd::utf8::encode_utf8(b)) =~= (e0
            + vstd::utf8::encode_utf8(a.drop_first())) + vstd::utf8::encode_utf8(b));
    }
}

/// The password never holds more than `MAX_LEN` bytes: a buffer that
/// `new` made and only `push_str`, `pop_char` and `clear` changed is well
/// formed (each of them keeps it so), and a well-formed buffer is within
/// the limit.
pub proof fn password_within_limit(b: SecureBuf)
    requires
        b.wf(),
    ensures
        b.bytes().len() <= MAX_LEN,
{
}

/// The password bytes are always valid UTF-8: they start empty, a clear
/// empties them, and both appending text and deleting the last character
/// keep valid bytes valid.
pub proof fn password_stays_utf8(b: Seq<u8>, text: Seq<char>)
    requires
        vstd::utf8::valid_utf8(b),
    ensures
        vstd::utf8::valid_utf8(Seq::<u8>::empty()),
        vstd::utf8::valid_utf8(appended(b, text)),
        b.len() > 0 ==> vstd::utf8::valid_utf8(b.take(char_start(b, b.len() - 1))),
{
    vstd::utf8::encode_utf8_valid_utf8(Seq::<char>::empty());
    assert(vstd::utf8::encode_utf8(Seq::<char>::empty()) =~= Seq::<u8>::empty());
    vstd::utf8::encode_utf8_valid_utf8(text);
    vstd::utf8::valid_utf8_concat(b, vstd::utf8::encode_utf8(text));
    if b.len() > 0 {
        let cs = vstd::utf8::decode_utf8(b);
        vstd::utf8::decode_utf8_encode_utf8(b);
        assert(cs.len() > 0);
        let init = cs.drop_last();
        let c = cs.last();
        assert(cs =~= init + seq![c]);
        lemma_encode_concat(init, seq![c]);
        pop_undoes_one_char_push(vstd::utf8::encode_utf8(init), c);
        vstd::utf8::encode_utf8_valid_utf8(init);
    }
}

} // verus!
