//! Text as UTF-8 bytes: the byte-level operations that the editor and the
//! screen are built from, and the facts about UTF-8 that they rely on.
use vstd::prelude::*;
use vstd::string::StringSliceAdditionalSpecFns;
use vstd::utf8::*;

verus! {

/// Where a `str` may be split: the start, the end, or a byte that does not
/// continue a character's encoding.
pub open spec fn char_boundary(b: Seq<u8>, i: int) -> bool {
    i == 0 || i == b.len() || (0 < i < b.len() && !is_continuation_byte(b[i]))
}

/// `t` put into `s` at byte offset `at`.
pub open spec fn insert_at(s: Seq<u8>, at: int, t: Seq<u8>) -> Seq<u8> {
    s.subrange(0, at) + t + s.subrange(at, s.len() as int)
}

/// `n` spaces.
pub open spec fn spaces(n: nat) -> Seq<u8> {
    Seq::new(n, |i: int| 0x20u8)
}

/// The UTF-8 encoding of one character.
pub open spec fn char_bytes(c: char) -> Seq<u8> {
    encode_utf8(seq![c])
}

/// The decimal digits of a natural number.
pub open spec fn decimal(n: nat) -> Seq<u8>
    decreases n,
{
    if n < 10 {
        seq![(48 + n) as u8]
    } else {
        decimal(n / 10).push((48 + n % 10) as u8)
    }
}

/// The decimal form of a signed number, with a leading `-` when negative.
pub open spec fn signed_decimal(n: int) -> Seq<u8> {
    if n < 0 {
        seq![0x2du8] + decimal((-n) as nat)
    } else {
        decimal(n as nat)
    }
}

/// A split at a `str` boundary of valid UTF-8 is a split between characters.
pub proof fn lemma_char_boundary(b: Seq<u8>, i: int)
    requires
        valid_utf8(b),
        char_boundary(b, i),
    ensures
        is_char_boundary(b, i),
    decreases b.len(),
{
    if i == 0 {
    } else if b.len() == 0 {
    } else {
        let l = length_of_first_scalar(b);
        assert(valid_first_scalar(b));
        assert(1 <= l <= b.len());
        if i < l {
            assert(is_continuation_byte(b[i]));
            assert(false);
        } else {
            let rest = pop_first_scalar(b);
            assert(rest.len() == b.len() - l);
            if i < b.len() {
                assert(rest[i - l] == b[i]);
            }
            lemma_char_boundary(rest, i - l);
        }
    }
}

/// The end of a valid UTF-8 prefix is a character boundary of any valid
/// UTF-8 text that continues it.
pub proof fn lemma_boundary_after(x: Seq<u8>, y: Seq<u8>)
    requires
        valid_utf8(x),
        valid_utf8(y),
    ensures
        valid_utf8(x + y),
        is_char_boundary(x + y, x.len() as int),
    decreases x.len(),
{
    valid_utf8_concat(x, y);
    if x.len() == 0 {
    } else {
        let rest = pop_first_scalar(x);
        assert(valid_first_scalar(x));
        assert(length_of_first_scalar(x) <= x.len());
        assert((x + y).subrange(0, x.len() as int) =~= x);
        assert(length_of_first_scalar(x + y) == length_of_first_scalar(x));
        assert(pop_first_scalar(x + y) =~= rest + y);
        lemma_boundary_after(rest, y);
    }
}

/// Putting valid UTF-8 into valid UTF-8 at a character boundary keeps it
/// valid, and the end of the inserted text is a character boundary.
pub proof fn lemma_insert_valid(s: Seq<u8>, at: int, t: Seq<u8>)
    requires
        valid_utf8(s),
        valid_utf8(t),
        char_boundary(s, at),
    ensures
        valid_utf8(insert_at(s, at, t)),
        is_char_boundary(insert_at(s, at, t), at + t.len()),
        char_boundary(insert_at(s, at, t), at + t.len()),
{
    lemma_char_boundary(s, at);
    valid_utf8_split(s, at);
    let left = s.subrange(0, at);
    let right = s.subrange(at, s.len() as int);
    valid_utf8_concat(left, t);
    lemma_boundary_after(left + t, right);
    assert(insert_at(s, at, t) =~= (left + t) + right);
    lemma_boundary_is_char_boundary(insert_at(s, at, t), at + t.len());
}

/// Between characters of valid UTF-8 is also where a `str` may be split.
pub proof fn lemma_boundary_is_char_boundary(b: Seq<u8>, i: int)
    requires
        valid_utf8(b),
        is_char_boundary(b, i),
    ensures
        char_boundary(b, i),
    decreases b.len(),
{
    if i == 0 {
    } else {
        assert(b.len() > 0);
        let l = length_of_first_scalar(b);
        assert(valid_first_scalar(b));
        let rest = pop_first_scalar(b);
        assert(is_char_boundary(rest, i - l));
        if i - l == 0 {
            if i < b.len() {
                assert(rest[0] == b[i]);
                assert(valid_utf8(rest));
                assert(rest.len() > 0);
                assert(valid_first_scalar(rest));
            }
        } else {
            lemma_boundary_is_char_boundary(rest, i - l);
            if i < b.len() {
                assert(rest[i - l] == b[i]);
            }
        }
    }
}

/// The prefix of valid UTF-8 up to a `str` boundary is valid UTF-8.
pub proof fn lemma_prefix_valid(s: Seq<u8>, at: int)
    requires
        valid_utf8(s),
        char_boundary(s, at),
    ensures
        valid_utf8(s.subrange(0, at)),
        valid_utf8(s.subrange(at, s.len() as int)),
{
    lemma_char_boundary(s, at);
    valid_utf8_split(s, at);
}

/// The encoding of one character is that of its scalar value: valid UTF-8
/// of one to four bytes; a character below 128 is its own byte.
pub proof fn lemma_char_bytes(c: char)
    ensures
        char_bytes(c) == encode_scalar(c as u32),
        valid_utf8(char_bytes(c)),
        1 <= char_bytes(c).len() <= 4,
        (c as u32) < 0x80 ==> char_bytes(c) == seq![(c as u32) as u8],
{
    char_is_scalar(c);
    encode_utf8_valid_utf8(seq![c]);
    assert(seq![c].drop_first() =~= Seq::<char>::empty());
    assert(char_bytes(c) =~= encode_scalar(c as u32) + encode_utf8(Seq::<char>::empty()));
    let u = c as u32;
    if u < 0x80 {
        assert(u & 0x7F == u) by (bit_vector)
            requires
                u < 0x80,
        ;
        assert(char_bytes(c) =~= seq![u as u8]);
    }
}

/// The UTF-8 encoding of one character.
pub fn encode_char(c: char) -> (r: Vec<u8>)
    ensures
        r@ == char_bytes(c),
        1 <= r@.len() <= 4,
        valid_utf8(r@),
{
    proof {
        char_is_scalar(c);
        encode_utf8_valid_utf8(seq![c]);
        assert(seq![c].drop_first() =~= Seq::<char>::empty());
    }
    let u = c as u32;
    let mut r: Vec<u8> = Vec::new();
    if u <= 0x7f {
        r.push((u & 0x7F) as u8);
    } else if u <= 0x7ff {
        r.push(0xC0 | ((u >> 6) & 0x1F) as u8);
        r.push(0x80 | (u & 0x3F) as u8);
    } else if u <= 0xffff {
        r.push(0xE0 | ((u >> 12) & 0x0F) as u8);
        r.push(0x80 | ((u >> 6) & 0x3F) as u8);
        r.push(0x80 | (u & 0x3F) as u8);
    } else {
        r.push(0xF0 | ((u >> 18) & 0x7) as u8);
        r.push(0x80 | ((u >> 12) & 0x3F) as u8);
        r.push(0x80 | ((u >> 6) & 0x3F) as u8);
        r.push(0x80 | (u & 0x3F) as u8);
    }
    assert(r@ =~= encode_scalar(u));
    assert(char_bytes(c) =~= encode_scalar(u) + encode_utf8(Seq::<char>::empty()));
    r
}

/// Whether a `str` with these bytes may be split at `i`.
pub fn char_boundary_exec(b: &[u8], i: usize) -> (r: bool)
    ensures
        r == char_boundary(b@, i as int),
{
    if i == 0 || i == b.len() {
        true
    } else if i < b.len() {
        !(0x80 <= b[i] && b[i] <= 0xbf)
    } else {
        false
    }
}

/// Appends `src` to `dst`.
pub fn append_bytes(dst: &mut Vec<u8>, src: &[u8])
    ensures
        final(dst)@ == old(dst)@ + src@,
{
    dst.extend_from_slice(src);
}

/// The bytes of a fixed text.
pub fn literal(s: &str) -> (r: Vec<u8>)
    ensures
        r@ == s.spec_bytes(),
{
    vstd::slice::slice_to_vec(s.as_bytes())
}

/// Appends the bytes of a fixed text.
pub fn push_literal(dst: &mut Vec<u8>, s: &str)
    ensures
        final(dst)@ == old(dst)@ + s.spec_bytes(),
{
    dst.extend_from_slice(s.as_bytes());
}

/// Appends `n` spaces.
pub fn push_spaces(dst: &mut Vec<u8>, n: usize)
    ensures
        final(dst)@ == old(dst)@ + spaces(n as nat),
{
    let ghost start = dst@;
    let mut i: usize = 0;
    while i < n
        invariant
            i <= n,
            dst@ =~= start + spaces(i as nat),
        decreases n - i,
    {
        dst.push(0x20);
        i = i + 1;
    }
}

/// The bytes `b[from..to]` as a new vector.
pub fn copy_range(b: &[u8], from: usize, to: usize) -> (r: Vec<u8>)
    requires
        from <= to <= b@.len(),
    ensures
        r@ == b@.subrange(from as int, to as int),
{
    let mut r: Vec<u8> = Vec::new();
    let mut i = from;
    while i < to
        invariant
            from <= i <= to <= b@.len(),
            r@ =~= b@.subrange(from as int, i as int),
        decreases to - i,
    {
        r.push(b[i]);
        i = i + 1;
    }
    r
}

/// `t` put into `s` at byte offset `at`.
pub fn insert_bytes(s: &[u8], at: usize, t: &[u8]) -> (r: Vec<u8>)
    requires
        at <= s@.len(),
    ensures
        r@ == insert_at(s@, at as int, t@),
{
    let mut r = copy_range(s, 0, at);
    append_bytes(&mut r, t);
    let rest = copy_range(s, at, s.len());
    append_bytes(&mut r, rest.as_slice());
    r
}

/// The decimal digits of `n`.
pub fn decimal_bytes(n: u64) -> (r: Vec<u8>)
    ensures
        r@ == decimal(n as nat),
    decreases n,
{
    if n < 10 {
        let mut r: Vec<u8> = Vec::new();
        r.push(48 + n as u8);
        r
    } else {
        let mut r = decimal_bytes(n / 10);
        r.push(48 + (n % 10) as u8);
        r
    }
}

/// The decimal form of `n`, with a leading `-` when it is negative.
pub fn signed_decimal_bytes(n: i64) -> (r: Vec<u8>)
    ensures
        r@ == signed_decimal(n as int),
{
    if n < 0 {
        let m: u64 = (0i128 - n as i128) as u64;
        let digits = decimal_bytes(m);
        let mut r: Vec<u8> = Vec::new();
        r.push(0x2d);
        append_bytes(&mut r, digits.as_slice());
        r
    } else {
        decimal_bytes(n as u64)
    }
}

} // verus!
