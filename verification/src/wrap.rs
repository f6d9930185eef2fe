//! Breaking message text into screen lines: at each newline, then into
//! pieces no wider than the message column; and cutting a line to its first
//! characters.
use vstd::prelude::*;
use vstd::utf8::*;
use crate::text::{char_boundary, char_boundary_exec, copy_range};

verus! {

/// The pieces of `s` between newlines, as `str::split("\n")` gives them:
/// one more piece than there are newlines.
pub open spec fn split_lines(s: Seq<u8>) -> Seq<Seq<u8>>
    decreases s.len(),
{
    if s.len() == 0 {
        seq![Seq::<u8>::empty()]
    } else {
        let p = split_lines(s.drop_last());
        if s.last() == 0x0a {
            p.push(Seq::<u8>::empty())
        } else {
            p.update(p.len() - 1, p.last().push(s.last()))
        }
    }
}

/// A line cut into pieces of `max` bytes, the last one shorter or equal.
pub open spec fn chunks(piece: Seq<u8>, max: nat) -> Seq<Seq<u8>>
    decreases piece.len(),
{
    if max > 0 && piece.len() > max {
        seq![piece.subrange(0, max as int)] + chunks(piece.subrange(max as int, piece.len() as int), max)
    } else {
        seq![piece]
    }
}

/// Every cut that `chunks` makes falls where a `str` may be split.
pub open spec fn chunks_ok(piece: Seq<u8>, max: nat) -> bool
    decreases piece.len(),
{
    if max > 0 && piece.len() > max {
        char_boundary(piece, max as int) && chunks_ok(piece.subrange(max as int, piece.len() as int), max)
    } else {
        true
    }
}

/// The pieces of the first `k` lines, in order.
pub open spec fn wrap_lines(ps: Seq<Seq<u8>>, k: nat, max: nat) -> Seq<Seq<u8>>
    decreases k,
{
    if k == 0 {
        seq![]
    } else {
        wrap_lines(ps, (k - 1) as nat, max) + chunks(ps[k - 1], max)
    }
}

/// The screen lines of a text in a column `max` bytes wide.
pub open spec fn wrap(text: Seq<u8>, max: nat) -> Seq<Seq<u8>> {
    wrap_lines(split_lines(text), split_lines(text).len(), max)
}

/// Wrapping the text cuts only where a `str` may be split.
pub open spec fn wrap_ok(text: Seq<u8>, max: nat) -> bool {
    forall|i: int| 0 <= i < split_lines(text).len() ==> chunks_ok(#[trigger] split_lines(text)[i], max)
}

/// The first `n` characters of UTF-8 text: its bytes up to the first byte
/// of its character number `n + 1`, or all of it when it has no more.
pub open spec fn clip_chars(b: Seq<u8>, n: nat) -> Seq<u8>
    decreases b.len(),
{
    if b.len() == 0 {
        b
    } else if !is_continuation_byte(b[0]) && n == 0 {
        Seq::<u8>::empty()
    } else {
        seq![b[0]] + clip_chars(
            b.drop_first(),
            if is_continuation_byte(b[0]) {
                n
            } else {
                (n - 1) as nat
            },
        )
    }
}

pub proof fn lemma_split_lines_len(s: Seq<u8>)
    ensures
        split_lines(s).len() >= 1,
    decreases s.len(),
{
    if s.len() > 0 {
        lemma_split_lines_len(s.drop_last());
    }
}

pub proof fn lemma_chunks_len(piece: Seq<u8>, max: nat)
    ensures
        chunks(piece, max).len() >= 1,
        max > 0 && piece.len() > max ==> chunks(piece, max)[0] == piece.subrange(0, max as int),
        !(max > 0 && piece.len() > max) ==> chunks(piece, max)[0] == piece,
    decreases piece.len(),
{
    if max > 0 && piece.len() > max {
        lemma_chunks_len(piece.subrange(max as int, piece.len() as int), max);
    }
}

pub proof fn lemma_wrap_lines_len(ps: Seq<Seq<u8>>, k: nat, max: nat)
    requires
        k <= ps.len(),
    ensures
        wrap_lines(ps, k, max).len() >= k,
        k >= 1 ==> wrap_lines(ps, k, max)[0] == chunks(ps[0], max)[0],
    decreases k,
{
    if k > 0 {
        lemma_wrap_lines_len(ps, (k - 1) as nat, max);
        lemma_chunks_len(ps[k - 1], max);
    }
}

/// A wrapped text has a first line.
pub proof fn lemma_wrap_first(text: Seq<u8>, max: nat)
    ensures
        wrap(text, max).len() >= 1,
{
    lemma_split_lines_len(text);
    let ps = split_lines(text);
    lemma_wrap_lines_len(ps, ps.len(), max);
}

/// The text split into its lines.
pub fn split_lines_exec(s: &[u8]) -> (r: Vec<Vec<u8>>)
    ensures
        r@.map_values(|v: Vec<u8>| v@) == split_lines(s@),
{
    let mut pieces: Vec<Vec<u8>> = Vec::new();
    let mut cur: Vec<u8> = Vec::new();
    let mut i: usize = 0;
    while i < s.len()
        invariant
            i <= s@.len(),
            pieces@.map_values(|v: Vec<u8>| v@) + seq![cur@] =~= split_lines(s@.subrange(0, i as int)),
        decreases s@.len() - i,
    {
        let ghost before = s@.subrange(0, i as int);
        assert(s@.subrange(0, i + 1).drop_last() =~= before);
        if s[i] == 0x0a {
            pieces.push(cur);
            cur = Vec::new();
        } else {
            cur.push(s[i]);
        }
        i = i + 1;
    }
    pieces.push(cur);
    assert(s@.subrange(0, s@.len() as int) =~= s@);
    pieces
}

/// Appends the pieces of one line to `out`.
fn push_chunks(out: &mut Vec<Vec<u8>>, piece: &Vec<u8>, max: usize)
    requires
        max > 0,
        chunks_ok(piece@, max as nat),
    ensures
        final(out)@.map_values(|v: Vec<u8>| v@) == old(out)@.map_values(|v: Vec<u8>| v@) + chunks(
            piece@,
            max as nat,
        ),
{
    let ghost start = old(out)@.map_values(|v: Vec<u8>| v@);
    let mut rest = copy_range(piece.as_slice(), 0, piece.len());
    assert(rest@ =~= piece@);
    while rest.len() > max
        invariant
            max > 0,
            chunks_ok(rest@, max as nat),
            out@.map_values(|v: Vec<u8>| v@) + chunks(rest@, max as nat) =~= start + chunks(piece@, max as nat),
        decreases rest@.len(),
    {
        let head = copy_range(rest.as_slice(), 0, max);
        let tail = copy_range(rest.as_slice(), max, rest.len());
        let ghost before = out@.map_values(|v: Vec<u8>| v@);
        out.push(head);
        assert(out@.map_values(|v: Vec<u8>| v@) =~= before.push(head@));
        assert(chunks(rest@, max as nat) =~= seq![head@] + chunks(tail@, max as nat));
        rest = tail;
    }
    let ghost before = out@.map_values(|v: Vec<u8>| v@);
    out.push(rest);
    assert(out@.map_values(|v: Vec<u8>| v@) =~= before.push(rest@));
}

/// Whether every cut that `chunks` makes falls where a `str` may be split.
fn chunks_ok_exec(piece: &Vec<u8>, max: usize) -> (r: bool)
    requires
        max > 0,
    ensures
        r == chunks_ok(piece@, max as nat),
{
    let mut rest = copy_range(piece.as_slice(), 0, piece.len());
    assert(rest@ =~= piece@);
    while rest.len() > max
        invariant
            max > 0,
            chunks_ok(piece@, max as nat) == chunks_ok(rest@, max as nat),
        decreases rest@.len(),
    {
        if !char_boundary_exec(rest.as_slice(), max) {
            return false;
        }
        rest = copy_range(rest.as_slice(), max, rest.len());
    }
    true
}

/// Whether wrapping the text cuts only where a `str` may be split.
pub fn wrap_ok_exec(text: &[u8], max: usize) -> (r: bool)
    requires
        max > 0,
    ensures
        r == wrap_ok(text@, max as nat),
{
    let pieces = split_lines_exec(text);
    let ghost ps = split_lines(text@);
    let mut k: usize = 0;
    while k < pieces.len()
        invariant
            k <= pieces@.len(),
            max > 0,
            pieces@.map_values(|v: Vec<u8>| v@) == ps,
            ps == split_lines(text@),
            forall|j: int| 0 <= j < k ==> chunks_ok(#[trigger] ps[j], max as nat),
        decreases pieces@.len() - k,
    {
        assert(ps[k as int] == pieces@[k as int]@);
        if !chunks_ok_exec(&pieces[k], max) {
            return false;
        }
        k = k + 1;
    }
    true
}

/// The screen lines of a text in a column `max` bytes wide.
pub fn wrap_text(text: &[u8], max: usize) -> (r: Vec<Vec<u8>>)
    requires
        max > 0,
        wrap_ok(text@, max as nat),
    ensures
        r@.map_values(|v: Vec<u8>| v@) == wrap(text@, max as nat),
{
    let pieces = split_lines_exec(text);
    let ghost ps = split_lines(text@);
    let mut out: Vec<Vec<u8>> = Vec::new();
    let mut k: usize = 0;
    while k < pieces.len()
        invariant
            k <= pieces@.len(),
            pieces@.map_values(|v: Vec<u8>| v@) == ps,
            max > 0,
            wrap_ok(text@, max as nat),
            ps == split_lines(text@),
            out@.map_values(|v: Vec<u8>| v@) =~= wrap_lines(ps, k as nat, max as nat),
        decreases pieces@.len() - k,
    {
        assert(ps[k as int] == pieces@[k as int]@);
        assert(chunks_ok(ps[k as int], max as nat));
        push_chunks(&mut out, &pieces[k], max);
        k = k + 1;
    }
    out
}

/// The first `n` characters of a UTF-8 line (all of it when it is shorter).
pub fn clip_chars_exec(b: &Vec<u8>, n: usize) -> (r: Vec<u8>)
    ensures
        r@ == clip_chars(b@, n as nat),
{
    let mut i: usize = 0;
    let mut left: usize = n;
    proof {
        assert(b@.subrange(0, 0) + b@.subrange(0, b@.len() as int) =~= b@);
    }
    while i < b.len()
        invariant
            i <= b@.len(),
            left <= n,
            clip_chars(b@, n as nat) == b@.subrange(0, i as int) + clip_chars(
                b@.subrange(i as int, b@.len() as int),
                left as nat,
            ),
        decreases b@.len() - i,
    {
        let ghost rest = b@.subrange(i as int, b@.len() as int);
        let c = b[i];
        let starts = !(0x80 <= c && c <= 0xbf);
        if starts && left == 0 {
            assert(clip_chars(rest, 0) =~= Seq::<u8>::empty());
            assert(clip_chars(b@, n as nat) =~= b@.subrange(0, i as int));
            return copy_range(b.as_slice(), 0, i);
        }
        proof {
            assert(rest.drop_first() =~= b@.subrange(i + 1, b@.len() as int));
            assert(b@.subrange(0, i + 1) =~= b@.subrange(0, i as int) + seq![c]);
        }
        if starts {
            left = left - 1;
        }
        i = i + 1;
    }
    proof {
        assert(b@.subrange(b@.len() as int, b@.len() as int) =~= Seq::<u8>::empty());
        assert(b@.subrange(0, b@.len() as int) =~= b@);
    }
    copy_range(b.as_slice(), 0, b.len())
}

/// The lines joined again with a newline between each two.
pub open spec fn join_lines(ps: Seq<Seq<u8>>) -> Seq<u8>
    decreases ps.len(),
{
    if ps.len() == 0 {
        Seq::<u8>::empty()
    } else if ps.len() == 1 {
        ps[0]
    } else {
        join_lines(ps.drop_last()) + seq![0x0au8] + ps.last()
    }
}

/// The pieces written one after the other.
pub open spec fn concat_all(ls: Seq<Seq<u8>>) -> Seq<u8>
    decreases ls.len(),
{
    if ls.len() == 0 {
        Seq::<u8>::empty()
    } else {
        ls[0] + concat_all(ls.drop_first())
    }
}

/// Splitting at newlines loses nothing: joining the lines with newlines
/// gives the text back.
pub proof fn law_split_lines_join(s: Seq<u8>)
    ensures
        join_lines(split_lines(s)) == s,
    decreases s.len(),
{
    lemma_split_lines_len(s);
    if s.len() > 0 {
        let t = s.drop_last();
        law_split_lines_join(t);
        lemma_split_lines_len(t);
        let p = split_lines(t);
        if s.last() == 0x0a {
            assert(split_lines(s).drop_last() =~= p);
            assert(s =~= t + seq![0x0au8] + Seq::<u8>::empty());
        } else {
            let q = split_lines(s);
            if p.len() == 1 {
                assert(q[0] =~= t.push(s.last()));
                assert(s =~= t.push(s.last()));
            } else {
                assert(q.drop_last() =~= p.drop_last());
                assert(q.last() == p.last().push(s.last()));
                assert(t =~= join_lines(p.drop_last()) + seq![0x0au8] + p.last());
                assert(s =~= t.push(s.last()));
                assert(s =~= join_lines(q.drop_last()) + seq![0x0au8] + q.last());
            }
        }
    }
}

/// Cutting a line into pieces loses nothing, and no piece is wider than the
/// column.
pub proof fn law_chunks_concat(piece: Seq<u8>, max: nat)
    requires
        max > 0,
    ensures
        concat_all(chunks(piece, max)) == piece,
        forall|i: int| 0 <= i < chunks(piece, max).len() ==> #[trigger] chunks(piece, max)[i].len() <= max,
    decreases piece.len(),
{
    if piece.len() > max {
        let rest = piece.subrange(max as int, piece.len() as int);
        law_chunks_concat(rest, max);
        let c = chunks(piece, max);
        assert(c.drop_first() =~= chunks(rest, max));
        assert(c[0] == piece.subrange(0, max as int));
        assert(concat_all(c) == c[0] + concat_all(c.drop_first()));
        assert(piece =~= piece.subrange(0, max as int) + rest);
        assert forall|i: int| 0 <= i < c.len() implies #[trigger] c[i].len() <= max by {
            if i > 0 {
                assert(c[i] == chunks(rest, max)[i - 1]);
            }
        }
    } else {
        let c = chunks(piece, max);
        assert(c.drop_first() =~= Seq::<Seq<u8>>::empty());
        assert(concat_all(c) == c[0] + concat_all(c.drop_first()));
        assert(piece + Seq::<u8>::empty() =~= piece);
    }
}

/// No screen line of a wrapped text is wider than the column.
pub proof fn law_wrap_width(text: Seq<u8>, max: nat)
    requires
        max > 0,
    ensures
        forall|i: int| 0 <= i < wrap(text, max).len() ==> #[trigger] wrap(text, max)[i].len() <= max,
{
    let ps = split_lines(text);
    lemma_wrap_lines_width(ps, ps.len(), max);
}

proof fn lemma_wrap_lines_width(ps: Seq<Seq<u8>>, k: nat, max: nat)
    requires
        max > 0,
        k <= ps.len(),
    ensures
        forall|i: int| 0 <= i < wrap_lines(ps, k, max).len() ==> #[trigger] wrap_lines(ps, k, max)[i].len() <= max,
    decreases k,
{
    if k > 0 {
        lemma_wrap_lines_width(ps, (k - 1) as nat, max);
        law_chunks_concat(ps[k - 1], max);
        let a = wrap_lines(ps, (k - 1) as nat, max);
        let b = chunks(ps[k - 1], max);
        assert forall|i: int| 0 <= i < wrap_lines(ps, k, max).len() implies #[trigger] wrap_lines(
            ps,
            k,
            max,
        )[i].len() <= max by {
            if i < a.len() {
                assert(wrap_lines(ps, k, max)[i] == a[i]);
            } else {
                assert(wrap_lines(ps, k, max)[i] == b[i - a.len()]);
            }
        }
    }
}

/// A line cut to its first characters is a beginning of it.
pub proof fn law_clip_is_prefix(b: Seq<u8>, n: nat)
    ensures
        clip_chars(b, n).len() <= b.len(),
        clip_chars(b, n) == b.subrange(0, clip_chars(b, n).len() as int),
    decreases b.len(),
{
    if b.len() == 0 {
        assert(b.subrange(0, 0) =~= b);
    } else if !is_continuation_byte(b[0]) && n == 0 {
        assert(b.subrange(0, 0) =~= Seq::<u8>::empty());
    } else {
        let m = if is_continuation_byte(b[0]) {
            n
        } else {
            (n - 1) as nat
        };
        law_clip_is_prefix(b.drop_first(), m);
        let c = clip_chars(b.drop_first(), m);
        assert(clip_chars(b, n) =~= seq![b[0]] + c);
        assert(b.subrange(0, (c.len() + 1) as int) =~= seq![b[0]] + b.drop_first().subrange(0, c.len() as int));
    }
}

} // verus!
