//! Bytes cut into the pieces a separator leaves.
use vstd::prelude::*;

verus! {

/// Where the first `sep` of `s` is, or its length where there is none.
pub open spec fn first_at(s: Seq<u8>, sep: u8) -> nat
    decreases s.len(),
{
    if s.len() == 0 || s[0] == sep {
        0
    } else {
        1 + first_at(s.drop_first(), sep)
    }
}

/// The first `sep` is inside or behind, and nothing before it is one.
pub(crate) proof fn lemma_first_at(s: Seq<u8>, sep: u8)
    ensures
        first_at(s, sep) <= s.len(),
        first_at(s, sep) < s.len() ==> s[first_at(s, sep) as int] == sep,
        forall|i: int| 0 <= i < first_at(s, sep) ==> s[i] != sep,
    decreases s.len(),
{
    if s.len() > 0 && s[0] != sep {
        let rest = s.drop_first();
        lemma_first_at(rest, sep);
        assert forall|i: int| 0 <= i < first_at(s, sep) implies s[i] != sep by {
            if i > 0 {
                assert(rest[i - 1] != sep);
            }
        }
    }
}

/// The pieces `sep` cuts `s` into: one more than there are separators.
pub open spec fn pieces(s: Seq<u8>, sep: u8) -> Seq<Seq<u8>>
    decreases s.len(),
{
    let at = first_at(s, sep) as int;
    if at >= s.len() {
        seq![s]
    } else {
        seq![s.take(at)] + pieces(s.skip(at + 1), sep)
    }
}

/// The rows of bytes in a row of them.
pub open spec fn rows(v: Seq<Vec<u8>>) -> Seq<Seq<u8>> {
    Seq::new(v.len(), |i: int| v[i]@)
}

/// One row more.
pub(crate) proof fn lemma_rows_push(v: Seq<Vec<u8>>, row: Vec<u8>)
    ensures
        rows(v.push(row)) == rows(v).push(row@),
{
    assert(rows(v.push(row)) =~= rows(v).push(row@));
}

/// Where the first `sep` of `s` is, or its length where there is none.
pub fn find(s: &[u8], sep: u8) -> (r: usize)
    ensures
        r == first_at(s@, sep),
        r <= s@.len(),
        r < s@.len() ==> s@[r as int] == sep,
{
    let mut i: usize = 0;
    assert(s@.skip(0) =~= s@);
    while i < s.len() && s[i] != sep
        invariant
            i <= s@.len(),
            first_at(s@, sep) == i + first_at(s@.skip(i as int), sep),
        decreases s@.len() - i,
    {
        assert(s@.skip(i as int).drop_first() =~= s@.skip(i + 1));
        i += 1;
    }
    i
}

/// A copy of some bytes.
pub fn copy_bytes(s: &[u8]) -> (r: Vec<u8>)
    ensures
        r@ == s@,
{
    let mut out: Vec<u8> = Vec::new();
    out.extend_from_slice(s);
    assert(out@ =~= s@);
    out
}

/// The pieces `sep` cuts `s` into.
pub fn split(s: &[u8], sep: u8) -> (r: Vec<Vec<u8>>)
    ensures
        rows(r@) == pieces(s@, sep),
{
    let mut out: Vec<Vec<u8>> = Vec::new();
    let mut rest: &[u8] = s;
    assert(rows(out@) + pieces(s@, sep) =~= pieces(s@, sep));
    loop
        invariant
            rows(out@) + pieces(rest@, sep) == pieces(s@, sep),
        decreases rest@.len(),
    {
        let at: usize = find(rest, sep);
        let ghost before = out@;
        if at >= rest.len() {
            let piece: Vec<u8> = copy_bytes(rest);
            out.push(piece);
            assert(rows(out@) =~= rows(before) + seq![rest@]);
            return out;
        }
        let head: &[u8] = vstd::slice::slice_subrange(rest, 0, at);
        let piece: Vec<u8> = copy_bytes(head);
        out.push(piece);
        proof {
            let tail = rest@.skip(at + 1);
            assert(head@ =~= rest@.take(at as int));
            assert(rows(out@) =~= rows(before) + seq![head@]);
            assert(rows(before) + (seq![head@] + pieces(tail, sep)) =~= rows(out@) + pieces(
                tail,
                sep,
            ));
            assert(rest@.subrange(at + 1, rest@.len() as int) =~= tail);
        }
        rest = vstd::slice::slice_subrange(rest, at + 1, rest.len());
    }
}

/// How many bytes of `s` stand before the last `sep`, none where there is no `sep`.
pub open spec fn before_last(s: Seq<u8>, sep: u8) -> nat
    decreases s.len(),
{
    if s.len() == 0 {
        0
    } else if s.last() == sep {
        (s.len() - 1) as nat
    } else {
        before_last(s.drop_last(), sep)
    }
}

/// What stands before the last `sep`.
pub fn head_of(s: &[u8], sep: u8) -> (r: &[u8])
    ensures
        before_last(s@, sep) <= s@.len(),
        r@ == s@.take(before_last(s@, sep) as int),
{
    let mut n: usize = s.len();
    assert(s@.take(n as int) =~= s@);
    while n > 0 && s[n - 1] != sep
        invariant
            n <= s@.len(),
            before_last(s@, sep) == before_last(s@.take(n as int), sep),
        decreases n,
    {
        assert(s@.take(n as int).last() == s@[n - 1]);
        assert(s@.take(n as int).drop_last() =~= s@.take(n - 1));
        n -= 1;
    }
    let end: usize = if n > 0 {
        assert(s@.take(n as int).last() == s@[n - 1]);
        n - 1
    } else {
        0
    };
    let r: &[u8] = vstd::slice::slice_subrange(s, 0, end);
    assert(r@ =~= s@.take(end as int));
    r
}

/// The first separator is where the part without one ends.
pub(crate) proof fn lemma_first_behind(head: Seq<u8>, sep: u8, rest: Seq<u8>)
    requires
        !head.contains(sep),
    ensures
        first_at(head + seq![sep] + rest, sep) == head.len(),
        first_at(head, sep) == head.len(),
    decreases head.len(),
{
    let all = head + seq![sep] + rest;
    if head.len() > 0 {
        assert(head[0] != sep) by {
            assert(head.contains(head[0]));
        }
        assert(!head.drop_first().contains(sep)) by {
            if head.drop_first().contains(sep) {
                let i = choose|i: int| 0 <= i < head.drop_first().len() && head.drop_first()[i]
                    == sep;
                assert(head[i + 1] == sep);
            }
        }
        lemma_first_behind(head.drop_first(), sep, rest);
        assert(all.drop_first() =~= head.drop_first() + seq![sep] + rest);
        assert(all[0] == head[0]);
    } else {
        assert(all[0] == sep);
    }
}

/// A separator cuts what is before it off, and what has none is one piece.
pub proof fn a_separator_cuts(head: Seq<u8>, sep: u8, rest: Seq<u8>)
    requires
        !head.contains(sep),
    ensures
        pieces(head, sep) == seq![head],
        pieces(head + seq![sep] + rest, sep) == seq![head] + pieces(rest, sep),
{
    let all = head + seq![sep] + rest;
    lemma_first_behind(head, sep, rest);
    assert(all.take(head.len() as int) =~= head);
    assert(all.skip(head.len() as int + 1) =~= rest);
}

/// What is before the last separator is everything before it, where nothing behind it is one.
pub proof fn the_last_separator_is_the_last(head: Seq<u8>, sep: u8, rest: Seq<u8>)
    requires
        !rest.contains(sep),
    ensures
        before_last(head.push(sep) + rest, sep) == head.len(),
    decreases rest.len(),
{
    let all = head.push(sep) + rest;
    if rest.len() == 0 {
        assert(all =~= head.push(sep));
    } else {
        assert(rest.last() != sep) by {
            assert(rest.contains(rest.last()));
        }
        assert(!rest.drop_last().contains(sep)) by {
            if rest.drop_last().contains(sep) {
                let i = choose|i: int| 0 <= i < rest.drop_last().len() && rest.drop_last()[i] == sep;
                assert(rest[i] == sep);
            }
        }
        assert(all.drop_last() =~= head.push(sep) + rest.drop_last());
        the_last_separator_is_the_last(head, sep, rest.drop_last());
    }
}

/// Several pieces, a separator between each two of them.
pub open spec fn joined(parts: Seq<Seq<u8>>, sep: u8) -> Seq<u8>
    decreases parts.len(),
{
    if parts.len() == 0 {
        Seq::empty()
    } else if parts.len() == 1 {
        parts[0]
    } else {
        parts[0] + seq![sep] + joined(parts.drop_first(), sep)
    }
}

/// What was joined is cut into what it was made of.
pub(crate) proof fn lemma_joined(parts: Seq<Seq<u8>>, sep: u8)
    requires
        parts.len() > 0,
        forall|i: int| 0 <= i < parts.len() ==> !(#[trigger] parts[i]).contains(sep),
    ensures
        pieces(joined(parts, sep), sep) == parts,
    decreases parts.len(),
{
    assert(!parts[0].contains(sep));
    if parts.len() == 1 {
        a_separator_cuts(parts[0], sep, Seq::empty());
        assert(seq![parts[0]] =~= parts);
    } else {
        let rest = parts.drop_first();
        assert forall|i: int| 0 <= i < rest.len() implies !(#[trigger] rest[i]).contains(sep) by {
            assert(rest[i] == parts[i + 1]);
        }
        lemma_joined(rest, sep);
        a_separator_cuts(parts[0], sep, joined(rest, sep));
        assert(seq![parts[0]] + rest =~= parts);
    }
}

/// More than one piece joined ends as its last does, or in a separator.
pub(crate) proof fn lemma_joined_ends(parts: Seq<Seq<u8>>, sep: u8)
    requires
        parts.len() > 1,
    ensures
        joined(parts, sep).len() > 0,
        joined(parts, sep).last() == if parts.last().len() > 0 {
            parts.last().last()
        } else {
            sep
        },
    decreases parts.len(),
{
    let rest = parts.drop_first();
    if parts.len() == 2 {
        assert(joined(rest, sep) == parts[1]);
    } else {
        lemma_joined_ends(rest, sep);
        assert(rest.last() == parts.last());
    }
}

} // verus!
