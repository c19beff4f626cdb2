//! Byte strings: equality, lexicographic order, searching and splitting.

use vstd::prelude::*;

verus! {

/// Lexicographic order on byte strings, a proper prefix coming first.
pub open spec fn lex_lt(a: Seq<u8>, b: Seq<u8>) -> bool
    decreases a.len(),
{
    if b.len() == 0 {
        false
    } else if a.len() == 0 {
        true
    } else if a[0] != b[0] {
        a[0] < b[0]
    } else {
        lex_lt(a.drop_first(), b.drop_first())
    }
}

/// `a` does not come after `b`.
pub open spec fn lex_le(a: Seq<u8>, b: Seq<u8>) -> bool {
    a == b || lex_lt(a, b)
}

/// The pieces of `s` between occurrences of `sep`. There is always at least one
/// piece, and an empty string gives one empty piece.
pub open spec fn split(s: Seq<u8>, sep: u8) -> Seq<Seq<u8>>
    decreases s.len(),
{
    if s.len() == 0 {
        seq![Seq::<u8>::empty()]
    } else {
        let before = split(s.drop_last(), sep);
        if s.last() == sep {
            before.push(Seq::<u8>::empty())
        } else {
            before.update(before.len() - 1, before.last().push(s.last()))
        }
    }
}

/// The pieces joined again, with `sep` between neighbours.
pub open spec fn join(pieces: Seq<Seq<u8>>, sep: u8) -> Seq<u8>
    decreases pieces.len(),
{
    if pieces.len() == 0 {
        Seq::<u8>::empty()
    } else if pieces.len() == 1 {
        pieces[0]
    } else {
        join(pieces.drop_last(), sep).push(sep) + pieces.last()
    }
}

/// The position of the first `byte` in `s`, or the length of `s` if there is none.
pub open spec fn position(s: Seq<u8>, byte: u8) -> int
    decreases s.len(),
{
    if s.len() == 0 {
        0
    } else if s[0] == byte {
        0
    } else {
        1 + position(s.drop_first(), byte)
    }
}

/// The content of each byte string of a list.
pub open spec fn contents(v: Seq<Vec<u8>>) -> Seq<Seq<u8>> {
    v.map_values(|x: Vec<u8>| x@)
}

/// No byte string is smaller than itself.
pub proof fn lex_lt_irreflexive(a: Seq<u8>)
    ensures
        !lex_lt(a, a),
    decreases a.len(),
{
    if a.len() > 0 {
        lex_lt_irreflexive(a.drop_first());
    }
}

/// The order is transitive.
pub proof fn lex_lt_transitive(a: Seq<u8>, b: Seq<u8>, c: Seq<u8>)
    requires
        lex_lt(a, b),
        lex_lt(b, c),
    ensures
        lex_lt(a, c),
    decreases a.len(),
{
    if a.len() > 0 && a[0] == b[0] && b[0] == c[0] {
        lex_lt_transitive(a.drop_first(), b.drop_first(), c.drop_first());
    }
}

/// Of two different byte strings exactly one is the smaller.
pub proof fn lex_lt_total(a: Seq<u8>, b: Seq<u8>)
    ensures
        a == b || lex_lt(a, b) || lex_lt(b, a),
        !(lex_lt(a, b) && lex_lt(b, a)),
        a == b ==> !lex_lt(a, b),
    decreases a.len(),
{
    if a.len() > 0 && b.len() > 0 {
        lex_lt_total(a.drop_first(), b.drop_first());
        if a[0] == b[0] && a.drop_first() == b.drop_first() {
            assert(a =~= seq![a[0]] + a.drop_first());
            assert(b =~= seq![b[0]] + b.drop_first());
        }
    } else if a.len() == 0 && b.len() == 0 {
        assert(a =~= b);
    }
    if a == b {
        lex_lt_irreflexive(a);
    }
}

/// `position` is the first place where the byte stands.
pub proof fn position_is_first(s: Seq<u8>, byte: u8)
    ensures
        0 <= position(s, byte) <= s.len(),
        position(s, byte) < s.len() ==> s[position(s, byte)] == byte,
        forall|j: int| 0 <= j < position(s, byte) ==> s[j] != byte,
        position(s, byte) == s.len() <==> !s.contains(byte),
    decreases s.len(),
{
    if s.len() > 0 && s[0] != byte {
        let rest = s.drop_first();
        position_is_first(rest, byte);
        assert forall|j: int| 0 <= j < position(s, byte) implies s[j] != byte by {
            if j > 0 {
                assert(s[j] == rest[j - 1]);
            }
        }
        if rest.contains(byte) {
            let k = choose|k: int| 0 <= k < rest.len() && rest[k] == byte;
            assert(s[k + 1] == byte);
        }
        if s.contains(byte) {
            let k = choose|k: int| 0 <= k < s.len() && s[k] == byte;
            assert(rest[k - 1] == byte);
        }
    } else if s.len() > 0 {
        assert(s[0] == byte);
    }
}

/// Splitting never yields an empty list, and no piece holds the separator.
pub proof fn split_pieces(s: Seq<u8>, sep: u8)
    ensures
        split(s, sep).len() >= 1,
        forall|i: int, j: int|
            0 <= i < split(s, sep).len() && 0 <= j < split(s, sep)[i].len() ==> split(s, sep)[i][j]
                != sep,
    decreases s.len(),
{
    if s.len() > 0 {
        split_pieces(s.drop_last(), sep);
    }
}

/// A byte string without the separator is one piece.
pub proof fn split_without_separator(s: Seq<u8>, sep: u8)
    requires
        !s.contains(sep),
    ensures
        split(s, sep) == seq![s],
    decreases s.len(),
{
    if s.len() == 0 {
        assert(s =~= Seq::<u8>::empty());
    } else {
        let init = s.drop_last();
        assert(s.contains(s[s.len() - 1]));
        assert(s.last() != sep);
        assert forall|i: int| 0 <= i < init.len() implies init[i] != sep by {
            assert(s.contains(s[i]));
        }
        split_without_separator(init, sep);
        assert(init.push(s.last()) =~= s);
        assert(seq![init].update(0, init.push(s.last())) =~= seq![s]);
    }
}

/// Joining the pieces of a split gives the byte string back.
pub proof fn join_of_split(s: Seq<u8>, sep: u8)
    ensures
        join(split(s, sep), sep) == s,
    decreases s.len(),
{
    if s.len() == 0 {
        assert(join(split(s, sep), sep) =~= s);
    } else {
        let init = s.drop_last();
        let before = split(init, sep);
        split_pieces(init, sep);
        join_of_split(init, sep);
        if s.last() == sep {
            let after = before.push(Seq::<u8>::empty());
            assert(after.drop_last() =~= before);
            assert(join(after, sep) =~= join(before, sep).push(sep));
            assert(s =~= init.push(sep));
        } else {
            let after = before.update(before.len() - 1, before.last().push(s.last()));
            if before.len() == 1 {
                assert(join(after, sep) =~= before[0].push(s.last()));
            } else {
                assert(after.drop_last() =~= before.drop_last());
                assert(join(after, sep) =~= join(before, sep).push(s.last()));
            }
            assert(s =~= init.push(s.last()));
        }
    }
}

/// Whether two byte strings hold the same bytes.
pub fn equal(a: &[u8], b: &[u8]) -> (same: bool)
    ensures
        same == (a@ == b@),
{
    if a.len() != b.len() {
        return false;
    }
    let mut i: usize = 0;
    while i < a.len()
        invariant
            i <= a.len(),
            a.len() == b.len(),
            forall|j: int| 0 <= j < i ==> a@[j] == b@[j],
        decreases a.len() - i,
    {
        if a[i] != b[i] {
            return false;
        }
        i += 1;
    }
    assert(a@ =~= b@);
    true
}

/// Whether `a` comes before `b` in lexicographic order.
pub fn less(a: &[u8], b: &[u8]) -> (before: bool)
    ensures
        before == lex_lt(a@, b@),
{
    let mut i: usize = 0;
    proof {
        assert(a@.skip(0) =~= a@);
        assert(b@.skip(0) =~= b@);
    }
    while i < a.len() && i < b.len()
        invariant
            i <= a.len(),
            i <= b.len(),
            lex_lt(a@, b@) == lex_lt(a@.skip(i as int), b@.skip(i as int)),
        decreases a.len() - i,
    {
        proof {
            assert(a@.skip(i as int).drop_first() =~= a@.skip(i + 1));
            assert(b@.skip(i as int).drop_first() =~= b@.skip(i + 1));
        }
        if a[i] != b[i] {
            return a[i] < b[i];
        }
        i += 1;
    }
    i < b.len()
}

/// The position of the first `byte` in `s`, if there is one.
pub fn find(s: &[u8], byte: u8) -> (at: Option<usize>)
    ensures
        match at {
            Some(i) => i < s.len() && i == position(s@, byte),
            None => position(s@, byte) == s.len(),
        },
{
    proof {
        position_is_first(s@, byte);
    }
    let mut i: usize = 0;
    while i < s.len()
        invariant
            i <= s.len(),
            forall|j: int| 0 <= j < i ==> s@[j] != byte,
        decreases s.len() - i,
    {
        if s[i] == byte {
            proof {
                position_is_first(s@, byte);
                let first = position(s@, byte);
                if first < i {
                    assert(s@[first] == byte);
                }
                if i < first {
                    assert(s@[i as int] != byte);
                }
            }
            return Some(i);
        }
        i += 1;
    }
    proof {
        position_is_first(s@, byte);
        let first = position(s@, byte);
        if first < s.len() {
            assert(s@[first] == byte);
        }
    }
    None
}

/// A copy of the bytes of `s` from `from` up to, not including, `to`.
pub fn copy_range(s: &[u8], from: usize, to: usize) -> (out: Vec<u8>)
    requires
        from <= to <= s.len(),
    ensures
        out@ == s@.subrange(from as int, to as int),
{
    let mut out: Vec<u8> = Vec::new();
    let mut i: usize = from;
    while i < to
        invariant
            from <= i <= to <= s.len(),
            out@ == s@.subrange(from as int, i as int),
        decreases to - i,
    {
        out.push(s[i]);
        i += 1;
        assert(out@ =~= s@.subrange(from as int, i as int));
    }
    out
}

/// A copy of `s`.
pub fn copy(s: &[u8]) -> (out: Vec<u8>)
    ensures
        out@ == s@,
{
    let out = copy_range(s, 0, s.len());
    assert(s@.subrange(0, s.len() as int) =~= s@);
    out
}

/// `head` followed by `tail`.
pub fn append(head: &[u8], tail: &[u8]) -> (out: Vec<u8>)
    ensures
        out@ == head@ + tail@,
{
    let mut out = copy(head);
    let mut i: usize = 0;
    while i < tail.len()
        invariant
            i <= tail.len(),
            out@ == head@ + tail@.subrange(0, i as int),
        decreases tail.len() - i,
    {
        out.push(tail[i]);
        i += 1;
        assert(out@ =~= head@ + tail@.subrange(0, i as int));
    }
    assert(tail@.subrange(0, tail.len() as int) =~= tail@);
    out
}

/// Splits `s` at every `sep`, as `split` describes.
pub fn split_on(s: &[u8], sep: u8) -> (pieces: Vec<Vec<u8>>)
    ensures
        contents(pieces@) == split(s@, sep),
{
    let mut pieces: Vec<Vec<u8>> = Vec::new();
    let mut current: Vec<u8> = Vec::new();
    let mut i: usize = 0;
    proof {
        assert(s@.subrange(0, 0) =~= Seq::<u8>::empty());
        assert(contents(pieces@).push(current@) =~= split(s@.subrange(0, 0), sep));
    }
    while i < s.len()
        invariant
            i <= s.len(),
            contents(pieces@).push(current@) == split(s@.subrange(0, i as int), sep),
        decreases s.len() - i,
    {
        let ghost before = contents(pieces@).push(current@);
        proof {
            assert(s@.subrange(0, i + 1).drop_last() =~= s@.subrange(0, i as int));
            assert(s@.subrange(0, i + 1).last() == s@[i as int]);
        }
        if s[i] == sep {
            pieces.push(current);
            current = Vec::new();
            assert(contents(pieces@).push(current@) =~= before.push(Seq::<u8>::empty()));
        } else {
            current.push(s[i]);
            assert(contents(pieces@).push(current@) =~= before.update(
                before.len() - 1,
                before.last().push(s@[i as int]),
            ));
        }
        i += 1;
    }
    proof {
        assert(s@.subrange(0, s.len() as int) =~= s@);
    }
    let ghost done = contents(pieces@).push(current@);
    pieces.push(current);
    assert(contents(pieces@) =~= done);
    pieces
}

} // verus!
