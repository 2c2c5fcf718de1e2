//! Byte strings cut at a separator, and put together again.

use vstd::prelude::*;

verus! {

/// The pieces of `s` between the occurrences of `sep`. There is always at
/// least one piece; a separator at either end leaves an empty piece there.
pub open spec fn split(s: Seq<u8>, sep: u8) -> Seq<Seq<u8>>
    decreases s.len(),
{
    if s.len() == 0 {
        seq![Seq::<u8>::empty()]
    } else if s.last() == sep {
        split(s.drop_last(), sep).push(Seq::<u8>::empty())
    } else {
        let parts = split(s.drop_last(), sep);
        parts.drop_last().push(parts.last().push(s.last()))
    }
}

/// The pieces `parts` with `sep` between each two neighbours.
pub open spec fn join(parts: Seq<Seq<u8>>, sep: u8) -> Seq<u8>
    decreases parts.len(),
{
    if parts.len() == 0 {
        Seq::<u8>::empty()
    } else if parts.len() == 1 {
        parts[0]
    } else {
        join(parts.drop_last(), sep).push(sep) + parts.last()
    }
}

/// Whether the byte `b` occurs nowhere in `s`.
pub open spec fn free_of(s: Seq<u8>, b: u8) -> bool {
    forall|i: int| 0 <= i < s.len() ==> #[trigger] s[i] != b
}

/// Splitting yields at least one piece, and no piece holds the separator.
pub proof fn lemma_split_pieces(s: Seq<u8>, sep: u8)
    ensures
        split(s, sep).len() >= 1,
        forall|i: int| 0 <= i < split(s, sep).len() ==> free_of(#[trigger] split(s, sep)[i], sep),
    decreases s.len(),
{
    if s.len() > 0 {
        lemma_split_pieces(s.drop_last(), sep);
    }
}

/// Joining the pieces of `s` gives `s` back.
pub proof fn lemma_join_split(s: Seq<u8>, sep: u8)
    ensures
        join(split(s, sep), sep) == s,
    decreases s.len(),
{
    if s.len() > 0 {
        let init = s.drop_last();
        let parts = split(init, sep);
        lemma_split_pieces(init, sep);
        lemma_join_split(init, sep);
        if s.last() == sep {
            let all = parts.push(Seq::<u8>::empty());
            assert(all.drop_last() =~= parts);
            assert(join(all, sep) =~= s);
        } else {
            let last = parts.last().push(s.last());
            let all = parts.drop_last().push(last);
            assert(all.drop_last() =~= parts.drop_last());
            if parts.len() == 1 {
                assert(join(all, sep) =~= s);
            } else {
                assert(join(parts, sep) == join(parts.drop_last(), sep).push(sep) + parts.last());
                assert(all.last() == last);
                assert(join(all, sep) == join(parts.drop_last(), sep).push(sep) + last);
                assert(init =~= s.drop_last());
                assert(join(parts.drop_last(), sep).push(sep) + last =~= (join(
                    parts.drop_last(),
                    sep,
                ).push(sep) + parts.last()).push(s.last()));
                assert(s =~= init.push(s.last()));
            }
        }
    }
}

/// Appending a byte other than the separator lengthens the last piece.
pub proof fn lemma_split_append(s: Seq<u8>, t: Seq<u8>, sep: u8)
    requires
        free_of(t, sep),
    ensures
        split(s + t, sep) == split(s, sep).drop_last().push(split(s, sep).last() + t),
    decreases t.len(),
{
    lemma_split_pieces(s, sep);
    if t.len() == 0 {
        assert(s + t =~= s);
        assert(split(s, sep).last() + t =~= split(s, sep).last());
        assert(split(s, sep).drop_last().push(split(s, sep).last()) =~= split(s, sep));
    } else {
        let t0 = t.drop_last();
        lemma_split_append(s, t0, sep);
        assert((s + t).drop_last() =~= s + t0);
        assert((s + t).last() == t.last());
        let parts = split(s + t0, sep);
        assert(parts.last().push(t.last()) =~= split(s, sep).last() + t);
        assert(parts.drop_last() =~= split(s, sep).drop_last());
    }
}

/// Splitting what was joined gives the pieces back, where there is at least
/// one piece and none of them holds the separator.
pub proof fn lemma_split_join(parts: Seq<Seq<u8>>, sep: u8)
    requires
        parts.len() >= 1,
        forall|i: int| 0 <= i < parts.len() ==> free_of(#[trigger] parts[i], sep),
    ensures
        split(join(parts, sep), sep) == parts,
    decreases parts.len(),
{
    if parts.len() == 1 {
        lemma_split_append(Seq::<u8>::empty(), parts[0], sep);
        assert(Seq::<u8>::empty() + parts[0] =~= parts[0]);
        assert(split(join(parts, sep), sep) =~= parts);
    } else {
        let init = parts.drop_last();
        assert forall|i: int| 0 <= i < init.len() implies free_of(#[trigger] init[i], sep) by {
            assert(init[i] == parts[i]);
        }
        lemma_split_join(init, sep);
        let head = join(init, sep).push(sep);
        assert(head.drop_last() =~= join(init, sep));
        assert(split(head, sep) == init.push(Seq::<u8>::empty()));
        lemma_split_append(head, parts.last(), sep);
        assert(Seq::<u8>::empty() + parts.last() =~= parts.last());
        assert(init.push(Seq::<u8>::empty()).drop_last() =~= init);
        assert(split(join(parts, sep), sep) =~= parts);
    }
}

/// The pieces that are complete in a prefix of `s` are pieces of `s` itself.
pub proof fn lemma_split_prefix(s: Seq<u8>, k: int, sep: u8)
    requires
        0 <= k <= s.len(),
    ensures
        split(s.take(k), sep).len() <= split(s, sep).len(),
        forall|j: int|
            0 <= j < split(s.take(k), sep).len() - 1 ==> #[trigger] split(s, sep)[j] == split(
                s.take(k),
                sep,
            )[j],
    decreases s.len() - k,
{
    if k == s.len() {
        assert(s.take(k) =~= s);
    } else {
        lemma_split_prefix(s, k + 1, sep);
        lemma_split_pieces(s.take(k), sep);
        assert(s.take(k + 1).drop_last() =~= s.take(k));
    }
}

/// The first piece of `s` is what stands before its first separator.
pub proof fn lemma_split_first(s: Seq<u8>, k: int, sep: u8)
    requires
        0 <= k <= s.len(),
        free_of(s.take(k), sep),
        k < s.len() ==> s[k] == sep,
    ensures
        split(s, sep)[0] == s.take(k),
{
    lemma_split_append(Seq::<u8>::empty(), s.take(k), sep);
    assert(Seq::<u8>::empty() + s.take(k) =~= s.take(k));
    assert(split(s.take(k), sep) =~= seq![s.take(k)]);
    if k < s.len() {
        assert(s.take(k + 1).drop_last() =~= s.take(k));
        assert(split(s.take(k + 1), sep) == seq![s.take(k)].push(Seq::<u8>::empty()));
        lemma_split_prefix(s, k + 1, sep);
    } else {
        assert(s.take(k) =~= s);
    }
}

} // verus!
