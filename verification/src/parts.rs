//! Sequences that are made of parts.
use vstd::prelude::*;

verus! {

/// The parts, one after the other.
pub open spec fn join<T>(parts: Seq<Seq<T>>) -> Seq<T>
    decreases parts.len(),
{
    if parts.len() == 0 {
        Seq::empty()
    } else {
        join(parts.drop_last()) + parts.last()
    }
}

/// Joining two lists of parts is joining each and putting the second behind the
/// first.
pub proof fn lemma_join_concat<T>(a: Seq<Seq<T>>, b: Seq<Seq<T>>)
    ensures
        join(a + b) == join(a) + join(b),
    decreases b.len(),
{
    if b.len() == 0 {
        assert(a + b =~= a);
        assert(join(a) + join(b) =~= join(a));
    } else {
        assert((a + b).drop_last() =~= a + b.drop_last());
        assert((a + b).last() == b.last());
        lemma_join_concat(a, b.drop_last());
        assert(join(a) + join(b) =~= join(a) + join(b.drop_last()) + b.last());
    }
}

/// A single part joins to itself.
pub proof fn lemma_join_one<T>(part: Seq<T>)
    ensures
        join(seq![part]) == part,
{
    reveal_with_fuel(join, 2);
    assert(seq![part].drop_last() =~= Seq::<Seq<T>>::empty());
    assert(join(seq![part]) =~= part);
}

/// A part behind the others adds its length.
pub proof fn lemma_join_push<T>(parts: Seq<Seq<T>>, part: Seq<T>)
    ensures
        join(parts.push(part)) == join(parts) + part,
{
    assert(parts.push(part).drop_last() =~= parts);
}

/// The first parts join to no more than all of them do.
pub proof fn lemma_join_take<T>(parts: Seq<Seq<T>>, n: int)
    requires
        0 <= n <= parts.len(),
    ensures
        join(parts.take(n)).len() <= join(parts).len(),
{
    assert(parts =~= parts.take(n) + parts.skip(n));
    lemma_join_concat(parts.take(n), parts.skip(n));
}

} // verus!
