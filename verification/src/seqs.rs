//! Two folds over sequences that the contracts of this library share, and
//! how they behave under concatenation.
use vstd::prelude::*;

verus! {

/// The items that are present in a sequence of optional items, in their
/// order.
pub open spec fn somes<A>(s: Seq<Option<A>>) -> Seq<A>
    decreases s.len(),
{
    if s.len() == 0 {
        Seq::empty()
    } else {
        match s.last() {
            Some(a) => somes(s.drop_last()).push(a),
            None => somes(s.drop_last()),
        }
    }
}

/// The sequences of a sequence, one after the other.
pub open spec fn concat<A>(parts: Seq<Seq<A>>) -> Seq<A>
    decreases parts.len(),
{
    if parts.len() == 0 {
        Seq::empty()
    } else {
        concat(parts.drop_last()) + parts.last()
    }
}

/// The present items of two sequences in a row are those of the first,
/// then those of the second.
pub proof fn lemma_somes_add<A>(a: Seq<Option<A>>, b: Seq<Option<A>>)
    ensures
        somes(a + b) == somes(a) + somes(b),
    decreases b.len(),
{
    if b.len() == 0 {
        assert(a + b =~= a);
        assert(somes(a) + somes(b) =~= somes(a));
    } else {
        lemma_somes_add(a, b.drop_last());
        assert((a + b).drop_last() =~= a + b.drop_last());
        assert((a + b).last() == b.last());
        match b.last() {
            Some(x) => {
                assert(somes(a + b) =~= somes(a) + somes(b));
            },
            None => {},
        }
    }
}

/// One more item at the end: it is kept if it is present.
pub proof fn lemma_somes_push<A>(s: Seq<Option<A>>, item: Option<A>)
    ensures
        somes(s.push(item)) == (match item {
            Some(a) => somes(s).push(a),
            None => somes(s),
        }),
{
    assert(s.push(item).drop_last() =~= s);
}

/// Where no item is present, nothing is kept.
pub proof fn lemma_somes_none<A>(s: Seq<Option<A>>)
    requires
        forall|i: int| 0 <= i < s.len() ==> (#[trigger] s[i]) is None,
    ensures
        somes(s) == Seq::<A>::empty(),
    decreases s.len(),
{
    if s.len() > 0 {
        lemma_somes_none(s.drop_last());
    }
}

/// Where in a sequence of optional items the item stands that is the
/// `k`-th of those present.
pub open spec fn source_index<A>(s: Seq<Option<A>>, k: int) -> int
    decreases s.len(),
{
    if s.len() == 0 {
        0
    } else if s.last() is Some && k == somes(s.drop_last()).len() {
        s.len() - 1
    } else {
        source_index(s.drop_last(), k)
    }
}

/// The `k`-th of the present items is the item at its source index.
pub proof fn lemma_source_index<A>(s: Seq<Option<A>>, k: int)
    requires
        0 <= k < somes(s).len(),
    ensures
        0 <= source_index(s, k) < s.len(),
        s[source_index(s, k)] == Some(somes(s)[k]),
    decreases s.len(),
{
    if s.len() > 0 {
        if s.last() is Some && k == somes(s.drop_last()).len() {
        } else {
            lemma_source_index(s.drop_last(), k);
        }
    }
}

/// The present items keep their order: of two of them, the later one
/// stands later in the sequence.
pub proof fn lemma_source_index_increases<A>(s: Seq<Option<A>>, j: int, k: int)
    requires
        0 <= j < k < somes(s).len(),
    ensures
        source_index(s, j) < source_index(s, k),
    decreases s.len(),
{
    if s.len() > 0 {
        if s.last() is Some && k == somes(s.drop_last()).len() {
            lemma_source_index(s.drop_last(), j);
        } else {
            lemma_source_index_increases(s.drop_last(), j, k);
        }
    }
}

/// One more part at the end is appended.
pub proof fn lemma_concat_push<A>(parts: Seq<Seq<A>>, part: Seq<A>)
    ensures
        concat(parts.push(part)) == concat(parts) + part,
{
    assert(parts.push(part).drop_last() =~= parts);
}

} // verus!
