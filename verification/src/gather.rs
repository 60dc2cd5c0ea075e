//! Collecting what the items of a list contribute, up to the first failure.

use vstd::prelude::*;

verus! {

/// What the items of a list contribute, one after the other, in the order of
/// the list. Where an item fails, the whole fails with the error of the
/// first item that does.
pub open spec fn gather<A, B, E>(
    items: Seq<A>,
    each: spec_fn(A) -> Result<Seq<B>, E>,
) -> Result<Seq<B>, E>
    decreases items.len(),
{
    if items.len() == 0 {
        Ok(Seq::empty())
    } else {
        match gather(items.drop_last(), each) {
            Err(e) => Err(e),
            Ok(before) => match each(items.last()) {
                Err(e) => Err(e),
                Ok(more) => Ok(before + more),
            },
        }
    }
}

/// One more item: its contribution comes behind what the items before it
/// contributed.
pub proof fn lemma_gather_step<A, B, E>(
    items: Seq<A>,
    each: spec_fn(A) -> Result<Seq<B>, E>,
    n: int,
)
    requires
        0 <= n < items.len(),
    ensures
        gather(items.take(n + 1), each) == match gather(items.take(n), each) {
            Err(e) => Err(e),
            Ok(before) => match each(items[n]) {
                Err(e) => Err(e),
                Ok(more) => Ok(before + more),
            },
        },
{
    assert(items.take(n + 1).drop_last() =~= items.take(n));
}

/// A failure among the first items is the failure of the whole list.
pub proof fn lemma_gather_error<A, B, E>(
    items: Seq<A>,
    each: spec_fn(A) -> Result<Seq<B>, E>,
    n: int,
)
    requires
        0 <= n <= items.len(),
        gather(items.take(n), each) is Err,
    ensures
        gather(items, each) == gather(items.take(n), each),
    decreases items.len() - n,
{
    if n < items.len() {
        lemma_gather_step(items, each, n);
        lemma_gather_error(items, each, n + 1);
    } else {
        assert(items.take(n) =~= items);
    }
}

} // verus!
