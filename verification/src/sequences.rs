//! Facts about sequences that the proofs of this crate share.

use vstd::prelude::*;

verus! {

/// Filtering one more element either appends it or changes nothing.
pub(crate) proof fn lemma_filter_next<A>(all: Seq<A>, keep: spec_fn(A) -> bool, done: int)
    requires
        0 <= done < all.len(),
    ensures
        all.take(done + 1).filter(keep) == if keep(all[done]) {
            all.take(done).filter(keep).push(all[done])
        } else {
            all.take(done).filter(keep)
        },
{
    reveal(Seq::filter);
    assert(all.take(done + 1).drop_last() =~= all.take(done));
}

/// A filter that every element passes changes nothing.
pub(crate) proof fn lemma_filter_all<A>(all: Seq<A>, keep: spec_fn(A) -> bool)
    requires
        forall|at: int| 0 <= at < all.len() ==> keep(#[trigger] all[at]),
    ensures
        all.filter(keep) == all,
    decreases all.len(),
{
    reveal(Seq::filter);
    if all.len() > 0 {
        lemma_filter_all(all.drop_last(), keep);
    }
}

/// One more element of a sequence is found among its first elements exactly
/// where it was found before, or is the new one.
pub(crate) proof fn lemma_contains_next<A>(all: Seq<A>, done: int, sought: A)
    requires
        0 <= done < all.len(),
    ensures
        all.take(done + 1).contains(sought) <==> all.take(done).contains(sought) || all[done]
            == sought,
{
    let more = all.take(done + 1);
    let fewer = all.take(done);
    if fewer.contains(sought) {
        let at = choose|at: int| 0 <= at < fewer.len() && fewer[at] == sought;
        assert(more[at] == sought);
    }
    if all[done] == sought {
        assert(more[done] == sought);
    }
    if more.contains(sought) && all[done] != sought {
        let at = choose|at: int| 0 <= at < more.len() && more[at] == sought;
        assert(fewer[at] == sought);
    }
}

/// The last place of an element among the first elements of a sequence is
/// the new place when the new element is the one sought, and stays what it
/// was otherwise.
pub(crate) proof fn lemma_index_of_last_next<A>(all: Seq<A>, done: int, sought: A)
    requires
        0 <= done < all.len(),
    ensures
        all.take(done + 1).index_of_last(sought) == if all[done] == sought {
            Some(done)
        } else {
            all.take(done).index_of_last(sought)
        },
{
    let more = all.take(done + 1);
    let fewer = all.take(done);
    more.index_of_last_ensures(sought);
    fewer.index_of_last_ensures(sought);
    if all[done] == sought {
        assert(more[done] == sought);
    } else if fewer.contains(sought) {
        // Both sequences hold `sought` at both places, so neither place can be
        // behind the other.
        let here = more.index_of_last(sought).unwrap();
        let there = fewer.index_of_last(sought).unwrap();
        assert(more[there] == sought);
        assert(fewer[here] == sought);
    }
}

} // verus!
