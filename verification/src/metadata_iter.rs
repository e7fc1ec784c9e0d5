//! Walking a track list with the metadata of each track attached.

use crate::metadata::{cache_view, Metadata, MetadataView};
use crate::model::is_first_place;
use crate::track_id::{texts_of, TrackID};
use vstd::hash_map::StringHashMap;
use vstd::prelude::*;

verus! {

/// What an iterator hands out for a list: one record for each place in
/// `ids`, in order.
///
/// A cached record is handed out once, at the first place of its track.
/// Every other place gets the record that only names the track: the places
/// of tracks without a cached record, and the later places of a track that
/// stands on the list more than once.
pub open spec fn yields(ids: Seq<Seq<char>>, cache: Map<Seq<char>, MetadataView>) -> Seq<
    MetadataView,
> {
    Seq::new(
        ids.len(),
        |at: int|
            if cache.contains_key(ids[at]) && !ids.take(at).contains(ids[at]) {
                cache[ids[at]]
            } else {
                MetadataView::naming(ids[at])
            },
    )
}

/// The first record that is handed out comes from the cache where the cache
/// has one. The rest is what is handed out for the rest of the list once that
/// record has left the cache.
pub proof fn lemma_yields_unfold(ids: Seq<Seq<char>>, cache: Map<Seq<char>, MetadataView>)
    requires
        ids.len() > 0,
    ensures
        yields(ids, cache)[0] == if cache.contains_key(ids[0]) {
            cache[ids[0]]
        } else {
            MetadataView::naming(ids[0])
        },
        yields(ids, cache).drop_first() == yields(ids.drop_first(), cache.remove(ids[0])),
{
    let rest = ids.drop_first();
    let left = cache.remove(ids[0]);
    assert forall|at: int| 0 <= at < rest.len() implies yields(ids, cache)[at + 1] == yields(
        rest,
        left,
    )[at] by {
        let id = rest[at];
        let before = ids.take(at + 1);
        if id == ids[0] {
            assert(before[0] == id);
        } else {
            if before.contains(id) {
                let found = choose|found: int| 0 <= found < before.len() && before[found] == id;
                assert(rest.take(at)[found - 1] == id);
            }
            if rest.take(at).contains(id) {
                let found = choose|found: int|
                    0 <= found < rest.take(at).len() && rest.take(at)[found] == id;
                assert(before[found + 1] == id);
            }
        }
    }
}

/// One record comes for each place on the list, and it is either the cached
/// record of the track at that place or the record that only names it.
pub proof fn lemma_yields_one_record_per_place(
    ids: Seq<Seq<char>>,
    cache: Map<Seq<char>, MetadataView>,
)
    ensures
        yields(ids, cache).len() == ids.len(),
        forall|at: int|
            0 <= at < ids.len() ==> #[trigger] yields(ids, cache)[at] == MetadataView::naming(ids[at])
                || (cache.contains_key(ids[at]) && yields(ids, cache)[at] == cache[ids[at]]),
        forall|at: int|
            0 <= at < ids.len() && !cache.contains_key(ids[at]) ==> #[trigger] yields(
                ids,
                cache,
            )[at] == MetadataView::naming(ids[at]),
        forall|at: int|
            is_first_place(ids, ids[at], at) && cache.contains_key(ids[at]) ==> #[trigger] yields(
                ids,
                cache,
            )[at] == cache[ids[at]],
{
}

/// A cached record is handed out at most once: where a track stands on the
/// list more than once, every place of it but the first gets the record that
/// only names the track.
pub proof fn lemma_yields_cached_record_once(
    ids: Seq<Seq<char>>,
    cache: Map<Seq<char>, MetadataView>,
    earlier: int,
    later: int,
)
    requires
        0 <= earlier < later < ids.len(),
        ids[earlier] == ids[later],
    ensures
        yields(ids, cache)[later] == MetadataView::naming(ids[later]),
{
    assert(ids.take(later)[earlier] == ids[later]);
}

/// Iterates over the metadata of the tracks of a list, in the order of the
/// list.
///
/// The iterator owns a copy of the order and of the cache, taken when it was
/// made. It hands out one record for each place on the list and then ends.
/// In case a track has no cached record, it hands out a simple Metadata
/// without any interesting data in it.
pub struct MetadataIter {
    order: Vec<TrackID>,
    metadata: StringHashMap<Metadata>,
    current: usize,
}

impl View for MetadataIter {
    type V = Seq<MetadataView>;

    /// The records that are still to come, in the order in which they come.
    closed spec fn view(&self) -> Seq<MetadataView> {
        if self.current <= self.order.len() {
            yields(
                texts_of(self.order@).skip(self.current as int),
                cache_view(self.metadata@),
            )
        } else {
            Seq::empty()
        }
    }
}

impl MetadataIter {
    /// An iterator over `order` that takes its records from `metadata`.
    pub(crate) fn new(order: Vec<TrackID>, metadata: StringHashMap<Metadata>) -> (iter:
        MetadataIter)
        ensures
            iter@ == yields(texts_of(order@), cache_view(metadata@)),
    {
        assert(texts_of(order@).skip(0) =~= texts_of(order@));
        MetadataIter { order, metadata, current: 0 }
    }

    /// The record of the next place on the list, or `None` when every place
    /// has had its record.
    pub fn next(&mut self) -> (item: Option<Metadata>)
        ensures
            match item {
                Some(record) => old(self)@.len() > 0 && record@ == old(self)@[0] && final(self)@
                    == old(self)@.drop_first(),
                None => old(self)@.len() == 0 && final(self)@ == old(self)@,
            },
    {
        if self.current >= self.order.len() {
            return None;
        }
        let ghost rest = texts_of(self.order@).skip(self.current as int);
        let ghost cache = cache_view(self.metadata@);
        proof {
            lemma_yields_unfold(rest, cache);
            assert(rest.drop_first() =~= texts_of(self.order@).skip(self.current + 1));
        }
        let next_id = &self.order[self.current];
        let cached = match self.metadata.get(next_id.as_str()) {
            Some(record) => Some(record.clone()),
            None => None,
        };
        let item = match cached {
            Some(record) => {
                self.metadata.remove(next_id.as_str());
                record
            },
            None => Metadata::new(next_id.as_str()),
        };
        self.current += 1;
        Some(item)
    }
}

} // verus!
