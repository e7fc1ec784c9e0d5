//! What follows from the definitions of the operations on a track list.

use crate::metadata::MetadataView;
use crate::model::{
    is_first_place, lemma_filed_nothing, named_tracks, other_than, slot_after, unknown_to,
    TrackListView,
};
use crate::sequences::lemma_filter_all;
use vstd::prelude::*;

verus! {

impl TrackListView {
    /// Inserting a record that names no track changes neither the order nor
    /// the cache.
    pub proof fn lemma_insert_without_id(self, after: Seq<char>, record: MetadataView)
        requires
            record.track_id is None,
        ensures
            self.insert(after, record) == self,
    {
    }

    /// Inserting behind a track that is on the list puts the new track right
    /// behind the first place of that track. Every other place keeps its
    /// track, and the tracks keep their order: taking the new place out again
    /// gives the old order.
    pub proof fn lemma_insert_after_listed(self, after: Seq<char>, record: MetadataView)
        requires
            record.track_id is Some,
            self.ids.contains(after),
        ensures
            self.ids.index_of_first(after) is Some,
            is_first_place(self.ids, after, self.ids.index_of_first(after)->0),
            ({
                let id = record.track_id->0;
                let first = self.ids.index_of_first(after)->0;
                let inserted = self.insert(after, record);
                &&& inserted.ids == self.ids.insert(first + 1, id)
                &&& inserted.ids.len() == self.ids.len() + 1
                &&& inserted.ids[first + 1] == id
                &&& inserted.ids.remove(first + 1) == self.ids
                &&& is_first_place(inserted.ids, after, first)
            }),
    {
        self.ids.index_of_first_ensures(after);
    }

    /// The first place of a track decides where a new track goes: whatever
    /// place is the first of `after`, the new track stands right behind it.
    pub proof fn lemma_insert_after_first_place(
        self,
        after: Seq<char>,
        record: MetadataView,
        first: int,
    )
        requires
            record.track_id is Some,
            is_first_place(self.ids, after, first),
        ensures
            self.insert(after, record).ids == self.ids.insert(first + 1, record.track_id->0),
    {
        self.ids.index_of_first_ensures(after);
    }

    /// Inserting behind a track that is not on the list appends the new
    /// track to the end.
    pub proof fn lemma_insert_after_unlisted(self, after: Seq<char>, record: MetadataView)
        requires
            record.track_id is Some,
            !self.ids.contains(after),
        ensures
            self.insert(after, record).ids == self.ids.push(record.track_id->0),
    {
        self.ids.index_of_first_ensures(after);
    }

    /// A track that was not on the list stands on it exactly once after it
    /// was inserted: at the place that it was given, and nowhere else.
    pub proof fn lemma_insert_new_track_once(self, after: Seq<char>, record: MetadataView)
        requires
            record.track_id is Some,
            !self.ids.contains(record.track_id->0),
        ensures
            0 <= slot_after(self.ids, after) <= self.ids.len(),
            forall|at: int|
                0 <= at < self.insert(after, record).ids.len() ==> (self.insert(
                    after,
                    record,
                ).ids[at] == record.track_id->0 <==> at == slot_after(self.ids, after)),
    {
        self.ids.index_of_first_ensures(after);
    }

    /// Inserting a record makes it the cached record of the track that it
    /// names, whatever was cached for that track before, and touches no
    /// other record.
    pub proof fn lemma_insert_caches_record(self, after: Seq<char>, record: MetadataView)
        requires
            record.track_id is Some,
        ensures
            self.insert(after, record).cache == self.cache.insert(record.track_id->0, record),
    {
    }

    /// After a track was removed it stands nowhere on the list and has no
    /// cached record. The other tracks are all still there, in the order
    /// that they had, and keep their records.
    pub proof fn lemma_remove_leaves_no_trace(self, id: Seq<char>)
        ensures
            !self.remove(id).ids.contains(id),
            !self.remove(id).cache.contains_key(id),
            self.remove(id).ids == self.ids.filter(other_than(id)),
            forall|other: Seq<char>|
                other != id ==> (self.remove(id).ids.contains(other) <==> self.ids.contains(other)),
            forall|other: Seq<char>|
                other != id ==> (self.remove(id).cache.contains_key(other)
                    <==> self.cache.contains_key(other)),
            forall|other: Seq<char>|
                other != id && self.cache.contains_key(other) ==> self.remove(id).cache[other]
                    == self.cache[other],
    {
        let left = self.remove(id).ids;
        assert forall|other: Seq<char>| left.contains(other) implies other != id
            && self.ids.contains(other) by {
            let at = choose|at: int| 0 <= at < left.len() && left[at] == other;
            self.ids.lemma_filter_pred(other_than(id), at);
            self.ids.lemma_filter_contains_rev(other_than(id), other);
        }
        assert forall|other: Seq<char>| other != id && self.ids.contains(other) implies left.contains(
            other,
        ) by {
            let at = choose|at: int| 0 <= at < self.ids.len() && self.ids[at] == other;
            self.ids.lemma_filter_contains(other_than(id), at);
        }
    }

    /// Removing a track that stands nowhere on the list leaves the order as
    /// it is.
    pub proof fn lemma_remove_unlisted(self, id: Seq<char>)
        requires
            !self.ids.contains(id),
        ensures
            self.remove(id).ids == self.ids,
    {
        lemma_filter_all(self.ids, other_than(id));
    }

    /// A reload keeps the cached records of the tracks that the player still
    /// has, as they were, and drops every other record.
    pub proof fn lemma_reload_drops_unlisted(self, ids: Seq<Seq<char>>)
        ensures
            self.reload(ids).ids == ids,
            forall|id: Seq<char>|
                self.reload(ids).cache.contains_key(id) <==> ids.contains(id)
                    && self.cache.contains_key(id),
            forall|id: Seq<char>|
                self.reload(ids).cache.contains_key(id) ==> self.reload(ids).cache[id]
                    == self.cache[id],
    {
    }

    /// A replacement drops nothing from the cache: every track that had a
    /// cached record has one afterwards, on the new list or not. The records
    /// that the other list brings win over the ones that were there.
    pub proof fn lemma_replace_drops_nothing(self, other: TrackListView)
        ensures
            self.replace(other).ids == other.ids,
            forall|id: Seq<char>|
                self.replace(other).cache.contains_key(id) <==> self.cache.contains_key(id)
                    || other.cache.contains_key(id),
            forall|id: Seq<char>|
                other.cache.contains_key(id) ==> self.replace(other).cache[id] == other.cache[id],
            forall|id: Seq<char>|
                self.cache.contains_key(id) && !other.cache.contains_key(id) ==> self.replace(
                    other,
                ).cache[id] == self.cache[id],
    {
    }

    /// Where a reload and a replacement differ: a track with a cached record
    /// that is not on the new list loses the record in a reload, and keeps it
    /// when a list of the same tracks takes the place of the old one.
    pub proof fn lemma_reload_and_replace_differ(self, ids: Seq<Seq<char>>, id: Seq<char>)
        requires
            self.cache.contains_key(id),
            !ids.contains(id),
        ensures
            !self.reload(ids).cache.contains_key(id),
            self.replace(TrackListView::of_ids(ids)).cache.contains_key(id),
            self.replace(TrackListView::of_ids(ids)).cache[id] == self.cache[id],
            self.reload(ids).ids == self.replace(TrackListView::of_ids(ids)).ids,
    {
    }

    /// Reloading the cache leaves nothing of the old cache: a track has a
    /// record afterwards exactly when the player sent one for a place of it,
    /// and the record is the one sent for the last such place.
    pub proof fn lemma_reload_cache_holds_what_was_sent(self, records: Seq<MetadataView>)
        ensures
            self.reload_cache(records).ids == self.ids,
            forall|id: Seq<char>|
                self.reload_cache(records).cache.contains_key(id) <==> exists|at: int|
                    0 <= at < self.ids.len() && at < records.len() && self.ids[at] == id,
            forall|at: int|
                0 <= at < self.ids.len() && at < records.len() && (forall|later: int|
                    at < later < self.ids.len() && later < records.len() ==> self.ids[later]
                        != self.ids[at]) ==> self.reload_cache(records).cache[self.ids[at]]
                    == records[at],
    {
        let places = if self.ids.len() <= records.len() {
            self.ids.len() as int
        } else {
            records.len() as int
        };
        let keys = self.ids.take(places);
        assert forall|id: Seq<char>|
            self.reload_cache(records).cache.contains_key(id) <==> exists|at: int|
                0 <= at < self.ids.len() && at < records.len() && self.ids[at] == id by {
            if exists|at: int| 0 <= at < self.ids.len() && at < records.len() && self.ids[at] == id {
                let at = choose|at: int|
                    0 <= at < self.ids.len() && at < records.len() && self.ids[at] == id;
                assert(keys[at] == id);
            }
        }
        assert forall|at: int|
            0 <= at < self.ids.len() && at < records.len() && (forall|later: int|
                at < later < self.ids.len() && later < records.len() ==> self.ids[later]
                    != self.ids[at]) implies self.reload_cache(records).cache[self.ids[at]]
            == records[at] by {
            keys.index_of_last_ensures(self.ids[at]);
            assert(keys[at] == self.ids[at]);
        }
    }

    /// Completing the cache changes nothing but the records of the tracks
    /// that the answer names: each of them gets the last record that names
    /// it, and every other track keeps what it had.
    pub proof fn lemma_complete_cache_files_answer(self, records: Seq<MetadataView>)
        ensures
            self.complete_cache(records).ids == self.ids,
            forall|id: Seq<char>|
                self.complete_cache(records).cache.contains_key(id) <==> self.cache.contains_key(id)
                    || exists|at: int| 0 <= at < records.len() && records[at].track_id == Some(id),
            forall|id: Seq<char>|
                self.cache.contains_key(id) && !(exists|at: int|
                    0 <= at < records.len() && records[at].track_id == Some(id))
                    ==> self.complete_cache(records).cache[id] == self.cache[id],
            forall|at: int|
                0 <= at < records.len() && records[at].track_id is Some && (forall|later: int|
                    at < later < records.len() ==> records[later].track_id != records[at].track_id)
                    ==> self.complete_cache(records).cache[records[at].track_id->0] == records[at],
    {
        let named = named_tracks(records);
        assert forall|id: Seq<char>| named.contains(Some(id)) <==> exists|at: int|
            0 <= at < records.len() && records[at].track_id == Some(id) by {
            if exists|at: int| 0 <= at < records.len() && records[at].track_id == Some(id) {
                let at = choose|at: int| 0 <= at < records.len() && records[at].track_id == Some(id);
                assert(named[at] == Some(id));
            }
        }
        assert forall|id: Seq<char>|
            self.cache.contains_key(id) && !(exists|at: int|
                0 <= at < records.len() && records[at].track_id == Some(id))
                implies self.complete_cache(records).cache[id] == self.cache[id] by {
            named.index_of_last_ensures(Some(id));
        }
        assert forall|at: int|
            0 <= at < records.len() && records[at].track_id is Some && (forall|later: int|
                at < later < records.len() ==> records[later].track_id != records[at].track_id)
                implies self.complete_cache(records).cache[records[at].track_id->0]
            == records[at] by {
            let id = records[at].track_id->0;
            assert(named[at] == Some(id));
            named.index_of_last_ensures(Some(id));
        }
    }

    /// Once the cache was completed with an answer that names every track
    /// that was asked for, no track on the list lacks a record, and there is
    /// nothing left to ask the player for.
    pub proof fn lemma_complete_cache_leaves_nothing_to_fetch(self, records: Seq<MetadataView>)
        requires
            forall|at: int|
                0 <= at < self.ids_without_cache().len() ==> named_tracks(records).contains(
                    Some(#[trigger] self.ids_without_cache()[at]),
                ),
        ensures
            self.complete_cache(records).ids_without_cache() == Seq::<Seq<char>>::empty(),
    {
        let completed = self.complete_cache(records);
        let still = completed.ids_without_cache();
        if still.len() > 0 {
            // A track that still lacks a record is on the list and lacked
            // one before, so it was asked for, and the answer names it.
            let id = still[0];
            self.ids.lemma_filter_pred(unknown_to(completed.cache), 0);
            self.ids.lemma_filter_contains_rev(unknown_to(completed.cache), id);
            let at = choose|at: int| 0 <= at < self.ids.len() && self.ids[at] == id;
            self.ids.lemma_filter_contains(unknown_to(self.cache), at);
            let missing = self.ids_without_cache();
            let asked = choose|asked: int| 0 <= asked < missing.len() && missing[asked] == id;
            assert(named_tracks(records).contains(Some(missing[asked])));
        }
    }

    /// Completing the cache with an answer that holds no record changes
    /// nothing.
    pub proof fn lemma_complete_cache_without_answer(self)
        ensures
            self.complete_cache(Seq::empty()) == self,
    {
        lemma_filed_nothing(self.cache, Seq::empty());
    }

    /// Completing the cache a second time with the same answer changes
    /// nothing.
    pub proof fn lemma_complete_cache_twice(self, records: Seq<MetadataView>)
        ensures
            self.complete_cache(records).complete_cache(records) == self.complete_cache(records),
    {
    }

    /// A track lacks a record exactly when it is on the list and the cache
    /// does not know it; the tracks that lack one come in the order of the
    /// list.
    pub proof fn lemma_ids_without_cache(self)
        ensures
            forall|id: Seq<char>|
                self.ids_without_cache().contains(id) <==> self.ids.contains(id)
                    && !self.cache.contains_key(id),
            self.ids_without_cache().len() == 0 <==> forall|at: int|
                0 <= at < self.ids.len() ==> self.cache.contains_key(#[trigger] self.ids[at]),
    {
        let missing = self.ids_without_cache();
        assert forall|id: Seq<char>| missing.contains(id) <==> self.ids.contains(id)
            && !self.cache.contains_key(id) by {
            if missing.contains(id) {
                self.ids.lemma_filter_contains_rev(unknown_to(self.cache), id);
            }
        }
        if missing.len() == 0 {
            assert forall|at: int| 0 <= at < self.ids.len() implies self.cache.contains_key(
                #[trigger] self.ids[at],
            ) by {
                if !self.cache.contains_key(self.ids[at]) {
                    assert(missing.contains(self.ids[at]));
                }
            }
        } else {
            assert(missing.contains(missing[0]));
        }
    }
}

} // verus!
