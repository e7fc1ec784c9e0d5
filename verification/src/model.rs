//! The track list as a plain value: what each operation makes of a list, said
//! without any of the machinery that holds the list in memory.

use crate::metadata::MetadataView;
use crate::sequences::{lemma_contains_next, lemma_index_of_last_next};
use vstd::prelude::*;

verus! {

/// A track list as a plain value.
///
/// `ids` is the order of the tracks; the same track may stand in it more than
/// once. `cache` holds what is known about tracks, by identifier. The two are
/// independent: a track on the list may have no record, and a record may be
/// kept for a track that is not on the list.
#[verifier::ext_equal]
pub struct TrackListView {
    pub ids: Seq<Seq<char>>,
    pub cache: Map<Seq<char>, MetadataView>,
}

/// Where a new identifier goes when it is to follow `after`: right behind the
/// first place at which `after` stands, or at the end when it stands nowhere.
pub open spec fn slot_after(ids: Seq<Seq<char>>, after: Seq<char>) -> int {
    match ids.index_of_first(after) {
        Some(first) => first + 1,
        None => ids.len() as int,
    }
}

/// The test that every identifier but `id` passes.
pub open spec fn other_than(id: Seq<char>) -> spec_fn(Seq<char>) -> bool {
    |other: Seq<char>| other != id
}

/// The test that an identifier passes when `cache` has no record for it.
pub open spec fn unknown_to(cache: Map<Seq<char>, MetadataView>) -> spec_fn(Seq<char>) -> bool {
    |id: Seq<char>| !cache.contains_key(id)
}

/// The identifiers that a sequence of records names, place by place.
pub open spec fn named_tracks(records: Seq<MetadataView>) -> Seq<Option<Seq<char>>> {
    records.map_values(|record: MetadataView| record.track_id)
}

/// The cache that is left when `records` are filed in `cache`, one after the
/// other, each under the identifier that it names.
///
/// A record that names no track is filed nowhere. For a track that several
/// records name, the last of them stays. A track that no record names keeps
/// what the cache had for it.
pub open spec fn filed(cache: Map<Seq<char>, MetadataView>, records: Seq<MetadataView>) -> Map<
    Seq<char>,
    MetadataView,
> {
    let named = named_tracks(records);
    Map::new(
        |id: Seq<char>| cache.contains_key(id) || named.contains(Some(id)),
        |id: Seq<char>|
            match named.index_of_last(Some(id)) {
                Some(at) => records[at],
                None => cache[id],
            },
    )
}

/// The cache that pairs identifiers and records place by place.
///
/// Only the places that both sequences have are paired. For an identifier
/// that stands at several of them, the record of the last such place stays.
pub open spec fn paired(ids: Seq<Seq<char>>, records: Seq<MetadataView>) -> Map<
    Seq<char>,
    MetadataView,
> {
    let places = if ids.len() <= records.len() {
        ids.len() as int
    } else {
        records.len() as int
    };
    let keys = ids.take(places);
    Map::new(
        |id: Seq<char>| keys.contains(id),
        |id: Seq<char>| records[keys.index_of_last(id).unwrap()],
    )
}

/// Whether `at` is the first place on `ids` at which `id` stands.
pub open spec fn is_first_place(ids: Seq<Seq<char>>, id: Seq<char>, at: int) -> bool {
    &&& 0 <= at < ids.len()
    &&& ids[at] == id
    &&& forall|earlier: int| 0 <= earlier < at ==> ids[earlier] != id
}

impl TrackListView {
    /// The list with these tracks and nothing known about them.
    pub open spec fn of_ids(ids: Seq<Seq<char>>) -> TrackListView {
        TrackListView { ids, cache: Map::empty() }
    }

    /// The list after `record` was inserted behind `after`.
    ///
    /// A record that names no track changes nothing. Otherwise the track
    /// that it names takes the slot behind `after`, and the record replaces
    /// whatever was known about that track.
    pub open spec fn insert(self, after: Seq<char>, record: MetadataView) -> TrackListView {
        match record.track_id {
            None => self,
            Some(id) => TrackListView {
                ids: self.ids.insert(slot_after(self.ids, after), id),
                cache: self.cache.insert(id, record),
            },
        }
    }

    /// The list after every place at which `id` stood was taken out of the
    /// order, and its record out of the cache.
    pub open spec fn remove(self, id: Seq<char>) -> TrackListView {
        TrackListView {
            ids: self.ids.filter(other_than(id)),
            cache: self.cache.remove(id),
        }
    }

    /// The list after its order gave way to that of `other`. The cache keeps
    /// all that it had and takes all that `other` has cached; where both know
    /// a track, the record of `other` stays.
    pub open spec fn replace(self, other: TrackListView) -> TrackListView {
        TrackListView { ids: other.ids, cache: self.cache.union_prefer_right(other.cache) }
    }

    /// The list after `record` was filed under `id`, whether or not `id` is
    /// on the list.
    pub open spec fn update_metadata(self, id: Seq<char>, record: MetadataView) -> TrackListView {
        TrackListView { ids: self.ids, cache: self.cache.insert(id, record) }
    }

    /// The list without the records of tracks that are not on it.
    pub open spec fn clear_extra_cache(self) -> TrackListView {
        TrackListView { ids: self.ids, cache: self.cache.restrict(self.ids.to_set()) }
    }

    /// The list after the player reported `ids` as its tracks: the order is
    /// the reported one, and only tracks in it keep their records.
    pub open spec fn reload(self, ids: Seq<Seq<char>>) -> TrackListView {
        (TrackListView { ids, cache: self.cache }).clear_extra_cache()
    }

    /// The list after the player sent `records` for the tracks of the list,
    /// place by place: the cache holds these pairs and nothing else.
    pub open spec fn reload_cache(self, records: Seq<MetadataView>) -> TrackListView {
        TrackListView { ids: self.ids, cache: paired(self.ids, records) }
    }

    /// The tracks on the list that have no record in the cache, in the order
    /// of the list.
    pub open spec fn ids_without_cache(self) -> Seq<Seq<char>> {
        self.ids.filter(unknown_to(self.cache))
    }

    /// The list after `records` were filed in its cache, each under the
    /// track that it names.
    pub open spec fn complete_cache(self, records: Seq<MetadataView>) -> TrackListView {
        TrackListView { ids: self.ids, cache: filed(self.cache, records) }
    }
}

/// Pairing one more place files the record of that place under its
/// identifier.
pub proof fn lemma_paired_next(ids: Seq<Seq<char>>, records: Seq<MetadataView>, done: int)
    requires
        0 <= done < ids.len(),
        done < records.len(),
    ensures
        paired(ids.take(done + 1), records.take(done + 1)) == paired(
            ids.take(done),
            records.take(done),
        ).insert(ids[done], records[done]),
{
    let more = paired(ids.take(done + 1), records.take(done + 1));
    let fewer = paired(ids.take(done), records.take(done));
    assert(ids.take(done + 1).take(done + 1) =~= ids.take(done + 1));
    assert(ids.take(done).take(done) =~= ids.take(done));
    assert forall|id: Seq<char>|
        more.contains_key(id) == fewer.insert(ids[done], records[done]).contains_key(id) by {
        lemma_contains_next(ids, done, id);
    }
    assert forall|id: Seq<char>| more.contains_key(id) implies more[id] == fewer.insert(
        ids[done],
        records[done],
    )[id] by {
        lemma_index_of_last_next(ids, done, id);
        ids.take(done).index_of_last_ensures(id);
    }
}

/// Pairing looks at no other places than those that both sequences have.
pub proof fn lemma_paired_places(ids: Seq<Seq<char>>, records: Seq<MetadataView>)
    ensures
        ids.len() <= records.len() ==> paired(ids, records) == paired(
            ids,
            records.take(ids.len() as int),
        ),
        records.len() <= ids.len() ==> paired(ids, records) == paired(
            ids.take(records.len() as int),
            records,
        ),
{
    if ids.len() <= records.len() {
        let fewer = records.take(ids.len() as int);
        assert forall|id: Seq<char>| paired(ids, records).contains_key(id) implies paired(
            ids,
            records,
        )[id] == paired(ids, fewer)[id] by {
            ids.take(ids.len() as int).index_of_last_ensures(id);
        }
    }
    if records.len() <= ids.len() {
        let fewer = ids.take(records.len() as int);
        assert(fewer.take(records.len() as int) =~= fewer);
    }
}

/// Filing nothing leaves the cache as it is.
pub proof fn lemma_filed_nothing(cache: Map<Seq<char>, MetadataView>, records: Seq<MetadataView>)
    requires
        records.len() == 0,
    ensures
        filed(cache, records) == cache,
{
    assert forall|id: Seq<char>| cache.contains_key(id) implies filed(cache, records)[id]
        == cache[id] by {
        named_tracks(records).index_of_last_ensures(Some(id));
    }
}

/// Filing one more record files it under the track that it names, if it
/// names one.
pub proof fn lemma_filed_next(
    cache: Map<Seq<char>, MetadataView>,
    records: Seq<MetadataView>,
    done: int,
)
    requires
        0 <= done < records.len(),
    ensures
        filed(cache, records.take(done + 1)) == match records[done].track_id {
            Some(id) => filed(cache, records.take(done)).insert(id, records[done]),
            None => filed(cache, records.take(done)),
        },
{
    let more = filed(cache, records.take(done + 1));
    let fewer = filed(cache, records.take(done));
    let next = match records[done].track_id {
        Some(id) => fewer.insert(id, records[done]),
        None => fewer,
    };
    let named = named_tracks(records);
    assert(named_tracks(records.take(done + 1)) =~= named.take(done + 1));
    assert(named_tracks(records.take(done)) =~= named.take(done));
    assert forall|id: Seq<char>| more.contains_key(id) == next.contains_key(id) by {
        lemma_contains_next(named, done, Some(id));
    }
    assert forall|id: Seq<char>| more.contains_key(id) implies more[id] == next[id] by {
        lemma_index_of_last_next(named, done, Some(id));
        named.take(done).index_of_last_ensures(Some(id));
    }
}

} // verus!
