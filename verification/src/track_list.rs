//! The track list itself: the order of the tracks and the cache of their
//! metadata.

use crate::error::{DBusError, TrackListError};
use crate::metadata::{cache_view, views_of, Metadata};
use crate::metadata_iter::{yields, MetadataIter};
use crate::model::{
    filed, is_first_place, lemma_filed_next, lemma_filed_nothing, lemma_paired_next,
    lemma_paired_places, named_tracks, other_than, paired, unknown_to, TrackListView,
};
use crate::sequences::{lemma_contains_next, lemma_filter_next};
use crate::track_id::{texts_of, texts_of_borrowed, TrackID};
use vstd::hash_map::StringHashMap;
use vstd::prelude::*;

verus! {

/// Represents a MediaPlayer2.TrackList: the tracks of a player in playing
/// order, with a cache of their metadata.
///
/// The order is the list's own and never depends on the cache. The cache may
/// lack a record for a track on the list, and may hold one for a track that
/// is not on it.
pub struct TrackList {
    ids: Vec<TrackID>,
    metadata_cache: StringHashMap<Metadata>,
}

impl View for TrackList {
    type V = TrackListView;

    closed spec fn view(&self) -> TrackListView {
        TrackListView {
            ids: texts_of(self.ids@),
            cache: cache_view(self.metadata_cache@),
        }
    }
}

impl Default for TrackList {
    /// The list without tracks and without cache.
    fn default() -> (list: TrackList)
        ensures
            list@ == TrackListView::of_ids(Seq::empty()),
    {
        let ids: Vec<TrackID> = Vec::new();
        TrackList::new(ids)
    }
}

impl From<Vec<TrackID>> for TrackList {
    fn from(ids: Vec<TrackID>) -> (list: TrackList)
        ensures
            list@ == TrackListView::of_ids(texts_of(ids@)),
    {
        TrackList::new(ids)
    }
}

impl vstd::std_specs::convert::FromSpecImpl<Vec<TrackID>> for TrackList {
    /// Two lists can hold the same tracks and the same records and still be
    /// two values, so no spec function stands for the conversion. What it
    /// returns is stated on `from` itself.
    open spec fn obeys_from_spec() -> bool {
        false
    }

    closed spec fn from_spec(ids: Vec<TrackID>) -> TrackList {
        TrackList {
            ids,
            metadata_cache: choose|cache: StringHashMap<Metadata>|
                cache@ == Map::<Seq<char>, Metadata>::empty(),
        }
    }
}

impl TrackList {
    /// Construct a new TrackList without any existing cache.
    pub fn new(ids: Vec<TrackID>) -> (list: TrackList)
        ensures
            list@ == TrackListView::of_ids(texts_of(ids@)),
    {
        let list = TrackList { metadata_cache: StringHashMap::with_capacity(ids.len()), ids };
        list
    }

    /// Get a list of TrackIDs that are part of this TrackList. The order matters.
    pub fn ids(&self) -> (ids: Vec<&TrackID>)
        ensures
            texts_of_borrowed(ids@) == self@.ids,
    {
        let mut ids: Vec<&TrackID> = Vec::with_capacity(self.ids.len());
        let mut index: usize = 0;
        while index < self.ids.len()
            invariant
                index <= self.ids.len(),
                ids.len() == index,
                forall|at: int| 0 <= at < index ==> (#[trigger] ids@[at])@ == self@.ids[at],
            decreases self.ids.len() - index,
        {
            ids.push(&self.ids[index]);
            index += 1;
        }
        ids
    }

    /// Returns the number of tracks on the list.
    pub fn len(&self) -> (len: usize)
        ensures
            len == self@.ids.len(),
    {
        self.ids.len()
    }

    /// Insert a new track after another one. If the provided ID cannot be found on the list, it
    /// will be inserted at the end.
    ///
    /// The track is the one that `metadata` names, and `metadata` becomes its
    /// cached record. Metadata that names no track is dropped and the list
    /// is left as it is.
    pub fn insert(&mut self, after: &TrackID, metadata: Metadata)
        ensures
            final(self)@ == old(self)@.insert(after@, metadata@),
            metadata@.track_id is None ==> final(self)@ == old(self)@,
            metadata@.track_id is Some ==> final(self)@.cache == old(self)@.cache.insert(
                metadata@.track_id->0,
                metadata@,
            ),
            metadata@.track_id is Some && !old(self)@.ids.contains(after@) ==> final(self)@.ids
                == old(self)@.ids.push(metadata@.track_id->0),
            metadata@.track_id is Some ==> forall|first: int|
                is_first_place(old(self)@.ids, after@, first) ==> final(self)@.ids == old(
                    self,
                )@.ids.insert(first + 1, metadata@.track_id->0),
    {
        let new_id = match metadata.track_id() {
            Some(id) => id,
            None => return ,
        };
        let mut index: usize = 0;
        while index < self.ids.len() && !(self.ids[index] == *after)
            invariant
                index <= self.ids.len(),
                *self == *old(self),
                forall|earlier: int| 0 <= earlier < index ==> self@.ids[earlier] != after@,
            decreases self.ids.len() - index,
        {
            index += 1;
        }
        proof {
            old(self)@.ids.index_of_first_ensures(after@);
            if index < self.ids.len() {
                assert(self@.ids[index as int] == after@);
            }
        }
        // Vec::insert inserts BEFORE the given index, but we need to insert *after* the index.
        if index >= self.ids.len() {
            self.ids.push(new_id.clone());
        } else {
            self.ids.insert(index + 1, new_id.clone());
        }
        self.metadata_cache.insert(String::from(new_id), metadata);
    }

    /// Removes a track from the list and metadata cache.
    ///
    /// The track leaves every place at which it stood; the other tracks keep
    /// their order. A track that is not on the list is no error.
    pub fn remove(&mut self, id: &TrackID)
        ensures
            final(self)@ == old(self)@.remove(id@),
            !final(self)@.ids.contains(id@),
            !final(self)@.cache.contains_key(id@),
    {
        let mut all: Vec<TrackID> = Vec::new();
        std::mem::swap(&mut self.ids, &mut all);
        let ghost before = old(self)@.ids;
        for existing_id in listed: all
            invariant
                listed.seq() == all@,
                before == texts_of(all@),
                self.metadata_cache == old(self).metadata_cache,
                texts_of(self.ids@) == before.take(listed.index() as int).filter(other_than(id@)),
        {
            proof {
                lemma_filter_next(before, other_than(id@), listed.index() as int);
            }
            if !(existing_id == *id) {
                self.ids.push(existing_id);
            }
        }
        assert(before.take(all@.len() as int) =~= before);
        self.metadata_cache.remove(id.as_str());
    }

    /// Replace the contents with the contents of the provided list. Cache will be reused when
    /// possible.
    ///
    /// Nothing leaves the cache: records of tracks that are not on the new
    /// list stay where they are.
    pub fn replace(&mut self, other: TrackList)
        ensures
            final(self)@ == old(self)@.replace(other@),
            final(self)@.ids == other@.ids,
            forall|id: Seq<char>|
                old(self)@.cache.contains_key(id) ==> final(self)@.cache.contains_key(id),
    {
        self.ids = other.ids;
        // Will overwrite existing keys = cache in "other" will win on conflict.
        self.metadata_cache.union_prefer_right(other.metadata_cache);
    }

    /// Updates the metadata cache for the given `TrackID`.
    ///
    /// The metadata will be added to the cache even if the `TrackID` isn't part of the list, but
    /// will be cleaned out again after the next cache cleanup unless the track in question have
    /// been added to the list before then.
    pub fn update_metadata(&mut self, id: &TrackID, metadata: Metadata)
        ensures
            final(self)@ == old(self)@.update_metadata(id@, metadata@),
    {
        self.metadata_cache.insert(String::from(id.clone()), metadata);
    }

    /// Reloads the tracklist from the player's answer to the question which
    /// tracks it has. This can be compared with loading a new track list, but
    /// in this case the metadata cache can be maintained for tracks that remain
    /// on the list.
    ///
    /// Cache for tracks that are no longer part of the player's tracklist will be removed.
    /// Where the player failed to answer, its error is handed on and the list
    /// stays as it is.
    pub fn reload(&mut self, fetched: Result<Vec<TrackID>, DBusError>) -> (outcome: Result<
        (),
        TrackListError,
    >)
        ensures
            match fetched {
                Ok(ids) => outcome is Ok && final(self)@ == old(self)@.reload(texts_of(ids@)),
                Err(error) => outcome == Err::<(), TrackListError>(
                    TrackListError::DBusError(error),
                ) && final(self)@ == old(self)@,
            },
            fetched is Ok ==> forall|id: Seq<char>|
                final(self)@.cache.contains_key(id) <==> final(self)@.ids.contains(id) && old(
                    self,
                )@.cache.contains_key(id),
    {
        match fetched {
            Ok(ids) => {
                self.ids = ids;
                self.clear_extra_cache();
                Ok(())
            },
            Err(error) => Err(TrackListError::from(error)),
        }
    }

    /// Clears all cache and takes the player's answer to the question what it
    /// knows about the tracks of the list, place by place, as the new cache.
    ///
    /// Cache will be replaced *after* the new metadata has been loaded, so on load errors the
    /// cache will still be maintained.
    pub fn reload_cache(&mut self, fetched: Result<Vec<Metadata>, DBusError>) -> (outcome: Result<
        (),
        TrackListError,
    >)
        ensures
            match fetched {
                Ok(records) => outcome is Ok && final(self)@ == old(self)@.reload_cache(
                    views_of(records@),
                ),
                Err(error) => outcome == Err::<(), TrackListError>(
                    TrackListError::DBusError(error),
                ) && final(self)@ == old(self)@,
            },
    {
        let records = match fetched {
            Ok(records) => records,
            Err(error) => return Err(TrackListError::from(error)),
        };
        let ghost sent = views_of(records@);
        let mut cache: StringHashMap<Metadata> = StringHashMap::new();
        let mut index: usize = 0;
        for record in answers: records
            invariant
                index <= self.ids.len(),
                index <= answers.index(),
                index == answers.index() || index == self.ids.len(),
                answers.seq() == records@,
                sent == views_of(records@),
                *self == *old(self),
                cache_view(cache@) == paired(
                    self@.ids.take(index as int),
                    sent.take(index as int),
                ),
        {
            if index < self.ids.len() {
                proof {
                    lemma_paired_next(self@.ids, sent, index as int);
                }
                cache.insert(String::from(self.ids[index].clone()), record);
                index += 1;
            }
        }
        proof {
            lemma_paired_places(self@.ids, sent);
            if index == self.ids.len() {
                assert(self@.ids.take(index as int) =~= self@.ids);
            } else {
                assert(sent.take(index as int) =~= sent);
            }
        }
        self.metadata_cache = cache;
        Ok(())
    }

    /// Files what the player answered when asked about the tracks that have
    /// no cached record, so that each track on the list has a cached Metadata entry.
    ///
    /// Each record goes under the track that it names; one that names no
    /// track is dropped. Where the player failed to answer, its error is
    /// handed on and the cache stays as it is.
    pub fn complete_cache(&mut self, fetched: Result<Vec<Metadata>, DBusError>) -> (outcome: Result<
        (),
        TrackListError,
    >)
        ensures
            match fetched {
                Ok(records) => outcome is Ok && final(self)@ == old(self)@.complete_cache(
                    views_of(records@),
                ),
                Err(error) => outcome == Err::<(), TrackListError>(
                    TrackListError::DBusError(error),
                ) && final(self)@ == old(self)@,
            },
            fetched matches Ok(records) && (forall|at: int|
                0 <= at < old(self)@.ids_without_cache().len() ==> named_tracks(
                    views_of(records@),
                ).contains(Some(#[trigger] old(self)@.ids_without_cache()[at])))
                ==> final(self)@.ids_without_cache().len() == 0,
    {
        let records = match fetched {
            Ok(records) => records,
            Err(error) => return Err(TrackListError::from(error)),
        };
        let ghost sent = views_of(records@);
        proof {
            if forall|at: int|
                0 <= at < self@.ids_without_cache().len() ==> named_tracks(sent).contains(
                    Some(#[trigger] self@.ids_without_cache()[at]),
                ) {
                self@.lemma_complete_cache_leaves_nothing_to_fetch(sent);
            }
            lemma_filed_nothing(self@.cache, sent.take(0));
        }
        for info in answers: records
            invariant
                answers.seq() == records@,
                sent == views_of(records@),
                self@.ids == old(self)@.ids,
                self@.cache == filed(old(self)@.cache, sent.take(answers.index() as int)),
        {
            proof {
                lemma_filed_next(old(self)@.cache, sent, answers.index() as int);
            }
            match info.track_id() {
                Some(id) => {
                    self.metadata_cache.insert(String::from(id), info);
                },
                None => {},
            }
        }
        assert(sent.take(records@.len() as int) =~= sent);
        Ok(())
    }

    /// The tracks on the list that have no cached record, in the order of the
    /// list.
    pub fn ids_without_cache(&self) -> (ids: Vec<&TrackID>)
        ensures
            texts_of_borrowed(ids@) == self@.ids_without_cache(),
    {
        let mut missing: Vec<&TrackID> = Vec::new();
        let mut index: usize = 0;
        while index < self.ids.len()
            invariant
                index <= self.ids.len(),
                texts_of_borrowed(missing@) == self@.ids.take(index as int).filter(
                    unknown_to(self@.cache),
                ),
            decreases self.ids.len() - index,
        {
            proof {
                lemma_filter_next(self@.ids, unknown_to(self@.cache), index as int);
            }
            let id = &self.ids[index];
            if !self.metadata_cache.contains_key(id.as_str()) {
                missing.push(id);
            }
            index += 1;
        }
        assert(self@.ids.take(index as int) =~= self@.ids);
        missing
    }

    /// Drops the cached record of every track that is not on the list.
    pub fn clear_extra_cache(&mut self)
        ensures
            final(self)@ == old(self)@.clear_extra_cache(),
    {
        // Only ids on the list are present in the copy that replaces the cache.
        self.metadata_cache = self.cache_of_listed();
    }

    /// A copy of the part of the cache that tells about tracks on the list.
    fn cache_of_listed(&self) -> (kept: StringHashMap<Metadata>)
        ensures
            cache_view(kept@) == self@.cache.restrict(
                self@.ids.to_set(),
            ),
    {
        let mut kept: StringHashMap<Metadata> = StringHashMap::new();
        let mut index: usize = 0;
        while index < self.ids.len()
            invariant
                index <= self.ids.len(),
                cache_view(kept@) == self@.cache.restrict(
                    self@.ids.take(index as int).to_set(),
                ),
            decreases self.ids.len() - index,
        {
            let id = &self.ids[index];
            let ghost before = cache_view(kept@);
            let ghost fewer = self@.ids.take(index as int).to_set();
            let ghost more = self@.ids.take(index + 1).to_set();
            proof {
                assert forall|other: Seq<char>| #[trigger]
                    more.contains(other) <==> fewer.contains(other) || other == id@ by {
                    lemma_contains_next(self@.ids, index as int, other);
                }
            }
            match self.metadata_cache.get(id.as_str()) {
                Some(record) => {
                    kept.insert(String::from(id.clone()), record.clone());
                    assert(cache_view(kept@) =~= before.insert(
                        id@,
                        self@.cache[id@],
                    ));
                },
                None => {},
            }
            index += 1;
        }
        assert(self@.ids.take(index as int) =~= self@.ids);
        kept
    }

    /// The tracks to ask the player about, so that its answer can complete
    /// the cache: those without a cached record, in the order of the list.
    /// `None` when every track on the list has its record, and there is
    /// nothing to ask.
    pub fn cache_request(&self) -> (request: Option<Vec<TrackID>>)
        ensures
            match request {
                Some(ids) => ids.len() > 0 && texts_of(ids@) == self@.ids_without_cache(),
                None => self@.ids_without_cache().len() == 0,
            },
    {
        let missing = self.ids_without_cache();
        if missing.len() == 0 {
            return None;
        }
        let mut ids: Vec<TrackID> = Vec::with_capacity(missing.len());
        let mut index: usize = 0;
        while index < missing.len()
            invariant
                index <= missing.len(),
                ids.len() == index,
                forall|at: int| 0 <= at < index ==> (#[trigger] ids@[at])@ == missing@[at]@,
            decreases missing.len() - index,
        {
            ids.push(missing[index].clone());
            index += 1;
        }
        Some(ids)
    }

    /// Iterates the tracks in the tracklist, returning the Metadata of each
    /// track, in the order of the list.
    ///
    /// The player's answer to `cache_request` is filed first, as
    /// `complete_cache` files it. The iterator then works on a copy of the
    /// list as it stands, and nothing done to the list later shows in it.
    /// Where the player failed to answer, its error is handed on.
    pub fn metadata_iter(&mut self, fetched: Result<Vec<Metadata>, DBusError>) -> (outcome: Result<
        MetadataIter,
        TrackListError,
    >)
        ensures
            match fetched {
                Ok(records) => {
                    &&& final(self)@ == old(self)@.complete_cache(views_of(records@))
                    &&& outcome matches Ok(iter) && iter@ == yields(
                        final(self)@.ids,
                        final(self)@.cache,
                    )
                },
                Err(error) => {
                    &&& final(self)@ == old(self)@
                    &&& outcome matches Err(TrackListError::DBusError(handed_on)) && handed_on
                        == error
                },
            },
    {
        match self.complete_cache(fetched) {
            Ok(()) => {},
            Err(error) => return Err(error),
        }
        let order = self.clone_ids();
        let metadata = self.cache_of_listed();
        Ok(MetadataIter::new(order, metadata))
    }

    /// A copy of the order of the list.
    fn clone_ids(&self) -> (ids: Vec<TrackID>)
        ensures
            texts_of(ids@) == self@.ids,
    {
        let mut ids: Vec<TrackID> = Vec::with_capacity(self.ids.len());
        let mut index: usize = 0;
        while index < self.ids.len()
            invariant
                index <= self.ids.len(),
                ids.len() == index,
                forall|at: int| 0 <= at < index ==> (#[trigger] ids@[at])@ == self@.ids[at],
            decreases self.ids.len() - index,
        {
            ids.push(self.ids[index].clone());
            index += 1;
        }
        ids
    }
}

} // verus!
