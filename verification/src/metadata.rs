//! What is known about one track.

use crate::extensions::{from_micros_ext, lasts_micros};
use crate::track_id::{is_object_path, TrackID};
use std::time::Duration;
use vstd::prelude::*;

verus! {

/// A metadata record as a plain value: the identifier that the record claims
/// to describe, if any, and what it tells about the track.
#[verifier::ext_equal]
pub struct MetadataView {
    pub track_id: Option<Seq<char>>,
    pub title: Option<Seq<char>>,
    pub length_in_microseconds: Option<u64>,
}

impl MetadataView {
    /// The record that tells nothing and names no track.
    pub open spec fn empty() -> MetadataView {
        MetadataView { track_id: None, title: None, length_in_microseconds: None }
    }

    /// The record that names a track and tells nothing else about it.
    pub open spec fn naming(id: Seq<char>) -> MetadataView {
        MetadataView { track_id: Some(id), title: None, length_in_microseconds: None }
    }

    /// The record that `Metadata::new` makes of a text: one that names the
    /// track when the text is an object path, the empty record otherwise.
    pub open spec fn of_text(text: Seq<char>) -> MetadataView {
        if is_object_path(text) {
            MetadataView::naming(text)
        } else {
            MetadataView::empty()
        }
    }
}

/// The records of a sequence as plain values.
pub open spec fn views_of(records: Seq<Metadata>) -> Seq<MetadataView> {
    records.map_values(|record: Metadata| record@)
}

/// A cache of records as a plain value.
pub open spec fn cache_view(cache: Map<Seq<char>, Metadata>) -> Map<Seq<char>, MetadataView> {
    cache.map_values(|record: Metadata| record@)
}

/// A metadata record: what a player tells about one track.
///
/// A record may name the track that it describes. One that names none cannot
/// be filed under an identifier.
#[derive(Debug, PartialEq, Eq)]
pub struct Metadata {
    track_id: Option<TrackID>,
    title: Option<String>,
    length_in_microseconds: Option<u64>,
}

impl View for Metadata {
    type V = MetadataView;

    closed spec fn view(&self) -> MetadataView {
        MetadataView {
            track_id: match self.track_id {
                Some(id) => Some(id@),
                None => None,
            },
            title: match self.title {
                Some(title) => Some(title@),
                None => None,
            },
            length_in_microseconds: self.length_in_microseconds,
        }
    }
}

impl Metadata {
    /// A record that holds nothing but the identifier spelled by `track_id`.
    /// A text that is no object path names no track, and the record is empty.
    pub fn new(track_id: &str) -> (record: Metadata)
        ensures
            record@ == MetadataView::of_text(track_id@),
    {
        let track_id = match TrackID::new(track_id) {
            Ok(id) => Some(id),
            Err(_) => None,
        };
        Metadata { track_id, title: None, length_in_microseconds: None }
    }

    /// The same record with `title` as the track's title.
    pub fn with_title(self, title: &str) -> (record: Metadata)
        ensures
            record@ == (MetadataView { title: Some(title@), ..self@ }),
    {
        Metadata {
            track_id: self.track_id,
            title: Some(title.to_owned()),
            length_in_microseconds: self.length_in_microseconds,
        }
    }

    /// The same record with `micros` microseconds as the track's length.
    pub fn with_length_in_microseconds(self, micros: u64) -> (record: Metadata)
        ensures
            record@ == (MetadataView { length_in_microseconds: Some(micros), ..self@ }),
    {
        Metadata {
            track_id: self.track_id,
            title: self.title,
            length_in_microseconds: Some(micros),
        }
    }

    /// The identifier of the track that the record claims to describe, if it
    /// names one.
    pub fn track_id(&self) -> (named: Option<TrackID>)
        ensures
            match named {
                Some(id) => self@.track_id == Some(id@),
                None => self@.track_id is None,
            },
    {
        match &self.track_id {
            Some(id) => Some(id.clone()),
            None => None,
        }
    }

    /// The track's title, if the record tells it.
    pub fn title(&self) -> (title: Option<&str>)
        ensures
            match title {
                Some(text) => self@.title == Some(text@),
                None => self@.title is None,
            },
    {
        match &self.title {
            Some(title) => Some(title.as_str()),
            None => None,
        }
    }

    /// The track's length in microseconds, if the record tells it.
    pub fn length_in_microseconds(&self) -> (micros: Option<u64>)
        ensures
            micros == self@.length_in_microseconds,
    {
        self.length_in_microseconds
    }

    /// The track's length as a span of time, if the record tells it.
    pub fn length(&self) -> (length: Option<Duration>)
        ensures
            match length {
                Some(span) => self@.length_in_microseconds is Some && lasts_micros(
                    span,
                    self@.length_in_microseconds->0,
                ),
                None => self@.length_in_microseconds is None,
            },
    {
        match self.length_in_microseconds {
            Some(micros) => Some(from_micros_ext(micros)),
            None => None,
        }
    }
}

impl Default for Metadata {
    fn default() -> (record: Metadata)
        ensures
            record@ == MetadataView::empty(),
    {
        Metadata { track_id: None, title: None, length_in_microseconds: None }
    }
}

impl Clone for Metadata {
    fn clone(&self) -> (copy: Metadata)
        ensures
            copy@ == self@,
    {
        Metadata {
            track_id: match &self.track_id {
                Some(id) => Some(id.clone()),
                None => None,
            },
            title: match &self.title {
                Some(title) => Some(title.clone()),
                None => None,
            },
            length_in_microseconds: self.length_in_microseconds,
        }
    }
}

} // verus!
