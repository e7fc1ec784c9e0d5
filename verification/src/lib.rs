//! The track list of a remote media player: the identifiers of its tracks in
//! playing order, and a cache of what is known about each of them.
//!
//! Nothing here talks to a player. Whatever a player answers is handed in as a
//! plain value, and every operation says in its contract what it makes of it.

pub mod error;
pub mod extensions;
pub mod laws;
pub mod metadata;
pub mod metadata_iter;
pub mod model;
mod sequences;
pub mod track_id;
pub mod track_list;

pub use crate::error::{DBusError, TrackListError};
pub use crate::metadata::{Metadata, MetadataView};
pub use crate::metadata_iter::MetadataIter;
pub use crate::model::TrackListView;
pub use crate::track_id::TrackID;
pub use crate::track_list::TrackList;
