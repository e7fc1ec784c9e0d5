//! What can go wrong with a track list.

use vstd::prelude::*;

verus! {

/// A failed exchange with the player over the bus, with the bus's own account
/// of the failure.
#[derive(Debug)]
pub struct DBusError {
    message: String,
}

impl View for DBusError {
    type V = Seq<char>;

    closed spec fn view(&self) -> Seq<char> {
        self.message@
    }
}

impl DBusError {
    /// A failure that the bus describes as `message`.
    pub fn new(message: String) -> (error: DBusError)
        ensures
            error@ == message@,
    {
        DBusError { message }
    }

    /// How the bus describes the failure.
    pub fn message(&self) -> (text: &str)
        ensures
            text@ == self@,
    {
        self.message.as_str()
    }
}

/// TrackList-related errors.
///
/// Mostly a failed exchange with the player. The second kind tells that the
/// metadata cache was in use elsewhere when it had to be written.
#[derive(Debug)]
pub enum TrackListError {
    /// Something went wrong with the D-Bus communication.
    DBusError(DBusError),
    /// The metadata cache could not be had for writing. Every operation that
    /// writes the cache holds its list exclusively, so none of them reports
    /// this.
    BorrowError(String),
}

impl From<DBusError> for TrackListError {
    fn from(error: DBusError) -> (wrapped: TrackListError) {
        TrackListError::DBusError(error)
    }
}

impl vstd::std_specs::convert::FromSpecImpl<DBusError> for TrackListError {
    open spec fn obeys_from_spec() -> bool {
        true
    }

    open spec fn from_spec(error: DBusError) -> TrackListError {
        TrackListError::DBusError(error)
    }
}

} // verus!
