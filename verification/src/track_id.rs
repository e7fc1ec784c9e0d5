//! The identity of one track on a track list.

use vstd::prelude::*;

verus! {

/// Whether the bus takes a text as an object path: what `dbus::Path::new` decides
/// of it. The rules of that grammar belong to the bus and are not repeated here.
pub uninterp spec fn is_object_path(text: Seq<char>) -> bool;

/// Hands `raw` to `dbus::Path::new`, which holds it against the grammar of
/// object paths, and keeps only whether the text was taken: `Ok` when it was,
/// the bus library's description of the fault when it was not. The contract
/// claims that this depends on the text alone; of the description it claims
/// nothing.
#[verifier::external_body]
fn check_object_path(raw: &str) -> (taken: Result<(), String>)
    ensures
        taken is Ok <==> is_object_path(raw@),
{
    match dbus::Path::new(raw) {
        Ok(_) => Ok(()),
        Err(description) => Err(description),
    }
}

/// Names one track on a track list.
///
/// A `TrackID` is a text that the bus takes as an object path. It is checked
/// once, when it is made, and never changes afterwards. Two of them are equal
/// when their texts are.
#[derive(Debug, Hash)]
pub struct TrackID(String);

/// The identifiers of a sequence as plain values.
pub open spec fn texts_of(ids: Seq<TrackID>) -> Seq<Seq<char>> {
    ids.map_values(|id: TrackID| id@)
}

/// The identifiers behind a sequence of references as plain values.
pub open spec fn texts_of_borrowed(ids: Seq<&TrackID>) -> Seq<Seq<char>> {
    ids.map_values(|id: &TrackID| id@)
}

impl View for TrackID {
    type V = Seq<char>;

    closed spec fn view(&self) -> Seq<char> {
        self.0@
    }
}

impl TrackID {
    #[verifier::type_invariant]
    spec fn holds_object_path(&self) -> bool {
        is_object_path(self.0@)
    }

    /// Makes a `TrackID` out of a text, if the text is an object path. Any other
    /// text is refused with a description of what is wrong with it.
    pub fn new(id: &str) -> (made: Result<TrackID, String>)
        ensures
            match made {
                Ok(track_id) => is_object_path(id@) && track_id@ == id@,
                Err(_) => !is_object_path(id@),
            },
    {
        match check_object_path(id) {
            Ok(()) => Ok(TrackID(id.to_owned())),
            Err(description) => Err(description),
        }
    }

    /// The text of the identifier, which is always an object path.
    pub fn as_str(&self) -> (text: &str)
        ensures
            text@ == self@,
            is_object_path(text@),
    {
        proof {
            use_type_invariant(self);
        }
        self.0.as_str()
    }
}

impl Clone for TrackID {
    fn clone(&self) -> (copy: TrackID)
        ensures
            copy == *self,
            copy@ == self@,
    {
        proof {
            use_type_invariant(self);
        }
        TrackID(self.0.clone())
    }
}

impl PartialEq for TrackID {
    fn eq(&self, other: &TrackID) -> (same: bool) {
        self.0 == other.0
    }
}

impl vstd::std_specs::cmp::PartialEqSpecImpl for TrackID {
    open spec fn obeys_eq_spec() -> bool {
        true
    }

    open spec fn eq_spec(&self, other: &TrackID) -> bool {
        self@ == other@
    }
}

impl Eq for TrackID {}

impl From<TrackID> for String {
    fn from(id: TrackID) -> (text: String)
        ensures
            text@ == id@,
    {
        id.0
    }
}

impl vstd::std_specs::convert::FromSpecImpl<TrackID> for String {
    open spec fn obeys_from_spec() -> bool {
        true
    }

    closed spec fn from_spec(id: TrackID) -> String {
        id.0
    }
}

impl<'a> From<&'a TrackID> for TrackID {
    fn from(id: &'a TrackID) -> (copy: TrackID)
        ensures
            copy@ == id@,
    {
        id.clone()
    }
}

impl<'a> vstd::std_specs::convert::FromSpecImpl<&'a TrackID> for TrackID {
    open spec fn obeys_from_spec() -> bool {
        true
    }

    open spec fn from_spec(id: &'a TrackID) -> TrackID {
        *id
    }
}

} // verus!
