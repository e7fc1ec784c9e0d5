use mpris::{DBusError, Metadata, MetadataIter, TrackID, TrackList, TrackListError};

fn id(text: &str) -> TrackID {
    TrackID::new(text).expect("a valid path")
}

fn drain(iter: &mut MetadataIter) -> Vec<Metadata> {
    let mut all = Vec::new();
    while let Some(record) = iter.next() {
        all.push(record);
    }
    all
}

fn iter_of(list: &mut TrackList, fetched: Vec<Metadata>) -> MetadataIter {
    match list.metadata_iter(Ok(fetched)) {
        Ok(iter) => iter,
        Err(error) => panic!("no iterator: {:?}", error),
    }
}

#[test]
fn a_cached_record_is_handed_out_once() {
    let m1 = Metadata::new("/t/a").with_title("M1");
    let mut list = TrackList::new(vec![id("/t/a"), id("/t/b"), id("/t/a")]);
    list.update_metadata(&id("/t/a"), m1.clone());

    let mut iter = iter_of(&mut list, Vec::new());

    assert_eq!(iter.next(), Some(m1));
    assert_eq!(iter.next(), Some(Metadata::new("/t/b")));
    assert_eq!(iter.next(), Some(Metadata::new("/t/a")));
    assert_eq!(iter.next(), None);
}

#[test]
fn an_exhausted_iterator_stays_exhausted() {
    let mut list = TrackList::new(vec![id("/t/a")]);
    let mut iter = iter_of(&mut list, Vec::new());
    assert_eq!(iter.next(), Some(Metadata::new("/t/a")));
    assert_eq!(iter.next(), None);
    assert_eq!(iter.next(), None);
    assert_eq!(iter.next(), None);
}

#[test]
fn an_empty_list_hands_out_nothing() {
    let mut list = TrackList::new(Vec::new());
    let mut iter = iter_of(&mut list, Vec::new());
    assert_eq!(iter.next(), None);
}

#[test]
fn the_answer_is_filed_before_the_walk() {
    let mut list = TrackList::new(vec![id("/t/a"), id("/t/b")]);
    list.update_metadata(&id("/t/a"), Metadata::new("/t/a").with_title("Cached"));
    let request = list.cache_request();
    assert_eq!(request, Some(vec![id("/t/b")]));

    let mut iter = iter_of(&mut list, vec![Metadata::new("/t/b").with_title("Fetched")]);

    assert_eq!(
        drain(&mut iter),
        vec![
            Metadata::new("/t/a").with_title("Cached"),
            Metadata::new("/t/b").with_title("Fetched"),
        ]
    );
    // The list itself keeps what was fetched.
    assert!(list.ids_without_cache().is_empty());
}

#[test]
fn a_track_that_the_player_left_out_gets_a_plain_record() {
    let mut list = TrackList::new(vec![id("/t/a"), id("/t/b"), id("/t/c")]);
    let mut iter = iter_of(
        &mut list,
        vec![Metadata::new("/t/c").with_title("Fetched"), Metadata::default()],
    );
    assert_eq!(
        drain(&mut iter),
        vec![
            Metadata::new("/t/a"),
            Metadata::new("/t/b"),
            Metadata::new("/t/c").with_title("Fetched"),
        ]
    );
}

#[test]
fn the_iterator_does_not_see_what_happens_to_the_list_later() {
    let mut list = TrackList::new(vec![id("/t/a"), id("/t/b")]);
    list.update_metadata(&id("/t/a"), Metadata::new("/t/a").with_title("Before"));
    let mut iter = iter_of(&mut list, Vec::new());

    list.update_metadata(&id("/t/a"), Metadata::new("/t/a").with_title("After"));
    list.update_metadata(&id("/t/b"), Metadata::new("/t/b").with_title("After"));
    list.remove(&id("/t/b"));
    list.insert(&id("/t/a"), Metadata::new("/t/c"));

    assert_eq!(
        drain(&mut iter),
        vec![Metadata::new("/t/a").with_title("Before"), Metadata::new("/t/b")]
    );
}

#[test]
fn the_walk_does_not_use_up_the_cache_of_the_list() {
    let mut list = TrackList::new(vec![id("/t/a")]);
    list.update_metadata(&id("/t/a"), Metadata::new("/t/a").with_title("Kept"));

    let mut first = iter_of(&mut list, Vec::new());
    assert_eq!(drain(&mut first), vec![Metadata::new("/t/a").with_title("Kept")]);
    assert!(list.ids_without_cache().is_empty());

    let mut second = iter_of(&mut list, Vec::new());
    assert_eq!(drain(&mut second), vec![Metadata::new("/t/a").with_title("Kept")]);
}

#[test]
fn two_iterators_walk_on_their_own() {
    let mut list = TrackList::new(vec![id("/t/a"), id("/t/b")]);
    list.update_metadata(&id("/t/a"), Metadata::new("/t/a").with_title("Cached"));
    let mut one = iter_of(&mut list, Vec::new());
    let mut two = iter_of(&mut list, Vec::new());

    assert_eq!(one.next(), Some(Metadata::new("/t/a").with_title("Cached")));
    assert_eq!(two.next(), Some(Metadata::new("/t/a").with_title("Cached")));
    assert_eq!(one.next(), Some(Metadata::new("/t/b")));
    assert_eq!(one.next(), None);
    assert_eq!(two.next(), Some(Metadata::new("/t/b")));
    assert_eq!(two.next(), None);
}

#[test]
fn a_record_filed_under_another_track_is_handed_out_for_that_place() {
    let mut list = TrackList::new(vec![id("/t/a")]);
    list.update_metadata(&id("/t/a"), Metadata::default().with_title("Orphan"));
    let mut iter = iter_of(&mut list, Vec::new());
    assert_eq!(drain(&mut iter), vec![Metadata::default().with_title("Orphan")]);
}

#[test]
fn metadata_iter_hands_on_the_error_and_leaves_the_list() {
    let mut list = TrackList::new(vec![id("/t/a"), id("/t/b")]);
    list.update_metadata(&id("/t/a"), Metadata::new("/t/a").with_title("Cached"));

    match list.metadata_iter(Err(DBusError::new("no such player".to_string()))) {
        Err(TrackListError::DBusError(error)) => assert_eq!(error.message(), "no such player"),
        Err(other) => panic!("unexpected error: {:?}", other),
        Ok(_) => panic!("an iterator although the player failed"),
    }
    assert_eq!(list.len(), 2);
    assert_eq!(list.cache_request(), Some(vec![id("/t/b")]));
}
