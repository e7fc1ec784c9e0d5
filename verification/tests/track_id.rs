use mpris::TrackID;

#[test]
fn it_takes_an_object_path() {
    let id = TrackID::new("/org/mpris/MediaPlayer2/TrackList/NoTrack").expect("a valid path");
    assert_eq!(id.as_str(), "/org/mpris/MediaPlayer2/TrackList/NoTrack");
}

#[test]
fn it_takes_the_root_path() {
    let id = TrackID::new("/").expect("the root is a valid path");
    assert_eq!(id.as_str(), "/");
}

#[test]
fn it_refuses_what_is_no_object_path() {
    let result = TrackID::new("invalid track ID");
    assert!(result.is_err());
}

#[test]
fn it_describes_why_a_text_was_refused() {
    let description = TrackID::new("##invalid##").expect_err("no valid path");
    assert!(!description.is_empty());
}

#[test]
fn it_refuses_the_empty_text() {
    assert!(TrackID::new("").is_err());
}

#[test]
fn it_refuses_a_path_that_ends_in_a_slash() {
    assert!(TrackID::new("/dbus/path/").is_err());
}

#[test]
fn it_refuses_a_path_with_an_empty_element() {
    assert!(TrackID::new("/dbus//path").is_err());
}

#[test]
fn it_refuses_a_path_without_a_leading_slash() {
    assert!(TrackID::new("dbus/path").is_err());
}

#[test]
fn ids_are_equal_when_their_texts_are() {
    let one = TrackID::new("/dbus/path/id").expect("a valid path");
    let same = TrackID::new("/dbus/path/id").expect("a valid path");
    let other = TrackID::new("/dbus/path/other").expect("a valid path");
    assert_eq!(one, same);
    assert_ne!(one, other);
    assert!(one == same);
    assert!(!(one == other));
}

#[test]
fn a_clone_is_equal_to_its_source() {
    let one = TrackID::new("/dbus/path/id").expect("a valid path");
    let copy = one.clone();
    assert_eq!(copy, one);
    assert_eq!(copy.as_str(), "/dbus/path/id");
}

#[test]
fn an_id_converts_into_its_text() {
    let id = TrackID::new("/dbus/path/id").expect("a valid path");
    let text = String::from(id);
    assert_eq!(text, "/dbus/path/id");
}

#[test]
fn an_id_is_made_from_a_borrowed_id() {
    let id = TrackID::new("/dbus/path/id").expect("a valid path");
    let copy = TrackID::from(&id);
    assert_eq!(copy, id);
}

#[test]
fn equal_ids_hash_alike() {
    let mut seen = std::collections::HashSet::new();
    seen.insert(TrackID::new("/dbus/path/id").expect("a valid path"));
    assert!(seen.contains(&TrackID::new("/dbus/path/id").expect("a valid path")));
    assert!(!seen.contains(&TrackID::new("/dbus/path/other").expect("a valid path")));
}
