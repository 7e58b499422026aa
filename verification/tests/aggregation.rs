use rivet::library::{count_skipped, load_music, Album, Song};
use rivet::scan::TagFields;
use rivet::ui::{ContextPage, MenuAction, Message};

fn file(title: &str, artist: &str, album: &str) -> Option<TagFields> {
    Some(TagFields {
        title: Some(title.to_string()),
        artist: Some(artist.to_string()),
        album: Some(album.to_string()),
    })
}

fn titles_of(album: &Album) -> Vec<String> {
    album.songs.iter().map(|s| s.title.clone()).collect()
}

#[test]
fn empty_scan_yields_empty_library_and_albums() {
    let files: Vec<Option<TagFields>> = Vec::new();
    let (library, albums) = load_music(&files);
    assert!(library.is_empty());
    assert!(albums.is_empty());
}

#[test]
fn unreadable_files_are_skipped_not_fatal() {
    let files = vec![None, file("One", "A", "X"), file("Two", "A", "X")];
    let (library, albums) = load_music(&files);
    assert_eq!(library.len(), 2);
    assert_eq!(albums.len(), 1);
    assert_eq!(library[0].title, "One");
    assert_eq!(library[1].title, "Two");
}

#[test]
fn skipped_files_are_counted() {
    let files = vec![None, file("One", "A", "X"), None, file("Two", "A", "X")];
    assert_eq!(count_skipped(&files), 2);
    let none_skipped = vec![file("One", "A", "X")];
    assert_eq!(count_skipped(&none_skipped), 0);
    let empty: Vec<Option<TagFields>> = Vec::new();
    assert_eq!(count_skipped(&empty), 0);
}

#[test]
fn tracks_group_into_albums_by_title() {
    let files = vec![
        file("A1", "Ann", "X"),
        file("B1", "Bob", "Y"),
        file("A2", "Ann", "X"),
    ];
    let (library, albums) = load_music(&files);
    assert_eq!(library.len(), 3);
    assert_eq!(albums.len(), 2);
    assert_eq!(albums[0].title, "X");
    assert_eq!(titles_of(&albums[0]), vec!["A1", "A2"]);
    assert_eq!(albums[1].title, "Y");
    assert_eq!(titles_of(&albums[1]), vec!["B1"]);
}

#[test]
fn album_is_seeded_from_first_seen_track() {
    let files = vec![file("A1", "First Artist", "X"), file("A2", "Second Artist", "X")];
    let (_, albums) = load_music(&files);
    assert_eq!(albums.len(), 1);
    assert_eq!(albums[0].artist, "First Artist");
    assert_eq!(albums[0].year, "2020");
}

#[test]
fn album_membership_is_order_independent() {
    let a1 = ("A1", "Ann", "X");
    let b1 = ("B1", "Bob", "Y");
    let a2 = ("A2", "Ann", "X");
    let orders = [
        [a1, b1, a2],
        [a1, a2, b1],
        [b1, a1, a2],
        [b1, a2, a1],
        [a2, a1, b1],
        [a2, b1, a1],
    ];
    for order in orders {
        let files: Vec<Option<TagFields>> =
            order.iter().map(|(t, ar, al)| file(t, ar, al)).collect();
        let (_, albums) = load_music(&files);
        assert_eq!(albums.len(), 2);
        let x = albums.iter().find(|a| a.title == "X").unwrap();
        let y = albums.iter().find(|a| a.title == "Y").unwrap();
        let mut x_titles = titles_of(x);
        x_titles.sort();
        assert_eq!(x_titles, vec!["A1", "A2"]);
        assert_eq!(titles_of(y), vec!["B1"]);
    }
}

#[test]
fn missing_fields_become_unknown_labels_in_the_library() {
    let files = vec![Some(TagFields { title: None, artist: None, album: None })];
    let (library, albums) = load_music(&files);
    assert_eq!(library[0].title, "Unknown Title");
    assert_eq!(library[0].artist, "Unknown Artist");
    assert_eq!(library[0].album, "Unknown Album");
    assert_eq!(albums[0].title, "Unknown Album");
}

#[test]
fn albums_sharing_a_title_merge() {
    let files = vec![file("S1", "Ann", "Same"), file("S2", "Bob", "Same")];
    let (_, albums) = load_music(&files);
    assert_eq!(albums.len(), 1);
    assert_eq!(albums[0].artist, "Ann");
    assert_eq!(titles_of(&albums[0]), vec!["S1", "S2"]);
}

#[test]
fn song_default_is_all_empty() {
    let s = Song::default();
    assert_eq!(s.title, "");
    assert_eq!(s.artist, "");
    assert_eq!(s.album, "");
    assert_eq!(s.year, "");
}

#[test]
fn album_default_has_placeholder_year_and_no_songs() {
    let a = Album::default();
    assert_eq!(a.title, "");
    assert_eq!(a.artist, "");
    assert_eq!(a.year, "2020");
    assert!(a.songs.is_empty());
}

#[test]
fn menu_about_raises_the_context_page_toggle() {
    let action = MenuAction::About;
    let m = action.message();
    assert!(matches!(m, Message::ToggleContextPage(ContextPage::About)));
}

#[test]
fn context_page_defaults_to_about() {
    assert!(matches!(ContextPage::default(), ContextPage::About));
}
