use rivet::scan::{
    extract_metadata, extract_artwork, has_audio_extension, scan_music_files, select_artwork,
    FileEntry, Picture, TagFields,
};

fn entry(path: &str, is_file: bool, extension: Option<&str>) -> FileEntry {
    FileEntry {
        path: path.to_string(),
        is_file,
        extension: extension.map(|e| e.to_string()),
    }
}

#[test]
fn recognises_audio_extensions() {
    for ext in ["mp3", "flac", "ogg", "wav", "m4a", "opus"] {
        assert!(has_audio_extension(ext));
    }
    assert!(!has_audio_extension("txt"));
    assert!(!has_audio_extension("jpg"));
    assert!(!has_audio_extension(""));
}

#[test]
fn extension_match_is_case_sensitive() {
    assert!(!has_audio_extension("MP3"));
    assert!(!has_audio_extension("Flac"));
}

#[test]
fn scan_keeps_audio_files_in_order() {
    let entries = vec![
        entry("/m/a.mp3", true, Some("mp3")),
        entry("/m/notes.txt", true, Some("txt")),
        entry("/m/b.flac", true, Some("flac")),
        entry("/m/sub", false, None),
        entry("/m/c.ogg", true, Some("ogg")),
    ];
    let paths = scan_music_files(&entries);
    assert_eq!(paths, vec!["/m/a.mp3", "/m/b.flac", "/m/c.ogg"]);
}

#[test]
fn scan_skips_directories_even_with_audio_extension() {
    let entries = vec![entry("/m/odd.mp3", false, Some("mp3"))];
    let paths = scan_music_files(&entries);
    assert!(paths.is_empty());
}

#[test]
fn scan_skips_entries_without_extension() {
    let entries = vec![entry("/m/README", true, None)];
    let paths = scan_music_files(&entries);
    assert!(paths.is_empty());
}

#[test]
fn scan_of_no_entries_is_empty() {
    let entries: Vec<FileEntry> = Vec::new();
    let paths = scan_music_files(&entries);
    assert!(paths.is_empty());
}

fn tags(title: Option<&str>, artist: Option<&str>, album: Option<&str>) -> TagFields {
    TagFields {
        title: title.map(|s| s.to_string()),
        artist: artist.map(|s| s.to_string()),
        album: album.map(|s| s.to_string()),
    }
}

#[test]
fn present_fields_are_kept_verbatim() {
    let t = tags(Some("  Song One "), Some("Artist!"), Some("Album X"));
    let (title, artist, album) = extract_metadata(&t);
    assert_eq!(title, "  Song One ");
    assert_eq!(artist, "Artist!");
    assert_eq!(album, "Album X");
}

#[test]
fn absent_fields_get_their_defaults() {
    let t = tags(None, None, None);
    let (title, artist, album) = extract_metadata(&t);
    assert_eq!(title, "Unknown Title");
    assert_eq!(artist, "Unknown Artist");
    assert_eq!(album, "Unknown Album");
}

#[test]
fn empty_fields_get_their_defaults() {
    let t = tags(Some(""), Some(""), Some(""));
    let (title, artist, album) = extract_metadata(&t);
    assert_eq!(title, "Unknown Title");
    assert_eq!(artist, "Unknown Artist");
    assert_eq!(album, "Unknown Album");
}

#[test]
fn mixed_fields_default_independently() {
    let t = tags(Some("Named"), None, Some(""));
    let (title, artist, album) = extract_metadata(&t);
    assert_eq!(title, "Named");
    assert_eq!(artist, "Unknown Artist");
    assert_eq!(album, "Unknown Album");
}

/// A valid PNG whose pixel makes its bytes distinguishable from the others.
fn png_bytes(shade: u8) -> Vec<u8> {
    let mut img = image::RgbImage::new(1, 1);
    img.put_pixel(0, 0, image::Rgb([shade, shade, shade]));
    let mut buf = std::io::Cursor::new(Vec::new());
    image::DynamicImage::ImageRgb8(img)
        .write_to(&mut buf, image::ImageFormat::Png)
        .unwrap();
    buf.into_inner()
}

fn pic(is_front_cover: bool, data: Vec<u8>) -> Picture {
    Picture { is_front_cover, data }
}

#[test]
fn front_cover_beats_other_pictures() {
    let front = png_bytes(10);
    let other = png_bytes(200);
    let pictures = vec![pic(false, other.clone()), pic(true, front.clone())];
    let got = extract_artwork(&pictures, &None);
    assert_eq!(got, Some(front));
}

#[test]
fn first_picture_is_used_when_no_front_cover() {
    let a = png_bytes(1);
    let b = png_bytes(2);
    let pictures = vec![pic(false, a.clone()), pic(false, b)];
    let got = extract_artwork(&pictures, &None);
    assert_eq!(got, Some(a));
}

#[test]
fn sibling_cover_is_used_when_no_pictures() {
    let cover = png_bytes(77);
    let pictures: Vec<Picture> = Vec::new();
    let got = extract_artwork(&pictures, &Some(cover.clone()));
    assert_eq!(got, Some(cover));
}

#[test]
fn no_pictures_and_no_sibling_yields_none() {
    let pictures: Vec<Picture> = Vec::new();
    let got = extract_artwork(&pictures, &None);
    assert_eq!(got, None);
}

#[test]
fn undecodable_front_cover_falls_back() {
    let junk = vec![0u8, 1, 2, 3];
    let other = png_bytes(33);
    let pictures = vec![pic(false, other.clone()), pic(true, junk)];
    let got = extract_artwork(&pictures, &None);
    assert_eq!(got, Some(other));
}

#[test]
fn undecodable_pictures_fall_back_to_sibling() {
    let junk = vec![9u8; 16];
    let cover = png_bytes(120);
    let pictures = vec![pic(true, junk)];
    let got = extract_artwork(&pictures, &Some(cover.clone()));
    assert_eq!(got, Some(cover));
}

#[test]
fn nothing_decodable_yields_none() {
    let junk = vec![0u8; 8];
    let pictures = vec![pic(false, junk.clone())];
    let got = extract_artwork(&pictures, &Some(junk));
    assert_eq!(got, None);
}

#[test]
fn select_prefers_decodable_front_cover() {
    let pictures = vec![pic(false, vec![1u8]), pic(true, vec![2u8])];
    let got = select_artwork(&pictures, &vec![true, true], &Some(vec![3u8]), true);
    assert_eq!(got, Some(vec![2u8]));
}

#[test]
fn select_falls_back_to_first_picture() {
    let pictures = vec![pic(false, vec![1u8]), pic(true, vec![2u8])];
    let got = select_artwork(&pictures, &vec![true, false], &Some(vec![3u8]), true);
    assert_eq!(got, Some(vec![1u8]));
}

#[test]
fn select_falls_back_to_sibling() {
    let pictures = vec![pic(false, vec![1u8]), pic(true, vec![2u8])];
    let got = select_artwork(&pictures, &vec![false, false], &Some(vec![3u8]), true);
    assert_eq!(got, Some(vec![3u8]));
}

#[test]
fn select_with_no_decodable_source_yields_none() {
    let pictures = vec![pic(true, vec![2u8])];
    let got = select_artwork(&pictures, &vec![false], &Some(vec![3u8]), false);
    assert_eq!(got, None);
}

#[test]
fn select_uses_sibling_when_no_pictures() {
    let pictures: Vec<Picture> = Vec::new();
    let got = select_artwork(&pictures, &Vec::new(), &Some(vec![3u8]), true);
    assert_eq!(got, Some(vec![3u8]));
}
