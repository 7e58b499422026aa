//! Per-file scanning logic: recognising audio files among directory entries,
//! reading tag fields with well-defined defaults, and choosing album artwork
//! by a fixed priority.

use vstd::prelude::*;

verus! {

// ------------------------------------------------------------------
// Recognising audio files
// ------------------------------------------------------------------

/// The lower-case extensions this library treats as audio files.
pub open spec fn is_audio_ext(ext: Seq<char>) -> bool {
    ||| ext == "mp3"@
    ||| ext == "flac"@
    ||| ext == "ogg"@
    ||| ext == "wav"@
    ||| ext == "m4a"@
    ||| ext == "opus"@
}

/// Relies on str::eq: two string slices compare equal exactly when their
/// character sequences are equal.
#[verifier::external_body]
fn str_eq(a: &str, b: &str) -> (r: bool)
    ensures
        r == (a@ == b@),
{
    a == b
}

/// Whether an extension marks a recognised audio file. The match is
/// case-sensitive, on the lower-case canonical forms.
pub fn has_audio_extension(ext: &str) -> (r: bool)
    ensures
        r == is_audio_ext(ext@),
{
    str_eq(ext, "mp3") || str_eq(ext, "flac") || str_eq(ext, "ogg") || str_eq(ext, "wav")
        || str_eq(ext, "m4a") || str_eq(ext, "opus")
}

/// One directory entry, as the walker reports it: its path, whether it is a
/// regular file, and its extension, if it has one.
pub struct FileEntry {
    pub path: String,
    pub is_file: bool,
    pub extension: Option<String>,
}

/// The mathematical content of a directory entry.
pub struct FileEntryView {
    pub path: Seq<char>,
    pub is_file: bool,
    pub extension: Option<Seq<char>>,
}

/// The view of an optional string: its characters, when it is there.
pub open spec fn opt_str_view(o: Option<String>) -> Option<Seq<char>> {
    match o {
        Some(s) => Some(s@),
        None => None,
    }
}

impl View for FileEntry {
    type V = FileEntryView;

    open spec fn view(&self) -> FileEntryView {
        FileEntryView {
            path: self.path@,
            is_file: self.is_file,
            extension: opt_str_view(self.extension),
        }
    }
}

/// An entry is kept exactly when it is a regular file with a recognised
/// audio extension.
pub open spec fn is_audio_entry(e: FileEntryView) -> bool {
    e.is_file && match e.extension {
        Some(ext) => is_audio_ext(ext),
        None => false,
    }
}

/// The paths of the recognised audio files among a sequence of entries,
/// kept in the order the entries arrived.
pub open spec fn spec_scan(entries: Seq<FileEntryView>) -> Seq<Seq<char>> {
    entries.filter(|e: FileEntryView| is_audio_entry(e)).map_values(|e: FileEntryView| e.path)
}

/// Appending one entry to a scan keeps the previous result and adds the new
/// entry's path exactly when that entry is a recognised audio file.
proof fn lemma_spec_scan_push(entries: Seq<FileEntryView>, e: FileEntryView)
    ensures
        spec_scan(entries.push(e)) == if is_audio_entry(e) {
            spec_scan(entries).push(e.path)
        } else {
            spec_scan(entries)
        },
{
    let pred = |x: FileEntryView| is_audio_entry(x);
    crate::seq_facts::lemma_filter_push(entries, pred, e);
    if is_audio_entry(e) {
        assert(entries.filter(pred).push(e).map_values(|x: FileEntryView| x.path) =~= spec_scan(
            entries,
        ).push(e.path));
    }
}

/// Keep the entries that are regular files with a recognised audio
/// extension; everything else is skipped silently.
pub fn scan_music_files(entries: &Vec<FileEntry>) -> (paths: Vec<String>)
    ensures
        paths@.map_values(|p: String| p@) == spec_scan(entries@.map_values(|e: FileEntry| e@)),
{
    let ghost all = entries@.map_values(|e: FileEntry| e@);
    let mut paths: Vec<String> = Vec::new();
    let mut i: usize = 0;
    while i < entries.len()
        invariant
            i <= entries.len(),
            all == entries@.map_values(|e: FileEntry| e@),
            paths@.map_values(|p: String| p@) == spec_scan(all.take(i as int)),
        decreases entries.len() - i,
    {
        let entry = &entries[i];
        let keep = entry.is_file && match &entry.extension {
            Some(ext) => has_audio_extension(ext.as_str()),
            None => false,
        };
        proof {
            assert(all.take(i + 1 as int) =~= all.take(i as int).push(all[i as int]));
            lemma_spec_scan_push(all.take(i as int), all[i as int]);
        }
        if keep {
            paths.push(entry.path.clone());
            proof {
                assert(paths@.map_values(|p: String| p@) =~= spec_scan(all.take(i as int)).push(
                    entry.path@,
                ));
            }
        }
        i += 1;
    }
    proof {
        assert(all.take(entries@.len() as int) =~= all);
    }
    paths
}

// ------------------------------------------------------------------
// Tag fields and metadata defaults
// ------------------------------------------------------------------

/// The text fields a tag probe yields for one file. A field is `None` when
/// the tag block does not carry it.
pub struct TagFields {
    pub title: Option<String>,
    pub artist: Option<String>,
    pub album: Option<String>,
}

/// The mathematical content of one file's tag fields.
pub struct TagFieldsView {
    pub title: Option<Seq<char>>,
    pub artist: Option<Seq<char>>,
    pub album: Option<Seq<char>>,
}

impl View for TagFields {
    type V = TagFieldsView;

    open spec fn view(&self) -> TagFieldsView {
        TagFieldsView {
            title: opt_str_view(self.title),
            artist: opt_str_view(self.artist),
            album: opt_str_view(self.album),
        }
    }
}

/// A tag field is kept verbatim when it is present and non-empty; otherwise
/// the per-field default stands in, so no field is ever blank.
pub open spec fn field_or_default(field: Option<Seq<char>>, default: Seq<char>) -> Seq<char> {
    match field {
        Some(text) => if text.len() > 0 {
            text
        } else {
            default
        },
        None => default,
    }
}

/// One field read with its default.
fn field_or(field: &Option<String>, default: &str) -> (r: String)
    ensures
        r@ == field_or_default(opt_str_view(*field), default@),
{
    match field {
        Some(text) => if !text.as_str().is_empty() {
            text.clone()
        } else {
            String::from_str(default)
        },
        None => String::from_str(default),
    }
}

/// Read the title, artist and album fields from one file's tags. A field
/// that is absent or empty yields its literal default, so display code is
/// never handed an empty label. This never fails.
pub fn extract_metadata(tags: &TagFields) -> (r: (String, String, String))
    ensures
        r.0@ == field_or_default(tags@.title, "Unknown Title"@),
        r.1@ == field_or_default(tags@.artist, "Unknown Artist"@),
        r.2@ == field_or_default(tags@.album, "Unknown Album"@),
{
    let title = field_or(&tags.title, "Unknown Title");
    let artist = field_or(&tags.artist, "Unknown Artist");
    let album = field_or(&tags.album, "Unknown Album");
    (title, artist, album)
}

// ------------------------------------------------------------------
// Artwork
// ------------------------------------------------------------------

/// One embedded picture: whether its type tag marks it as the front cover,
/// and its raw encoded bytes.
pub struct Picture {
    pub is_front_cover: bool,
    pub data: Vec<u8>,
}

/// The mathematical content of an embedded picture.
pub struct PictureView {
    pub is_front_cover: bool,
    pub data: Seq<u8>,
}

impl View for Picture {
    type V = PictureView;

    open spec fn view(&self) -> PictureView {
        PictureView { is_front_cover: self.is_front_cover, data: self.data@ }
    }
}

/// The view of optional raw bytes.
pub open spec fn opt_bytes_view(o: Option<Vec<u8>>) -> Option<Seq<u8>> {
    match o {
        Some(b) => Some(b@),
        None => None,
    }
}

/// Relies on image::load_from_memory only for making the attempt: whether
/// bytes parse as an image may change between calls in one process, since
/// image lets the host register format and decoding hooks at run time, so
/// nothing relates the result to the bytes. Each call's outcome is an
/// independent observation, and the choice among the sources is verified in
/// `select_artwork`, for every combination of outcomes.
#[verifier::external_body]
fn image_decodes(data: &Vec<u8>) -> bool {
    image::load_from_memory(data.as_slice()).is_ok()
}

/// The position of the first picture tagged as the front cover, if any.
pub open spec fn front_cover_index(pics: Seq<PictureView>) -> Option<int>
    decreases pics.len(),
{
    if pics.len() == 0 {
        None
    } else if pics[0].is_front_cover {
        Some(0int)
    } else {
        match front_cover_index(pics.drop_first()) {
            Some(k) => Some(k + 1),
            None => None,
        }
    }
}

/// The artwork chosen for one file, given the observed decode outcome of
/// each embedded picture (`ok`, one entry per picture) and of the sibling
/// cover bytes: the front cover when its bytes decoded, else the first
/// embedded picture when its bytes decoded, else the sibling bytes when
/// they decoded, else nothing. A source whose bytes did not decode never
/// crashes the scan; the search falls through to the next source.
pub open spec fn spec_select_artwork(
    pics: Seq<PictureView>,
    ok: Seq<bool>,
    sibling: Option<Seq<u8>>,
    sibling_ok: bool,
) -> Option<Seq<u8>> {
    match front_cover_index(pics) {
        Some(i) => if ok[i] {
            Some(pics[i].data)
        } else {
            spec_artwork_fallback(pics, ok, sibling, sibling_ok)
        },
        None => spec_artwork_fallback(pics, ok, sibling, sibling_ok),
    }
}

/// The fallback sources, tried when no front cover decoded.
pub open spec fn spec_artwork_fallback(
    pics: Seq<PictureView>,
    ok: Seq<bool>,
    sibling: Option<Seq<u8>>,
    sibling_ok: bool,
) -> Option<Seq<u8>> {
    if pics.len() > 0 && ok[0] {
        Some(pics[0].data)
    } else {
        match sibling {
            Some(bytes) => if sibling_ok {
                Some(bytes)
            } else {
                None
            },
            None => None,
        }
    }
}

/// Whatever the decoder reported, returned artwork only ever comes from one
/// of the three sources: the front cover, the first embedded picture, or the
/// sibling cover file.
pub open spec fn artwork_source(
    pics: Seq<PictureView>,
    sibling: Option<Seq<u8>>,
    bytes: Seq<u8>,
) -> bool {
    ||| (match front_cover_index(pics) {
        Some(i) => bytes == pics[i].data,
        None => false,
    })
    ||| (pics.len() > 0 && bytes == pics[0].data)
    ||| (match sibling {
        Some(s) => bytes == s,
        None => false,
    })
}

/// A copy of raw bytes, byte for byte.
fn clone_bytes(data: &Vec<u8>) -> (r: Vec<u8>)
    ensures
        r@ == data@,
{
    let r = data.clone();
    proof {
        assert(r@ =~= data@);
    }
    r
}

/// The index of the first picture tagged as the front cover, if any.
fn find_front_cover(pictures: &Vec<Picture>) -> (r: Option<usize>)
    ensures
        ({
            let pics = pictures@.map_values(|p: Picture| p@);
            match r {
                Some(i) => i < pictures@.len() && front_cover_index(pics) == Some(i as int),
                None => front_cover_index(pics) is None,
            }
        }),
{
    let ghost pics = pictures@.map_values(|p: Picture| p@);
    proof {
        assert(pics.skip(0) =~= pics);
    }
    let mut i: usize = 0;
    while i < pictures.len()
        invariant
            i <= pictures.len(),
            pics == pictures@.map_values(|p: Picture| p@),
            front_cover_index(pics) == match front_cover_index(pics.skip(i as int)) {
                Some(k) => Some(k + i),
                None => None::<int>,
            },
        decreases pictures.len() - i,
    {
        proof {
            assert(pics.skip(i as int)[0] == pics[i as int]);
        }
        if pictures[i].is_front_cover {
            return Some(i);
        }
        proof {
            assert(pics.skip(i as int).drop_first() =~= pics.skip(i + 1 as int));
        }
        i += 1;
    }
    proof {
        assert(pics.skip(pictures@.len() as int).len() == 0);
    }
    None
}

/// Choose the artwork for one file, given its embedded pictures with the
/// observed decode outcome of each (`decodable`, one entry per picture), and
/// the sibling cover bytes with theirs. The front cover is preferred; any
/// embedded picture comes next; the sibling file comes last; a source that
/// did not decode is skipped, never an error.
pub fn select_artwork(
    pictures: &Vec<Picture>,
    decodable: &Vec<bool>,
    sibling: &Option<Vec<u8>>,
    sibling_decodable: bool,
) -> (r: Option<Vec<u8>>)
    requires
        decodable@.len() == pictures@.len(),
    ensures
        opt_bytes_view(r) == spec_select_artwork(
            pictures@.map_values(|p: Picture| p@),
            decodable@,
            match sibling {
                Some(b) => Some(b@),
                None => None,
            },
            sibling_decodable,
        ),
{
    if let Some(i) = find_front_cover(pictures) {
        if decodable[i] {
            return Some(clone_bytes(&pictures[i].data));
        }
    }
    if pictures.len() > 0 && decodable[0] {
        return Some(clone_bytes(&pictures[0].data));
    }
    match sibling {
        Some(bytes) => if sibling_decodable {
            Some(clone_bytes(bytes))
        } else {
            None
        },
        None => None,
    }
}

/// Extract the artwork for one file: try to decode each embedded picture
/// and the sibling cover bytes once, and choose among the sources by the
/// fixed priority. What the decoder accepts may change under the host's
/// control, so only the choice is pinned down — for every combination of
/// outcomes, by `select_artwork` — and whatever comes back is the bytes of
/// one of the sources; an input with no source at all yields nothing.
pub fn extract_artwork(pictures: &Vec<Picture>, sibling: &Option<Vec<u8>>) -> (r: Option<Vec<u8>>)
    ensures
        (match r {
            Some(bytes) => artwork_source(
                pictures@.map_values(|p: Picture| p@),
                match sibling {
                    Some(b) => Some(b@),
                    None => None,
                },
                bytes@,
            ),
            None => true,
        }),
        pictures@.len() == 0 && sibling is None ==> r is None,
{
    let mut decodable: Vec<bool> = Vec::new();
    let mut i: usize = 0;
    while i < pictures.len()
        invariant
            i <= pictures.len(),
            decodable@.len() == i,
        decreases pictures.len() - i,
    {
        decodable.push(image_decodes(&pictures[i].data));
        i += 1;
    }
    let sibling_decodable = match sibling {
        Some(bytes) => image_decodes(bytes),
        None => false,
    };
    select_artwork(pictures, &decodable, sibling, sibling_decodable)
}

} // verus!
