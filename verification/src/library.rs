//! The library aggregator: folding scanned tracks into per-album groupings.

use crate::scan::{field_or_default, TagFields, TagFieldsView};
use vstd::prelude::*;

verus! {

/// One track, as displayed: every field holds a non-empty label, with an
/// explicit sentinel standing in for whatever the source tags lacked.
#[derive(Debug)]
pub struct Song {
    pub title: String,
    pub artist: String,
    pub album: String,
    pub year: String,
}

/// The mathematical content of a track.
pub struct SongView {
    pub title: Seq<char>,
    pub artist: Seq<char>,
    pub album: Seq<char>,
    pub year: Seq<char>,
}

impl View for Song {
    type V = SongView;

    open spec fn view(&self) -> SongView {
        SongView { title: self.title@, artist: self.artist@, album: self.album@, year: self.year@ }
    }
}

impl Clone for Song {
    fn clone(&self) -> (r: Self)
        ensures
            r@ == self@,
    {
        Song {
            title: self.title.clone(),
            artist: self.artist.clone(),
            album: self.album.clone(),
            year: self.year.clone(),
        }
    }
}

impl Default for Song {
    fn default() -> (r: Self)
        ensures
            r@.title == Seq::<char>::empty(),
            r@.artist == Seq::<char>::empty(),
            r@.album == Seq::<char>::empty(),
            r@.year == Seq::<char>::empty(),
    {
        Song {
            title: String::new(),
            artist: String::new(),
            album: String::new(),
            year: String::new(),
        }
    }
}

/// One album: its identity is its title, its artist and year are seeded from
/// the first track seen for it, and its tracks stand in first-seen order.
pub struct Album {
    pub title: String,
    pub artist: String,
    pub year: String,
    pub songs: Vec<Song>,
}

/// The mathematical content of an album.
pub struct AlbumView {
    pub title: Seq<char>,
    pub artist: Seq<char>,
    pub year: Seq<char>,
    pub songs: Seq<SongView>,
}

impl View for Album {
    type V = AlbumView;

    open spec fn view(&self) -> AlbumView {
        AlbumView {
            title: self.title@,
            artist: self.artist@,
            year: self.year@,
            songs: self.songs@.map_values(|s: Song| s@),
        }
    }
}

impl Default for Album {
    fn default() -> (r: Self)
        ensures
            r@.title == Seq::<char>::empty(),
            r@.artist == Seq::<char>::empty(),
            r@.year == "2020"@,
            r@.songs == Seq::<SongView>::empty(),
    {
        let r = Album {
            title: String::new(),
            artist: String::new(),
            year: String::from_str("2020"),
            songs: Vec::new(),
        };
        proof {
            assert(r@.songs =~= Seq::<SongView>::empty());
        }
        r
    }
}

// ------------------------------------------------------------------
// The aggregation, as mathematics
// ------------------------------------------------------------------

/// The views of a list of tracks.
pub open spec fn songs_view(songs: Seq<Song>) -> Seq<SongView> {
    songs.map_values(|s: Song| s@)
}

/// The views of a list of per-file probe results.
pub open spec fn tag_views(files: Seq<Option<TagFields>>) -> Seq<Option<TagFieldsView>> {
    files.map_values(
        |o: Option<TagFields>|
            match o {
                Some(t) => Some(t@),
                None => None,
            },
    )
}

/// The track built from one file's tag fields: each text field read with its
/// default, and the year filled with the placeholder the scan uses.
pub open spec fn spec_song(tags: TagFieldsView) -> SongView {
    SongView {
        title: field_or_default(tags.title, "Unknown Title"@),
        artist: field_or_default(tags.artist, "Unknown Artist"@),
        album: field_or_default(tags.album, "Unknown Album"@),
        year: "2020"@,
    }
}

/// The flat track list of a scan: one track per readable file, in arrival
/// order; a file whose probe failed is skipped silently.
pub open spec fn spec_library(files: Seq<Option<TagFieldsView>>) -> Seq<SongView>
    decreases files.len(),
{
    if files.len() == 0 {
        Seq::empty()
    } else {
        spec_library(files.drop_last()) + match files.last() {
            Some(tags) => seq![spec_song(tags)],
            None => Seq::<SongView>::empty(),
        }
    }
}

/// The tracks of one album: the tracks whose album field equals its title,
/// in first-seen order.
pub open spec fn songs_in_album(lib: Seq<SongView>, title: Seq<char>) -> Seq<SongView> {
    lib.filter(|s: SongView| s.album == title)
}

/// The album titles of a track list, each once, in first-seen order.
pub open spec fn album_titles(lib: Seq<SongView>) -> Seq<Seq<char>>
    decreases lib.len(),
{
    if lib.len() == 0 {
        Seq::empty()
    } else {
        let prev = album_titles(lib.drop_last());
        if prev.contains(lib.last().album) {
            prev
        } else {
            prev.push(lib.last().album)
        }
    }
}

/// The artist of the first track carrying the given album title; it seeds
/// the album's own artist field.
pub open spec fn first_artist_in(lib: Seq<SongView>, title: Seq<char>) -> Seq<char>
    decreases lib.len(),
{
    if lib.len() == 0 {
        Seq::empty()
    } else if lib[0].album == title {
        lib[0].artist
    } else {
        first_artist_in(lib.drop_first(), title)
    }
}

/// Whether some track of the list carries the given album title.
pub open spec fn has_album(lib: Seq<SongView>, title: Seq<char>) -> bool {
    exists|k: int| 0 <= k < lib.len() && lib[k].album == title
}

/// What a correct album list says of a track list: one album per distinct
/// album title, in first-seen order, holding exactly the tracks that carry
/// its title, with artist seeded from the first of them and the placeholder
/// year.
pub open spec fn spec_albums_ok(albums: Seq<Album>, lib: Seq<SongView>) -> bool {
    &&& albums.map_values(|a: Album| a@.title) == album_titles(lib)
    &&& forall|j: int|
        0 <= j < albums.len() ==> (#[trigger] albums[j])@.songs == songs_in_album(
            lib,
            albums[j]@.title,
        )
    &&& forall|j: int| 0 <= j < albums.len() ==> (#[trigger] albums[j])@.songs.len() > 0
    &&& forall|j: int|
        0 <= j < albums.len() ==> (#[trigger] albums[j])@.artist == first_artist_in(
            lib,
            albums[j]@.title,
        )
    &&& forall|j: int| 0 <= j < albums.len() ==> (#[trigger] albums[j])@.year == "2020"@
    &&& forall|j1: int, j2: int|
        0 <= j1 < j2 < albums.len() ==> (#[trigger] albums[j1])@.title != (
        #[trigger] albums[j2])@.title
}

// ------------------------------------------------------------------
// Facts the aggregation loop rests on
// ------------------------------------------------------------------

/// Extending a track list by one track touches the first-seen artist of a
/// title only where no earlier track carried that title.
proof fn lemma_first_artist_push(lib: Seq<SongView>, s: SongView, title: Seq<char>)
    ensures
        first_artist_in(lib.push(s), title) == if has_album(lib, title) {
            first_artist_in(lib, title)
        } else if s.album == title {
            s.artist
        } else {
            Seq::<char>::empty()
        },
    decreases lib.len(),
{
    let l2 = lib.push(s);
    if lib.len() == 0 {
        assert(l2[0] == s);
        if s.album != title {
            assert(l2.drop_first() =~= Seq::<SongView>::empty());
            reveal_with_fuel(first_artist_in, 2);
        }
    } else if lib[0].album == title {
        assert(has_album(lib, title));
        assert(l2[0] == lib[0]);
    } else {
        assert(l2[0] == lib[0]);
        assert(l2.drop_first() =~= lib.drop_first().push(s));
        lemma_first_artist_push(lib.drop_first(), s, title);
        if has_album(lib.drop_first(), title) {
            let k = choose|k: int|
                0 <= k < lib.drop_first().len() && lib.drop_first()[k].album == title;
            assert(lib[k + 1].album == title);
            assert(has_album(lib, title));
        } else if has_album(lib, title) {
            let k = choose|k: int| 0 <= k < lib.len() && lib[k].album == title;
            assert(k != 0);
            assert(lib.drop_first()[k - 1].album == title);
        }
    }
}

/// A title whose album holds a track is carried by some track of the list.
proof fn lemma_nonempty_album_has_track(lib: Seq<SongView>, title: Seq<char>)
    requires
        songs_in_album(lib, title).len() > 0,
    ensures
        has_album(lib, title),
{
    let pred = |s: SongView| s.album == title;
    if !has_album(lib, title) {
        assert forall|k: int| 0 <= k < lib.len() implies !pred(#[trigger] lib[k]) by {
            assert(!(lib[k].album == title));
        }
        crate::seq_facts::lemma_filter_all_out(lib, pred);
    }
}

/// Extending a track list by one track extends the title list exactly when
/// the track's title is new.
proof fn lemma_album_titles_push(lib: Seq<SongView>, s: SongView)
    ensures
        album_titles(lib.push(s)) == if album_titles(lib).contains(s.album) {
            album_titles(lib)
        } else {
            album_titles(lib).push(s.album)
        },
{
    assert(lib.push(s).drop_last() =~= lib);
    assert(lib.push(s).last() == s);
}

/// Law: the album title of every track of a scan appears among the album
/// titles of that scan — no track is dropped by the grouping.
pub proof fn lemma_album_titles_complete(lib: Seq<SongView>)
    ensures
        forall|k: int|
            0 <= k < lib.len() ==> album_titles(lib).contains(#[trigger] lib[k].album),
    decreases lib.len(),
{
    if lib.len() > 0 {
        let d = lib.drop_last();
        lemma_album_titles_complete(d);
        let prev = album_titles(d);
        assert forall|k: int|
            0 <= k < lib.len() implies album_titles(lib).contains(#[trigger] lib[k].album) by {
            if k < lib.len() - 1 {
                assert(d[k] == lib[k]);
                assert(prev.contains(lib[k].album));
                let m = choose|m: int| 0 <= m < prev.len() && prev[m] == lib[k].album;
                if prev.contains(lib.last().album) {
                    assert(album_titles(lib)[m] == lib[k].album);
                } else {
                    assert(album_titles(lib)[m] == lib[k].album);
                }
            } else {
                if prev.contains(lib.last().album) {
                    let m = choose|m: int| 0 <= m < prev.len() && prev[m] == lib.last().album;
                    assert(album_titles(lib)[m] == lib[k].album);
                } else {
                    assert(album_titles(lib)[prev.len() as int] == lib[k].album);
                }
            }
        }
    }
}

/// Law: album titles never repeat — each track belongs to exactly one album.
pub proof fn lemma_album_titles_distinct(lib: Seq<SongView>)
    ensures
        forall|j1: int, j2: int|
            0 <= j1 < j2 < album_titles(lib).len() ==> album_titles(lib)[j1] != album_titles(
                lib,
            )[j2],
    decreases lib.len(),
{
    if lib.len() > 0 {
        let d = lib.drop_last();
        lemma_album_titles_distinct(d);
        let prev = album_titles(d);
        if !prev.contains(lib.last().album) {
            assert forall|j1: int, j2: int|
                0 <= j1 < j2 < album_titles(lib).len() implies album_titles(lib)[j1]
                != album_titles(lib)[j2] by {
                if j2 == prev.len() {
                    assert(album_titles(lib)[j1] == prev[j1]);
                    assert(!prev.contains(lib.last().album));
                    assert(prev[j1] != lib.last().album);
                }
            }
        }
    }
}

/// Appending a track whose album already stands in the list updates that
/// album alone.
proof fn lemma_albums_ok_existing(
    albums_pre: Seq<Album>,
    albums_post: Seq<Album>,
    lib: Seq<SongView>,
    s: SongView,
    idx: int,
)
    requires
        spec_albums_ok(albums_pre, lib),
        0 <= idx < albums_pre.len(),
        albums_pre[idx]@.title == s.album,
        albums_post.len() == albums_pre.len(),
        forall|j: int|
            0 <= j < albums_pre.len() && j != idx ==> albums_post[j] == albums_pre[j],
        albums_post[idx]@.title == albums_pre[idx]@.title,
        albums_post[idx]@.artist == albums_pre[idx]@.artist,
        albums_post[idx]@.year == albums_pre[idx]@.year,
        albums_post[idx]@.songs == albums_pre[idx]@.songs.push(s),
    ensures
        spec_albums_ok(albums_post, lib.push(s)),
{
    let l2 = lib.push(s);
    lemma_album_titles_push(lib, s);
    assert(albums_pre.map_values(|a: Album| a@.title)[idx] == s.album);
    assert(album_titles(lib).contains(s.album));
    assert(albums_post.map_values(|a: Album| a@.title) =~= album_titles(l2));
    assert forall|j: int|
        0 <= j < albums_post.len() implies (#[trigger] albums_post[j])@.songs == songs_in_album(
        l2,
        albums_post[j]@.title,
    ) && albums_post[j]@.artist == first_artist_in(l2, albums_post[j]@.title) by {
        let t = albums_post[j]@.title;
        assert(t == albums_pre[j]@.title);
        crate::seq_facts::lemma_filter_push(lib, |x: SongView| x.album == t, s);
        lemma_nonempty_album_has_track(lib, t);
        lemma_first_artist_push(lib, s, t);
        if j != idx {
            if j < idx {
                assert(albums_pre[j]@.title != albums_pre[idx]@.title);
            } else {
                assert(albums_pre[idx]@.title != albums_pre[j]@.title);
            }
        }
    }
}

/// Appending a track whose album is new appends one album seeded from it.
proof fn lemma_albums_ok_new(
    albums_pre: Seq<Album>,
    albums_post: Seq<Album>,
    lib: Seq<SongView>,
    s: SongView,
    fresh: Album,
)
    requires
        spec_albums_ok(albums_pre, lib),
        forall|j: int| 0 <= j < albums_pre.len() ==> (#[trigger] albums_pre[j])@.title != s.album,
        albums_post == albums_pre.push(fresh),
        fresh@.title == s.album,
        fresh@.artist == s.artist,
        fresh@.year == "2020"@,
        fresh@.songs == seq![s],
    ensures
        spec_albums_ok(albums_post, lib.push(s)),
{
    let l2 = lib.push(s);
    let titles = albums_pre.map_values(|a: Album| a@.title);
    if album_titles(lib).contains(s.album) {
        let m = choose|m: int| 0 <= m < titles.len() && titles[m] == s.album;
        assert(albums_pre[m]@.title == s.album);
    }
    assert(!album_titles(lib).contains(s.album));
    lemma_album_titles_push(lib, s);
    assert(albums_post.map_values(|a: Album| a@.title) =~= album_titles(lib).push(s.album));
    lemma_album_titles_complete(lib);
    assert forall|k: int| 0 <= k < lib.len() implies (#[trigger] lib[k]).album != s.album by {
        if lib[k].album == s.album {
            assert(album_titles(lib).contains(s.album));
        }
    }
    let newpred = |x: SongView| x.album == s.album;
    assert forall|k: int| 0 <= k < lib.len() implies !newpred(#[trigger] lib[k]) by {}
    crate::seq_facts::lemma_filter_all_out(lib, newpred);
    crate::seq_facts::lemma_filter_push(lib, newpred, s);
    assert(songs_in_album(l2, s.album) =~= seq![s]);
    lemma_first_artist_push(lib, s, s.album);
    assert(!has_album(lib, s.album));
    assert forall|j: int|
        0 <= j < albums_pre.len() implies (#[trigger] albums_post[j])@.songs == songs_in_album(
        l2,
        albums_post[j]@.title,
    ) && albums_post[j]@.artist == first_artist_in(l2, albums_post[j]@.title) by {
        assert(albums_post[j] == albums_pre[j]);
        let t = albums_pre[j]@.title;
        crate::seq_facts::lemma_filter_push(lib, |x: SongView| x.album == t, s);
        lemma_nonempty_album_has_track(lib, t);
        lemma_first_artist_push(lib, s, t);
    }
    assert(albums_post[albums_pre.len() as int] == fresh);
}

/// The number of files a scan skipped: those whose probe failed.
pub open spec fn spec_skipped(files: Seq<Option<TagFieldsView>>) -> int
    decreases files.len(),
{
    if files.len() == 0 {
        0
    } else {
        spec_skipped(files.drop_last()) + if files.last() is None {
            1int
        } else {
            0int
        }
    }
}

/// How many files of a scan were skipped because their probe failed, for the
/// surrounding application to report. Exactly the scanned files that yielded
/// no track are counted.
pub fn count_skipped(files: &Vec<Option<TagFields>>) -> (n: usize)
    ensures
        n == spec_skipped(tag_views(files@)),
        n + spec_library(tag_views(files@)).len() == files@.len(),
{
    let ghost fviews = tag_views(files@);
    let mut n: usize = 0;
    let mut i: usize = 0;
    while i < files.len()
        invariant
            i <= files.len(),
            fviews == tag_views(files@),
            fviews.len() == files@.len(),
            n == spec_skipped(fviews.take(i as int)),
            n + spec_library(fviews.take(i as int)).len() == i,
        decreases files.len() - i,
    {
        proof {
            assert(fviews.take(i + 1 as int).drop_last() =~= fviews.take(i as int));
            assert(fviews.take(i + 1 as int).last() == fviews[i as int]);
        }
        match &files[i] {
            Some(_) => {
                proof {
                    assert(fviews[i as int] is Some);
                }
            },
            None => {
                proof {
                    assert(fviews[i as int] is None);
                }
                n += 1;
            },
        }
        i += 1;
    }
    proof {
        assert(fviews.take(files@.len() as int) =~= fviews);
    }
    n
}

/// Law: album membership does not depend on scan order. Two track lists that
/// hold the same tracks — permutations of each other — put exactly the same
/// collection of tracks into any album title; only the order within the
/// album follows the scan order.
pub proof fn lemma_album_membership_order_independent(
    lib1: Seq<SongView>,
    lib2: Seq<SongView>,
    title: Seq<char>,
)
    requires
        lib1.to_multiset() == lib2.to_multiset(),
    ensures
        songs_in_album(lib1, title).to_multiset() == songs_in_album(lib2, title).to_multiset(),
{
    crate::seq_facts::lemma_filter_permutation(lib1, lib2, |s: SongView| s.album == title);
}

// ------------------------------------------------------------------
// The aggregation, executed
// ------------------------------------------------------------------

/// The index of the album carrying the given title, if one exists.
fn find_album(albums: &Vec<Album>, title: &String) -> (r: Option<usize>)
    ensures
        match r {
            Some(idx) => idx < albums@.len() && albums@[idx as int]@.title == title@,
            None => forall|j: int|
                0 <= j < albums@.len() ==> (#[trigger] albums@[j])@.title != title@,
        },
{
    let mut i: usize = 0;
    while i < albums.len()
        invariant
            i <= albums.len(),
            forall|j: int| 0 <= j < i ==> (#[trigger] albums@[j])@.title != title@,
        decreases albums.len() - i,
    {
        if albums[i].title == *title {
            return Some(i);
        }
        i += 1;
    }
    None
}

/// Fold the per-file probe results into the flat track list and the album
/// list. A file whose probe failed is skipped; every readable file yields one
/// track, appended to the flat list and to its album, which is created the
/// first time its title is seen and seeded from that track. An empty input
/// yields empty outputs.
pub fn load_music(files: &Vec<Option<TagFields>>) -> (r: (Vec<Song>, Vec<Album>))
    ensures
        songs_view(r.0@) == spec_library(tag_views(files@)),
        spec_albums_ok(r.1@, spec_library(tag_views(files@))),
{
    let ghost fviews = tag_views(files@);
    let mut library: Vec<Song> = Vec::new();
    let mut albums: Vec<Album> = Vec::new();
    proof {
        assert(songs_view(library@) =~= spec_library(fviews.take(0)));
        assert(albums@.map_values(|a: Album| a@.title) =~= album_titles(spec_library(fviews.take(0))));
    }
    let mut i: usize = 0;
    while i < files.len()
        invariant
            i <= files.len(),
            fviews == tag_views(files@),
            fviews.len() == files@.len(),
            songs_view(library@) == spec_library(fviews.take(i as int)),
            spec_albums_ok(albums@, spec_library(fviews.take(i as int))),
        decreases files.len() - i,
    {
        let ghost libk = spec_library(fviews.take(i as int));
        proof {
            assert(fviews.take(i + 1 as int).drop_last() =~= fviews.take(i as int));
            assert(fviews.take(i + 1 as int).last() == fviews[i as int]);
        }
        match &files[i] {
            Some(tags) => {
                let (title, artist, album_name) = crate::scan::extract_metadata(tags);
                let song = Song {
                    title,
                    artist: artist.clone(),
                    album: album_name.clone(),
                    year: String::from_str("2020"),
                };
                let ghost sv = song@;
                proof {
                    assert(fviews[i as int] == Some(tags@));
                    assert(sv == spec_song(tags@));
                    assert(spec_library(fviews.take(i + 1 as int)) == libk + seq![sv]);
                    assert(libk + seq![sv] =~= libk.push(sv));
                }
                library.push(song.clone());
                proof {
                    assert(songs_view(library@) =~= libk.push(sv));
                }
                let ghost albums_pre = albums@;
                match find_album(&albums, &album_name) {
                    Some(idx) => {
                        albums[idx].songs.push(song);
                        proof {
                            assert(albums@[idx as int]@.songs =~= albums_pre[idx as int]@.songs.push(
                                sv,
                            ));
                            lemma_albums_ok_existing(albums_pre, albums@, libk, sv, idx as int);
                        }
                    },
                    None => {
                        let mut first_songs: Vec<Song> = Vec::new();
                        first_songs.push(song);
                        let fresh = Album {
                            title: album_name,
                            artist,
                            year: String::from_str("2020"),
                            songs: first_songs,
                        };
                        let ghost freshg = fresh;
                        albums.push(fresh);
                        proof {
                            assert(freshg@.songs =~= seq![sv]);
                            lemma_albums_ok_new(albums_pre, albums@, libk, sv, freshg);
                        }
                    },
                }
            },
            None => {
                proof {
                    assert(fviews[i as int] is None);
                    assert(spec_library(fviews.take(i + 1 as int)) == libk
                        + Seq::<SongView>::empty());
                    assert(libk + Seq::<SongView>::empty() =~= libk);
                }
            },
        }
        i += 1;
    }
    proof {
        assert(fviews.take(files@.len() as int) =~= fviews);
    }
    (library, albums)
}

} // verus!
