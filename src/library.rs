use vstd::prelude::*;

use vstd::string::*;

use crate::song::{
    Song, SongView, is_audio_path, parse_name, path_extension, path_stem, song_from_path, split_name,
};
use crate::text::{contains_text, is_substring, lower_of, lowercase, same_text};

verus! {

/// Tracks that share one artist (or one album) name.
#[derive(Debug, Clone)]
pub struct SongGroup {
    pub name: String,
    pub songs: Vec<Song>,
}

/// The values of a sequence of tracks.
pub open spec fn songs_view(v: Seq<Song>) -> Seq<SongView> {
    v.map_values(|s: Song| s@)
}

/// The values of a sequence of groups: (name, tracks).
pub open spec fn groups_view(g: Seq<SongGroup>) -> Seq<(Seq<char>, Seq<SongView>)> {
    g.map_values(|x: SongGroup| (x.name@, songs_view(x.songs@)))
}

/// The grouping key of a track: its album when `by_album`, else its artist.
pub open spec fn key_of(s: SongView, by_album: bool) -> Seq<char> {
    if by_album {
        s.album
    } else {
        s.artist
    }
}

/// The tracks of `songs` whose key is exactly `key`, in their order.
pub open spec fn songs_under(songs: Seq<SongView>, key: Seq<char>, by_album: bool) -> Seq<SongView>
    decreases songs.len(),
{
    if songs.len() == 0 {
        Seq::empty()
    } else {
        let rest = songs_under(songs.drop_last(), key, by_album);
        if key_of(songs.last(), by_album) == key {
            rest.push(songs.last())
        } else {
            rest
        }
    }
}

/// `groups` is the grouping of `songs` by key: one group per key that occurs,
/// names distinct, each group holding exactly the tracks with its key in order.
pub open spec fn groups_match(
    groups: Seq<(Seq<char>, Seq<SongView>)>,
    songs: Seq<SongView>,
    by_album: bool,
) -> bool {
    &&& forall|i: int, j: int| 0 <= i < j < groups.len() ==> groups[i].0 != groups[j].0
    &&& forall|i: int|
        0 <= i < groups.len() ==> groups[i].1 == songs_under(songs, groups[i].0, by_album)
            && groups[i].1.len() > 0
    &&& forall|k: int|
        0 <= k < songs.len() ==> exists|i: int|
            0 <= i < groups.len() && groups[i].0 == key_of(#[trigger] songs[k], by_album)
}

/// The group of `groups` named `key`, if any.
pub open spec fn group_named(groups: Seq<(Seq<char>, Seq<SongView>)>, key: Seq<char>) -> Option<
    Seq<SongView>,
> {
    if exists|i: int| 0 <= i < groups.len() && groups[i].0 == key {
        Some(groups[choose|i: int| 0 <= i < groups.len() && groups[i].0 == key].1)
    } else {
        None
    }
}

/// With no track of key `key`, no track is grouped under it.
proof fn lemma_under_absent(songs: Seq<SongView>, key: Seq<char>, by_album: bool)
    requires
        forall|k: int| 0 <= k < songs.len() ==> key_of(#[trigger] songs[k], by_album) != key,
    ensures
        songs_under(songs, key, by_album) == Seq::<SongView>::empty(),
    decreases songs.len(),
{
    if songs.len() > 0 {
        lemma_under_absent(songs.drop_last(), key, by_album);
    }
}

/// The index of the group named `key`, if any.
fn find_group(groups: &Vec<SongGroup>, key: &String) -> (r: Option<usize>)
    ensures
        match r {
            Some(i) => i < groups@.len() && groups@[i as int].name@ == key@,
            None => forall|i: int| 0 <= i < groups@.len() ==> groups@[i].name@ != key@,
        },
{
    let mut i: usize = 0;
    while i < groups.len()
        invariant
            i <= groups@.len(),
            forall|j: int| 0 <= j < i ==> groups@[j].name@ != key@,
        decreases groups@.len() - i,
    {
        if same_text(groups[i].name.as_str(), key.as_str()) {
            return Some(i);
        }
        i = i + 1;
    }
    None
}

/// Groups `songs` by artist, or by album when `by_album`.
fn build_groups(songs: &Vec<Song>, by_album: bool) -> (r: Vec<SongGroup>)
    ensures
        groups_match(groups_view(r@), songs_view(songs@), by_album),
{
    let ghost sv = songs_view(songs@);
    let mut groups: Vec<SongGroup> = Vec::new();
    let mut k: usize = 0;
    while k < songs.len()
        invariant
            k <= songs@.len(),
            sv == songs_view(songs@),
            groups_match(groups_view(groups@), sv.take(k as int), by_album),
        decreases songs@.len() - k,
    {
        let s = &songs[k];
        let key = if by_album {
            &s.album
        } else {
            &s.artist
        };
        let ghost old_gv = groups_view(groups@);
        let ghost pre = sv.take(k as int);
        let ghost post = sv.take(k + 1);
        proof {
            assert(post.drop_last() =~= pre);
            assert(post.last() == s@);
            assert(key@ == key_of(s@, by_album));
        }
        match find_group(&groups, key) {
            Some(i) => {
                groups[i].songs.push(s.duplicate());
                proof {
                    let gv = groups_view(groups@);
                    assert(gv =~= old_gv.update(i as int, (key@, old_gv[i as int].1.push(s@)))) by {
                        assert(songs_view(groups@[i as int].songs@) =~= old_gv[i as int].1.push(s@));
                    }
                    assert forall|m: int| 0 <= m < post.len() implies exists|j: int|
                        0 <= j < gv.len() && gv[j].0 == key_of(#[trigger] post[m], by_album) by {
                        if m < pre.len() {
                            assert(pre[m] == post[m]);
                            let j = choose|j: int|
                                0 <= j < old_gv.len() && old_gv[j].0 == key_of(pre[m], by_album);
                            assert(gv[j].0 == old_gv[j].0);
                        } else {
                            assert(gv[i as int].0 == key_of(post[m], by_album));
                        }
                    }
                }
            },
            None => {
                let mut v: Vec<Song> = Vec::new();
                v.push(s.duplicate());
                groups.push(SongGroup { name: key.clone(), songs: v });
                proof {
                    let gv = groups_view(groups@);
                    assert(songs_view(v@) =~= seq![s@]);
                    assert(gv =~= old_gv.push((key@, seq![s@])));
                    assert forall|m: int| 0 <= m < pre.len() implies key_of(
                        #[trigger] pre[m],
                        by_album,
                    ) != key@ by {
                        let j = choose|j: int|
                            0 <= j < old_gv.len() && old_gv[j].0 == key_of(pre[m], by_album);
                    }
                    lemma_under_absent(pre, key@, by_album);
                    assert(seq![s@] =~= Seq::<SongView>::empty().push(s@));
                    assert forall|m: int| 0 <= m < post.len() implies exists|j: int|
                        0 <= j < gv.len() && gv[j].0 == key_of(#[trigger] post[m], by_album) by {
                        if m < pre.len() {
                            assert(pre[m] == post[m]);
                            let j = choose|j: int|
                                0 <= j < old_gv.len() && old_gv[j].0 == key_of(pre[m], by_album);
                            assert(gv[j] == old_gv[j]);
                        } else {
                            assert(gv[old_gv.len() as int].0 == key_of(post[m], by_album));
                        }
                    }
                }
            },
        }
        k = k + 1;
    }
    assert(sv.take(k as int) =~= sv);
    groups
}

/// The value of a sequence of borrowed tracks.
pub open spec fn refs_view(v: Seq<&Song>) -> Seq<SongView> {
    v.map_values(|s: &Song| s@)
}

/// A track matches a lower-case query when the query is part of its title,
/// artist or album in lower case.
pub open spec fn song_matches(s: SongView, folded_query: Seq<char>) -> bool {
    is_substring(folded_query, lower_of(s.title)) || is_substring(folded_query, lower_of(s.artist))
        || is_substring(folded_query, lower_of(s.album))
}

/// The tracks of `songs` that match a lower-case query, in their order.
pub open spec fn search_result(songs: Seq<SongView>, folded_query: Seq<char>) -> Seq<SongView>
    decreases songs.len(),
{
    if songs.len() == 0 {
        Seq::empty()
    } else {
        let rest = search_result(songs.drop_last(), folded_query);
        if song_matches(songs.last(), folded_query) {
            rest.push(songs.last())
        } else {
            rest
        }
    }
}

/// A regular file met by a directory walk, and whether its contents could be read.
#[derive(Debug, Clone)]
pub struct ScanEntry {
    pub path: String,
    pub readable: bool,
}

/// The tracks a scan makes of the entries it is given, in their order: one
/// for each readable audio file.
pub open spec fn scanned_songs(entries: Seq<ScanEntry>) -> Seq<SongView>
    decreases entries.len(),
{
    if entries.len() == 0 {
        Seq::empty()
    } else {
        let rest = scanned_songs(entries.drop_last());
        let e = entries.last();
        if e.readable && is_audio_path(e.path@) {
            rest.push(song_from_path(e.path@))
        } else {
            rest
        }
    }
}

/// The paths of the audio files that a scan could not read, in their order.
pub open spec fn scan_failures(entries: Seq<ScanEntry>) -> Seq<Seq<char>>
    decreases entries.len(),
{
    if entries.len() == 0 {
        Seq::empty()
    } else {
        let rest = scan_failures(entries.drop_last());
        let e = entries.last();
        if !e.readable && is_audio_path(e.path@) {
            rest.push(e.path@)
        } else {
            rest
        }
    }
}

/// The number of entries that name audio files.
pub open spec fn audio_count(entries: Seq<ScanEntry>) -> nat
    decreases entries.len(),
{
    if entries.len() == 0 {
        0
    } else {
        audio_count(entries.drop_last()) + if is_audio_path(entries.last().path@) {
            1nat
        } else {
            0nat
        }
    }
}

/// What a scan reports: how many tracks it added, and the audio files it
/// could not read.
#[derive(Debug, Clone)]
pub struct ScanReport {
    pub added: usize,
    pub failures: Vec<String>,
}

/// Why a scan did not run.
#[derive(Debug, Clone, PartialEq, Eq)]
pub enum LibraryError {
    /// The directory to scan does not exist.
    PathNotFound(String),
}

/// The catalog: its tracks in order of addition, grouped by artist and by album.
#[derive(Debug, Clone)]
pub struct MusicLibrary {
    songs: Vec<Song>,
    artists: Vec<SongGroup>,
    albums: Vec<SongGroup>,
}

/// The value of a catalog.
pub struct LibraryView {
    pub songs: Seq<SongView>,
    pub artists: Seq<(Seq<char>, Seq<SongView>)>,
    pub albums: Seq<(Seq<char>, Seq<SongView>)>,
}

/// Both groupings agree with the tracks.
pub open spec fn library_wf(v: LibraryView) -> bool {
    groups_match(v.artists, v.songs, false) && groups_match(v.albums, v.songs, true)
}

impl View for MusicLibrary {
    type V = LibraryView;

    closed spec fn view(&self) -> LibraryView {
        LibraryView {
            songs: songs_view(self.songs@),
            artists: groups_view(self.artists@),
            albums: groups_view(self.albums@),
        }
    }
}

/// Relative to a grouping of `songs`, the groupings of `songs.push(s)` hold
/// `s` as the last track under its key.
proof fn lemma_pushed_song_grouped(
    groups: Seq<(Seq<char>, Seq<SongView>)>,
    songs: Seq<SongView>,
    s: SongView,
    by_album: bool,
)
    requires
        groups_match(groups, songs.push(s), by_album),
    ensures
        group_named(groups, key_of(s, by_album)) matches Some(g) && g.len() > 0 && g.last() == s,
{
    let all = songs.push(s);
    let key = key_of(s, by_album);
    assert(all[songs.len() as int] == s);
    assert(exists|i: int| 0 <= i < groups.len() && groups[i].0 == key_of(all[songs.len() as int], by_album));
    let j = choose|i: int| 0 <= i < groups.len() && groups[i].0 == key;
    assert(all.drop_last() =~= songs);
    assert(groups[j].1 == songs_under(all, key, by_album));
}

/// The empty query is part of every text.
proof fn lemma_empty_is_substring(t: Seq<char>)
    ensures
        is_substring(Seq::empty(), t),
{
    assert(t.subrange(0, 0) =~= Seq::<char>::empty());
    assert(crate::text::occurs_at(t, Seq::empty(), 0));
}

/// Searching with the empty query gives every track, in order.
pub proof fn lemma_empty_query_matches_all(songs: Seq<SongView>)
    ensures
        search_result(songs, Seq::empty()) == songs,
    decreases songs.len(),
{
    if songs.len() > 0 {
        lemma_empty_query_matches_all(songs.drop_last());
        lemma_empty_is_substring(lower_of(songs.last().title));
        assert(songs.drop_last().push(songs.last()) =~= songs);
    }
}

/// After a track is added, the artist grouping and the album grouping each
/// hold it under its artist and its album.
pub proof fn lemma_added_song_is_grouped(before: Seq<SongView>, after: LibraryView, s: SongView)
    requires
        library_wf(after),
        after.songs == before.push(s),
    ensures
        group_named(after.artists, s.artist) matches Some(g) && g.contains(s),
        group_named(after.albums, s.album) matches Some(g) && g.contains(s),
{
    lemma_pushed_song_grouped(after.artists, before, s, false);
    lemma_pushed_song_grouped(after.albums, before, s, true);
    let ga = group_named(after.artists, s.artist)->Some_0;
    let gb = group_named(after.albums, s.album)->Some_0;
    assert(ga[ga.len() - 1] == s);
    assert(gb[gb.len() - 1] == s);
}

/// With every entry readable, a scan adds exactly one track per audio file
/// and none for the other files.
pub proof fn lemma_scan_counts_audio_files(entries: Seq<ScanEntry>)
    requires
        forall|i: int| 0 <= i < entries.len() ==> (#[trigger] entries[i]).readable,
    ensures
        scanned_songs(entries).len() == audio_count(entries),
        audio_count(entries) <= entries.len(),
    decreases entries.len(),
{
    if entries.len() > 0 {
        let rest = entries.drop_last();
        assert forall|i: int| 0 <= i < rest.len() implies (#[trigger] rest[i]).readable by {
            assert(rest[i] == entries[i]);
        }
        lemma_scan_counts_audio_files(rest);
        assert(entries[entries.len() - 1].readable);
    }
}

/// Taking one entry out lowers the audio count by one exactly when it names an audio file.
proof fn lemma_audio_count_remove(entries: Seq<ScanEntry>, i: int)
    requires
        0 <= i < entries.len(),
    ensures
        audio_count(entries) == audio_count(entries.remove(i)) + if is_audio_path(
            entries[i].path@,
        ) {
            1nat
        } else {
            0nat
        },
    decreases entries.len(),
{
    if i == entries.len() - 1 {
        assert(entries.remove(i) =~= entries.drop_last());
    } else {
        lemma_audio_count_remove(entries.drop_last(), i);
        assert(entries.remove(i).drop_last() =~= entries.drop_last().remove(i));
        assert(entries.remove(i).last() == entries.last());
    }
}

/// The audio count depends on which entries there are, not on their order.
proof fn lemma_audio_count_permutation(a: Seq<ScanEntry>, b: Seq<ScanEntry>)
    requires
        a.to_multiset() == b.to_multiset(),
    ensures
        audio_count(a) == audio_count(b),
    decreases a.len(),
{
    broadcast use vstd::seq_lib::group_to_multiset_ensures, vstd::multiset::group_multiset_axioms;

    if a.len() == 0 {
        assert(b.to_multiset().len() == 0);
    } else {
        let x = a.last();
        let rest = a.drop_last();
        assert(rest.push(x) =~= a);
        assert(a.to_multiset() =~= rest.to_multiset().insert(x));
        assert(b.to_multiset().count(x) > 0);
        assert(b.contains(x));
        let j = choose|j: int| 0 <= j < b.len() && b[j] == x;
        assert(b.remove(j).to_multiset() =~= b.to_multiset().remove(x));
        assert(rest.to_multiset() =~= rest.to_multiset().insert(x).remove(x));
        lemma_audio_count_permutation(rest, b.remove(j));
        lemma_audio_count_remove(b, j);
    }
}

/// Listing the same readable files in another order adds as many tracks.
pub proof fn lemma_scan_count_ignores_order(a: Seq<ScanEntry>, b: Seq<ScanEntry>)
    requires
        a.to_multiset() == b.to_multiset(),
        forall|i: int| 0 <= i < a.len() ==> (#[trigger] a[i]).readable,
        forall|i: int| 0 <= i < b.len() ==> (#[trigger] b[i]).readable,
    ensures
        scanned_songs(a).len() == scanned_songs(b).len(),
{
    lemma_scan_counts_audio_files(a);
    lemma_scan_counts_audio_files(b);
    lemma_audio_count_permutation(a, b);
}

impl MusicLibrary {
    /// The catalog's invariant: both groupings agree with the tracks.
    pub open spec fn wf(&self) -> bool {
        library_wf(self@)
    }

    pub fn new() -> (r: MusicLibrary)
        ensures
            r.wf(),
            r@.songs == Seq::<SongView>::empty(),
    {
        let r = MusicLibrary { songs: Vec::new(), artists: Vec::new(), albums: Vec::new() };
        assert(r@.songs =~= Seq::<SongView>::empty());
        r
    }

    /// Rebuilds both groupings from the tracks.
    fn organize_library(&mut self)
        ensures
            final(self).wf(),
            final(self)@.songs == old(self)@.songs,
    {
        self.artists = build_groups(&self.songs, false);
        self.albums = build_groups(&self.songs, true);
    }

    /// Appends a track and rebuilds the groupings.
    pub fn add_song(&mut self, song: Song)
        ensures
            final(self).wf(),
            final(self)@.songs == old(self)@.songs.push(song@),
            group_named(final(self)@.artists, song@.artist) matches Some(g) && g.contains(song@),
            group_named(final(self)@.albums, song@.album) matches Some(g) && g.contains(song@),
    {
        let ghost before = self@.songs;
        self.songs.push(song);
        assert(self@.songs =~= before.push(song@));
        self.organize_library();
        proof {
            lemma_added_song_is_grouped(before, self@, song@);
        }
    }

    /// Adds one track for each readable audio file among `entries`, in their
    /// order, then rebuilds the groupings; reports the audio files it could not read.
    pub fn scan_entries(&mut self, entries: &Vec<ScanEntry>) -> (r: ScanReport)
        ensures
            final(self).wf(),
            final(self)@.songs == old(self)@.songs + scanned_songs(entries@),
            r.added == scanned_songs(entries@).len(),
            r.failures@.map_values(|f: String| f@) == scan_failures(entries@),
    {
        let ghost before = self@.songs;
        let mut failures: Vec<String> = Vec::new();
        let mut added: usize = 0;
        let mut k: usize = 0;
        while k < entries.len()
            invariant
                k <= entries@.len(),
                self@.songs == before + scanned_songs(entries@.take(k as int)),
                added == scanned_songs(entries@.take(k as int)).len(),
                failures@.map_values(|f: String| f@) == scan_failures(entries@.take(k as int)),
                self.songs@.len() == before.len() + added,
            decreases entries@.len() - k,
        {
            let e = &entries[k];
            proof {
                assert(entries@.take(k + 1).drop_last() =~= entries@.take(k as int));
                assert(entries@.take(k + 1).last() == *e);
            }
            if MusicLibrary::is_audio_file(e.path.as_str()) {
                if e.readable {
                    let ghost prev = self@.songs;
                    self.songs.push(MusicLibrary::create_song_from_file(e.path.as_str()));
                    assert(self@.songs =~= prev.push(song_from_path(e.path@)));
                    assert(self@.songs =~= before + scanned_songs(entries@.take(k + 1)));
                    let n = self.songs.len();
                    assert(added < n);
                    added = added + 1;
                } else {
                    let ghost prev = failures@.map_values(|f: String| f@);
                    failures.push(e.path.clone());
                    assert(failures@.map_values(|f: String| f@) =~= prev.push(e.path@));
                }
            }
            k = k + 1;
        }
        assert(entries@.take(k as int) =~= entries@);
        self.organize_library();
        ScanReport { added, failures }
    }

    /// Scans a directory's files, as listed in `entries` by a walk of `root`:
    /// fails, changing nothing, when `root` does not exist; else as `scan_entries`.
    pub fn scan_directory(&mut self, root: &str, root_exists: bool, entries: &Vec<ScanEntry>) -> (r:
        Result<ScanReport, LibraryError>)
        requires
            old(self).wf(),
        ensures
            final(self).wf(),
            !root_exists ==> (r matches Err(LibraryError::PathNotFound(p)) && p@ == root@),
            !root_exists ==> final(self)@ == old(self)@,
            root_exists ==> r is Ok && final(self)@.songs == old(self)@.songs + scanned_songs(
                entries@,
            ),
            r matches Ok(rep) ==> rep.added == scanned_songs(entries@).len()
                && rep.failures@.map_values(|f: String| f@) == scan_failures(entries@),
    {
        if !root_exists {
            return Err(LibraryError::PathNotFound(root.to_owned()));
        }
        Ok(self.scan_entries(entries))
    }

    /// Splits a file name (without extension) into (artist, title): at the
    /// first of " - ", " \u{2013} ", " \u{2014} " that gives two non-empty trimmed
    /// parts, else the whole name is the title of an unknown artist.
    pub fn parse_file_name(file_name: &str) -> (r: (String, String))
        ensures
            (r.0@, r.1@) == parse_name(file_name@),
    {
        if let Some(p) = split_name(file_name, " - ") {
            return p;
        }
        if let Some(p) = split_name(file_name, " \u{2013} ") {
            return p;
        }
        if let Some(p) = split_name(file_name, " \u{2014} ") {
            return p;
        }
        (String::from_str("Unknown Artist"), file_name.to_owned())
    }

    /// Whether the path names an audio file, by its extension in any case.
    pub fn is_audio_file(path: &str) -> (r: bool)
        ensures
            r == is_audio_path(path@),
    {
        match path_extension(path) {
            None => false,
            Some(e) => {
                let e = lowercase(e.as_str());
                let e = e.as_str();
                same_text(e, "mp3") || same_text(e, "flac") || same_text(e, "wav") || same_text(
                    e,
                    "ogg",
                ) || same_text(e, "m4a") || same_text(e, "aac")
            },
        }
    }

    /// The track for the audio file at `path`: artist and title from its file
    /// name, album unknown, no cover.
    pub fn create_song_from_file(path: &str) -> (r: Song)
        ensures
            r@ == song_from_path(path@),
    {
        let name = match path_stem(path) {
            Some(s) => s,
            None => String::from_str("Unknown"),
        };
        let (artist, title) = MusicLibrary::parse_file_name(name.as_str());
        Song {
            file_path: path.to_owned(),
            title,
            artist,
            album: String::from_str("Unknown Album"),
            cover_path: None,
        }
    }

    /// The tracks in order of addition.
    pub fn get_all_songs(&self) -> (r: &[Song])
        ensures
            songs_view(r@) == self@.songs,
    {
        self.songs.as_slice()
    }

    /// The tracks grouped by artist.
    pub fn artists(&self) -> (r: &Vec<SongGroup>)
        ensures
            groups_view(r@) == self@.artists,
    {
        &self.artists
    }

    /// The tracks grouped by album.
    pub fn albums(&self) -> (r: &Vec<SongGroup>)
        ensures
            groups_view(r@) == self@.albums,
    {
        &self.albums
    }

    /// The tracks that match an already lower-case query, in their order.
    pub fn search_folded(&self, folded_query: &str) -> (r: Vec<&Song>)
        ensures
            refs_view(r@) == search_result(self@.songs, folded_query@),
    {
        let ghost sv = self@.songs;
        let mut r: Vec<&Song> = Vec::new();
        let mut k: usize = 0;
        while k < self.songs.len()
            invariant
                k <= self.songs@.len(),
                sv == songs_view(self.songs@),
                refs_view(r@) == search_result(sv.take(k as int), folded_query@),
            decreases self.songs@.len() - k,
        {
            let s = &self.songs[k];
            proof {
                assert(sv.take(k + 1).drop_last() =~= sv.take(k as int));
                assert(sv.take(k + 1).last() == s@);
            }
            if s.matches_folded(folded_query) {
                let ghost prev = refs_view(r@);
                r.push(s);
                assert(refs_view(r@) =~= prev.push(s@));
            }
            k = k + 1;
        }
        assert(sv.take(k as int) =~= sv);
        r
    }

    /// The tracks whose title, artist or album holds `query`, ignoring case,
    /// in their order; every track for the empty query.
    pub fn search_songs(&self, query: &str) -> (r: Vec<&Song>)
        ensures
            refs_view(r@) == search_result(self@.songs, lower_of(query@)),
            query@.len() == 0 ==> refs_view(r@) == self@.songs,
    {
        let folded = lowercase(query);
        proof {
            if query@.len() == 0 {
                assert(folded@ =~= Seq::<char>::empty());
                lemma_empty_query_matches_all(self@.songs);
            }
        }
        self.search_folded(folded.as_str())
    }
}

impl Song {
    /// Whether an already lower-case query is part of this track's title,
    /// artist or album in lower case.
    pub fn matches_folded(&self, folded_query: &str) -> (r: bool)
        ensures
            r == song_matches(self@, folded_query@),
    {
        contains_text(lowercase(self.title.as_str()).as_str(), folded_query) || contains_text(
            lowercase(self.artist.as_str()).as_str(),
            folded_query,
        ) || contains_text(lowercase(self.album.as_str()).as_str(), folded_query)
    }
}

} // verus!
