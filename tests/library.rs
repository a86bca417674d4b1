use librefy::library::{LibraryError, MusicLibrary, ScanEntry};
use librefy::song::Song;

fn song(artist: &str, title: &str, album: &str) -> Song {
    Song::new(
        format!("/music/{} - {}.mp3", artist, title),
        title.to_string(),
        artist.to_string(),
        album.to_string(),
        None,
    )
}

fn entry(path: &str, readable: bool) -> ScanEntry {
    ScanEntry { path: path.to_string(), readable }
}

fn two_song_library() -> MusicLibrary {
    let mut lib = MusicLibrary::new();
    lib.add_song(song("Alice", "Song1", "AlbumX"));
    lib.add_song(song("Bob", "Song2", "AlbumX"));
    lib
}

#[test]
fn parse_hyphen_separator() {
    let (artist, title) = MusicLibrary::parse_file_name("A - B");
    assert_eq!(artist, "A");
    assert_eq!(title, "B");
}

#[test]
fn parse_trims_both_parts() {
    let (artist, title) = MusicLibrary::parse_file_name("  Daft Punk  -  One More Time  ");
    assert_eq!(artist, "Daft Punk");
    assert_eq!(title, "One More Time");
}

#[test]
fn parse_en_dash_and_em_dash() {
    assert_eq!(
        MusicLibrary::parse_file_name("Artist \u{2013} Title"),
        ("Artist".to_string(), "Title".to_string())
    );
    assert_eq!(
        MusicLibrary::parse_file_name("Artist \u{2014} Title"),
        ("Artist".to_string(), "Title".to_string())
    );
}

#[test]
fn parse_splits_at_first_occurrence() {
    assert_eq!(
        MusicLibrary::parse_file_name("A - B - C"),
        ("A".to_string(), "B - C".to_string())
    );
}

#[test]
fn parse_without_separator() {
    assert_eq!(
        MusicLibrary::parse_file_name("NoSeparator"),
        ("Unknown Artist".to_string(), "NoSeparator".to_string())
    );
}

#[test]
fn parse_blank_side_falls_back() {
    assert_eq!(
        MusicLibrary::parse_file_name(" - Title"),
        ("Unknown Artist".to_string(), " - Title".to_string())
    );
    assert_eq!(
        MusicLibrary::parse_file_name("Artist -  "),
        ("Unknown Artist".to_string(), "Artist -  ".to_string())
    );
}

#[test]
fn parse_blank_hyphen_split_tries_en_dash() {
    assert_eq!(
        MusicLibrary::parse_file_name(" - X \u{2013} Y"),
        ("- X".to_string(), "Y".to_string())
    );
}

#[test]
fn song_from_mp3_file_name() {
    let s = MusicLibrary::create_song_from_file("/music/A - B.mp3");
    assert_eq!(s.artist, "A");
    assert_eq!(s.title, "B");
    assert_eq!(s.album, "Unknown Album");
    assert_eq!(s.file_path, "/music/A - B.mp3");
    assert!(s.cover_path.is_none());
}

#[test]
fn song_from_file_without_separator() {
    let s = MusicLibrary::create_song_from_file("/music/NoSeparator.mp3");
    assert_eq!(s.artist, "Unknown Artist");
    assert_eq!(s.title, "NoSeparator");
}

#[test]
fn audio_extensions_in_any_case() {
    for p in ["a.mp3", "b.FLAC", "c.Wav", "d.ogg", "e.m4a", "f.AAC", "/x/y/z.Mp3"] {
        assert!(MusicLibrary::is_audio_file(p), "{}", p);
    }
    for p in ["a.txt", "b.mp4", "noext", "cover.jpg", "/dir.mp3/file", ".mp3"] {
        assert!(!MusicLibrary::is_audio_file(p), "{}", p);
    }
}

#[test]
fn display_name_and_getters() {
    let s = Song::new(
        "/m/x.ogg".to_string(),
        "Title".to_string(),
        "Artist".to_string(),
        "Album".to_string(),
        Some("/m/cover.png".to_string()),
    );
    assert_eq!(s.get_display_name(), "Artist - Title");
    assert_eq!(s.get_file_path(), "/m/x.ogg");
    assert_eq!(s.get_cover_path(), Some("/m/cover.png"));
    assert_eq!(s.duplicate().get_cover_path(), Some("/m/cover.png"));
}

#[test]
fn new_library_is_empty() {
    let lib = MusicLibrary::new();
    assert!(lib.get_all_songs().is_empty());
    assert!(lib.artists().is_empty());
    assert!(lib.albums().is_empty());
}

#[test]
fn search_is_case_insensitive() {
    let lib = two_song_library();
    let r = lib.search_songs("albumx");
    assert_eq!(r.len(), 2);
    assert_eq!(r[0].title, "Song1");
    assert_eq!(r[1].title, "Song2");
    let r = lib.search_songs("alice");
    assert_eq!(r.len(), 1);
    assert_eq!(r[0].artist, "Alice");
    let r = lib.search_songs("SONG2");
    assert_eq!(r.len(), 1);
    assert_eq!(r[0].artist, "Bob");
    assert!(lib.search_songs("zzz").is_empty());
}

#[test]
fn empty_search_returns_all_in_order() {
    let mut lib = two_song_library();
    lib.add_song(song("Carol", "Song3", "AlbumY"));
    let r = lib.search_songs("");
    let titles: Vec<&str> = r.iter().map(|s| s.title.as_str()).collect();
    assert_eq!(titles, vec!["Song1", "Song2", "Song3"]);
}

#[test]
fn search_folded_takes_lower_case_query() {
    let lib = two_song_library();
    assert_eq!(lib.search_folded("bob").len(), 1);
    assert!(lib.search_folded("BOB").is_empty());
    assert!(song("Bob", "Song2", "AlbumX").matches_folded("song"));
    assert!(!song("Bob", "Song2", "AlbumX").matches_folded("alice"));
}

#[test]
fn added_song_is_grouped_by_artist_and_album() {
    let lib = two_song_library();
    let artists = lib.artists();
    assert_eq!(artists.len(), 2);
    let alice = artists.iter().find(|g| g.name == "Alice").unwrap();
    assert_eq!(alice.songs.len(), 1);
    assert_eq!(alice.songs[0].title, "Song1");
    let albums = lib.albums();
    assert_eq!(albums.len(), 1);
    assert_eq!(albums[0].name, "AlbumX");
    assert_eq!(albums[0].songs.len(), 2);
}

#[test]
fn grouping_keys_are_case_sensitive() {
    let mut lib = MusicLibrary::new();
    lib.add_song(song("Alice", "a", "X"));
    lib.add_song(song("alice", "b", "x"));
    lib.add_song(song("Alice", "c", "X"));
    assert_eq!(lib.artists().len(), 2);
    assert_eq!(lib.albums().len(), 2);
    let alice = lib.artists().iter().find(|g| g.name == "Alice").unwrap();
    let titles: Vec<&str> = alice.songs.iter().map(|s| s.title.as_str()).collect();
    assert_eq!(titles, vec!["a", "c"]);
}

#[test]
fn scan_counts_only_audio_files() {
    let mut lib = MusicLibrary::new();
    let entries = vec![
        entry("/d/A - One.mp3", true),
        entry("/d/notes.txt", true),
        entry("/d/sub/B - Two.flac", true),
        entry("/d/cover.jpg", true),
        entry("/d/sub/deeper/Three.WAV", true),
    ];
    let report = lib.scan_directory("/d", true, &entries).unwrap();
    assert_eq!(report.added, 3);
    assert!(report.failures.is_empty());
    let songs = lib.get_all_songs();
    assert_eq!(songs.len(), 3);
    assert_eq!(songs[0].artist, "A");
    assert_eq!(songs[1].title, "Two");
    assert_eq!(songs[2].artist, "Unknown Artist");
    assert_eq!(lib.albums().len(), 1);
    assert_eq!(lib.albums()[0].name, "Unknown Album");
}

#[test]
fn scan_skips_unreadable_file_and_reports_it() {
    let mut lib = MusicLibrary::new();
    let entries = vec![
        entry("/d/A - One.mp3", true),
        entry("/d/broken.mp3", false),
        entry("/d/B - Two.ogg", true),
    ];
    let report = lib.scan_entries(&entries);
    assert_eq!(report.added, 2);
    assert_eq!(report.failures, vec!["/d/broken.mp3".to_string()]);
    assert_eq!(lib.get_all_songs().len(), 2);
}

#[test]
fn scan_missing_directory_fails_and_changes_nothing() {
    let mut lib = two_song_library();
    let entries = vec![entry("/gone/A - B.mp3", true)];
    let r = lib.scan_directory("/gone", false, &entries);
    assert_eq!(r.unwrap_err(), LibraryError::PathNotFound("/gone".to_string()));
    assert_eq!(lib.get_all_songs().len(), 2);
}

#[test]
fn rescan_appends_duplicates() {
    let mut lib = MusicLibrary::new();
    let entries = vec![entry("/d/A - One.mp3", true)];
    lib.scan_entries(&entries);
    lib.scan_entries(&entries);
    assert_eq!(lib.get_all_songs().len(), 2);
    assert_eq!(lib.artists().len(), 1);
    assert_eq!(lib.artists()[0].songs.len(), 2);
}
