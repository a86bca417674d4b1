use vstd::prelude::*;
use vstd::string::*;

use crate::text::{
    find_text, first_occurrence, is_first_occurrence, is_substring, lemma_first_occurrence_unique,
    occurs_at, trim_of, trimmed,
};

verus! {

/// One catalogued audio file with its metadata.
#[derive(Debug, Clone)]
pub struct Song {
    pub file_path: String,
    pub title: String,
    pub artist: String,
    pub album: String,
    pub cover_path: Option<String>,
}

/// The mathematical value of a `Song`.
pub struct SongView {
    pub file_path: Seq<char>,
    pub title: Seq<char>,
    pub artist: Seq<char>,
    pub album: Seq<char>,
    pub cover_path: Option<Seq<char>>,
}

/// The characters of an optional text.
pub open spec fn opt_text(o: Option<String>) -> Option<Seq<char>> {
    match o {
        Some(s) => Some(s@),
        None => None,
    }
}

impl View for Song {
    type V = SongView;

    open spec fn view(&self) -> SongView {
        SongView {
            file_path: self.file_path@,
            title: self.title@,
            artist: self.artist@,
            album: self.album@,
            cover_path: opt_text(self.cover_path),
        }
    }
}

/// The artist given to a track whose file name names none.
pub open spec fn unknown_artist() -> Seq<char> {
    "Unknown Artist"@
}

/// The album given to a track found by a scan.
pub open spec fn unknown_album() -> Seq<char> {
    "Unknown Album"@
}

/// The working name used when a path has no file stem.
pub open spec fn unknown_name() -> Seq<char> {
    "Unknown"@
}

/// The separators tried, in order, between artist and title in a file name:
/// a hyphen, an en dash and an em dash, each between two spaces.
pub open spec fn hyphen_sep() -> Seq<char> {
    " - "@
}

pub open spec fn en_dash_sep() -> Seq<char> {
    " \u{2013} "@
}

pub open spec fn em_dash_sep() -> Seq<char> {
    " \u{2014} "@
}

/// Splitting `name` at the first occurrence of `sep` into trimmed artist and
/// title, when both are non-empty.
pub open spec fn split_at_sep(name: Seq<char>, sep: Seq<char>) -> Option<(Seq<char>, Seq<char>)> {
    match first_occurrence(name, sep) {
        Some(i) => {
            let artist = trim_of(name.subrange(0, i));
            let title = trim_of(name.subrange(i + sep.len(), name.len() as int));
            if artist.len() > 0 && title.len() > 0 {
                Some((artist, title))
            } else {
                None
            }
        },
        None => None,
    }
}

/// The (artist, title) that a file name (without extension) gives.
pub open spec fn parse_name(name: Seq<char>) -> (Seq<char>, Seq<char>) {
    match split_at_sep(name, hyphen_sep()) {
        Some(r) => r,
        None => match split_at_sep(name, en_dash_sep()) {
            Some(r) => r,
            None => match split_at_sep(name, em_dash_sep()) {
                Some(r) => r,
                None => (unknown_artist(), name),
            },
        },
    }
}

/// The extension of the last component of a path, as `Path::extension` gives it.
pub uninterp spec fn extension_of(p: Seq<char>) -> Option<Seq<char>>;

/// The last component of a path without its extension, as `Path::file_stem` gives it.
pub uninterp spec fn stem_of(p: Seq<char>) -> Option<Seq<char>>;

/// Relies on `Path::extension` for the extension of the path's file name
/// (`to_string_lossy` loses nothing here: the path is already UTF-8).
#[verifier::external_body]
pub(crate) fn path_extension(p: &str) -> (r: Option<String>)
    ensures
        opt_text(r) == extension_of(p@),
{
    match std::path::Path::new(p).extension() {
        Some(e) => Some(e.to_string_lossy().into_owned()),
        None => None,
    }
}

/// Relies on `Path::file_stem` for the path's file name without extension
/// (`to_string_lossy` loses nothing here: the path is already UTF-8).
#[verifier::external_body]
pub(crate) fn path_stem(p: &str) -> (r: Option<String>)
    ensures
        opt_text(r) == stem_of(p@),
{
    match std::path::Path::new(p).file_stem() {
        Some(e) => Some(e.to_string_lossy().into_owned()),
        None => None,
    }
}

/// The extensions, in lower case, of the files a scan takes as audio.
pub open spec fn is_audio_extension(e: Seq<char>) -> bool {
    e == "mp3"@ || e == "flac"@ || e == "wav"@ || e == "ogg"@ || e == "m4a"@ || e == "aac"@
}

/// A path names an audio file when its extension, in lower case, is an audio extension.
pub open spec fn is_audio_path(p: Seq<char>) -> bool {
    match extension_of(p) {
        Some(e) => is_audio_extension(crate::text::lower_of(e)),
        None => false,
    }
}

/// The track that a scan makes of the audio file at `p`.
pub open spec fn song_from_path(p: Seq<char>) -> SongView {
    let name = match stem_of(p) {
        Some(s) => s,
        None => unknown_name(),
    };
    let parts = parse_name(name);
    SongView {
        file_path: p,
        title: parts.1,
        artist: parts.0,
        album: unknown_album(),
        cover_path: None,
    }
}

/// Splits `name` at the first occurrence of `sep`, trimming both sides, when
/// both are non-empty.
pub(crate) fn split_name(name: &str, sep: &str) -> (r: Option<(String, String)>)
    ensures
        match r {
            Some(p) => split_at_sep(name@, sep@) == Some((p.0@, p.1@)),
            None => split_at_sep(name@, sep@) is None,
        },
{
    match find_text(name, sep) {
        None => None,
        Some(pos) => {
            assert(is_first_occurrence(name@, sep@, pos as int));
            let n = name.unicode_len();
            let end = pos + sep.unicode_len();
            let artist = trimmed(name.substring_char(0, pos));
            let title = trimmed(name.substring_char(end, n));
            if artist.as_str().unicode_len() > 0 && title.as_str().unicode_len() > 0 {
                Some((artist, title))
            } else {
                None
            }
        },
    }
}

impl Song {
    pub fn new(
        file_path: String,
        title: String,
        artist: String,
        album: String,
        cover_path: Option<String>,
    ) -> (r: Song)
        ensures
            r@ == (SongView {
                file_path: file_path@,
                title: title@,
                artist: artist@,
                album: album@,
                cover_path: opt_text(cover_path),
            }),
    {
        Song { file_path, title, artist, album, cover_path }
    }

    /// "artist - title".
    pub fn get_display_name(&self) -> (r: String)
        ensures
            r@ == self.artist@ + " - "@ + self.title@,
    {
        let mut r = self.artist.clone();
        r.append(" - ");
        r.append(self.title.as_str());
        r
    }

    pub fn get_file_path(&self) -> (r: &str)
        ensures
            r@ == self.file_path@,
    {
        self.file_path.as_str()
    }

    pub fn get_cover_path(&self) -> (r: Option<&str>)
        ensures
            match r {
                Some(c) => self.cover_path matches Some(p) && c@ == p@,
                None => self.cover_path is None,
            },
    {
        match &self.cover_path {
            Some(p) => Some(p.as_str()),
            None => None,
        }
    }

    /// A copy with the same value.
    pub fn duplicate(&self) -> (r: Song)
        ensures
            r@ == self@,
    {
        let cover_path = match &self.cover_path {
            Some(p) => Some(p.clone()),
            None => None,
        };
        Song {
            file_path: self.file_path.clone(),
            title: self.title.clone(),
            artist: self.artist.clone(),
            album: self.album.clone(),
            cover_path,
        }
    }
}

/// A name "A - B", where " - " does not start inside A, gives artist A and
/// title B, both trimmed, when neither is blank.
pub proof fn lemma_parse_hyphenated_name(a: Seq<char>, b: Seq<char>)
    requires
        forall|i: int| 0 <= i < a.len() ==> !occurs_at(a + hyphen_sep() + b, hyphen_sep(), i),
        trim_of(a).len() > 0,
        trim_of(b).len() > 0,
    ensures
        parse_name(a + hyphen_sep() + b) == (trim_of(a), trim_of(b)),
{
    reveal_strlit(" - ");
    let sep = hyphen_sep();
    let name = a + sep + b;
    let i = a.len() as int;
    assert(name.subrange(i, i + 3) =~= sep);
    assert(is_first_occurrence(name, sep, i));
    lemma_first_occurrence_unique(name, sep, i);
    assert(name.subrange(0, i) =~= a);
    assert(name.subrange(i + 3, name.len() as int) =~= b);
}

/// A name with none of the three separators is the title of an unknown artist.
pub proof fn lemma_parse_name_without_separator(name: Seq<char>)
    requires
        !is_substring(hyphen_sep(), name),
        !is_substring(en_dash_sep(), name),
        !is_substring(em_dash_sep(), name),
    ensures
        parse_name(name) == (unknown_artist(), name),
{
    assert(!exists|i: int| is_first_occurrence(name, hyphen_sep(), i));
    assert(!exists|i: int| is_first_occurrence(name, en_dash_sep(), i));
    assert(!exists|i: int| is_first_occurrence(name, em_dash_sep(), i));
}

} // verus!
