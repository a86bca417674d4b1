//! A small music catalog and a playback session model.
//!
//! `song` models one track and how a file name names its artist and title;
//! `library` holds tracks, groups them by artist and album, scans directory
//! listings and answers searches; `player` decides what the supervisor of an
//! external media player does on each request; `text` holds the string
//! operations the others rely on.

pub mod text;
pub mod song;
pub mod library;
pub mod player;
