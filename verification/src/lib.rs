//! Verified core of a small audio-file manager.
//!
//! The crate models the application's working data — an ordered, append-only
//! collection of audio file paths — together with the pure logic that feeds
//! it: a classifier for supported audio file extensions and a filter that
//! turns a raw directory listing into the audio files it contains.  A thin,
//! unverified shell performs the actual filesystem reads and user
//! interaction and hands the results to this crate as plain values.

pub mod app;
pub mod audio_file;
pub mod audio_file_row;
pub mod file_list;
pub mod header;
pub mod text;
pub mod utils;
