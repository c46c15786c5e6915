use audiolist::utils::DirListing;
use audiolist::utils::FsEntry;
use audiolist::utils::scan_audio_files;

fn file(name: &str) -> Option<FsEntry> {
    Some(FsEntry { name: name.to_string(), is_file: true })
}

fn directory(name: &str) -> Option<FsEntry> {
    Some(FsEntry { name: name.to_string(), is_file: false })
}

#[test]
fn scan_keeps_audio_files_in_listing_order() {
    let listing = DirListing::Entries(vec![
        file("song.mp3"),
        file("notes.txt"),
        file("Track.FLAC"),
        directory("sub"),
    ]);
    let paths = scan_audio_files("music", listing).unwrap();
    assert_eq!(
        paths,
        vec!["music/song.mp3".to_string(), "music/Track.FLAC".to_string()]
    );
}

#[test]
fn scan_joins_each_kept_name_with_the_folder() {
    let entries = || vec![file("a.mp3"), file("b.wav")];
    assert_eq!(
        scan_audio_files("/home/me/music", DirListing::Entries(entries())).unwrap(),
        vec![
            "/home/me/music/a.mp3".to_string(),
            "/home/me/music/b.wav".to_string(),
        ]
    );
    // A trailing separator is not doubled.
    assert_eq!(
        scan_audio_files("music/", DirListing::Entries(entries())).unwrap(),
        vec!["music/a.mp3".to_string(), "music/b.wav".to_string()]
    );
    // The root keeps its single separator.
    assert_eq!(
        scan_audio_files("/", DirListing::Entries(entries())).unwrap(),
        vec!["/a.mp3".to_string(), "/b.wav".to_string()]
    );
    // An empty folder path leaves the names as they are.
    assert_eq!(
        scan_audio_files("", DirListing::Entries(entries())).unwrap(),
        vec!["a.mp3".to_string(), "b.wav".to_string()]
    );
}

#[test]
fn scan_failure_yields_error_and_no_paths() {
    let listing = DirListing::Failure("no such directory".to_string());
    let r = scan_audio_files("gone", listing);
    match r {
        Ok(_) => panic!("a failed listing must not yield paths"),
        Err(e) => assert_eq!(e.message, "no such directory"),
    }
}

#[test]
fn scan_of_empty_directory_is_empty_and_ok() {
    let listing = DirListing::Entries(vec![]);
    let paths = scan_audio_files("music", listing).unwrap();
    assert!(paths.is_empty());
}

#[test]
fn scan_skips_uninspectable_entries() {
    let listing = DirListing::Entries(vec![file("a.mp3"), None, file("b.wav")]);
    let paths = scan_audio_files("m", listing).unwrap();
    assert_eq!(paths, vec!["m/a.mp3".to_string(), "m/b.wav".to_string()]);
}

#[test]
fn scan_skips_files_without_extension() {
    let listing = DirListing::Entries(vec![file("README"), file("song.mp3")]);
    let paths = scan_audio_files("m", listing).unwrap();
    assert_eq!(paths, vec!["m/song.mp3".to_string()]);
}

#[test]
fn scan_skips_trailing_dot_names() {
    let listing = DirListing::Entries(vec![file("song."), file("tune.opus")]);
    let paths = scan_audio_files("m", listing).unwrap();
    assert_eq!(paths, vec!["m/tune.opus".to_string()]);
}

#[test]
fn scan_reads_extension_after_the_last_dot() {
    let listing = DirListing::Entries(vec![
        file("album.2024.m4a"),
        file("song.mp3.bak"),
        file(".ogg"),
    ]);
    let paths = scan_audio_files("m", listing).unwrap();
    assert_eq!(
        paths,
        vec!["m/album.2024.m4a".to_string(), "m/.ogg".to_string()]
    );
}

#[test]
fn scan_ignores_directories_with_audio_names() {
    let listing = DirListing::Entries(vec![directory("band.mp3"), file("solo.aac")]);
    let paths = scan_audio_files("m", listing).unwrap();
    assert_eq!(paths, vec!["m/solo.aac".to_string()]);
}
