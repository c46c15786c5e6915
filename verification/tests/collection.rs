use audiolist::audio_file::AudioFile;
use audiolist::audio_file_row::AudioFileRow;
use audiolist::file_list::FileList;
use audiolist::file_list::FileListMsg;
use audiolist::file_list::FileListOutput;

fn paths_of(list: &FileList) -> Vec<String> {
    let mut out: Vec<String> = Vec::new();
    let mut i: usize = 0;
    while i < list.len() {
        out.push(list.path_at(i).clone());
        i += 1;
    }
    out
}

#[test]
fn append_one_then_append_many_keeps_order() {
    let mut list = FileList::new();
    assert_eq!(list.len(), 0);
    let n = list.append_one(AudioFile::new("first.mp3".to_string()));
    assert_eq!(n, 1);
    let batch = vec![
        AudioFile::new("second.wav".to_string()),
        AudioFile::new("third.ogg".to_string()),
    ];
    let n = list.append_many(batch);
    assert_eq!(n, 3);
    assert_eq!(
        paths_of(&list),
        vec![
            "first.mp3".to_string(),
            "second.wav".to_string(),
            "third.ogg".to_string(),
        ]
    );
}

#[test]
fn duplicate_paths_are_kept() {
    let mut list = FileList::new();
    list.append_one(AudioFile::new("song.mp3".to_string()));
    let n = list.append_one(AudioFile::new("song.mp3".to_string()));
    assert_eq!(n, 2);
    assert_eq!(list.len(), 2);
    assert_eq!(list.path_at(0), "song.mp3");
    assert_eq!(list.path_at(1), "song.mp3");
}

#[test]
fn batch_append_equals_repeated_single_append() {
    let entries = vec!["a.mp3", "b.wav", "c.flac"];

    let mut batched = FileList::new();
    batched.append_many(
        entries
            .iter()
            .map(|p| AudioFile::new(p.to_string()))
            .collect(),
    );

    let mut one_at_a_time = FileList::new();
    for p in &entries {
        one_at_a_time.append_one(AudioFile::new(p.to_string()));
    }

    assert_eq!(paths_of(&batched), paths_of(&one_at_a_time));
}

#[test]
fn update_add_file_reports_new_count() {
    let mut list = FileList::new();
    let out = list.update(FileListMsg::AddFile("only.aac".to_string()));
    assert_eq!(out, FileListOutput::FilesChanged(1));
    assert_eq!(list.path_at(0), "only.aac");
}

#[test]
fn update_add_files_reports_new_count_once() {
    let mut list = FileList::new();
    list.append_one(AudioFile::new("head.mp3".to_string()));
    let out = list.update(FileListMsg::AddFiles(vec![
        "tail1.wav".to_string(),
        "tail2.ogg".to_string(),
    ]));
    assert_eq!(out, FileListOutput::FilesChanged(3));
    assert_eq!(
        paths_of(&list),
        vec![
            "head.mp3".to_string(),
            "tail1.wav".to_string(),
            "tail2.ogg".to_string(),
        ]
    );
}

#[test]
fn file_name_is_the_final_segment() {
    assert_eq!(
        AudioFile::new("music/album/song.mp3".to_string()).file_name(),
        "song.mp3"
    );
    assert_eq!(AudioFile::new("song.mp3".to_string()).file_name(), "song.mp3");
    assert_eq!(AudioFile::new("a//b.wav".to_string()).file_name(), "b.wav");
}

#[test]
fn file_name_ignores_trailing_separators_and_dot_components() {
    assert_eq!(AudioFile::new("a/b/".to_string()).file_name(), "b");
    assert_eq!(AudioFile::new("a/b/.".to_string()).file_name(), "b");
    assert_eq!(AudioFile::new("a/b/.//".to_string()).file_name(), "b");
    assert_eq!(AudioFile::new("./a".to_string()).file_name(), "a");
    // A name that merely contains dots is an ordinary name.
    assert_eq!(AudioFile::new("a/..b".to_string()).file_name(), "..b");
    assert_eq!(AudioFile::new("a/...".to_string()).file_name(), "...");
    assert_eq!(AudioFile::new("a.".to_string()).file_name(), "a.");
}

#[test]
fn file_name_of_segmentless_path_is_the_path() {
    assert_eq!(AudioFile::new("/".to_string()).file_name(), "/");
    assert_eq!(AudioFile::new("".to_string()).file_name(), "");
    assert_eq!(AudioFile::new("a/..".to_string()).file_name(), "a/..");
    assert_eq!(AudioFile::new("a/../".to_string()).file_name(), "a/../");
    assert_eq!(AudioFile::new("..".to_string()).file_name(), "..");
    assert_eq!(AudioFile::new(".".to_string()).file_name(), ".");
    assert_eq!(AudioFile::new("./".to_string()).file_name(), "./");
}

#[test]
fn row_title_matches_file_name() {
    let row = AudioFileRow::init_model("music/track.flac".to_string());
    assert_eq!(row.title(), "track.flac");
    assert_eq!(row.path(), "music/track.flac");
    let root_row = AudioFileRow::init_model("/".to_string());
    assert_eq!(root_row.title(), "/");
}
