//! The application's working set: an ordered, append-only collection of
//! audio files, mirrored by the interface's list of rows.

use vstd::prelude::*;

use crate::audio_file::AudioFile;
use crate::text::strings_view;

verus! {

/// Messages the file list handles.
#[derive(Debug)]
pub enum FileListMsg {
    /// Append one file.
    AddFile(String),
    /// Append a batch of files, keeping their order, with a single
    /// notification for the whole batch.
    AddFiles(Vec<String>),
}

/// What the file list reports back to its owner after a change.
#[derive(Debug, PartialEq, Eq, Clone)]
pub enum FileListOutput {
    /// The collection changed; carries the new total count.
    FilesChanged(usize),
}

/// The ordered, append-only collection of audio files.  Entries are never
/// removed, deduplicated or reordered; its length never decreases.
#[derive(Debug)]
pub struct FileList {
    /// The files, in insertion order.
    pub audio_files: Vec<AudioFile>,
}

/// The paths a sequence of audio files holds, in order.
pub open spec fn files_view(v: Seq<AudioFile>) -> Seq<Seq<char>> {
    v.map_values(|f: AudioFile| f@)
}

impl View for FileList {
    type V = Seq<Seq<char>>;

    open spec fn view(&self) -> Seq<Seq<char>> {
        files_view(self.audio_files@)
    }
}

impl FileList {
    /// Create an empty collection.
    pub fn new() -> (r: Self)
        ensures
            r@ == Seq::<Seq<char>>::empty(),
    {
        let r = FileList { audio_files: Vec::new() };
        proof {
            assert(r@ =~= Seq::<Seq<char>>::empty());
        }
        r
    }

    /// How many files the collection currently holds.
    pub fn len(&self) -> (n: usize)
        ensures
            n == self@.len(),
    {
        self.audio_files.len()
    }

    /// The path of the file at position `i`.
    pub fn path_at(&self, i: usize) -> (r: &String)
        requires
            i < self@.len(),
        ensures
            r@ == self@[i as int],
    {
        &self.audio_files[i].path
    }

    /// Append a single file at the tail and report the new total count.
    pub fn append_one(&mut self, entry: AudioFile) -> (n: usize)
        ensures
            final(self)@ == old(self)@.push(entry@),
            n == final(self)@.len(),
    {
        let ghost before = self.audio_files@;
        self.audio_files.push(entry);
        proof {
            assert(self@ =~= files_view(before).push(entry@));
        }
        self.audio_files.len()
    }

    /// Append a batch of files at the tail, preserving their relative
    /// order, and report the new total count.
    pub fn append_many(&mut self, entries: Vec<AudioFile>) -> (n: usize)
        ensures
            final(self)@ == old(self)@ + files_view(entries@),
            n == final(self)@.len(),
    {
        let ghost before = self.audio_files@;
        let ghost added = entries@;
        let mut entries = entries;
        self.audio_files.append(&mut entries);
        proof {
            assert(self@ =~= files_view(before) + files_view(added));
        }
        self.audio_files.len()
    }

    /// Apply one message: append the file or the batch it carries, and
    /// report the collection's new total count.
    pub fn update(&mut self, msg: FileListMsg) -> (out: FileListOutput)
        ensures
            match msg {
                FileListMsg::AddFile(path) => final(self)@ == old(self)@.push(path@),
                FileListMsg::AddFiles(paths) => final(self)@ == old(self)@ + strings_view(
                    paths@,
                ),
            },
            out == FileListOutput::FilesChanged(final(self)@.len() as usize),
    {
        match msg {
            FileListMsg::AddFile(path) => {
                let n = self.append_one(AudioFile::new(path));
                FileListOutput::FilesChanged(n)
            },
            FileListMsg::AddFiles(paths) => {
                let mut files: Vec<AudioFile> = Vec::new();
                let count: usize = paths.len();
                let mut i: usize = 0;
                while i < count
                    invariant
                        count == paths@.len(),
                        i <= count,
                        files_view(files@) == strings_view(paths@.subrange(0, i as int)),
                    decreases count - i,
                {
                    let ghost before = files@;
                    files.push(AudioFile::new(paths[i].clone()));
                    proof {
                        assert(files_view(files@) =~= files_view(before).push(paths@[i as int]@));
                        assert(strings_view(paths@.subrange(0, i as int + 1)) =~= strings_view(
                            paths@.subrange(0, i as int),
                        ).push(paths@[i as int]@));
                    }
                    i = i + 1;
                }
                proof {
                    assert(paths@.subrange(0, count as int) =~= paths@);
                }
                let n = self.append_many(files);
                FileListOutput::FilesChanged(n)
            },
        }
    }
}

/// Appending a batch is the same as appending its entries one at a time, in
/// their given order.
pub open spec fn append_one_at_a_time(s: Seq<Seq<char>>, entries: Seq<Seq<char>>) -> Seq<
    Seq<char>,
>
    decreases entries.len(),
{
    if entries.len() == 0 {
        s
    } else {
        append_one_at_a_time(s.push(entries.first()), entries.drop_first())
    }
}

/// Law: a batch append — the collection followed by the whole batch — equals
/// the repeated single append of the batch's entries in order.
pub proof fn lemma_append_many_is_repeated_append_one(s: Seq<Seq<char>>, entries: Seq<Seq<char>>)
    ensures
        s + entries == append_one_at_a_time(s, entries),
    decreases entries.len(),
{
    if entries.len() == 0 {
        assert(s + entries =~= s);
    } else {
        lemma_append_many_is_repeated_append_one(s.push(entries.first()), entries.drop_first());
        assert(s.push(entries.first()) + entries.drop_first() =~= s + entries);
    }
}

/// Law: an append leaves every existing entry in place, adds the new
/// entries behind them in order, and never shrinks the collection — its
/// length grows by exactly the number of entries appended.
pub proof fn lemma_append_preserves_existing(s: Seq<Seq<char>>, entries: Seq<Seq<char>>)
    ensures
        (s + entries).len() == s.len() + entries.len(),
        forall|i: int| 0 <= i < s.len() ==> (s + entries)[i] == s[i],
        forall|i: int| 0 <= i < entries.len() ==> (s + entries)[s.len() + i] == entries[i],
{
}

} // verus!
