//! The extension classifier and the folder-scan filter.
//!
//! The unverified shell reads a directory and reports what it saw as a
//! [`DirListing`]: either the list of entries it could observe — with `None`
//! standing for an entry it could not inspect — or the failure of the
//! listing request itself.  [`scan_audio_files`] turns such a listing into
//! the ordered, folder-joined paths of the supported audio files it
//! contains.

use vstd::prelude::*;

use crate::text::contains_char;
use crate::text::eq_fold_lower;
use crate::text::join_path;
use crate::text::joined_path;
use crate::text::lemma_tail_after_last_subrange;
use crate::text::lower_seq;
use crate::text::rlast_index;
use crate::text::strings_view;
use crate::text::tail_after_last;

verus! {

/// Whether `ext` — a file extension without its leading dot, in any case —
/// names a supported audio format.
pub open spec fn is_supported_audio_extension(ext: Seq<char>) -> bool {
    ||| lower_seq(ext) == "mp3"@
    ||| lower_seq(ext) == "wav"@
    ||| lower_seq(ext) == "flac"@
    ||| lower_seq(ext) == "ogg"@
    ||| lower_seq(ext) == "m4a"@
    ||| lower_seq(ext) == "aac"@
    ||| lower_seq(ext) == "opus"@
}

/// Decide whether an extension denotes a supported audio format.  Any string
/// is a valid input; case is ignored.
pub fn is_audio_extension(ext: &str) -> (r: bool)
    ensures
        r == is_supported_audio_extension(ext@),
{
    eq_fold_lower(ext, "mp3") || eq_fold_lower(ext, "wav") || eq_fold_lower(ext, "flac")
        || eq_fold_lower(ext, "ogg") || eq_fold_lower(ext, "m4a") || eq_fold_lower(ext, "aac")
        || eq_fold_lower(ext, "opus")
}

/// The classifier is case-insensitive: two extensions that fold to the same
/// lower-case text are classified alike.
pub proof fn lemma_classifier_case_insensitive(a: Seq<char>, b: Seq<char>)
    requires
        lower_seq(a) == lower_seq(b),
    ensures
        is_supported_audio_extension(a) == is_supported_audio_extension(b),
{
}

/// One immediate entry of a scanned directory, as the shell observed it.
#[derive(Debug)]
pub struct FsEntry {
    /// The entry's file name (its final path segment).
    pub name: String,
    /// Whether the entry is a regular file — directories, links to
    /// directories and special files report `false`.
    pub is_file: bool,
}

/// What the entry looks like in specifications.
pub ghost struct FsEntryView {
    pub name: Seq<char>,
    pub is_file: bool,
}

impl View for FsEntry {
    type V = FsEntryView;

    open spec fn view(&self) -> FsEntryView {
        FsEntryView { name: self.name@, is_file: self.is_file }
    }
}

/// The outcome of asking the host for a directory's immediate entries.
#[derive(Debug)]
pub enum DirListing {
    /// The listing succeeded; entries that could not be individually
    /// inspected are reported as `None`.
    Entries(Vec<Option<FsEntry>>),
    /// The listing request itself failed; the text describes the failure.
    Failure(String),
}

/// The error a scan reports when the directory listing itself failed.
#[derive(Debug, PartialEq, Eq, Clone)]
pub struct ScanError {
    /// A description of the underlying failure.
    pub message: String,
}

/// The extension of a file name: the text after the last `.`.  Meaningful
/// only when the name contains a `.` at all.
pub open spec fn extension_of(name: Seq<char>) -> Seq<char> {
    tail_after_last(name, '.')
}

/// Whether a scan keeps an entry: it is a regular file, it has an extension,
/// and that extension names a supported audio format.
pub open spec fn entry_is_kept(e: FsEntryView) -> bool {
    &&& e.is_file
    &&& contains_char(e.name, '.')
    &&& is_supported_audio_extension(extension_of(e.name))
}

/// The names of the entries a scan keeps, in listing order; uninspectable
/// entries are skipped.
pub open spec fn audio_names(entries: Seq<Option<FsEntry>>) -> Seq<Seq<char>>
    decreases entries.len(),
{
    if entries.len() == 0 {
        Seq::empty()
    } else {
        let rest = audio_names(entries.drop_last());
        match entries.last() {
            Some(e) => if entry_is_kept(e@) {
                rest.push(e@.name)
            } else {
                rest
            },
            None => rest,
        }
    }
}

/// The folder-joined paths of the entries a scan keeps, in listing order.
pub open spec fn audio_paths(folder: Seq<char>, entries: Seq<Option<FsEntry>>) -> Seq<Seq<char>>
    decreases entries.len(),
{
    if entries.len() == 0 {
        Seq::empty()
    } else {
        let rest = audio_paths(folder, entries.drop_last());
        match entries.last() {
            Some(e) => if entry_is_kept(e@) {
                rest.push(joined_path(folder, e@.name))
            } else {
                rest
            },
            None => rest,
        }
    }
}

/// Each path a scan yields is the folder joined with the corresponding
/// kept name: `audio_paths` and `audio_names` run in step.
pub proof fn lemma_audio_paths_match_names(folder: Seq<char>, entries: Seq<Option<FsEntry>>)
    ensures
        audio_paths(folder, entries).len() == audio_names(entries).len(),
        forall|i: int|
            0 <= i < audio_names(entries).len() ==> #[trigger] audio_paths(folder, entries)[i]
                == joined_path(folder, audio_names(entries)[i]),
    decreases entries.len(),
{
    if entries.len() > 0 {
        lemma_audio_paths_match_names(folder, entries.drop_last());
    }
}

/// Whether `name` names some inspectable entry of `entries` that a scan
/// keeps.
pub open spec fn name_comes_from_kept_entry(
    entries: Seq<Option<FsEntry>>,
    name: Seq<char>,
) -> bool {
    exists|j: int|
        {
            &&& 0 <= j < entries.len()
            &&& #[trigger] entries[j] matches Some(e)
            &&& entry_is_kept(e@)
            &&& e@.name == name
        }
}

/// Law: a scan never invents paths — every name it returns comes from a
/// listed entry that was inspectable, a regular file, and carried a
/// supported audio extension — and it returns at most one name per entry.
pub proof fn lemma_scan_returns_only_kept_entries(entries: Seq<Option<FsEntry>>)
    ensures
        audio_names(entries).len() <= entries.len(),
        forall|i: int|
            0 <= i < audio_names(entries).len() ==> name_comes_from_kept_entry(
                entries,
                #[trigger] audio_names(entries)[i],
            ),
    decreases entries.len(),
{
    if entries.len() > 0 {
        let shorter = entries.drop_last();
        lemma_scan_returns_only_kept_entries(shorter);
        let names = audio_names(entries);
        let rest = audio_names(shorter);
        assert forall|i: int| 0 <= i < names.len() implies name_comes_from_kept_entry(
            entries,
            names[i],
        ) by {
            if i < rest.len() {
                assert(name_comes_from_kept_entry(shorter, rest[i]));
                let j = choose|j: int|
                    {
                        &&& 0 <= j < shorter.len()
                        &&& #[trigger] shorter[j] matches Some(e)
                        &&& entry_is_kept(e@)
                        &&& e@.name == rest[i]
                    };
                assert(entries[j] == shorter[j]);
            } else {
                assert(entries[entries.len() - 1] == entries.last());
            }
        }
    }
}

/// Whether `path` is the folder joined with the name of some inspectable
/// entry of `entries` that a scan keeps.
pub open spec fn path_comes_from_kept_entry(
    folder: Seq<char>,
    entries: Seq<Option<FsEntry>>,
    path: Seq<char>,
) -> bool {
    exists|j: int|
        {
            &&& 0 <= j < entries.len()
            &&& #[trigger] entries[j] matches Some(e)
            &&& entry_is_kept(e@)
            &&& path == joined_path(folder, e@.name)
        }
}

/// Law: a scan stays inside the scanned folder — every path it returns is
/// the folder joined with the name of one immediate entry that was
/// inspectable, a regular file, and carried a supported audio extension; it
/// never descends into subdirectories and never invents paths.
pub proof fn lemma_scan_stays_in_folder(folder: Seq<char>, entries: Seq<Option<FsEntry>>)
    ensures
        audio_paths(folder, entries).len() <= entries.len(),
        forall|i: int|
            0 <= i < audio_paths(folder, entries).len() ==> path_comes_from_kept_entry(
                folder,
                entries,
                #[trigger] audio_paths(folder, entries)[i],
            ),
{
    lemma_scan_returns_only_kept_entries(entries);
    lemma_audio_paths_match_names(folder, entries);
    assert forall|i: int| 0 <= i < audio_paths(folder, entries).len() implies
        path_comes_from_kept_entry(folder, entries, audio_paths(folder, entries)[i]) by {
        assert(name_comes_from_kept_entry(entries, audio_names(entries)[i]));
        let j = choose|j: int|
            {
                &&& 0 <= j < entries.len()
                &&& #[trigger] entries[j] matches Some(e)
                &&& entry_is_kept(e@)
                &&& e@.name == audio_names(entries)[i]
            };
        assert(audio_paths(folder, entries)[i] == joined_path(folder, audio_names(entries)[i]));
    }
}

/// Filter a directory listing down to the paths of the supported audio
/// files it contains — the scanned folder joined with each kept entry's
/// name, in listing order.  Fails — with the underlying failure's
/// description — exactly when the listing request itself failed; entries
/// that could not be inspected are silently skipped.
pub fn scan_audio_files(folder: &str, listing: DirListing) -> (r: Result<Vec<String>, ScanError>)
    ensures
        match listing {
            DirListing::Entries(entries) => match r {
                Ok(paths) => strings_view(paths@) == audio_paths(folder@, entries@),
                Err(_) => false,
            },
            DirListing::Failure(message) => match r {
                Ok(_) => false,
                Err(e) => e.message@ == message@,
            },
        },
{
    match listing {
        DirListing::Failure(message) => Err(ScanError { message }),
        DirListing::Entries(entries) => {
            let mut audio_files: Vec<String> = Vec::new();
            let n: usize = entries.len();
            let mut i: usize = 0;
            while i < n
                invariant
                    n == entries@.len(),
                    i <= n,
                    strings_view(audio_files@) == audio_paths(
                        folder@,
                        entries@.subrange(0, i as int),
                    ),
                decreases n - i,
            {
                let ghost prefix = entries@.subrange(0, i as int);
                match &entries[i] {
                    None => {},
                    Some(e) => {
                        if e.is_file {
                            let name = e.name.as_str();
                            match rlast_index(name, '.') {
                                None => {},
                                Some(k) => {
                                    proof {
                                        lemma_tail_after_last_subrange(e@.name, '.', k as int + 1);
                                    }
                                    let len: usize = name.unicode_len();
                                    let ext = name.substring_char(k + 1, len);
                                    if is_audio_extension(ext) {
                                        let ghost before = audio_files@;
                                        audio_files.push(join_path(folder, name));
                                        proof {
                                            assert(strings_view(audio_files@) =~= strings_view(
                                                before,
                                            ).push(joined_path(folder@, e@.name)));
                                        }
                                    }
                                },
                            }
                        }
                    },
                }
                proof {
                    let post = entries@.subrange(0, i as int + 1);
                    assert(post.drop_last() =~= prefix);
                    assert(strings_view(audio_files@) =~= audio_paths(folder@, post));
                }
                i = i + 1;
            }
            proof {
                assert(entries@.subrange(0, n as int) =~= entries@);
            }
            Ok(audio_files)
        },
    }
}

} // verus!
