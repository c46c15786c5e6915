//! The model of one audio file known to the application.

use vstd::prelude::*;

use crate::text::base_name;
use crate::text::file_name_of;

verus! {

/// One audio file tracked by the application, identified by its path.
#[derive(Debug, Clone)]
pub struct AudioFile {
    /// The file's path, absolute or relative; immutable after creation.
    pub path: String,
}

impl View for AudioFile {
    type V = Seq<char>;

    open spec fn view(&self) -> Seq<char> {
        self.path@
    }
}

impl AudioFile {
    /// Create an entry for the file at `path`.
    pub fn new(path: String) -> (r: Self)
        ensures
            r.path == path,
    {
        AudioFile { path }
    }

    /// The file's display name: its file name — the final path segment,
    /// with trailing separators and `.` components ignored — or, when it
    /// has none (the root, or a path ending in `..`), the whole path.
    pub fn file_name(&self) -> (r: String)
        ensures
            r@ == file_name_of(self.path@),
    {
        base_name(self.path.as_str())
    }
}

} // verus!
