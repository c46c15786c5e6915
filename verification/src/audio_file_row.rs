//! One row of the file list as the interface shows it: a path and the
//! title derived from it.

use vstd::prelude::*;

use crate::text::base_name;
use crate::text::file_name_of;

verus! {

/// Messages a row can receive from the interface.
#[derive(Debug, PartialEq, Eq, Clone)]
pub enum AudioFileRowMsg {
    /// The user activated the row.
    Activate,
}

/// One list row, backing the display of a single audio file.
#[derive(Debug, Clone)]
pub struct AudioFileRow {
    /// The path of the file the row stands for.
    pub path: String,
}

impl View for AudioFileRow {
    type V = Seq<char>;

    open spec fn view(&self) -> Seq<char> {
        self.path@
    }
}

impl AudioFileRow {
    /// Create the row for the file at `path`.
    pub fn init_model(path: String) -> (r: Self)
        ensures
            r@ == path@,
    {
        AudioFileRow { path }
    }

    /// The path the row stands for.
    pub fn path(&self) -> (r: &String)
        ensures
            r@ == self@,
    {
        &self.path
    }

    /// The title the row displays: the file's name — the final path
    /// segment, with trailing separators and `.` components ignored — or,
    /// when it has none, the whole path.
    pub fn title(&self) -> (r: String)
        ensures
            r@ == file_name_of(self@),
    {
        base_name(self.path.as_str())
    }
}

} // verus!
