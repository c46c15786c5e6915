//! The application's state reducer: one verified function from the current
//! state and an incoming message to the next state and the action the shell
//! must perform.  The shell delivers user events and filesystem results as
//! messages and carries out the returned actions (dialogs, logging).

use vstd::prelude::*;

use crate::file_list::FileList;
use crate::file_list::FileListMsg;
use crate::file_list::FileListOutput;
use crate::utils::audio_paths;
use crate::utils::scan_audio_files;
use crate::utils::DirListing;
use crate::utils::ScanError;

verus! {

/// Messages the application handles.
#[derive(Debug)]
pub enum AppMsg {
    /// The user asked to pick a single audio file.
    OpenFile,
    /// The user asked to pick a folder to scan.
    OpenFolder,
    /// The user asked to start a conversion.
    Convert,
    /// The user opened the preferences.
    Preferences,
    /// The user asked for the about box.
    About,
    /// The picker returned a single file; append it.
    AddFile(String),
    /// A chosen folder was listed; append the audio files it contains,
    /// as paths inside that folder.
    AddFolder(String, DirListing),
}

/// The action the shell must perform after a message was handled.
#[derive(Debug, PartialEq, Eq, Clone)]
pub enum AppAction {
    /// Present the file picker.
    ShowOpenFileDialog,
    /// Present the folder picker.
    ShowOpenFolderDialog,
    /// Report that conversion is not implemented.
    LogConvertRequested,
    /// Report that preferences are not implemented.
    LogPreferencesRequested,
    /// Present the about box.
    ShowAboutDialog,
    /// Re-render the list; carries the new total count.
    FilesChanged(usize),
    /// Report a failed folder scan; the collection is unchanged.
    ScanFailed(ScanError),
}

/// The application's top-level state: the collection of audio files the
/// user has gathered.
#[derive(Debug)]
pub struct App {
    /// The current working set of audio files.
    pub file_list: FileList,
}

impl App {
    /// Create the application state with an empty collection.
    pub fn init() -> (r: App)
        ensures
            r.file_list@ == Seq::<Seq<char>>::empty(),
    {
        App { file_list: FileList::new() }
    }

    /// How many files the application currently tracks.
    pub fn file_count(&self) -> (n: usize)
        ensures
            n == self.file_list@.len(),
    {
        self.file_list.len()
    }

    /// Handle one message: update the collection where the message carries
    /// files, and name the action the shell performs next.
    pub fn update(&mut self, msg: AppMsg) -> (action: AppAction)
        ensures
            match msg {
                AppMsg::OpenFile => *final(self) == *old(self) && action
                    == AppAction::ShowOpenFileDialog,
                AppMsg::OpenFolder => *final(self) == *old(self) && action
                    == AppAction::ShowOpenFolderDialog,
                AppMsg::Convert => *final(self) == *old(self) && action
                    == AppAction::LogConvertRequested,
                AppMsg::Preferences => *final(self) == *old(self) && action
                    == AppAction::LogPreferencesRequested,
                AppMsg::About => *final(self) == *old(self) && action
                    == AppAction::ShowAboutDialog,
                AppMsg::AddFile(path) => final(self).file_list@ == old(self).file_list@.push(path@)
                    && action == AppAction::FilesChanged(final(self).file_list@.len() as usize),
                AppMsg::AddFolder(folder, listing) => match listing {
                    DirListing::Entries(entries) => final(self).file_list@ == old(
                        self,
                    ).file_list@ + audio_paths(folder@, entries@) && action
                        == AppAction::FilesChanged(final(self).file_list@.len() as usize),
                    DirListing::Failure(message) => *final(self) == *old(self) && (action matches
                        AppAction::ScanFailed(e) && e.message@ == message@),
                },
            },
    {
        match msg {
            AppMsg::OpenFile => AppAction::ShowOpenFileDialog,
            AppMsg::OpenFolder => AppAction::ShowOpenFolderDialog,
            AppMsg::Convert => AppAction::LogConvertRequested,
            AppMsg::Preferences => AppAction::LogPreferencesRequested,
            AppMsg::About => AppAction::ShowAboutDialog,
            AppMsg::AddFile(path) => {
                let out = self.file_list.update(FileListMsg::AddFile(path));
                match out {
                    FileListOutput::FilesChanged(n) => AppAction::FilesChanged(n),
                }
            },
            AppMsg::AddFolder(folder, listing) => match scan_audio_files(
                folder.as_str(),
                listing,
            ) {
                Ok(paths) => {
                    let out = self.file_list.update(FileListMsg::AddFiles(paths));
                    match out {
                        FileListOutput::FilesChanged(n) => AppAction::FilesChanged(n),
                    }
                },
                Err(e) => AppAction::ScanFailed(e),
            },
        }
    }
}

} // verus!
