//! The header bar's message handling: each button press is forwarded to
//! the owner unchanged.

use vstd::prelude::*;

verus! {

/// Messages the header's buttons emit.
#[derive(Debug, PartialEq, Eq, Clone, Structural)]
pub enum HeaderMsg {
    OpenFile,
    OpenFolder,
    Convert,
    Preferences,
    About,
}

/// What the header forwards to its owner.
#[derive(Debug, PartialEq, Eq, Clone, Structural)]
pub enum HeaderOutput {
    OpenFile,
    OpenFolder,
    Convert,
    Preferences,
    About,
}

/// The header bar component.  It holds no state of its own; its job is to
/// translate button presses into outputs for the owner.
#[derive(Debug)]
pub struct Header {}

impl Header {
    /// Create the header.
    pub fn init() -> (r: Header) {
        Header {}
    }

    /// Forward a button press to the owner.
    pub fn update(&mut self, msg: HeaderMsg) -> (out: HeaderOutput)
        ensures
            *final(self) == *old(self),
            out == match msg {
                HeaderMsg::OpenFile => HeaderOutput::OpenFile,
                HeaderMsg::OpenFolder => HeaderOutput::OpenFolder,
                HeaderMsg::Convert => HeaderOutput::Convert,
                HeaderMsg::Preferences => HeaderOutput::Preferences,
                HeaderMsg::About => HeaderOutput::About,
            },
    {
        match msg {
            HeaderMsg::OpenFile => HeaderOutput::OpenFile,
            HeaderMsg::OpenFolder => HeaderOutput::OpenFolder,
            HeaderMsg::Convert => HeaderOutput::Convert,
            HeaderMsg::Preferences => HeaderOutput::Preferences,
            HeaderMsg::About => HeaderOutput::About,
        }
    }
}

} // verus!
