//! The errors that the window managers report.

use vstd::prelude::*;
use crate::types::{Window, WorkspaceIndex};

verus! {

/// The errors that a window manager can return. None of them is fatal: a
/// window manager that returns an error is in the state it was in before.
#[derive(Copy, Clone, Debug, PartialEq, Eq, Structural)]
pub enum WMError {
    /// This window is not known by the window manager.
    UnknownWindow(Window),
    /// This window is already managed by the window manager.
    AlreadyManagedWindow(Window),
    /// The workspace index is not valid.
    WorkspaceIndexNotValid(WorkspaceIndex),
}

impl WMError {
    /// A short description of the kind of error, without the window or the
    /// index it is about.
    pub fn description(&self) -> (text: &'static str)
        ensures
            text@ == match *self {
                WMError::UnknownWindow(_) => "Unknown window"@,
                WMError::AlreadyManagedWindow(_) => "Already managed window"@,
                WMError::WorkspaceIndexNotValid(_) => "Workspace index not valid"@,
            },
    {
        match *self {
            WMError::UnknownWindow(_) => "Unknown window",
            WMError::AlreadyManagedWindow(_) => "Already managed window",
            WMError::WorkspaceIndexNotValid(_) => "Workspace index not valid",
        }
    }
}

} // verus!
