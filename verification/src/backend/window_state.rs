//! The state of a window as the display server records it.

use vstd::prelude::*;
use vstd::std_specs::convert::FromSpecImpl;

verus! {

/// The possible values of the `WM_STATE` property of a window.
#[derive(Copy, Clone, PartialEq, Eq, Debug, Structural)]
pub enum WindowState {
    /// The window is withdrawn (0)
    Withdrawn,
    /// The window is just visible (1)
    Normal,
    /// The window is minimised (3)
    Iconic,
}

impl WindowState {
    /// The number that stands for the state in the `WM_STATE` property.
    pub open spec fn number(self) -> u32 {
        match self {
            WindowState::Withdrawn => 0,
            WindowState::Normal => 1,
            WindowState::Iconic => 3,
        }
    }

    /// Return the state that the number `n` stands for. The numbers 0, 1
    /// and 3 stand for a state, no other number does.
    pub fn try_from(n: u32) -> (state: Option<WindowState>)
        ensures
            match state {
                Some(s) => s.number() == n,
                None => n != 0 && n != 1 && n != 3,
            },
    {
        if n == 0 {
            Some(WindowState::Withdrawn)
        } else if n == 1 {
            Some(WindowState::Normal)
        } else if n == 3 {
            Some(WindowState::Iconic)
        } else {
            None
        }
    }

    /// The number of a state stands for that state and no other.
    pub proof fn lemma_number(self, other: WindowState)
        ensures
            self.number() == 0 || self.number() == 1 || self.number() == 3,
            self.number() == other.number() ==> self == other,
    {
    }
}

impl From<WindowState> for u32 {
    /// Return the number that stands for the state.
    fn from(window_state: WindowState) -> (number: u32) {
        match window_state {
            WindowState::Withdrawn => 0,
            WindowState::Normal => 1,
            WindowState::Iconic => 3,
        }
    }
}

impl FromSpecImpl<WindowState> for u32 {
    open spec fn obeys_from_spec() -> bool {
        true
    }

    open spec fn from_spec(window_state: WindowState) -> u32 {
        window_state.number()
    }
}

impl From<WindowState> for i32 {
    /// Return the number that stands for the state, as a signed number.
    fn from(window_state: WindowState) -> (number: i32) {
        match window_state {
            WindowState::Withdrawn => 0,
            WindowState::Normal => 1,
            WindowState::Iconic => 3,
        }
    }
}

impl FromSpecImpl<WindowState> for i32 {
    open spec fn obeys_from_spec() -> bool {
        true
    }

    open spec fn from_spec(window_state: WindowState) -> i32 {
        window_state.number() as i32
    }
}

} // verus!
