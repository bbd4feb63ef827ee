//! The actions that key bindings start.

use vstd::prelude::*;

verus! {

/// An action on the window stack.
#[derive(Clone, Copy, Debug, PartialEq, Eq, Hash, Structural)]
pub enum Action {
    FocusNext,
    FocusPrevious,
}

/// A change of keyboard focus between windows, by their positions in the
/// window list.
#[derive(Clone, Copy, Debug, PartialEq, Eq, Hash, Structural)]
pub struct FocusChange {
    /// The window that loses its activated state, if one had the focus.
    pub previous: Option<usize>,
    /// The window that is activated and gets the focus.
    pub target: usize,
}

/// The window the focus moves to. Without a focused window the focus goes
/// to the first window on `FocusNext` and to the last on `FocusPrevious`.
/// From a focused window it moves one step, and stays where it is at either
/// end of the list. With no window at all there is nothing to focus.
pub open spec fn focus_target(action: Action, current: Option<usize>, count: usize) -> Option<usize> {
    if count == 0 {
        None
    } else {
        match (action, current) {
            (Action::FocusNext, Some(i)) => if i + 1 < count {
                Some((i + 1) as usize)
            } else {
                None
            },
            (Action::FocusNext, None) => Some(0usize),
            (Action::FocusPrevious, Some(i)) => if 0 < i < count {
                Some((i - 1) as usize)
            } else {
                None
            },
            (Action::FocusPrevious, None) => Some((count - 1) as usize),
        }
    }
}

impl Action {
    /// Carries the action out on a window list of `count` windows of which
    /// the one at `current` has the focus: gives the change of focus to
    /// make, if any.
    pub fn execute(self, current: Option<usize>, count: usize) -> (r: Option<FocusChange>)
        ensures
            match focus_target(self, current, count) {
                Some(target) => r == Some(FocusChange { previous: current, target }),
                None => r is None,
            },
            r matches Some(change) ==> change.target < count,
    {
        if count == 0 {
            return None;
        }
        let target: usize = match self {
            Action::FocusNext => match current {
                Some(i) => {
                    if i < count - 1 {
                        i + 1
                    } else {
                        return None;
                    }
                },
                None => 0,
            },
            Action::FocusPrevious => match current {
                Some(i) => {
                    if 0 < i && i < count {
                        i - 1
                    } else {
                        return None;
                    }
                },
                None => count - 1,
            },
        };
        Some(FocusChange { previous: current, target })
    }
}

} // verus!
