use vstd::prelude::*;

use crate::geometry::{normalize, normalized, Point, Rect};

verus! {

/// Where the user is in dragging out a region.
#[derive(Debug, Clone, Copy, PartialEq, Eq, Structural)]
pub enum SelectionState {
    Idle,
    Selecting { start: Point },
    Terminated { result: Option<Rect> },
}

impl SelectionState {
    pub fn is_terminated(&self) -> (b: bool)
        ensures
            b == (*self is Terminated),
    {
        match self {
            SelectionState::Terminated { .. } => true,
            _ => false,
        }
    }

    /// A primary-button press at `pos`: an idle selection starts there; any other
    /// state stays as it is.
    pub fn press(self, pos: Point) -> (r: SelectionState)
        ensures
            self is Idle ==> r == (SelectionState::Selecting { start: pos }),
            !(self is Idle) ==> r == self,
    {
        match self {
            SelectionState::Idle => SelectionState::Selecting { start: pos },
            _ => self,
        }
    }

    /// A primary-button release at `pos`: a selection in progress ends with the
    /// rectangle spanned by its start and `pos`; any other state stays as it is.
    pub fn release(self, pos: Point) -> (r: SelectionState)
        ensures
            self matches SelectionState::Selecting { start } ==> r == (SelectionState::Terminated {
                result: Some(normalized(start, pos)),
            }),
            !(self is Selecting) ==> r == self,
    {
        match self {
            SelectionState::Selecting { start } => SelectionState::Terminated {
                result: Some(normalize(start, pos)),
            },
            _ => self,
        }
    }

    /// The cancel key, or the session closing: ends without a result, unless already
    /// ended.
    pub fn cancel(self) -> (r: SelectionState)
        ensures
            !(self is Terminated) ==> r == (SelectionState::Terminated { result: None }),
            self is Terminated ==> r == self,
    {
        match self {
            SelectionState::Terminated { .. } => self,
            _ => SelectionState::Terminated { result: None },
        }
    }
}

} // verus!
