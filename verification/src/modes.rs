//! The modes the screen reader can be in.

use vstd::prelude::*;

verus! {

/// How the screen reader interprets key presses.
#[derive(Clone, Copy, PartialEq, Eq, Debug, Hash, Structural)]
pub enum ScreenReaderMode {
    /// Keys go to the focused application.
    Focus,
    /// Keys navigate the document.
    Browse,
}

} // verus!
