//! Moving through a list.

use vstd::prelude::*;

verus! {

#[derive(Clone, Copy, Debug, PartialEq, Eq, Hash, Structural)]
pub enum Navigation {
    /// Move to next item
    Next,
    /// Move to previous item
    Prev,
    /// Move to first item
    First,
    /// Move to last item
    Last,
    /// Page up
    PageUp,
    /// Page down
    PageDown,
}

} // verus!
