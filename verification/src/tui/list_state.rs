//! Selection and scroll offset of a list.

use vstd::prelude::*;

verus! {

/// The selected entry of a list, and the first one that is shown.
#[derive(Clone, Copy, Debug, PartialEq, Eq)]
pub struct ListState {
    pub selected: Option<usize>,
    pub offset: usize,
}

impl Default for ListState {
    fn default() -> (state: ListState)
        ensures
            state == (ListState { selected: None, offset: 0 }),
    {
        ListState { selected: None, offset: 0 }
    }
}

impl ListState {
    /// The state with another selection; a list without one is shown from the
    /// start.
    pub open spec fn selecting(self, selected: Option<usize>) -> ListState {
        ListState {
            selected,
            offset: if selected is None {
                0
            } else {
                self.offset
            },
        }
    }

    /// Selects an entry.
    pub fn select(&mut self, selected: Option<usize>)
        ensures
            *final(self) == old(self).selecting(selected),
    {
        self.selected = selected;
        if selected.is_none() {
            self.offset = 0;
        }
    }
}

/// Selecting a row scrolls nothing; selecting none goes back to the top.
pub proof fn law_selecting_scrolls_nothing(state: ListState, row: usize)
    ensures
        state.selecting(Some(row)).selected == Some(row),
        state.selecting(Some(row)).offset == state.offset,
        state.selecting(None).selected is None,
        state.selecting(None).offset == 0,
{
}

} // verus!
