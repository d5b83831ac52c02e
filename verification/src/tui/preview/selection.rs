//! Text selection in the preview.

use vstd::prelude::*;

use crate::code::CodeId;
use crate::tui::selection::{
    gives, is_source, text_view, CopyLine, CopyView, SelectionState, SelectionView,
};

verus! {

/// A selection, and the code block that was clicked.
pub struct PreviewSelection {
    pub state: SelectionState,
    pub pending_code_click: Option<CodeId>,
}

impl Default for PreviewSelection {
    fn default() -> (selection: PreviewSelection)
        ensures
            selection.state@ == SelectionView::nothing(),
            selection.pending_code_click is None,
    {
        PreviewSelection::new()
    }
}

impl PreviewSelection {
    /// Nothing selected.
    pub fn new() -> (selection: PreviewSelection)
        ensures
            selection.state@ == SelectionView::nothing(),
            selection.pending_code_click is None,
    {
        PreviewSelection { state: SelectionState::new(), pending_code_click: None }
    }

    /// Starts a selection.
    pub fn start(&mut self, line: usize, char_offset: usize)
        ensures
            final(self).state@ == SelectionView::started(line, char_offset),
            final(self).pending_code_click == old(self).pending_code_click,
    {
        self.state.start(line, char_offset);
    }

    /// Extends the selection while dragging.
    pub fn extend(&mut self, line: usize, char_offset: usize)
        ensures
            final(self).state@ == old(self).state@.extended(line, char_offset),
            final(self).pending_code_click == old(self).pending_code_click,
    {
        self.state.extend(line, char_offset);
    }

    /// Stops dragging and returns the selected text.
    pub fn finish<F: Fn(usize) -> Option<CopyLine>>(&mut self, get_line: F) -> (text: Option<
        String,
    >)
        requires
            is_source(get_line),
        ensures
            final(self).state@ == (SelectionView { dragging: false, ..old(self).state@ }),
            final(self).pending_code_click == old(self).pending_code_click,
            !old(self).state@.dragging ==> text is None,
            forall|lines: spec_fn(int) -> Option<CopyView>|
                old(self).state@.dragging && #[trigger] gives(get_line, lines) ==> text_view(text)
                    == old(self).state@.copied(lines),
    {
        self.state.finish(get_line)
    }

    /// Clears the selection.
    pub fn clear(&mut self)
        ensures
            final(self).state@ == SelectionView::nothing(),
            final(self).pending_code_click == old(self).pending_code_click,
    {
        self.state.clear();
    }

    pub fn is_dragging(&self) -> (dragging: bool)
        ensures
            dragging == self.state@.dragging,
    {
        self.state.is_dragging()
    }

    /// The selected part of a line.
    pub fn range_for_line(&self, line_idx: usize, line_len: usize) -> (range: Option<(usize, usize)>)
        ensures
            match range {
                Some((from, to)) => self.state@.range_for(line_idx, line_len) == Some(
                    (from as int, to as int),
                ),
                None => self.state@.range_for(line_idx, line_len) is None,
            },
    {
        self.state.range_for_line(line_idx, line_len)
    }

    /// Notes the code block that was clicked.
    pub fn set_pending_code_click(&mut self, id: Option<CodeId>)
        ensures
            final(self).state == old(self).state,
            final(self).pending_code_click == id,
    {
        self.pending_code_click = id;
    }

    /// Takes the code block that was clicked.
    pub fn take_pending_code_click(&mut self) -> (id: Option<CodeId>)
        ensures
            id == old(self).pending_code_click,
            final(self).pending_code_click is None,
            final(self).state == old(self).state,
    {
        self.pending_code_click.take()
    }

    /// The selected text.
    pub fn copy_text<F: Fn(usize) -> Option<CopyLine>>(&self, get_line: F) -> (text: Option<String>)
        requires
            is_source(get_line),
        ensures
            forall|lines: spec_fn(int) -> Option<CopyView>| #[trigger]
                gives(get_line, lines) ==> text_view(text) == self.state@.copied(lines),
    {
        self.state.copy_text(get_line)
    }

    /// Clears a selection that reaches beyond the lines.
    pub fn clamp_or_clear(&mut self, line_count: usize)
        ensures
            final(self).state@ == (if line_count == 0 || old(self).state@.outside(
                line_count as int,
            ) {
                SelectionView::nothing()
            } else {
                old(self).state@
            }),
            final(self).pending_code_click == old(self).pending_code_click,
    {
        self.state.clamp_or_clear(line_count);
    }
}

} // verus!
