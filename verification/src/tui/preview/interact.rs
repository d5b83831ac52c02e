//! Mouse and keys in the preview.

use vstd::prelude::*;

use crate::code::CodeId;
use crate::config::{
    BORDER_HEIGHT, CODE_GUTTER_WIDTH, PREVIEW_CONTENT_TOP_OFFSET, PREVIEW_CONTENT_X_OFFSET,
};
use crate::num::{fit_u16, larger, less_by, smaller};
use crate::text::{chars_of, string_of};
use crate::theme::Theme;
use crate::theme_library::Painter;
use crate::tui::markdown::line::{lines_wf, LogicalLine};
use crate::tui::markdown::paint::RenderContext;
use crate::tui::preview::layout_lines::{measuring, rows_ok, LayoutLines};
use crate::tui::preview::pane::{content_bottom, content_top, Preview};
use crate::tui::preview::selection::PreviewSelection;
use crate::tui::selection::{
    cell_in, chars_before, copy_view, gives, text_view, CopyLine, CopyView, SelectionState,
    SelectionView,
};

verus! {

/// What the mouse did.
#[derive(Clone, Copy, Debug, PartialEq, Eq, Structural)]
pub enum MouseKind {
    ScrollUp,
    ScrollDown,
    LeftDown,
    LeftDrag,
    LeftUp,
    Other,
}

/// What the mouse did, and where.
#[derive(Clone, Copy, Debug, PartialEq, Eq, Structural)]
pub struct Mouse {
    pub kind: MouseKind,
    pub column: u16,
    pub row: u16,
}

/// What the preview can be asked to do.
#[derive(Clone, Copy, Debug, PartialEq, Eq, Structural)]
pub enum Action {
    ScrollUp,
    ScrollDown,
    ToggleToc,
    ToggleMode,
    /// Jumps to a code block.
    Show(CodeId),
    /// Copies the selected text.
    Copy,
    /// The selection changed.
    Select,
    /// A code block was clicked.
    SelectCodeBlock(CodeId),
    PageUp,
    PageDown,
}

/// A text that starts with a gutter.
pub open spec fn has_gutter(text: Seq<char>) -> bool {
    text.len() >= 2 && text[0] == '▎' && text[1] == ' '
}

/// A row as it is copied: without its gutter.
pub open spec fn copied_row(
    rows: LayoutLines,
    lines: Seq<LogicalLine>,
    theme: &Theme,
    painter: &Painter,
    idx: int,
) -> Option<CopyView> {
    if 0 <= idx < rows.lines@.len() {
        let row = rows.lines@[idx];
        let line = lines[row.logical_idx as int]@;
        let text = row.plain_row(line, measuring(theme, painter, rows.last_width)).text();
        Some(
            if line.gutter() && has_gutter(text) {
                CopyView {
                    text: text.skip(2),
                    continuation: row.start > 0,
                    prefix: CODE_GUTTER_WIDTH as int,
                }
            } else {
                CopyView {
                    text,
                    continuation: row.start > 0,
                    prefix: if line.gutter() && row.wrap_idx > 0 {
                        CODE_GUTTER_WIDTH as int
                    } else {
                        0
                    },
                }
            },
        )
    } else {
        None
    }
}

fn copy_row(
    rows: &LayoutLines,
    lines: &Vec<LogicalLine>,
    theme: &Theme,
    painter: &Painter,
    idx: usize,
) -> (line: Option<CopyLine>)
    requires
        rows_ok(rows.lines@, lines@),
        lines_wf(lines@),
    ensures
        copy_view(line) == copied_row(*rows, lines@, theme, painter, idx as int),
{
    if idx >= rows.lines.len() {
        return None;
    }
    let row = rows.lines[idx];
    let line = &lines[row.logical_idx];
    let ctx = RenderContext {
        theme,
        painter,
        active_code_id: None,
        prefer_status_gutter: None,
        spinner_char: ' ',
        viewport_width: rows.last_width,
    };
    let text = row.render_plain(line, &ctx).text();
    let gutter = line.has_code_gutter();
    let chars = chars_of(text.as_str());
    if gutter && chars.len() >= 2 && chars[0] == '▎' && chars[1] == ' ' {
        let stripped = string_of(
            vstd::slice::slice_subrange(chars.as_slice(), 2, chars.len()),
        );
        assert(stripped@ =~= chars@.skip(2));
        return Some(
            CopyLine {
                text: stripped,
                is_continuation: row.start > 0,
                display_prefix_len: CODE_GUTTER_WIDTH,
            },
        );
    }
    let prefix: usize = if gutter && row.wrap_idx > 0 {
        CODE_GUTTER_WIDTH
    } else {
        0
    };
    Some(CopyLine { text, is_continuation: row.start > 0, display_prefix_len: prefix })
}

/// Rows as they are copied.
pub open spec fn copied_rows(
    rows: LayoutLines,
    lines: Seq<LogicalLine>,
    theme: &Theme,
    painter: &Painter,
) -> spec_fn(int) -> Option<CopyView> {
    |idx: int| copied_row(rows, lines, theme, painter, idx)
}

spec fn gives_row(
    rows: LayoutLines,
    lines: Seq<LogicalLine>,
    theme: &Theme,
    painter: &Painter,
    idx: usize,
    line: Option<CopyLine>,
) -> bool {
    copy_view(line) == copied_row(rows, lines, theme, painter, idx as int)
}

/// The selected text of some rows.
pub(crate) fn copy_selected(
    selection: &PreviewSelection,
    rows: &LayoutLines,
    lines: &Vec<LogicalLine>,
    theme: &Theme,
    painter: &Painter,
) -> (text: Option<String>)
    requires
        rows_ok(rows.lines@, lines@),
        lines_wf(lines@),
    ensures
        text_view(text) == selection.state@.copied(copied_rows(*rows, lines@, theme, painter)),
{
    let get_line = |idx: usize| -> (line: Option<CopyLine>)
        ensures
            gives_row(*rows, lines@, theme, painter, idx, line),
        { copy_row(rows, lines, theme, painter, idx) };
    let text = selection.copy_text(get_line);
    assert(gives(get_line, copied_rows(*rows, lines@, theme, painter)));
    text
}

/// The text to copy, and what to do next.
pub struct MouseOutcome {
    pub action: Option<Action>,
    /// The selected text, to be put on the clipboard.
    pub copy: Option<String>,
}

impl Preview {
    /// The rows as they are copied.
    pub open spec fn copies(&self) -> spec_fn(int) -> Option<CopyView> {
        copied_rows(self.layout_lines, self.logical_lines@, &self.theme, &self.painter)
    }

    /// The row of the preview that a row of the terminal is in.
    pub open spec fn rel_row(&self, row: u16) -> Option<int> {
        if content_top(self.last_area) <= row < content_bottom(self.last_area) {
            Some(row - content_top(self.last_area))
        } else {
            None
        }
    }

    fn mouse_content_rel_row(&self, row: u16) -> (rel: Option<usize>)
        ensures
            match rel {
                Some(r) => self.rel_row(row) == Some(r as int),
                None => self.rel_row(row) is None,
            },
    {
        let area = self.last_area;
        let top: u16 = area.y.saturating_add(PREVIEW_CONTENT_TOP_OFFSET);
        let bottom: u16 = area.y.saturating_add(area.height.saturating_sub(BORDER_HEIGHT as u16));
        if row < top || row >= bottom {
            return None;
        }
        Some((row - top) as usize)
    }

    /// The code block under the mouse.
    pub fn code_id_at_mouse(&self, mouse: Mouse) -> (id: Option<CodeId>)
        requires
            self.wf(),
        ensures
            id == (match self.rel_row(mouse.row) {
                Some(row) => if self.last_area.holds(mouse.column, mouse.row) {
                    self.code_at(self.state.offset + row)
                } else {
                    None
                },
                None => None,
            }),
    {
        if !self.last_area.contains(mouse.column, mouse.row) {
            return None;
        }
        let rel = match self.mouse_content_rel_row(mouse.row) {
            Some(rel) => rel,
            None => {
                return None;
            },
        };
        let n: usize = self.layout_lines.len();
        if rel >= n - self.state.offset {
            return None;
        }
        match self.layout_lines.get(self.state.offset + rel) {
            Some(row) => row.code_id(&self.logical_lines),
            None => None,
        }
    }

    /// Where a click on a code block falls on the screen of its program, counted
    /// from one.
    pub open spec fn pty_coords(&self, id: CodeId, mouse: Mouse, cols: u16, rows: u16) -> Option<
        (int, int),
    > {
        match (self.rel_row(mouse.row), self.start_row(id)) {
            (Some(rel), Some(first)) => {
                let at = self.state.offset + rel;
                if self.code_at(at) == Some(id) && first <= at < first + rows {
                    Some(
                        (
                            smaller(
                                fit_u16(
                                    less_by(
                                        mouse.column as int,
                                        self.last_area.x + PREVIEW_CONTENT_X_OFFSET
                                            + self.overhead(id),
                                    ) + 1,
                                ),
                                cols as int,
                            ),
                            at - first + 1,
                        ),
                    )
                } else {
                    None
                }
            },
            _ => None,
        }
    }

    /// Where a click on a code block falls on the screen of its program, counted
    /// from one; `None` outside of the block and for a block not in view.
    pub fn mouse_to_pty_coords(&self, id: CodeId, mouse: Mouse, pty_cols: u16, pty_rows: u16) -> (at:
        Option<(u16, u16)>)
        requires
            self.wf(),
        ensures
            match at {
                Some((col, row)) => self.pty_coords(id, mouse, pty_cols, pty_rows) == Some(
                    (col as int, row as int),
                ),
                None => self.pty_coords(id, mouse, pty_cols, pty_rows) is None,
            },
    {
        let rel = match self.mouse_content_rel_row(mouse.row) {
            Some(rel) => rel,
            None => {
                return None;
            },
        };
        let first = match self.layout_lines.find_code_start(id, &self.logical_lines) {
            Some(first) => first,
            None => {
                return None;
            },
        };
        let n: usize = self.layout_lines.len();
        if rel >= n - self.state.offset {
            return None;
        }
        let at: usize = self.state.offset + rel;
        let row = self.layout_lines.lines[at];
        if row.code_id(&self.logical_lines) != Some(id) {
            return None;
        }
        if at < first || at - first >= pty_rows as usize {
            return None;
        }
        let left: usize = (self.last_area.x as usize + PREVIEW_CONTENT_X_OFFSET as usize).saturating_add(
            self.code_prefix_overhead(id),
        );
        let column: usize = (mouse.column as usize).saturating_sub(left);
        let col: u16 = (column as u16).saturating_add(1).min(pty_cols);
        Some((col, (at - first + 1) as u16))
    }

    /// The row and the character that a position of the terminal is at.
    pub open spec fn text_at(&self, row: u16, column: u16) -> Option<(int, int)> {
        match cell_in(self.last_area, row, column, PREVIEW_CONTENT_X_OFFSET) {
            Some((rel, col)) => {
                let at = self.state.offset + rel;
                if at < self.rows().len() {
                    let ctx = measuring(&self.theme, &self.painter, self.layout_lines.last_width);
                    let line = self.logical_lines@[self.rows()[at].logical_idx as int]@;
                    let shown = self.rows()[at].shown(line, line.shown(ctx, false), ctx);
                    Some((at, chars_before(shown.text(), 0, col)))
                } else {
                    None
                }
            },
            None => None,
        }
    }

    fn mouse_selection_position(&self, row: u16, column: u16) -> (at: Option<(usize, usize)>)
        requires
            self.wf(),
        ensures
            match at {
                Some((line, offset)) => self.text_at(row, column) == Some(
                    (line as int, offset as int),
                ) && line < self.rows().len(),
                None => self.text_at(row, column) is None,
            },
    {
        let (rel, col) = match SelectionState::mouse_to_cell(
            self.last_area,
            row,
            column,
            PREVIEW_CONTENT_X_OFFSET,
        ) {
            Some(cell) => cell,
            None => {
                return None;
            },
        };
        let n: usize = self.layout_lines.len();
        if rel >= n - self.state.offset {
            return None;
        }
        let at: usize = self.state.offset + rel;
        let ctx = RenderContext {
            theme: &self.theme,
            painter: &self.painter,
            active_code_id: None,
            prefer_status_gutter: None,
            spinner_char: ' ',
            viewport_width: self.layout_lines.last_width,
        };
        let layout = self.layout_lines.lines[at];
        let line = &self.logical_lines[layout.logical_idx];
        let rendered = line.render_plain(&ctx);
        let shown = layout.render(line, &rendered, &ctx);
        Some((at, SelectionState::char_offset_from_col(shown.spans.as_slice(), col)))
    }

    /// A position moved into the text of the preview.
    pub open spec fn inside(&self, mouse: Mouse) -> (int, int) {
        let area = self.last_area;
        (
            smaller(larger(mouse.row as int, content_top(area)), content_bottom(area)),
            smaller(
                larger(mouse.column as int, fit_u16(area.x + PREVIEW_CONTENT_X_OFFSET)),
                fit_u16(area.x + less_by(area.width as int, PREVIEW_CONTENT_X_OFFSET as int)),
            ),
        )
    }

    /// The preview and what to do next after the mouse did something.
    pub open spec fn after_mouse(&self, before: &Preview, mouse: Mouse, outcome: MouseOutcome) -> bool {
        let area = before.last_area;
        let over = area.holds(mouse.column, mouse.row);
        let unchanged = *self == *before;
        let selection = before.selection.state@;
        match mouse.kind {
            MouseKind::ScrollUp => unchanged && outcome.action == Some(Action::ScrollUp)
                && outcome.copy is None,
            MouseKind::ScrollDown => unchanged && outcome.action == Some(Action::ScrollDown)
                && outcome.copy is None,
            MouseKind::LeftDown => if over {
                &&& outcome.action == Some(Action::Select)
                &&& outcome.copy is None
                &&& match before.text_at(mouse.row, mouse.column) {
                    Some((line, offset)) => {
                        &&& self.state == before.state.selecting(Some(line as usize))
                        &&& self.selection.state@ == SelectionView::started(
                            line as usize,
                            offset as usize,
                        )
                        &&& self.selection.pending_code_click == before.code_at(line)
                    },
                    None => {
                        &&& self.state == before.state
                        &&& self.selection.state@ == SelectionView::nothing()
                        &&& self.selection.pending_code_click is None
                    },
                }
                &&& *self == (Preview { state: self.state, selection: self.selection, ..*before })
            } else {
                unchanged && outcome.action is None && outcome.copy is None
            },
            MouseKind::LeftDrag => if selection.dragging {
                let (row, column) = before.inside(mouse);
                &&& outcome.copy is None
                &&& self.selection.pending_code_click is None
                &&& *self == (Preview { selection: self.selection, ..*before })
                &&& match before.text_at(row as u16, column as u16) {
                    Some((line, offset)) => self.selection.state@ == selection.extended(
                        line as usize,
                        offset as usize,
                    ) && outcome.action == Some(Action::Select),
                    None => self.selection.state@ == selection && outcome.action is None,
                }
            } else {
                unchanged && outcome.action is None && outcome.copy is None
            },
            MouseKind::LeftUp => if over {
                &&& self.selection.state@ == (SelectionView { dragging: false, ..selection })
                &&& self.selection.pending_code_click is None
                &&& self.copy_result is None
                &&& *self == (Preview {
                    selection: self.selection,
                    copy_result: self.copy_result,
                    ..*before
                })
                &&& text_view(outcome.copy) == (if selection.dragging {
                    selection.copied(before.copies())
                } else {
                    None
                })
                &&& outcome.action == Some(
                    match before.selection.pending_code_click {
                        Some(id) => Action::SelectCodeBlock(id),
                        None => Action::Select,
                    },
                )
            } else {
                unchanged && outcome.action is None && outcome.copy is None
            },
            MouseKind::Other => unchanged && outcome.action is None && outcome.copy is None,
        }
    }

    fn finish_selection(&mut self) -> (text: Option<String>)
        requires
            old(self).wf(),
        ensures
            final(self).wf(),
            *final(self) == (Preview { selection: final(self).selection, ..*old(self) }),
            final(self).selection.state@ == (SelectionView {
                dragging: false,
                ..old(self).selection.state@
            }),
            final(self).selection.pending_code_click == old(self).selection.pending_code_click,
            text_view(text) == (if old(self).selection.state@.dragging {
                old(self).selection.state@.copied(old(self).copies())
            } else {
                None
            }),
    {
        let rows = &self.layout_lines;
        let lines = &self.logical_lines;
        let theme = &self.theme;
        let painter = &self.painter;
        let get_line = |idx: usize| -> (line: Option<CopyLine>)
            ensures
                gives_row(*rows, lines@, theme, painter, idx, line),
            { copy_row(rows, lines, theme, painter, idx) };
        assert(gives(get_line, copied_rows(*rows, lines@, theme, painter)));
        self.selection.finish(get_line)
    }

    /// Reacts to the mouse: scrolling, clicks on code blocks, and text selection.
    pub fn handle_mouse_event(&mut self, mouse: Mouse) -> (outcome: MouseOutcome)
        requires
            old(self).wf(),
        ensures
            final(self).wf(),
            final(self).after_mouse(old(self), mouse, outcome),
    {
        match mouse.kind {
            MouseKind::ScrollUp => MouseOutcome { action: Some(Action::ScrollUp), copy: None },
            MouseKind::ScrollDown => MouseOutcome { action: Some(Action::ScrollDown), copy: None },
            MouseKind::LeftDown => {
                if !self.last_area.contains(mouse.column, mouse.row) {
                    return MouseOutcome { action: None, copy: None };
                }
                match self.mouse_selection_position(mouse.row, mouse.column) {
                    Some((line, offset)) => {
                        self.state.select(Some(line));
                        let row = self.layout_lines.lines[line];
                        let pending = row.code_id(&self.logical_lines);
                        self.selection.set_pending_code_click(pending);
                        self.selection.start(line, offset);
                    },
                    None => {
                        self.selection.set_pending_code_click(None);
                        self.selection.clear();
                    },
                }
                MouseOutcome { action: Some(Action::Select), copy: None }
            },
            MouseKind::LeftDrag => {
                if !self.selection.is_dragging() {
                    return MouseOutcome { action: None, copy: None };
                }
                self.selection.set_pending_code_click(None);
                let area = self.last_area;
                let top: u16 = area.y.saturating_add(PREVIEW_CONTENT_TOP_OFFSET);
                let bottom: u16 = area.y.saturating_add(
                    area.height.saturating_sub(BORDER_HEIGHT as u16),
                );
                let left: u16 = area.x.saturating_add(PREVIEW_CONTENT_X_OFFSET);
                let right: u16 = area.x.saturating_add(
                    area.width.saturating_sub(PREVIEW_CONTENT_X_OFFSET),
                );
                let row: u16 = mouse.row.max(top).min(bottom);
                let column: u16 = mouse.column.max(left).min(right);
                match self.mouse_selection_position(row, column) {
                    Some((line, offset)) => {
                        self.selection.extend(line, offset);
                        MouseOutcome { action: Some(Action::Select), copy: None }
                    },
                    None => MouseOutcome { action: None, copy: None },
                }
            },
            MouseKind::LeftUp => {
                if !self.last_area.contains(mouse.column, mouse.row) {
                    return MouseOutcome { action: None, copy: None };
                }
                let copy = self.finish_selection();
                self.copy_result = None;
                let action = match self.selection.take_pending_code_click() {
                    Some(id) => Action::SelectCodeBlock(id),
                    None => Action::Select,
                };
                MouseOutcome { action: Some(action), copy }
            },
            MouseKind::Other => MouseOutcome { action: None, copy: None },
        }
    }
}

} // verus!
