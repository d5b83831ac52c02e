//! The preview pane: a document, its layout, and where the reader is.

use std::collections::HashMap;

use vstd::prelude::*;

use crate::code::{code_by_id, code_of, has_block, Code, CodeId};
use crate::config::{
    BORDER_HEIGHT, INLINE_MAX_LINES_FRACTION, INLINE_MAX_LINES_MAX,
    INLINE_MAX_LINES_MIN, PREVIEW_CONTENT_TOP_OFFSET,
};
use crate::num::{fit_u16, larger, less_by, smaller};
use crate::rect::Rect;
use crate::seqs::indices_where;
use crate::text::{contains_text, lowercase_of, lowered, strings_view};
use crate::theme::Theme;
use crate::theme_library::Painter;
use crate::tui::list_state::ListState;
use crate::tui::markdown::ast::Node;
use crate::tui::markdown::document::document_ok;
use crate::tui::markdown::known::lines_known;
use crate::tui::markdown::line::{lines_wf, logical_views, LogicalLine, RenderMode};
use crate::tui::preview::images::ImageCache;
use crate::tui::preview::layout_lines::{
    first_row, rows_of_line, rows_ok, LayoutLine, LayoutLines, RowTest,
};
use crate::tui::preview::rows::{
    extent_of, find_extent, inline_pty_rows, pty_rows,
};
use crate::tui::preview::search::{
    law_search_finds_all, lower_texts, matching_rows, row_matches, term_view, PreviewSearch,
};
use crate::tui::preview::selection::PreviewSelection;

verus! {

broadcast use vstd::std_specs::hash::group_hash_axioms;

/// How many rows of a code block have to be in view for it to be clear which one
/// is selected.
pub const CODE_NAVIGATION_CONTEXT_ROWS: usize = 3;

/// The preview of a document.
pub struct Preview {
    pub source: String,
    pub nodes: Vec<Node>,
    /// Code blocks in document order.
    pub codes: Vec<Code>,
    /// The lines of the document.
    pub logical_lines: Vec<LogicalLine>,
    /// The rows of the lines.
    pub layout_lines: LayoutLines,
    pub state: ListState,
    pub theme: Theme,
    pub painter: Painter,
    pub search: PreviewSearch,
    pub inline_max_lines_cap: usize,
    pub inline_max_lines: usize,
    pub last_area: Rect,
    pub selection: PreviewSelection,
    /// The block to jump to once rows are laid out.
    pub target_block: Option<CodeId>,
    /// The block whose status shows in its gutter even where it is active.
    pub prefer_status_gutter: Option<CodeId>,
    /// Whether the last copy succeeded, until that was asked for.
    pub copy_result: Option<bool>,
    /// The characters in front of code blocks.
    pub code_prefix_overhead: HashMap<CodeId, usize>,
    pub images: ImageCache,
    /// The directory that image paths are resolved against.
    pub image_base_dir: String,
    pub mode: RenderMode,
}

/// Whether a line is a heading.
pub open spec fn is_heading(lines: Seq<LogicalLine>) -> spec_fn(int) -> bool {
    |i: int| lines[i]@.source is Heading
}

/// The headings of a document.
pub open spec fn headings(lines: Seq<LogicalLine>, n: nat) -> Seq<usize> {
    indices_where(n, is_heading(lines))
}

/// A row as selected and first row to show.
pub open spec fn at_row(idx: usize) -> ListState {
    ListState { selected: Some(idx), offset: idx }
}

/// The first row that is inside the border.
pub open spec fn content_top(area: Rect) -> int {
    fit_u16(area.y + PREVIEW_CONTENT_TOP_OFFSET)
}

/// The row behind the last one that a click counts in.
pub open spec fn content_bottom(area: Rect) -> int {
    fit_u16(area.y + less_by(area.height as int, BORDER_HEIGHT as int))
}

impl Preview {
    /// The document can be shown, its lines belong to its code blocks, its rows to its
    /// lines, the searched texts are those of its lines, and the reader is within them.
    pub open spec fn wf(&self) -> bool {
        &&& self.current_row() <= self.rows().len()
        &&& self.state.offset <= self.rows().len()
        &&& document_ok(self.nodes, self.codes@, self.source@)
        &&& lines_wf(self.logical_lines@)
        &&& lines_known(logical_views(self.logical_lines@), self.codes@)
        &&& rows_ok(self.layout_lines.lines@, self.logical_lines@)
        &&& self.layout_lines.last_width > 0
        &&& strings_view(self.search.logical_texts@) == lower_texts(
            logical_views(self.logical_lines@),
        )
    }

    /// The rows of the document.
    pub open spec fn rows(&self) -> Seq<LayoutLine> {
        self.layout_lines.lines@
    }

    /// The row of a block's start.
    pub open spec fn start_row(&self, id: CodeId) -> Option<usize> {
        first_row(self.rows(), RowTest::CodeStart(id).keep(self.logical_lines@))
    }

    /// The block that a row belongs to.
    pub open spec fn code_at(&self, row: int) -> Option<CodeId> {
        if 0 <= row < self.rows().len() {
            self.logical_lines@[self.rows()[row].logical_idx as int].code_id
        } else {
            None
        }
    }

    /// The block that the selected row belongs to.
    pub open spec fn selected_code(&self) -> Option<CodeId> {
        match self.state.selected {
            Some(row) => self.code_at(row as int),
            None => None,
        }
    }

    /// Enough of a block that starts in a row is in view.
    pub open spec fn in_context(&self, row: int) -> bool {
        let height = self.layout_lines.last_height as int;
        let offset = self.state.offset as int;
        &&& height > 0
        &&& row >= offset
        &&& row + smaller(CODE_NAVIGATION_CONTEXT_ROWS as int, height) <= offset + height
    }

    /// The selected row, the first where none is.
    pub open spec fn current_row(&self) -> int {
        match self.state.selected {
            Some(row) => row as int,
            None => 0,
        }
    }

    /// With a code block selected: at the top of the viewport, unless enough of it
    /// is in view; one without rows is selected once it has some.
    pub open spec fn showing(&self, id: CodeId) -> Preview {
        match self.start_row(id) {
            Some(row) => if self.in_context(row as int) {
                Preview {
                    target_block: None,
                    state: self.state.selecting(Some(row)),
                    ..*self
                }
            } else {
                Preview { target_block: Some(id), state: at_row(row), ..*self }
            },
            None => Preview { target_block: Some(id), ..*self },
        }
    }

    /// With a code block selected where it is.
    pub open spec fn marking(&self, id: CodeId) -> Preview {
        Preview {
            target_block: None,
            state: match self.start_row(id) {
                Some(row) => self.state.selecting(Some(row)),
                None => self.state,
            },
            ..*self
        }
    }

    /// With a heading selected: at the top of the viewport, unless it is in view.
    pub open spec fn showing_heading(&self, heading_idx: int) -> Preview {
        match self.heading_row(heading_idx) {
            Some(row) => Preview {
                state: if self.state.offset <= row < self.state.offset
                    + self.layout_lines.last_height {
                    self.state.selecting(Some(row))
                } else {
                    at_row(row)
                },
                ..*self
            },
            None => *self,
        }
    }

    /// The line of the selected row.
    pub open spec fn selected_line(&self) -> Option<usize> {
        match self.state.selected {
            Some(row) => if row < self.rows().len() {
                Some(self.rows()[row as int].logical_idx)
            } else {
                None
            },
            None => None,
        }
    }

    /// How many headings come before the one at or above a line.
    pub open spec fn headings_above(&self, logical_idx: int) -> int {
        less_by(headings(self.logical_lines@, (logical_idx + 1) as nat).len() as int, 1)
    }

    /// Prefers the status of a block in its gutter.
    pub fn prefer_status_gutter_for(&mut self, id: CodeId)
        ensures
            old(self).wf() ==> final(self).wf(),
            *final(self) == (Preview { prefer_status_gutter: Some(id), ..*old(self) }),
    {
        self.prefer_status_gutter = Some(id);
    }

    /// Switches between the two ways to show the document.
    pub fn toggle_mode(&mut self)
        ensures
            old(self).wf() ==> final(self).wf(),
            *final(self) == (Preview {
                mode: match old(self).mode {
                    RenderMode::Visual => RenderMode::Markup,
                    RenderMode::Markup => RenderMode::Visual,
                },
                ..*old(self)
            }),
    {
        self.mode = match self.mode {
            RenderMode::Visual => RenderMode::Markup,
            RenderMode::Markup => RenderMode::Visual,
        };
    }

    /// The most lines of output that are shown below a code block.
    pub fn inline_max_lines(&self) -> (lines: usize)
        ensures
            lines == self.inline_max_lines,
    {
        self.inline_max_lines
    }

    /// A share of the height, but no more than was configured, and within fixed
    /// limits whatever that is.
    pub open spec fn inline_limit(&self, height: int) -> int {
        larger(
            smaller(
                height / INLINE_MAX_LINES_FRACTION as int,
                smaller(self.inline_max_lines_cap as int, INLINE_MAX_LINES_MAX as int),
            ),
            INLINE_MAX_LINES_MIN as int,
        )
    }

    /// Takes over a share of the height; tells whether that changed.
    pub fn set_inline_max_lines(&mut self, height: usize) -> (changed: bool)
        ensures
            old(self).wf() ==> final(self).wf(),
            INLINE_MAX_LINES_MIN <= final(self).inline_max_lines <= INLINE_MAX_LINES_MAX,
            *final(self) == (Preview {
                inline_max_lines: old(self).inline_limit(height as int) as usize,
                ..*old(self)
            }),
            changed == (old(self).inline_max_lines != old(self).inline_limit(height as int)),
    {
        let cap: usize = self.inline_max_lines_cap.min(INLINE_MAX_LINES_MAX);
        let max_inline: usize = (height / INLINE_MAX_LINES_FRACTION).min(cap).max(
            INLINE_MAX_LINES_MIN,
        );
        let changed = self.inline_max_lines != max_inline;
        self.inline_max_lines = max_inline;
        changed
    }

    /// How many headings come before the one at or above a line.
    pub fn heading_count_at_line(&self, logical_idx: usize) -> (count: usize)
        requires
            logical_idx < self.logical_lines@.len(),
        ensures
            count == self.headings_above(logical_idx as int),
    {
        let n: usize = self.logical_lines.len();
        let mut count: usize = 0;
        let mut i: usize = 0;
        while i <= logical_idx
            invariant
                i <= logical_idx + 1,
                logical_idx < n,
                n == self.logical_lines@.len(),
                count == headings(self.logical_lines@, i as nat).len(),
                count <= i,
            decreases logical_idx + 1 - i,
        {
            if self.logical_lines[i].heading_level().is_some() {
                count += 1;
            }
            i += 1;
        }
        count.saturating_sub(1)
    }

    /// The line that the selected row belongs to.
    pub fn selected_logical_line(&self) -> (line: Option<usize>)
        ensures
            line == self.selected_line(),
            self.wf() && line is Some ==> line->0 < self.logical_lines@.len(),
    {
        match self.state.selected {
            Some(row) => match self.layout_lines.get(row) {
                Some(row) => Some(row.logical_idx),
                None => None,
            },
            None => None,
        }
    }

    /// The block that the selected row belongs to.
    pub fn selected_code_id(&self) -> (id: Option<CodeId>)
        requires
            self.wf(),
        ensures
            id == self.selected_code(),
    {
        match self.state.selected {
            Some(row) => match self.layout_lines.get(row) {
                Some(row) => row.code_id(&self.logical_lines),
                None => None,
            },
            None => None,
        }
    }

    /// All code blocks in document order.
    pub fn codes(&self) -> (codes: &Vec<Code>)
        ensures
            *codes == self.codes,
    {
        &self.codes
    }

    /// A code block by its number.
    pub fn code_by_id(&self, id: CodeId) -> (code: Option<&Code>)
        ensures
            code is Some <==> has_block(self.codes@, id),
            code matches Some(c) ==> *c == code_of(self.codes@, id),
    {
        code_by_id(self.codes.as_slice(), id)
    }

    /// The characters in front of a code block.
    pub open spec fn overhead(&self, id: CodeId) -> int {
        if self.code_prefix_overhead@.contains_key(id) {
            self.code_prefix_overhead@[id] as int
        } else {
            0
        }
    }

    /// The characters in front of a code block, such as two in a block quote.
    pub fn code_prefix_overhead(&self, id: CodeId) -> (width: usize)
        ensures
            width == self.overhead(id),
    {
        match self.code_prefix_overhead.get(&id) {
            Some(width) => *width,
            None => 0,
        }
    }

    /// Reserves rows below a code block for a full-screen program, and scrolls as
    /// little as that takes.
    pub fn fit_inline_pty_rows(&mut self, id: CodeId, viewport: usize) -> (rows: Option<usize>)
        requires
            old(self).wf(),
        ensures
            final(self).wf(),
            match extent_of(old(self).rows(), old(self).logical_lines@, RowTest::CodeSource(id)) {
                Some((start, end)) => {
                    let fit = pty_rows(
                        viewport as int,
                        end as int,
                        end - start + 1,
                        old(self).state.offset as int,
                    );
                    &&& rows == Some(fit.0 as usize)
                    &&& *final(self) == (Preview {
                        state: ListState { offset: fit.1 as usize, ..old(self).state },
                        ..*old(self)
                    })
                },
                None => rows is None && *final(self) == *old(self),
            },
    {
        let n: usize = self.layout_lines.len();
        match find_extent(
            &self.layout_lines.lines,
            &self.logical_lines,
            RowTest::CodeSource(id),
        ) {
            Some((start, end)) => {
                let (rows, offset) = inline_pty_rows(
                    viewport,
                    end,
                    end - start + 1,
                    self.state.offset,
                );
                self.state.offset = offset;
                Some(rows)
            },
            None => None,
        }
    }

    fn select_and_scroll_smooth(&mut self, idx: usize)
        ensures
            *final(self) == (Preview { state: at_row(idx), ..*old(self) }),
    {
        self.state.select(Some(idx));
        self.state.offset = idx;
    }

    /// Selects the row a page below, as far as there are rows.
    pub fn page_down(&mut self)
        ensures
            old(self).wf() ==> final(self).wf(),
            *final(self) == (Preview {
                state: at_row(
                    smaller(
                        old(self).current_row() + old(self).layout_lines.last_height,
                        less_by(old(self).rows().len() as int, 1),
                    ) as usize,
                ),
                ..*old(self)
            }),
    {
        let current: usize = match self.state.selected {
            Some(row) => row,
            None => 0,
        };
        let next: usize = current.saturating_add(self.layout_lines.last_height).min(
            self.layout_lines.len().saturating_sub(1),
        );
        self.select_and_scroll_smooth(next);
    }

    /// Selects the row a page above, or the first.
    pub fn page_up(&mut self)
        ensures
            old(self).wf() ==> final(self).wf(),
            *final(self) == (Preview {
                state: at_row(
                    less_by(
                        old(self).current_row(),
                        old(self).layout_lines.last_height as int,
                    ) as usize,
                ),
                ..*old(self)
            }),
    {
        let current: usize = match self.state.selected {
            Some(row) => row,
            None => 0,
        };
        self.select_and_scroll_smooth(current.saturating_sub(self.layout_lines.last_height));
    }

    /// Scrolls down by one row; without rows nothing is selected.
    pub fn scroll_down(&mut self)
        ensures
            old(self).wf() ==> final(self).wf(),
            *final(self) == (Preview {
                state: if old(self).rows().len() == 0 {
                    ListState { selected: None, offset: 0 }
                } else {
                    at_row(
                        smaller(old(self).state.offset + 1, old(self).rows().len() - 1) as usize,
                    )
                },
                ..*old(self)
            }),
    {
        let len: usize = self.layout_lines.len();
        if len == 0 {
            self.state.select(None);
            self.state.offset = 0;
            return ;
        }
        let next: usize = self.state.offset.saturating_add(1).min(len - 1);
        self.select_and_scroll_smooth(next);
    }

    /// Scrolls up by one row; without rows nothing is selected.
    pub fn scroll_up(&mut self)
        ensures
            old(self).wf() ==> final(self).wf(),
            *final(self) == (Preview {
                state: if old(self).rows().len() == 0 {
                    ListState { selected: None, offset: 0 }
                } else {
                    at_row(less_by(old(self).state.offset as int, 1) as usize)
                },
                ..*old(self)
            }),
    {
        if self.layout_lines.is_empty() {
            self.state.select(None);
            self.state.offset = 0;
            return ;
        }
        self.select_and_scroll_smooth(self.state.offset.saturating_sub(1));
    }

    fn has_code_navigation_context(&self, idx: usize) -> (yes: bool)
        ensures
            yes == self.in_context(idx as int),
    {
        let height: usize = self.layout_lines.last_height;
        let offset: usize = self.state.offset;
        let required: usize = CODE_NAVIGATION_CONTEXT_ROWS.min(height);
        height > 0 && idx >= offset && idx - offset <= height - required
    }

    /// Selects a code block. It is brought to the top of the viewport, unless
    /// enough of it is in view; one without rows is selected once it has some.
    pub fn select_code(&mut self, id: CodeId)
        requires
            old(self).wf(),
        ensures
            final(self).wf(),
            *final(self) == old(self).showing(id),
    {
        match self.layout_lines.find_code_start(id, &self.logical_lines) {
            Some(idx) => {
                if self.has_code_navigation_context(idx) {
                    self.target_block = None;
                    self.state.select(Some(idx));
                } else {
                    self.target_block = Some(id);
                    self.select_and_scroll_smooth(idx);
                }
            },
            None => {
                self.target_block = Some(id);
            },
        }
    }

    /// Selects a code block without moving the viewport.
    pub fn select_code_in_place(&mut self, id: CodeId)
        requires
            old(self).wf(),
        ensures
            final(self).wf(),
            *final(self) == old(self).marking(id),
    {
        self.target_block = None;
        if let Some(idx) = self.layout_lines.find_code_start(id, &self.logical_lines) {
            self.state.select(Some(idx));
        }
    }

    /// The row of a heading.
    pub open spec fn heading_row(&self, heading_idx: int) -> Option<usize> {
        let found = headings(self.logical_lines@, self.logical_lines@.len());
        if heading_idx < found.len() {
            first_row(
                self.rows(),
                rows_of_line(found[heading_idx]),
            )
        } else {
            None
        }
    }

    /// Selects a heading. It is brought to the top of the viewport, unless it is
    /// in view.
    pub fn select_heading(&mut self, heading_idx: usize)
        requires
            old(self).wf(),
        ensures
            final(self).wf(),
            *final(self) == old(self).showing_heading(heading_idx as int),
    {
        let n: usize = self.logical_lines.len();
        let ghost all = headings(self.logical_lines@, n as nat);
        let mut count: usize = 0;
        let mut i: usize = 0;
        while i < n
            invariant
                i <= n,
                n == self.logical_lines@.len(),
                *self == *old(self),
                self.wf(),
                all == headings(self.logical_lines@, n as nat),
                count == headings(self.logical_lines@, i as nat).len(),
                count <= heading_idx,
                count <= i,
            decreases n - i,
        {
            if self.logical_lines[i].heading_level().is_some() {
                if count == heading_idx {
                    proof {
                        lemma_heading_at(self.logical_lines@, i as nat, n as nat);
                    }
                    if let Some(row) = self.layout_lines.layout_idx_of_logical(i) {
                        let offset: usize = self.state.offset;
                        let height: usize = self.layout_lines.last_height;
                        if row >= offset && row - offset < height {
                            self.state.select(Some(row));
                        } else {
                            self.select_and_scroll_smooth(row);
                        }
                    }
                    return ;
                }
                count += 1;
            }
            i += 1;
        }
    }

    /// Takes whether the last copy succeeded.
    pub fn take_copy_result(&mut self) -> (result: Option<bool>)
        ensures
            old(self).wf() ==> final(self).wf(),
            result == old(self).copy_result,
            *final(self) == (Preview { copy_result: None, ..*old(self) }),
    {
        self.copy_result.take()
    }

    /// Notes whether the last copy succeeded.
    pub fn set_copy_result(&mut self, ok: bool)
        ensures
            old(self).wf() ==> final(self).wf(),
            *final(self) == (Preview { copy_result: Some(ok), ..*old(self) }),
    {
        self.copy_result = Some(ok);
    }

    /// Searches the document: the rows that show lines with the term.
    pub fn search(&mut self, term: &str) -> (rows: Vec<usize>)
        ensures
            old(self).wf() ==> final(self).wf(),
            term_view(final(self).search.term) == (if term@.len() == 0 {
                None
            } else {
                Some(term@)
            }),
            final(self).search.logical_texts == old(self).search.logical_texts,
            *final(self) == (Preview { search: final(self).search, ..*old(self) }),
            rows@ == matching_rows(
                strings_view(old(self).search.logical_texts@),
                term_view(final(self).search.term),
                old(self).rows(),
            ),
    {
        self.search.set_term(term);
        self.search.matches(&self.layout_lines.lines)
    }

    /// Selects a row that was found, and tells which block it belongs to.
    pub fn select_search_match(&mut self, idx: usize) -> (id: Option<CodeId>)
        requires
            old(self).wf(),
        ensures
            final(self).wf(),
            *final(self) == (Preview {
                state: at_row(
                    smaller(idx as int, less_by(old(self).rows().len() as int, 1)) as usize,
                ),
                ..*old(self)
            }),
            id == final(self).selected_code(),
    {
        let max: usize = self.layout_lines.len().saturating_sub(1);
        self.select_and_scroll_smooth(idx.min(max));
        self.selected_code_id()
    }
}

/// The number of a heading is how many come before it.
proof fn lemma_heading_at(lines: Seq<LogicalLine>, i: nat, n: nat)
    requires
        i < n <= usize::MAX,
        lines[i as int]@.source is Heading,
    ensures
        headings(lines, i).len() < headings(lines, n).len(),
        headings(lines, n)[headings(lines, i).len() as int] == i,
    decreases n,
{
    if n == i + 1 {
        assert(headings(lines, n) == headings(lines, i).push(i as usize));
    } else {
        lemma_heading_at(lines, i, (n - 1) as nat);
        let before = headings(lines, (n - 1) as nat);
        let k = headings(lines, i).len() as int;
        assert(headings(lines, n)[k] == before[k]);
    }
}

impl Preview {
    /// A search finds exactly the rows whose whole line holds the term, whatever the
    /// case.
    pub proof fn law_search_finds_the_rows_of_its_lines(self, term: Seq<char>, row: usize)
        requires
            self.wf(),
            row < self.rows().len(),
        ensures
            matching_rows(
                strings_view(self.search.logical_texts@),
                Some(term),
                self.rows(),
            ).contains(row) <==> contains_text(
                lowercase_of(
                    logical_views(
                        self.logical_lines@,
                    )[self.rows()[row as int].logical_idx as int].content_text(),
                ),
                lowered(term),
            ),
    {
        let texts = strings_view(self.search.logical_texts@);
        assert(self.layout_lines.lines.len() == self.rows().len());
        law_search_finds_all(texts, term, self.rows());
        let found = matching_rows(texts, Some(term), self.rows());
        let at = self.rows()[row as int].logical_idx as int;
        assert(0 <= at < self.logical_lines@.len());
        reveal(lower_texts);
        assert(texts[at] == lowercase_of(logical_views(self.logical_lines@)[at].content_text()));
        if found.contains(row) {
            let k = found.index_of(row);
            assert(found[k] == row);
        } else {
            let i = row as int;
            assert(!found.contains(i as usize));
            assert(!row_matches(texts, term, self.rows()[i]));
        }
    }
}

} // verus!
