//! How a reader moves in a document, and what a click does.

use vstd::prelude::*;

use crate::code::CodeId;
use crate::tui::preview::frame::PreviewFrame;
use crate::tui::preview::interact::{has_gutter, Action, Mouse, MouseKind, MouseOutcome};
use crate::tui::preview::layout_lines::{
    first_row, last_row, lemma_first_row, lemma_row_bounds, rows_of_line, LayoutLine, RowTest,
};
use crate::tui::preview::pane::{headings, is_heading, Preview};

verus! {

/// The first row that is looked for: it is one of those, and none before it is.
pub proof fn law_the_first_row_is_found(
    rows: Seq<LayoutLine>,
    keep: spec_fn(LayoutLine) -> bool,
    i: int,
)
    requires
        rows.len() <= usize::MAX,
        0 <= i < rows.len(),
        keep(rows[i]),
    ensures
        first_row(rows, keep) is Some,
        last_row(rows, keep) is Some,
        first_row(rows, keep)->0 <= i <= last_row(rows, keep)->0,
        keep(rows[first_row(rows, keep)->0 as int]),
        keep(rows[last_row(rows, keep)->0 as int]),
    decreases rows.len(),
{
    let less = rows.drop_last();
    lemma_first_row(rows, keep);
    lemma_row_bounds(rows, keep);
    lemma_row_bounds(less, keep);
    if i < less.len() {
        assert(less[i] == rows[i]);
        law_the_first_row_is_found(less, keep, i);
        assert(less[last_row(less, keep)->0 as int] == rows[last_row(less, keep)->0 as int]);
    } else if first_row(less, keep) is Some {
        lemma_first_row(less, keep);
    }
}

impl Preview {
    proof fn lemma_rows_count(&self)
        ensures
            self.rows().len() <= usize::MAX,
    {
        assert(self.layout_lines.lines.len() == self.rows().len());
    }

    /// Going to a block selects the row where it starts. Where enough of it is in view
    /// already nothing scrolls, else that row comes to the top.
    pub proof fn law_going_to_a_block_selects_it(&self, id: CodeId)
        requires
            self.start_row(id) is Some,
        ensures
            ({
                let after = self.showing(id);
                let row = self.start_row(id)->0;
                let line = self.logical_lines@[self.rows()[row as int].logical_idx as int];
                &&& row < self.rows().len()
                &&& line.code_id == Some(id) && line.is_code_start
                &&& after.state.selected == Some(row)
                &&& after.selected_code() == Some(id)
                &&& self.in_context(row as int) ==> after.state.offset == self.state.offset
                &&& !self.in_context(row as int) ==> after.state.offset == row
                &&& after.rows() == self.rows()
                &&& self.in_context(row as int) ==> self.state.offset <= row < self.state.offset
                    + self.layout_lines.last_height
            }),
    {
        self.lemma_rows_count();
        let keep = RowTest::CodeStart(id).keep(self.logical_lines@);
        lemma_first_row(self.rows(), keep);
        lemma_row_bounds(self.rows(), keep);
    }

    /// Marking a block selects the row where it starts, and scrolls nothing.
    pub proof fn law_marking_a_block_scrolls_nothing(&self, id: CodeId)
        requires
            self.start_row(id) is Some,
        ensures
            self.marking(id).state.selected == self.start_row(id),
            self.marking(id).state.offset == self.state.offset,
            self.marking(id).selected_code() == Some(id),
            self.marking(id).target_block is None,
    {
        self.lemma_rows_count();
        let keep = RowTest::CodeStart(id).keep(self.logical_lines@);
        lemma_first_row(self.rows(), keep);
        lemma_row_bounds(self.rows(), keep);
    }

    /// Going to a heading selects a row of it: of the one with that number, counted from
    /// the top. It is then in view.
    pub proof fn law_going_to_a_heading_selects_it(&self, heading_idx: int)
        requires
            0 <= heading_idx,
            self.heading_row(heading_idx) is Some,
            self.logical_lines@.len() <= usize::MAX,
        ensures
            ({
                let after = self.showing_heading(heading_idx);
                let row = self.heading_row(heading_idx)->0;
                let at = self.rows()[row as int].logical_idx;
                &&& row < self.rows().len()
                &&& after.state.selected == Some(row)
                &&& at < self.logical_lines@.len()
                &&& self.logical_lines@[at as int]@.source is Heading
                &&& headings(self.logical_lines@, at as nat).len() == heading_idx
                &&& self.layout_lines.last_height > 0 ==> after.state.offset <= row
                    < after.state.offset + self.layout_lines.last_height
            }),
    {
        self.lemma_rows_count();
        let n = self.logical_lines@.len();
        let found = headings(self.logical_lines@, n);
        let idx = found[heading_idx];
        lemma_first_row(self.rows(), rows_of_line(idx));
        lemma_row_bounds(self.rows(), rows_of_line(idx));
        crate::seqs::lemma_indices_where(n, is_heading(self.logical_lines@));
        lemma_count_before(self.logical_lines@, n, heading_idx);
    }

    /// Scrolling moves by one row, a page by the height of the viewport, and neither
    /// leaves the document.
    pub proof fn law_scrolling_moves_by_rows(
        before: Preview,
        up: Preview,
        down: Preview,
        page_up: Preview,
        page_down: Preview,
    )
        requires
            before.rows().len() > 0,
            before.current_row() < before.rows().len(),
            before.state.offset < before.rows().len(),
            up.after_action(&before, Action::ScrollUp, None),
            down.after_action(&before, Action::ScrollDown, None),
            page_up.after_action(&before, Action::PageUp, None),
            page_down.after_action(&before, Action::PageDown, None),
        ensures
            before.state.offset > 0 ==> up.state.offset == before.state.offset - 1,
            before.state.offset == 0 ==> up.state.offset == 0,
            before.state.offset + 1 < before.rows().len() ==> down.state.offset
                == before.state.offset + 1,
            before.state.offset + 1 == before.rows().len() ==> down.state.offset
                == before.state.offset,
            up.state.selected == Some(up.state.offset),
            down.state.selected == Some(down.state.offset),
            before.current_row() >= before.layout_lines.last_height ==> page_up.current_row()
                == before.current_row() - before.layout_lines.last_height,
            before.current_row() < before.layout_lines.last_height ==> page_up.current_row() == 0,
            before.current_row() + before.layout_lines.last_height < before.rows().len()
                ==> page_down.current_row() == before.current_row()
                + before.layout_lines.last_height,
            before.current_row() + before.layout_lines.last_height >= before.rows().len()
                ==> page_down.current_row() == before.rows().len() - 1,
    {
        before.lemma_rows_count();
    }

    /// Switching the mode twice leads back to it.
    pub proof fn law_modes_switch_back(before: Preview, switched: Preview, back: Preview)
        requires
            switched.after_action(&before, Action::ToggleMode, None),
            back.after_action(&switched, Action::ToggleMode, None),
        ensures
            switched.mode != before.mode,
            back.mode == before.mode,
            switched.state == before.state,
    {
    }

    /// A click on a row of a block, and letting go over the document, selects that
    /// block; dragging in between does not.
    pub proof fn law_a_click_selects_the_block(
        before: Preview,
        pressed: Preview,
        dragged: Preview,
        released: Preview,
        mouse: Mouse,
        drag: Mouse,
        outcomes: (MouseOutcome, MouseOutcome, MouseOutcome),
        dropped: Preview,
        last: MouseOutcome,
        line: int,
        offset: int,
    )
        requires
            mouse.kind == MouseKind::LeftDown,
            drag.kind == MouseKind::LeftDrag,
            before.last_area.holds(mouse.column, mouse.row),
            before.text_at(mouse.row, mouse.column) == Some((line, offset)),
            0 <= line <= usize::MAX,
            pressed.after_mouse(&before, mouse, outcomes.0),
            released.after_mouse(
                &pressed,
                Mouse { kind: MouseKind::LeftUp, ..mouse },
                outcomes.1,
            ),
            dragged.after_mouse(&pressed, drag, outcomes.2),
            dropped.after_mouse(&dragged, Mouse { kind: MouseKind::LeftUp, ..mouse }, last),
        ensures
            pressed.state.selected == Some(line as usize),
            before.code_at(line) matches Some(id) ==> outcomes.1.action == Some(
                Action::SelectCodeBlock(id),
            ),
            before.code_at(line) is None ==> outcomes.1.action == Some(Action::Select),
            last.action == Some(Action::Select),
            pressed.selection.state@.dragging,
            !released.selection.state@.dragging,
    {
    }

    /// A click counts for the row that is drawn there: the rows below the border show
    /// the document from its offset on.
    pub proof fn law_clicks_count_for_the_row_drawn_there(&self, row: u16)
        requires
            self.last_area.y + self.last_area.height <= u16::MAX,
            self.last_area.height >= 2,
        ensures
            self.rel_row(row) is Some <==> self.last_area.y + 1 <= row < self.last_area.y
                + self.last_area.height - 2,
            self.rel_row(row) matches Some(rel) ==> rel == row - self.last_area.y - 1,
    {
    }

    /// The mouse is told to a program as a cell of its screen, counted from one.
    pub proof fn law_programs_get_cells_of_their_screen(
        &self,
        id: CodeId,
        mouse: Mouse,
        cols: u16,
        rows: u16,
    )
        requires
            cols > 0,
            self.pty_coords(id, mouse, cols, rows) is Some,
        ensures
            1 <= (self.pty_coords(id, mouse, cols, rows)->0).0 <= cols,
            1 <= (self.pty_coords(id, mouse, cols, rows)->0).1 <= rows,
            self.start_row(id) is Some,
            self.start_row(id)->0 + (self.pty_coords(id, mouse, cols, rows)->0).1 - 1
                == self.state.offset + self.rel_row(mouse.row)->0,
    {
    }

    /// Below a block stand at least three and at most twenty lines of output, half of
    /// the viewport between these, and no more than the user allows, but for the three.
    pub proof fn law_inline_output_has_limits(&self, height: int)
        requires
            height >= 0,
        ensures
            3 <= self.inline_limit(height) <= 20,
            self.inline_limit(height) > 3 ==> self.inline_limit(height) <= height / 2,
            self.inline_limit(height) > 3 ==> self.inline_limit(height)
                <= self.inline_max_lines_cap,
            3 <= height / 2 <= 20 && height / 2 <= self.inline_max_lines_cap ==> self.inline_limit(
                height,
            ) == height / 2,
    {
    }

    /// What is drawn are the rows around the viewport, each as it is shown, and the
    /// selection and the offset point to the same rows as before.
    pub proof fn law_frames_show_the_rows(
        &self,
        frame: PreviewFrame,
        spinner: char,
        width: usize,
        row: int,
    )
        requires
            self.is_frame(frame, spinner, width),
            self.rows().len() <= usize::MAX,
            self.state.offset <= row < self.state.offset + self.layout_lines.last_height,
            row < self.rows().len(),
        ensures
            ({
                let place = row - self.state.offset + frame.state.offset;
                &&& 0 <= place < frame.lines@.len()
                &&& frame.lines@[place]@ == self.drawn(row, self.context(spinner, width))
                &&& self.state.selected == Some(row as usize) ==> frame.state.selected == Some(
                    place as usize,
                )
            }),
    {
        let (start, end) = self.window();
        let ctx = self.context(spinner, width);
        let views = crate::style::line_views(frame.lines@);
        let place = row - self.state.offset + frame.state.offset;
        assert(place == row - start);
        assert(start <= row < end);
        assert(views.len() == end - start);
        assert(views.len() == frame.lines@.len());
        assert(views[place] == self.drawn(start + place, ctx));
        assert(views[place] == frame.lines@[place]@);
    }
}

proof fn lemma_count_before(
    lines: Seq<crate::tui::markdown::line::LogicalLine>,
    n: nat,
    k: int,
)
    requires
        n <= lines.len(),
        n <= usize::MAX,
        0 <= k < headings(lines, n).len(),
    ensures
        headings(lines, headings(lines, n)[k] as nat).len() == k,
    decreases n,
{
    if n > 0 {
        let less = headings(lines, (n - 1) as nat);
        if k < less.len() {
            lemma_count_before(lines, (n - 1) as nat, k);
            assert(headings(lines, n)[k] == less[k]);
        } else {
            assert(headings(lines, n)[k] == n - 1);
        }
    }
}

/// A row of a document is copied without the bar of the gutter, and continues the row
/// before it exactly where it starts behind the start of its line.
pub proof fn law_rows_are_copied_without_the_gutter(preview: Preview, idx: int)
    requires
        0 <= idx < preview.rows().len(),
    ensures
        ({
            let row = preview.rows()[idx];
            let copy = (preview.copies())(idx);
            let line = preview.logical_lines@[row.logical_idx as int]@;
            let text = row.plain_row(
                line,
                crate::tui::preview::layout_lines::measuring(
                    &preview.theme,
                    &preview.painter,
                    preview.layout_lines.last_width,
                ),
            ).text();
            &&& copy is Some
            &&& copy->0.continuation <==> row.start > 0
            &&& line.gutter() && has_gutter(text) ==> copy->0.text == text.skip(2)
            &&& !(line.gutter() && has_gutter(text)) ==> copy->0.text == text
        }),
{
}

} // verus!
