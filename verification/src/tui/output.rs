//! The output of one task on the whole screen.

use vstd::prelude::*;

use crate::config::{ERROR_SYMBOL, SUCCESS_SYMBOL};
use crate::num::{fit_u16, larger, less_by, smaller};
use crate::rect::Rect;
use crate::style::{line_view, line_views, plain, text_len, Line, LineView, Span, Style};
use crate::text::{signed_decimal, signed_text};
use crate::theme::Theme;
use crate::tui::layout::{last_row_off, split_footer};
use crate::tui::preview::interact::{Mouse, MouseKind};
use crate::tui::selection::{
    chars_before, copy_view, gives, marked_line, text_view, CopyLine, CopyView, SelectionState,
    SelectionView,
};
use crate::tui::tasks::TaskOutput;

verus! {

/// What the output can be asked to do.
#[derive(Clone, Copy, Debug, PartialEq, Eq, Structural)]
pub enum Action {
    /// Back to the document.
    Back,
    /// Back to the document once the task is done; until then the key is the
    /// program's.
    BackIfDone,
    /// Copies the output.
    Copy,
    /// Pastes into the program.
    Paste,
}

/// The output of one task, with text selection.
pub struct Output {
    pub selection: SelectionState,
    pub last_area: Rect,
    pub done: bool,
}

/// Whether a key's action is there: going back on escape and copying only once the
/// task is done.
pub open spec fn is_bound(action: Action, done: bool) -> bool {
    done || (action != Action::BackIfDone && action != Action::Copy)
}

/// Whether the footer lists an action.
pub open spec fn is_listed(action: Action, done: bool) -> bool {
    match action {
        Action::Back => true,
        Action::BackIfDone => done,
        Action::Copy => done,
        Action::Paste => !done,
    }
}

/// The lines of a screen as they are copied: counted from the first line that can
/// be scrolled to.
pub open spec fn screen_lines(lines: Seq<Line>, scroll: u16) -> spec_fn(int) -> Option<CopyView> {
    |idx: int|
        {
            let at = less_by(idx, scroll as int);
            if at < lines.len() {
                Some(CopyView { text: lines[at]@.text(), continuation: false, prefix: 0 })
            } else {
                None
            }
        }
}

spec fn gives_line(lines: Seq<Line>, scroll: u16, idx: usize, line: Option<CopyLine>) -> bool {
    copy_view(line) == screen_lines(lines, scroll)(idx as int)
}

fn copy_screen_line(lines: &Vec<Line>, scroll: u16, idx: usize) -> (line: Option<CopyLine>)
    ensures
        gives_line(lines@, scroll, idx, line),
{
    let at: usize = idx.saturating_sub(scroll as usize);
    if at < lines.len() {
        Some(CopyLine { text: lines[at].text(), is_continuation: false, display_prefix_len: 0 })
    } else {
        None
    }
}

impl Output {
    /// No output yet.
    pub fn new() -> (output: Output)
        ensures
            output.selection@ == SelectionView::nothing(),
            output.last_area == (Rect { x: 0, y: 0, width: 0, height: 0 }),
            !output.done,
    {
        Output { selection: SelectionState::new(), last_area: Rect::default(), done: false }
    }

    /// The area that the output is shown in, which has no border.
    pub fn inner_area(&self) -> (area: Rect)
        ensures
            area == self.last_area,
    {
        self.last_area
    }

    /// Takes the area to draw in: the last row is the footer, which is returned, and
    /// the output is shown above it.
    pub fn place(&mut self, area: Rect) -> (footer: Rect)
        ensures
            last_row_off(area, final(self).last_area, footer),
            *final(self) == (Output { last_area: final(self).last_area, ..*old(self) }),
    {
        let (above, footer) = split_footer(area);
        self.last_area = above;
        footer
    }

    /// Takes over whether the task is done.
    pub fn update_state(&mut self, output: &TaskOutput)
        ensures
            *final(self) == (Output { done: output.task.done, ..*old(self) }),
    {
        self.done = output.task.done();
    }

    /// The action of a key, where it is there.
    pub fn action(&self, bound: Option<Action>) -> (action: Option<Action>)
        ensures
            action == (match bound {
                Some(a) => if is_bound(a, self.done) {
                    Some(a)
                } else {
                    None
                },
                None => None,
            }),
    {
        match bound {
            Some(action) => {
                if !self.done && (action == Action::BackIfDone || action == Action::Copy) {
                    None
                } else {
                    Some(action)
                }
            },
            None => None,
        }
    }

    /// The line and the character at a position.
    pub open spec fn text_at(&self, row: u16, col: u16, output: TaskOutput) -> (int, int) {
        let rel = less_by(row as int, self.last_area.y as int);
        (
            rel + output.task.scroll,
            if rel < output.lines@.len() {
                chars_before(
                    output.lines@[rel]@.text(),
                    0,
                    less_by(col as int, self.last_area.x as int),
                )
            } else {
                0
            },
        )
    }

    fn position_at(&self, row: u16, col: u16, output: &TaskOutput) -> (at: (usize, usize))
        ensures
            (at.0 as int, at.1 as int) == self.text_at(row, col, *output),
    {
        let rel: usize = row.saturating_sub(self.last_area.y) as usize;
        let column: usize = col.saturating_sub(self.last_area.x) as usize;
        let offset: usize = if rel < output.lines.len() {
            SelectionState::char_offset_from_col(output.lines[rel].spans.as_slice(), column)
        } else {
            0
        };
        (rel + output.task.scroll as usize, offset)
    }

    /// The area was left out of the drawing by a click.
    pub open spec fn covers(&self, column: u16, row: u16) -> bool {
        self.last_area.holds(column, row)
    }

    /// The pane, the task's scroll offset and the text to copy after the mouse did
    /// something. The offset is first brought in line with what the screen can be
    /// scrolled back.
    pub open spec fn after_mouse(
        &self,
        before: &Output,
        mouse: Mouse,
        output: TaskOutput,
        scroll: u16,
        copy: Option<String>,
    ) -> bool {
        let max = output.max_scrollback as int;
        let now = smaller(output.task.scroll as int, max) as u16;
        let seen = TaskOutput {
            task: crate::task::Task { scroll: now, ..output.task },
            ..output
        };
        let area = before.last_area;
        let selection = before.selection@;
        match mouse.kind {
            MouseKind::ScrollUp => *self == *before && copy is None && scroll == smaller(
                fit_u16(now + 1),
                max,
            ),
            MouseKind::ScrollDown => *self == *before && copy is None && scroll == smaller(
                less_by(now as int, 1),
                max,
            ),
            MouseKind::LeftDown => {
                &&& scroll == now
                &&& copy is None
                &&& *self == (Output { selection: self.selection, ..*before })
                &&& self.selection@ == (if before.covers(mouse.column, mouse.row) {
                    let (line, offset) = before.text_at(mouse.row, mouse.column, seen);
                    SelectionView::started(line as usize, offset as usize)
                } else {
                    SelectionView::nothing()
                })
            },
            MouseKind::LeftDrag => {
                &&& scroll == now
                &&& copy is None
                &&& *self == (Output { selection: self.selection, ..*before })
                &&& self.selection@ == (if selection.dragging {
                    let row = smaller(
                        larger(mouse.row as int, area.y as int),
                        fit_u16(area.y + less_by(area.height as int, 1)),
                    ) as u16;
                    let column = smaller(
                        larger(mouse.column as int, area.x as int),
                        fit_u16(area.x + less_by(area.width as int, 1)),
                    ) as u16;
                    let (line, offset) = before.text_at(row, column, seen);
                    selection.extended(line as usize, offset as usize)
                } else {
                    selection
                })
            },
            MouseKind::LeftUp => {
                &&& scroll == now
                &&& *self == (Output { selection: self.selection, ..*before })
                &&& self.selection@ == (SelectionView { dragging: false, ..selection })
                &&& text_view(copy) == (if selection.dragging {
                    selection.copied(screen_lines(output.lines@, now))
                } else {
                    None
                })
            },
            MouseKind::Other => *self == *before && copy is None && scroll == now,
        }
    }

    /// Reacts to the mouse: scrolling and text selection. Returns the new scroll
    /// offset and the text to put on the clipboard.
    pub fn handle_mouse_event(&mut self, mouse: Mouse, output: &mut TaskOutput) -> (copy: Option<
        String,
    >)
        ensures
            final(self).after_mouse(
                old(self),
                mouse,
                *old(output),
                final(output).task.scroll,
                copy,
            ),
            *final(output) == (TaskOutput {
                task: crate::task::Task {
                    scroll: final(output).task.scroll,
                    ..old(output).task
                },
                ..*old(output)
            }),
    {
        let max: u16 = output.max_scrollback;
        output.task.scroll = output.task.scroll.min(max);
        match mouse.kind {
            MouseKind::ScrollUp => {
                output.task.scroll = output.task.scroll.saturating_add(1).min(max);
                None
            },
            MouseKind::ScrollDown => {
                output.task.scroll = output.task.scroll.saturating_sub(1).min(max);
                None
            },
            MouseKind::LeftDown => {
                if !self.last_area.contains(mouse.column, mouse.row) {
                    self.selection.clear();
                    return None;
                }
                let (line, offset) = self.position_at(mouse.row, mouse.column, output);
                self.selection.start(line, offset);
                None
            },
            MouseKind::LeftDrag => {
                if !self.selection.is_dragging() {
                    return None;
                }
                let area = self.last_area;
                let bottom: u16 = area.y.saturating_add(area.height.saturating_sub(1));
                let right: u16 = area.x.saturating_add(area.width.saturating_sub(1));
                let row: u16 = mouse.row.max(area.y).min(bottom);
                let column: u16 = mouse.column.max(area.x).min(right);
                let (line, offset) = self.position_at(row, column, output);
                self.selection.extend(line, offset);
                None
            },
            MouseKind::LeftUp => {
                let lines = &output.lines;
                let scroll: u16 = output.task.scroll;
                let get_line = |idx: usize| -> (line: Option<CopyLine>)
                    ensures
                        gives_line(lines@, scroll, idx, line),
                    { copy_screen_line(lines, scroll, idx) };
                assert(gives(get_line, screen_lines(lines@, scroll)));
                self.selection.finish(get_line)
            },
            MouseKind::Other => None,
        }
    }

    /// Where a position falls on the screen of the program, counted from one.
    pub fn mouse_to_pty_coords(&self, mouse: Mouse, pty_cols: u16, pty_rows: u16) -> (at: (u16, u16))
        ensures
            at.0 == smaller(
                fit_u16(less_by(mouse.column as int, self.last_area.x as int) + 1),
                pty_cols as int,
            ),
            at.1 == smaller(
                fit_u16(less_by(mouse.row as int, self.last_area.y as int) + 1),
                pty_rows as int,
            ),
    {
        let col: u16 = mouse.column.saturating_sub(self.last_area.x).saturating_add(1).min(
            pty_cols,
        );
        let row: u16 = mouse.row.saturating_sub(self.last_area.y).saturating_add(1).min(pty_rows);
        (col, row)
    }

    /// A line of the screen with the selected text marked.
    pub open spec fn drawn(&self, output: TaskOutput, row: int, theme: Theme) -> LineView {
        let line = output.lines@[row]@;
        match self.selection@.range_for(
            (row + output.task.scroll) as usize,
            line.text().len() as usize,
        ) {
            Some((from, to)) => LineView {
                spans: marked_line(line.spans, from, to, theme.marked()),
                style: plain(),
            },
            None => line,
        }
    }

    /// The lines of the screen with the selected text marked.
    pub fn draw(&self, output: &TaskOutput, theme: &Theme) -> (lines: Vec<Line>)
        requires
            output.lines@.len() + u16::MAX <= usize::MAX,
        ensures
            line_views(lines@) == Seq::new(
                output.lines@.len(),
                |row: int| self.drawn(*output, row, *theme),
            ),
    {
        let ghost goal = Seq::new(
            output.lines@.len(),
            |row: int| self.drawn(*output, row, *theme),
        );
        let mut lines: Vec<Line> = Vec::new();
        let mut row: usize = 0;
        assert(line_views(lines@) =~= goal.take(0));
        while row < output.lines.len()
            invariant
                row <= output.lines@.len(),
                output.lines@.len() + u16::MAX <= usize::MAX,
                goal == Seq::new(
                    output.lines@.len(),
                    |row: int| self.drawn(*output, row, *theme),
                ),
                line_views(lines@) == goal.take(row as int),
            decreases output.lines@.len() - row,
        {
            let len: usize = text_len(&output.lines[row].spans);
            let line = match self.selection.range_for_line(
                row + output.task.scroll as usize,
                len,
            ) {
                Some((from, to)) => Line {
                    spans: SelectionState::apply_range(
                        output.lines[row].copy().spans,
                        from,
                        to,
                        theme.selection_style(),
                    ),
                    style: Style::default(),
                },
                None => output.lines[row].copy(),
            };
            let ghost before = line_views(lines@);
            let ghost shown = line@;
            lines.push(line);
            proof {
                assert(line_views(lines@) =~= before.push(shown));
                assert(goal[row as int] == shown);
                assert(goal.take(row + 1) =~= goal.take(row as int).push(shown));
            }
            row += 1;
        }
        assert(goal.take(row as int) =~= goal);
        lines
    }

    /// Where the cursor of a program is drawn, if it is in view.
    pub open spec fn cursor_at(
        &self,
        output: TaskOutput,
        cursor_row: u16,
        cursor_col: u16,
    ) -> Option<(u16, u16)> {
        let x = self.last_area.x + cursor_col;
        let y = less_by(
            fit_u16(cursor_row + self.last_area.y),
            output.task.scroll as int,
        );
        if !output.cursor_hidden && x < self.last_area.x + self.last_area.width && x
            <= u16::MAX && self.last_area.y <= y < self.last_area.y + self.last_area.height {
            Some((x as u16, y as u16))
        } else {
            None
        }
    }

    /// Where the cursor of a program is drawn, if it is in view.
    pub fn cursor(&self, output: &TaskOutput, cursor_row: u16, cursor_col: u16) -> (at: Option<
        (u16, u16),
    >)
        ensures
            at == self.cursor_at(*output, cursor_row, cursor_col),
    {
        if output.cursor_hidden {
            return None;
        }
        let area = self.last_area;
        let x: u32 = area.x as u32 + cursor_col as u32;
        let y: u16 = cursor_row.saturating_add(area.y).saturating_sub(output.task.scroll);
        if x < area.x as u32 + area.width as u32 && x <= 0xFFFF && y >= area.y && (y as u32)
            < area.y as u32 + area.height as u32 {
            Some((x as u16, y))
        } else {
            None
        }
    }

    /// How the task goes, or how it ended.
    pub open spec fn status_line(output: TaskOutput, spinner: char, theme: Theme) -> LineView {
        let task = output.task;
        if task.started && !task.done {
            LineView {
                spans: seq![
                    (" "@.push(spinner), theme.active_fg()),
                    (" Running"@, theme.muted_fg()),
                ],
                style: plain(),
            }
        } else {
            match task.exit_code {
                Some(code) => if code == 0 {
                    LineView {
                        spans: seq![(" "@ + SUCCESS_SYMBOL@, plain())],
                        style: plain().fg_spec(theme.success),
                    }
                } else {
                    LineView {
                        spans: seq![
                            (" "@ + ERROR_SYMBOL@, plain().fg_spec(theme.error)),
                            (" exit "@ + signed_text(code as int), theme.muted_fg()),
                        ],
                        style: plain(),
                    }
                },
                None => LineView { spans: Seq::empty(), style: plain() },
            }
        }
    }

    /// How the task goes, or how it ended.
    pub fn status(output: &TaskOutput, spinner: char, theme: &Theme) -> (line: Line)
        ensures
            line@ == Output::status_line(*output, spinner, *theme),
    {
        let mut spans: Vec<Span> = Vec::new();
        if output.task.running() {
            let mut mark = " ".to_owned();
            mark.push(spinner);
            spans.push(Span::styled(mark, theme.active_fg_style()));
            spans.push(Span::styled(" Running".to_owned(), theme.muted_style()));
            assert(line_view(spans@) =~= seq![
                (" "@.push(spinner), theme.active_fg()),
                (" Running"@, theme.muted_fg()),
            ]);
            return Line { spans, style: Style::default() };
        }
        match output.task.exit_code {
            Some(code) => {
                if code == 0 {
                    let mut mark = " ".to_owned();
                    mark.append(SUCCESS_SYMBOL);
                    spans.push(Span::styled(mark, Style::default()));
                    assert(line_view(spans@) =~= seq![(" "@ + SUCCESS_SYMBOL@, plain())]);
                    return Line { spans, style: theme.success_style() };
                }
                let mut mark = " ".to_owned();
                mark.append(ERROR_SYMBOL);
                let mut text = " exit ".to_owned();
                text.append(signed_decimal(code).as_str());
                spans.push(Span::styled(mark, theme.error_style()));
                spans.push(Span::styled(text, theme.muted_style()));
                assert(line_view(spans@) =~= seq![
                    (" "@ + ERROR_SYMBOL@, plain().fg_spec(theme.error)),
                    (" exit "@ + signed_text(code as int), theme.muted_fg()),
                ]);
            },
            None => {
                assert(line_view(spans@) =~= Seq::empty());
            },
        }
        Line { spans, style: Style::default() }
    }

    /// Whether the footer lists an action.
    pub fn lists(action: Action, output: &TaskOutput) -> (listed: bool)
        ensures
            listed == is_listed(action, output.task.done),
    {
        match action {
            Action::Back => true,
            Action::BackIfDone => output.task.done,
            Action::Copy => output.task.done,
            Action::Paste => !output.task.done,
        }
    }
}

impl Output {
    /// The wheel scrolls the output back and forth by one line, within what there is, and
    /// leaves the selection alone.
    pub proof fn law_the_wheel_scrolls_by_one_line(
        before: Output,
        after: Output,
        mouse: Mouse,
        output: TaskOutput,
        scroll: u16,
        copy: Option<String>,
    )
        requires
            after.after_mouse(&before, mouse, output, scroll, copy),
        ensures
            scroll <= output.max_scrollback,
            mouse.kind == MouseKind::ScrollUp && output.task.scroll < output.max_scrollback
                ==> scroll == output.task.scroll + 1,
            mouse.kind == MouseKind::ScrollDown && 0 < output.task.scroll <= output.max_scrollback
                ==> scroll == output.task.scroll - 1,
            mouse.kind == MouseKind::ScrollDown && output.task.scroll == 0 ==> scroll == 0,
            mouse.kind == MouseKind::ScrollUp || mouse.kind == MouseKind::ScrollDown ==> after
                == before,
            mouse.kind != MouseKind::ScrollUp && mouse.kind != MouseKind::ScrollDown
                && output.task.scroll <= output.max_scrollback ==> scroll == output.task.scroll,
            copy is Some ==> mouse.kind == MouseKind::LeftUp && before.selection@.dragging,
    {
    }

    /// A press inside starts a selection, a press outside clears it; a release ends the
    /// dragging and keeps what is selected.
    pub proof fn law_presses_select(
        before: Output,
        after: Output,
        mouse: Mouse,
        output: TaskOutput,
        scroll: u16,
        copy: Option<String>,
    )
        requires
            after.after_mouse(&before, mouse, output, scroll, copy),
        ensures
            mouse.kind == MouseKind::LeftDown ==> (after.selection@.dragging
                <==> before.last_area.x <= mouse.column < before.last_area.x
                + before.last_area.width && before.last_area.y <= mouse.row < before.last_area.y
                + before.last_area.height),
            mouse.kind == MouseKind::LeftUp ==> !after.selection@.dragging,
            mouse.kind == MouseKind::LeftDrag && !before.selection@.dragging ==> after.selection@
                == before.selection@,
            after.last_area == before.last_area,
            after.done == before.done,
    {
    }

    /// The status tells a success from a failure, and names the code of a failure.
    pub proof fn law_the_status_tells_the_end(output: TaskOutput, spinner: char, theme: Theme)
        ensures
            ({
                let line = Self::status_line(output, spinner, theme);
                let running = output.task.started && !output.task.done;
                &&& running ==> line.spans[0].0 == seq![' ', spinner]
                &&& !running && output.task.exit_code == Some(0i32) ==> line.spans.len() == 1
                    && line.spans[0].0 == seq![' ', '✔'] && line.style.fg == Some(theme.success)
                &&& !running && output.task.exit_code is None ==> line.spans.len() == 0
                &&& !running && output.task.exit_code is Some && output.task.exit_code != Some(
                    0i32,
                ) ==> line.spans[0].0 == seq![' ', '✘'] && line.spans[0].1.fg == Some(theme.error)
                    && line.spans[1].0.skip(6) == signed_text(output.task.exit_code->0 as int)
            }),
    {
        reveal_strlit(" ");
        reveal_strlit(" exit ");
        reveal_strlit("✔");
        reveal_strlit("✘");
        let line = Self::status_line(output, spinner, theme);
        if output.task.started && !output.task.done {
            assert(line.spans[0].0 =~= seq![' ', spinner]);
        } else if let Some(code) = output.task.exit_code {
            if code == 0 {
                assert(line.spans[0].0 =~= seq![' ', '✔']);
            } else {
                assert(line.spans[0].0 =~= seq![' ', '✘']);
                assert(line.spans[1].0.skip(6) =~= signed_text(code as int));
            }
        }
    }
}

/// A running program gets the keys that would copy or leave; what is listed is bound, and
/// pasting is listed for running programs alone.
pub proof fn law_keys_are_kept_for_the_program(action: Action, done: bool)
    ensures
        is_listed(action, done) ==> is_bound(action, done),
        is_bound(Action::Back, done),
        is_bound(Action::Copy, done) <==> done,
        is_bound(Action::BackIfDone, done) <==> done,
        is_listed(Action::Paste, done) <==> !done,
{
}

impl Output {
    /// The cursor is drawn at its cell of the output, moved by what is scrolled back; a
    /// hidden cursor, or one outside, is not drawn.
    pub proof fn law_the_cursor_is_drawn_at_its_cell(
        &self,
        output: TaskOutput,
        cursor_row: u16,
        cursor_col: u16,
    )
        requires
            self.last_area.x + self.last_area.width <= u16::MAX,
            self.last_area.y + cursor_row <= u16::MAX,
        ensures
            output.cursor_hidden ==> self.cursor_at(output, cursor_row, cursor_col) is None,
            cursor_col >= self.last_area.width ==> self.cursor_at(output, cursor_row, cursor_col)
                is None,
            !output.cursor_hidden && cursor_col < self.last_area.width && output.task.scroll
                <= cursor_row < self.last_area.height + output.task.scroll ==> self.cursor_at(
                output,
                cursor_row,
                cursor_col,
            ) == Some(
                (
                    (self.last_area.x + cursor_col) as u16,
                    (self.last_area.y + cursor_row - output.task.scroll) as u16,
                ),
            ),
            cursor_row >= self.last_area.height + output.task.scroll ==> self.cursor_at(
                output,
                cursor_row,
                cursor_col,
            ) is None,
    {
    }
}

} // verus!
