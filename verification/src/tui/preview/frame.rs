//! What the preview shows, and what it does on request.

use vstd::prelude::*;

use crate::code::CodeId;
use crate::config::{BORDER_HEIGHT, OVERDRAW_FRACTION};
use crate::num::{less_by, smaller};
use crate::rect::Rect;
use crate::style::{line_views, text_len, Line, LineView, Style};
use crate::tui::list_state::ListState;
use crate::tui::markdown::known::lemma_known_by_blocks;
use crate::tui::markdown::line::{lines_wf, logical_views, LogicalLine, LogicalView};
use crate::tui::markdown::marks::{highlight_line, highlighted_line};
use crate::tui::markdown::paint::RenderContext;
use crate::tui::preview::interact::Action;
use crate::tui::preview::layout_lines::{LayoutLine, LayoutLines};
use crate::tui::preview::open::{asked_for_rows, requests_of};
use crate::tui::preview::pane::{at_row, Preview};
use crate::tui::preview::search::{lemma_same_texts, term_view};
use crate::tui::selection::{marked_line, text_view, SelectionState};

verus! {

impl Preview {
    /// The preview and the text to copy after an action.
    pub open spec fn after_action(&self, before: &Preview, action: Action, copy: Option<String>) -> bool {
        let offset = before.state.offset as int;
        match action {
            Action::Copy => {
                &&& text_view(copy) == before.selection.state@.copied(before.copies())
                &&& *self == (if copy is Some {
                    *before
                } else {
                    Preview { copy_result: Some(false), ..*before }
                })
            },
            Action::ScrollUp => copy is None && *self == (Preview {
                state: self.state,
                ..*before
            }) && self.state == (if before.rows().len() == 0 {
                ListState { selected: None, offset: 0 }
            } else {
                at_row(less_by(offset, 1) as usize)
            }),
            Action::ScrollDown => copy is None && *self == (Preview {
                state: self.state,
                ..*before
            }) && self.state == (if before.rows().len() == 0 {
                ListState { selected: None, offset: 0 }
            } else {
                at_row(
                    smaller(offset + 1, before.rows().len() - 1) as usize,
                )
            }),
            Action::PageUp => copy is None && *self == (Preview {
                state: at_row(
                    less_by(
                        before.current_row(),
                        before.layout_lines.last_height as int,
                    ) as usize,
                ),
                ..*before
            }),
            Action::PageDown => copy is None && *self == (Preview {
                state: at_row(
                    smaller(
                        before.current_row() + before.layout_lines.last_height,
                        less_by(before.rows().len() as int, 1),
                    ) as usize,
                ),
                ..*before
            }),
            Action::ToggleMode => copy is None && *self == (Preview {
                mode: self.mode,
                ..*before
            }) && self.mode != before.mode,
            Action::SelectCodeBlock(id) => copy is None && *self == before.marking(id),
            Action::Show(id) => copy is None && *self == before.showing(id),
            Action::ToggleToc => copy is None && *self == *before,
            Action::Select => copy is None && *self == *before,
        }
    }

    /// The selected text.
    pub fn selected_text(&self) -> (text: Option<String>)
        requires
            self.wf(),
        ensures
            text_view(text) == self.selection.state@.copied(self.copies()),
    {
        crate::tui::preview::interact::copy_selected(
            &self.selection,
            &self.layout_lines,
            &self.logical_lines,
            &self.theme,
            &self.painter,
        )
    }

    /// Carries out an action; returns the text to put on the clipboard.
    pub fn update(&mut self, action: Action) -> (copy: Option<String>)
        requires
            old(self).wf(),
        ensures
            final(self).wf(),
            final(self).after_action(old(self), action, copy),
    {
        match action {
            Action::ScrollUp => self.scroll_up(),
            Action::ScrollDown => self.scroll_down(),
            Action::PageUp => self.page_up(),
            Action::PageDown => self.page_down(),
            Action::ToggleToc => {},
            Action::ToggleMode => self.toggle_mode(),
            Action::Copy => {
                let text = self.selected_text();
                if text.is_none() {
                    self.copy_result = Some(false);
                }
                return text;
            },
            Action::SelectCodeBlock(id) => self.select_code_in_place(id),
            Action::Show(id) => self.select_code(id),
            Action::Select => {},
        }
        None
    }

    /// A line that is in some rows.
    pub open spec fn in_rows(rows: Seq<LayoutLine>, idx: int) -> bool {
        exists|k: int| 0 <= k < rows.len() && (#[trigger] rows[k]).logical_idx == idx
    }

    /// The rows that are rendered ahead.
    pub open spec fn ahead(&self) -> (int, int) {
        let viewport = self.layout_lines.last_height as int;
        let offset = self.state.offset as int;
        (less_by(offset, viewport), smaller(offset + 2 * viewport, self.rows().len() as int))
    }

    /// Renders the lines in the viewport and a page before and behind, and keeps
    /// that.
    pub fn prefetch_content(&mut self)
        requires
            old(self).wf(),
        ensures
            final(self).wf(),
            *final(self) == (Preview { logical_lines: final(self).logical_lines, ..*old(self) }),
            final(self).logical_lines@.len() == old(self).logical_lines@.len(),
            forall|i: int|
                0 <= i < old(self).logical_lines@.len() ==> (
                #[trigger] final(self).logical_lines@[i])@ == (if Preview::in_rows(
                    old(self).rows().subrange(old(self).ahead().0, old(self).ahead().1),
                    i,
                ) {
                    old(self).logical_lines@[i]@.cached(old(self).painter, old(self).theme)
                } else {
                    old(self).logical_lines@[i]@
                }),
    {
        let viewport: usize = self.layout_lines.last_height;
        let offset: usize = self.state.offset;
        let n: usize = self.layout_lines.len();
        let start: usize = offset.saturating_sub(viewport);
        let end: usize = offset.saturating_add(viewport).saturating_add(viewport).min(n);
        let ghost window = self.rows().subrange(start as int, end as int);
        let ghost before = self.logical_lines@;
        let mut i: usize = start;
        while i < end
            invariant
                start <= i <= end <= self.rows().len(),
                *self == (Preview { logical_lines: self.logical_lines, ..*old(self) }),
                old(self).wf(),
                before == old(self).logical_lines@,
                self.logical_lines@.len() == before.len(),
                lines_wf(self.logical_lines@),
                window == old(self).rows().subrange(start as int, end as int),
                forall|k: int|
                    0 <= k < before.len() ==> (#[trigger] self.logical_lines@[k])@
                        == (if Preview::in_rows(window.take(i - start), k) {
                        before[k]@.cached(old(self).painter, old(self).theme)
                    } else {
                        before[k]@
                    }),
            decreases end - i,
        {
            let row = self.layout_lines.lines[i];
            let at = row.logical_idx;
            let ctx = RenderContext {
                theme: &self.theme,
                painter: &self.painter,
                active_code_id: None,
                prefer_status_gutter: None,
                spinner_char: ' ',
                viewport_width: self.layout_lines.last_width,
            };
            let ghost now = self.logical_lines@;
            let line = &mut self.logical_lines[at];
            line.ensure_rendered(&ctx);
            proof {
                assert(window[i - start] == row);
                assert forall|k: int| 0 <= k < before.len() implies (
                #[trigger] self.logical_lines@[k]).source.wf() by {
                    if k != at {
                        assert(self.logical_lines@[k] == now[k]);
                    }
                }
                assert forall|k: int| 0 <= k < before.len() implies (
                #[trigger] self.logical_lines@[k])@ == (if Preview::in_rows(
                    window.take(i - start + 1),
                    k,
                ) {
                    before[k]@.cached(old(self).painter, old(self).theme)
                } else {
                    before[k]@
                }) by {
                    lemma_in_rows(window, i - start, k);
                    if k != at {
                        assert(self.logical_lines@[k] == now[k]);
                    } else {
                        lemma_cached_twice(before[k]@, old(self).painter, old(self).theme);
                    }
                }
            }
            i += 1;
        }
        assert(window.take(i - start) =~= window);
        proof {
            let views = logical_views(self.logical_lines@);
            assert forall|k: int| 0 <= k < views.len() implies (#[trigger] views[k]).code_id
                == logical_views(before)[k].code_id by {
                assert(views[k] == self.logical_lines@[k]@);
            }
            lemma_known_by_blocks(views, logical_views(before), self.codes@);
            assert forall|k: int| 0 <= k < views.len() implies (
            #[trigger] views[k]).content_text() == logical_views(before)[k].content_text() by {
                assert(views[k] == self.logical_lines@[k]@);
            }
            lemma_same_texts(views, logical_views(before));
        }
    }
}

/// What one more row adds to the lines in some rows.
proof fn lemma_in_rows(rows: Seq<LayoutLine>, n: int, idx: int)
    requires
        0 <= n < rows.len(),
    ensures
        Preview::in_rows(rows.take(n + 1), idx) == (Preview::in_rows(rows.take(n), idx)
            || rows[n].logical_idx == idx),
{
    let more = rows.take(n + 1);
    let less = rows.take(n);
    if Preview::in_rows(more, idx) {
        let k = choose|k: int| 0 <= k < more.len() && (#[trigger] more[k]).logical_idx == idx;
        if k < n {
            assert(less[k].logical_idx == idx);
        }
    }
    if Preview::in_rows(less, idx) {
        let k = choose|k: int| 0 <= k < less.len() && (#[trigger] less[k]).logical_idx == idx;
        assert(more[k].logical_idx == idx);
    }
    if rows[n].logical_idx == idx {
        assert(more[n].logical_idx == idx);
    }
}

proof fn lemma_cached_twice(
    view: LogicalView,
    painter: crate::theme_library::Painter,
    theme: crate::theme::Theme,
)
    ensures
        view.cached(painter, theme).cached(painter, theme) == view.cached(painter, theme),
{
}

/// What the preview draws.
pub struct PreviewFrame {
    /// The rows around the viewport.
    pub lines: Vec<Line>,
    /// The selected row and the first row to show, among those.
    pub state: ListState,
    /// The images among the rows: their line, and how far below the top of the
    /// viewport they start.
    pub images: Vec<(usize, i16)>,
}

/// A number as far as it goes; the least where it does not fit.
pub open spec fn position_of(n: int) -> i16 {
    if -0x8000 <= n <= 0x7FFF {
        n as i16
    } else {
        -0x8000i16
    }
}

/// Where the images among some rows start, seen from the top of the viewport:
/// each at its first row.
pub open spec fn image_places(
    rows: Seq<LayoutLine>,
    lines: Seq<LogicalLine>,
    first: int,
    offset: int,
    n: nat,
) -> Seq<(usize, i16)>
    decreases n,
{
    if n == 0 {
        Seq::empty()
    } else {
        let before = image_places(rows, lines, first, offset, (n - 1) as nat);
        let row = rows[n - 1];
        if lines[row.logical_idx as int]@.source is Image && !Preview::in_rows(
            rows.take(n - 1),
            row.logical_idx as int,
        ) {
            before.push(
                (row.logical_idx, position_of(first + (n - 1) - row.wrap_idx - offset)),
            )
        } else {
            before
        }
    }
}

impl Preview {
    /// The block whose gutter shows its status rather than that it is active: only
    /// while it is selected.
    pub open spec fn preferred(&self, active: Option<CodeId>) -> Option<CodeId> {
        if self.prefer_status_gutter is Some && self.prefer_status_gutter == active {
            active
        } else {
            None
        }
    }

    /// How the rows are rendered.
    pub open spec fn context(&self, spinner_char: char, width: usize) -> RenderContext<'_> {
        let active = self.code_at(self.current_row());
        RenderContext {
            theme: &self.theme,
            painter: &self.painter,
            active_code_id: active,
            prefer_status_gutter: self.preferred(active),
            spinner_char,
            viewport_width: width,
        }
    }

    /// A row as it is drawn: with what was searched for, and the selected text,
    /// marked.
    pub open spec fn drawn(&self, at: int, ctx: RenderContext<'_>) -> LineView {
        let row = self.rows()[at];
        let line = self.logical_lines@[row.logical_idx as int]@;
        let shown = row.shown(line, line.shown(ctx, true), ctx);
        let marked = match term_view(self.search.term) {
            Some(term) => highlighted_line(shown, term, self.theme.marked()),
            None => shown,
        };
        match self.selection.state@.range_for(at as usize, marked.text().len() as usize) {
            Some((from, to)) => LineView {
                spans: marked_line(marked.spans, from, to, self.theme.marked()),
                style: crate::style::plain(),
            },
            None => marked,
        }
    }

    /// The rows around the viewport.
    pub open spec fn window(&self) -> (int, int) {
        self.nearby()
    }

    /// What the preview draws.
    pub open spec fn is_frame(&self, frame: PreviewFrame, spinner_char: char, width: usize) -> bool {
        let (start, end) = self.window();
        let ctx = self.context(spinner_char, width);
        &&& line_views(frame.lines@) == Seq::new(
            (end - start) as nat,
            |i: int| self.drawn(start + i, ctx),
        )
        &&& frame.state == (ListState {
            selected: match self.state.selected {
                Some(row) => Some(less_by(row as int, start) as usize),
                None => None,
            },
            offset: less_by(self.state.offset as int, start) as usize,
        })
        &&& frame.images@ == image_places(
            self.rows().subrange(start, end),
            self.logical_lines@,
            start,
            self.state.offset as int,
            (end - start) as nat,
        )
    }

    fn draw_row(&self, at: usize, ctx: &RenderContext<'_>) -> (line: Line)
        requires
            self.wf(),
            at < self.rows().len(),
        ensures
            line@ == self.drawn(at as int, *ctx),
    {
        let row = self.layout_lines.lines[at];
        let logical = &self.logical_lines[row.logical_idx];
        let rendered = logical.render(ctx);
        let mut line = row.render(logical, &rendered, ctx);
        if let Some(term) = self.search.term() {
            line = highlight_line(line, term, self.theme.search_highlight_style());
        }
        let len: usize = text_len(&line.spans);
        match self.selection.range_for_line(at, len) {
            Some((from, to)) => {
                let spans = SelectionState::apply_range(
                    line.spans,
                    from,
                    to,
                    self.theme.selection_style(),
                );
                Line { spans, style: Style::default() }
            },
            None => line,
        }
    }

    fn is_first_of(&self, start: usize, at: usize) -> (yes: bool)
        requires
            start <= at < self.rows().len(),
        ensures
            yes == !Preview::in_rows(
                self.rows().subrange(start as int, at as int),
                self.rows()[at as int].logical_idx as int,
            ),
    {
        let idx = self.layout_lines.lines[at].logical_idx;
        let ghost rows = self.rows().subrange(start as int, at as int);
        let mut i: usize = start;
        while i < at
            invariant
                start <= i <= at < self.rows().len(),
                rows == self.rows().subrange(start as int, at as int),
                idx == self.rows()[at as int].logical_idx,
                forall|k: int| 0 <= k < i - start ==> (#[trigger] rows[k]).logical_idx != idx,
            decreases at - i,
        {
            assert(rows[i - start] == self.rows()[i as int]);
            if self.layout_lines.lines[i].logical_idx == idx {
                assert(rows[i - start].logical_idx == self.rows()[at as int].logical_idx);
                return false;
            }
            i += 1;
        }
        true
    }

    /// The rows around the viewport, as they are drawn.
    pub fn draw(&self, spinner_char: char, width: usize) -> (frame: PreviewFrame)
        requires
            self.wf(),
        ensures
            self.is_frame(frame, spinner_char, width),
    {
        let viewport: usize = self.layout_lines.last_height;
        let margin: usize = viewport / OVERDRAW_FRACTION;
        let offset: usize = self.state.offset;
        let n: usize = self.layout_lines.len();
        let start: usize = offset.saturating_sub(margin);
        let end: usize = offset.saturating_add(viewport).saturating_add(margin).min(n);
        let current: usize = match self.state.selected {
            Some(row) => row,
            None => 0,
        };
        let active = if current < n {
            self.layout_lines.lines[current].code_id(&self.logical_lines)
        } else {
            None
        };
        let preferred = if self.prefer_status_gutter.is_some() && self.prefer_status_gutter
            == active {
            active
        } else {
            None
        };
        let ctx = RenderContext {
            theme: &self.theme,
            painter: &self.painter,
            active_code_id: active,
            prefer_status_gutter: preferred,
            spinner_char,
            viewport_width: width,
        };
        assert(ctx == self.context(spinner_char, width));
        let ghost rows = self.rows().subrange(start as int, end as int);
        let ghost goal = Seq::new((end - start) as nat, |i: int| self.drawn(start + i, ctx));
        let mut lines: Vec<Line> = Vec::new();
        let mut images: Vec<(usize, i16)> = Vec::new();
        let mut i: usize = start;
        assert(line_views(lines@) =~= goal.take(0));
        while i < end
            invariant
                start <= i <= end <= self.rows().len(),
                n == self.rows().len(),
                self.wf(),
                offset == self.state.offset,
                rows == self.rows().subrange(start as int, end as int),
                goal == Seq::new((end - start) as nat, |i: int| self.drawn(start + i, ctx)),
                line_views(lines@) == goal.take(i - start),
                images@ == image_places(
                    rows,
                    self.logical_lines@,
                    start as int,
                    offset as int,
                    (i - start) as nat,
                ),
            decreases end - i,
        {
            let line = self.draw_row(i, &ctx);
            let ghost before = line_views(lines@);
            let ghost shown = line@;
            lines.push(line);
            proof {
                assert(line_views(lines@) =~= before.push(shown));
                assert(goal[i - start] == shown);
                assert(goal.take(i - start + 1) =~= goal.take(i - start).push(shown));
                assert(rows[i - start] == self.rows()[i as int]);
                assert(rows.take(i - start) =~= self.rows().subrange(start as int, i as int));
            }
            let row = self.layout_lines.lines[i];
            if self.logical_lines[row.logical_idx].is_image() && self.is_first_of(start, i) {
                let y: i128 = i as i128 - row.wrap_idx as i128 - offset as i128;
                let place: i16 = if -0x8000 <= y && y <= 0x7FFF {
                    y as i16
                } else {
                    -0x8000
                };
                images.push((row.logical_idx, place));
            }
            i += 1;
        }
        assert(goal.take(i - start) =~= goal);
        let selected = match self.state.selected {
            Some(row) => Some(row.saturating_sub(start)),
            None => None,
        };
        PreviewFrame {
            lines,
            state: ListState { selected, offset: offset.saturating_sub(start) },
            images,
        }
    }

    /// The preview after an area was given to it, before anything is laid out.
    pub open spec fn placed(&self, before: &Preview, area: Rect) -> bool {
        &&& self.layout_lines == (LayoutLines {
            last_height: less_by(area.height as int, BORDER_HEIGHT as int) as usize,
            ..before.layout_lines
        })
        &&& *self == (Preview {
            layout_lines: self.layout_lines,
            last_area: area,
            images: self.images,
            ..*before
        })
        &&& self.images.entries == before.images.entries
        &&& self.images.width == before.images.width
        &&& requests_of(self.images) == asked_for_rows(
            requests_of(before.images),
            before.images.entries@,
            before.image_base_dir@,
            before.logical_lines@,
            self.rows().subrange(self.nearby().0, self.nearby().1),
        )
    }

    /// Takes the area to draw in: asks for images in view. Tells whether the width
    /// changed, so that the preview has to be laid out anew.
    pub fn place(&mut self, area: Rect) -> (stale: bool)
        requires
            old(self).wf(),
        ensures
            final(self).wf(),
            final(self).placed(old(self), area),
            stale == (old(self).layout_lines.last_width != area.width && area.width > 0),
    {
        self.layout_lines.last_height = (area.height as usize).saturating_sub(BORDER_HEIGHT);
        self.last_area = area;
        self.request_visible_images();
        self.layout_lines.last_width != area.width as usize && area.width > 0
    }

    /// Forgets the preference for a block's status once another block is selected.
    pub fn settle_gutter(&mut self)
        requires
            old(self).wf(),
        ensures
            final(self).wf(),
            *final(self) == (Preview {
                prefer_status_gutter: old(self).preferred(
                    old(self).code_at(old(self).current_row()),
                ),
                ..*old(self)
            }),
    {
        let n: usize = self.layout_lines.len();
        let current: usize = match self.state.selected {
            Some(row) => row,
            None => 0,
        };
        let active = if current < n {
            self.layout_lines.lines[current].code_id(&self.logical_lines)
        } else {
            None
        };
        if self.prefer_status_gutter != active {
            self.prefer_status_gutter = None;
        }
    }
}

} // verus!
