//! Rows that know their code block.

use vstd::prelude::*;

use crate::code::CodeId;
use crate::config::{PREVIEW_CODE_WRAP_OVERHEAD, PREVIEW_FRAME_OVERHEAD, PTY_DEFAULT_COLS};
use crate::num::{larger, less_by};
use crate::style::text_len;
use crate::theme::Theme;
use crate::theme_library::Painter;
use crate::tui::markdown::line::{lines_wf, logical_views, LogicalLine, LogicalView};
use crate::tui::markdown::paint::RenderContext;
use crate::tui::preview::layout_lines::{is_wrap, lemma_wrapped, measuring, wrapped_rows};

verus! {

/// A row of the viewport. Text and styles stay with the line that it shows.
#[derive(Clone, Copy, Debug, PartialEq, Eq, Structural)]
pub struct VisualLine {
    pub code_id: Option<CodeId>,
    pub logical_idx: usize,
    /// Which row of the line this is.
    pub wrap_idx: usize,
    /// Where the row starts in the line, counted in characters.
    pub start: usize,
    /// Where the row ends in the line.
    pub end: usize,
}

/// The rows of the viewport, and the size they were laid out for.
pub struct VisualLines {
    pub lines: Vec<VisualLine>,
    pub last_width: usize,
    pub last_height: usize,
}

/// A test that can be asked of every line and always answers the same.
pub open spec fn is_flag<C: Fn(usize) -> bool>(flag: C) -> bool {
    &&& forall|idx: usize| #[trigger] call_requires(flag, (idx,))
    &&& forall|idx: usize, x: bool, y: bool| #[trigger]
        call_ensures(flag, (idx,), x) && #[trigger] call_ensures(flag, (idx,), y) ==> x == y
}

/// The width that a line is wrapped to, behind what stands in front of it.
pub open spec fn visual_width(logical: LogicalView, width: int) -> int {
    let overhead: int = if logical.gutter() {
        PREVIEW_CODE_WRAP_OVERHEAD as int
    } else {
        PREVIEW_FRAME_OVERHEAD as int
    };
    larger(less_by(width, overhead + logical.prefix_chars()), 1)
}

/// The rows of a line: an image has its height, a line in its final form one row,
/// other lines are wrapped.
pub open spec fn visual_rows<W: Fn(&str, usize) -> Vec<(usize, usize)>>(
    wrap: W,
    logical: LogicalView,
    idx: usize,
    image_rows: int,
    ctx: RenderContext<'_>,
) -> Seq<VisualLine> {
    let code_id = logical.code_id;
    if logical.source is Image {
        Seq::new(
            larger(image_rows, 1) as nat,
            |row: int|
                VisualLine { code_id, logical_idx: idx, wrap_idx: row as usize, start: 0, end: 0 },
        )
    } else {
        let text = logical.shown(ctx, false).text();
        if logical.unwrappable() {
            seq![
                VisualLine {
                    code_id,
                    logical_idx: idx,
                    wrap_idx: 0,
                    start: 0,
                    end: text.len() as usize,
                },
            ]
        } else {
            let rows = wrapped_rows(
                wrap,
                text,
                visual_width(logical, ctx.viewport_width as int) as usize,
            );
            Seq::new(
                rows.len(),
                |row: int|
                    VisualLine {
                        code_id,
                        logical_idx: idx,
                        wrap_idx: row as usize,
                        start: rows[row].0,
                        end: rows[row].1,
                    },
            )
        }
    }
}

/// The rows of the first `n` lines.
pub open spec fn all_visual_rows<W: Fn(&str, usize) -> Vec<(usize, usize)>>(
    wrap: W,
    lines: Seq<LogicalView>,
    image_rows: Seq<usize>,
    ctx: RenderContext<'_>,
    n: nat,
) -> Seq<VisualLine>
    decreases n,
{
    if n == 0 {
        Seq::empty()
    } else {
        all_visual_rows(wrap, lines, image_rows, ctx, (n - 1) as nat) + visual_rows(
            wrap,
            lines[n - 1],
            (n - 1) as usize,
            image_rows[n - 1] as int,
            ctx,
        )
    }
}

impl VisualLine {
    fn unwrapped(code_id: Option<CodeId>, logical_idx: usize, char_len: usize) -> (row: Self)
        ensures
            row == (VisualLine { code_id, logical_idx, wrap_idx: 0, start: 0, end: char_len }),
    {
        VisualLine { code_id, logical_idx, wrap_idx: 0, start: 0, end: char_len }
    }

    fn wrapped(
        code_id: Option<CodeId>,
        logical_idx: usize,
        wrap_idx: usize,
        start: usize,
        end: usize,
    ) -> (row: Self)
        ensures
            row == (VisualLine { code_id, logical_idx, wrap_idx, start, end }),
    {
        VisualLine { code_id, logical_idx, wrap_idx, start, end }
    }
}

fn rows_of_line<W: Fn(&str, usize) -> Vec<(usize, usize)>>(
    wrap: &W,
    logical: &LogicalLine,
    idx: usize,
    image_rows: usize,
    ctx: &RenderContext<'_>,
) -> (rows: Vec<VisualLine>)
    requires
        is_wrap(*wrap),
        logical.source.wf(),
    ensures
        rows@ == visual_rows(*wrap, logical@, idx, image_rows as int, *ctx),
{
    let ghost goal = visual_rows(*wrap, logical@, idx, image_rows as int, *ctx);
    let id = logical.code_id;
    let mut rows: Vec<VisualLine> = Vec::new();
    let mut row: usize = 0;
    if logical.is_image() {
        let n: usize = image_rows.max(1);
        while row < n
            invariant
                row <= n,
                n == goal.len(),
                rows@ == goal.take(row as int),
                forall|k: int|
                    0 <= k < n ==> #[trigger] goal[k] == (VisualLine {
                        code_id: id,
                        logical_idx: idx,
                        wrap_idx: k as usize,
                        start: 0,
                        end: 0,
                    }),
            decreases n - row,
        {
            rows.push(VisualLine::wrapped(id, idx, row, 0, 0));
            assert(goal.take(row + 1) =~= goal.take(row as int).push(goal[row as int]));
            row += 1;
        }
        assert(goal.take(row as int) =~= goal);
        return rows;
    }
    let line = logical.render_plain(ctx);
    if logical.is_unwrappable() {
        rows.push(VisualLine::unwrapped(id, idx, text_len(&line.spans)));
        assert(rows@ =~= goal);
        return rows;
    }
    let overhead: usize = if logical.has_code_gutter() {
        PREVIEW_CODE_WRAP_OVERHEAD
    } else {
        PREVIEW_FRAME_OVERHEAD
    };
    let width: usize = ctx.viewport_width.saturating_sub(
        overhead.saturating_add(logical.prefix_width()),
    ).max(1);
    assert(width == visual_width(logical@, ctx.viewport_width as int));
    let text = line.text();
    let shown = text.as_str();
    let ranges = wrap(shown, width);
    proof {
        lemma_wrapped(*wrap, shown, width, ranges);
    }
    while row < ranges.len()
        invariant
            row <= ranges@.len(),
            ranges@.len() == goal.len(),
            rows@ == goal.take(row as int),
            forall|k: int|
                0 <= k < goal.len() ==> #[trigger] goal[k] == (VisualLine {
                    code_id: id,
                    logical_idx: idx,
                    wrap_idx: k as usize,
                    start: ranges@[k].0,
                    end: ranges@[k].1,
                }),
        decreases ranges@.len() - row,
    {
        rows.push(VisualLine::wrapped(id, idx, row, ranges[row].0, ranges[row].1));
        assert(goal.take(row + 1) =~= goal.take(row as int).push(goal[row as int]));
        row += 1;
    }
    assert(goal.take(row as int) =~= goal);
    rows
}

/// A row at the start of a block.
pub open spec fn starts_block<C: Fn(usize) -> bool>(row: VisualLine, id: CodeId, flag: C) -> bool {
    row.code_id == Some(id) && call_ensures(flag, (row.logical_idx,), true)
}

impl Default for VisualLines {
    fn default() -> (rows: VisualLines)
        ensures
            rows.lines@ == Seq::<VisualLine>::empty(),
            rows.last_width == PTY_DEFAULT_COLS,
            rows.last_height == 0,
    {
        VisualLines::new()
    }
}

impl VisualLines {
    /// No rows yet.
    pub fn new() -> (rows: VisualLines)
        ensures
            rows.lines@ == Seq::<VisualLine>::empty(),
            rows.last_width == PTY_DEFAULT_COLS,
            rows.last_height == 0,
    {
        VisualLines { lines: Vec::new(), last_width: PTY_DEFAULT_COLS as usize, last_height: 0 }
    }

    /// The first row at the start of a block, or none.
    pub open spec fn is_code_start<C: Fn(usize) -> bool>(
        &self,
        id: CodeId,
        flag: C,
        found: Option<usize>,
    ) -> bool {
        match found {
            Some(i) => {
                &&& i < self.lines@.len()
                &&& starts_block(self.lines@[i as int], id, flag)
                &&& forall|k: int|
                    0 <= k < i ==> !starts_block(#[trigger] self.lines@[k], id, flag)
            },
            None => forall|k: int|
                0 <= k < self.lines@.len() ==> !starts_block(#[trigger] self.lines@[k], id, flag),
        }
    }

    /// Lays the lines out anew for a width, and takes the block to jump to; returns
    /// where that block starts. Nothing happens for a width of zero.
    pub fn rebuild<W: Fn(&str, usize) -> Vec<(usize, usize)>, C: Fn(usize) -> bool>(
        &mut self,
        logical_lines: &Vec<LogicalLine>,
        width: usize,
        theme: &Theme,
        painter: &Painter,
        target_block: &mut Option<CodeId>,
        is_code_start_at: C,
        image_rows: &Vec<usize>,
        wrap: &W,
    ) -> (selected: Option<usize>)
        requires
            is_wrap(*wrap),
            is_flag(is_code_start_at),
            lines_wf(logical_lines@),
            image_rows@.len() == logical_lines@.len(),
        ensures
            width == 0 ==> *final(self) == *old(self) && *final(target_block) == *old(target_block)
                && selected is None,
            width > 0 ==> {
                &&& final(self).last_width == width
                &&& final(self).last_height == old(self).last_height
                &&& final(self).lines@ == all_visual_rows(
                    *wrap,
                    logical_views(logical_lines@),
                    image_rows@,
                    measuring(theme, painter, width),
                    logical_lines@.len(),
                )
                &&& *final(target_block) is None
                &&& match *old(target_block) {
                    Some(id) => final(self).is_code_start(id, is_code_start_at, selected),
                    None => selected is None,
                }
            },
    {
        if width == 0 {
            return None;
        }
        self.last_width = width;
        let ctx = RenderContext {
            theme,
            painter,
            active_code_id: None,
            prefer_status_gutter: None,
            spinner_char: ' ',
            viewport_width: width,
        };
        let ghost views = logical_views(logical_lines@);
        let mut rows: Vec<VisualLine> = Vec::new();
        let mut i: usize = 0;
        while i < logical_lines.len()
            invariant
                i <= logical_lines@.len(),
                is_wrap(*wrap),
                lines_wf(logical_lines@),
                image_rows@.len() == logical_lines@.len(),
                views == logical_views(logical_lines@),
                rows@ == all_visual_rows(*wrap, views, image_rows@, ctx, i as nat),
            decreases logical_lines@.len() - i,
        {
            let mut more = rows_of_line(wrap, &logical_lines[i], i, image_rows[i], &ctx);
            let ghost before = rows@;
            let ghost added = more@;
            assert(views[i as int] == logical_lines@[i as int]@);
            rows.append(&mut more);
            assert(rows@ =~= before + added);
            i += 1;
        }
        self.lines = rows;
        match target_block.take() {
            Some(id) => self.find_code_start(id, is_code_start_at),
            None => None,
        }
    }

    pub fn len(&self) -> (len: usize)
        ensures
            len == self.lines@.len(),
    {
        self.lines.len()
    }

    pub fn is_empty(&self) -> (empty: bool)
        ensures
            empty == (self.lines@.len() == 0),
    {
        self.lines.len() == 0
    }

    /// A row.
    pub fn get(&self, idx: usize) -> (row: Option<VisualLine>)
        ensures
            row == (if idx < self.lines@.len() {
                Some(self.lines@[idx as int])
            } else {
                None
            }),
    {
        if idx < self.lines.len() {
            Some(self.lines[idx])
        } else {
            None
        }
    }

    /// All rows.
    pub fn borrow(&self) -> (rows: &Vec<VisualLine>)
        ensures
            *rows == self.lines,
    {
        &self.lines
    }

    /// The first row of a line.
    pub fn visual_idx_of_logical(&self, logical_idx: usize) -> (found: Option<usize>)
        ensures
            match found {
                Some(i) => {
                    &&& i < self.lines@.len()
                    &&& self.lines@[i as int].logical_idx == logical_idx
                    &&& forall|k: int|
                        0 <= k < i ==> (#[trigger] self.lines@[k]).logical_idx != logical_idx
                },
                None => forall|k: int|
                    0 <= k < self.lines@.len() ==> (#[trigger] self.lines@[k]).logical_idx
                        != logical_idx,
            },
    {
        let mut i: usize = 0;
        while i < self.lines.len()
            invariant
                i <= self.lines@.len(),
                forall|k: int|
                    0 <= k < i ==> (#[trigger] self.lines@[k]).logical_idx != logical_idx,
            decreases self.lines@.len() - i,
        {
            if self.lines[i].logical_idx == logical_idx {
                return Some(i);
            }
            i += 1;
        }
        None
    }

    /// The first row at the start of a block.
    pub fn find_code_start<C: Fn(usize) -> bool>(&self, id: CodeId, is_code_start_at: C) -> (found:
        Option<usize>)
        requires
            is_flag(is_code_start_at),
        ensures
            self.is_code_start(id, is_code_start_at, found),
    {
        let mut i: usize = 0;
        while i < self.lines.len()
            invariant
                i <= self.lines@.len(),
                is_flag(is_code_start_at),
                forall|k: int|
                    0 <= k < i ==> !starts_block(#[trigger] self.lines@[k], id, is_code_start_at),
            decreases self.lines@.len() - i,
        {
            let row = self.lines[i];
            if row.code_id == Some(id) {
                if is_code_start_at(row.logical_idx) {
                    return Some(i);
                }
            }
            i += 1;
        }
        None
    }

    pub fn last_width(&self) -> (width: usize)
        ensures
            width == self.last_width,
    {
        self.last_width
    }

    pub fn set_last_width(&mut self, width: usize)
        ensures
            *final(self) == (VisualLines { last_width: width, ..*old(self) }),
    {
        self.last_width = width;
    }

    pub fn last_height(&self) -> (height: usize)
        ensures
            height == self.last_height,
    {
        self.last_height
    }

    pub fn set_last_height(&mut self, height: usize)
        ensures
            *final(self) == (VisualLines { last_height: height, ..*old(self) }),
    {
        self.last_height = height;
    }
}

} // verus!
