//! Terminal rows of a document's lines.

use vstd::prelude::*;

use crate::code::CodeId;
use crate::config::{PREVIEW_CODE_WRAP_OVERHEAD, PREVIEW_FRAME_OVERHEAD, PTY_DEFAULT_COLS};
use crate::num::{larger, less_by};
use crate::style::{copy_spans, line_view, move_spans, plain, text_len, Line, LineView, Span, Style};
use crate::theme::Theme;
use crate::theme_library::Painter;
use crate::tui::markdown::line::{lines_wf, logical_views, LogicalLine, LogicalView};
use crate::tui::markdown::paint::{apply_gutter, gutter_of, guttered, RenderContext};
use crate::tui::markdown::slice::{slice_line, sliced_line, sliced_runs};

verus! {

/// The part of a line that takes one row of the terminal.
#[derive(Clone, Copy, Debug, PartialEq, Eq, Structural)]
pub struct LayoutLine {
    pub logical_idx: usize,
    /// Which row of the line this is.
    pub wrap_idx: usize,
    /// Where the row starts in the line, counted in characters.
    pub start: usize,
    /// Where the row ends in the line.
    pub end: usize,
}

/// Wraps a text to a width: the places where each row starts and ends. Equal
/// texts are wrapped in the same way.
pub open spec fn is_wrap<W: Fn(&str, usize) -> Vec<(usize, usize)>>(wrap: W) -> bool {
    &&& forall|text: &str, width: usize| #[trigger] wrap.requires((text, width))
    &&& forall|a: &str, b: &str, width: usize, x: Vec<(usize, usize)>, y: Vec<(usize, usize)>|
        #[trigger] wrap.ensures((a, width), x) && #[trigger] wrap.ensures((b, width), y) && a@ == b@
            ==> x@ == y@
}

/// The rows that a text is wrapped to.
pub open spec fn wrapped_rows<W: Fn(&str, usize) -> Vec<(usize, usize)>>(
    wrap: W,
    text: Seq<char>,
    width: usize,
) -> Seq<(usize, usize)> {
    let (source, rows) = choose|source: &str, rows: Vec<(usize, usize)>|
        source@ == text && #[trigger] wrap.ensures((source, width), rows);
    rows@
}

/// What wrapping returned is what the text is wrapped to.
pub proof fn lemma_wrapped<W: Fn(&str, usize) -> Vec<(usize, usize)>>(
    wrap: W,
    text: &str,
    width: usize,
    rows: Vec<(usize, usize)>,
)
    requires
        is_wrap(wrap),
        wrap.ensures((text, width), rows),
    ensures
        rows@ == wrapped_rows(wrap, text@, width),
{
}

impl LayoutLine {
    /// Whether this is not the first row of its line.
    pub fn is_continuation(&self) -> (yes: bool)
        ensures
            yes == (self.wrap_idx > 0),
    {
        self.wrap_idx > 0
    }

    /// The line that the row belongs to.
    pub fn logical<'a>(&self, logical_lines: &'a Vec<LogicalLine>) -> (line: &'a LogicalLine)
        requires
            self.logical_idx < logical_lines@.len(),
        ensures
            *line == logical_lines@[self.logical_idx as int],
    {
        &logical_lines[self.logical_idx]
    }

    /// The block that the row belongs to.
    pub fn code_id(&self, logical_lines: &Vec<LogicalLine>) -> (id: Option<CodeId>)
        requires
            self.logical_idx < logical_lines@.len(),
        ensures
            id == logical_lines@[self.logical_idx as int].code_id,
    {
        logical_lines[self.logical_idx].code_id
    }

    /// A further row of an image, which shows nothing.
    pub open spec fn is_hidden(self, logical: LogicalView) -> bool {
        logical.source is Image && self.wrap_idx > 0
    }

    /// What stands in front of a wrapped row: the line's own prefixes for that, or
    /// else the start of the line.
    pub open spec fn wrap_prefix(self, logical: LogicalView, line: LineView) -> Seq<
        (Seq<char>, Style),
    > {
        if self.wrap_idx > 0 {
            match logical.wrap_prefixes {
                Some(prefixes) => prefixes,
                None => sliced_runs(line.spans, 0, logical.wrap_prefix_width),
            }
        } else {
            Seq::empty()
        }
    }

    /// A row without its gutter.
    pub open spec fn cut(self, logical: LogicalView, line: LineView) -> LineView {
        if logical.unwrappable() {
            line
        } else {
            sliced_line(line, self.start as int, self.end as int)
        }
    }

    /// A row behind its gutter, which the cut left on the first row only.
    pub open spec fn gutter_row(self, logical: LogicalView, row: LineView, ctx: RenderContext<'_>) -> LineView {
        if logical.gutter() && self.wrap_idx > 0 {
            guttered(
                row,
                gutter_of(
                    row.style.bg,
                    logical.unwrappable(),
                    ctx.active_code_id == logical.code_id,
                    *ctx.theme,
                    logical.gutter_fg,
                    ctx.prefer_status_gutter == logical.code_id,
                    logical.gutter_fg == Some(ctx.theme.warning),
                ),
            )
        } else {
            row
        }
    }

    /// The row of a line that is rendered.
    pub open spec fn shown(self, logical: LogicalView, line: LineView, ctx: RenderContext<'_>) -> LineView {
        if self.is_hidden(logical) {
            LineView { spans: Seq::empty(), style: plain() }
        } else {
            let row = self.gutter_row(logical, self.cut(logical, line), ctx);
            LineView { spans: self.wrap_prefix(logical, line) + row.spans, style: row.style }
        }
    }

    /// The row of a line without highlighting, and without a gutter on wrapped
    /// rows.
    pub open spec fn plain_row(self, logical: LogicalView, ctx: RenderContext<'_>) -> LineView {
        let line = logical.shown(ctx, false);
        if self.is_hidden(logical) {
            LineView { spans: Seq::empty(), style: plain() }
        } else if logical.unwrappable() {
            line
        } else {
            LineView {
                spans: self.wrap_prefix(logical, line) + self.cut(logical, line).spans,
                style: line.style,
            }
        }
    }

    fn prefix_spans(&self, logical_line: &LogicalLine, line: &Line) -> (spans: Vec<Span>)
        ensures
            line_view(spans@) == self.wrap_prefix(logical_line@, line@),
    {
        if !self.is_continuation() {
            let spans: Vec<Span> = Vec::new();
            assert(line_view(spans@) =~= Seq::empty());
            return spans;
        }
        match &logical_line.wrap_prefixes {
            Some(prefixes) => copy_spans(prefixes),
            None => slice_line(line, 0, logical_line.wrap_prefix_width).spans,
        }
    }

    /// The row of a line without highlighting.
    pub fn render_plain(&self, logical_line: &LogicalLine, ctx: &RenderContext<'_>) -> (row: Line)
        requires
            logical_line.source.wf(),
        ensures
            row@ == self.plain_row(logical_line@, *ctx),
    {
        if logical_line.is_image() && self.is_continuation() {
            return Line::empty();
        }
        let line = logical_line.render_plain(ctx);
        if logical_line.is_unwrappable() {
            return line;
        }
        let row = slice_line(&line, self.start, self.end);
        let mut spans = self.prefix_spans(logical_line, &line);
        move_spans(&mut spans, row.spans);
        Line { spans, style: row.style }
    }

    /// The row of a line that is rendered, with the gutter of wrapped rows.
    pub fn render(&self, logical_line: &LogicalLine, line: &Line, ctx: &RenderContext<'_>) -> (row: Line)
        ensures
            row@ == self.shown(logical_line@, line@, *ctx),
    {
        if logical_line.is_image() && self.is_continuation() {
            return Line::empty();
        }
        let mut row = if logical_line.is_unwrappable() {
            line.copy()
        } else {
            slice_line(line, self.start, self.end)
        };
        if logical_line.has_code_gutter() && self.is_continuation() {
            let running = match logical_line.gutter_fg {
                Some(color) => color == ctx.theme.warning,
                None => false,
            };
            row = apply_gutter(
                row,
                logical_line.is_unwrappable(),
                ctx.active_code_id == logical_line.code_id,
                ctx.theme,
                logical_line.gutter_fg,
                ctx.prefer_status_gutter == logical_line.code_id,
                running,
            );
        }
        let mut spans = self.prefix_spans(logical_line, line);
        move_spans(&mut spans, row.spans);
        Line { spans, style: row.style }
    }
}

/// The width that a line is wrapped to.
pub open spec fn wrap_width(logical: LogicalView, width: int) -> int {
    let overhead: int = if logical.gutter() {
        PREVIEW_CODE_WRAP_OVERHEAD as int
    } else {
        PREVIEW_FRAME_OVERHEAD as int
    };
    larger(less_by(width, overhead + logical.reserved()), 1)
}

/// The rows of a line: an image has its height, a line in its final form one row,
/// other lines are wrapped.
pub open spec fn line_rows<W: Fn(&str, usize) -> Vec<(usize, usize)>>(
    wrap: W,
    logical: LogicalView,
    idx: usize,
    image_rows: int,
    ctx: RenderContext<'_>,
) -> Seq<LayoutLine> {
    if logical.source is Image {
        Seq::new(
            larger(image_rows, 1) as nat,
            |row: int|
                LayoutLine { logical_idx: idx, wrap_idx: row as usize, start: 0, end: 0 },
        )
    } else {
        let text = logical.shown(ctx, false).text();
        if logical.unwrappable() {
            seq![LayoutLine { logical_idx: idx, wrap_idx: 0, start: 0, end: text.len() as usize }]
        } else {
            let rows = wrapped_rows(
                wrap,
                text,
                wrap_width(logical, ctx.viewport_width as int) as usize,
            );
            Seq::new(
                rows.len(),
                |row: int|
                    LayoutLine {
                        logical_idx: idx,
                        wrap_idx: row as usize,
                        start: rows[row].0,
                        end: rows[row].1,
                    },
            )
        }
    }
}

/// The rows of the first `n` lines.
pub open spec fn layout_rows<W: Fn(&str, usize) -> Vec<(usize, usize)>>(
    wrap: W,
    lines: Seq<LogicalView>,
    image_rows: Seq<usize>,
    ctx: RenderContext<'_>,
    n: nat,
) -> Seq<LayoutLine>
    decreases n,
{
    if n == 0 {
        Seq::empty()
    } else {
        layout_rows(wrap, lines, image_rows, ctx, (n - 1) as nat) + line_rows(
            wrap,
            lines[n - 1],
            (n - 1) as usize,
            image_rows[n - 1] as int,
            ctx,
        )
    }
}

/// Rows stand in the order of their lines, and each row belongs to a line.
pub proof fn law_rows_follow_lines<W: Fn(&str, usize) -> Vec<(usize, usize)>>(
    wrap: W,
    lines: Seq<LogicalView>,
    image_rows: Seq<usize>,
    ctx: RenderContext<'_>,
    n: nat,
)
    requires
        n <= lines.len() <= usize::MAX,
        image_rows.len() == lines.len(),
    ensures
        forall|i: int, j: int|
            0 <= i <= j < layout_rows(wrap, lines, image_rows, ctx, n).len()
                ==> #[trigger] layout_rows(wrap, lines, image_rows, ctx, n)[i].logical_idx
                <= #[trigger] layout_rows(wrap, lines, image_rows, ctx, n)[j].logical_idx,
        forall|i: int|
            0 <= i < layout_rows(wrap, lines, image_rows, ctx, n).len()
                ==> (#[trigger] layout_rows(wrap, lines, image_rows, ctx, n)[i]).logical_idx < n,
    decreases n,
{
    if n > 0 {
        let m = (n - 1) as nat;
        let before = layout_rows(wrap, lines, image_rows, ctx, m);
        let last = line_rows(wrap, lines[n - 1], m as usize, image_rows[n - 1] as int, ctx);
        law_rows_follow_lines(wrap, lines, image_rows, ctx, m);
        assert forall|i: int| 0 <= i < last.len() implies (#[trigger] last[i]).logical_idx == m by {
        }
        assert(layout_rows(wrap, lines, image_rows, ctx, n) == before + last);
    }
}

/// An image takes its rows, and a line in its final form takes one, whatever the
/// width.
pub proof fn law_final_lines_are_not_wrapped<W: Fn(&str, usize) -> Vec<(usize, usize)>>(
    wrap: W,
    logical: LogicalView,
    idx: usize,
    image_rows: int,
    ctx: RenderContext<'_>,
)
    ensures
        logical.source is Image ==> line_rows(wrap, logical, idx, image_rows, ctx).len() == larger(
            image_rows,
            1,
        ),
        !(logical.source is Image) && logical.unwrappable() ==> line_rows(
            wrap,
            logical,
            idx,
            image_rows,
            ctx,
        ).len() == 1,
{
}

fn lay_out_line<W: Fn(&str, usize) -> Vec<(usize, usize)>>(
    wrap: &W,
    logical: &LogicalLine,
    idx: usize,
    image_rows: usize,
    ctx: &RenderContext<'_>,
) -> (rows: Vec<LayoutLine>)
    requires
        is_wrap(*wrap),
        logical.source.wf(),
    ensures
        rows@ == line_rows(*wrap, logical@, idx, image_rows as int, *ctx),
{
    let ghost goal = line_rows(*wrap, logical@, idx, image_rows as int, *ctx);
    let mut rows: Vec<LayoutLine> = Vec::new();
    let mut row: usize = 0;
    if logical.is_image() {
        let n: usize = image_rows.max(1);
        while row < n
            invariant
                row <= n,
                n == goal.len(),
                rows@ == goal.take(row as int),
                forall|k: int|
                    0 <= k < n ==> #[trigger] goal[k] == (LayoutLine {
                        logical_idx: idx,
                        wrap_idx: k as usize,
                        start: 0,
                        end: 0,
                    }),
            decreases n - row,
        {
            rows.push(LayoutLine { logical_idx: idx, wrap_idx: row, start: 0, end: 0 });
            assert(goal.take(row + 1) =~= goal.take(row as int).push(goal[row as int]));
            row += 1;
        }
        assert(goal.take(row as int) =~= goal);
        return rows;
    }
    let line = logical.render_plain(ctx);
    if logical.is_unwrappable() {
        rows.push(
            LayoutLine { logical_idx: idx, wrap_idx: 0, start: 0, end: text_len(&line.spans) },
        );
        assert(rows@ =~= goal);
        return rows;
    }
    let overhead: usize = if logical.has_code_gutter() {
        PREVIEW_CODE_WRAP_OVERHEAD
    } else {
        PREVIEW_FRAME_OVERHEAD
    };
    let width: usize = ctx.viewport_width.saturating_sub(
        overhead.saturating_add(logical.reserved_prefix_width()),
    ).max(1);
    assert(width == wrap_width(logical@, ctx.viewport_width as int));
    let text = line.text();
    let shown = text.as_str();
    let ranges = wrap(shown, width);
    proof {
        lemma_wrapped(*wrap, shown, width, ranges);
    }
    while row < ranges.len()
        invariant
            row <= ranges@.len(),
            ranges@.len() == goal.len(),
            rows@ == goal.take(row as int),
            forall|k: int|
                0 <= k < goal.len() ==> #[trigger] goal[k] == (LayoutLine {
                    logical_idx: idx,
                    wrap_idx: k as usize,
                    start: ranges@[k].0,
                    end: ranges@[k].1,
                }),
        decreases ranges@.len() - row,
    {
        rows.push(
            LayoutLine {
                logical_idx: idx,
                wrap_idx: row,
                start: ranges[row].0,
                end: ranges[row].1,
            },
        );
        assert(goal.take(row + 1) =~= goal.take(row as int).push(goal[row as int]));
        row += 1;
    }
    assert(goal.take(row as int) =~= goal);
    rows
}

/// The first row that passes a test.
pub open spec fn first_row(rows: Seq<LayoutLine>, keep: spec_fn(LayoutLine) -> bool) -> Option<usize>
    decreases rows.len(),
{
    if rows.len() == 0 {
        None
    } else {
        match first_row(rows.drop_last(), keep) {
            Some(i) => Some(i),
            None => if keep(rows.last()) {
                Some((rows.len() - 1) as usize)
            } else {
                None
            },
        }
    }
}

/// The last row that passes a test.
pub open spec fn last_row(rows: Seq<LayoutLine>, keep: spec_fn(LayoutLine) -> bool) -> Option<usize>
    decreases rows.len(),
{
    if rows.len() == 0 {
        None
    } else if keep(rows.last()) {
        Some((rows.len() - 1) as usize)
    } else {
        last_row(rows.drop_last(), keep)
    }
}

/// The first row that passes a test is one of the rows, it passes, and none before
/// it does.
pub proof fn lemma_first_row(rows: Seq<LayoutLine>, keep: spec_fn(LayoutLine) -> bool)
    ensures
        match first_row(rows, keep) {
            Some(i) => i < rows.len() <= usize::MAX ==> keep(rows[i as int]),
            None => forall|k: int| 0 <= k < rows.len() ==> !keep(#[trigger] rows[k]),
        },
    decreases rows.len(),
{
    if rows.len() > 0 {
        lemma_first_row(rows.drop_last(), keep);
        let before = rows.drop_last();
        match first_row(before, keep) {
            Some(i) => {
                if i < rows.len() <= usize::MAX {
                    lemma_row_bounds(before, keep);
                    assert(before[i as int] == rows[i as int]);
                }
            },
            None => {
                assert forall|k: int| 0 <= k < rows.len() - 1 implies !keep(#[trigger] rows[k]) by {
                    assert(rows[k] == before[k]);
                }
            },
        }
    }
}

/// What is found lies among the rows.
pub proof fn lemma_row_bounds(rows: Seq<LayoutLine>, keep: spec_fn(LayoutLine) -> bool)
    ensures
        rows.len() <= usize::MAX && first_row(rows, keep) is Some ==> first_row(rows, keep)->0
            < rows.len(),
        rows.len() <= usize::MAX && last_row(rows, keep) is Some ==> last_row(rows, keep)->0
            < rows.len(),
        first_row(rows, keep) is Some <==> last_row(rows, keep) is Some,
        rows.len() <= usize::MAX && first_row(rows, keep) is Some ==> first_row(rows, keep)->0
            <= last_row(rows, keep)->0,
    decreases rows.len(),
{
    if rows.len() > 0 {
        lemma_row_bounds(rows.drop_last(), keep);
    }
}

/// What to look for among rows.
#[derive(Clone, Copy, Debug, PartialEq, Eq, Structural)]
pub enum RowTest {
    /// A row of a line.
    Line(usize),
    /// One of the rows of a line.
    LinePart(usize, usize),
    /// A row of a block of the document.
    Node(usize),
    /// One of the rows of a line of a block of the document.
    NodePart(usize, usize),
    /// A row of a code block.
    Code(CodeId),
    /// A row of a code block's start.
    CodeStart(CodeId),
    /// A row of a code block, but not of its output or of a heading.
    CodeSource(CodeId),
}

impl RowTest {
    /// Whether a row is what is looked for.
    pub open spec fn holds(self, lines: Seq<LogicalLine>, row: LayoutLine) -> bool {
        let line = lines[row.logical_idx as int];
        match self {
            RowTest::Line(idx) => row.logical_idx == idx,
            RowTest::LinePart(idx, part) => row.logical_idx == idx && row.wrap_idx == part,
            RowTest::Node(node) => line.node_idx == Some(node),
            RowTest::NodePart(node, part) => line.node_idx == Some(node) && row.wrap_idx == part,
            RowTest::Code(id) => line.code_id == Some(id),
            RowTest::CodeStart(id) => line.code_id == Some(id) && line.is_code_start,
            RowTest::CodeSource(id) => line.code_id == Some(id) && (line@.source is CodeInfo
                || line@.source is CodeBody),
        }
    }

    /// The rows that are looked for.
    pub open spec fn keep(self, lines: Seq<LogicalLine>) -> spec_fn(LayoutLine) -> bool {
        |row: LayoutLine| self.holds(lines, row)
    }

    fn test(self, lines: &Vec<LogicalLine>, row: LayoutLine) -> (yes: bool)
        requires
            row.logical_idx < lines@.len(),
        ensures
            yes == self.holds(lines@, row),
    {
        let line = &lines[row.logical_idx];
        match self {
            RowTest::Line(idx) => row.logical_idx == idx,
            RowTest::LinePart(idx, part) => row.logical_idx == idx && row.wrap_idx == part,
            RowTest::Node(node) => line.node_idx == Some(node),
            RowTest::NodePart(node, part) => line.node_idx == Some(node) && row.wrap_idx == part,
            RowTest::Code(id) => line.code_id == Some(id),
            RowTest::CodeStart(id) => line.code_id == Some(id) && line.is_code_start,
            RowTest::CodeSource(id) => line.code_id == Some(id) && (line.is_code_info()
                || line.is_code_body()),
        }
    }
}

/// The rows of a line.
pub open spec fn rows_of_line(logical_idx: usize) -> spec_fn(LayoutLine) -> bool {
    |row: LayoutLine| row.logical_idx == logical_idx
}

/// Finds the first row that passes a test.
pub fn find_first(rows: &Vec<LayoutLine>, lines: &Vec<LogicalLine>, test: RowTest) -> (found: Option<
    usize,
>)
    requires
        rows_ok(rows@, lines@),
    ensures
        found == first_row(rows@, test.keep(lines@)),
        found matches Some(i) ==> i < rows@.len() && test.holds(lines@, rows@[i as int]),
        found is None ==> forall|k: int|
            0 <= k < rows@.len() ==> !test.holds(lines@, #[trigger] rows@[k]),
{
    let ghost keep = test.keep(lines@);
    let mut i: usize = 0;
    assert(rows@.take(0) =~= Seq::empty());
    while i < rows.len()
        invariant
            i <= rows@.len(),
            rows_ok(rows@, lines@),
            keep == test.keep(lines@),
            first_row(rows@.take(i as int), keep) is None,
        decreases rows@.len() - i,
    {
        proof {
            assert(rows@.take(i + 1).drop_last() =~= rows@.take(i as int));
            assert(rows@.take(i + 1).last() == rows@[i as int]);
        }
        if test.test(lines, rows[i]) {
            proof {
                lemma_first_found(rows@, keep, i as int);
            }
            return Some(i);
        }
        i += 1;
    }
    proof {
        assert(rows@.take(i as int) =~= rows@);
        lemma_first_row(rows@, keep);
    }
    None
}

proof fn lemma_first_found(rows: Seq<LayoutLine>, keep: spec_fn(LayoutLine) -> bool, i: int)
    requires
        0 <= i < rows.len() <= usize::MAX,
        first_row(rows.take(i + 1), keep) == Some(i as usize),
    ensures
        first_row(rows, keep) == Some(i as usize),
    decreases rows.len(),
{
    if i + 1 == rows.len() {
        assert(rows.take(i + 1) =~= rows);
    } else {
        assert(rows.drop_last().take(i + 1) =~= rows.take(i + 1));
        lemma_first_found(rows.drop_last(), keep, i);
    }
}

/// Finds the last row that passes a test.
pub fn find_last(rows: &Vec<LayoutLine>, lines: &Vec<LogicalLine>, test: RowTest) -> (found: Option<
    usize,
>)
    requires
        rows_ok(rows@, lines@),
    ensures
        found == last_row(rows@, test.keep(lines@)),
        found matches Some(i) ==> i < rows@.len() && test.holds(lines@, rows@[i as int]),
{
    let ghost keep = test.keep(lines@);
    let mut i: usize = rows.len();
    assert(rows@.take(i as int) =~= rows@);
    while i > 0
        invariant
            i <= rows@.len(),
            rows_ok(rows@, lines@),
            keep == test.keep(lines@),
            last_row(rows@, keep) == last_row(rows@.take(i as int), keep),
        decreases i,
    {
        proof {
            assert(rows@.take(i as int).drop_last() =~= rows@.take(i - 1));
            assert(rows@.take(i as int).last() == rows@[i - 1]);
        }
        if test.test(lines, rows[i - 1]) {
            return Some(i - 1);
        }
        i -= 1;
    }
    None
}

/// Rows that belong to lines of a document.
pub open spec fn rows_ok(rows: Seq<LayoutLine>, lines: Seq<LogicalLine>) -> bool {
    forall|i: int| 0 <= i < rows.len() ==> (#[trigger] rows[i]).logical_idx < lines.len()
}

/// The rows of a document, and the size they were laid out for.
pub struct LayoutLines {
    pub lines: Vec<LayoutLine>,
    pub last_width: usize,
    pub last_height: usize,
}

impl Default for LayoutLines {
    fn default() -> (rows: LayoutLines)
        ensures
            rows.lines@ == Seq::<LayoutLine>::empty(),
            rows.last_width == PTY_DEFAULT_COLS,
            rows.last_height == 0,
    {
        LayoutLines::new()
    }
}

impl LayoutLines {
    /// No rows yet.
    pub fn new() -> (rows: LayoutLines)
        ensures
            rows.lines@ == Seq::<LayoutLine>::empty(),
            rows.last_width == PTY_DEFAULT_COLS,
            rows.last_height == 0,
    {
        LayoutLines { lines: Vec::new(), last_width: PTY_DEFAULT_COLS as usize, last_height: 0 }
    }

    /// Lays the lines out anew for a width, and takes the block to jump to; returns
    /// where that block starts. Nothing happens for a width of zero.
    pub fn rebuild<W: Fn(&str, usize) -> Vec<(usize, usize)>>(
        &mut self,
        logical_lines: &Vec<LogicalLine>,
        width: usize,
        theme: &Theme,
        painter: &Painter,
        target_block: &mut Option<CodeId>,
        image_rows: &Vec<usize>,
        wrap: &W,
    ) -> (selected: Option<usize>)
        requires
            is_wrap(*wrap),
            lines_wf(logical_lines@),
            image_rows@.len() == logical_lines@.len(),
        ensures
            width == 0 ==> *final(self) == *old(self) && *final(target_block) == *old(target_block)
                && selected is None,
            width > 0 ==> {
                &&& final(self).last_width == width
                &&& final(self).last_height == old(self).last_height
                &&& final(self).lines@ == layout_rows(
                    *wrap,
                    logical_views(logical_lines@),
                    image_rows@,
                    measuring(theme, painter, width),
                    logical_lines@.len(),
                )
                &&& rows_ok(final(self).lines@, logical_lines@)
                &&& *final(target_block) is None
                &&& selected == (match *old(target_block) {
                    Some(id) => first_row(
                        final(self).lines@,
                        RowTest::CodeStart(id).keep(logical_lines@),
                    ),
                    None => None,
                })
                &&& selected matches Some(i) ==> i < final(self).lines@.len()
            },
    {
        if width == 0 {
            return None;
        }
        self.last_width = width;
        let ctx = RenderContext {
            theme,
            painter,
            active_code_id: None,
            prefer_status_gutter: None,
            spinner_char: ' ',
            viewport_width: width,
        };
        let ghost views = logical_views(logical_lines@);
        let mut rows: Vec<LayoutLine> = Vec::new();
        let mut i: usize = 0;
        while i < logical_lines.len()
            invariant
                i <= logical_lines@.len(),
                is_wrap(*wrap),
                lines_wf(logical_lines@),
                image_rows@.len() == logical_lines@.len(),
                views == logical_views(logical_lines@),
                rows@ == layout_rows(*wrap, views, image_rows@, ctx, i as nat),
                rows_ok(rows@, logical_lines@),
            decreases logical_lines@.len() - i,
        {
            let mut more = lay_out_line(wrap, &logical_lines[i], i, image_rows[i], &ctx);
            let ghost before = rows@;
            let ghost added = more@;
            assert(views[i as int] == logical_lines@[i as int]@);
            rows.append(&mut more);
            assert(rows@ =~= before + added);
            i += 1;
        }
        self.lines = rows;
        match target_block.take() {
            Some(id) => self.find_code_start(id, logical_lines),
            None => None,
        }
    }

    pub fn len(&self) -> (len: usize)
        ensures
            len == self.lines@.len(),
    {
        self.lines.len()
    }

    pub fn is_empty(&self) -> (empty: bool)
        ensures
            empty == (self.lines@.len() == 0),
    {
        self.lines.len() == 0
    }

    /// A row.
    pub fn get(&self, idx: usize) -> (row: Option<LayoutLine>)
        ensures
            row == (if idx < self.lines@.len() {
                Some(self.lines@[idx as int])
            } else {
                None
            }),
    {
        if idx < self.lines.len() {
            Some(self.lines[idx])
        } else {
            None
        }
    }

    /// All rows.
    pub fn borrow(&self) -> (rows: &Vec<LayoutLine>)
        ensures
            *rows == self.lines,
    {
        &self.lines
    }

    /// The first row of a line.
    pub fn layout_idx_of_logical(&self, logical_idx: usize) -> (found: Option<usize>)
        ensures
            found == first_row(self.lines@, rows_of_line(logical_idx)),
            found matches Some(i) ==> i < self.lines@.len(),
    {
        let ghost keep = rows_of_line(logical_idx);
        let mut i: usize = 0;
        assert(self.lines@.take(0) =~= Seq::empty());
        while i < self.lines.len()
            invariant
                i <= self.lines@.len(),
                keep == rows_of_line(logical_idx),
                first_row(self.lines@.take(i as int), keep) is None,
            decreases self.lines@.len() - i,
        {
            proof {
                assert(self.lines@.take(i + 1).drop_last() =~= self.lines@.take(i as int));
                assert(self.lines@.take(i + 1).last() == self.lines@[i as int]);
            }
            if self.lines[i].logical_idx == logical_idx {
                proof {
                    lemma_first_found(self.lines@, keep, i as int);
                }
                return Some(i);
            }
            i += 1;
        }
        assert(self.lines@.take(i as int) =~= self.lines@);
        None
    }

    /// The row of a block's start.
    pub fn find_code_start(&self, id: CodeId, logical_lines: &Vec<LogicalLine>) -> (found: Option<
        usize,
    >)
        requires
            rows_ok(self.lines@, logical_lines@),
        ensures
            found == first_row(self.lines@, RowTest::CodeStart(id).keep(logical_lines@)),
            found matches Some(i) ==> i < self.lines@.len(),
    {
        find_first(&self.lines, logical_lines, RowTest::CodeStart(id))
    }

    pub fn last_width(&self) -> (width: usize)
        ensures
            width == self.last_width,
    {
        self.last_width
    }

    pub fn set_last_width(&mut self, width: usize)
        ensures
            *final(self) == (LayoutLines { last_width: width, ..*old(self) }),
    {
        self.last_width = width;
    }

    pub fn last_height(&self) -> (height: usize)
        ensures
            height == self.last_height,
    {
        self.last_height
    }

    pub fn set_last_height(&mut self, height: usize)
        ensures
            *final(self) == (LayoutLines { last_height: height, ..*old(self) }),
    {
        self.last_height = height;
    }
}

/// How lines are rendered to measure them.
pub open spec fn measuring<'a>(theme: &'a Theme, painter: &'a Painter, width: usize) -> RenderContext<'a> {
    RenderContext {
        theme,
        painter,
        active_code_id: None,
        prefer_status_gutter: None,
        spinner_char: ' ',
        viewport_width: width,
    }
}

} // verus!
