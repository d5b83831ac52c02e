//! Places in the preview that survive a new layout.

use vstd::prelude::*;

use crate::code::CodeId;
use crate::num::{larger, less_by, smaller};
use crate::tui::markdown::line::LogicalLine;
use crate::tui::preview::layout_lines::{
    find_first, find_last, first_row, last_row, lemma_row_bounds, rows_ok, LayoutLine, RowTest,
};

verus! {

/// The least share of the viewport, in percent, for a full-screen program below a
/// code block.
pub const INLINE_PTY_MIN_PERCENT: usize = 40;

/// The least rows for a full-screen program below a code block.
pub const INLINE_PTY_MIN_ROWS: usize = 8;

/// How many rows for a full-screen program have to be left.
pub open spec fn pty_target(viewport: int, source_rows: int) -> int {
    smaller(
        smaller(
            larger((viewport * INLINE_PTY_MIN_PERCENT + 99) / 100, INLINE_PTY_MIN_ROWS as int),
            viewport,
        ),
        larger(less_by(viewport, source_rows), 1),
    )
}

/// How many rows are left below a row of the viewport.
pub open spec fn rows_below(viewport: int, end: int, offset: int) -> int {
    if end < offset {
        viewport
    } else {
        larger(less_by(viewport, end - offset + 1), 1)
    }
}

/// The rows for a full-screen program below a code block that ends in row `end`,
/// and the first row to show: the viewport is scrolled only where too few rows are
/// left.
pub open spec fn pty_rows(viewport: int, end: int, source_rows: int, offset: int) -> (int, int) {
    let target = pty_target(viewport, source_rows);
    let available = rows_below(viewport, end, offset);
    if viewport == 0 {
        (1, offset)
    } else if available >= target {
        (available, offset)
    } else {
        (target, less_by(smaller(end + 1 + target, usize::MAX as int), viewport))
    }
}

/// The rows for a full-screen program below a code block, and the first row to
/// show.
pub fn inline_pty_rows(viewport: usize, source_end: usize, source_rows: usize, offset: usize) -> (out: (
    usize,
    usize,
))
    ensures
        (out.0 as int, out.1 as int) == pty_rows(
            viewport as int,
            source_end as int,
            source_rows as int,
            offset as int,
        ),
{
    if viewport == 0 {
        return (1, offset);
    }
    let share: u128 = (viewport as u128 * INLINE_PTY_MIN_PERCENT as u128 + 99) / 100;
    let target: usize = (share as usize).max(INLINE_PTY_MIN_ROWS).min(viewport).min(
        viewport.saturating_sub(source_rows).max(1),
    );
    let available: usize = if source_end < offset {
        viewport
    } else {
        viewport.saturating_sub((source_end - offset).saturating_add(1)).max(1)
    };
    if available >= target {
        (available, offset)
    } else {
        (target, source_end.saturating_add(1).saturating_add(target).saturating_sub(viewport))
    }
}

/// There is at least one row and no more than the viewport has. Where the source
/// ends in the viewport and leaves room, its end and all the rows are in view.
pub proof fn law_pty_fits_the_viewport(viewport: int, end: int, source_rows: int, offset: int)
    requires
        viewport > 0,
        end >= 0,
        source_rows >= 0,
        offset >= 0,
        end + 1 + viewport <= usize::MAX,
    ensures
        1 <= pty_rows(viewport, end, source_rows, offset).0 <= viewport,
        offset <= end && pty_rows(viewport, end, source_rows, offset).1 != offset ==> end + 1
            + pty_rows(viewport, end, source_rows, offset).0 - pty_rows(
            viewport,
            end,
            source_rows,
            offset,
        ).1 <= viewport,
        offset <= end < offset + viewport - 1 && pty_rows(viewport, end, source_rows, offset).1 == offset
            ==> end + 1 + pty_rows(viewport, end, source_rows, offset).0 <= offset + viewport,
{
}

/// A row of the preview, whatever the layout.
#[derive(Clone, Copy, Debug, PartialEq, Eq, Structural)]
pub enum LayoutLineIdentity {
    /// A row of a code block, counted from its first line.
    Code { id: CodeId, line_idx: usize, wrap_idx: usize },
    /// A row outside of code blocks.
    Document { node_idx: Option<usize>, logical_idx: usize, wrap_idx: usize },
}

/// What a row is, whatever the layout.
pub open spec fn identity_of(rows: Seq<LayoutLine>, lines: Seq<LogicalLine>, at: int) -> LayoutLineIdentity {
    let row = rows[at];
    let line = lines[row.logical_idx as int];
    match line.code_id {
        Some(id) => {
            let first = first_row(rows, RowTest::Code(id).keep(lines))->0;
            LayoutLineIdentity::Code {
                id,
                line_idx: less_by(
                    row.logical_idx as int,
                    rows[first as int].logical_idx as int,
                ) as usize,
                wrap_idx: row.wrap_idx,
            }
        },
        None => LayoutLineIdentity::Document {
            node_idx: line.node_idx,
            logical_idx: row.logical_idx,
            wrap_idx: row.wrap_idx,
        },
    }
}

/// What a row is, whatever the layout.
pub fn line_identity(rows: &Vec<LayoutLine>, lines: &Vec<LogicalLine>, at: usize) -> (identity:
    LayoutLineIdentity)
    requires
        at < rows@.len(),
        rows_ok(rows@, lines@),
    ensures
        identity == identity_of(rows@, lines@, at as int),
{
    let row = rows[at];
    let line = &lines[row.logical_idx];
    match line.code_id {
        Some(id) => {
            let found = find_first(rows, lines, RowTest::Code(id));
            assert(RowTest::Code(id).holds(lines@, rows@[at as int]));
            let line_idx: usize = match found {
                Some(first) => row.logical_idx.saturating_sub(rows[first].logical_idx),
                None => 0,
            };
            LayoutLineIdentity::Code { id, line_idx, wrap_idx: row.wrap_idx }
        },
        None => LayoutLineIdentity::Document {
            node_idx: line.node_idx,
            logical_idx: row.logical_idx,
            wrap_idx: row.wrap_idx,
        },
    }
}

/// The first of two that is there.
pub open spec fn either(a: Option<usize>, b: Option<usize>) -> Option<usize> {
    match a {
        Some(_) => a,
        None => b,
    }
}

/// The row of a line, as near to a part of it as there is.
pub open spec fn row_of_line(
    rows: Seq<LayoutLine>,
    lines: Seq<LogicalLine>,
    logical_idx: usize,
    wrap_idx: usize,
) -> Option<usize> {
    either(
        first_row(rows, RowTest::LinePart(logical_idx, wrap_idx).keep(lines)),
        first_row(rows, RowTest::Line(logical_idx).keep(lines)),
    )
}

/// The row that a place is at in a layout.
pub open spec fn row_of_identity(
    rows: Seq<LayoutLine>,
    lines: Seq<LogicalLine>,
    identity: LayoutLineIdentity,
) -> Option<usize> {
    match identity {
        LayoutLineIdentity::Code { id, line_idx, wrap_idx } => match first_row(
            rows,
            RowTest::Code(id).keep(lines),
        ) {
            Some(first) => row_of_line(
                rows,
                lines,
                smaller(
                    rows[first as int].logical_idx + line_idx,
                    usize::MAX as int,
                ) as usize,
                wrap_idx,
            ),
            None => None,
        },
        LayoutLineIdentity::Document { node_idx, logical_idx, wrap_idx } => either(
            match node_idx {
                Some(node) => either(
                    first_row(rows, RowTest::NodePart(node, wrap_idx).keep(lines)),
                    first_row(rows, RowTest::Node(node).keep(lines)),
                ),
                None => None,
            },
            row_of_line(rows, lines, logical_idx, wrap_idx),
        ),
    }
}

fn find_line(rows: &Vec<LayoutLine>, lines: &Vec<LogicalLine>, logical_idx: usize, wrap_idx: usize) -> (found:
    Option<usize>)
    requires
        rows_ok(rows@, lines@),
    ensures
        found == row_of_line(rows@, lines@, logical_idx, wrap_idx),
        found matches Some(i) ==> i < rows@.len(),
{
    match find_first(rows, lines, RowTest::LinePart(logical_idx, wrap_idx)) {
        Some(i) => Some(i),
        None => find_first(rows, lines, RowTest::Line(logical_idx)),
    }
}

/// The row that a place is at in a layout: the same row of the same block, or
/// else the block's first, or else the same line.
pub fn layout_idx_for_identity(
    rows: &Vec<LayoutLine>,
    lines: &Vec<LogicalLine>,
    identity: LayoutLineIdentity,
) -> (found: Option<usize>)
    requires
        rows_ok(rows@, lines@),
    ensures
        found == row_of_identity(rows@, lines@, identity),
        found matches Some(i) ==> i < rows@.len(),
{
    match identity {
        LayoutLineIdentity::Code { id, line_idx, wrap_idx } => {
            match find_first(rows, lines, RowTest::Code(id)) {
                Some(first) => find_line(
                    rows,
                    lines,
                    rows[first].logical_idx.saturating_add(line_idx),
                    wrap_idx,
                ),
                None => None,
            }
        },
        LayoutLineIdentity::Document { node_idx, logical_idx, wrap_idx } => {
            if let Some(node) = node_idx {
                if let Some(i) = find_first(rows, lines, RowTest::NodePart(node, wrap_idx)) {
                    return Some(i);
                }
                if let Some(i) = find_first(rows, lines, RowTest::Node(node)) {
                    return Some(i);
                }
            }
            find_line(rows, lines, logical_idx, wrap_idx)
        },
    }
}

/// The first and the last row that pass a test.
pub open spec fn extent_of(rows: Seq<LayoutLine>, lines: Seq<LogicalLine>, test: RowTest) -> Option<
    (usize, usize),
> {
    match (first_row(rows, test.keep(lines)), last_row(rows, test.keep(lines))) {
        (Some(first), Some(last)) => Some((first, last)),
        _ => None,
    }
}

/// The first and the last row that pass a test.
pub fn find_extent(rows: &Vec<LayoutLine>, lines: &Vec<LogicalLine>, test: RowTest) -> (extent: Option<
    (usize, usize),
>)
    requires
        rows_ok(rows@, lines@),
    ensures
        extent == extent_of(rows@, lines@, test),
        extent matches Some((first, last)) ==> first <= last < rows@.len(),
{
    let n: usize = rows.len();
    proof {
        lemma_row_bounds(rows@, test.keep(lines@));
    }
    match (find_first(rows, lines, test), find_last(rows, lines, test)) {
        (Some(first), Some(last)) => Some((first, last)),
        _ => None,
    }
}

/// How many rows a code block takes.
pub open spec fn rows_of_code(rows: Seq<LayoutLine>, lines: Seq<LogicalLine>, id: CodeId) -> Option<int> {
    match extent_of(rows, lines, RowTest::Code(id)) {
        Some((first, last)) => Some(last - first + 1),
        None => None,
    }
}

/// The first row to show so that the end of a code block that grew below the
/// viewport stays in view.
pub open spec fn following_offset(
    rows: Seq<LayoutLine>,
    lines: Seq<LogicalLine>,
    viewport: int,
    offset: int,
    id: CodeId,
    previous_rows: int,
) -> int {
    match extent_of(rows, lines, RowTest::Code(id)) {
        Some((first, last)) => if viewport == 0 || last - first + 1 <= previous_rows || last < offset
            + viewport {
            offset
        } else {
            last + 1 - viewport
        },
        None => offset,
    }
}

/// The first row to show so that the end of a code block that grew below the
/// viewport stays in view.
pub fn offset_following_grown_code_bottom(
    rows: &Vec<LayoutLine>,
    lines: &Vec<LogicalLine>,
    viewport: usize,
    offset: usize,
    id: CodeId,
    previous_rows: usize,
) -> (out: usize)
    requires
        rows_ok(rows@, lines@),
    ensures
        out == following_offset(
            rows@,
            lines@,
            viewport as int,
            offset as int,
            id,
            previous_rows as int,
        ),
{
    let n: usize = rows.len();
    if viewport == 0 {
        return offset;
    }
    match find_extent(rows, lines, RowTest::Code(id)) {
        Some((first, last)) => {
            if last - first < previous_rows || last < offset || last - offset < viewport {
                offset
            } else {
                last - viewport + 1
            }
        },
        None => offset,
    }
}

/// Following a block that grew shows its last row at the bottom of the viewport.
pub proof fn law_growth_is_followed(
    rows: Seq<LayoutLine>,
    lines: Seq<LogicalLine>,
    viewport: int,
    offset: int,
    id: CodeId,
    previous_rows: int,
)
    requires
        viewport > 0,
        offset >= 0,
        rows_of_code(rows, lines, id) is Some,
        rows_of_code(rows, lines, id)->0 > previous_rows,
    ensures
        ({
            let last = (extent_of(rows, lines, RowTest::Code(id))->0).1;
            let shown = following_offset(rows, lines, viewport, offset, id, previous_rows);
            &&& last < shown + viewport
            &&& shown >= offset
        }),
{
}

/// A full-screen program asks for two fifths of the viewport, and for eight rows at least,
/// as far as its block leaves them.
pub proof fn law_programs_ask_for_their_share(viewport: int, source_rows: int)
    requires
        viewport >= 1,
        source_rows >= 0,
    ensures
        pty_target(viewport, source_rows) >= 1,
        pty_target(viewport, source_rows) <= viewport,
        source_rows < viewport ==> pty_target(viewport, source_rows) <= viewport - source_rows,
        source_rows == 0 && viewport >= 20 ==> viewport * 40 <= pty_target(viewport, 0) * 100
            < viewport * 40 + 100,
        source_rows == 0 && 8 <= viewport <= 20 ==> pty_target(viewport, 0) == 8,
        source_rows >= viewport ==> pty_target(viewport, source_rows) == 1,
{
}

} // verus!
