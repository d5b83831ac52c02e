//! New layouts that keep the reader's place.

use vstd::prelude::*;

use crate::code::CodeId;
use crate::num::{less_by, smaller};
use crate::tui::list_state::ListState;
use crate::tui::markdown::line::{lines_wf, logical_views, LogicalLine, LogicalView};
use crate::tui::preview::images::ImageCache;
use crate::tui::preview::layout_lines::{
    first_row, is_wrap, layout_rows, measuring, rows_ok, LayoutLine, RowTest,
};
use crate::tui::preview::pane::{at_row, Preview};
use crate::tui::preview::rows::{
    find_extent, following_offset, identity_of, layout_idx_for_identity, line_identity,
    offset_following_grown_code_bottom, row_of_identity, rows_of_code, LayoutLineIdentity,
};
use crate::tui::selection::SelectionView;

verus! {

/// Where the reader was in the layout before.
#[derive(Clone, Copy, Debug)]
pub struct Anchor {
    pub identity: Option<LayoutLineIdentity>,
    pub selected: Option<usize>,
    pub offset: usize,
    /// The selected block, and how many rows it took.
    pub code_rows: Option<(CodeId, usize)>,
}

/// Where the reader is in a layout.
pub open spec fn anchor_of(rows: Seq<LayoutLine>, lines: Seq<LogicalLine>, state: ListState) -> Anchor {
    if state.selected is Some && state.selected->0 < rows.len() {
        let row = state.selected->0 as int;
        Anchor {
            identity: Some(identity_of(rows, lines, row)),
            selected: state.selected,
            offset: state.offset,
            code_rows: match lines[rows[row].logical_idx as int].code_id {
                Some(id) => match rows_of_code(rows, lines, id) {
                    Some(count) => Some((id, count as usize)),
                    None => None,
                },
                None => None,
            },
        }
    } else {
        Anchor {
            identity: None,
            selected: state.selected,
            offset: state.offset,
            code_rows: None,
        }
    }
}

/// Where the reader is in a layout.
pub fn find_anchor(rows: &Vec<LayoutLine>, lines: &Vec<LogicalLine>, state: ListState) -> (anchor: Anchor)
    requires
        rows_ok(rows@, lines@),
    ensures
        anchor == anchor_of(rows@, lines@, state),
{
    let n: usize = rows.len();
    let mut anchor = Anchor {
        identity: None,
        selected: state.selected,
        offset: state.offset,
        code_rows: None,
    };
    if let Some(row) = state.selected {
        if row < n {
            anchor.identity = Some(line_identity(rows, lines, row));
            if let Some(id) = lines[rows[row].logical_idx].code_id {
                if let Some((first, last)) = find_extent(rows, lines, RowTest::Code(id)) {
                    anchor.code_rows = Some((id, last - first + 1));
                }
            }
        }
    }
    anchor
}

/// The first row to show, where the selected row moved.
pub open spec fn moved_offset(anchor: Anchor, row: int) -> int {
    match anchor.selected {
        Some(before) => if row >= before {
            smaller(anchor.offset + (row - before), usize::MAX as int)
        } else {
            less_by(anchor.offset as int, before - row)
        },
        None => anchor.offset as int,
    }
}

/// Where the reader is in a new layout. A block to jump to comes first; else the
/// selected row keeps its place on the screen, and the end of a selected block that
/// grew stays in view.
pub open spec fn restored(
    anchor: Anchor,
    rows: Seq<LayoutLine>,
    lines: Seq<LogicalLine>,
    height: int,
    jump: Option<usize>,
    state: ListState,
) -> ListState {
    match jump {
        Some(row) => at_row(row),
        None => {
            let found = match anchor.identity {
                Some(identity) => row_of_identity(rows, lines, identity),
                None => None,
            };
            match found {
                Some(row) => {
                    let offset = moved_offset(anchor, row as int);
                    let same_block = anchor.code_rows is Some
                        && lines[rows[row as int].logical_idx as int].code_id == Some(
                        (anchor.code_rows->0).0,
                    );
                    ListState {
                        selected: Some(row),
                        offset: if same_block {
                            following_offset(
                                rows,
                                lines,
                                height,
                                offset,
                                (anchor.code_rows->0).0,
                                (anchor.code_rows->0).1 as int,
                            ) as usize
                        } else {
                            offset as usize
                        },
                    }
                },
                None => state,
            }
        },
    }
}

/// A place within the rows.
pub open spec fn clamped(state: ListState, len: int) -> ListState {
    if len == 0 {
        ListState { selected: None, offset: 0 }
    } else {
        ListState {
            selected: match state.selected {
                Some(row) => Some(smaller(row as int, len - 1) as usize),
                None => None,
            },
            offset: smaller(state.offset as int, len - 1) as usize,
        }
    }
}

/// However a layout changes, the selected row and the first row to show are rows of
/// it.
pub proof fn law_place_stays_in_rows(state: ListState, len: int)
    requires
        0 < len <= usize::MAX,
    ensures
        clamped(state, len).offset < len,
        clamped(state, len).selected is Some <==> state.selected is Some,
        clamped(state, len).selected is Some ==> clamped(state, len).selected->0 < len,
{
}

/// A selected row outside of code blocks stays at its place on the screen in a new
/// layout, unless the top of the document is too near for that.
pub proof fn law_selection_keeps_its_place(
    anchor: Anchor,
    rows: Seq<LayoutLine>,
    lines: Seq<LogicalLine>,
    height: int,
    state: ListState,
    row: usize,
)
    requires
        anchor.identity is Some,
        row_of_identity(rows, lines, anchor.identity->0) == Some(row),
        row < rows.len() <= usize::MAX,
        anchor.code_rows is None,
        anchor.selected is Some,
        anchor.offset <= anchor.selected->0,
        anchor.selected->0 - anchor.offset <= row,
    ensures
        ({
            let place = clamped(
                restored(anchor, rows, lines, height, None, state),
                rows.len() as int,
            );
            &&& place.selected == Some(row)
            &&& row - place.offset == anchor.selected->0 - anchor.offset
        }),
{
}

/// How many rows each line's image takes.
pub open spec fn image_counts(lines: Seq<LogicalView>, images: ImageCache, base: Seq<char>) -> Seq<usize> {
    lines.map_values(
        |line: LogicalView|
            (if line.source is Image {
                images.image_rows(line.source->src, base)
            } else {
                1
            }) as usize,
    )
}

fn count_image_rows(lines: &Vec<LogicalLine>, images: &ImageCache, base: &str) -> (counts: Vec<usize>)
    ensures
        counts@ == image_counts(logical_views(lines@), *images, base@),
{
    let ghost views = logical_views(lines@);
    let ghost goal = image_counts(views, *images, base@);
    let mut counts: Vec<usize> = Vec::new();
    let mut i: usize = 0;
    assert(counts@ =~= goal.take(0));
    while i < lines.len()
        invariant
            i <= lines@.len(),
            views == logical_views(lines@),
            goal == image_counts(views, *images, base@),
            counts@ == goal.take(i as int),
        decreases lines@.len() - i,
    {
        assert(views[i as int] == lines@[i as int]@);
        let count: usize = match lines[i].image_src() {
            Some(src) => images.rows(src, base),
            None => 1,
        };
        assert(goal[i as int] == count);
        counts.push(count);
        assert(goal.take(i + 1) =~= goal.take(i as int).push(count));
        i += 1;
    }
    assert(goal.take(i as int) =~= goal);
    counts
}

impl Preview {
    /// The rows that the lines are laid out in at a width.
    pub open spec fn laid_out<W: Fn(&str, usize) -> Vec<(usize, usize)>>(&self, wrap: W, width: usize) -> Seq<
        LayoutLine,
    > {
        let views = logical_views(self.logical_lines@);
        layout_rows(
            wrap,
            views,
            image_counts(views, self.images, self.image_base_dir@),
            measuring(&self.theme, &self.painter, width),
            views.len(),
        )
    }

    /// The row of the block to jump to.
    pub open spec fn jump_row(&self, rows: Seq<LayoutLine>) -> Option<usize> {
        match self.target_block {
            Some(id) => first_row(rows, RowTest::CodeStart(id).keep(self.logical_lines@)),
            None => None,
        }
    }

    /// The lines were laid out anew from a place in the layout before.
    pub open spec fn relaid<W: Fn(&str, usize) -> Vec<(usize, usize)>>(
        &self,
        before: &Preview,
        anchor: Anchor,
        wrap: W,
        width: usize,
    ) -> bool {
        let rows = before.laid_out(wrap, width);
        &&& self.layout_lines.lines@ == rows
        &&& self.layout_lines.last_width == width
        &&& self.layout_lines.last_height == before.layout_lines.last_height
        &&& self.target_block is None
        &&& self.state == clamped(
            restored(
                anchor,
                rows,
                before.logical_lines@,
                before.layout_lines.last_height as int,
                before.jump_row(rows),
                before.state,
            ),
            rows.len() as int,
        )
        &&& self.selection.state@ == (if rows.len() == 0 || before.selection.state@.outside(
            rows.len() as int,
        ) {
            SelectionView::nothing()
        } else {
            before.selection.state@
        })
        &&& self.selection.pending_code_click == before.selection.pending_code_click
        &&& *self == (Preview {
            layout_lines: self.layout_lines,
            target_block: self.target_block,
            state: self.state,
            selection: self.selection,
            ..*before
        })
    }

    /// Keeps the place within the rows.
    fn clamp_state_to_layout_lines(&mut self)
        ensures
            final(self).state == clamped(old(self).state, old(self).rows().len() as int),
            final(self).selection.state@ == (if old(self).rows().len() == 0 || old(
                self,
            ).selection.state@.outside(old(self).rows().len() as int) {
                SelectionView::nothing()
            } else {
                old(self).selection.state@
            }),
            final(self).selection.pending_code_click == old(self).selection.pending_code_click,
            *final(self) == (Preview {
                state: final(self).state,
                selection: final(self).selection,
                ..*old(self)
            }),
    {
        let len: usize = self.layout_lines.len();
        if len == 0 {
            self.state.select(None);
            self.state.offset = 0;
            self.selection.clear();
            return ;
        }
        if let Some(row) = self.state.selected {
            self.state.select(Some(row.min(len - 1)));
        }
        self.state.offset = self.state.offset.min(len - 1);
        self.selection.clamp_or_clear(len);
    }

    /// Lays the lines out anew, and finds the place again.
    pub(crate) fn rebuild_layout_lines_from<W: Fn(&str, usize) -> Vec<(usize, usize)>>(
        &mut self,
        width: usize,
        anchor: Anchor,
        wrap: &W,
    )
        requires
            is_wrap(*wrap),
            width > 0,
            lines_wf(old(self).logical_lines@),
        ensures
            final(self).relaid(old(self), anchor, *wrap, width),
            rows_ok(final(self).rows(), final(self).logical_lines@),
    {
        let counts = count_image_rows(
            &self.logical_lines,
            &self.images,
            self.image_base_dir.as_str(),
        );
        assert(counts@.len() == self.logical_lines@.len());
        let jump = self.layout_lines.rebuild(
            &self.logical_lines,
            width,
            &self.theme,
            &self.painter,
            &mut self.target_block,
            &counts,
            wrap,
        );
        match jump {
            Some(row) => {
                self.state.select(Some(row));
                self.state.offset = row;
            },
            None => {
                let found = match anchor.identity {
                    Some(identity) => layout_idx_for_identity(
                        &self.layout_lines.lines,
                        &self.logical_lines,
                        identity,
                    ),
                    None => None,
                };
                if let Some(row) = found {
                    let mut offset: usize = match anchor.selected {
                        Some(before) => if row >= before {
                            anchor.offset.saturating_add(row - before)
                        } else {
                            anchor.offset.saturating_sub(before - row)
                        },
                        None => anchor.offset,
                    };
                    if let Some((id, previous_rows)) = anchor.code_rows {
                        let logical = self.layout_lines.lines[row].logical_idx;
                        if self.logical_lines[logical].code_id == Some(id) {
                            offset = offset_following_grown_code_bottom(
                                &self.layout_lines.lines,
                                &self.logical_lines,
                                self.layout_lines.last_height,
                                offset,
                                id,
                                previous_rows,
                            );
                        }
                    }
                    self.state.select(Some(row));
                    self.state.offset = offset;
                }
            },
        }
        self.clamp_state_to_layout_lines();
    }

    /// Lays the lines out anew for a width; the selected row keeps its place.
    pub fn rebuild_layout_lines<W: Fn(&str, usize) -> Vec<(usize, usize)>>(
        &mut self,
        width: usize,
        wrap: &W,
    )
        requires
            is_wrap(*wrap),
            old(self).wf(),
        ensures
            final(self).wf(),
            width == 0 ==> *final(self) == *old(self),
            width > 0 ==> final(self).relaid(
                old(self),
                anchor_of(old(self).rows(), old(self).logical_lines@, old(self).state),
                *wrap,
                width,
            ),
    {
        if width == 0 {
            return ;
        }
        let anchor = find_anchor(&self.layout_lines.lines, &self.logical_lines, self.state);
        self.rebuild_layout_lines_from(width, anchor, wrap);
    }
}

} // verus!
