//! How rows belong to their lines, and how a place is kept when they change.

use std::collections::HashMap;

use vstd::prelude::*;

use crate::code::CodeId;
use crate::rect::Rect;
use crate::seqs::{indices_where, lemma_indices_where};
use crate::style::{line_text, LineView};
use crate::tui::list_state::ListState;
use crate::tui::markdown::line::{logical_views, LogicalLine, LogicalView};
use crate::tui::markdown::paint::RenderContext;
use crate::tui::markdown::render::MarkdownRenderer;
use crate::tui::markdown::slice::{law_slice_text, text_between};
use crate::tui::preview::frame::image_places;
use crate::tui::preview::images::{has_scheme, joined_path, state_of, ImageEntry};
use crate::tui::preview::layout_lines::{first_row, wrap_width, LayoutLine, RowTest};
use crate::tui::preview::open::{asked_for_rows, Requests};
use crate::tui::preview::pane::{headings, is_heading, Preview};
use crate::tui::preview::reading_law::law_the_first_row_is_found;
use crate::tui::preview::rebuild::{all_kept, kept_from};
use crate::tui::preview::relayout::{clamped, restored, Anchor};
use crate::tui::preview::rows::{identity_of, row_of_identity};
use crate::tui::tasks::TaskOutput;

verus! {

/// A row is found again by what it is known by: the same row of the same line, where the
/// rows did not change.
pub proof fn law_rows_are_found_again(rows: Seq<LayoutLine>, lines: Seq<LogicalLine>, at: int)
    requires
        rows.len() <= usize::MAX,
        0 <= at < rows.len(),
        forall|i: int, j: int|
            0 <= i <= j < rows.len() ==> (#[trigger] rows[i]).logical_idx <= (
            #[trigger] rows[j]).logical_idx,
        lines[rows[at].logical_idx as int].code_id is Some
            || lines[rows[at].logical_idx as int].node_idx is None,
    ensures
        ({
            let found = row_of_identity(rows, lines, identity_of(rows, lines, at));
            &&& found is Some
            &&& found->0 < rows.len()
            &&& rows[found->0 as int].logical_idx == rows[at].logical_idx
            &&& rows[found->0 as int].wrap_idx == rows[at].wrap_idx
        }),
{
    let row = rows[at];
    let line = lines[row.logical_idx as int];
    let part = RowTest::LinePart(row.logical_idx, row.wrap_idx).keep(lines);
    law_the_first_row_is_found(rows, part, at);
    if let Some(id) = line.code_id {
        let of_block = RowTest::Code(id).keep(lines);
        law_the_first_row_is_found(rows, of_block, at);
        let first = first_row(rows, of_block)->0 as int;
        assert(rows[first].logical_idx <= rows[at].logical_idx);
    }
}

/// A row of a document's block is found again in that block, at the same wrapped row.
pub proof fn law_blocks_are_found_again(
    rows: Seq<LayoutLine>,
    lines: Seq<LogicalLine>,
    at: int,
)
    requires
        rows.len() <= usize::MAX,
        0 <= at < rows.len(),
        lines[rows[at].logical_idx as int].code_id is None,
        lines[rows[at].logical_idx as int].node_idx is Some,
    ensures
        ({
            let found = row_of_identity(rows, lines, identity_of(rows, lines, at));
            &&& found is Some
            &&& found->0 <= at
            &&& lines[rows[found->0 as int].logical_idx as int].node_idx
                == lines[rows[at].logical_idx as int].node_idx
            &&& rows[found->0 as int].wrap_idx == rows[at].wrap_idx
        }),
{
    let row = rows[at];
    let node = lines[row.logical_idx as int].node_idx->0;
    law_the_first_row_is_found(rows, RowTest::NodePart(node, row.wrap_idx).keep(lines), at);
}

/// A row that a jump leads to is selected, and stands at the top.
pub proof fn law_jumps_lead_to_the_top(
    anchor: Anchor,
    rows: Seq<LayoutLine>,
    lines: Seq<LogicalLine>,
    height: int,
    row: usize,
    state: ListState,
)
    requires
        row < rows.len() <= usize::MAX,
    ensures
        ({
            let place = clamped(
                restored(anchor, rows, lines, height, Some(row), state),
                rows.len() as int,
            );
            &&& place.selected == Some(row)
            &&& place.offset == row
        }),
{
}

/// Text is wrapped to what the frame leaves of the width, less what stands in front of
/// it; code leaves room for the gutter too.
pub proof fn law_rows_fit_between_the_borders(logical: LogicalView, width: int)
    requires
        width >= 0,
    ensures
        wrap_width(logical, width) >= 1,
        !logical.gutter() && width >= 5 + logical.reserved() ==> wrap_width(logical, width)
            == width - 4 - logical.reserved(),
        logical.gutter() && width >= 7 + logical.reserved() ==> wrap_width(logical, width) == width
            - 6 - logical.reserved(),
        logical.reserved() >= line_text(logical.prefixes).len(),
        logical.reserved() >= logical.wrap_prefix_width,
{
}

impl LayoutLine {
    /// A row shows its part of the line; a wrapped row has what stands in front of wrapped
    /// rows before it.
    pub proof fn law_rows_show_their_part(
        self,
        logical: LogicalView,
        line: LineView,
        ctx: RenderContext<'_>,
    )
        requires
            !logical.gutter(),
            !logical.unwrappable(),
        ensures
            self.wrap_idx == 0 ==> self.shown(logical, line, ctx).text() == text_between(
                line.text(),
                self.start as int,
                self.end as int,
            ),
            self.wrap_idx > 0 && logical.wrap_prefixes is None ==> self.shown(
                logical,
                line,
                ctx,
            ).text() == text_between(line.text(), 0, logical.wrap_prefix_width) + text_between(
                line.text(),
                self.start as int,
                self.end as int,
            ),
            self.wrap_idx > 0 && logical.wrap_prefixes is Some ==> self.shown(
                logical,
                line,
                ctx,
            ).text() == line_text(logical.wrap_prefixes->0) + text_between(
                line.text(),
                self.start as int,
                self.end as int,
            ),
    {
        law_slice_text(line.spans, self.start as int, self.end as int);
        law_slice_text(line.spans, 0, logical.wrap_prefix_width);
        let cut = self.cut(logical, line);
        let before = self.wrap_prefix(logical, line);
        crate::style::lemma_line_text_add(before, cut.spans);
        assert(self.gutter_row(logical, cut, ctx) == cut);
        if self.wrap_idx == 0 {
            assert(before + cut.spans =~= cut.spans);
        }
    }

    /// Only the first row of an image shows its text; the others are room for the picture.
    pub proof fn law_images_leave_room(
        self,
        logical: LogicalView,
        line: LineView,
        ctx: RenderContext<'_>,
    )
        requires
            logical.source is Image,
        ensures
            self.wrap_idx > 0 ==> self.shown(logical, line, ctx).text().len() == 0,
            self.wrap_idx == 0 ==> self.shown(logical, line, ctx).text() == line.text(),
    {
        let cut = self.cut(logical, line);
        if self.wrap_idx == 0 {
            assert(self.wrap_prefix(logical, line) + cut.spans =~= line.spans);
        }
    }
}

proof fn lemma_first_indices(n: nat, m: nat, keep: spec_fn(int) -> bool)
    requires
        n <= m <= usize::MAX,
    ensures
        indices_where(n, keep).len() <= indices_where(m, keep).len(),
        indices_where(m, keep).take(indices_where(n, keep).len() as int) == indices_where(n, keep),
        forall|k: int|
            indices_where(n, keep).len() <= k < indices_where(m, keep).len()
                ==> #[trigger] indices_where(m, keep)[k] >= n,
    decreases m,
{
    let small = indices_where(n, keep);
    let large = indices_where(m, keep);
    if n < m {
        lemma_first_indices(n, (m - 1) as nat, keep);
        let rest = indices_where((m - 1) as nat, keep);
        assert(large.take(small.len() as int) =~= rest.take(small.len() as int));
    } else {
        assert(large.take(small.len() as int) =~= small);
    }
}

impl Preview {
    /// The heading that a line is under is the last one at or above it.
    pub proof fn law_lines_are_under_the_last_heading(&self, line: int)
        requires
            0 <= line < self.logical_lines@.len(),
        ensures
            ({
                let found = headings(self.logical_lines@, self.logical_lines@.len());
                let k = self.headings_above(line);
                &&& forall|i: int|
                    0 <= i < found.len() && #[trigger] found[i] <= line ==> found[k] <= line
                        && found[i] <= found[k]
                &&& 0 <= k
                &&& k + 1 < found.len() && found[0] <= line ==> found[k + 1] > line
            }),
    {
        assert(self.logical_lines.len() == self.logical_lines@.len());
        let lines = self.logical_lines@;
        let keep = is_heading(lines);
        let n = (line + 1) as nat;
        let above = headings(lines, n);
        let found = headings(lines, lines.len());
        lemma_first_indices(n, lines.len(), keep);
        lemma_indices_where(n, keep);
        lemma_indices_where(lines.len(), keep);
        let k = self.headings_above(line);
        if above.len() > 0 {
            assert(found.take(above.len() as int)[k] == above[k]);
            assert(found[k] <= line);
        }
        assert forall|i: int| 0 <= i < found.len() && #[trigger] found[i] <= line implies found[k]
            <= line && found[i] <= found[k] by {
            assert(i < above.len());
            if i < k {
                assert(found[i] < found[k]);
            }
        }
    }
}

/// An image is placed once, where its first row is, counted from the top of what is seen.
pub proof fn law_images_are_placed_once(
    rows: Seq<LayoutLine>,
    lines: Seq<LogicalLine>,
    first: int,
    offset: int,
    n: nat,
)
    requires
        n <= rows.len(),
    ensures
        ({
            let places = image_places(rows, lines, first, offset, n);
            &&& places.len() <= n
            &&& forall|k: int|
                0 <= k < places.len() ==> lines[(#[trigger] places[k]).0 as int]@.source is Image
                    && Preview::in_rows(rows.take(n as int), places[k].0 as int)
            &&& forall|j: int, k: int|
                0 <= j < k < places.len() ==> (#[trigger] places[j]).0 != (#[trigger] places[k]).0
        }),
    decreases n,
{
    if n > 0 {
        law_images_are_placed_once(rows, lines, first, offset, (n - 1) as nat);
        let before = image_places(rows, lines, first, offset, (n - 1) as nat);
        let places = image_places(rows, lines, first, offset, n);
        let less = rows.take(n - 1);
        let more = rows.take(n as int);
        assert forall|k: int| 0 <= k < places.len() implies lines[(
        #[trigger] places[k]).0 as int]@.source is Image && Preview::in_rows(
            more,
            places[k].0 as int,
        ) by {
            if k < before.len() {
                assert(before[k] == places[k]);
                let j = choose|j: int|
                    0 <= j < less.len() && (#[trigger] less[j]).logical_idx == places[k].0 as int;
                assert(more[j] == less[j]);
            } else {
                assert(more[n - 1].logical_idx == places[k].0);
            }
        }
        assert forall|j: int, k: int| 0 <= j < k < places.len() implies (#[trigger] places[j]).0 != (
        #[trigger] places[k]).0 by {
            assert(before[j] == places[j]);
            if k < before.len() {
                assert(before[k] == places[k]);
            }
        }
    }
}

/// The first row of an image at a known row is placed as far below the top as that row is.
pub proof fn law_images_stand_at_their_row(
    rows: Seq<LayoutLine>,
    lines: Seq<LogicalLine>,
    first: int,
    offset: int,
    n: int,
)
    requires
        0 <= n < rows.len(),
        rows[n].wrap_idx == 0,
        lines[rows[n].logical_idx as int]@.source is Image,
        !Preview::in_rows(rows.take(n), rows[n].logical_idx as int),
        -0x8000 <= first + n - offset <= 0x7FFF,
    ensures
        ({
            let places = image_places(rows, lines, first, offset, (n + 1) as nat);
            &&& places.len() > 0
            &&& places.last().0 == rows[n].logical_idx
            &&& places.last().1 == first + n - offset
        }),
{
}

/// Every image among some rows is known or asked for, once; what was asked for before
/// stays so, and nothing but images of these rows is added.
pub proof fn law_images_among_the_rows_are_asked_for(
    requests: Requests,
    entries: Seq<ImageEntry>,
    base: Seq<char>,
    lines: Seq<LogicalLine>,
    rows: Seq<LayoutLine>,
    i: int,
)
    ensures
        ({
            let after = asked_for_rows(requests, entries, base, lines, rows);
            let line = lines[rows[i].logical_idx as int]@;
            &&& after.pending.len() - requests.pending.len() == after.loading.len()
                - requests.loading.len()
            &&& after.loading.len() >= requests.loading.len()
            &&& forall|path: Seq<char>| #[trigger]
                requests.loading.contains(path) ==> after.loading.contains(path)
            &&& 0 <= i < rows.len() && rows[i].wrap_idx == 0 && line.source is Image
                && !has_scheme(line.source->src) ==> state_of(
                entries,
                joined_path(base, line.source->src),
            ) is Some || after.loading.contains(joined_path(base, line.source->src))
        }),
    decreases rows.len(),
{
    if rows.len() > 0 {
        let less = rows.drop_last();
        law_images_among_the_rows_are_asked_for(requests, entries, base, lines, less, i);
        let before = asked_for_rows(requests, entries, base, lines, less);
        let after = asked_for_rows(requests, entries, base, lines, rows);
        let last = lines[rows.last().logical_idx as int]@;
        let path = joined_path(base, last.source->src);
        crate::seqs::lemma_push_contains(before.loading, path);
        if 0 <= i < less.len() {
            assert(less[i] == rows[i]);
        }
    }
}

impl Preview {
    /// What is prepared reaches half a viewport beyond what is seen, on either side, as far
    /// as there are rows.
    pub proof fn law_half_a_viewport_is_prepared(&self)
        ensures
            ({
                let height = self.layout_lines.last_height as int;
                let (start, end) = self.nearby();
                &&& start <= self.state.offset
                &&& self.state.offset >= height / 2 ==> self.state.offset - start == height / 2
                &&& self.state.offset < height / 2 ==> start == 0
                &&& end <= self.rows().len()
                &&& self.state.offset + height + height / 2 <= self.rows().len() ==> end
                    == self.state.offset + height + height / 2
                &&& self.state.offset + height + height / 2 > self.rows().len() ==> end
                    == self.rows().len()
            }),
    {
    }
}

impl Preview {
    /// The rows that are seen fill the area between its borders.
    pub proof fn law_rows_fill_the_area(before: Preview, after: Preview, area: Rect)
        requires
            after.placed(&before, area),
            area.height >= 2,
        ensures
            after.layout_lines.last_height + 2 == area.height,
            after.last_area == area,
            after.rows() == before.rows(),
            after.state == before.state,
    {
    }
}

/// Some lines are those of a rendering, whatever was kept of earlier ones.
pub open spec fn shows_rendering(lines: Seq<LogicalLine>, given: Seq<LogicalView>) -> bool {
    &&& lines.len() == given.len()
    &&& forall|i: int|
        0 <= i < lines.len() ==> (#[trigger] lines[i])@.uncached() == given[i].uncached()
}

proof fn lemma_shows_rendering(
    lines: Seq<LogicalLine>,
    given: Seq<LogicalView>,
    before: Seq<LogicalView>,
)
    requires
        all_kept(logical_views(lines), given, before),
    ensures
        shows_rendering(lines, given),
{
    let views = logical_views(lines);
    assert forall|i: int| 0 <= i < lines.len() implies (#[trigger] lines[i])@.uncached()
        == given[i].uncached() by {
        assert(kept_from(views[i], given[i], before));
    }
}

impl Preview {
    /// A document that is rendered anew has the lines that its renderer gives, whatever was
    /// kept of earlier renderings.
    #[verifier::rlimit(40)]
    pub proof fn law_kept_renderings_change_nothing<W: Fn(&str, usize) -> Vec<(usize, usize)>>(
        before: Preview,
        after: Preview,
        outputs: HashMap<CodeId, TaskOutput>,
        width: usize,
        wrap: W,
    )
        requires
            after.rebuilt(&before, outputs, width, wrap),
        ensures
            exists|renderer: MarkdownRenderer<'_>|
                {
                    &&& #[trigger] before.is_renderer(renderer, outputs, width)
                    &&& renderer.source@ == before.source@
                    &&& renderer.codes@ == before.codes@
                    &&& *renderer.outputs == outputs
                    &&& renderer.mode == before.mode
                    &&& renderer.viewport_width == width
                    &&& shows_rendering(
                        after.logical_lines@,
                        renderer.rendered(before.nodes).lines,
                    )
                    &&& after.code_prefix_overhead@ == renderer.rendered(before.nodes).overhead
                },
            after.search.term == before.search.term,
            after.mode == before.mode,
    {
        let renderer = choose|renderer: MarkdownRenderer<'_>| #[trigger]
            before.is_renderer(renderer, outputs, width) && all_kept(
                logical_views(after.logical_lines@),
                renderer.rendered(before.nodes).lines,
                logical_views(before.logical_lines@),
            ) && after.code_prefix_overhead@ == renderer.rendered(before.nodes).overhead;
        lemma_shows_rendering(
            after.logical_lines@,
            renderer.rendered(before.nodes).lines,
            logical_views(before.logical_lines@),
        );
    }
}

} // verus!
