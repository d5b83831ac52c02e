//! Tables with box-drawing borders.

use vstd::prelude::*;

use crate::num::{larger, less_by, smaller};
use crate::style::{line_view, line_views, move_spans, plain, Line, LineView, Span, Style};
use crate::text::{repeat_char, repeated};
use crate::theme::Theme;
use crate::theme_library::Painter;
use crate::tui::markdown::inline::{
    copy_inline, inline_chars, inline_line, inline_text, inline_view, render_inline_spans,
    InlineSpan, InlineView,
};
use crate::tui::markdown::slice::{slice_line, sliced_runs};

verus! {

/// The least width of a column that had to be narrowed.
pub const MIN_COLUMN_WIDTH: usize = 3;

/// How the text of a column is aligned.
#[derive(Clone, Copy, Debug, PartialEq, Eq, Structural)]
pub enum Alignment {
    Default,
    Left,
    Center,
    Right,
}

/// A table cell.
pub struct TableCell {
    pub spans: Vec<InlineSpan>,
}

/// A table.
pub struct Table {
    pub headers: Vec<TableCell>,
    pub rows: Vec<Vec<TableCell>>,
    pub alignments: Vec<Alignment>,
}

/// Contents of some cells.
pub open spec fn cells_view(cells: Seq<TableCell>) -> Seq<Seq<InlineView>> {
    cells.map_values(|cell: TableCell| inline_view(cell.spans@))
}

/// Contents of some rows.
pub open spec fn rows_view(rows: Seq<Vec<TableCell>>) -> Seq<Seq<Seq<InlineView>>> {
    rows.map_values(|row: Vec<TableCell>| cells_view(row@))
}

/// Contents of a table.
pub struct TableView {
    pub headers: Seq<Seq<InlineView>>,
    pub rows: Seq<Seq<Seq<InlineView>>>,
    pub alignments: Seq<Alignment>,
}

impl View for Table {
    type V = TableView;

    open spec fn view(&self) -> TableView {
        TableView {
            headers: cells_view(self.headers@),
            rows: rows_view(self.rows@),
            alignments: self.alignments@,
        }
    }
}

/// The characters of a cell.
pub open spec fn cell_len(cell: Seq<InlineView>) -> int {
    inline_chars(cell).len() as int
}

/// The longest cell of a column among the first `n` rows.
pub open spec fn longest(rows: Seq<Seq<Seq<InlineView>>>, column: int, n: nat) -> int
    decreases n,
{
    if n == 0 {
        0
    } else {
        let before = longest(rows, column, (n - 1) as nat);
        let row = rows[n - 1];
        if column < row.len() {
            larger(before, cell_len(row[column]))
        } else {
            before
        }
    }
}

/// The sum of the first `n` widths.
pub open spec fn total(widths: Seq<int>, n: nat) -> int
    decreases n,
{
    if n == 0 {
        0
    } else {
        total(widths, (n - 1) as nat) + widths[n - 1]
    }
}

/// By how much columns can be narrowed.
pub open spec fn spare(widths: Seq<int>) -> Seq<int> {
    widths.map_values(|w: int| less_by(w, MIN_COLUMN_WIDTH as int))
}

impl TableView {
    /// What the borders and the blanks beside them take.
    pub open spec fn frame(self) -> int {
        3 * self.headers.len() as int + 1
    }

    /// The width that a column needs.
    pub open spec fn natural(self, column: int) -> int {
        larger(cell_len(self.headers[column]), longest(self.rows, column, self.rows.len()))
    }

    /// The widths that the columns need.
    pub open spec fn naturals(self) -> Seq<int> {
        Seq::new(self.headers.len(), |i: int| self.natural(i))
    }

    /// The width that all columns need.
    pub open spec fn needed(self) -> int {
        total(self.naturals(), self.headers.len())
    }

    /// No row is longer than the header, and the table's width can be counted.
    pub open spec fn fits(self) -> bool {
        &&& self.needed() + self.frame() <= usize::MAX
        &&& forall|i: int|
            0 <= i < self.rows.len() ==> (#[trigger] self.rows[i]).len() <= self.headers.len()
    }

    /// The width of a column where the table has to be narrowed by `excess`: wide
    /// columns give more, none gets narrower than the least width.
    pub open spec fn narrowed(self, column: int, excess: int) -> int {
        let w = self.natural(column);
        let reducible = total(spare(self.naturals()), self.headers.len());
        if reducible == 0 {
            MIN_COLUMN_WIDTH as int
        } else {
            larger(
                less_by(
                    w,
                    (less_by(w, MIN_COLUMN_WIDTH as int) * excess + reducible / 2) / reducible,
                ),
                MIN_COLUMN_WIDTH as int,
            )
        }
    }

    /// The widths of the columns where the table has to be narrowed by `excess`.
    pub open spec fn all_narrowed(self, excess: int) -> Seq<int> {
        Seq::new(self.headers.len(), |i: int| self.narrowed(i, excess))
    }

    /// What the first `n` columns get of `room` that is left besides the least widths:
    /// as much of it as they have of all that columns can be narrowed by.
    pub open spec fn share_of(self, n: nat, room: int) -> int {
        let spares = spare(self.naturals());
        (total(spares, n) * room) / total(spares, self.headers.len())
    }

    /// The width of a column where `room` is left besides the least widths: wide
    /// columns get more of it, and together they get all.
    pub open spec fn shared(self, column: int, room: int) -> int {
        MIN_COLUMN_WIDTH + self.share_of((column + 1) as nat, room) - self.share_of(
            column as nat,
            room,
        )
    }

    /// The widths of the columns in a viewport: those that they need where these fit,
    /// else narrowed ones, by whole cells of the room that there is where the nearest
    /// widths would not fit. None gets less than the least width.
    pub open spec fn widths(self, viewport: int) -> Seq<int> {
        let n = self.headers.len();
        let available = less_by(viewport, self.frame());
        if self.needed() + self.frame() <= viewport {
            self.naturals()
        } else if available <= MIN_COLUMN_WIDTH * n as int {
            Seq::new(n, |i: int| MIN_COLUMN_WIDTH as int)
        } else if total(self.all_narrowed(self.needed() - available), n) <= available {
            self.all_narrowed(self.needed() - available)
        } else {
            Seq::new(n, |i: int| self.shared(i, available - MIN_COLUMN_WIDTH * n))
        }
    }
}

/// The widths as numbers of the program.
pub open spec fn widths_view(widths: Seq<usize>) -> Seq<int> {
    widths.map_values(|w: usize| w as int)
}

/// A part of a sum is not more than the sum.
proof fn lemma_total_part(widths: Seq<int>, n: nat, i: int)
    requires
        0 <= i < n <= widths.len(),
        forall|k: int| 0 <= k < widths.len() ==> widths[k] >= 0,
    ensures
        widths[i] <= total(widths, n),
        0 <= total(widths, i as nat),
        total(widths, i as nat) + widths[i] <= total(widths, n),
    decreases n,
{
    if i + 1 < n {
        lemma_total_part(widths, (n - 1) as nat, i);
    } else {
        lemma_total_least(widths, i as nat);
    }
}

proof fn lemma_total_least(widths: Seq<int>, n: nat)
    requires
        n <= widths.len(),
        forall|k: int| 0 <= k < widths.len() ==> widths[k] >= 0,
    ensures
        total(widths, n) >= 0,
    decreases n,
{
    if n > 0 {
        lemma_total_least(widths, (n - 1) as nat);
    }
}

/// Sums compare as their parts do.
proof fn lemma_total_order(a: Seq<int>, b: Seq<int>, n: nat)
    requires
        n <= a.len(),
        n <= b.len(),
        forall|k: int| 0 <= k < n ==> a[k] <= b[k],
    ensures
        total(a, n) <= total(b, n),
    decreases n,
{
    if n > 0 {
        lemma_total_order(a, b, (n - 1) as nat);
    }
}

impl TableCell {
    /// The characters of the cell.
    pub fn char_len(&self) -> (len: usize)
        ensures
            len == cell_len(inline_view(self.spans@)),
    {
        inline_text(&self.spans).as_str().unicode_len()
    }
}

fn copy_cells(cells: &Vec<TableCell>) -> (copy: Vec<TableCell>)
    ensures
        cells_view(copy@) == cells_view(cells@),
{
    let mut copy: Vec<TableCell> = Vec::new();
    let ghost whole = cells_view(cells@);
    let mut i: usize = 0;
    assert(cells_view(copy@) =~= whole.take(0));
    while i < cells.len()
        invariant
            i <= cells@.len(),
            whole == cells_view(cells@),
            cells_view(copy@) == whole.take(i as int),
        decreases cells@.len() - i,
    {
        let ghost before = cells_view(copy@);
        let spans = copy_inline(&cells[i].spans);
        let ghost shown = inline_view(spans@);
        copy.push(TableCell { spans });
        assert(cells_view(copy@) =~= before.push(shown));
        assert(whole.take(i + 1) =~= whole.take(i as int).push(shown));
        i += 1;
    }
    assert(whole.take(i as int) =~= whole);
    copy
}

impl Table {
    /// A copy of the table.
    pub fn copy(&self) -> (table: Table)
        ensures
            table@ == self@,
    {
        let mut rows: Vec<Vec<TableCell>> = Vec::new();
        let ghost whole = rows_view(self.rows@);
        let mut i: usize = 0;
        assert(rows_view(rows@) =~= whole.take(0));
        while i < self.rows.len()
            invariant
                i <= self.rows@.len(),
                whole == rows_view(self.rows@),
                rows_view(rows@) == whole.take(i as int),
            decreases self.rows@.len() - i,
        {
            let ghost before = rows_view(rows@);
            let row = copy_cells(&self.rows[i]);
            let ghost shown = cells_view(row@);
            rows.push(row);
            assert(rows_view(rows@) =~= before.push(shown));
            assert(whole.take(i + 1) =~= whole.take(i as int).push(shown));
            i += 1;
        }
        assert(whole.take(i as int) =~= whole);
        let mut alignments: Vec<Alignment> = Vec::new();
        alignments.extend_from_slice(self.alignments.as_slice());
        assert(alignments@ =~= self.alignments@);
        Table { headers: copy_cells(&self.headers), rows, alignments }
    }

    fn natural_width(&self, column: usize) -> (width: usize)
        requires
            column < self.headers@.len(),
        ensures
            width == self@.natural(column as int),
    {
        let mut width: usize = 0;
        let mut i: usize = 0;
        while i < self.rows.len()
            invariant
                i <= self.rows@.len(),
                width == longest(self@.rows, column as int, i as nat),
            decreases self.rows@.len() - i,
        {
            assert(self@.rows[i as int] == cells_view(self.rows@[i as int]@));
            if column < self.rows[i].len() {
                width = width.max(self.rows[i][column].char_len());
            }
            i += 1;
        }
        self.headers[column].char_len().max(width)
    }

    fn natural_widths(&self) -> (widths: Vec<usize>)
        ensures
            widths_view(widths@) == self@.naturals(),
    {
        let mut widths: Vec<usize> = Vec::new();
        let mut i: usize = 0;
        while i < self.headers.len()
            invariant
                i <= self.headers@.len(),
                widths@.len() == i,
                forall|k: int| 0 <= k < i ==> widths@[k] == #[trigger] self@.natural(k),
            decreases self.headers@.len() - i,
        {
            widths.push(self.natural_width(i));
            i += 1;
        }
        assert(widths_view(widths@) =~= self@.naturals());
        widths
    }
}

fn sum_of(widths: &Vec<usize>) -> (sum: usize)
    requires
        total(widths_view(widths@), widths@.len()) <= usize::MAX,
    ensures
        sum == total(widths_view(widths@), widths@.len()),
{
    let mut sum: usize = 0;
    let mut i: usize = 0;
    while i < widths.len()
        invariant
            i <= widths@.len(),
            sum == total(widths_view(widths@), i as nat),
            total(widths_view(widths@), widths@.len()) <= usize::MAX,
        decreases widths@.len() - i,
    {
        proof {
            lemma_total_part(widths_view(widths@), widths@.len(), i as int);
        }
        sum += widths[i];
        i += 1;
    }
    sum
}

/// The width of one column of a narrowed table.
fn narrowed_width(w: usize, excess: usize, reducible: usize) -> (out: usize)
    ensures
        out == (if reducible == 0 {
            MIN_COLUMN_WIDTH as int
        } else {
            larger(
                less_by(
                    w as int,
                    (less_by(w as int, MIN_COLUMN_WIDTH as int) * excess + reducible as int / 2)
                        / reducible as int,
                ),
                MIN_COLUMN_WIDTH as int,
            )
        }),
{
    if reducible == 0 {
        return MIN_COLUMN_WIDTH;
    }
    let here: usize = w.saturating_sub(MIN_COLUMN_WIDTH);
    assert(here as int * excess as int <= usize::MAX as int * usize::MAX as int) by (nonlinear_arith)
        requires
            0 <= here <= usize::MAX,
            0 <= excess <= usize::MAX,
    ;
    assert(0 <= here as int * excess as int) by (nonlinear_arith)
        requires
            0 <= here,
            0 <= excess,
    ;
    assert(usize::MAX as int * usize::MAX as int + usize::MAX as int <= u128::MAX as int)
        by (nonlinear_arith)
        requires
            0 <= usize::MAX as int <= 0xFFFF_FFFF_FFFF_FFFF,
    ;
    let reduction: u128 = (here as u128 * excess as u128 + (reducible / 2) as u128)
        / reducible as u128;
    let left: usize = if reduction >= w as u128 {
        0
    } else {
        w - reduction as usize
    };
    left.max(MIN_COLUMN_WIDTH)
}

/// The share of a room that a part of a whole gets.
fn share_of_room(part: usize, room: usize, whole: usize) -> (share: usize)
    requires
        0 < whole,
        part <= whole,
    ensures
        share == (part * room) / whole as int,
{
    assert(0 <= part as int * room as int <= whole as int * room as int) by (nonlinear_arith)
        requires
            0 <= part <= whole,
            0 <= room,
    ;
    assert(whole as int * room as int <= usize::MAX as int * usize::MAX as int) by (nonlinear_arith)
        requires
            0 <= whole <= usize::MAX,
            0 <= room <= usize::MAX,
    ;
    assert(usize::MAX as int * usize::MAX as int <= u128::MAX as int) by (nonlinear_arith)
        requires
            0 <= usize::MAX as int <= 0xFFFF_FFFF_FFFF_FFFF,
    ;
    let share: u128 = part as u128 * room as u128 / whole as u128;
    assert((part as int * room as int) / whole as int <= room) by (nonlinear_arith)
        requires
            part as int * room as int <= whole as int * room as int,
            whole > 0,
    ;
    share as usize
}

/// One more part of a whole gets no more of a smaller room than it has of the whole.
proof fn lemma_next_share(before: int, part: int, room: int, whole: int)
    requires
        0 <= before,
        0 <= part,
        0 <= room <= whole,
        0 < whole,
    ensures
        0 <= ((before + part) * room) / whole - (before * room) / whole <= part,
{
    let a = before * room;
    let b = (before + part) * room;
    assert(a <= b <= a + part * whole) by (nonlinear_arith)
        requires
            a == before * room,
            b == (before + part) * room,
            0 <= part,
            0 <= room <= whole,
    ;
    assert(a / whole <= b / whole <= a / whole + part) by (nonlinear_arith)
        requires
            a <= b <= a + part * whole,
            0 < whole,
    ;
}

/// Spares and least widths are what the columns need, or more.
proof fn lemma_spares(widths: Seq<int>, n: nat)
    requires
        n <= widths.len(),
    ensures
        total(spare(widths), n) >= 0,
        total(widths, n) <= total(spare(widths), n) + MIN_COLUMN_WIDTH * n,
    decreases n,
{
    if n > 0 {
        lemma_spares(widths, (n - 1) as nat);
        assert(MIN_COLUMN_WIDTH * n == MIN_COLUMN_WIDTH * (n - 1) + MIN_COLUMN_WIDTH);
    }
}

/// The first columns get their least widths and their share.
proof fn lemma_shares(table: TableView, room: int, n: nat)
    requires
        n <= table.headers.len(),
    ensures
        total(Seq::new(table.headers.len(), |i: int| table.shared(i, room)), n)
            == MIN_COLUMN_WIDTH * n + table.share_of(n, room) - table.share_of(0, room),
    decreases n,
{
    if n > 0 {
        lemma_shares(table, room, (n - 1) as nat);
        assert(MIN_COLUMN_WIDTH * n == MIN_COLUMN_WIDTH * (n - 1) + MIN_COLUMN_WIDTH);
    }
}

/// Nothing of the room goes to no column, and all of it to all columns.
proof fn lemma_whole_share(table: TableView, room: int)
    requires
        0 < total(spare(table.naturals()), table.headers.len()),
    ensures
        table.share_of(0, room) == 0,
        table.share_of(table.headers.len(), room) == room,
{
    let whole = total(spare(table.naturals()), table.headers.len());
    assert((0 * room) / whole == 0) by (nonlinear_arith)
        requires
            whole > 0,
    ;
    assert((whole * room) / whole == room) by (nonlinear_arith)
        requires
            whole > 0,
    ;
}

/// A narrowed table is not wider than the viewport, wherever the least widths leave
/// room for it.
pub proof fn law_table_fits_the_viewport(table: TableView, viewport: int)
    requires
        viewport >= table.frame() + MIN_COLUMN_WIDTH * table.headers.len(),
    ensures
        total(table.widths(viewport), table.headers.len()) + table.frame() <= viewport,
{
    let n = table.headers.len();
    let available = less_by(viewport, table.frame());
    if table.needed() + table.frame() > viewport {
        if available <= MIN_COLUMN_WIDTH * n {
            lemma_total_equal(table.widths(viewport), n, MIN_COLUMN_WIDTH as int);
        } else if total(table.all_narrowed(table.needed() - available), n) > available {
            let room = available - MIN_COLUMN_WIDTH * n;
            lemma_spares(table.naturals(), n);
            lemma_shares(table, room, n);
            lemma_whole_share(table, room);
        }
    }
}

/// The sum of equal widths.
proof fn lemma_total_equal(widths: Seq<int>, n: nat, w: int)
    requires
        n <= widths.len(),
        forall|i: int| 0 <= i < n ==> widths[i] == w,
    ensures
        total(widths, n) == w * n,
    decreases n,
{
    if n > 0 {
        lemma_total_equal(widths, (n - 1) as nat, w);
        assert(w * n == w * (n - 1) + w) by (nonlinear_arith);
    } else {
        assert(w * n == 0) by (nonlinear_arith)
            requires
                n == 0,
        ;
    }
}

/// Narrowed columns take no more than the columns need and the least widths together.
proof fn lemma_narrowed_sum(table: TableView, excess: int, n: nat)
    requires
        n <= table.headers.len(),
        excess >= 0,
    ensures
        0 <= total(table.all_narrowed(excess), n) <= total(table.naturals(), n) + MIN_COLUMN_WIDTH
            * n,
    decreases n,
{
    if n > 0 {
        lemma_narrowed_sum(table, excess, (n - 1) as nat);
        lemma_narrowed(table, excess, n - 1);
        assert(table.all_narrowed(excess)[n - 1] == table.narrowed(n - 1, excess));
        assert(table.naturals()[n - 1] == table.natural(n - 1));
        assert(MIN_COLUMN_WIDTH * n == MIN_COLUMN_WIDTH * (n - 1) + MIN_COLUMN_WIDTH);
    }
}

/// A narrowed column is not wider than it was, unless it was less than the least width.
proof fn lemma_narrowed(table: TableView, excess: int, column: int)
    requires
        0 <= column < table.headers.len(),
        excess >= 0,
    ensures
        MIN_COLUMN_WIDTH <= table.narrowed(column, excess) <= larger(
            table.natural(column),
            MIN_COLUMN_WIDTH as int,
        ),
{
    let reducible = total(spare(table.naturals()), table.headers.len());
    lemma_total_least(spare(table.naturals()), table.headers.len());
    if reducible > 0 {
        let here = less_by(table.natural(column), MIN_COLUMN_WIDTH as int);
        assert(here * excess >= 0) by (nonlinear_arith)
            requires
                here >= 0,
                excess >= 0,
        ;
        assert((here * excess + reducible / 2) / reducible >= 0) by (nonlinear_arith)
            requires
                here * excess >= 0,
                reducible > 0,
        ;
    }
}

impl Table {
    /// The widths of the columns in a viewport.
    pub fn column_widths(&self, viewport: usize) -> (widths: Vec<usize>)
        requires
            self@.fits(),
        ensures
            widths_view(widths@) == self@.widths(viewport as int),
    {
        let n: usize = self.headers.len();
        let natural = self.natural_widths();
        let ghost naturals = self@.naturals();
        proof {
            assert(widths_view(natural@).len() == natural@.len());
            lemma_total_least(naturals, n as nat);
        }
        let needed: usize = sum_of(&natural);
        let frame: usize = 3 * n + 1;
        if needed + frame <= viewport {
            return natural;
        }
        let available: usize = viewport.saturating_sub(frame);
        let mut widths: Vec<usize> = Vec::new();
        let mut i: usize = 0;
        if available <= MIN_COLUMN_WIDTH * n {
            while i < n
                invariant
                    i <= n,
                    widths@.len() == i,
                    forall|k: int| 0 <= k < i ==> widths@[k] == MIN_COLUMN_WIDTH,
                decreases n - i,
            {
                widths.push(MIN_COLUMN_WIDTH);
                i += 1;
            }
            assert(widths_view(widths@) =~= self@.widths(viewport as int));
            return widths;
        }
        let excess: usize = needed - available;
        let mut spares: Vec<usize> = Vec::new();
        while i < n
            invariant
                i <= n,
                n == natural@.len(),
                spares@.len() == i,
                naturals == widths_view(natural@),
                forall|k: int| 0 <= k < i ==> spares@[k] == #[trigger] spare(naturals)[k],
            decreases n - i,
        {
            spares.push(natural[i].saturating_sub(MIN_COLUMN_WIDTH));
            assert(spare(naturals)[i as int] == less_by(naturals[i as int], 3));
            i += 1;
        }
        proof {
            assert(widths_view(spares@) =~= spare(naturals));
            lemma_total_order(spare(naturals), naturals, n as nat);
        }
        let reducible: usize = sum_of(&spares);
        i = 0;
        while i < n
            invariant
                i <= n,
                n == natural@.len(),
                n == self@.headers.len(),
                widths@.len() == i,
                naturals == widths_view(natural@),
                naturals == self@.naturals(),
                reducible == total(spare(naturals), n as nat),
                forall|k: int|
                    0 <= k < i ==> widths@[k] == #[trigger] self@.narrowed(k, excess as int),
            decreases n - i,
        {
            assert(naturals[i as int] == natural@[i as int]);
            widths.push(narrowed_width(natural[i], excess, reducible));
            i += 1;
        }
        let ghost narrowed = self@.all_narrowed(excess as int);
        proof {
            assert(widths_view(widths@) =~= narrowed);
            lemma_narrowed_sum(self@, excess as int, n as nat);
        }
        if sum_of(&widths) <= available {
            return widths;
        }
        proof {
            lemma_spares(naturals, n as nat);
        }
        let room: usize = available - MIN_COLUMN_WIDTH * n;
        let mut shared: Vec<usize> = Vec::new();
        let mut spared: usize = 0;
        let mut given: usize = 0;
        i = 0;
        proof {
            lemma_whole_share(self@, room as int);
        }
        while i < n
            invariant
                i <= n,
                n == spares@.len(),
                n == self@.headers.len(),
                n == naturals.len(),
                shared@.len() == i,
                widths_view(spares@) == spare(naturals),
                naturals == self@.naturals(),
                naturals == widths_view(natural@),
                spared == total(spare(naturals), i as nat),
                given == self@.share_of(i as nat, room as int),
                reducible == total(spare(naturals), n as nat),
                0 < reducible,
                room <= reducible,
                reducible + MIN_COLUMN_WIDTH <= usize::MAX,
                forall|k: int|
                    0 <= k < i ==> shared@[k] == #[trigger] self@.shared(k, room as int),
            decreases n - i,
        {
            proof {
                assert(widths_view(spares@)[i as int] == spares@[i as int]);
                lemma_total_part(spare(naturals), n as nat, i as int);
                lemma_next_share(
                    spared as int,
                    spares@[i as int] as int,
                    room as int,
                    reducible as int,
                );
            }
            spared += spares[i];
            let share: usize = share_of_room(spared, room, reducible);
            shared.push(MIN_COLUMN_WIDTH + (share - given));
            given = share;
            i += 1;
        }
        assert(widths_view(shared@) =~= self@.widths(viewport as int));
        shared
    }
}

/// A column as wide as its content where the table fits: no wider than the
/// viewport in all.
pub proof fn law_fitting_table_stays(table: TableView, viewport: int)
    requires
        table.needed() + table.frame() <= viewport,
    ensures
        table.widths(viewport) == table.naturals(),
        total(table.widths(viewport), table.headers.len()) + table.frame() <= viewport,
{
}

/// No column of a narrowed table is wider than its content needs or than the
/// least width, whichever is more, nor narrower than the least width.
pub proof fn law_narrowing_has_a_limit(table: TableView, viewport: int, column: int)
    requires
        table.needed() + table.frame() > viewport,
        0 <= column < table.headers.len(),
    ensures
        MIN_COLUMN_WIDTH <= table.widths(viewport)[column] <= larger(
            table.natural(column),
            MIN_COLUMN_WIDTH as int,
        ),
{
    let naturals = table.naturals();
    let n = table.headers.len();
    let available = less_by(viewport, table.frame());
    let excess = table.needed() - available;
    lemma_total_least(naturals, n);
    if available > MIN_COLUMN_WIDTH * n {
        if total(table.all_narrowed(excess), n) <= available {
            lemma_narrowed(table, excess, column);
        } else {
            lemma_spares(naturals, n);
            let spares = spare(naturals);
            lemma_total_part(spares, n, column);
            lemma_next_share(
                total(spares, column as nat),
                spares[column],
                available - MIN_COLUMN_WIDTH * n,
                total(spares, n),
            );
        }
    }
}

/// The text of the first `n` columns of a border.
pub open spec fn border_text(widths: Seq<int>, left: char, mid: char, n: nat) -> Seq<char>
    decreases n,
{
    if n == 0 {
        seq![left]
    } else {
        let before = border_text(widths, left, mid, (n - 1) as nat);
        (if n > 1 {
            before.push(mid)
        } else {
            before
        }) + repeated('─', (widths[n - 1] + 2) as nat)
    }
}

/// A border of a table.
pub open spec fn border_line(widths: Seq<int>, left: char, mid: char, right: char, style: Style) -> LineView {
    LineView {
        spans: seq![(border_text(widths, left, mid, widths.len()).push(right), plain())],
        style,
    }
}

fn border(widths: &Vec<usize>, left: char, mid: char, right: char, style: Style) -> (line: Line)
    requires
        forall|i: int| 0 <= i < widths@.len() ==> widths@[i] + 2 <= usize::MAX,
    ensures
        line@ == border_line(widths_view(widths@), left, mid, right, style),
{
    let mut text = String::new();
    text.push(left);
    let mut i: usize = 0;
    assert(text@ =~= seq![left]);
    while i < widths.len()
        invariant
            i <= widths@.len(),
            text@ == border_text(widths_view(widths@), left, mid, i as nat),
            forall|i: int| 0 <= i < widths@.len() ==> widths@[i] + 2 <= usize::MAX,
        decreases widths@.len() - i,
    {
        if i > 0 {
            text.push(mid);
        }
        text.append(repeat_char('─', widths[i] + 2).as_str());
        i += 1;
    }
    text.push(right);
    let ghost shown = text@;
    let mut spans: Vec<Span> = Vec::new();
    spans.push(Span::styled(text, Style::default()));
    assert(line_view(spans@) =~= seq![(shown, plain())]);
    Line { spans, style }
}

/// Some blanks, where there are any.
pub open spec fn blanks(n: int, style: Style) -> Seq<(Seq<char>, Style)> {
    if n > 0 {
        seq![(repeated(' ', n as nat), style)]
    } else {
        Seq::empty()
    }
}

/// How many blanks stand in front of a cell's text.
pub open spec fn blanks_before(padding: int, alignment: Alignment) -> int {
    match alignment {
        Alignment::Right => padding,
        Alignment::Center => padding / 2,
        _ => 0,
    }
}

/// The text of a cell, cut to a width.
pub open spec fn cut_runs(painter: Painter, theme: Theme, cell: Seq<InlineView>, width: int, base: Style) -> Seq<
    (Seq<char>, Style),
> {
    let runs = inline_line(painter, theme, cell, Some(base)).spans;
    if cell_len(cell) <= width {
        runs
    } else if width == 1 {
        seq![("…"@, base)]
    } else {
        sliced_runs(runs, 0, width - 1).push(("…"@, base))
    }
}

/// The runs of a cell, as wide as its column.
pub open spec fn cell_runs(
    painter: Painter,
    theme: Theme,
    cell: Seq<InlineView>,
    width: int,
    alignment: Alignment,
    base: Style,
) -> Seq<(Seq<char>, Style)> {
    if width == 0 {
        Seq::empty()
    } else {
        let padding = width - smaller(cell_len(cell), width);
        let left = blanks_before(padding, alignment);
        blanks(left, base) + cut_runs(painter, theme, cell, width, base) + blanks(
            padding - left,
            base,
        )
    }
}

fn push_blanks(spans: &mut Vec<Span>, n: usize, style: Style)
    ensures
        line_view(final(spans)@) == line_view(old(spans)@) + blanks(n as int, style),
{
    if n > 0 {
        let ghost before = line_view(spans@);
        spans.push(Span::styled(repeat_char(' ', n), style));
        assert(line_view(spans@) =~= before + blanks(n as int, style));
    } else {
        assert(line_view(spans@) =~= line_view(old(spans)@) + blanks(n as int, style));
    }
}

/// Shows a cell in a column.
pub fn render_table_cell(
    cell: &TableCell,
    width: usize,
    alignment: Alignment,
    base: Style,
    theme: &Theme,
    painter: &Painter,
) -> (spans: Vec<Span>)
    ensures
        line_view(spans@) == cell_runs(
            *painter,
            *theme,
            inline_view(cell.spans@),
            width as int,
            alignment,
            base,
        ),
{
    let mut spans: Vec<Span> = Vec::new();
    assert(line_view(spans@) =~= Seq::empty());
    if width == 0 {
        return spans;
    }
    let visible = cell.char_len();
    let mut line = render_inline_spans(&cell.spans, base, theme, painter);
    if visible > width {
        if width == 1 {
            line = Line::styled("…".to_owned(), base);
        } else {
            line = slice_line(&line, 0, width - 1);
            let ghost before = line_view(line.spans@);
            line.spans.push(Span::styled("…".to_owned(), base));
            assert(line_view(line.spans@) =~= before.push(("…"@, base)));
        }
    }
    let padding: usize = width - visible.min(width);
    let left: usize = match alignment {
        Alignment::Right => padding,
        Alignment::Center => padding / 2,
        _ => 0,
    };
    push_blanks(&mut spans, left, base);
    assert(line_view(spans@) =~= blanks(left as int, base));
    move_spans(&mut spans, line.spans);
    push_blanks(&mut spans, padding - left, base);
    spans
}

/// The alignment of a column.
pub open spec fn alignment_of(alignments: Seq<Alignment>, column: int) -> Alignment {
    if column < alignments.len() {
        alignments[column]
    } else {
        Alignment::Left
    }
}

/// The runs of the first `n` cells of a row.
pub open spec fn row_runs(
    painter: Painter,
    theme: Theme,
    cells: Seq<Seq<InlineView>>,
    widths: Seq<int>,
    alignments: Seq<Alignment>,
    base: Style,
    n: nat,
) -> Seq<(Seq<char>, Style)>
    decreases n,
{
    let bar = ("│"@, plain().fg_spec(theme.info_background));
    if n == 0 {
        seq![bar]
    } else {
        row_runs(painter, theme, cells, widths, alignments, base, (n - 1) as nat).push((" "@, base))
            + cell_runs(
            painter,
            theme,
            cells[n - 1],
            widths[n - 1],
            alignment_of(alignments, n - 1),
            base,
        ) + seq![(" "@, base), bar]
    }
}

fn render_row(
    cells: &Vec<TableCell>,
    widths: &Vec<usize>,
    alignments: &Vec<Alignment>,
    base: Style,
    theme: &Theme,
    painter: &Painter,
) -> (line: Line)
    requires
        cells@.len() <= widths@.len(),
    ensures
        line@ == (LineView {
            spans: row_runs(
                *painter,
                *theme,
                cells_view(cells@),
                widths_view(widths@),
                alignments@,
                base,
                cells@.len(),
            ),
            style: plain(),
        }),
{
    let bar = Style::default().fg(theme.info_background);
    let ghost view = cells_view(cells@);
    let mut spans: Vec<Span> = Vec::new();
    spans.push(Span::styled("│".to_owned(), bar));
    assert(line_view(spans@) =~= seq![("│"@, bar)]);
    let mut i: usize = 0;
    while i < cells.len()
        invariant
            i <= cells@.len() <= widths@.len(),
            view == cells_view(cells@),
            bar == plain().fg_spec(theme.info_background),
            line_view(spans@) == row_runs(
                *painter,
                *theme,
                view,
                widths_view(widths@),
                alignments@,
                base,
                i as nat,
            ),
        decreases cells@.len() - i,
    {
        let alignment = if i < alignments.len() {
            alignments[i]
        } else {
            Alignment::Left
        };
        let ghost before = line_view(spans@);
        spans.push(Span::styled(" ".to_owned(), base));
        assert(line_view(spans@) =~= before.push((" "@, base)));
        let cell = render_table_cell(&cells[i], widths[i], alignment, base, theme, painter);
        assert(view[i as int] == inline_view(cells@[i as int].spans@));
        move_spans(&mut spans, cell);
        let ghost now = line_view(spans@);
        spans.push(Span::styled(" ".to_owned(), base));
        spans.push(Span::styled("│".to_owned(), bar));
        assert(line_view(spans@) =~= now + seq![(" "@, base), ("│"@, bar)]);
        i += 1;
    }
    Line { spans, style: Style::default() }
}

/// A table row.
pub open spec fn row_line(
    painter: Painter,
    theme: Theme,
    table: TableView,
    cells: Seq<Seq<InlineView>>,
    viewport: int,
    base: Style,
) -> LineView {
    LineView {
        spans: row_runs(
            painter,
            theme,
            cells,
            table.widths(viewport),
            table.alignments,
            base,
            cells.len(),
        ),
        style: plain(),
    }
}

/// The lines of a table without its rows and the border below.
pub open spec fn head_lines(painter: Painter, theme: Theme, table: TableView, viewport: int) -> Seq<
    LineView,
> {
    let widths = table.widths(viewport);
    let frame = plain().fg_spec(theme.info_background);
    let bold = plain().fg_spec(theme.foreground).add_spec(crate::style::bold_only());
    seq![
        border_line(widths, '┌', '┬', '┐', frame),
        row_line(painter, theme, table, table.headers, viewport, bold),
        border_line(widths, '├', '┼', '┤', frame),
    ]
}

/// The lines of a table's rows.
pub open spec fn body_lines(painter: Painter, theme: Theme, table: TableView, viewport: int) -> Seq<
    LineView,
> {
    table.rows.map_values(
        |cells: Seq<Seq<InlineView>>|
            row_line(painter, theme, table, cells, viewport, plain().fg_spec(theme.foreground)),
    )
}

/// The lines of a table; none without a header.
pub open spec fn table_lines(painter: Painter, theme: Theme, table: TableView, viewport: int) -> Seq<
    LineView,
> {
    if table.headers.len() == 0 {
        Seq::empty()
    } else {
        (head_lines(painter, theme, table, viewport) + body_lines(
            painter,
            theme,
            table,
            viewport,
        )).push(
            border_line(
                table.widths(viewport),
                '└',
                '┴',
                '┘',
                plain().fg_spec(theme.info_background),
            ),
        )
    }
}

/// No column is too wide for its border.
proof fn lemma_border_fits(table: TableView, viewport: int, i: int)
    requires
        table.fits(),
        0 <= i < table.headers.len(),
    ensures
        table.widths(viewport)[i] + 2 <= usize::MAX,
{
    lemma_total_part(table.naturals(), table.headers.len(), i);
    assert(table.naturals()[i] == table.natural(i));
    if table.needed() + table.frame() > viewport {
        law_narrowing_has_a_limit(table, viewport, i);
    }
}

/// Shows a table in a viewport. Columns are narrowed where the table is wider,
/// and what does not fit a column is cut.
pub fn render_table(table: &Table, theme: &Theme, viewport: usize, painter: &Painter) -> (lines: Vec<
    Line,
>)
    requires
        table@.fits(),
    ensures
        line_views(lines@) == table_lines(*painter, *theme, table@, viewport as int),
{
    let mut lines: Vec<Line> = Vec::new();
    if table.headers.len() == 0 {
        assert(line_views(lines@) =~= Seq::empty());
        return lines;
    }
    let widths = table.column_widths(viewport);
    proof {
        assert(widths_view(widths@).len() == table@.headers.len());
        assert forall|i: int| 0 <= i < widths@.len() implies widths@[i] + 2 <= usize::MAX by {
            assert(widths_view(widths@)[i] == widths@[i]);
            lemma_border_fits(table@, viewport as int, i);
        }
    }
    let frame = Style::default().fg(theme.info_background);
    let normal = Style::default().fg(theme.foreground);
    let bold = normal.bold();
    lines.push(border(&widths, '┌', '┬', '┐', frame));
    lines.push(render_row(&table.headers, &widths, &table.alignments, bold, theme, painter));
    lines.push(border(&widths, '├', '┼', '┤', frame));
    let ghost head = head_lines(*painter, *theme, table@, viewport as int);
    let ghost body = body_lines(*painter, *theme, table@, viewport as int);
    assert(line_views(lines@) =~= head);
    let mut i: usize = 0;
    assert(head + body.take(0) =~= head);
    while i < table.rows.len()
        invariant
            i <= table.rows@.len(),
            table@.fits(),
            normal == plain().fg_spec(theme.foreground),
            widths_view(widths@) == table@.widths(viewport as int),
            body == body_lines(*painter, *theme, table@, viewport as int),
            line_views(lines@) == head + body.take(i as int),
        decreases table.rows@.len() - i,
    {
        assert(table@.rows[i as int] == cells_view(table.rows@[i as int]@));
        assert(widths_view(widths@).len() == widths@.len());
        let line = render_row(
            &table.rows[i],
            &widths,
            &table.alignments,
            normal,
            theme,
            painter,
        );
        let ghost before = line_views(lines@);
        let ghost shown = line@;
        lines.push(line);
        proof {
            assert(line_views(lines@) =~= before.push(shown));
            assert(body[i as int] == shown);
            assert(head + body.take(i + 1) =~= (head + body.take(i as int)).push(shown));
        }
        i += 1;
    }
    assert(body.take(i as int) =~= body);
    let ghost before = line_views(lines@);
    let last = border(&widths, '└', '┴', '┘', frame);
    let ghost shown = last@;
    lines.push(last);
    assert(line_views(lines@) =~= before.push(shown));
    lines
}

impl Table {
    /// Whether no row is longer than the header, and the table's width can be
    /// counted.
    pub fn is_countable(&self) -> (yes: bool)
        ensures
            yes == self@.fits(),
    {
        let n: usize = self.headers.len();
        let mut i: usize = 0;
        while i < self.rows.len()
            invariant
                i <= self.rows@.len(),
                n == self@.headers.len(),
                forall|k: int| 0 <= k < i ==> (#[trigger] self@.rows[k]).len() <= n,
            decreases self.rows@.len() - i,
        {
            assert(self@.rows[i as int].len() == self.rows@[i as int]@.len());
            if self.rows[i].len() > n {
                assert(self@.rows[i as int].len() > self@.headers.len());
                return false;
            }
            i += 1;
        }
        let widths = self.natural_widths();
        let ghost naturals = self@.naturals();
        let most: u128 = usize::MAX as u128;
        let mut sum: u128 = 3 * n as u128 + 1;
        let mut j: usize = 0;
        assert(widths_view(widths@).len() == widths@.len());
        while j < n && sum <= most
            invariant
                j <= n,
                n == widths@.len(),
                n == self@.headers.len(),
                naturals == widths_view(widths@),
                most == usize::MAX,
                sum <= 4 * usize::MAX + 1,
                sum == self@.frame() + total(naturals, j as nat),
            decreases n - j,
        {
            assert(naturals[j as int] == widths@[j as int]);
            sum = sum + widths[j] as u128;
            j += 1;
        }
        proof {
            if j < n {
                lemma_total_part(naturals, n as nat, j as int);
            }
        }
        sum <= most
    }
}

} // verus!
