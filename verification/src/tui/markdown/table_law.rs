//! What the lines of a table show.

use vstd::prelude::*;

use crate::style::{lemma_line_text_add, line_text, plain, Style};
use crate::text::repeated;
use crate::theme::Theme;
use crate::theme_library::Painter;
use crate::tui::markdown::inline::{
    inline_chars, inline_line, inline_runs, InlineStyle, InlineView,
};
use crate::tui::markdown::slice::{law_slice_text, sliced_runs};
use crate::tui::markdown::table::{
    alignment_of, blanks, blanks_before, border_text, cell_len, cell_runs, cut_runs, row_line,
    row_runs, table_lines, total, Alignment, TableView,
};

verus! {

/// No piece of a text is an HTML tag.
pub open spec fn no_tags(spans: Seq<InlineView>) -> bool {
    forall|i: int|
        0 <= i < spans.len() ==> !(#[trigger] spans[i]).style.contains(InlineStyle::HtmlTag)
}

/// However a text is emphasized, it is shown as it is.
pub proof fn law_emphasis_keeps_the_text(
    painter: Painter,
    theme: Theme,
    spans: Seq<InlineView>,
    base: Option<Style>,
    n: nat,
)
    requires
        no_tags(spans),
        n <= spans.len(),
    ensures
        line_text(inline_runs(painter, theme, spans, base, n)) == inline_chars(spans.take(n as int)),
    decreases n,
{
    if n > 0 {
        law_emphasis_keeps_the_text(painter, theme, spans, base, (n - 1) as nat);
        let before = inline_runs(painter, theme, spans, base, (n - 1) as nat);
        let all = inline_runs(painter, theme, spans, base, n);
        assert(!spans[n - 1].style.contains(InlineStyle::HtmlTag));
        let more = all.skip(before.len() as int);
        assert(all =~= before + more);
        assert(more.len() == 1 && more[0].0 == spans[n - 1].text);
        lemma_line_text_add(before, more);
        lemma_one_run(more);
        assert(spans.take(n as int).drop_last() =~= spans.take(n - 1));
        assert(spans.take(n as int).last() == spans[n - 1]);
    } else {
        assert(spans.take(0) =~= Seq::empty());
    }
}

proof fn lemma_one_run(runs: Seq<(Seq<char>, Style)>)
    requires
        runs.len() == 1,
    ensures
        line_text(runs) == runs[0].0,
{
    assert(runs.drop_last() =~= Seq::empty());
    assert(line_text(runs.drop_last()) =~= Seq::empty());
    assert(line_text(runs) =~= runs[0].0);
}

proof fn lemma_blanks(n: int, style: Style)
    requires
        n >= 0,
    ensures
        line_text(blanks(n, style)) == repeated(' ', n as nat),
{
    if n > 0 {
        lemma_one_run(blanks(n, style));
    } else {
        assert(line_text(blanks(n, style)) =~= repeated(' ', 0));
    }
}

/// A cell is as wide as its column. Its text stands at the left, at the right or in the
/// middle, as the column is aligned; where it is too long, its start is shown, and an
/// ellipsis behind it.
pub proof fn law_cells_fill_their_column(
    painter: Painter,
    theme: Theme,
    cell: Seq<InlineView>,
    width: int,
    alignment: Alignment,
    base: Style,
)
    requires
        no_tags(cell),
        width > 0,
    ensures
        ({
            let text = line_text(cell_runs(painter, theme, cell, width, alignment, base));
            let content = inline_chars(cell);
            let room = width - content.len();
            &&& text.len() == width
            &&& content.len() <= width && alignment == Alignment::Right ==> text == repeated(
                ' ',
                room as nat,
            ) + content
            &&& content.len() <= width && alignment == Alignment::Center ==> text.subrange(
                room / 2,
                room / 2 + content.len(),
            ) == content
            &&& content.len() <= width && alignment != Alignment::Right && alignment
                != Alignment::Center ==> text == content + repeated(' ', room as nat)
            &&& content.len() > width ==> text == content.take(width - 1).push('…')
        }),
{
    reveal_strlit("…");
    let content = inline_chars(cell);
    let padding = if content.len() <= width {
        width - content.len()
    } else {
        0
    };
    let left = blanks_before(padding, alignment);
    let cut = cut_runs(painter, theme, cell, width, base);
    law_emphasis_keeps_the_text(painter, theme, cell, Some(base), cell.len());
    assert(cell.take(cell.len() as int) =~= cell);
    let runs = inline_line(painter, theme, cell, Some(base)).spans;
    assert(line_text(runs) == content);
    if cell_len(cell) > width {
        if width == 1 {
            lemma_one_run(cut);
            assert(line_text(cut) =~= content.take(0).push('…'));
        } else {
            law_slice_text(runs, 0, width - 1);
            let sliced = sliced_runs(runs, 0, width - 1);
            assert(cut.drop_last() =~= sliced);
            assert(line_text(sliced) =~= content.take(width - 1));
            assert(line_text(cut) =~= content.take(width - 1).push('…'));
        }
    }
    lemma_blanks(left, base);
    lemma_blanks(padding - left, base);
    lemma_line_text_add(blanks(left, base), cut);
    lemma_line_text_add(blanks(left, base) + cut, blanks(padding - left, base));
    let text = line_text(cell_runs(painter, theme, cell, width, alignment, base));
    assert(text == repeated(' ', left as nat) + line_text(cut) + repeated(
        ' ',
        (padding - left) as nat,
    ));
    if content.len() <= width {
        if alignment == Alignment::Right {
            assert(text =~= repeated(' ', padding as nat) + content);
        } else if alignment == Alignment::Center {
            assert(text.subrange(padding / 2, padding / 2 + content.len()) =~= content);
        } else {
            assert(text =~= content + repeated(' ', padding as nat));
        }
    } else {
        assert(text =~= line_text(cut));
    }
}

/// All lines of a table are equally long: a border and a row with as many cells. Each
/// cell stands behind a bar and a blank, below the cell above it.
pub proof fn law_cells_stand_below_each_other(
    painter: Painter,
    theme: Theme,
    cells: Seq<Seq<InlineView>>,
    widths: Seq<int>,
    alignments: Seq<Alignment>,
    base: Style,
    n: nat,
    left: char,
    mid: char,
)
    requires
        n <= cells.len(),
        n <= widths.len(),
        forall|i: int| 0 <= i < cells.len() ==> no_tags(#[trigger] cells[i]),
        forall|i: int| 0 <= i < widths.len() ==> #[trigger] widths[i] > 0,
    ensures
        ({
            let row = line_text(row_runs(painter, theme, cells, widths, alignments, base, n));
            &&& row.len() == total(widths, n) + 3 * n + 1
            &&& row.last() == '│'
            &&& n > 0 ==> border_text(widths, left, mid, n).len() + 1 == row.len()
            &&& n > 0 ==> row.subrange(
                row.len() - 2 - widths[n - 1],
                row.len() - 2,
            ) == line_text(
                cell_runs(
                    painter,
                    theme,
                    cells[n - 1],
                    widths[n - 1],
                    alignment_of(alignments, n - 1),
                    base,
                ),
            )
        }),
    decreases n,
{
    reveal_strlit("│");
    reveal_strlit(" ");
    let bar = ("│"@, plain().fg_spec(theme.info_background));
    let row = row_runs(painter, theme, cells, widths, alignments, base, n);
    if n == 0 {
        lemma_one_run(row);
    } else {
        let m = (n - 1) as nat;
        law_cells_stand_below_each_other(
            painter,
            theme,
            cells,
            widths,
            alignments,
            base,
            m,
            left,
            mid,
        );
        let before = row_runs(painter, theme, cells, widths, alignments, base, m);
        let blank = (" "@, base);
        let cell = cell_runs(
            painter,
            theme,
            cells[n - 1],
            widths[n - 1],
            alignment_of(alignments, n - 1),
            base,
        );
        assert(no_tags(cells[n - 1]) && widths[n - 1] > 0);
        law_cells_fill_their_column(
            painter,
            theme,
            cells[n - 1],
            widths[n - 1],
            alignment_of(alignments, n - 1),
            base,
        );
        assert(before.push(blank).drop_last() =~= before);
        assert(line_text(before.push(blank)) == line_text(before) + " "@);
        lemma_line_text_add(before.push(blank), cell);
        let end = seq![blank, bar];
        assert(end.drop_last() =~= seq![blank]);
        lemma_one_run(seq![blank]);
        assert(line_text(end) == " "@ + "│"@);
        lemma_line_text_add(before.push(blank) + cell, end);
        let text = line_text(row);
        assert(text == line_text(before) + " "@ + line_text(cell) + (" "@ + "│"@));
        assert(text.subrange(text.len() - 2 - widths[n - 1], text.len() - 2) =~= line_text(cell));
        assert(3 * n == 3 * m + 3);
        if m == 0 {
            assert(border_text(widths, left, mid, 0).len() == 1);
        }
    }
}

/// A table shows its header between two borders, then its rows in order, and a border
/// below them.
pub proof fn law_rows_are_shown_in_order(
    painter: Painter,
    theme: Theme,
    table: TableView,
    viewport: int,
    i: int,
)
    requires
        table.headers.len() > 0,
        0 <= i < table.rows.len(),
    ensures
        ({
            let lines = table_lines(painter, theme, table, viewport);
            &&& lines.len() == table.rows.len() + 4
            &&& lines[1] == row_line(
                painter,
                theme,
                table,
                table.headers,
                viewport,
                Style {
                    fg: Some(theme.foreground),
                    add: crate::style::bold_only(),
                    ..plain()
                },
            )
            &&& lines[3 + i] == row_line(
                painter,
                theme,
                table,
                table.rows[i],
                viewport,
                Style { fg: Some(theme.foreground), ..plain() },
            )
            &&& line_text(lines[0].spans)[0] == '┌'
            &&& line_text(lines[2].spans)[0] == '├'
            &&& line_text(lines[lines.len() - 1].spans)[0] == '└'
            &&& line_text(lines[0].spans).last() == '┐'
            &&& line_text(lines[lines.len() - 1].spans).last() == '┘'
        }),
{
    let lines = table_lines(painter, theme, table, viewport);
    let widths = table.widths(viewport);
    lemma_one_run(lines[0].spans);
    lemma_one_run(lines[2].spans);
    lemma_one_run(lines[lines.len() - 1].spans);
    lemma_border_starts(widths, '┌', '┬', widths.len());
    lemma_border_starts(widths, '├', '┼', widths.len());
    lemma_border_starts(widths, '└', '┴', widths.len());
}

proof fn lemma_border_starts(widths: Seq<int>, left: char, mid: char, n: nat)
    ensures
        border_text(widths, left, mid, n).len() > 0,
        border_text(widths, left, mid, n)[0] == left,
    decreases n,
{
    if n > 0 {
        lemma_border_starts(widths, left, mid, (n - 1) as nat);
    }
}

} // verus!
