//! Parts of styled lines.

use vstd::prelude::*;

use crate::num::{larger, smaller};
use crate::style::{line_text, line_view, Line, LineView, Span, Style};
use crate::text::{chars_of, string_of};

verus! {

/// Where a position of a line falls in a run of `len` characters that starts at
/// `start`.
pub open spec fn within(position: int, start: int, len: int) -> int {
    smaller(larger(position - start, 0), len)
}

/// The runs between two positions of a line; empty ones are left out.
pub open spec fn sliced_runs(runs: Seq<(Seq<char>, Style)>, from: int, to: int) -> Seq<
    (Seq<char>, Style),
>
    decreases runs.len(),
{
    if runs.len() == 0 {
        Seq::empty()
    } else {
        let before = sliced_runs(runs.drop_last(), from, to);
        let start = line_text(runs.drop_last()).len() as int;
        let run = runs.last();
        let a = within(from, start, run.0.len() as int);
        let b = within(to, start, run.0.len() as int);
        if a < b {
            before.push((run.0.subrange(a, b), run.1))
        } else {
            before
        }
    }
}

/// The part of a line between two positions.
pub open spec fn sliced_line(line: LineView, from: int, to: int) -> LineView {
    LineView { spans: sliced_runs(line.spans, from, to), style: line.style }
}

/// The text between two positions, as far as there is any.
pub open spec fn text_between(text: Seq<char>, from: int, to: int) -> Seq<char> {
    let n = text.len() as int;
    let a = within(from, 0, n);
    let b = within(to, 0, n);
    if a < b {
        text.subrange(a, b)
    } else {
        Seq::empty()
    }
}

/// A part of a line has the text of that part.
pub proof fn law_slice_text(runs: Seq<(Seq<char>, Style)>, from: int, to: int)
    ensures
        line_text(sliced_runs(runs, from, to)) == text_between(line_text(runs), from, to),
    decreases runs.len(),
{
    if runs.len() > 0 {
        law_slice_text(runs.drop_last(), from, to);
        let before = line_text(runs.drop_last());
        let run = runs.last().0;
        let text = line_text(runs);
        let a = within(from, before.len() as int, run.len() as int);
        let b = within(to, before.len() as int, run.len() as int);
        let slices = sliced_runs(runs, from, to);
        if a < b {
            assert(slices.drop_last() =~= sliced_runs(runs.drop_last(), from, to));
            assert(text_between(text, from, to) =~= text_between(before, from, to) + run.subrange(
                a,
                b,
            ));
        } else {
            assert(text_between(text, from, to) =~= text_between(before, from, to));
        }
    }
}

/// The part of a run between two positions of its line.
fn place_in(position: usize, start: usize, len: usize) -> (at: usize)
    ensures
        at == within(position as int, start as int, len as int),
{
    if position <= start {
        0
    } else if position - start < len {
        position - start
    } else {
        len
    }
}

/// The part of a line between two positions, counted in characters.
pub fn slice_line(line: &Line, from: usize, to: usize) -> (out: Line)
    ensures
        out@ == sliced_line(line@, from as int, to as int),
{
    let ghost whole = line_view(line.spans@);
    let mut spans: Vec<Span> = Vec::new();
    let mut start: usize = 0;
    let mut i: usize = 0;
    proof {
        assert(whole.take(0) =~= Seq::empty());
        assert(line_view(spans@) =~= Seq::empty());
    }
    while i < line.spans.len()
        invariant
            i <= line.spans@.len(),
            whole == line_view(line.spans@),
            start == smaller(line_text(whole.take(i as int)).len() as int, usize::MAX as int),
            line_view(spans@) == sliced_runs(whole.take(i as int), from as int, to as int),
        decreases line.spans@.len() - i,
    {
        let chars = chars_of(line.spans[i].content.as_str());
        proof {
            assert(whole.take(i + 1).drop_last() =~= whole.take(i as int));
            assert(whole.take(i + 1).last() == line.spans@[i as int]@);
        }
        let a = place_in(from, start, chars.len());
        let b = place_in(to, start, chars.len());
        if a < b {
            let ghost before = line_view(spans@);
            let part = string_of(vstd::slice::slice_subrange(chars.as_slice(), a, b));
            let span = Span::styled(part, line.spans[i].style);
            let ghost shown = span@;
            spans.push(span);
            assert(line_view(spans@) =~= before.push(shown));
        }
        start = start.saturating_add(chars.len());
        i += 1;
    }
    assert(whole.take(i as int) =~= whole);
    Line { spans, style: line.style }
}

} // verus!
