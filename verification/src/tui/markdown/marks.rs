//! Marking what a search found.

use vstd::prelude::*;

use crate::style::{
    lemma_line_text_add, line_text, line_view, raw_line, text_of_line, Line, LineView, Span, Style,
};
use crate::text::{
    char_lowercase, chars_of, lowercase, lowercase_char, lowercase_of, occurs, occurs_at, string_of,
};
use crate::tui::markdown::slice::within;

verus! {

/// A text in lower case, character by character, each with the place of the
/// character it comes from.
pub open spec fn folded(text: Seq<char>) -> Seq<(char, int)>
    decreases text.len(),
{
    if text.len() == 0 {
        Seq::empty()
    } else {
        let at = text.len() - 1;
        folded(text.drop_last()) + lowercase_char(text.last()).map_values(|c: char| (c, at))
    }
}

/// The characters of a folded text.
pub open spec fn folded_chars(text: Seq<char>) -> Seq<char> {
    folded(text).map_values(|f: (char, int)| f.0)
}

/// Where a term occurs from `at` on, each occurrence behind the one before.
pub open spec fn occurrences(s: Seq<char>, term: Seq<char>, at: int) -> Seq<int>
    decreases s.len() - at,
{
    if term.len() == 0 || at < 0 || at + term.len() > s.len() {
        Seq::empty()
    } else if occurs_at(s, term, at) {
        seq![at] + occurrences(s, term, at + term.len())
    } else {
        occurrences(s, term, at + 1)
    }
}

/// The characters that an occurrence in the folded text comes from.
pub open spec fn range_of(text: Seq<char>, term: Seq<char>, at: int) -> (int, int) {
    (folded(text)[at].1, folded(text)[at + term.len() - 1].1 + 1)
}

/// The parts of a text that match a term, whatever the case.
pub open spec fn match_ranges(text: Seq<char>, term: Seq<char>) -> Seq<(int, int)> {
    if term.len() == 0 {
        Seq::empty()
    } else {
        let lower = lowercase_of(term);
        occurrences(folded_chars(text), lower, 0).map_values(|at: int| range_of(text, lower, at))
    }
}

/// Ranges of the program's numbers.
pub open spec fn ranges_view(ranges: Seq<(usize, usize)>) -> Seq<(int, int)> {
    ranges.map_values(|r: (usize, usize)| (r.0 as int, r.1 as int))
}

/// Every place is one of the text's.
proof fn lemma_folded_places(text: Seq<char>)
    ensures
        forall|i: int| 0 <= i < folded(text).len() ==> 0 <= (#[trigger] folded(text)[i]).1 < text.len(),
    decreases text.len(),
{
    if text.len() > 0 {
        lemma_folded_places(text.drop_last());
        let before = folded(text.drop_last());
        assert forall|i: int| 0 <= i < folded(text).len() implies 0 <= (#[trigger] folded(text)[i]).1
            < text.len() by {
            if i < before.len() {
                assert(folded(text)[i] == before[i]);
            }
        }
    }
}

fn fold_text(chars: &Vec<char>) -> (out: (Vec<char>, Vec<usize>))
    ensures
        out.0@ == folded_chars(chars@),
        out.1@.len() == folded(chars@).len(),
        forall|i: int| 0 <= i < out.1@.len() ==> out.1@[i] == (#[trigger] folded(chars@)[i]).1,
{
    let mut lower: Vec<char> = Vec::new();
    let mut places: Vec<usize> = Vec::new();
    let mut i: usize = 0;
    assert(chars@.take(0) =~= Seq::empty());
    assert(lower@ =~= folded_chars(chars@.take(0)));
    while i < chars.len()
        invariant
            i <= chars@.len(),
            lower@ == folded_chars(chars@.take(i as int)),
            places@.len() == folded(chars@.take(i as int)).len(),
            forall|k: int|
                0 <= k < places@.len() ==> places@[k] == (#[trigger] folded(
                    chars@.take(i as int),
                )[k]).1,
        decreases chars@.len() - i,
    {
        let mapped = char_lowercase(chars[i]);
        let ghost before = folded(chars@.take(i as int));
        let ghost more = mapped@.map_values(|c: char| (c, i as int));
        let ghost old_lower = lower@;
        let mut j: usize = 0;
        assert(old_lower + mapped@.take(0) =~= old_lower);
        assert(before + more.take(0) =~= before);
        while j < mapped.len()
            invariant
                j <= mapped@.len(),
                more == mapped@.map_values(|c: char| (c, i as int)),
                lower@ == old_lower + mapped@.take(j as int),
                places@.len() == before.len() + j,
                forall|k: int|
                    0 <= k < places@.len() ==> places@[k] == (#[trigger] (before + more.take(
                        j as int,
                    ))[k]).1,
            decreases mapped@.len() - j,
        {
            lower.push(mapped[j]);
            places.push(i);
            proof {
                assert(old_lower + mapped@.take(j + 1) =~= (old_lower + mapped@.take(j as int)).push(
                    mapped@[j as int],
                ));
                assert(before + more.take(j + 1) =~= (before + more.take(j as int)).push(
                    more[j as int],
                ));
            }
            j += 1;
        }
        proof {
            assert(mapped@.take(j as int) =~= mapped@);
            assert(more.take(j as int) =~= more);
            assert(chars@.take(i + 1).drop_last() =~= chars@.take(i as int));
            assert(folded(chars@.take(i + 1)) =~= before + more);
            assert(lower@ =~= folded_chars(chars@.take(i + 1)));
        }
        i += 1;
    }
    assert(chars@.take(i as int) =~= chars@);
    (lower, places)
}

/// The parts of a text that match a term, whatever the case; none for an empty
/// term.
pub fn highlight_ranges(text: &str, term: &str) -> (ranges: Vec<(usize, usize)>)
    ensures
        ranges_view(ranges@) == match_ranges(text@, term@),
{
    let mut ranges: Vec<(usize, usize)> = Vec::new();
    assert(ranges_view(ranges@) =~= Seq::empty());
    if term.is_empty() {
        return ranges;
    }
    let chars = chars_of(text);
    let count: usize = chars.len();
    let (lower, places) = fold_text(&chars);
    let folded_term = lowercase(term);
    let wanted = chars_of(folded_term.as_str());
    let ghost goal = occurrences(lower@, wanted@, 0);
    let ghost to_range = |at: int| range_of(text@, wanted@, at);
    let ghost mut done: Seq<int> = Seq::empty();
    let mut at: usize = 0;
    proof {
        lemma_folded_places(text@);
        assert(done + goal =~= goal);
        assert(ranges_view(ranges@) =~= done.map_values(to_range));
    }
    while at < lower.len()
        invariant
            at <= lower@.len(),
            wanted@.len() > 0,
            chars@ == text@,
            count == chars@.len(),
            lower@ == folded_chars(text@),
            lower@.len() == folded(text@).len(),
            places@.len() == lower@.len(),
            forall|k: int| 0 <= k < places@.len() ==> places@[k] == (#[trigger] folded(text@)[k]).1,
            forall|k: int|
                0 <= k < folded(text@).len() ==> 0 <= (#[trigger] folded(text@)[k]).1 < chars@.len(),
            goal == done + occurrences(lower@, wanted@, at as int),
            to_range == (|at: int| range_of(text@, wanted@, at)),
            ranges_view(ranges@) == done.map_values(to_range),
        decreases lower@.len() - at,
    {
        if wanted.len() <= lower.len() - at && occurs(lower.as_slice(), wanted.as_slice(), at) {
            let start = places[at];
            let last = places[at + wanted.len() - 1];
            assert(folded(text@)[at as int].1 == start);
            assert(folded(text@)[at + wanted@.len() - 1].1 == last);
            let ghost before = ranges_view(ranges@);
            ranges.push((start, last + 1));
            proof {
                assert(ranges_view(ranges@) =~= before.push(to_range(at as int)));
                assert(done.push(at as int).map_values(to_range) =~= done.map_values(to_range).push(
                    to_range(at as int),
                ));
                assert(done.push(at as int) + occurrences(lower@, wanted@, at + wanted@.len()) =~= done
                    + (seq![at as int] + occurrences(lower@, wanted@, at + wanted@.len())));
                done = done.push(at as int);
            }
            at += wanted.len();
        } else {
            proof {
                if at + wanted@.len() > lower@.len() {
                    assert(occurrences(lower@, wanted@, at as int) =~= Seq::empty());
                    assert(occurrences(lower@, wanted@, at + 1) =~= Seq::empty());
                }
            }
            at += 1;
        }
    }
    proof {
        assert(occurrences(lower@, wanted@, at as int) =~= Seq::empty());
        assert(done =~= goal);
        assert(match_ranges(text@, term@) =~= goal.map_values(to_range));
    }
    ranges
}

/// A run cut at the ranges: the pieces so far, and how much of the run they take.
pub struct Cut {
    pub runs: Seq<(Seq<char>, Style)>,
    pub taken: int,
}

/// A run that starts at `start`, cut at the first `n` ranges.
pub open spec fn cut_run(
    run: (Seq<char>, Style),
    start: int,
    ranges: Seq<(int, int)>,
    mark: Style,
    n: nat,
) -> Cut
    decreases n,
{
    if n == 0 {
        Cut { runs: Seq::empty(), taken: 0 }
    } else {
        let before = cut_run(run, start, ranges, mark, (n - 1) as nat);
        let len = run.0.len() as int;
        let from = within(ranges[n - 1].0, start, len);
        let to = within(ranges[n - 1].1, start, len);
        if from >= to || to <= before.taken {
            before
        } else {
            let plain_runs = if from > before.taken {
                before.runs.push((run.0.subrange(before.taken, from), run.1))
            } else {
                before.runs
            };
            Cut { runs: plain_runs.push((run.0.subrange(from, to), mark)), taken: to }
        }
    }
}

/// A run with the ranges marked.
pub open spec fn marked_run(
    run: (Seq<char>, Style),
    start: int,
    ranges: Seq<(int, int)>,
    mark: Style,
) -> Seq<(Seq<char>, Style)> {
    let cut = cut_run(run, start, ranges, mark, ranges.len());
    if cut.taken < run.0.len() {
        cut.runs.push((run.0.skip(cut.taken), run.1))
    } else {
        cut.runs
    }
}

/// Runs with the ranges marked.
pub open spec fn marked_runs(
    runs: Seq<(Seq<char>, Style)>,
    ranges: Seq<(int, int)>,
    mark: Style,
) -> Seq<(Seq<char>, Style)>
    decreases runs.len(),
{
    if runs.len() == 0 {
        Seq::empty()
    } else {
        marked_runs(runs.drop_last(), ranges, mark) + marked_run(
            runs.last(),
            line_text(runs.drop_last()).len() as int,
            ranges,
            mark,
        )
    }
}

/// A line with every occurrence of a term marked.
pub open spec fn highlighted_line(line: LineView, term: Seq<char>, mark: Style) -> LineView {
    let ranges = match_ranges(line.text(), term);
    if ranges.len() == 0 {
        line
    } else {
        LineView { spans: marked_runs(line.spans, ranges, mark), style: line.style }
    }
}

proof fn lemma_cut_bounds(
    run: (Seq<char>, Style),
    start: int,
    ranges: Seq<(int, int)>,
    mark: Style,
    n: nat,
)
    ensures
        0 <= cut_run(run, start, ranges, mark, n).taken <= run.0.len(),
    decreases n,
{
    if n > 0 {
        lemma_cut_bounds(run, start, ranges, mark, (n - 1) as nat);
    }
}

/// No two ranges share a character.
pub open spec fn apart(ranges: Seq<(int, int)>) -> bool {
    forall|i: int, j: int|
        0 <= i < j < ranges.len() ==> (#[trigger] ranges[i]).1 <= (#[trigger] ranges[j]).0
}

proof fn lemma_cut_text(
    run: (Seq<char>, Style),
    start: int,
    ranges: Seq<(int, int)>,
    mark: Style,
    n: nat,
)
    requires
        apart(ranges),
        n <= ranges.len(),
    ensures
        ({
            let cut = cut_run(run, start, ranges, mark, n);
            &&& 0 <= cut.taken <= run.0.len()
            &&& line_text(cut.runs) == run.0.take(cut.taken)
            &&& forall|k: int|
                n <= k < ranges.len() ==> cut.taken <= within(
                    (#[trigger] ranges[k]).0,
                    start,
                    run.0.len() as int,
                )
        }),
    decreases n,
{
    let len = run.0.len() as int;
    if n == 0 {
        assert(line_text(cut_run(run, start, ranges, mark, 0).runs) =~= run.0.take(0));
    } else {
        lemma_cut_text(run, start, ranges, mark, (n - 1) as nat);
        let before = cut_run(run, start, ranges, mark, (n - 1) as nat);
        let from = within(ranges[n - 1].0, start, len);
        let to = within(ranges[n - 1].1, start, len);
        let cut = cut_run(run, start, ranges, mark, n);
        if from < to && to > before.taken {
            let middle = if from > before.taken {
                before.runs.push((run.0.subrange(before.taken, from), run.1))
            } else {
                before.runs
            };
            if from > before.taken {
                assert(middle.drop_last() =~= before.runs);
                assert(line_text(middle) =~= run.0.take(from));
            } else {
                assert(line_text(middle) =~= run.0.take(from));
            }
            assert(cut.runs.drop_last() =~= middle);
            assert(line_text(cut.runs) =~= run.0.take(to));
            assert forall|k: int| n <= k < ranges.len() implies cut.taken <= within(
                (#[trigger] ranges[k]).0,
                start,
                len,
            ) by {
                assert(ranges[n - 1].1 <= ranges[k].0);
            }
        }
    }
}

/// Marking keeps the text of a line, where no two matches share a character.
pub proof fn law_marks_keep_text(line: LineView, term: Seq<char>, mark: Style)
    requires
        apart(match_ranges(line.text(), term)),
    ensures
        highlighted_line(line, term, mark).text() == line.text(),
{
    let ranges = match_ranges(line.text(), term);
    if ranges.len() > 0 {
        lemma_marked_text(line.spans, ranges, mark);
    }
}

proof fn lemma_marked_text(runs: Seq<(Seq<char>, Style)>, ranges: Seq<(int, int)>, mark: Style)
    requires
        apart(ranges),
    ensures
        line_text(marked_runs(runs, ranges, mark)) == line_text(runs),
    decreases runs.len(),
{
    if runs.len() > 0 {
        lemma_marked_text(runs.drop_last(), ranges, mark);
        let run = runs.last();
        let start = line_text(runs.drop_last()).len() as int;
        lemma_cut_text(run, start, ranges, mark, ranges.len());
        let cut = cut_run(run, start, ranges, mark, ranges.len());
        let shown = marked_run(run, start, ranges, mark);
        if cut.taken < run.0.len() {
            assert(shown.drop_last() =~= cut.runs);
            assert(line_text(shown) =~= run.0);
        } else {
            assert(line_text(shown) =~= run.0);
        }
        lemma_line_text_add(marked_runs(runs.drop_last(), ranges, mark), shown);
    }
}

/// Where each character keeps its own place in lower case, no two matches share
/// a character.
pub proof fn law_simple_matches_are_apart(text: Seq<char>, term: Seq<char>)
    requires
        forall|i: int| 0 <= i < text.len() ==> lowercase_char(#[trigger] text[i]).len() == 1,
    ensures
        apart(match_ranges(text, term)),
{
    lemma_simple_places(text);
    if term.len() > 0 {
        let lower = lowercase_of(term);
        lemma_occurrences(folded_chars(text), lower, 0);
        let found = occurrences(folded_chars(text), lower, 0);
        let ranges = match_ranges(text, term);
        assert forall|i: int, j: int| 0 <= i < j < ranges.len() implies (#[trigger] ranges[i]).1
            <= (#[trigger] ranges[j]).0 by {
            assert(ranges[i] == range_of(text, lower, found[i]));
            assert(ranges[j] == range_of(text, lower, found[j]));
            assert(found[i] + lower.len() <= found[j]);
        }
    }
}

proof fn lemma_simple_places(text: Seq<char>)
    requires
        forall|i: int| 0 <= i < text.len() ==> lowercase_char(#[trigger] text[i]).len() == 1,
    ensures
        folded(text).len() == text.len(),
        forall|i: int| 0 <= i < text.len() ==> (#[trigger] folded(text)[i]).1 == i,
    decreases text.len(),
{
    if text.len() > 0 {
        let before = text.drop_last();
        assert forall|i: int| 0 <= i < before.len() implies lowercase_char(#[trigger] before[i]).len()
            == 1 by {
            assert(before[i] == text[i]);
        }
        lemma_simple_places(before);
        assert forall|i: int| 0 <= i < text.len() implies (#[trigger] folded(text)[i]).1 == i by {
            if i < before.len() {
                assert(folded(text)[i] == folded(before)[i]);
            } else {
                assert(lowercase_char(text[text.len() - 1]).len() == 1);
            }
        }
        assert(lowercase_char(text[text.len() - 1]).len() == 1);
    }
}

/// Occurrences lie in the text, each behind the one before.
proof fn lemma_occurrences(s: Seq<char>, term: Seq<char>, at: int)
    requires
        0 <= at,
    ensures
        ({
            let found = occurrences(s, term, at);
            &&& forall|i: int|
                0 <= i < found.len() ==> at <= #[trigger] found[i] && found[i] + term.len() <= s.len()
            &&& forall|i: int, j: int|
                0 <= i < j < found.len() ==> (#[trigger] found[i]) + term.len() <= (
                #[trigger] found[j])
        }),
    decreases s.len() - at,
{
    if term.len() > 0 && at + term.len() <= s.len() {
        if occurs_at(s, term, at) {
            let rest = occurrences(s, term, at + term.len());
            lemma_occurrences(s, term, at + term.len());
            let found = occurrences(s, term, at);
            assert(found =~= seq![at] + rest);
            assert forall|i: int| 0 <= i < found.len() implies at <= #[trigger] found[i] && found[i]
                + term.len() <= s.len() by {
                if i > 0 {
                    assert(found[i] == rest[i - 1]);
                }
            }
            assert forall|i: int, j: int| 0 <= i < j < found.len() implies (#[trigger] found[i])
                + term.len() <= (#[trigger] found[j]) by {
                assert(found[j] == rest[j - 1]);
                if i > 0 {
                    assert(found[i] == rest[i - 1]);
                }
            }
        } else {
            lemma_occurrences(s, term, at + 1);
            assert(occurrences(s, term, at) == occurrences(s, term, at + 1));
        }
    } else {
        assert(occurrences(s, term, at).len() == 0);
    }
}

fn mark_run(
    run: &Span,
    start: usize,
    ranges: &Vec<(usize, usize)>,
    mark: Style,
    out: &mut Vec<Span>,
) -> (len: usize)
    ensures
        len == run@.0.len(),
        line_view(final(out)@) == line_view(old(out)@) + marked_run(
            run@,
            start as int,
            ranges_view(ranges@),
            mark,
        ),
{
    let chars = chars_of(run.content.as_str());
    let len: usize = chars.len();
    let ghost view = ranges_view(ranges@);
    let ghost before = line_view(out@);
    let mut taken: usize = 0;
    let mut i: usize = 0;
    assert(before + Seq::<(Seq<char>, Style)>::empty() =~= before);
    while i < ranges.len()
        invariant
            i <= ranges@.len(),
            chars@ == run@.0,
            len == chars@.len(),
            view == ranges_view(ranges@),
            taken == cut_run(run@, start as int, view, mark, i as nat).taken,
            line_view(out@) == before + cut_run(run@, start as int, view, mark, i as nat).runs,
        decreases ranges@.len() - i,
    {
        proof {
            lemma_cut_bounds(run@, start as int, view, mark, i as nat);
        }
        let ghost cut = cut_run(run@, start as int, view, mark, i as nat).runs;
        let from: usize = ranges[i].0.saturating_sub(start).min(len);
        let to: usize = ranges[i].1.saturating_sub(start).min(len);
        assert(view[i as int] == (ranges@[i as int].0 as int, ranges@[i as int].1 as int));
        if from < to && to > taken {
            let ghost mut middle = cut;
            if from > taken {
                let part = string_of(vstd::slice::slice_subrange(chars.as_slice(), taken, from));
                let span = Span::styled(part, run.style);
                let ghost shown = span@;
                let ghost now = line_view(out@);
                out.push(span);
                proof {
                    middle = cut.push(shown);
                    assert(line_view(out@) =~= now.push(shown));
                    assert(line_view(out@) =~= before + middle);
                }
            }
            let part = string_of(vstd::slice::slice_subrange(chars.as_slice(), from, to));
            let span = Span::styled(part, mark);
            let ghost shown = span@;
            let ghost now = line_view(out@);
            out.push(span);
            assert(line_view(out@) =~= now.push(shown));
            assert(line_view(out@) =~= before + middle.push(shown));
            taken = to;
        }
        i += 1;
    }
    if taken < len {
        let ghost cut = cut_run(run@, start as int, view, mark, i as nat).runs;
        let part = string_of(vstd::slice::slice_subrange(chars.as_slice(), taken, len));
        assert(part@ =~= run@.0.skip(taken as int));
        let span = Span::styled(part, run.style);
        let ghost shown = span@;
        let ghost now = line_view(out@);
        out.push(span);
        assert(line_view(out@) =~= now.push(shown));
        assert(line_view(out@) =~= before + cut.push(shown));
    }
    len
}

/// A text as a line with every occurrence of a term marked.
pub open spec fn marked_text(text: Seq<char>, term: Seq<char>, mark: Style) -> LineView {
    highlighted_line(raw_line(text), term, mark)
}

/// A text as a line with every occurrence of a term marked, whatever the case.
pub fn mark_text(text: &str, term: &str, mark: Style) -> (line: Line)
    ensures
        line@ == marked_text(text@, term@, mark),
{
    highlight_line(Line::raw(text), term, mark)
}

/// Marks every occurrence of a term in a line, whatever the case.
pub fn highlight_line(line: Line, term: &str, mark: Style) -> (out: Line)
    ensures
        out@ == highlighted_line(line@, term@, mark),
{
    let text = text_of_line(line.spans.as_slice());
    let len: usize = text.as_str().unicode_len();
    let ranges = highlight_ranges(text.as_str(), term);
    if ranges.len() == 0 {
        assert(ranges_view(ranges@).len() == 0);
        return line;
    }
    let ghost view = ranges_view(ranges@);
    let ghost whole = line_view(line.spans@);
    let mut spans: Vec<Span> = Vec::new();
    let mut start: usize = 0;
    let mut i: usize = 0;
    proof {
        assert(whole.take(0) =~= Seq::empty());
        assert(line_view(spans@) =~= Seq::empty());
    }
    while i < line.spans.len()
        invariant
            i <= line.spans@.len(),
            whole == line_view(line.spans@),
            view == ranges_view(ranges@),
            len == line_text(whole).len(),
            start == line_text(whole.take(i as int)).len(),
            line_view(spans@) == marked_runs(whole.take(i as int), view, mark),
        decreases line.spans@.len() - i,
    {
        proof {
            assert(whole.take(i + 1).drop_last() =~= whole.take(i as int));
            assert(whole.take(i + 1).last() == line.spans@[i as int]@);
            lemma_line_text_add(whole.take(i + 1), whole.skip(i + 1));
            assert(whole.take(i + 1) + whole.skip(i + 1) =~= whole);
        }
        start += mark_run(&line.spans[i], start, &ranges, mark, &mut spans);
        i += 1;
    }
    assert(whole.take(i as int) =~= whole);
    assert(view.len() > 0);
    Line { spans, style: line.style }
}

/// What is marked are occurrences of the term, from left to right, none over another;
/// and every occurrence begins inside of a marked one.
pub proof fn law_every_occurrence_is_found(s: Seq<char>, term: Seq<char>, at: int, p: int)
    requires
        term.len() > 0,
        0 <= at,
    ensures
        ({
            let found = occurrences(s, term, at);
            &&& forall|k: int|
                0 <= k < found.len() ==> occurs_at(s, term, #[trigger] found[k]) && found[k] >= at
            &&& forall|j: int, k: int|
                0 <= j < k < found.len() ==> #[trigger] found[j] + term.len() <= #[trigger] found[k]
            &&& p >= at && occurs_at(s, term, p) ==> exists|k: int|
                0 <= k < found.len() && #[trigger] found[k] <= p < found[k] + term.len()
        }),
    decreases s.len() - at,
{
    let found = occurrences(s, term, at);
    if at + term.len() <= s.len() {
        if occurs_at(s, term, at) {
            law_every_occurrence_is_found(s, term, at + term.len(), p);
            let rest = occurrences(s, term, at + term.len());
            assert(found =~= seq![at] + rest);
            assert forall|k: int| 0 <= k < found.len() implies occurs_at(
                s,
                term,
                #[trigger] found[k],
            ) && found[k] >= at by {
                if k > 0 {
                    assert(found[k] == rest[k - 1]);
                }
            }
            assert forall|j: int, k: int| 0 <= j < k < found.len() implies #[trigger] found[j]
                + term.len() <= #[trigger] found[k] by {
                assert(found[k] == rest[k - 1]);
                if j > 0 {
                    assert(found[j] == rest[j - 1]);
                }
            }
            if p >= at && occurs_at(s, term, p) {
                if p < at + term.len() {
                    assert(found[0] == at);
                } else {
                    let k = choose|k: int|
                        0 <= k < rest.len() && #[trigger] rest[k] <= p < rest[k] + term.len();
                    assert(found[k + 1] == rest[k]);
                }
            }
        } else {
            law_every_occurrence_is_found(s, term, at + 1, p);
            assert(found == occurrences(s, term, at + 1));
        }
    } else {
        assert(found.len() == 0);
    }
}

} // verus!
