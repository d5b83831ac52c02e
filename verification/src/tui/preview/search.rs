//! Search in the preview.

use vstd::prelude::*;

use crate::seqs::indices_where;
use crate::text::{
    ascii_upper, contains, contains_text, is_ascii, law_longer_terms_are_rarer,
    law_upper_case_is_the_same_term, lowercase, lowercase_of, lowered, strings_view,
};
use crate::tui::markdown::line::{lines_wf, logical_views, LogicalLine, LogicalView};
use crate::tui::preview::layout_lines::LayoutLine;

verus! {

/// The search term, and the text of each line in lower case.
pub struct PreviewSearch {
    pub term: Option<String>,
    pub logical_texts: Vec<String>,
}

/// The texts of lines in lower case.
#[verifier::opaque]
pub open spec fn lower_texts(lines: Seq<LogicalView>) -> Seq<Seq<char>> {
    lines.map_values(|line: LogicalView| lowercase_of(line.content_text()))
}

/// Lines with the same texts are searched alike.
pub proof fn lemma_same_texts(a: Seq<LogicalView>, b: Seq<LogicalView>)
    requires
        a.len() == b.len(),
        forall|i: int|
            0 <= i < a.len() ==> (#[trigger] a[i]).content_text() == b[i].content_text(),
    ensures
        lower_texts(a) == lower_texts(b),
{
    reveal(lower_texts);
    assert(lower_texts(a) =~= lower_texts(b));
}

/// The term that is searched for.
pub open spec fn term_view(term: Option<String>) -> Option<Seq<char>> {
    match term {
        Some(term) => Some(term@),
        None => None,
    }
}

/// A row of a line that holds the term, whatever the case.
pub open spec fn row_matches(texts: Seq<Seq<char>>, term: Seq<char>, row: LayoutLine) -> bool {
    row.logical_idx < texts.len() && contains_text(
        texts[row.logical_idx as int],
        lowered(term),
    )
}

/// The rows of lines that hold the term.
pub open spec fn matching_rows(
    texts: Seq<Seq<char>>,
    term: Option<Seq<char>>,
    rows: Seq<LayoutLine>,
) -> Seq<usize> {
    match term {
        Some(term) => indices_where(rows.len(), |i: int| row_matches(texts, term, rows[i])),
        None => Seq::empty(),
    }
}

impl Default for PreviewSearch {
    fn default() -> (search: PreviewSearch)
        ensures
            search.term is None,
            search.logical_texts@.len() == 0,
    {
        PreviewSearch::new()
    }
}

impl PreviewSearch {
    /// No search.
    pub fn new() -> (search: PreviewSearch)
        ensures
            search.term is None,
            search.logical_texts@.len() == 0,
    {
        PreviewSearch { term: None, logical_texts: Vec::new() }
    }

    /// Searches for a term; an empty one ends the search.
    pub fn set_term(&mut self, term: &str)
        ensures
            term_view(final(self).term) == (if term@.len() == 0 {
                None
            } else {
                Some(term@)
            }),
            final(self).logical_texts == old(self).logical_texts,
    {
        self.term = if term.is_empty() {
            None
        } else {
            Some(term.to_owned())
        };
    }

    /// Takes over the texts of lines.
    pub fn rebuild_texts(&mut self, logical_lines: &Vec<LogicalLine>)
        requires
            lines_wf(logical_lines@),
        ensures
            strings_view(final(self).logical_texts@) == lower_texts(logical_views(logical_lines@)),
            final(self).term == old(self).term,
    {
        let ghost views = logical_views(logical_lines@);
        proof {
            reveal(lower_texts);
        }
        let ghost goal = lower_texts(views);
        let mut texts: Vec<String> = Vec::new();
        let mut i: usize = 0;
        assert(strings_view(texts@) =~= goal.take(0));
        while i < logical_lines.len()
            invariant
                i <= logical_lines@.len(),
                lines_wf(logical_lines@),
                views == logical_views(logical_lines@),
                goal == lower_texts(views),
                strings_view(texts@) == goal.take(i as int),
            decreases logical_lines@.len() - i,
        {
            let content = logical_lines[i].text_content();
            let text = lowercase(content.as_str());
            let ghost before = strings_view(texts@);
            let ghost shown = text@;
            texts.push(text);
            proof {
                reveal(lower_texts);
                assert(strings_view(texts@) =~= before.push(shown));
                assert(views[i as int] == logical_lines@[i as int]@);
                assert(goal[i as int] == shown);
                assert(goal.take(i + 1) =~= goal.take(i as int).push(shown));
            }
            i += 1;
        }
        assert(goal.take(i as int) =~= goal);
        self.logical_texts = texts;
    }

    /// The rows of lines that hold the term, whatever the case.
    pub fn matches(&self, layout_lines: &Vec<LayoutLine>) -> (rows: Vec<usize>)
        ensures
            rows@ == matching_rows(
                strings_view(self.logical_texts@),
                term_view(self.term),
                layout_lines@,
            ),
    {
        let mut rows: Vec<usize> = Vec::new();
        let term = match &self.term {
            Some(term) => lowercase(term.as_str()),
            None => {
                assert(rows@ =~= Seq::empty());
                return rows;
            },
        };
        let ghost texts = strings_view(self.logical_texts@);
        let ghost wanted = term_view(self.term)->0;
        let ghost keep = |i: int| row_matches(texts, wanted, layout_lines@[i]);
        let mut i: usize = 0;
        while i < layout_lines.len()
            invariant
                i <= layout_lines@.len(),
                texts == strings_view(self.logical_texts@),
                term@ == lowered(wanted),
                keep == (|i: int| row_matches(texts, wanted, layout_lines@[i])),
                rows@ == indices_where(i as nat, keep),
            decreases layout_lines@.len() - i,
        {
            let logical = layout_lines[i].logical_idx;
            let found = logical < self.logical_texts.len() && contains(
                self.logical_texts[logical].as_str(),
                term.as_str(),
            );
            proof {
                assert(texts.len() == self.logical_texts@.len());
                if logical < texts.len() {
                    assert(texts[logical as int] == self.logical_texts@[logical as int]@);
                }
                assert(found == keep(i as int));
            }
            if found {
                rows.push(i);
            }
            i += 1;
        }
        rows
    }

    /// The term that is searched for.
    pub fn term(&self) -> (term: Option<&str>)
        ensures
            term is Some <==> self.term is Some,
            term matches Some(t) ==> t@ == self.term->0@,
    {
        match &self.term {
            Some(term) => Some(term.as_str()),
            None => None,
        }
    }
}

/// Every row that is found shows a line with the term, in ascending order, and no
/// such row is missed.
pub proof fn law_search_finds_all(texts: Seq<Seq<char>>, term: Seq<char>, rows: Seq<LayoutLine>)
    requires
        rows.len() <= usize::MAX,
    ensures
        ({
            let found = matching_rows(texts, Some(term), rows);
            &&& forall|i: int|
                0 <= i < rows.len() && row_matches(texts, term, rows[i])
                    ==> #[trigger] found.contains(i as usize)
            &&& forall|k: int|
                0 <= k < found.len() ==> (#[trigger] found[k]) < rows.len() && row_matches(
                    texts,
                    term,
                    rows[found[k] as int],
                )
            &&& forall|j: int, k: int|
                0 <= j < k < found.len() ==> (#[trigger] found[j]) < (#[trigger] found[k])
        }),
{
    crate::seqs::lemma_indices_where(
        rows.len(),
        |i: int| row_matches(texts, term, rows[i]),
    );
}

/// An ASCII term finds the same rows in upper case.
pub proof fn law_upper_case_finds_the_same_rows(
    texts: Seq<Seq<char>>,
    term: Seq<char>,
    rows: Seq<LayoutLine>,
)
    requires
        is_ascii(term),
    ensures
        matching_rows(texts, Some(ascii_upper(term)), rows) == matching_rows(
            texts,
            Some(term),
            rows,
        ),
{
    law_upper_case_is_the_same_term(term);
    assert((|i: int| row_matches(texts, ascii_upper(term), rows[i])) =~= (|i: int|
        row_matches(texts, term, rows[i])));
}

/// A row that shows a longer ASCII term is among those of its start.
pub proof fn law_longer_terms_find_fewer_rows(
    texts: Seq<Seq<char>>,
    term: Seq<char>,
    more: Seq<char>,
    row: LayoutLine,
)
    requires
        is_ascii(term),
        is_ascii(more),
        row_matches(texts, term + more, row),
    ensures
        row_matches(texts, term, row),
{
    law_longer_terms_are_rarer(texts[row.logical_idx as int], term, more);
}

} // verus!
