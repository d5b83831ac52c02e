//! File picker state shared by both front ends.

use vstd::prelude::*;

use crate::num::{less_by, smaller};
use crate::seqs::{indices_where, lemma_indices_where};
use crate::text::{
    contains_text, control, lowercase_of, lowered, matches_ignoring_case, matches_term,
};

verus! {

/// Actions shared by the TUI and CLI file pickers.
#[derive(Clone, Copy, Debug, PartialEq, Eq, Hash, Structural)]
pub enum PickerAction {
    /// Delete the last character from the filter query.
    Delete,
    /// Open the currently selected file.
    Select,
    /// Move selection to the next match.
    Next,
    /// Move selection to the previous match.
    Prev,
    /// Cancel the picker without selecting a file.
    Quit,
    /// Append a typed character to the filter query.
    Input(char),
}

/// A Markdown file that can be opened.
pub struct MarkdownFile {
    pub path: String,
    /// The path as it is shown.
    pub display: String,
}

/// The file list, filter query, filtered matches, and current selection.
pub struct PickerState {
    pub files: Vec<MarkdownFile>,
    pub matches: Vec<usize>,
    pub query: String,
    pub selected: usize,
}

/// The files whose shown path contains the query, upper and lower case taken as
/// the same; all of them for the empty query.
pub open spec fn matching_files(files: Seq<MarkdownFile>, query: Seq<char>) -> Seq<usize> {
    indices_where(files.len(), |i: int| matches_term(files[i].display@, query))
}

impl PickerState {
    /// The matches are those of the query, and the selection is one of them
    /// (or the first place where there is none).
    pub open spec fn wf(&self) -> bool {
        &&& self.matches@ == matching_files(self.files@, self.query@)
        &&& self.selected == 0 || self.selected < self.matches@.len()
    }

    /// The state that an action leads to: typing and deleting change the query,
    /// moving changes the selection, which stays within the matches.
    pub open spec fn navigated(&self, before: PickerState, action: PickerAction) -> bool {
        &&& self.wf()
        &&& self.files == before.files
        &&& self.query@ == (match action {
            PickerAction::Input(ch) => if control(ch) {
                before.query@
            } else {
                before.query@.push(ch)
            },
            PickerAction::Delete => if before.query@.len() > 0 {
                before.query@.drop_last()
            } else {
                before.query@
            },
            _ => before.query@,
        })
        &&& self.selected == (match action {
            PickerAction::Next => smaller(
                before.selected + 1,
                less_by(before.matches@.len() as int, 1),
            ),
            PickerAction::Prev => less_by(before.selected as int, 1),
            _ => smaller(before.selected as int, less_by(self.matches@.len() as int, 1)),
        })
    }

    /// A picker over some files with an empty query.
    pub fn new(files: Vec<MarkdownFile>) -> (state: PickerState)
        ensures
            state.wf(),
            state.files == files,
            state.query@.len() == 0,
            state.selected == 0,
    {
        let mut state = PickerState {
            files,
            matches: Vec::new(),
            query: String::new(),
            selected: 0,
        };
        state.rebuild();
        state
    }

    /// Recomputes `matches` from `query` and clamps `selected`.
    pub fn rebuild(&mut self)
        ensures
            final(self).wf(),
            final(self).files == old(self).files,
            final(self).query == old(self).query,
            final(self).selected == smaller(
                old(self).selected as int,
                less_by(final(self).matches@.len() as int, 1),
            ),
    {
        self.matches = self.build_matches();
        self.selected = self.selected.min(self.matches.len().saturating_sub(1));
    }

    /// Returns indices into `files` whose display path contains `query`
    /// (case-insensitive). An empty query matches everything.
    pub fn build_matches(&self) -> (matches: Vec<usize>)
        ensures
            matches@ == matching_files(self.files@, self.query@),
    {
        let mut matches: Vec<usize> = Vec::new();
        let ghost keep = |i: int| matches_term(self.files@[i].display@, self.query@);
        let mut i: usize = 0;
        while i < self.files.len()
            invariant
                i <= self.files@.len(),
                keep == (|i: int| matches_term(self.files@[i].display@, self.query@)),
                matches@ == indices_where(i as nat, keep),
            decreases self.files@.len() - i,
        {
            if matches_ignoring_case(self.files[i].display.as_str(), self.query.as_str()) {
                matches.push(i);
            }
            i += 1;
        }
        matches
    }

    /// Returns the index into `files` of the currently selected match, or
    /// `None` if there are no matches.
    pub fn selected_file_idx(&self) -> (idx: Option<usize>)
        ensures
            idx == (if self.selected < self.matches@.len() {
                Some(self.matches@[self.selected as int])
            } else {
                None
            }),
    {
        if self.selected < self.matches.len() {
            Some(self.matches[self.selected])
        } else {
            None
        }
    }

    /// Handles navigation actions (`Input`, `Delete`, `Next`, `Prev`).
    ///
    /// Returns `true` if the action was a navigation action (and state may have
    /// changed), `false` for `Select` and `Quit` which the caller must handle.
    pub fn handle_navigation(&mut self, action: &PickerAction) -> (handled: bool)
        requires
            old(self).wf(),
        ensures
            final(self).navigated(*old(self), *action),
            handled == !(*action is Select || *action is Quit),
    {
        match action {
            PickerAction::Input(ch) => {
                let ch: char = *ch;
                if !ch.is_control() {
                    self.query.push(ch);
                    self.rebuild();
                }
                true
            },
            PickerAction::Delete => {
                self.query.pop();
                self.rebuild();
                true
            },
            PickerAction::Next => {
                let count: usize = self.matches.len();
                if count > 0 {
                    self.selected = (self.selected + 1).min(count.saturating_sub(1));
                }
                true
            },
            PickerAction::Prev => {
                self.selected = self.selected.saturating_sub(1);
                true
            },
            _ => false,
        }
    }
}

/// A selected match is an existing file, and one that matches the query.
pub proof fn law_selection_is_a_match(state: PickerState)
    requires
        state.wf(),
        state.selected < state.matches@.len(),
        state.files@.len() <= usize::MAX,
    ensures
        ({
            let file = state.matches@[state.selected as int];
            &&& file < state.files@.len()
            &&& matches_term(state.files@[file as int].display@, state.query@)
        }),
{
    let keep = |i: int| matches_term(state.files@[i].display@, state.query@);
    lemma_indices_where(state.files@.len(), keep);
    assert(keep(state.matches@[state.selected as int] as int));
}

/// Without a query every file matches, in order.
pub proof fn law_empty_query_matches_all(files: Seq<MarkdownFile>, i: int)
    requires
        0 <= i < files.len(),
        files.len() <= usize::MAX,
    ensures
        matching_files(files, Seq::empty()).len() == files.len(),
        matching_files(files, Seq::empty())[i] == i,
{
    let keep = |i: int| matches_term(files[i].display@, Seq::empty());
    lemma_all_indices(files.len(), keep, i);
}

proof fn lemma_all_indices(n: nat, keep: spec_fn(int) -> bool, i: int)
    requires
        n <= usize::MAX,
        0 <= i < n,
        forall|k: int| 0 <= k < n ==> #[trigger] keep(k),
    ensures
        indices_where(n, keep).len() == n,
        indices_where(n, keep)[i] == i,
    decreases n,
{
    assert(keep(n - 1));
    if n > 1 {
        if i < n - 1 {
            lemma_all_indices((n - 1) as nat, keep, i);
        } else {
            lemma_all_indices((n - 1) as nat, keep, 0);
        }
    } else {
        assert(indices_where(0, keep).len() == 0);
    }
}

impl PickerState {
    /// `Next` and `Prev` go to the neighbours and stop at the ends; one undoes the other.
    pub proof fn law_moves_go_to_the_neighbours(
        before: PickerState,
        next: PickerState,
        back: PickerState,
        prev: PickerState,
    )
        requires
            before.wf(),
            before.selected < before.matches@.len(),
            next.navigated(before, PickerAction::Next),
            back.navigated(next, PickerAction::Prev),
            prev.navigated(before, PickerAction::Prev),
        ensures
            before.selected + 1 < before.matches@.len() ==> next.selected == before.selected + 1
                && back.selected == before.selected,
            before.selected + 1 == before.matches@.len() ==> next.selected == before.selected,
            before.selected > 0 ==> prev.selected == before.selected - 1,
            before.selected == 0 ==> prev.selected == 0,
            next.matches@ == before.matches@,
            next.query@ == before.query@,
    {
    }

    /// Deleting undoes typing, and a file is offered exactly where the query stands in
    /// what is shown of it, upper and lower case taken as the same.
    pub proof fn law_typing_filters(
        before: PickerState,
        typed: PickerState,
        deleted: PickerState,
        c: char,
        i: usize,
    )
        requires
            !control(c),
            i < typed.files@.len() <= usize::MAX,
            typed.navigated(before, PickerAction::Input(c)),
            deleted.navigated(typed, PickerAction::Delete),
        ensures
            deleted.query@ == before.query@,
            typed.query@.len() == before.query@.len() + 1,
            typed.query@.last() == c,
            typed.matches@.contains(i) <==> contains_text(
                lowercase_of(typed.files@[i as int].display@),
                lowered(typed.query@),
            ),
    {
        assert(before.query@.push(c).drop_last() =~= before.query@);
        let keep = |k: int| matches_term(typed.files@[k].display@, typed.query@);
        lemma_indices_where(typed.files@.len(), keep);
        let found = indices_where(typed.files@.len(), keep);
        assert(found == typed.matches@);
        let at = i as int;
        if keep(at) {
            assert(found.contains(at as usize));
        }
        if found.contains(i) {
            let k = found.index_of(i);
            assert(found[k] == i);
        }
    }
}

} // verus!
