//! Text search across code block output.

use vstd::prelude::*;

use crate::num::{less_by, smaller};
use crate::text::{decimal, decimal_text};

verus! {

/// The search term and the place within its matches.
pub struct Search {
    term: String,
    index: usize,
    total: usize,
}

#[derive(Clone, Copy, Debug, PartialEq, Eq, Hash, Structural)]
pub enum Action {
    /// Deletes the last character from the search query.
    Delete,
    /// Selects the current search match and exits search mode.
    Select,
    /// Moves to the next search result.
    Next,
    /// Moves to the previous search result.
    Prev,
    /// Exits search mode without selecting.
    Quit,
    /// Appends a character to the search query.
    Input(char),
}

/// The contents of a search.
pub struct SearchView {
    pub term: Seq<char>,
    /// Place within the matches, from zero.
    pub index: int,
    /// Number of matches.
    pub total: int,
}

impl View for Search {
    type V = SearchView;

    closed spec fn view(&self) -> SearchView {
        SearchView { term: self.term@, index: self.index as int, total: self.total as int }
    }
}

impl SearchView {
    /// Nothing searched yet.
    pub open spec fn empty() -> SearchView {
        SearchView { term: Seq::empty(), index: 0, total: 0 }
    }

    /// The place that is shown: from one where there are matches.
    pub open spec fn shown_index(self) -> int {
        if self.total > 0 {
            smaller(self.index + 1, usize::MAX as int)
        } else {
            self.index
        }
    }

    /// Some matches were found: the place stays within them.
    pub open spec fn found(self, count: int) -> SearchView {
        SearchView { index: smaller(self.index, less_by(count, 1)), total: count, ..self }
    }

    /// An action was taken.
    pub open spec fn updated(self, action: Action) -> SearchView {
        match action {
            Action::Input(c) => SearchView { term: self.term.push(c), ..self },
            Action::Delete => SearchView {
                term: if self.term.len() > 0 {
                    self.term.drop_last()
                } else {
                    self.term
                },
                ..self
            },
            Action::Next => SearchView {
                index: smaller(self.index + 1, usize::MAX as int),
                ..self
            },
            Action::Prev => SearchView { index: less_by(self.index, 1), ..self },
            Action::Select | Action::Quit => self,
        }
    }

    /// The search as it is shown: term, place and number of matches.
    pub open spec fn footer(self) -> Seq<char> {
        "'"@ + self.term + "' "@ + decimal_text(self.shown_index() as nat) + "/"@ + decimal_text(
            self.total as nat,
        )
    }
}

impl Search {
    /// A search without a term.
    pub fn new() -> (search: Search)
        ensures
            search@ == SearchView::empty(),
    {
        let search = Search { term: String::new(), index: 0, total: 0 };
        assert(search@.term =~= Seq::empty());
        search
    }

    /// The term of a search; none without one.
    pub open spec fn term_in(search: Option<Search>) -> Seq<char> {
        match search {
            Some(search) => search@.term,
            None => Seq::empty(),
        }
    }

    /// The term of a search; none without one.
    pub fn term_of(search: &Option<Search>) -> (term: String)
        ensures
            term@ == Search::term_in(*search),
    {
        match search {
            Some(search) => search.term().to_owned(),
            None => {
                proof {
                    reveal_strlit("");
                    assert(""@ =~= Seq::empty());
                }
                "".to_owned()
            },
        }
    }

    pub fn term(&self) -> (term: &str)
        ensures
            term@ == self@.term,
    {
        self.term.as_str()
    }

    /// The place that is shown.
    pub fn index(&self) -> (index: usize)
        ensures
            index == self@.shown_index(),
    {
        if self.total > 0 {
            self.index.saturating_add(1)
        } else {
            self.index
        }
    }

    pub fn total(&self) -> (total: usize)
        ensures
            total == self@.total,
    {
        self.total
    }

    /// Takes over the matches and returns the current one.
    pub fn search<'a, T>(&mut self, items: &'a [T]) -> (found: Option<&'a T>)
        ensures
            final(self)@ == old(self)@.found(items@.len() as int),
            found is Some <==> items@.len() > 0,
            found matches Some(item) ==> *item == items@[final(self)@.index],
    {
        if items.len() == 0 {
            self.index = 0;
            self.total = 0;
            return None;
        }
        self.total = items.len();
        self.index = self.index.min(self.total.saturating_sub(1));
        Some(&items[self.index])
    }

    /// The footer lists the key of an action.
    pub fn lists(action: Action) -> (listed: bool)
        ensures
            listed == (action is Quit || action is Select),
    {
        matches!(action, Action::Quit | Action::Select)
    }

    /// The search as it is shown: term, place and number of matches.
    pub fn footer_line(&self) -> (line: String)
        ensures
            line@ == self@.footer(),
    {
        let mut line = "'".to_owned();
        line.append(self.term.as_str());
        line.append("' ");
        line.append(decimal(self.index() as u64).as_str());
        line.append("/");
        line.append(decimal(self.total as u64).as_str());
        line
    }

    /// Takes an action; the owner acts on `Select` and `Quit`, which are handed
    /// back.
    pub fn update(&mut self, action: Action) -> (outcome: Option<Action>)
        ensures
            final(self)@ == old(self)@.updated(action),
            outcome == (if action is Select || action is Quit {
                Some(action)
            } else {
                None
            }),
    {
        match action {
            Action::Input(c) => {
                self.term.push(c);
                None
            },
            Action::Delete => {
                self.term.pop();
                None
            },
            Action::Next => {
                self.index = self.index.saturating_add(1);
                None
            },
            Action::Prev => {
                self.index = self.index.saturating_sub(1);
                None
            },
            Action::Select => Some(Action::Select),
            Action::Quit => Some(Action::Quit),
        }
    }
}

/// Deleting undoes typing.
pub proof fn law_delete_undoes_input(state: SearchView, c: char)
    ensures
        state.updated(Action::Input(c)).updated(Action::Delete) == state,
{
    assert(state.term.push(c).drop_last() =~= state.term);
}

/// The place stays within the matches, however far an action moves it.
pub proof fn law_index_stays_inside(state: SearchView, action: Action, count: int)
    requires
        0 <= state.index <= usize::MAX,
        count > 0,
    ensures
        0 <= state.updated(action).found(count).index < count,
        1 <= state.updated(action).found(count).shown_index() <= count,
{
}

/// Going back undoes going on, wherever there is a match after this one.
pub proof fn law_prev_undoes_next(state: SearchView)
    requires
        0 <= state.index,
        state.index + 1 < state.total <= usize::MAX,
    ensures
        state.updated(Action::Next).updated(Action::Prev) == state,
        state.updated(Action::Next).found(state.total).updated(Action::Prev).found(state.total)
            == state,
        state.updated(Action::Next) != state,
{
}

/// `Next` selects the match just after this one, `Prev` the one just before it; at the
/// last and at the first match nothing moves. What is shown counts from one.
pub proof fn law_steps_go_to_the_neighbours(state: SearchView, count: int)
    requires
        0 <= state.index < count <= usize::MAX,
    ensures
        state.updated(Action::Next).found(count).index - state.index == (if state.index == count
            - 1 {
            0int
        } else {
            1
        }),
        state.index - state.updated(Action::Prev).found(count).index == (if state.index == 0 {
            0int
        } else {
            1
        }),
        state.found(count).index == state.index,
        state.found(count).shown_index() - state.index == 1,
        state.found(count).total == count,
{
}

/// Only typing changes the term, and only moving changes the place.
pub proof fn law_typing_and_moving_are_apart(state: SearchView, action: Action)
    ensures
        state.updated(action).total == state.total,
        !(action is Input) && !(action is Delete) ==> state.updated(action).term == state.term,
        !(action is Next) && !(action is Prev) ==> state.updated(action).index == state.index,
        action matches Action::Input(c) ==> state.updated(action).term.len() == state.term.len() + 1
            && state.updated(action).term.last() == c && state.updated(action).term.take(
            state.term.len() as int,
        ) == state.term,
{
    if let Action::Input(c) = action {
        assert(state.term.push(c).take(state.term.len() as int) =~= state.term);
    }
}

impl Search {
    /// The place and the number of matches are not negative.
    pub proof fn law_counts_are_natural(&self)
        ensures
            0 <= self@.index <= usize::MAX,
            0 <= self@.total <= usize::MAX,
    {
    }
}

} // verus!
