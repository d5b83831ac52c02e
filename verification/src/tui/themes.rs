//! Searchable table for switching application themes.

use vstd::prelude::*;

use super::envs::{
    circle_next, circle_prev, law_circles_close, next_in_circle, prev_in_circle,
};
use super::markdown::marks::{mark_text, marked_text};
use super::search::{Action as SearchAction, Search, SearchView};
use crate::navigation::Navigation;
use crate::seqs::{indices_where, lemma_indices_where};
use crate::style::{bold_only, line_view, plain, Color, Line, Span, Style};
use crate::text::{contains, contains_text, lowercase, lowercase_of, same_text};
use crate::theme::{is_test, shortcuts_line, Theme};
use crate::theme_library::ThemeLibrary;

verus! {

/// The themes with their selection and filter.
pub struct ThemeSelector {
    pub selected: Option<usize>,
    pub route: Route,
    pub search: Option<Search>,
    pub items: Vec<Item>,
    /// The theme that was current when the table was opened.
    pub original_theme: String,
    /// Wheel steps since the selection last moved; negative for upward ones.
    pub scroll_acc: i32,
}

#[derive(Clone, Copy, Debug, PartialEq, Eq, Hash, Structural)]
pub enum MainAction {
    /// Quit theme list
    Quit,
    /// Enter search mode
    Search,
    /// Select the current theme
    Select,
}

/// What keys do to the table.
#[derive(Clone, Copy, Debug, PartialEq, Eq, Hash, Structural)]
pub enum Route {
    List,
    Search,
}

/// A theme of the table.
pub struct Item {
    pub name: String,
    /// The theme matches the filter.
    pub show: bool,
}

#[derive(Clone, Copy, Debug, PartialEq, Eq, Structural)]
pub enum Action {
    Main(MainAction),
    Search(SearchAction),
    Navigation(Navigation),
    ScrollUp,
    ScrollDown,
}

/// What the table asks of its owner, with the name of a theme.
pub enum Outcome {
    /// Show the theme for now.
    Preview(String),
    /// Take the theme.
    Select(String),
    /// Go back to the theme.
    Restore(String),
}

/// What the table asks of its owner.
pub enum OutcomeView {
    Preview(Seq<char>),
    Select(Seq<char>),
    Restore(Seq<char>),
}

/// The contents of an outcome that may be missing.
pub open spec fn outcome_view(outcome: Option<Outcome>) -> Option<OutcomeView> {
    match outcome {
        Some(Outcome::Preview(name)) => Some(OutcomeView::Preview(name@)),
        Some(Outcome::Select(name)) => Some(OutcomeView::Select(name@)),
        Some(Outcome::Restore(name)) => Some(OutcomeView::Restore(name@)),
        None => None,
    }
}

/// The places of the themes that match the filter.
pub open spec fn shown_places(items: Seq<Item>) -> Seq<usize> {
    indices_where(items.len(), |i: int| items[i].show)
}

/// The selection after one move to the next theme, in a circle.
pub open spec fn next_of(selected: Option<usize>, len: int) -> Option<usize> {
    if len == 0 {
        selected
    } else {
        match selected {
            Some(i) => Some(circle_next(i as int, len) as usize),
            None => Some(0),
        }
    }
}

/// The selection after one move to the previous theme, in a circle.
pub open spec fn prev_of(selected: Option<usize>, len: int) -> Option<usize> {
    if len == 0 {
        selected
    } else {
        match selected {
            Some(i) => Some(circle_prev(i as int, len) as usize),
            None => Some(0),
        }
    }
}

/// The selection after several moves in one direction.
pub open spec fn moved_by(selected: Option<usize>, len: int, forward: bool, times: nat) -> Option<
    usize,
>
    decreases times,
{
    if times == 0 {
        selected
    } else {
        let before = moved_by(selected, len, forward, (times - 1) as nat);
        if forward {
            next_of(before, len)
        } else {
            prev_of(before, len)
        }
    }
}

/// Where a move leads in a table of `len` themes; a page is ten.
pub open spec fn navigated(selected: Option<usize>, len: int, nav: Navigation) -> Option<usize> {
    match nav {
        Navigation::First => if len > 0 {
            Some(0)
        } else {
            selected
        },
        Navigation::Last => if len > 0 {
            Some((len - 1) as usize)
        } else {
            selected
        },
        Navigation::Next => moved_by(selected, len, true, 1),
        Navigation::Prev => moved_by(selected, len, false, 1),
        Navigation::PageUp => moved_by(selected, len, false, 10),
        Navigation::PageDown => moved_by(selected, len, true, 10),
    }
}

/// The place of a theme with a name, or the first, or none in an empty table.
pub open spec fn place_of_theme(items: Seq<Item>, name: Seq<char>, place: Option<usize>) -> bool {
    match place {
        None => items.len() == 0,
        Some(at) => {
            &&& at < items.len()
            &&& items[at as int].name@ == name || (at == 0 && forall|i: int|
                0 <= i < items.len() ==> (#[trigger] items[i]).name@ != name)
            &&& forall|i: int| 0 <= i < at ==> (#[trigger] items[i]).name@ != name
        },
    }
}

impl ThemeSelector {
    pub open spec fn wf(&self) -> bool {
        &&& self.items@.len() <= usize::MAX
        &&& -3 < self.scroll_acc < 3
    }

    /// The table of some themes, with the current one selected.
    pub fn new(names: Vec<String>, current: &str) -> (selector: ThemeSelector)
        ensures
            selector.wf(),
            selector.items@.len() == names@.len(),
            forall|i: int|
                0 <= i < names@.len() ==> (#[trigger] selector.items@[i]).name == names@[i]
                    && selector.items@[i].show,
            place_of_theme(selector.items@, current@, selector.selected),
            selector.route == Route::List,
            selector.search is None,
            selector.original_theme@ == current@,
            selector.scroll_acc == 0,
    {
        let mut items: Vec<Item> = Vec::new();
        let mut selected: Option<usize> = None;
        let count: usize = names.len();
        let mut i: usize = 0;
        let ghost all = names@;
        let mut rest = names;
        while i < count
            invariant
                i <= count,
                count == all.len(),
                items@.len() == i,
                rest@ == all.skip(i as int),
                forall|k: int|
                    0 <= k < i ==> (#[trigger] items@[k]).name == all[k] && items@[k].show,
                match selected {
                    None => forall|k: int| 0 <= k < i ==> (#[trigger] all[k])@ != current@,
                    Some(at) => at < i && all[at as int]@ == current@ && forall|k: int|
                        0 <= k < at ==> (#[trigger] all[k])@ != current@,
                },
            decreases count - i,
        {
            let name = rest.remove(0);
            assert(rest@ =~= all.skip(i + 1));
            assert(name == all[i as int]);
            if selected.is_none() && same_text(name.as_str(), current) {
                selected = Some(i);
            }
            items.push(Item { name, show: true });
            i += 1;
        }
        if selected.is_none() && count > 0 {
            selected = Some(0);
        }
        ThemeSelector {
            selected,
            route: Route::List,
            search: None,
            items,
            original_theme: current.to_owned(),
            scroll_acc: 0,
        }
    }

    /// The places of the themes that match the filter.
    pub fn active_items(&self) -> (places: Vec<usize>)
        requires
            self.wf(),
        ensures
            places@ == shown_places(self.items@),
            forall|k: int|
                0 <= k < places@.len() ==> (#[trigger] places@[k]) < self.items@.len(),
    {
        let ghost keep = |i: int| self.items@[i].show;
        let mut places: Vec<usize> = Vec::new();
        let mut i: usize = 0;
        while i < self.items.len()
            invariant
                i <= self.items@.len(),
                keep == (|i: int| self.items@[i].show),
                places@ == indices_where(i as nat, keep),
            decreases self.items@.len() - i,
        {
            if self.items[i].show {
                places.push(i);
            }
            i += 1;
        }
        proof {
            lemma_indices_where(self.items@.len(), keep);
        }
        places
    }

    /// The name of the selected theme.
    pub open spec fn selected_name(&self) -> Option<Seq<char>> {
        let places = shown_places(self.items@);
        if self.selected is Some && self.selected->0 < places.len() {
            Some(self.items@[places[self.selected->0 as int] as int].name@)
        } else {
            None
        }
    }

    /// The name of the selected theme.
    pub fn selected_theme(&self) -> (name: Option<String>)
        requires
            self.wf(),
        ensures
            match name {
                Some(n) => self.selected_name() == Some(n@),
                None => self.selected_name() is None,
            },
    {
        let places = self.active_items();
        if let Some(at) = self.selected {
            if at < places.len() {
                return Some(self.items[places[at]].name.clone());
            }
        }
        None
    }

    /// Everything but the selection is as `before`.
    pub open spec fn same_but_selected(&self, before: &ThemeSelector) -> bool {
        &&& self.route == before.route
        &&& self.search == before.search
        &&& self.items == before.items
        &&& self.original_theme == before.original_theme
        &&& self.scroll_acc == before.scroll_acc
    }

    fn move_by(&mut self, forward: bool, times: usize)
        requires
            old(self).wf(),
        ensures
            final(self).wf(),
            final(self).same_but_selected(old(self)),
            final(self).selected == moved_by(
                old(self).selected,
                shown_places(old(self).items@).len() as int,
                forward,
                times as nat,
            ),
    {
        let len: usize = self.active_items().len();
        let mut i: usize = 0;
        while i < times
            invariant
                i <= times,
                self.wf(),
                self.same_but_selected(old(self)),
                len == shown_places(old(self).items@).len(),
                self.selected == moved_by(old(self).selected, len as int, forward, i as nat),
            decreases times - i,
        {
            if len > 0 {
                let to: usize = match self.selected {
                    Some(at) => if forward {
                        next_in_circle(at, len)
                    } else {
                        prev_in_circle(at, len)
                    },
                    None => 0,
                };
                self.selected = Some(to);
            }
            i += 1;
        }
    }

    /// Moves the selection.
    pub fn navigate(&mut self, nav: Navigation)
        requires
            old(self).wf(),
        ensures
            final(self).wf(),
            final(self).same_but_selected(old(self)),
            final(self).selected == navigated(
                old(self).selected,
                shown_places(old(self).items@).len() as int,
                nav,
            ),
    {
        match nav {
            Navigation::First => {
                if self.active_items().len() > 0 {
                    self.selected = Some(0);
                }
            },
            Navigation::Last => {
                let len: usize = self.active_items().len();
                if len > 0 {
                    self.selected = Some(len - 1);
                }
            },
            Navigation::Prev => self.move_by(false, 1),
            Navigation::Next => self.move_by(true, 1),
            Navigation::PageUp => self.move_by(false, 10),
            Navigation::PageDown => self.move_by(true, 10),
        }
    }

    /// What asks the owner to show the selected theme.
    pub open spec fn preview_of(&self) -> Option<OutcomeView> {
        match self.selected_name() {
            Some(name) => Some(OutcomeView::Preview(name)),
            None => None,
        }
    }

    fn preview_selected(&self) -> (outcome: Option<Outcome>)
        requires
            self.wf(),
        ensures
            outcome_view(outcome) == self.preview_of(),
    {
        match self.selected_theme() {
            Some(name) => Some(Outcome::Preview(name)),
            None => None,
        }
    }

    fn select_selected(&self) -> (outcome: Option<Outcome>)
        requires
            self.wf(),
        ensures
            outcome_view(outcome) == (match self.selected_name() {
                Some(name) => Some(OutcomeView::Select(name)),
                None => None,
            }),
    {
        match self.selected_theme() {
            Some(name) => Some(Outcome::Select(name)),
            None => None,
        }
    }

    /// The lower-case form of the search term, empty without a search.
    pub open spec fn filter(&self) -> Seq<char> {
        match self.search {
            Some(search) => lowercase_of(search@.term),
            None => Seq::empty(),
        }
    }

    /// The themes of `before` with those shown that contain the filter.
    pub open spec fn filtered(&self, before: Seq<Item>, filter: Seq<char>) -> bool {
        &&& self.items@.len() == before.len()
        &&& forall|i: int|
            0 <= i < before.len() ==> (#[trigger] self.items@[i]).name@ == before[i].name@
                && self.items@[i].show == (filter.len() == 0 || contains_text(
                lowercase_of(before[i].name@),
                filter,
            ))
        &&& self.selected == if shown_places(self.items@).len() == 0 {
            None
        } else {
            Some(0usize)
        }
    }

    /// Applies the search term to the table; the first match is selected.
    fn search_items(&mut self)
        requires
            old(self).wf(),
        ensures
            final(self).wf(),
            final(self).route == old(self).route,
            final(self).search == old(self).search,
            final(self).original_theme == old(self).original_theme,
            final(self).scroll_acc == old(self).scroll_acc,
            final(self).filtered(old(self).items@, old(self).filter()),
    {
        let filter = match &self.search {
            Some(search) => lowercase(search.term()),
            None => String::new(),
        };
        assert(filter@ =~= self.filter());
        let mut i: usize = 0;
        let ghost before = self.items@;
        while i < self.items.len()
            invariant
                i <= self.items@.len(),
                self.items@.len() == before.len(),
                self.items@.len() <= usize::MAX,
                -3 < self.scroll_acc < 3,
                self.route == old(self).route,
                self.search == old(self).search,
                self.original_theme == old(self).original_theme,
                self.scroll_acc == old(self).scroll_acc,
                before == old(self).items@,
                forall|k: int|
                    0 <= k < before.len() ==> (#[trigger] self.items@[k]).name@ == before[k].name@,
                forall|k: int|
                    0 <= k < i ==> (#[trigger] self.items@[k]).show == (filter@.len() == 0
                        || contains_text(lowercase_of(before[k].name@), filter@)),
            decreases self.items@.len() - i,
        {
            let show = filter.as_str().is_empty() || contains(
                lowercase(self.items[i].name.as_str()).as_str(),
                filter.as_str(),
            );
            let name = self.items[i].name.clone();
            self.items.set(i, Item { name, show });
            i += 1;
        }
        self.selected = if self.active_items().len() == 0 {
            None
        } else {
            Some(0)
        };
    }

    /// What an action on the list leads to.
    pub open spec fn list_applied(
        &self,
        before: &ThemeSelector,
        action: MainAction,
        outcome: Option<OutcomeView>,
    ) -> bool {
        &&& self.items == before.items
        &&& self.selected == before.selected
        &&& self.original_theme == before.original_theme
        &&& self.scroll_acc == before.scroll_acc
        &&& if action is Search {
            self.route == Route::Search && (self.search matches Some(search) && search@
                == SearchView::empty())
        } else {
            self.route == before.route && self.search == before.search
        }
        &&& outcome == (match action {
            MainAction::Quit => Some(OutcomeView::Restore(before.original_theme@)),
            MainAction::Search => None,
            MainAction::Select => match before.selected_name() {
                Some(name) => Some(OutcomeView::Select(name)),
                None => None,
            },
        })
    }

    /// Takes an action on the list.
    pub fn update_list(&mut self, action: MainAction) -> (outcome: Option<Outcome>)
        requires
            old(self).wf(),
        ensures
            final(self).wf(),
            final(self).list_applied(old(self), action, outcome_view(outcome)),
    {
        match action {
            MainAction::Quit => Some(Outcome::Restore(self.original_theme.clone())),
            MainAction::Search => {
                self.search = Some(Search::new());
                self.route = Route::Search;
                None
            },
            MainAction::Select => self.select_selected(),
        }
    }

    /// What an action of the search leads to.
    pub open spec fn search_applied(
        &self,
        before: &ThemeSelector,
        action: SearchAction,
        outcome: Option<OutcomeView>,
    ) -> bool {
        &&& self.original_theme == before.original_theme
        &&& self.scroll_acc == before.scroll_acc
        &&& match action {
            SearchAction::Prev => {
                &&& self.same_but_selected(before)
                &&& self.selected == navigated(
                    before.selected,
                    shown_places(before.items@).len() as int,
                    Navigation::Prev,
                )
                &&& outcome == self.preview_of()
            },
            SearchAction::Next => {
                &&& self.same_but_selected(before)
                &&& self.selected == navigated(
                    before.selected,
                    shown_places(before.items@).len() as int,
                    Navigation::Next,
                )
                &&& outcome == self.preview_of()
            },
            SearchAction::Quit => {
                &&& self.search is None
                &&& self.route == Route::List
                &&& self.filtered(before.items@, Seq::empty())
                &&& outcome is None
            },
            SearchAction::Select => {
                &&& *self == *before
                &&& outcome == (match before.selected_name() {
                    Some(name) => Some(OutcomeView::Select(name)),
                    None => None,
                })
            },
            SearchAction::Input(_) | SearchAction::Delete => {
                &&& self.route == before.route
                &&& self.filtered(before.items@, self.filter())
                &&& outcome == self.preview_of()
                &&& match before.search {
                    None => self.search is None,
                    Some(before) => self.search matches Some(after) && after@
                        == before@.updated(action).found(
                        if before@.updated(action).term.len() == 0 {
                            0
                        } else {
                            shown_places(self.items@).len() as int
                        },
                    ),
                }
            },
        }
    }

    /// Takes an action of the search.
    pub fn update_search(&mut self, action: SearchAction) -> (outcome: Option<Outcome>)
        requires
            old(self).wf(),
        ensures
            final(self).wf(),
            final(self).search_applied(old(self), action, outcome_view(outcome)),
    {
        match action {
            SearchAction::Prev => {
                self.navigate(Navigation::Prev);
                return self.preview_selected();
            },
            SearchAction::Next => {
                self.navigate(Navigation::Next);
                return self.preview_selected();
            },
            SearchAction::Quit => {
                self.search = None;
                self.route = Route::List;
                self.search_items();
                return None;
            },
            SearchAction::Select => {
                return self.select_selected();
            },
            SearchAction::Input(_) | SearchAction::Delete => {},
        }
        if let Some(mut search) = self.search.take() {
            search.update(action);
            self.search = Some(search);
        }
        self.search_items();
        if let Some(mut search) = self.search.take() {
            if search.term().is_empty() {
                let none: [u8; 0] = [];
                search.search(none.as_slice());
            } else {
                let active = self.active_items();
                search.search(active.as_slice());
            }
            self.search = Some(search);
        }
        self.preview_selected()
    }

    /// What a step of the wheel leads to: the selection moves at every third one.
    pub open spec fn scroll_applied(
        &self,
        before: &ThemeSelector,
        forward: bool,
        outcome: Option<OutcomeView>,
    ) -> bool {
        let acc = before.scroll_acc + if forward {
            1int
        } else {
            -1int
        };
        &&& self.route == before.route
        &&& self.search == before.search
        &&& self.items == before.items
        &&& self.original_theme == before.original_theme
        &&& if (forward && acc >= 3) || (!forward && acc <= -3) {
            &&& self.scroll_acc == 0
            &&& self.selected == moved_by(
                before.selected,
                shown_places(before.items@).len() as int,
                forward,
                1,
            )
            &&& outcome == self.preview_of()
        } else {
            &&& self.scroll_acc == acc
            &&& self.selected == before.selected
            &&& outcome is None
        }
    }

    /// The wheel moves the selection at every third step.
    fn scroll(&mut self, forward: bool) -> (outcome: Option<Outcome>)
        requires
            old(self).wf(),
        ensures
            final(self).wf(),
            final(self).scroll_applied(old(self), forward, outcome_view(outcome)),
    {
        if forward {
            if self.scroll_acc + 1 >= 3 {
                self.scroll_acc = 0;
                self.move_by(true, 1);
                return self.preview_selected();
            }
            self.scroll_acc += 1;
        } else {
            if self.scroll_acc - 1 <= -3 {
                self.scroll_acc = 0;
                self.move_by(false, 1);
                return self.preview_selected();
            }
            self.scroll_acc -= 1;
        }
        None
    }

    /// The table and what it asks of its owner after an action.
    pub open spec fn applied(
        &self,
        before: &ThemeSelector,
        action: Action,
        outcome: Option<OutcomeView>,
    ) -> bool {
        match action {
            Action::Main(main) => self.list_applied(
                before,
                main,
                outcome,
            ),
            Action::Search(search) => self.search_applied(
                before,
                search,
                outcome,
            ),
            Action::Navigation(nav) => {
                &&& self.same_but_selected(before)
                &&& self.selected == navigated(
                    before.selected,
                    shown_places(before.items@).len() as int,
                    nav,
                )
                &&& outcome == self.preview_of()
            },
            Action::ScrollUp => self.scroll_applied(
                before,
                false,
                outcome,
            ),
            Action::ScrollDown => self.scroll_applied(
                before,
                true,
                outcome,
            ),
        }
    }

    /// Takes an action.
    pub fn update(&mut self, action: Action) -> (outcome: Option<Outcome>)
        requires
            old(self).wf(),
        ensures
            final(self).wf(),
            final(self).applied(old(self), action, outcome_view(outcome)),
    {
        match action {
            Action::Main(main) => self.update_list(main),
            Action::Search(search) => self.update_search(search),
            Action::Navigation(nav) => {
                self.navigate(nav);
                self.preview_selected()
            },
            Action::ScrollUp => self.scroll(false),
            Action::ScrollDown => self.scroll(true),
        }
    }
}

/// The samples of a theme's colors in its row.
pub open spec fn swatch_line(shown: Theme, selected: bool, theme: Theme) -> Seq<(Seq<char>, Style)> {
    let colors = seq![shown.background, shown.foreground, shown.accent, shown.active];
    colors.map_values(
        |color: Color|
            (
                " ⬤ "@,
                if selected {
                    plain().fg_spec(color).bg_spec(theme.code_background)
                } else {
                    plain().fg_spec(color)
                },
            ),
    )
}

fn swatch(color: Color, selected: bool, theme: &Theme) -> (span: Span)
    ensures
        span@ == (
            " ⬤ "@,
            if selected {
                plain().fg_spec(color).bg_spec(theme.code_background)
            } else {
                plain().fg_spec(color)
            },
        ),
{
    let mut style = Style::default().fg(color);
    if selected {
        style = style.bg(theme.code_background);
    }
    Span::styled(" ⬤ ".to_owned(), style)
}

/// The samples of a theme's colors in its row.
pub fn swatches(shown: &Theme, selected: bool, theme: &Theme) -> (spans: Vec<Span>)
    ensures
        line_view(spans@) == swatch_line(*shown, selected, *theme),
{
    let mut spans: Vec<Span> = Vec::new();
    spans.push(swatch(shown.background, selected, theme));
    spans.push(swatch(shown.foreground, selected, theme));
    spans.push(swatch(shown.accent, selected, theme));
    spans.push(swatch(shown.active, selected, theme));
    assert(line_view(spans@) =~= swatch_line(*shown, selected, *theme));
    spans
}

/// The style of a theme's row.
pub fn row_style(selected: bool, theme: &Theme) -> (style: Style)
    ensures
        style == style_of_row(selected, *theme),
{
    if selected {
        theme.code_style().fg(theme.foreground).bold()
    } else {
        theme.style()
    }
}

/// A theme as it is listed.
pub struct ThemeRow {
    /// The name between blanks, with the term of the search marked.
    pub name: Line,
    pub swatches: Vec<Span>,
    pub style: Style,
}

/// The style of a theme's row.
pub open spec fn style_of_row(selected: bool, theme: Theme) -> Style {
    if selected {
        plain().bg_spec(theme.code_background).fg_spec(theme.foreground).add_spec(bold_only())
    } else {
        theme.base()
    }
}

/// `keys` are the keys of the table with what they do.
pub open spec fn table_keys(route: Route, keys: Seq<(String, String)>) -> bool {
    &&& keys.len() == (if route == Route::Search {
        2int
    } else {
        3
    })
    &&& keys[0].0@ == "esc"@ && keys[0].1@ == "quit"@
    &&& route == Route::List ==> keys[1].0@ == "/"@ && keys[1].1@ == "search"@
    &&& keys.last().0@ == "↵"@ && keys.last().1@ == "select"@
}

impl ThemeSelector {
    /// A row of the table, `shown` being the theme that it stands for.
    pub open spec fn lists_theme(&self, row: ThemeRow, i: int, shown: Theme, theme: Theme) -> bool {
        let selected = self.selected == Some(i as usize);
        &&& row.name@ == marked_text(
            " "@ + self.items@[shown_places(self.items@)[i] as int].name@ + " "@,
            Search::term_in(self.search),
            theme.marked(),
        )
        &&& line_view(row.swatches@) == swatch_line(shown, selected, theme)
        &&& row.style == style_of_row(selected, theme)
    }

    /// `shown` are the themes of all items.
    pub open spec fn shows<F: Fn(u8, u8, u8) -> bool>(
        &self,
        shown: Seq<Theme>,
        library: ThemeLibrary,
        transparent: bool,
        light: F,
    ) -> bool {
        &&& shown.len() == self.items@.len()
        &&& forall|i: int|
            0 <= i < shown.len() ==> library.themed(
                #[trigger] shown[i],
                self.items@[i].name@,
                transparent,
                light,
            )
    }

    /// The themes of all items, which the table shows the colors of.
    pub fn themes<F: Fn(u8, u8, u8) -> bool + Copy>(
        &self,
        library: &ThemeLibrary,
        transparent: bool,
        light: F,
    ) -> (shown: Vec<Theme>)
        requires
            is_test(light),
        ensures
            self.shows(shown@, *library, transparent, light),
    {
        let mut shown: Vec<Theme> = Vec::new();
        let mut i: usize = 0;
        while i < self.items.len()
            invariant
                i <= self.items@.len(),
                is_test(light),
                shown@.len() == i,
                forall|k: int|
                    0 <= k < i ==> library.themed(
                        #[trigger] shown@[k],
                        self.items@[k].name@,
                        transparent,
                        light,
                    ),
            decreases self.items@.len() - i,
        {
            let theme = Theme::new(self.items[i].name.as_str(), transparent, library, light);
            shown.push(theme);
            i += 1;
        }
        shown
    }

    /// The rows of the table. `shown` are the themes of all items.
    pub fn render_themes(&self, shown: &[Theme], theme: &Theme) -> (rows: Vec<ThemeRow>)
        requires
            self.wf(),
            shown@.len() == self.items@.len(),
        ensures
            rows@.len() == shown_places(self.items@).len(),
            forall|i: int|
                0 <= i < rows@.len() ==> self.lists_theme(
                    #[trigger] rows@[i],
                    i,
                    shown@[shown_places(self.items@)[i] as int],
                    *theme,
                ),
    {
        let places = self.active_items();
        let term = Search::term_of(&self.search);
        let mut rows: Vec<ThemeRow> = Vec::new();
        let mut i: usize = 0;
        while i < places.len()
            invariant
                i <= places.len(),
                places@ == shown_places(self.items@),
                term@ == Search::term_in(self.search),
                forall|k: int|
                    0 <= k < places@.len() ==> (#[trigger] places@[k]) < self.items@.len(),
                shown@.len() == self.items@.len(),
                rows@.len() == i,
                forall|k: int|
                    0 <= k < i ==> self.lists_theme(
                        #[trigger] rows@[k],
                        k,
                        shown@[places@[k] as int],
                        *theme,
                    ),
            decreases places.len() - i,
        {
            let at: usize = places[i];
            let selected = match self.selected {
                Some(row) => row == i,
                None => false,
            };
            let mut name = " ".to_owned();
            name.append(self.items[at].name.as_str());
            name.append(" ");
            rows.push(
                ThemeRow {
                    name: mark_text(
                        name.as_str(),
                        term.as_str(),
                        theme.search_highlight_style(),
                    ),
                    swatches: swatches(&shown[at], selected, theme),
                    style: row_style(selected, theme),
                },
            );
            i += 1;
        }
        rows
    }

    /// The keys of the table.
    pub fn footer_shortcuts(&self, theme: &Theme) -> (spans: Vec<Span>)
        ensures
            exists|keys: Seq<(String, String)>| #[trigger]
                table_keys(self.route, keys) && line_view(spans@) == shortcuts_line(*theme, keys),
    {
        let mut keys: Vec<(String, String)> = Vec::new();
        keys.push(("esc".to_owned(), "quit".to_owned()));
        if self.route == Route::List {
            keys.push(("/".to_owned(), "search".to_owned()));
        }
        keys.push(("↵".to_owned(), "select".to_owned()));
        assert(table_keys(self.route, keys@));
        theme.shortcuts(keys.as_slice())
    }

    /// The search as the footer shows it, where there is one.
    pub fn footer_right(&self) -> (line: Option<String>)
        ensures
            match self.search {
                Some(search) => line is Some && line->0@ == search@.footer(),
                None => line is None,
            },
    {
        match &self.search {
            Some(search) => Some(search.footer_line()),
            None => None,
        }
    }
}

/// `Next` and `Prev` go to the neighbours, round from one end to the other, and undo each
/// other; `First` and `Last` go to the ends; a page is ten steps.
pub proof fn law_moves_in_the_table(i: usize, len: int)
    requires
        0 <= i < len <= usize::MAX,
    ensures
        navigated(Some(i), len, Navigation::Next) == Some(
            (if i + 1 < len {
                i + 1
            } else {
                0
            }) as usize,
        ),
        navigated(Some(i), len, Navigation::Prev) == Some(
            (if i > 0 {
                i - 1
            } else {
                len - 1
            }) as usize,
        ),
        navigated(navigated(Some(i), len, Navigation::Next), len, Navigation::Prev) == Some(i),
        navigated(Some(i), len, Navigation::First) == Some(0usize),
        navigated(Some(i), len, Navigation::Last) == Some((len - 1) as usize),
        len > 10 && i + 10 < len ==> navigated(Some(i), len, Navigation::PageDown) == Some(
            (i + 10) as usize,
        ),
        len > 10 && i >= 10 ==> navigated(Some(i), len, Navigation::PageUp) == Some(
            (i - 10) as usize,
        ),
{
    reveal_with_fuel(moved_by, 2);
    law_circles_close(i as int, len);
    if i + 1 < len {
        law_circles_close(i + 1, len);
    } else {
        law_circles_close(0, len);
    }
    if i + 10 < len {
        lemma_steps(i, len, true, 10);
    }
    if i >= 10 {
        lemma_steps(i, len, false, 10);
    }
}

proof fn lemma_steps(i: usize, len: int, forward: bool, times: nat)
    requires
        0 <= i < len <= usize::MAX,
        forward ==> i + times < len,
        !forward ==> times <= i,
    ensures
        moved_by(Some(i), len, forward, times) == Some(
            (if forward {
                i + times
            } else {
                i - times
            }) as usize,
        ),
    decreases times,
{
    if times > 0 {
        lemma_steps(i, len, forward, (times - 1) as nat);
        let at = if forward {
            i + times - 1
        } else {
            i - times + 1
        };
        law_circles_close(at, len);
    }
}

impl ThemeSelector {
    /// Leaving the table restores the theme that was there before; taking a theme takes
    /// the selected one; moving shows the one that is then selected.
    pub proof fn law_what_the_table_asks_for(
        before: ThemeSelector,
        after: ThemeSelector,
        action: Action,
        outcome: Option<OutcomeView>,
    )
        requires
            after.applied(&before, action, outcome),
        ensures
            after.original_theme == before.original_theme,
            action == Action::Main(MainAction::Quit) ==> outcome == Some(
                OutcomeView::Restore(before.original_theme@),
            ),
            outcome matches Some(OutcomeView::Restore(name)) ==> action == Action::Main(
                MainAction::Quit,
            ) && name == before.original_theme@,
            outcome matches Some(OutcomeView::Select(name)) ==> (action == Action::Main(
                MainAction::Select,
            ) || action == Action::Search(SearchAction::Select)) && before.selected_name() == Some(
                name,
            ),
            (action == Action::Main(MainAction::Select) || action == Action::Search(
                SearchAction::Select,
            )) && before.selected_name() is Some ==> outcome is Some && outcome->0 is Select,
            outcome matches Some(OutcomeView::Preview(name)) ==> after.selected_name() == Some(
                name,
            ),
            action is Navigation && after.selected_name() is Some ==> outcome is Some
                && outcome->0 is Preview,
    {
    }

    /// While a term is typed, exactly the themes whose names hold it are listed, upper
    /// and lower case taken as the same; the selected one is listed.
    pub proof fn law_searching_filters_by_name(
        before: ThemeSelector,
        typed: ThemeSelector,
        c: char,
        outcome: Option<OutcomeView>,
        i: usize,
    )
        requires
            before.search is Some,
            i < before.items@.len() <= usize::MAX,
            typed.search_applied(&before, SearchAction::Input(c), outcome),
        ensures
            typed.search is Some,
            typed.search->0@.term == before.search->0@.term.push(c),
            typed.items@[i as int].name@ == before.items@[i as int].name@,
            shown_places(typed.items@).contains(i) <==> typed.filter().len() == 0 || contains_text(
                lowercase_of(before.items@[i as int].name@),
                lowercase_of(before.search->0@.term.push(c)),
            ),
    {
        let keep = |k: int| typed.items@[k].show;
        lemma_indices_where(typed.items@.len(), keep);
        let found = shown_places(typed.items@);
        let at = i as int;
        if keep(at) {
            assert(found.contains(at as usize));
        }
        if found.contains(i) {
            let k = found.index_of(i);
            assert(found[k] == i);
        }
    }

    /// Three turns of the wheel in one direction move the selection by one step.
    pub proof fn law_three_turns_are_one_step(
        before: ThemeSelector,
        one: ThemeSelector,
        two: ThemeSelector,
        three: ThemeSelector,
        forward: bool,
        outcomes: (Option<OutcomeView>, Option<OutcomeView>, Option<OutcomeView>),
    )
        requires
            before.scroll_acc == 0,
            one.scroll_applied(&before, forward, outcomes.0),
            two.scroll_applied(&one, forward, outcomes.1),
            three.scroll_applied(&two, forward, outcomes.2),
        ensures
            two.selected == before.selected,
            three.selected == navigated(
                before.selected,
                shown_places(before.items@).len() as int,
                if forward {
                    Navigation::Next
                } else {
                    Navigation::Prev
                },
            ),
            three.scroll_acc == 0,
    {
    }
}

/// A theme is listed with its background, its text, its accent and its active color, in
/// that order; the selected row stands out.
pub proof fn law_swatches_show_the_colors(shown: Theme, selected: bool, theme: Theme)
    ensures
        swatch_line(shown, selected, theme).len() == 4,
        swatch_line(shown, selected, theme)[0].1.fg == Some(shown.background),
        swatch_line(shown, selected, theme)[1].1.fg == Some(shown.foreground),
        swatch_line(shown, selected, theme)[2].1.fg == Some(shown.accent),
        swatch_line(shown, selected, theme)[3].1.fg == Some(shown.active),
        style_of_row(true, theme) != style_of_row(false, theme),
        style_of_row(true, theme).add.bold,
{
}

/// The table opens on the theme that is in use; on the first one where that is not listed.
pub proof fn law_the_used_theme_is_selected(
    items: Seq<Item>,
    name: Seq<char>,
    place: Option<usize>,
    i: int,
)
    requires
        place_of_theme(items, name, place),
        0 <= i < items.len(),
    ensures
        place is Some,
        items[i].name@ == name ==> items[place->0 as int].name@ == name && place->0 <= i,
        items[place->0 as int].name@ != name ==> place == Some(0usize),
{
}

} // verus!
