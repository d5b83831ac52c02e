//! Editor for environment variables in a table.

use vstd::prelude::*;
use vstd::utf8::encode_utf8;

use super::markdown::marks::{mark_text, marked_text};
use super::search::{Action as SearchAction, Search, SearchView};
use crate::exec::{
    ascending, env_map, lemma_listed_is_mapped, lemma_listing_is_unique, text_less, Envs,
};
use crate::navigation::Navigation;
use crate::num::{larger, less_by, smaller};
use crate::seqs::{lemma_filter_push, lemma_take_contains};
use crate::style::{Line, Style};
use crate::text::{
    ascii_lower, ascii_upper, chars_of, contains as contains_str, contains_text, is_ascii,
    law_longer_terms_are_rarer, law_upper_case_is_the_same_term, lines_of, lowercase, lowercase_of,
    lowered, same_text, string_of, strings_view, text_lines,
};
use crate::theme::Theme;

verus! {

/// A column of the table.
#[derive(Clone, Copy, Debug, PartialEq, Eq, Hash, Structural)]
pub enum Field {
    Name,
    Value,
}

/// What keys do to the table.
#[derive(Clone, Copy, Debug, PartialEq, Eq, Hash, Structural)]
pub enum Mode {
    List,
    Search,
    Edit,
}

#[derive(Clone, Copy, Debug, PartialEq, Eq, Hash, Structural)]
pub enum MainAction {
    /// Quit environment list
    Quit,
    /// Enter search mode
    Search,
    /// Select the current item
    Select,
    /// Add new environment variable
    Add,
}

#[derive(Clone, Copy, Debug, PartialEq, Eq, Hash, Structural)]
pub enum EditAction {
    /// Quit editing mode
    Quit,
    /// Navigate left in inline editing
    Left,
    /// Navigate right in inline editing
    Right,
    /// Save changes
    Save,
    /// Switch between name and value fields
    SwitchField,
    /// Delete character
    Delete,
    /// Input
    Input(char),
}

/// The variables with a filter term.
pub struct Items {
    map: Envs,
    term: String,
    lower_term: String,
}

/// The contents of the items.
pub struct ItemsView {
    pub map: Map<Seq<char>, Seq<char>>,
    /// The variables in the order of their names.
    pub list: Seq<(Seq<char>, Seq<char>)>,
    pub term: Seq<char>,
}

/// A variable whose name or value contains the term, upper and lower case taken
/// as the same; every one where the term is empty.
pub open spec fn env_matches(entry: (Seq<char>, Seq<char>), term: Seq<char>) -> bool {
    ||| lowered(term).len() == 0
    ||| contains_text(lowercase_of(entry.0), lowered(term))
    ||| contains_text(lowercase_of(entry.1), lowered(term))
}

impl ItemsView {
    /// The variables that match the term.
    pub open spec fn active(self) -> Seq<(Seq<char>, Seq<char>)> {
        self.list.filter(|entry: (Seq<char>, Seq<char>)| env_matches(entry, self.term))
    }
}

/// Keeping some of an ascending list leaves an ascending list of its entries.
proof fn lemma_filter_ascends(
    list: Seq<(Seq<char>, Seq<char>)>,
    keep: spec_fn((Seq<char>, Seq<char>)) -> bool,
)
    requires
        ascending(list),
    ensures
        ascending(list.filter(keep)),
        forall|entry: (Seq<char>, Seq<char>)| #[trigger]
            list.filter(keep).contains(entry) <==> list.contains(entry) && keep(entry),
    decreases list.len(),
{
    reveal(Seq::filter);
    if list.len() > 0 {
        let before = list.drop_last();
        let last = list.last();
        assert forall|i: int, j: int| 0 <= i < j < before.len() implies text_less(
            (#[trigger] before[i]).0,
            (#[trigger] before[j]).0,
        ) by {
            assert(before[i] == list[i] && before[j] == list[j]);
        }
        lemma_filter_ascends(before, keep);
        let kept = before.filter(keep);
        let whole = list.filter(keep);
        assert forall|i: int| 0 <= i < kept.len() implies text_less(
            (#[trigger] kept[i]).0,
            last.0,
        ) by {
            assert(kept.contains(kept[i]));
            assert(before.contains(kept[i]));
            let k = choose|k: int| 0 <= k < before.len() && before[k] == kept[i];
            assert(list[k] == before[k] && list[list.len() - 1] == last);
        }
        assert(list =~= before.push(last));
        assert forall|entry: (Seq<char>, Seq<char>)| #[trigger]
            whole.contains(entry) <==> list.contains(entry) && keep(entry) by {
            crate::seqs::lemma_push_contains(before, last);
            crate::seqs::lemma_push_contains(kept, last);
        }
    }
}

impl ItemsView {
    /// The listing is that of the map.
    pub open spec fn lists_map(self) -> bool {
        &&& ascending(self.list)
        &&& env_map(self.list) == self.map
    }

    /// What is listed: in ascending order of names, the variables that match the term,
    /// with their values.
    pub proof fn law_active_lists_the_map(self, entry: (Seq<char>, Seq<char>))
        requires
            self.lists_map(),
        ensures
            ascending(self.active()),
            self.active().contains(entry) <==> self.map.contains_key(entry.0)
                && self.map[entry.0] == entry.1 && env_matches(entry, self.term),
    {
        let keep = |e: (Seq<char>, Seq<char>)| env_matches(e, self.term);
        lemma_filter_ascends(self.list, keep);
        lemma_listed_is_mapped(self.list, entry);
    }

    /// Without a term everything is listed: two listings of the same variables are
    /// then the same.
    pub proof fn law_no_term_lists_all(self, other: ItemsView)
        requires
            self.lists_map(),
            other.lists_map(),
            self.map == other.map,
            self.term.len() == 0,
        ensures
            self.active() == self.list,
            self.list == other.list,
    {
        let keep = |e: (Seq<char>, Seq<char>)| env_matches(e, self.term);
        assert(ascii_lower(self.term).len() == 0);
        assert(is_ascii(self.term));
        lemma_filter_all(self.list, keep);
        lemma_listing_is_unique(self.list, other.list);
    }

    /// An ASCII term finds the same variables in upper case.
    pub proof fn law_upper_case_finds_the_same(self)
        requires
            is_ascii(self.term),
        ensures
            (ItemsView { term: ascii_upper(self.term), ..self }).active() == self.active(),
    {
        law_upper_case_is_the_same_term(self.term);
        let upper = ascii_upper(self.term);
        assert((|e: (Seq<char>, Seq<char>)| env_matches(e, upper)) =~= (|e: (
            Seq<char>,
            Seq<char>,
        )| env_matches(e, self.term)));
    }

    /// A longer ASCII term finds some of what its start finds, in the same order.
    pub proof fn law_longer_terms_find_fewer(self, more: Seq<char>)
        requires
            is_ascii(self.term),
            is_ascii(more),
        ensures
            (ItemsView { term: self.term + more, ..self }).active() == self.active().filter(
                |e: (Seq<char>, Seq<char>)| env_matches(e, self.term + more),
            ),
    {
        let long = self.term + more;
        let short = |e: (Seq<char>, Seq<char>)| env_matches(e, self.term);
        let longer = |e: (Seq<char>, Seq<char>)| env_matches(e, long);
        assert forall|e: (Seq<char>, Seq<char>)| #[trigger] longer(e) implies short(e) by {
            if lowered(long).len() == 0 {
                lemma_lowered_concat(self.term, more);
            } else if contains_text(lowercase_of(e.0), lowered(long)) {
                law_longer_terms_are_rarer(lowercase_of(e.0), self.term, more);
            } else {
                law_longer_terms_are_rarer(lowercase_of(e.1), self.term, more);
            }
        }
        lemma_filter_twice(self.list, short, longer);
    }
}

proof fn lemma_lowered_concat(term: Seq<char>, more: Seq<char>)
    requires
        is_ascii(term),
        is_ascii(more),
    ensures
        lowered(term + more).len() == term.len() + more.len(),
        lowered(term).len() == term.len(),
{
    let whole = term + more;
    assert forall|i: int| 0 <= i < whole.len() implies (#[trigger] whole[i]) as int <= 0x7F by {
        if i < term.len() {
            assert(whole[i] == term[i]);
        } else {
            assert(whole[i] == more[i - term.len()]);
        }
    }
}

proof fn lemma_filter_all(
    list: Seq<(Seq<char>, Seq<char>)>,
    keep: spec_fn((Seq<char>, Seq<char>)) -> bool,
)
    requires
        forall|e: (Seq<char>, Seq<char>)| #[trigger] keep(e),
    ensures
        list.filter(keep) == list,
    decreases list.len(),
{
    reveal(Seq::filter);
    if list.len() > 0 {
        lemma_filter_all(list.drop_last(), keep);
        assert(list =~= list.drop_last().push(list.last()));
    }
}

proof fn lemma_filter_twice(
    list: Seq<(Seq<char>, Seq<char>)>,
    wide: spec_fn((Seq<char>, Seq<char>)) -> bool,
    narrow: spec_fn((Seq<char>, Seq<char>)) -> bool,
)
    requires
        forall|e: (Seq<char>, Seq<char>)| #[trigger] narrow(e) ==> wide(e),
    ensures
        list.filter(narrow) == list.filter(wide).filter(narrow),
    decreases list.len(),
{
    reveal(Seq::filter);
    if list.len() > 0 {
        let before = list.drop_last();
        lemma_filter_twice(before, wide, narrow);
        if wide(list.last()) {
            lemma_filter_push(before.filter(wide), list.last(), narrow);
        }
    }
}

impl View for Items {
    type V = ItemsView;

    closed spec fn view(&self) -> ItemsView {
        ItemsView { map: self.map@, list: self.map.list(), term: self.term@ }
    }
}

/// Whether the lower-case form of `s` contains `lower_term`.
pub fn contains(s: &str, lower_term: &str) -> (found: bool)
    ensures
        found == contains_text(lowercase_of(s@), lower_term@),
{
    contains_str(lowercase(s).as_str(), lower_term)
}

impl Items {
    /// The listing has ascending names and exactly the map's entries.
    pub proof fn law_listing_is_the_map(&self)
        requires
            self.wf(),
        ensures
            self@.lists_map(),
    {
        self.map.law_listing_is_the_map();
    }

    /// Names ascend, and the lower-case term is that of the term.
    pub closed spec fn wf(&self) -> bool {
        &&& self.map.wf()
        &&& self.lower_term@ == lowered(self.term@)
    }

    pub fn new(envs: &Envs) -> (items: Items)
        requires
            envs.wf(),
        ensures
            items.wf(),
            items@.map == envs@,
            items@.list == envs.list(),
            items@.term.len() == 0,
    {
        let items = Items {
            map: envs.copy(),
            term: String::new(),
            lower_term: String::new(),
        };
        assert(items.lower_term@ =~= lowered(items.term@));
        items
    }

    fn is_active(&self, name: &str, value: &str) -> (yes: bool)
        requires
            self.wf(),
        ensures
            yes == env_matches((name@, value@), self@.term),
    {
        self.lower_term.as_str().is_empty() || contains(name, self.lower_term.as_str()) || contains(
            value,
            self.lower_term.as_str(),
        )
    }

    /// The variables that match the term.
    pub fn active(&self) -> (entries: Vec<(String, String)>)
        requires
            self.wf(),
        ensures
            crate::exec::pairs(entries@) == self@.active(),
    {
        let mut entries: Vec<(String, String)> = Vec::new();
        let ghost keep = |entry: (Seq<char>, Seq<char>)| env_matches(entry, self@.term);
        let ghost list = self@.list;
        let mut i: usize = 0;
        assert(crate::exec::pairs(entries@) =~= list.take(0).filter(keep)) by {
            reveal(Seq::filter);
        }
        while i < self.map.len()
            invariant
                i <= list.len(),
                self.wf(),
                list == self@.list,
                list == self.map.list(),
                keep == (|entry: (Seq<char>, Seq<char>)| env_matches(entry, self@.term)),
                crate::exec::pairs(entries@) == list.take(i as int).filter(keep),
            decreases list.len() - i,
        {
            let (name, value) = self.map.entry(i);
            proof {
                lemma_take_contains(list, i as int);
                lemma_filter_push(list.take(i as int), list[i as int], keep);
            }
            let ghost before = crate::exec::pairs(entries@);
            if self.is_active(name, value) {
                entries.push((name.to_owned(), value.to_owned()));
                assert(crate::exec::pairs(entries@) =~= before.push((name@, value@)));
            }
            i += 1;
        }
        assert(list.take(i as int) =~= list);
        entries
    }

    /// Returns the count of active (filtered) items without copying them.
    pub fn active_count(&self) -> (count: usize)
        requires
            self.wf(),
        ensures
            count == self@.active().len(),
    {
        let mut count: usize = 0;
        let ghost keep = |entry: (Seq<char>, Seq<char>)| env_matches(entry, self@.term);
        let ghost list = self@.list;
        let mut i: usize = 0;
        assert(list.take(0).filter(keep).len() == 0) by {
            reveal(Seq::filter);
        }
        while i < self.map.len()
            invariant
                i <= list.len(),
                count <= i,
                self.wf(),
                list == self@.list,
                list == self.map.list(),
                keep == (|entry: (Seq<char>, Seq<char>)| env_matches(entry, self@.term)),
                count == list.take(i as int).filter(keep).len(),
            decreases list.len() - i,
        {
            let (name, value) = self.map.entry(i);
            proof {
                lemma_take_contains(list, i as int);
                lemma_filter_push(list.take(i as int), list[i as int], keep);
            }
            if self.is_active(name, value) {
                count += 1;
            }
            i += 1;
        }
        assert(list.take(i as int) =~= list);
        count
    }

    /// Sets the filter term.
    pub fn search(&mut self, term: &str)
        requires
            old(self).wf(),
        ensures
            final(self).wf(),
            final(self)@ == (ItemsView { term: term@, ..old(self)@ }),
    {
        self.term = term.to_owned();
        self.lower_term = if term.is_empty() {
            String::new()
        } else {
            lowercase(term)
        };
        assert(self.lower_term@ =~= lowered(self.term@));
    }

    /// Clears the filter term.
    pub fn reset(&mut self)
        requires
            old(self).wf(),
        ensures
            final(self).wf(),
            final(self)@ == (ItemsView { term: Seq::empty(), ..old(self)@ }),
    {
        self.term = String::new();
        self.lower_term = String::new();
        assert(self.term@ =~= Seq::empty());
        assert(self.lower_term@ =~= lowered(self.term@));
    }

    /// Adds a variable without name and value.
    pub fn add_new(&mut self)
        requires
            old(self).wf(),
        ensures
            final(self).wf(),
            final(self)@.map == old(self)@.map.insert(Seq::empty(), Seq::empty()),
            final(self)@.term == old(self)@.term,
    {
        let name = String::new();
        let value = String::new();
        assert(name@ =~= Seq::empty() && value@ =~= Seq::empty());
        self.map.insert(name, value);
    }

    /// Merges variables in: their values replace those under the same names.
    pub fn merge(&mut self, envs: &Envs)
        requires
            old(self).wf(),
            envs.wf(),
        ensures
            final(self).wf(),
            final(self)@.map == old(self)@.map.union_prefer_right(envs@),
            final(self)@.term == old(self)@.term,
    {
        crate::exec::merge_envs(&mut self.map, envs);
    }

    /// Removes a variable.
    pub fn remove(&mut self, name: &str)
        requires
            old(self).wf(),
        ensures
            final(self).wf(),
            final(self)@.map == old(self)@.map.remove(name@),
            final(self)@.term == old(self)@.term,
    {
        self.map.remove(name);
    }

    /// Sets a variable.
    pub fn insert(&mut self, name: String, value: String)
        requires
            old(self).wf(),
        ensures
            final(self).wf(),
            final(self)@.map == old(self)@.map.insert(name@, value@),
            final(self)@.term == old(self)@.term,
    {
        self.map.insert(name, value);
    }

    /// A copy of the variables.
    pub fn data(&self) -> (envs: Envs)
        requires
            self.wf(),
        ensures
            envs.wf(),
            envs@ == self@.map,
            envs.list() == self@.list,
    {
        self.map.copy()
    }
}

/// A text with the cursor block in front of the character at `cursor_x`, or at
/// the end.
pub open spec fn with_cursor(s: Seq<char>, cursor_x: int) -> Seq<char> {
    s.insert(smaller(cursor_x, s.len() as int), '█')
}

/// Puts a character in front of the one at `at`, or at the end.
fn insert_at(s: &mut String, at: usize, c: char)
    ensures
        final(s)@ == old(s)@.insert(smaller(at as int, old(s)@.len() as int), c),
{
    let mut chars = chars_of(s.as_str());
    let place: usize = at.min(chars.len());
    chars.insert(place, c);
    *s = string_of(chars.as_slice());
}

/// Inserts the cursor block in front of the character at `cursor_x`.
pub fn insert_cursor(s: &mut String, cursor_x: usize)
    ensures
        final(s)@ == with_cursor(old(s)@, cursor_x as int),
{
    insert_at(s, cursor_x, '█');
}

/// The table with its selection, filter and inline editor.
pub struct EnvVars {
    pub selected: Option<usize>,
    pub mode: Mode,
    pub search: Option<Search>,
    pub items: Items,
    /// The name of the variable that is edited.
    pub editing_key: Option<String>,
    pub edit_name: String,
    pub edit_value: String,
    pub editing_field: Option<Field>,
    /// The cursor, in characters from the start of the field.
    pub cursor_x: usize,
}

#[derive(Clone, Copy, Debug, PartialEq, Eq, Hash, Structural)]
pub enum Action {
    Main(MainAction),
    Edit(EditAction),
    Search(SearchAction),
    Navigation(Navigation),
    ScrollUp,
    ScrollDown,
    Quit,
}

/// The place after `i` in a circle of `len`.
pub open spec fn circle_next(i: int, len: int) -> int {
    (i + 1) % larger(len, 1)
}

/// The place before `i` in a circle of `len`.
pub open spec fn circle_prev(i: int, len: int) -> int {
    (i + len - 1) % larger(len, 1)
}

/// The place after `i` in a circle of `len`.
pub fn next_in_circle(i: usize, len: usize) -> (next: usize)
    ensures
        next == circle_next(i as int, len as int),
{
    let n: usize = len.max(1);
    let r: usize = i % n;
    let ghost (a, m, k) = (i as int, n as int, r as int);
    proof {
        assert((a + 1) % m == (if k + 1 == m { 0 } else { k + 1 })) by (nonlinear_arith)
            requires
                m > 0,
                k == a % m,
        ;
    }
    if r + 1 == n {
        0
    } else {
        r + 1
    }
}

/// The place before `i` in a circle of `len`.
pub fn prev_in_circle(i: usize, len: usize) -> (prev: usize)
    ensures
        prev == circle_prev(i as int, len as int),
{
    let n: usize = len.max(1);
    let r: usize = i % n;
    let ghost (a, m, k) = (i as int, n as int, r as int);
    proof {
        assert((a + m - 1) % m == (if k == 0 { m - 1 } else { k - 1 })) by (nonlinear_arith)
            requires
                m > 0,
                k == a % m,
        ;
        if len == 0 {
            assert((a - 1) % 1 == 0);
        }
    }
    if r == 0 {
        n - 1
    } else {
        r - 1
    }
}

/// The characters of a pasted text that are taken: all but line ends.
pub open spec fn pasted(text: Seq<char>) -> Seq<char> {
    text.filter(|c: char| c != '\n' && c != '\r')
}

impl EnvVars {
    /// The field that is edited.
    pub open spec fn field_text(&self) -> Option<Seq<char>> {
        match self.editing_field {
            Some(Field::Name) => Some(self.edit_name@),
            Some(Field::Value) => Some(self.edit_value@),
            None => None,
        }
    }

    /// The cursor stays within the field that is edited.
    pub open spec fn wf(&self) -> bool {
        &&& self.items.wf()
        &&& self.field_text() matches Some(text) ==> self.cursor_x <= text.len()
    }

    /// Everything but the editor's fields and cursor is as `before`.
    pub open spec fn same_but_fields(&self, before: &EnvVars) -> bool {
        &&& self.selected == before.selected
        &&& self.mode == before.mode
        &&& self.search == before.search
        &&& self.items == before.items
        &&& self.editing_key == before.editing_key
        &&& self.editing_field == before.editing_field
    }

    /// Everything but the selection is as `before`.
    pub open spec fn same_but_selected(&self, before: &EnvVars) -> bool {
        &&& self.mode == before.mode
        &&& self.search == before.search
        &&& self.items == before.items
        &&& self.same_editor(before)
    }

    /// The editor is as `before`.
    pub open spec fn same_editor(&self, before: &EnvVars) -> bool {
        &&& self.editing_key == before.editing_key
        &&& self.edit_name == before.edit_name
        &&& self.edit_value == before.edit_value
        &&& self.editing_field == before.editing_field
        &&& self.cursor_x == before.cursor_x
    }

    /// Nothing is edited.
    pub open spec fn not_editing(&self) -> bool {
        &&& self.editing_key is None
        &&& self.edit_name@.len() == 0
        &&& self.edit_value@.len() == 0
        &&& self.editing_field is None
        &&& self.cursor_x == 0
    }

    pub fn new(envs: &Envs) -> (vars: EnvVars)
        requires
            envs.wf(),
        ensures
            vars.wf(),
            vars.selected is None,
            vars.mode == Mode::List,
            vars.search is None,
            vars.items@.map == envs@,
            vars.items@.list == envs.list(),
            vars.items@.term.len() == 0,
            vars.not_editing(),
    {
        EnvVars {
            selected: None,
            mode: Mode::List,
            search: None,
            items: Items::new(envs),
            editing_key: None,
            edit_name: String::new(),
            edit_value: String::new(),
            editing_field: None,
            cursor_x: 0,
        }
    }

    /// A copy of the variables.
    pub fn data(&self) -> (envs: Envs)
        requires
            self.wf(),
        ensures
            envs.wf(),
            envs@ == self.items@.map,
            envs.list() == self.items@.list,
    {
        self.items.data()
    }

    /// Merges variables in.
    pub fn merge_envs(&mut self, envs: &Envs)
        requires
            old(self).wf(),
            envs.wf(),
        ensures
            final(self).wf(),
            final(self).items@.map == old(self).items@.map.union_prefer_right(envs@),
            final(self).items@.term == old(self).items@.term,
            final(self).selected == old(self).selected,
            final(self).mode == old(self).mode,
            final(self).search == old(self).search,
            final(self).same_editor(old(self)),
    {
        self.items.merge(envs);
    }

    /// Where a move leads.
    pub open spec fn moved(&self, nav: Navigation) -> int {
        let count = self.items@.active().len() as int;
        let current = match self.selected {
            Some(i) => i as int,
            None => 0,
        };
        match nav {
            Navigation::Next => match self.selected {
                Some(i) => circle_next(i as int, count),
                None => 0,
            },
            Navigation::Prev => match self.selected {
                Some(i) => circle_prev(i as int, count),
                None => 0,
            },
            Navigation::First => 0,
            Navigation::Last => less_by(count, 1),
            Navigation::PageUp => less_by(current, 10),
            Navigation::PageDown => smaller(current + 10, less_by(count, 1)),
        }
    }

    /// Moves the selection.
    pub fn navigate(&mut self, nav: Navigation)
        requires
            old(self).wf(),
        ensures
            final(self).wf(),
            final(self).same_but_selected(old(self)),
            final(self).selected == Some(old(self).moved(nav) as usize),
    {
        let count = self.items.active_count();
        let current: usize = match self.selected {
            Some(i) => i,
            None => 0,
        };
        let to: usize = match nav {
            Navigation::Next => match self.selected {
                Some(i) => next_in_circle(i, count),
                None => 0,
            },
            Navigation::Prev => match self.selected {
                Some(i) => prev_in_circle(i, count),
                None => 0,
            },
            Navigation::First => 0,
            Navigation::Last => count.saturating_sub(1),
            Navigation::PageUp => current.saturating_sub(10),
            Navigation::PageDown => current.saturating_add(10).min(count.saturating_sub(1)),
        };
        self.selected = Some(to);
    }

    /// Moves the selection by three, up or down.
    fn scroll(&mut self, down: bool)
        requires
            old(self).wf(),
        ensures
            final(self).wf(),
            final(self).same_but_selected(old(self)),
            final(self).selected == Some(old(self).scrolled(down) as usize),
    {
        let current: usize = match self.selected {
            Some(i) => i,
            None => 0,
        };
        let to: usize = if down {
            current.saturating_add(3).min(self.items.active_count().saturating_sub(1))
        } else {
            current.saturating_sub(3)
        };
        self.selected = Some(to);
    }

    /// Where scrolling leads: three up or down.
    pub open spec fn scrolled(&self, down: bool) -> int {
        let current = match self.selected {
            Some(i) => i as int,
            None => 0,
        };
        if down {
            smaller(current + 3, less_by(self.items@.active().len() as int, 1))
        } else {
            less_by(current, 3)
        }
    }

    /// The editor is open on a variable, with the cursor in its name.
    pub open spec fn editing(&self, entry: (Seq<char>, Seq<char>), cursor: int) -> bool {
        &&& self.editing_key is Some
        &&& self.editing_key->0@ == entry.0
        &&& self.edit_name@ == entry.0
        &&& self.edit_value@ == entry.1
        &&& self.editing_field == Some(Field::Name)
        &&& self.cursor_x == cursor
    }

    /// Opens the editor on the selected variable, with the cursor behind its
    /// name.
    fn start_inline_edit(&mut self)
        requires
            old(self).wf(),
        ensures
            final(self).wf(),
            final(self).selected == old(self).selected,
            final(self).search == old(self).search,
            final(self).items == old(self).items,
            ({
                let active = old(self).items@.active();
                if old(self).selected is Some && old(self).selected->0 < active.len() {
                    let entry = active[old(self).selected->0 as int];
                    final(self).editing(entry, entry.0.len() as int) && final(self).mode
                        == Mode::Edit
                } else {
                    *final(self) == *old(self)
                }
            }),
    {
        if let Some(index) = self.selected {
            let active = self.items.active();
            if index < active.len() {
                let (name, value) = &active[index];
                assert(crate::exec::pairs(active@)[index as int] == (name@, value@));
                self.cursor_x = name.as_str().unicode_len();
                self.editing_key = Some(name.clone());
                self.edit_name = name.clone();
                self.edit_value = value.clone();
                self.editing_field = Some(Field::Name);
                self.mode = Mode::Edit;
            }
        }
    }

    /// What an action on the list leads to.
    pub open spec fn list_applied(&self, before: &EnvVars, action: MainAction) -> bool {
        match action {
            MainAction::Quit => *self == *before,
            MainAction::Search => {
                &&& self.search matches Some(search) && search@ == SearchView::empty()
                &&& self.mode == Mode::Search
                &&& self.selected == before.selected
                &&& self.items == before.items
                &&& self.same_editor(before)
            },
            MainAction::Select => {
                let active = before.items@.active();
                &&& self.items == before.items
                &&& self.selected == before.selected
                &&& if before.selected is Some && before.selected->0 < active.len() {
                    let entry = active[before.selected->0 as int];
                    self.editing(entry, entry.0.len() as int) && self.mode
                        == Mode::Edit
                } else {
                    *self == *before
                }
            },
            MainAction::Add => {
                let active = self.items@.active();
                let blank = (Seq::<char>::empty(), Seq::<char>::empty());
                &&& self.items@.map == before.items@.map.insert(
                    Seq::empty(),
                    Seq::empty(),
                )
                &&& self.items@.term == before.items@.term
                &&& self.search == before.search
                &&& if active.contains(blank) {
                    &&& self.editing(blank, 0)
                    &&& self.mode == Mode::Edit
                    &&& self.selected is Some
                    &&& self.selected->0 < active.len()
                    &&& active[self.selected->0 as int] == blank
                    &&& forall|j: int|
                        0 <= j < self.selected->0 ==> #[trigger] active[j] != blank
                } else {
                    &&& self.mode == before.mode
                    &&& self.selected == before.selected
                    &&& self.same_editor(before)
                }
            },
        }
    }

    /// Takes an action on the list; `Quit` is handed to the owner.
    pub fn update_list(&mut self, action: MainAction) -> (outcome: Option<Action>)
        requires
            old(self).wf(),
        ensures
            final(self).wf(),
            outcome == (if action is Quit {
                Some(Action::Quit)
            } else {
                None
            }),
            final(self).list_applied(old(self), action),
    {
        match action {
            MainAction::Quit => Some(Action::Quit),
            MainAction::Search => {
                self.search = Some(Search::new());
                self.mode = Mode::Search;
                None
            },
            MainAction::Select => {
                self.start_inline_edit();
                None
            },
            MainAction::Add => {
                self.items.add_new();
                let active = self.items.active();
                let ghost list = crate::exec::pairs(active@);
                let ghost blank = (Seq::<char>::empty(), Seq::<char>::empty());
                let mut i: usize = 0;
                while i < active.len()
                    invariant_except_break
                        i <= active@.len(),
                        list == crate::exec::pairs(active@),
                        blank == (Seq::<char>::empty(), Seq::<char>::empty()),
                        forall|j: int| 0 <= j < i ==> #[trigger] list[j] != blank,
                    ensures
                        i <= active@.len(),
                        forall|j: int| 0 <= j < i ==> #[trigger] list[j] != blank,
                        i < active@.len() ==> list[i as int] == blank,
                    decreases active@.len() - i,
                {
                    let (name, value) = &active[i];
                    assert(list[i as int] == (name@, value@));
                    if name.as_str().is_empty() && value.as_str().is_empty() {
                        assert(name@ =~= Seq::empty() && value@ =~= Seq::empty());
                        break ;
                    }
                    i += 1;
                }
                if i < active.len() {
                    let (name, value) = &active[i];
                    assert(list[i as int] == (name@, value@));
                    assert(list.contains(blank));
                    self.editing_key = Some(name.clone());
                    self.edit_name = name.clone();
                    self.edit_value = value.clone();
                    self.editing_field = Some(Field::Name);
                    self.cursor_x = 0;
                    self.selected = Some(i);
                    self.mode = Mode::Edit;
                } else {
                    assert(!list.contains(blank));
                }
                None
            },
        }
    }

    /// Applies the search term to the table; the first match is selected.
    fn search_items(&mut self)
        requires
            old(self).wf(),
        ensures
            final(self).wf(),
            final(self).mode == old(self).mode,
            final(self).search == old(self).search,
            final(self).same_editor(old(self)),
            final(self).items@ == (ItemsView { term: old(self).search_term(), ..old(self).items@ }),
            final(self).selected == (if final(self).items@.active().len() == 0 || old(self).search_term().len() == 0 {
                None
            } else {
                Some(0usize)
            }),
    {
        let term = match &self.search {
            Some(search) => search.term().to_owned(),
            None => String::new(),
        };
        assert(term@ =~= self.search_term());
        self.items.search(term.as_str());
        if self.items.active_count() == 0 || term.as_str().is_empty() {
            self.selected = None;
        } else {
            self.selected = Some(0);
        }
    }

    /// The term of the search, empty without one.
    pub open spec fn search_term(&self) -> Seq<char> {
        match self.search {
            Some(search) => search@.term,
            None => Seq::empty(),
        }
    }

    /// What an action of the search leads to.
    pub open spec fn search_applied(&self, before: &EnvVars, action: SearchAction) -> bool {
        match action {
            SearchAction::Prev => self.same_but_selected(before)
                && self.selected == Some(before.moved(Navigation::Prev) as usize),
            SearchAction::Next => self.same_but_selected(before)
                && self.selected == Some(before.moved(Navigation::Next) as usize),
            SearchAction::Quit => {
                &&& self.search is None
                &&& self.mode == Mode::List
                &&& self.items@ == (ItemsView { term: Seq::empty(), ..before.items@ })
                &&& self.selected == before.selected
                &&& self.same_editor(before)
            },
            SearchAction::Select => {
                let active = before.items@.active();
                &&& self.mode == Mode::Edit
                &&& self.items == before.items
                &&& self.search == before.search
                &&& self.selected == before.selected
                &&& if before.selected is Some && before.selected->0 < active.len() {
                    let entry = active[before.selected->0 as int];
                    self.editing(entry, entry.0.len() as int)
                } else {
                    self.same_editor(before)
                }
            },
            SearchAction::Input(_) | SearchAction::Delete => {
                &&& self.mode == before.mode
                &&& self.same_editor(before)
                &&& self.items@ == (ItemsView {
                    term: self.search_term(),
                    ..before.items@
                })
                &&& self.selected == (if self.items@.active().len() == 0
                    || self.search_term().len() == 0 {
                    None
                } else {
                    Some(0usize)
                })
                &&& match before.search {
                    None => self.search is None,
                    Some(before) => self.search matches Some(after) && after@
                        == before@.updated(action).found(
                        if before@.updated(action).term.len() == 0 {
                            0
                        } else {
                            self.items@.active().len() as int
                        },
                    ),
                }
            },
        }
    }

    /// Takes an action of the search.
    pub fn update_search(&mut self, action: SearchAction)
        requires
            old(self).wf(),
        ensures
            final(self).wf(),
            final(self).search_applied(old(self), action),
    {
        match action {
            SearchAction::Prev => {
                self.navigate(Navigation::Prev);
            },
            SearchAction::Next => {
                self.navigate(Navigation::Next);
            },
            SearchAction::Quit => {
                self.search = None;
                self.mode = Mode::List;
                self.items.reset();
            },
            SearchAction::Select => {
                self.start_inline_edit();
                self.mode = Mode::Edit;
            },
            SearchAction::Input(_) | SearchAction::Delete => {
                if let Some(mut search) = self.search.take() {
                    search.update(action);
                    self.search = Some(search);
                }
                self.search_items();
                if let Some(mut search) = self.search.take() {
                    if search.term().is_empty() {
                        let none: [u8; 0] = [];
                        search.search(none.as_slice());
                    } else {
                        let active = self.items.active();
                        search.search(active.as_slice());
                        assert(crate::exec::pairs(active@).len() == active@.len());
                    }
                    self.search = Some(search);
                }
            },
        }
    }
}

impl EnvVars {
    /// Closes the editor; a variable that was added and left blank goes.
    pub fn exit_inline_edit(&mut self)
        requires
            old(self).wf(),
        ensures
            final(self).wf(),
            final(self).not_editing(),
            final(self).mode == Mode::List,
            final(self).selected == old(self).selected,
            final(self).search == old(self).search,
            final(self).items@.term == old(self).items@.term,
            final(self).items@.map == (if old(self).editing_key is Some && old(self).editing_key->0@.len() == 0 && old(self).edit_value@.len() == 0 {
                old(self).items@.map.remove(Seq::empty())
            } else {
                old(self).items@.map
            }),
    {
        let blank = match &self.editing_key {
            Some(key) => key.as_str().is_empty(),
            None => false,
        };
        if blank && self.edit_value.as_str().is_empty() {
            let none = String::new();
            assert(none@ =~= Seq::empty());
            self.items.remove(none.as_str());
        }
        self.close_editor();
    }

    fn close_editor(&mut self)
        requires
            old(self).items.wf(),
        ensures
            final(self).wf(),
            final(self).not_editing(),
            final(self).mode == Mode::List,
            final(self).selected == old(self).selected,
            final(self).search == old(self).search,
            final(self).items == old(self).items,
    {
        self.editing_key = None;
        self.edit_name = String::new();
        self.edit_value = String::new();
        self.editing_field = None;
        self.cursor_x = 0;
        self.mode = Mode::List;
    }

    /// Closes the editor and keeps what was edited, under its new name.
    pub fn save_inline_edit(&mut self)
        requires
            old(self).wf(),
        ensures
            final(self).wf(),
            final(self).not_editing(),
            final(self).mode == Mode::List,
            final(self).selected == old(self).selected,
            final(self).search == old(self).search,
            final(self).items@.term == old(self).items@.term,
            final(self).items@.map == (match old(self).editing_key {
                Some(key) => old(self).items@.map.remove(key@).insert(
                    old(self).edit_name@,
                    old(self).edit_value@,
                ),
                None => old(self).items@.map,
            }),
    {
        if let Some(key) = self.editing_key.take() {
            self.items.remove(key.as_str());
            self.items.insert(self.edit_name.clone(), self.edit_value.clone());
        }
        self.close_editor();
    }

    /// Moves the cursor one character to the left.
    pub fn move_cursor_left(&mut self)
        requires
            old(self).wf(),
        ensures
            final(self).wf(),
            final(self).same_but_fields(old(self)),
            final(self).edit_name == old(self).edit_name,
            final(self).edit_value == old(self).edit_value,
            final(self).cursor_x == less_by(old(self).cursor_x as int, 1),
    {
        self.cursor_x = self.cursor_x.saturating_sub(1);
    }

    /// The length of the field that is edited.
    fn field_len(&self) -> (len: Option<usize>)
        ensures
            match len {
                Some(n) => self.field_text() is Some && n == self.field_text()->0.len(),
                None => self.field_text() is None,
            },
    {
        match self.editing_field {
            Some(Field::Name) => Some(self.edit_name.as_str().unicode_len()),
            Some(Field::Value) => Some(self.edit_value.as_str().unicode_len()),
            None => None,
        }
    }

    /// Moves the cursor one character to the right, but not past the end.
    pub fn move_cursor_right(&mut self)
        requires
            old(self).wf(),
        ensures
            final(self).wf(),
            final(self).same_but_fields(old(self)),
            final(self).edit_name == old(self).edit_name,
            final(self).edit_value == old(self).edit_value,
            final(self).cursor_x == (match old(self).field_text() {
                Some(text) => smaller(old(self).cursor_x + 1, text.len() as int),
                None => old(self).cursor_x as int,
            }),
    {
        if let Some(len) = self.field_len() {
            if self.cursor_x < len {
                self.cursor_x += 1;
            }
        }
    }

    /// Switches between name and value, with the cursor at the end.
    pub fn switch_editing_field(&mut self)
        requires
            old(self).wf(),
        ensures
            final(self).wf(),
            final(self).selected == old(self).selected,
            final(self).mode == old(self).mode,
            final(self).search == old(self).search,
            final(self).items == old(self).items,
            final(self).editing_key == old(self).editing_key,
            final(self).edit_name == old(self).edit_name,
            final(self).edit_value == old(self).edit_value,
            match old(self).editing_field {
                None => *final(self) == *old(self),
                Some(field) => {
                    &&& final(self).editing_field == Some(
                        if field == Field::Name {
                            Field::Value
                        } else {
                            Field::Name
                        },
                    )
                    &&& final(self).cursor_x == final(self).field_text()->0.len()
                },
            },
    {
        match self.editing_field {
            Some(Field::Name) => {
                self.editing_field = Some(Field::Value);
                self.cursor_x = self.edit_value.as_str().unicode_len();
            },
            Some(Field::Value) => {
                self.editing_field = Some(Field::Name);
                self.cursor_x = self.edit_name.as_str().unicode_len();
            },
            None => {},
        }
    }

    /// The field that is edited now holds `text`; the other one is as `before`.
    pub open spec fn edited_to(&self, before: &EnvVars, text: Seq<char>) -> bool {
        match before.editing_field {
            Some(Field::Name) => self.edit_name@ == text && self.edit_value == before.edit_value,
            Some(Field::Value) => self.edit_value@ == text && self.edit_name == before.edit_name,
            None => self.edit_name == before.edit_name && self.edit_value == before.edit_value,
        }
    }

    /// Inserts a character at the cursor.
    pub fn insert_char(&mut self, c: char)
        requires
            old(self).wf(),
        ensures
            final(self).wf(),
            final(self).same_but_fields(old(self)),
            match old(self).field_text() {
                None => *final(self) == *old(self),
                Some(text) => {
                    &&& final(self).edited_to(old(self), text.insert(old(self).cursor_x as int, c))
                    &&& final(self).cursor_x == old(self).cursor_x + 1
                },
            },
    {
        match self.editing_field {
            Some(Field::Name) => {
                insert_at(&mut self.edit_name, self.cursor_x, c);
                if self.cursor_x < self.edit_name.as_str().unicode_len() {
                    self.cursor_x += 1;
                }
            },
            Some(Field::Value) => {
                insert_at(&mut self.edit_value, self.cursor_x, c);
                if self.cursor_x < self.edit_value.as_str().unicode_len() {
                    self.cursor_x += 1;
                }
            },
            None => {},
        }
    }

    /// Deletes the character in front of the cursor.
    pub fn delete_char(&mut self)
        requires
            old(self).wf(),
        ensures
            final(self).wf(),
            final(self).same_but_fields(old(self)),
            match old(self).field_text() {
                None => *final(self) == *old(self),
                Some(text) => if old(self).cursor_x == 0 {
                    *final(self) == *old(self)
                } else {
                    &&& final(self).edited_to(old(self), text.remove(old(self).cursor_x - 1))
                    &&& final(self).cursor_x == old(self).cursor_x - 1
                },
            },
    {
        if self.cursor_x > 0 {
            match self.editing_field {
                Some(Field::Name) => {
                    self.cursor_x -= 1;
                    remove_at(&mut self.edit_name, self.cursor_x);
                },
                Some(Field::Value) => {
                    self.cursor_x -= 1;
                    remove_at(&mut self.edit_value, self.cursor_x);
                },
                None => {},
            }
        }
    }

    /// Inserts a text at the cursor, without its line ends.
    pub fn paste(&mut self, text: &str)
        requires
            old(self).wf(),
        ensures
            final(self).wf(),
            final(self).same_but_fields(old(self)),
            match old(self).field_text() {
                None => *final(self) == *old(self),
                Some(field) => {
                    let at = old(self).cursor_x as int;
                    let new = pasted(text@);
                    &&& final(self).edited_to(old(self), field.take(at) + new + field.skip(at))
                    &&& final(self).cursor_x == at + new.len()
                },
            },
    {
        if self.editing_field.is_none() {
            return ;
        }
        let chars = chars_of(text);
        let ghost keep = |c: char| c != '\n' && c != '\r';
        let ghost field = self.field_text()->0;
        let ghost at = self.cursor_x as int;
        let mut i: usize = 0;
        proof {
            reveal(Seq::filter);
            assert(chars@.take(0).filter(keep) =~= Seq::empty());
            assert(field.take(at) + Seq::<char>::empty() + field.skip(at) =~= field);
        }
        while i < chars.len()
            invariant
                i <= chars@.len(),
                chars@ == text@,
                keep == (|c: char| c != '\n' && c != '\r'),
                self.wf(),
                self.same_but_fields(old(self)),
                old(self).field_text() == Some(field),
                0 <= at <= field.len(),
                ({
                    let new = chars@.take(i as int).filter(keep);
                    &&& self.edited_to(old(self), field.take(at) + new + field.skip(at))
                    &&& self.cursor_x == at + new.len()
                }),
            decreases chars@.len() - i,
        {
            let c: char = chars[i];
            proof {
                lemma_take_contains(chars@, i as int);
                lemma_filter_push(chars@.take(i as int), c, keep);
            }
            let ghost new = chars@.take(i as int).filter(keep);
            if c != '\n' && c != '\r' {
                self.insert_char(c);
                proof {
                    assert((field.take(at) + new + field.skip(at)).insert(at + new.len() as int, c)
                        =~= field.take(at) + new.push(c) + field.skip(at));
                }
            }
            i += 1;
        }
        assert(chars@.take(i as int) =~= chars@);
    }

    /// What an action of the editor leads to.
    pub open spec fn edit_applied(&self, before: &EnvVars, action: EditAction) -> bool {
        let cursor = before.cursor_x as int;
        match action {
            EditAction::Quit => {
                &&& self.not_editing()
                &&& self.mode == Mode::List
                &&& self.items@.term == before.items@.term
                &&& self.items@.map == (if before.editing_key is Some
                    && before.editing_key->0@.len() == 0 && before.edit_value@.len() == 0 {
                    before.items@.map.remove(Seq::empty())
                } else {
                    before.items@.map
                })
            },
            EditAction::Save => {
                &&& self.not_editing()
                &&& self.mode == Mode::List
                &&& self.items@.term == before.items@.term
                &&& self.items@.map == (match before.editing_key {
                    Some(key) => before.items@.map.remove(key@).insert(
                        before.edit_name@,
                        before.edit_value@,
                    ),
                    None => before.items@.map,
                })
            },
            EditAction::Left => {
                &&& self.same_but_fields(before)
                &&& self.edit_name == before.edit_name
                &&& self.edit_value == before.edit_value
                &&& self.cursor_x == less_by(cursor, 1)
            },
            EditAction::Right => {
                &&& self.same_but_fields(before)
                &&& self.edit_name == before.edit_name
                &&& self.edit_value == before.edit_value
                &&& self.cursor_x == (match before.field_text() {
                    Some(text) => smaller(cursor + 1, text.len() as int),
                    None => cursor,
                })
            },
            EditAction::SwitchField => match before.editing_field {
                None => *self == *before,
                Some(field) => {
                    &&& self.mode == before.mode
                    &&& self.items == before.items
                    &&& self.editing_key == before.editing_key
                    &&& self.edit_name == before.edit_name
                    &&& self.edit_value == before.edit_value
                    &&& self.editing_field == Some(
                        if field == Field::Name {
                            Field::Value
                        } else {
                            Field::Name
                        },
                    )
                    &&& self.cursor_x == self.field_text()->0.len()
                },
            },
            EditAction::Delete => match before.field_text() {
                None => *self == *before,
                Some(text) => if cursor == 0 {
                    *self == *before
                } else {
                    &&& self.same_but_fields(before)
                    &&& self.edited_to(before, text.remove(cursor - 1))
                    &&& self.cursor_x == cursor - 1
                },
            },
            EditAction::Input(c) => match before.field_text() {
                None => *self == *before,
                Some(text) => {
                    &&& self.same_but_fields(before)
                    &&& self.edited_to(before, text.insert(cursor, c))
                    &&& self.cursor_x == cursor + 1
                },
            },
        }
    }

    /// Takes an action of the editor.
    pub fn update_edit(&mut self, action: EditAction)
        requires
            old(self).wf(),
        ensures
            final(self).wf(),
            final(self).edit_applied(old(self), action),
            final(self).selected == old(self).selected,
            final(self).search == old(self).search,
    {
        match action {
            EditAction::Quit => self.exit_inline_edit(),
            EditAction::Save => self.save_inline_edit(),
            EditAction::Left => self.move_cursor_left(),
            EditAction::Right => self.move_cursor_right(),
            EditAction::SwitchField => self.switch_editing_field(),
            EditAction::Delete => self.delete_char(),
            EditAction::Input(c) => self.insert_char(c),
        }
    }
}

/// Removes the character at a place.
fn remove_at(s: &mut String, at: usize)
    requires
        at < old(s)@.len(),
    ensures
        final(s)@ == old(s)@.remove(at as int),
{
    let mut chars = chars_of(s.as_str());
    chars.remove(at);
    *s = string_of(chars.as_slice());
}

/// Deleting undoes typing: text and cursor are as before.
pub proof fn law_delete_undoes_input(text: Seq<char>, cursor: int, c: char)
    requires
        0 <= cursor <= text.len(),
    ensures
        text.insert(cursor, c).remove(cursor + 1 - 1) == text,
{
    assert(text.insert(cursor, c).remove(cursor) =~= text);
}

/// A row of the table.
pub struct EnvRow {
    /// The name between blanks, with the term of the search marked.
    pub name: Line,
    /// The value, with the term of the search marked.
    pub value: Line,
    pub style: Style,
    /// Rows of the terminal that it takes.
    pub height: u16,
}

/// The length of a line in bytes, as a `u16` holds it.
pub open spec fn line_length(line: Seq<char>) -> int {
    encode_utf8(line).len() as usize as u16 as int
}

/// The terminal rows that lines take which wrap at a width, counted in bytes.
pub open spec fn wrapped_rows(lines: Seq<Seq<char>>, width: int) -> int
    decreases lines.len(),
{
    if lines.len() == 0 {
        0
    } else {
        smaller(
            wrapped_rows(lines.drop_last(), width) + (line_length(lines.last()) + width - 1)
                / width,
            u16::MAX as int,
        )
    }
}

/// The terminal rows that a text takes, at least one.
pub open spec fn text_rows(text: Seq<char>, width: int) -> int {
    larger(wrapped_rows(text_lines(text), width), 1)
}

/// The terminal rows that a text takes which wraps at a width.
pub fn line_count(text: &str, width: u16) -> (rows: u16)
    requires
        width > 0,
    ensures
        rows == text_rows(text@, width as int),
{
    let lines = lines_of(text);
    let ghost view = strings_view(lines@);
    let mut rows: u16 = 0;
    let mut i: usize = 0;
    while i < lines.len()
        invariant
            i <= lines@.len(),
            width > 0,
            view == strings_view(lines@),
            rows == wrapped_rows(view.take(i as int), width as int),
        decreases lines@.len() - i,
    {
        let len: u16 = lines[i].as_str().as_bytes().len() as u16;
        let part: u16 = if len % width > 0 {
            1
        } else {
            0
        };
        proof {
            let longer = view.take(i + 1);
            assert(longer.drop_last() =~= view.take(i as int));
            assert(longer.last() == lines@[i as int]@);
            let (l, m) = (len as int, width as int);
            assert((l + m - 1) / m == l / m + (if l % m > 0 { 1int } else { 0int }))
                by (nonlinear_arith)
                requires
                    l >= 0,
                    m > 0,
            ;
            assert(l / m <= l) by (nonlinear_arith)
                requires
                    l >= 0,
                    m > 0,
            ;
        }
        rows = rows.saturating_add((len / width).saturating_add(part));
        i += 1;
    }
    assert(view.take(i as int) =~= view);
    rows.max(1)
}

impl EnvVars {
    /// What a row shows: the editor's fields with the cursor for the variable
    /// that is edited.
    pub open spec fn row_texts(&self, entry: (Seq<char>, Seq<char>)) -> (Seq<char>, Seq<char>) {
        if self.editing_key is Some && self.editing_key->0@ == entry.0 {
            if self.editing_field == Some(Field::Name) {
                (with_cursor(self.edit_name@, self.cursor_x as int), self.edit_value@)
            } else {
                (self.edit_name@, with_cursor(self.edit_value@, self.cursor_x as int))
            }
        } else {
            entry
        }
    }

    /// The row of a variable at a place of the table.
    pub open spec fn is_row(
        &self,
        entry: (Seq<char>, Seq<char>),
        place: int,
        value_width: int,
        theme: Theme,
        row: EnvRow,
    ) -> bool {
        let term = Search::term_in(self.search);
        &&& row.name@ == marked_text(
            " "@ + self.row_texts(entry).0 + " "@,
            term,
            theme.marked(),
        )
        &&& row.value@ == marked_text(self.row_texts(entry).1, term, theme.marked())
        &&& row.style == if self.selected == Some(place as usize) {
            theme.base().add_spec(crate::style::reversed_only())
        } else {
            theme.base()
        }
        &&& row.height == if self.editing_key is Some && self.editing_key->0@ == entry.0 {
            text_rows(entry.1, value_width)
        } else {
            1
        }
    }

    /// The rows of the table: one for each variable that matches the term. The
    /// one that is edited takes as many terminal rows as its value needs.
    pub fn render_envs(&self, value_width: u16, theme: &Theme) -> (rows: Vec<EnvRow>)
        requires
            self.wf(),
            self.editing_key is Some ==> value_width > 0,
        ensures
            rows@.len() == self.items@.active().len(),
            forall|i: int|
                0 <= i < rows@.len() ==> self.is_row(
                    self.items@.active()[i],
                    i,
                    value_width as int,
                    *theme,
                    #[trigger] rows@[i],
                ),
    {
        let active = self.items.active();
        let ghost list = self.items@.active();
        let term = Search::term_of(&self.search);
        let style = theme.style();
        let mark = theme.search_highlight_style();
        let mut rows: Vec<EnvRow> = Vec::new();
        let mut i: usize = 0;
        while i < active.len()
            invariant
                i <= active@.len(),
                rows@.len() == i,
                self.editing_key is Some ==> value_width > 0,
                term@ == Search::term_in(self.search),
                style == theme.base(),
                mark == theme.marked(),
                list == self.items@.active(),
                list == crate::exec::pairs(active@),
                forall|k: int|
                    0 <= k < rows@.len() ==> self.is_row(
                        list[k],
                        k,
                        value_width as int,
                        *theme,
                        #[trigger] rows@[k],
                    ),
            decreases active@.len() - i,
        {
            let (name, value) = &active[i];
            assert(list[i as int] == (name@, value@));
            let editing = match &self.editing_key {
                Some(key) => same_text(key.as_str(), name.as_str()),
                None => false,
            };
            let mut name_text = if editing {
                self.edit_name.clone()
            } else {
                name.clone()
            };
            let mut value_text = if editing {
                self.edit_value.clone()
            } else {
                value.clone()
            };
            if editing {
                if self.editing_field == Some(Field::Name) {
                    insert_cursor(&mut name_text, self.cursor_x);
                } else {
                    insert_cursor(&mut value_text, self.cursor_x);
                }
            }
            let mut padded = " ".to_owned();
            padded.append(name_text.as_str());
            padded.append(" ");
            let selected = match self.selected {
                Some(at) => at == i,
                None => false,
            };
            let height: u16 = if editing {
                line_count(value.as_str(), value_width)
            } else {
                1
            };
            let row_style = if selected {
                style.reversed()
            } else {
                style
            };
            rows.push(
                EnvRow {
                    name: mark_text(padded.as_str(), term.as_str(), mark),
                    value: mark_text(value_text.as_str(), term.as_str(), mark),
                    style: row_style,
                    height,
                },
            );
            i += 1;
        }
        rows
    }

    /// The variables after an action.
    pub open spec fn applied(&self, before: &EnvVars, action: Action) -> bool {
        match action {
            Action::Edit(edit) => self.edit_applied(before, edit),
            Action::Navigation(nav) => self.same_but_selected(before)
                && self.selected == Some(before.moved(nav) as usize),
            Action::ScrollUp => self.same_but_selected(before)
                && self.selected == Some(before.scrolled(false) as usize),
            Action::ScrollDown => self.same_but_selected(before)
                && self.selected == Some(before.scrolled(true) as usize),
            Action::Quit => *self == *before,
            Action::Main(main) => self.list_applied(before, main),
            Action::Search(search) => self.search_applied(before, search),
        }
    }

    /// Takes an action; `Quit` is handed to the owner.
    pub fn update(&mut self, action: Action) -> (outcome: Option<Action>)
        requires
            old(self).wf(),
        ensures
            final(self).wf(),
            outcome == (if action == Action::Quit || action == Action::Main(MainAction::Quit) {
                Some(Action::Quit)
            } else {
                None
            }),
            final(self).applied(old(self), action),
    {
        match action {
            Action::Main(main) => self.update_list(main),
            Action::Edit(edit) => {
                self.update_edit(edit);
                None
            },
            Action::Search(search) => {
                self.update_search(search);
                None
            },
            Action::Navigation(nav) => {
                self.navigate(nav);
                None
            },
            Action::ScrollUp => {
                self.scroll(false);
                None
            },
            Action::ScrollDown => {
                self.scroll(true);
                None
            },
            Action::Quit => Some(Action::Quit),
        }
    }
}

impl EnvVars {
    /// The search as the footer shows it, while there is one.
    pub fn footer_line(&self) -> (line: Option<String>)
        ensures
            match self.search {
                Some(search) => if self.mode == Mode::Search {
                    line is Some && line->0@ == search@.footer()
                } else {
                    line is None
                },
                None => line is None,
            },
    {
        if self.mode != Mode::Search {
            return None;
        }
        match &self.search {
            Some(search) => Some(search.footer_line()),
            None => None,
        }
    }

    /// Whether the footer lists the key of an action while a variable is edited.
    pub fn lists_edit_key(action: EditAction) -> (listed: bool)
        ensures
            listed == (action == EditAction::Quit || action == EditAction::Save || action
                == EditAction::SwitchField),
    {
        match action {
            EditAction::Quit | EditAction::Save | EditAction::SwitchField => true,
            _ => false,
        }
    }
}

/// Going on and going back in a circle undo each other, and each goes to a neighbour.
pub proof fn law_circles_close(i: int, len: int)
    requires
        0 <= i < len,
    ensures
        circle_prev(circle_next(i, len), len) == i,
        circle_next(circle_prev(i, len), len) == i,
        0 <= circle_next(i, len) < len,
        i + 1 < len ==> circle_next(i, len) == i + 1,
        i + 1 == len ==> circle_next(i, len) == 0,
        i > 0 ==> circle_prev(i, len) == i - 1,
        i == 0 ==> circle_prev(i, len) == len - 1,
{
    let next = circle_next(i, len);
    let prev = circle_prev(i, len);
    assert(next == (if i + 1 == len { 0 } else { i + 1 })) by (nonlinear_arith)
        requires
            0 <= i < len,
            next == (i + 1) % len,
    ;
    assert(prev == (if i == 0 { len - 1 } else { i - 1 })) by (nonlinear_arith)
        requires
            0 <= i < len,
            prev == (i + len - 1) % len,
    ;
    let back = circle_prev(next, len);
    let forth = circle_next(prev, len);
    assert(back == (if next == 0 { len - 1 } else { next - 1 })) by (nonlinear_arith)
        requires
            0 <= next < len,
            back == (next + len - 1) % len,
    ;
    assert(forth == (if prev + 1 == len { 0 } else { prev + 1 })) by (nonlinear_arith)
        requires
            0 <= prev < len,
            forth == (prev + 1) % len,
    ;
}

impl EnvVars {
    /// A variable that was edited and saved has the name and the value of the editor.
    /// Its former name is gone where it was changed, and the other variables stay.
    pub proof fn law_saving_sets_the_variable(before: EnvVars, saved: EnvVars, other: Seq<char>)
        requires
            before.editing_key is Some,
            saved.edit_applied(&before, EditAction::Save),
        ensures
            saved.items@.map.contains_key(before.edit_name@),
            saved.items@.map[before.edit_name@] == before.edit_value@,
            before.editing_key->0@ != before.edit_name@ ==> !saved.items@.map.contains_key(
                before.editing_key->0@,
            ),
            other != before.edit_name@ && other != before.editing_key->0@ ==> (
            saved.items@.map.contains_key(other) <==> before.items@.map.contains_key(other)) && (
            before.items@.map.contains_key(other) ==> saved.items@.map[other]
                == before.items@.map[other]),
            saved.editing_key is None,
            saved.mode == Mode::List,
    {
    }

    /// Leaving the editor without saving changes no variable, but for a new one without
    /// a name and a value, which is gone.
    pub proof fn law_quitting_the_editor_changes_nothing(
        before: EnvVars,
        quit: EnvVars,
        name: Seq<char>,
    )
        requires
            quit.edit_applied(&before, EditAction::Quit),
            name.len() > 0 || before.edit_value@.len() > 0 || before.editing_key is None,
        ensures
            quit.items@.map.contains_key(name) <==> before.items@.map.contains_key(name),
            before.items@.map.contains_key(name) ==> quit.items@.map[name]
                == before.items@.map[name],
            quit.editing_key is None,
            quit.mode == Mode::List,
    {
    }

    /// What is opened for editing is the selected variable: name and value are those
    /// that it has.
    pub proof fn law_the_selected_variable_is_edited(before: EnvVars, opened: EnvVars)
        requires
            before.items.wf(),
            before.selected is Some,
            before.selected->0 < before.items@.active().len(),
            opened.list_applied(&before, MainAction::Select),
        ensures
            opened.mode == Mode::Edit,
            opened.editing_key is Some,
            opened.editing_key->0@ == before.items@.active()[before.selected->0 as int].0,
            before.items@.map.contains_key(opened.edit_name@),
            before.items@.map[opened.edit_name@] == opened.edit_value@,
            opened.edit_name@ == opened.editing_key->0@,
    {
        before.items.law_listing_is_the_map();
        let entry = before.items@.active()[before.selected->0 as int];
        assert(before.items@.active().contains(entry));
        before.items@.law_active_lists_the_map(entry);
    }

    /// A typed character stands where the cursor was, and the cursor behind it; deleting
    /// takes it away again.
    pub proof fn law_typing_goes_to_the_cursor(
        before: EnvVars,
        typed: EnvVars,
        deleted: EnvVars,
        c: char,
    )
        requires
            before.wf(),
            before.field_text() is Some,
            typed.edit_applied(&before, EditAction::Input(c)),
            deleted.edit_applied(&typed, EditAction::Delete),
        ensures
            typed.field_text() is Some,
            typed.field_text()->0.len() == before.field_text()->0.len() + 1,
            typed.field_text()->0[before.cursor_x as int] == c,
            typed.field_text()->0.take(before.cursor_x as int) == before.field_text()->0.take(
                before.cursor_x as int,
            ),
            typed.field_text()->0.skip(before.cursor_x + 1) == before.field_text()->0.skip(
                before.cursor_x as int,
            ),
            typed.cursor_x == before.cursor_x + 1,
            deleted.field_text() == before.field_text(),
            deleted.cursor_x == before.cursor_x,
            before.editing_field == Some(Field::Name) ==> typed.edit_value == before.edit_value,
            before.editing_field == Some(Field::Value) ==> typed.edit_name == before.edit_name,
            typed.items == before.items,
    {
        let text = before.field_text()->0;
        let at = before.cursor_x as int;
        assert(text.insert(at, c).take(at) =~= text.take(at));
        assert(text.insert(at, c).skip(at + 1) =~= text.skip(at));
        assert(text.insert(at, c).remove(at) =~= text);
    }

    /// The cursor moves by one character, within the text; switching the field twice
    /// leads back to it.
    pub proof fn law_the_cursor_moves_by_one(
        before: EnvVars,
        left: EnvVars,
        right: EnvVars,
        switched: EnvVars,
        back: EnvVars,
    )
        requires
            before.wf(),
            before.field_text() is Some,
            left.edit_applied(&before, EditAction::Left),
            right.edit_applied(&before, EditAction::Right),
            switched.edit_applied(&before, EditAction::SwitchField),
            back.edit_applied(&switched, EditAction::SwitchField),
        ensures
            before.cursor_x > 0 ==> left.cursor_x == before.cursor_x - 1,
            before.cursor_x == 0 ==> left.cursor_x == 0,
            before.cursor_x < before.field_text()->0.len() ==> right.cursor_x == before.cursor_x
                + 1,
            before.cursor_x == before.field_text()->0.len() ==> right.cursor_x == before.cursor_x,
            left.field_text() == before.field_text(),
            right.field_text() == before.field_text(),
            switched.editing_field != before.editing_field,
            back.editing_field == before.editing_field,
            back.field_text() == before.field_text(),
            switched.cursor_x == switched.field_text()->0.len(),
    {
    }

    /// Moving in the table goes to the neighbours, round from one end to the other, to
    /// the ends, or by ten; the wheel goes by three and stops at the ends.
    pub proof fn law_moves_in_the_table(&self)
        requires
            self.selected is Some,
            self.selected->0 < self.items@.active().len(),
        ensures
            ({
                let i = self.selected->0 as int;
                let n = self.items@.active().len() as int;
                &&& self.moved(Navigation::Next) == (if i + 1 < n {
                    i + 1
                } else {
                    0
                })
                &&& self.moved(Navigation::Prev) == (if i > 0 {
                    i - 1
                } else {
                    n - 1
                })
                &&& self.moved(Navigation::First) == 0
                &&& self.moved(Navigation::Last) == n - 1
                &&& i + 10 < n ==> self.moved(Navigation::PageDown) == i + 10
                &&& i + 10 >= n ==> self.moved(Navigation::PageDown) == n - 1
                &&& i >= 10 ==> self.moved(Navigation::PageUp) == i - 10
                &&& i < 10 ==> self.moved(Navigation::PageUp) == 0
                &&& i + 3 < n ==> self.scrolled(true) == i + 3
                &&& i + 3 >= n ==> self.scrolled(true) == n - 1
                &&& i >= 3 ==> self.scrolled(false) == i - 3
                &&& i < 3 ==> self.scrolled(false) == 0
            }),
    {
        law_circles_close(self.selected->0 as int, self.items@.active().len() as int);
    }

    /// A row shows the variable as it is, or what the editor holds with the cursor in
    /// the field that is edited.
    pub proof fn law_rows_show_the_variable(&self, entry: (Seq<char>, Seq<char>))
        requires
            self.wf(),
        ensures
            self.editing_key is None ==> self.row_texts(entry) == entry,
            self.editing_key is Some && self.editing_key->0@ != entry.0 ==> self.row_texts(entry)
                == entry,
            self.editing_key is Some && self.editing_key->0@ == entry.0 && self.editing_field
                == Some(Field::Name) ==> self.row_texts(entry).0.remove(self.cursor_x as int)
                == self.edit_name@ && self.row_texts(entry).1 == self.edit_value@,
            self.editing_key is Some && self.editing_key->0@ == entry.0 && self.editing_field
                == Some(Field::Value) ==> self.row_texts(entry).1.remove(self.cursor_x as int)
                == self.edit_value@ && self.row_texts(entry).0 == self.edit_name@,
    {
        assert(self.cursor_x <= self.edit_name@.len() ==> self.edit_name@.insert(
            self.cursor_x as int,
            '█',
        ).remove(self.cursor_x as int) =~= self.edit_name@);
        assert(self.cursor_x <= self.edit_value@.len() ==> self.edit_value@.insert(
            self.cursor_x as int,
            '█',
        ).remove(self.cursor_x as int) =~= self.edit_value@);
    }

    /// While a term is typed, exactly the variables that hold it in their name or value
    /// are listed; leaving the search lists all again, and none is changed.
    pub proof fn law_searching_only_filters(
        before: EnvVars,
        typed: EnvVars,
        quit: EnvVars,
        c: char,
    )
        requires
            before.search is Some,
            typed.search_applied(&before, SearchAction::Input(c)),
            quit.search_applied(&typed, SearchAction::Quit),
        ensures
            typed.items@.map == before.items@.map,
            typed.items@.term == Search::term_in(before.search).push(c),
            quit.items@.map == before.items@.map,
            quit.items@.term.len() == 0,
            quit.search is None,
            quit.mode == Mode::List,
    {
    }
}

/// What is pasted becomes one line: line ends are left out, and all else is kept.
pub proof fn law_pasted_text_is_one_line(text: Seq<char>, c: char)
    ensures
        !pasted(text).contains('\n'),
        !pasted(text).contains('\r'),
        c != '\n' && c != '\r' ==> pasted(text.push(c)) == pasted(text).push(c),
        pasted(text.push('\n')) == pasted(text),
        pasted(text.push('\r')) == pasted(text),
        pasted(Seq::empty()).len() == 0,
{
    let keep = |c: char| c != '\n' && c != '\r';
    crate::seqs::lemma_filter_contains(text, keep);
    crate::seqs::lemma_filter_push(text, c, keep);
    crate::seqs::lemma_filter_push(text, '\n', keep);
    crate::seqs::lemma_filter_push(text, '\r', keep);
    reveal(Seq::filter);
}

impl EnvVars {
    /// The selected row is reversed, and no other; only the row that is edited is higher
    /// than one line.
    pub proof fn law_the_selected_row_stands_out(
        &self,
        entry: (Seq<char>, Seq<char>),
        place: usize,
        value_width: int,
        theme: Theme,
        row: EnvRow,
    )
        requires
            self.is_row(entry, place as int, value_width, theme, row),
        ensures
            self.selected == Some(place) ==> row.style.add.reversed,
            self.selected != Some(place) ==> row.style == theme.base(),
            row.height >= 1,
            self.editing_key is None ==> row.height == 1,
            self.editing_key is Some && self.editing_key->0@ != entry.0 ==> row.height == 1,
    {
    }
}

} // verus!
