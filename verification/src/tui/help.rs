//! Overlay that lists the key bindings, with a live filter.

use vstd::prelude::*;
use vstd::utf8::encode_utf8;

use crate::num::{fit_u16, less_by, smaller};
use crate::seqs::{indices_where, lemma_indices_where};
use crate::style::{line_view, lines_view, plain, Span, Style};
use crate::text::{
    chars_of, contains, contains_text, decimal, decimal_text, lowercase, lowercase_of, repeat_char,
    repeated, same_text, string_of,
};
use crate::theme::Theme;

verus! {

/// A key binding as it is listed.
pub struct KeymapEntry {
    pub section: String,
    pub symbol: String,
    pub description: String,
    pub search_text: String,
}

/// A key binding as it is configured.
pub struct KeyItem {
    pub symbol: Option<String>,
    pub keys: Vec<String>,
    pub description: String,
    pub help: Option<String>,
}

/// The key bindings by section, with a filter query.
pub struct Help {
    pub all_items: Vec<KeymapEntry>,
    pub query: String,
    /// Places of the matching entries.
    pub matches: Vec<usize>,
    pub scroll: u16,
}

#[derive(Clone, Copy, Debug, PartialEq, Eq, Hash, Structural)]
pub enum Action {
    /// Closes the help overlay.
    Quit,
    Delete,
    Next,
    Prev,
    Input(char),
}

impl KeymapEntry {
    pub fn new(section: &str, symbol: String, description: String, search_text: String) -> (entry:
        KeymapEntry)
        ensures
            entry.section@ == section@,
            entry.symbol == symbol,
            entry.description == description,
            entry.search_text == search_text,
    {
        KeymapEntry { section: section.to_owned(), symbol, description, search_text }
    }

    /// Whether the query stands in the search text.
    pub fn matches(&self, query: &str) -> (found: bool)
        ensures
            found == contains_text(self.search_text@, query@),
    {
        contains(self.search_text.as_str(), query)
    }
}

impl KeyItem {
    /// The symbol, or else the first key.
    pub open spec fn shown_symbol(&self) -> Option<Seq<char>> {
        match self.symbol {
            Some(symbol) => Some(symbol@),
            None => if self.keys@.len() > 0 {
                Some(self.keys@[0]@)
            } else {
                None
            },
        }
    }

    /// The description, or else the help text.
    pub open spec fn shown_description(&self) -> Seq<char> {
        if self.description@.len() > 0 {
            self.description@
        } else {
            match self.help {
                Some(help) => help@,
                None => Seq::empty(),
            }
        }
    }

    /// The binding is meant for users: it has a key of its own and a
    /// description.
    pub open spec fn listed(&self) -> bool {
        &&& self.shown_symbol() is Some
        &&& self.shown_symbol()->0.len() > 0
        &&& self.shown_symbol()->0 != "@any"@
        &&& self.shown_description().len() > 0
    }

    /// The first `count` keys that differ from the symbol, each behind a blank.
    pub open spec fn other_keys(&self, symbol: Seq<char>, count: int) -> Seq<char>
        decreases count,
    {
        if count <= 0 {
            Seq::empty()
        } else {
            let before = self.other_keys(symbol, count - 1);
            let key = self.keys@[count - 1]@;
            if key == symbol {
                before
            } else {
                before + " "@ + lowercase_of(key)
            }
        }
    }

    /// What a query is matched against: section, symbol and description, and the
    /// other keys, in lower case.
    pub open spec fn searched(&self, section: Seq<char>) -> Seq<char> {
        let symbol = self.shown_symbol()->0;
        lowercase_of(section + " "@ + symbol + " "@ + self.shown_description()) + self.other_keys(
            symbol,
            self.keys@.len() as int,
        )
    }
}

/// The entry of a key binding, `None` for one that is not meant for users.
pub fn keymap_entry(section: &str, item: &KeyItem) -> (entry: Option<KeymapEntry>)
    ensures
        entry is Some <==> item.listed(),
        entry matches Some(e) ==> {
            &&& e.section@ == section@
            &&& e.symbol@ == item.shown_symbol()->0
            &&& e.description@ == item.shown_description()
            &&& e.search_text@ == item.searched(section@)
        },
{
    let symbol = match &item.symbol {
        Some(symbol) => symbol.clone(),
        None => {
            if item.keys.len() == 0 {
                return None;
            }
            item.keys[0].clone()
        },
    };
    if symbol.as_str().is_empty() || same_text(symbol.as_str(), "@any") {
        return None;
    }
    let description = if !item.description.as_str().is_empty() {
        item.description.clone()
    } else {
        match &item.help {
            Some(help) => help.clone(),
            None => String::new(),
        }
    };
    if description.as_str().is_empty() {
        return None;
    }
    let mut text = section.to_owned();
    text.append(" ");
    text.append(symbol.as_str());
    text.append(" ");
    text.append(description.as_str());
    let mut search_text = lowercase(text.as_str());
    let ghost start = search_text@;
    let mut i: usize = 0;
    assert(start + item.other_keys(symbol@, 0) =~= start);
    while i < item.keys.len()
        invariant
            i <= item.keys@.len(),
            search_text@ == start + item.other_keys(symbol@, i as int),
        decreases item.keys@.len() - i,
    {
        if !same_text(item.keys[i].as_str(), symbol.as_str()) {
            search_text.append(" ");
            search_text.append(lowercase(item.keys[i].as_str()).as_str());
        }
        assert(search_text@ =~= start + item.other_keys(symbol@, i + 1));
        i += 1;
    }
    Some(KeymapEntry::new(section, symbol, description, search_text))
}

/// The entries of some key bindings.
pub open spec fn is_entry_list(
    section: Seq<char>,
    items: Seq<KeyItem>,
    entries: Seq<KeymapEntry>,
) -> bool
    decreases items.len(),
{
    if items.len() == 0 {
        entries.len() == 0
    } else if items.last().listed() {
        &&& entries.len() > 0
        &&& entries.last().section@ == section
        &&& entries.last().symbol@ == items.last().shown_symbol()->0
        &&& entries.last().description@ == items.last().shown_description()
        &&& entries.last().search_text@ == items.last().searched(section)
        &&& is_entry_list(section, items.drop_last(), entries.drop_last())
    } else {
        is_entry_list(section, items.drop_last(), entries)
    }
}

/// Extracts user-facing keymap entries, skipping implementation-only bindings.
pub fn collect_keymap_entries(section: &str, items: &[KeyItem]) -> (entries: Vec<KeymapEntry>)
    ensures
        is_entry_list(section@, items@, entries@),
{
    let mut entries: Vec<KeymapEntry> = Vec::new();
    let mut i: usize = 0;
    while i < items.len()
        invariant
            i <= items@.len(),
            is_entry_list(section@, items@.take(i as int), entries@),
        decreases items@.len() - i,
    {
        let ghost before = entries@;
        proof {
            assert(items@.take(i + 1).drop_last() =~= items@.take(i as int));
        }
        if let Some(entry) = keymap_entry(section, &items[i]) {
            entries.push(entry);
            assert(entries@.drop_last() =~= before);
        }
        i += 1;
    }
    assert(items@.take(i as int) =~= items@);
    entries
}

/// The title of a section.
pub open spec fn section_title(section: Seq<char>) -> Seq<char> {
    if section == "home"@ {
        "Home"@
    } else if section == "output"@ {
        "Output"@
    } else if section == "cli"@ {
        "CLI"@
    } else if section == "menu"@ {
        "Menu"@
    } else if section == "preview"@ {
        "Preview"@
    } else if section == "confirm"@ {
        "Confirm"@
    } else if section == "search"@ {
        "Search"@
    } else if section == "goto"@ {
        "Goto"@
    } else if section == "file_picker"@ {
        "File picker"@
    } else if section == "help"@ {
        "Help"@
    } else if section == "envs"@ {
        "Envs"@
    } else if section == "envs_edit"@ {
        "Envs (edit)"@
    } else if section == "themes"@ {
        "Themes"@
    } else {
        "?"@
    }
}

/// The title of a section.
pub fn section_display(section: &str) -> (title: &'static str)
    ensures
        title@ == section_title(section@),
{
    if same_text(section, "home") {
        "Home"
    } else if same_text(section, "output") {
        "Output"
    } else if same_text(section, "cli") {
        "CLI"
    } else if same_text(section, "menu") {
        "Menu"
    } else if same_text(section, "preview") {
        "Preview"
    } else if same_text(section, "confirm") {
        "Confirm"
    } else if same_text(section, "search") {
        "Search"
    } else if same_text(section, "goto") {
        "Goto"
    } else if same_text(section, "file_picker") {
        "File picker"
    } else if same_text(section, "help") {
        "Help"
    } else if same_text(section, "envs") {
        "Envs"
    } else if same_text(section, "envs_edit") {
        "Envs (edit)"
    } else if same_text(section, "themes") {
        "Themes"
    } else {
        "?"
    }
}

/// A row of the list: a section's title, or one or two entries of a section.
#[derive(Clone, Copy, Debug, PartialEq, Eq, Structural)]
pub enum HelpRow {
    /// The title of the section of the entry at this place.
    Section(usize),
    /// The entry at this place.
    One(usize),
    /// The entries at these places, side by side.
    Two(usize, usize),
}

/// The rows of the entries at the listed places from `i` on, where `open` tells
/// whether the title of the section of entry `i` has been given: each section
/// starts with its title, and its entries follow two by two.
pub open spec fn rows_from(
    items: Seq<KeymapEntry>,
    matches: Seq<usize>,
    i: int,
    open: bool,
) -> Seq<HelpRow>
    decreases
            matches.len() - i,
            if open {
                0int
            } else {
                1int
            },
{
    if i < 0 || i >= matches.len() {
        Seq::empty()
    } else if !open {
        seq![HelpRow::Section(matches[i])] + rows_from(items, matches, i, true)
    } else if i + 1 < matches.len() && same_section(items, matches, i) {
        seq![HelpRow::Two(matches[i], matches[i + 1])] + rows_from(
            items,
            matches,
            i + 2,
            same_section(items, matches, i + 1),
        )
    } else {
        seq![HelpRow::One(matches[i])] + rows_from(items, matches, i + 1, false)
    }
}

/// The entry at the listed place after `i` is of the same section.
pub open spec fn same_section(items: Seq<KeymapEntry>, matches: Seq<usize>, i: int) -> bool {
    i + 1 < matches.len() && items[matches[i] as int].section@ == items[matches[i
        + 1] as int].section@
}

impl Help {
    /// An entry matches the query.
    pub open spec fn entry_matches(&self, i: int) -> bool {
        self.query@.len() == 0 || contains_text(
            self.all_items@[i].search_text@,
            lowercase_of(self.query@),
        )
    }

    /// The matches are those of the query.
    pub open spec fn wf(&self) -> bool {
        &&& self.all_items@.len() <= usize::MAX
        &&& self.matches@ == indices_where(
            self.all_items@.len(),
            |i: int| self.entry_matches(i),
        )
    }

    pub fn new(all_items: Vec<KeymapEntry>) -> (help: Help)
        ensures
            help.wf(),
            help.all_items == all_items,
            help.query@.len() == 0,
            help.scroll == 0,
    {
        let mut help = Help { all_items, query: String::new(), matches: Vec::new(), scroll: 0 };
        help.rebuild();
        help
    }

    /// The places of the entries that match the query.
    pub fn build_matches(&self) -> (matches: Vec<usize>)
        ensures
            matches@ == indices_where(self.all_items@.len(), |i: int| self.entry_matches(i)),
            self.all_items@.len() <= usize::MAX,
    {
        let lower = lowercase(self.query.as_str());
        let empty = self.query.as_str().is_empty();
        let ghost keep = |i: int| self.entry_matches(i);
        let mut matches: Vec<usize> = Vec::new();
        let count: usize = self.all_items.len();
        let mut i: usize = 0;
        while i < count
            invariant
                i <= count,
                count == self.all_items@.len(),
                lower@ == lowercase_of(self.query@),
                empty == (self.query@.len() == 0),
                keep == (|i: int| self.entry_matches(i)),
                matches@ == indices_where(i as nat, keep),
            decreases count - i,
        {
            if empty || self.all_items[i].matches(lower.as_str()) {
                matches.push(i);
            }
            i += 1;
        }
        matches
    }

    /// Recomputes the matches and scrolls to the top.
    fn rebuild(&mut self)
        ensures
            final(self).wf(),
            final(self).all_items == old(self).all_items,
            final(self).query == old(self).query,
            final(self).scroll == 0,
    {
        let matches = self.build_matches();
        let ghost keep = |i: int| self.entry_matches(i);
        self.matches = matches;
        self.scroll = 0;
        assert((|i: int| self.entry_matches(i)) =~= keep);
    }

    /// The help after an action.
    pub open spec fn applied(&self, before: &Help, action: Action) -> bool {
        &&& self.all_items == before.all_items
        &&& self.query@ == (match action {
                Action::Input(ch) => if ch == '\0' {
                    before.query@
                } else {
                    before.query@.push(ch)
                },
                Action::Delete => if before.query@.len() > 0 {
                    before.query@.drop_last()
                } else {
                    before.query@
                },
                _ => before.query@,
            })
        &&& self.scroll == (match action {
                Action::Input(ch) => if ch == '\0' {
                    before.scroll as int
                } else {
                    0
                },
                Action::Delete => 0,
                Action::Next => if before.matches@.len() > 0 {
                    fit_u16(before.scroll + 1)
                } else {
                    before.scroll as int
                },
                Action::Prev => less_by(before.scroll as int, 1),
                Action::Quit => before.scroll as int,
            })
    }

    /// Takes an action; `Quit` is handed to the owner.
    pub fn update(&mut self, action: Action) -> (outcome: Option<Action>)
        requires
            old(self).wf(),
        ensures
            final(self).wf(),
            outcome == (if action is Quit {
                Some(Action::Quit)
            } else {
                None
            }),
            final(self).applied(old(self), action),
    {
        match action {
            Action::Quit => Some(Action::Quit),
            Action::Input(ch) => {
                if ch != '\0' {
                    self.query.push(ch);
                    self.rebuild();
                }
                None
            },
            Action::Delete => {
                self.query.pop();
                self.rebuild();
                None
            },
            Action::Next => {
                let ghost keep = |i: int| self.entry_matches(i);
                if !self.matches.is_empty() {
                    self.scroll = self.scroll.saturating_add(1);
                }
                assert((|i: int| self.entry_matches(i)) =~= keep);
                None
            },
            Action::Prev => {
                let ghost keep = |i: int| self.entry_matches(i);
                self.scroll = self.scroll.saturating_sub(1);
                assert((|i: int| self.entry_matches(i)) =~= keep);
                None
            },
        }
    }

    /// The rows of the list.
    pub open spec fn row_list(&self) -> Seq<HelpRow> {
        rows_from(self.all_items@, self.matches@, 0, false)
    }

    fn next_is_same_section(&self, i: usize) -> (same: bool)
        requires
            i < self.matches@.len(),
            forall|k: int|
                0 <= k < self.matches@.len() ==> (#[trigger] self.matches@[k])
                    < self.all_items@.len(),
        ensures
            same == same_section(self.all_items@, self.matches@, i as int),
    {
        let count: usize = self.matches.len();
        i + 1 < count && same_text(
            self.all_items[self.matches[i]].section.as_str(),
            self.all_items[self.matches[i + 1]].section.as_str(),
        )
    }

    /// The rows of the list.
    pub fn build_rows(&self) -> (rows: Vec<HelpRow>)
        requires
            self.wf(),
        ensures
            rows@ == self.row_list(),
    {
        proof {
            lemma_indices_where(self.all_items@.len(), |i: int| self.entry_matches(i));
        }
        let mut rows: Vec<HelpRow> = Vec::new();
        let mut i: usize = 0;
        let mut open = false;
        let count: usize = self.matches.len();
        assert(rows@ + self.row_list() =~= self.row_list());
        while i < count
            invariant
                i <= count,
                count == self.matches@.len(),
                forall|k: int|
                    0 <= k < self.matches@.len() ==> (#[trigger] self.matches@[k])
                        < self.all_items@.len(),
                rows@ + rows_from(self.all_items@, self.matches@, i as int, open)
                    == self.row_list(),
            decreases count - i,
        {
            let ghost before = rows@;
            let ghost rest = rows_from(self.all_items@, self.matches@, i as int, open);
            if !open {
                rows.push(HelpRow::Section(self.matches[i]));
                assert(rows@ + rows_from(self.all_items@, self.matches@, i as int, true)
                    =~= before + rest);
            }
            let ghost middle = rows@;
            let ghost rest = rows_from(self.all_items@, self.matches@, i as int, true);
            if self.next_is_same_section(i) {
                rows.push(HelpRow::Two(self.matches[i], self.matches[i + 1]));
                open = self.next_is_same_section(i + 1);
                i += 2;
            } else {
                rows.push(HelpRow::One(self.matches[i]));
                open = false;
                i += 1;
            }
            assert(rows@ + rows_from(self.all_items@, self.matches@, i as int, open) =~= middle
                + rest);
        }
        assert(rows@ + Seq::<HelpRow>::empty() =~= rows@);
        rows
    }

    /// The rows that are shown in a list of the given height.
    pub fn visible_rows(&self, height: u16) -> (rows: Vec<HelpRow>)
        requires
            self.wf(),
        ensures
            rows@ == shown_rows(self.row_list(), self.scroll as int, height as int),
    {
        let all = self.build_rows();
        let visible: usize = height as usize;
        let total: usize = all.len();
        let mut rows: Vec<HelpRow> = Vec::new();
        if visible == 0 || total == 0 {
            assert(rows@ =~= shown_rows(self.row_list(), self.scroll as int, height as int));
            return rows;
        }
        let start: usize = (self.scroll as usize).min(total.saturating_sub(visible));
        let end: usize = start.saturating_add(visible).min(total);
        rows.extend_from_slice(vstd::slice::slice_subrange(all.as_slice(), start, end));
        assert(rows@ =~= all@.subrange(start as int, end as int));
        rows
    }

    /// The footer lists the key of an action.
    pub fn lists(action: Action) -> (listed: bool)
        ensures
            listed == (action is Quit || action is Delete),
    {
        matches!(action, Action::Quit | Action::Delete)
    }

    /// What is shown in place of an empty list.
    pub fn empty_message(&self) -> (message: &'static str)
        ensures
            message@ == (if self.all_items@.len() == 0 {
                "No keybindings loaded"@
            } else {
                "No matching keybindings"@
            }),
    {
        if self.all_items.is_empty() {
            "No keybindings loaded"
        } else {
            "No matching keybindings"
        }
    }

    /// The query to the left, the number of matches to the right.
    pub open spec fn filter_texts(&self) -> (Seq<char>, Seq<char>) {
        (
            "Filter: "@ + self.query@,
            "("@ + decimal_text(self.matches@.len()) + "/"@ + decimal_text(self.all_items@.len())
                + ")"@,
        )
    }

    /// The line with the query and the number of matches, as wide as an area.
    pub fn filter_line(&self, width: u16, theme: &Theme) -> (spans: Vec<Span>)
        ensures
            ({
                let (left, right) = self.filter_texts();
                let gap = less_by(
                    width as int,
                    (encode_utf8(left).len() + encode_utf8(right).len() + 2) as int,
                );
                line_view(spans@) == seq![
                    (left, plain()),
                    (repeated(' ', gap as nat), plain()),
                    (right, plain().fg_spec(theme.muted)),
                ]
            }),
    {
        let mut left = "Filter: ".to_owned();
        left.append(self.query.as_str());
        let mut right = "(".to_owned();
        right.append(decimal(self.matches.len() as u64).as_str());
        right.append("/");
        right.append(decimal(self.all_items.len() as u64).as_str());
        right.append(")");
        let left_len: usize = left.as_str().as_bytes().len();
        let right_len: usize = right.as_str().as_bytes().len();
        let used: usize = left_len.saturating_add(right_len).saturating_add(2);
        let gap: usize = (width as usize).saturating_sub(used);
        let ghost (l, r) = (left@, right@);
        let mut spans: Vec<Span> = Vec::new();
        spans.push(Span::styled(left, Style::default()));
        spans.push(Span::styled(repeat_char(' ', gap), Style::default()));
        spans.push(Span::styled(right, Style::default().fg(theme.muted)));
        assert(line_view(spans@) =~= seq![
            (l, plain()),
            (repeated(' ', gap as nat), plain()),
            (r, plain().fg_spec(theme.muted)),
        ]);
        spans
    }
}

/// The rows from the scroll position on that fit a height; the last row stays at
/// the bottom.
pub open spec fn shown_rows(rows: Seq<HelpRow>, scroll: int, height: int) -> Seq<HelpRow> {
    if height == 0 || rows.len() == 0 {
        Seq::empty()
    } else {
        let start = smaller(scroll, less_by(rows.len() as int, height));
        rows.subrange(start, smaller(start + height, rows.len() as int))
    }
}

/// A cell of the list: symbol and description.
pub open spec fn cell_line(entry: KeymapEntry, theme: Theme) -> Seq<(Seq<char>, Style)> {
    seq![
        (" "@ + entry.symbol@, theme.active_fg()),
        (" "@ + entry.description@, plain()),
    ]
}

/// A cell of the list: symbol and description.
pub fn entry_cell(entry: &KeymapEntry, theme: &Theme) -> (spans: Vec<Span>)
    ensures
        line_view(spans@) == cell_line(*entry, *theme),
{
    let mut symbol = " ".to_owned();
    symbol.append(entry.symbol.as_str());
    let mut description = " ".to_owned();
    description.append(entry.description.as_str());
    let mut spans: Vec<Span> = Vec::new();
    spans.push(Span::styled(symbol, theme.active_fg_style()));
    spans.push(Span::styled(description, Style::default()));
    assert(line_view(spans@) =~= cell_line(*entry, *theme));
    spans
}

/// The title row of an entry's section.
pub fn section_cell(entry: &KeymapEntry, theme: &Theme) -> (span: Span)
    ensures
        span@ == ("  "@ + section_title(entry.section@), theme.code_info()),
{
    let mut title = "  ".to_owned();
    title.append(section_display(entry.section.as_str()));
    Span::styled(title, theme.code_info_style())
}

/// A row of the logo.
pub fn logo_row(i: usize) -> (row: &'static str)
    requires
        i < 4,
    ensures
        row@ == logo_text(i as int),
{
    match i {
        0 => "                   ▄",
        1 => "█  █ █▀▀█ █▀█▀█ █▀▀█",
        2 => "█▄▄█ █▄▄█ █ █ █ █▄▄█",
        _ => "     ▀              ",
    }
}

/// A row of the logo.
pub open spec fn logo_text(i: int) -> Seq<char> {
    if i == 0 {
        "                   ▄"@
    } else if i == 1 {
        "█  █ █▀▀█ █▀█▀█ █▀▀█"@
    } else if i == 2 {
        "█▄▄█ █▄▄█ █ █ █ █▄▄█"@
    } else {
        "     ▀              "@
    }
}

/// The blanks in front of the logo on a line of the given width.
pub open spec fn logo_padding(width: int) -> int {
    less_by(width, logo_text(3).len() as int) / 2
}

/// A row of the logo in the middle of a line: the first ten columns in the brand
/// color.
pub open spec fn logo_line(i: int, width: int, theme: Theme) -> Seq<(Seq<char>, Style)> {
    let pad = logo_padding(width);
    let padded = repeated(' ', pad as nat) + logo_text(i);
    let at = smaller(pad + 10, padded.len() as int);
    seq![(padded.take(at), plain().fg_spec(theme.logo)), (padded.skip(at), theme.base())]
}

fn logo_spans(i: usize, width: u16, theme: &Theme) -> (spans: Vec<Span>)
    requires
        i < 4,
    ensures
        line_view(spans@) == logo_line(i as int, width as int, *theme),
{
    let last = logo_row(3);
    let pad: usize = (width as usize).saturating_sub(last.unicode_len()) / 2;
    let mut padded = repeat_char(' ', pad);
    padded.append(logo_row(i));
    let chars = chars_of(padded.as_str());
    let at: usize = (pad + 10).min(chars.len());
    let up = string_of(vstd::slice::slice_subrange(chars.as_slice(), 0, at));
    let md = string_of(vstd::slice::slice_subrange(chars.as_slice(), at, chars.len()));
    assert(up@ =~= chars@.take(at as int));
    assert(md@ =~= chars@.skip(at as int));
    let mut spans: Vec<Span> = Vec::new();
    spans.push(Span::styled(up, theme.logo_style()));
    spans.push(Span::styled(md, theme.style()));
    assert(line_view(spans@) =~= logo_line(i as int, width as int, *theme));
    spans
}

/// The logo in the middle of lines of the given width, with the version behind
/// its last row, and the application's description below it.
pub fn logo(width: u16, version: &str, description: &str, theme: &Theme) -> (lines: Vec<Vec<Span>>)
    ensures
        lines_view(lines@) == seq![
            logo_line(0, width as int, *theme),
            logo_line(1, width as int, *theme),
            logo_line(2, width as int, *theme),
            logo_line(3, width as int, *theme).push((" "@, plain())).push((version@, plain())),
            seq![(description@, theme.muted_fg())],
        ],
{
    let mut lines: Vec<Vec<Span>> = Vec::new();
    lines.push(logo_spans(0, width, theme));
    lines.push(logo_spans(1, width, theme));
    lines.push(logo_spans(2, width, theme));
    let mut last = logo_spans(3, width, theme);
    let ghost before = line_view(last@);
    last.push(Span::styled(" ".to_owned(), Style::default()));
    last.push(Span::styled(version.to_owned(), Style::default()));
    assert(line_view(last@) =~= before.push((" "@, plain())).push((version@, plain())));
    lines.push(last);
    let mut note: Vec<Span> = Vec::new();
    note.push(Span::styled(description.to_owned(), theme.muted_style()));
    assert(line_view(note@) =~= seq![(description@, theme.muted_fg())]);
    lines.push(note);
    assert(lines_view(lines@) =~= seq![
        logo_line(0, width as int, *theme),
        logo_line(1, width as int, *theme),
        logo_line(2, width as int, *theme),
        logo_line(3, width as int, *theme).push((" "@, plain())).push((version@, plain())),
        seq![(description@, theme.muted_fg())],
    ]);
    lines
}

/// The entries that a row shows.
pub open spec fn row_entries(row: HelpRow) -> Seq<usize> {
    match row {
        HelpRow::Section(_) => Seq::empty(),
        HelpRow::One(i) => seq![i],
        HelpRow::Two(i, j) => seq![i, j],
    }
}

/// The entries that some rows show.
pub open spec fn all_entries(rows: Seq<HelpRow>) -> Seq<usize>
    decreases rows.len(),
{
    if rows.len() == 0 {
        Seq::empty()
    } else {
        row_entries(rows[0]) + all_entries(rows.drop_first())
    }
}

/// The rows show every entry from a place on once, in order.
pub proof fn law_every_entry_has_its_place(
    items: Seq<KeymapEntry>,
    matches: Seq<usize>,
    i: int,
    open: bool,
)
    requires
        0 <= i <= matches.len(),
    ensures
        all_entries(rows_from(items, matches, i, open)) == matches.skip(i),
        !open && i < matches.len() ==> rows_from(items, matches, i, open)[0] == HelpRow::Section(
            matches[i],
        ),
    decreases
            matches.len() - i,
            if open {
                0int
            } else {
                1int
            },
{
    let rows = rows_from(items, matches, i, open);
    if i >= matches.len() {
        assert(matches.skip(i) =~= Seq::empty());
    } else if !open {
        law_every_entry_has_its_place(items, matches, i, true);
        let rest = rows_from(items, matches, i, true);
        assert(rows.drop_first() =~= rest);
        assert(row_entries(rows[0]) + all_entries(rest) =~= all_entries(rest));
    } else if i + 1 < matches.len() && same_section(items, matches, i) {
        let next = same_section(items, matches, i + 1);
        law_every_entry_has_its_place(items, matches, i + 2, next);
        let rest = rows_from(items, matches, i + 2, next);
        assert(rows.drop_first() =~= rest);
        assert(row_entries(rows[0]) + matches.skip(i + 2) =~= matches.skip(i));
    } else {
        law_every_entry_has_its_place(items, matches, i + 1, false);
        let rest = rows_from(items, matches, i + 1, false);
        assert(rows.drop_first() =~= rest);
        assert(row_entries(rows[0]) + matches.skip(i + 1) =~= matches.skip(i));
    }
}

/// Two entries in one row belong to the same section.
pub proof fn law_rows_do_not_mix_sections(
    items: Seq<KeymapEntry>,
    matches: Seq<usize>,
    i: int,
    open: bool,
    k: int,
)
    requires
        0 <= i <= matches.len(),
        0 <= k < rows_from(items, matches, i, open).len(),
    ensures
        rows_from(items, matches, i, open)[k] matches HelpRow::Two(a, b)
            ==> items[a as int].section@ == items[b as int].section@,
    decreases
            matches.len() - i,
            if open {
                0int
            } else {
                1int
            },
{
    let rows = rows_from(items, matches, i, open);
    if i < matches.len() && k > 0 {
        if !open {
            law_rows_do_not_mix_sections(items, matches, i, true, k - 1);
            assert(rows[k] == rows_from(items, matches, i, true)[k - 1]);
        } else if i + 1 < matches.len() && same_section(items, matches, i) {
            let next = same_section(items, matches, i + 1);
            law_rows_do_not_mix_sections(items, matches, i + 2, next, k - 1);
            assert(rows[k] == rows_from(items, matches, i + 2, next)[k - 1]);
        } else {
            law_rows_do_not_mix_sections(items, matches, i + 1, false, k - 1);
            assert(rows[k] == rows_from(items, matches, i + 1, false)[k - 1]);
        }
    }
}

impl Help {
    /// Deleting undoes typing; a key is listed exactly where the query stands in what is
    /// known of it, upper and lower case taken as the same. Scrolling back undoes
    /// scrolling on.
    pub proof fn law_typing_filters(
        before: Help,
        typed: Help,
        deleted: Help,
        next: Help,
        back: Help,
        c: char,
        i: usize,
    )
        requires
            c != '\0',
            typed.wf(),
            i < typed.all_items@.len(),
            typed.applied(&before, Action::Input(c)),
            deleted.applied(&typed, Action::Delete),
            before.matches@.len() > 0,
            before.scroll < u16::MAX,
            next.applied(&before, Action::Next),
            back.applied(&next, Action::Prev),
        ensures
            deleted.query@ == before.query@,
            typed.query@.len() == before.query@.len() + 1,
            typed.query@.last() == c,
            typed.matches@.contains(i) <==> contains_text(
                typed.all_items@[i as int].search_text@,
                lowercase_of(typed.query@),
            ),
            next.scroll == before.scroll + 1,
            back.scroll == before.scroll,
            typed.scroll == 0,
    {
        assert(before.query@.push(c).drop_last() =~= before.query@);
        let keep = |k: int| typed.entry_matches(k);
        lemma_indices_where(typed.all_items@.len(), keep);
        let found = indices_where(typed.all_items@.len(), keep);
        assert(found == typed.matches@);
        let at = i as int;
        if keep(at) {
            assert(found.contains(at as usize));
        }
        if found.contains(i) {
            let k = found.index_of(i);
            assert(found[k] == i);
        }
    }
}

/// The rows that are shown are as many as fit, one after the other, from the row that
/// was scrolled to; scrolling does not go past the last page.
pub proof fn law_shown_rows_fill_the_page(rows: Seq<HelpRow>, scroll: int, height: int, k: int)
    requires
        scroll >= 0,
        height > 0,
    ensures
        shown_rows(rows, scroll, height).len() == smaller(height, rows.len() as int),
        scroll + height <= rows.len() && 0 <= k < height ==> shown_rows(rows, scroll, height)[k]
            == rows[scroll + k],
        scroll + height > rows.len() && rows.len() > 0 ==> shown_rows(rows, scroll, height).last()
            == rows.last(),
{
}

/// A key is shown with what it does, the key in the active color.
pub proof fn law_keys_are_shown_with_their_help(entry: KeymapEntry, theme: Theme)
    ensures
        ({
            let line = cell_line(entry, theme);
            &&& line.len() == 2
            &&& line[0].0.skip(1) == entry.symbol@ && line[0].0[0] == ' '
            &&& line[1].0.skip(1) == entry.description@ && line[1].0[0] == ' '
            &&& line[0].1.fg == Some(theme.active)
        }),
{
    reveal_strlit(" ");
    assert(cell_line(entry, theme)[0].0.skip(1) =~= entry.symbol@);
    assert(cell_line(entry, theme)[1].0.skip(1) =~= entry.description@);
}

/// Every key that can be listed has an entry in its section, in order.
pub proof fn law_every_listed_key_has_an_entry(
    section: Seq<char>,
    items: Seq<KeyItem>,
    entries: Seq<KeymapEntry>,
    i: int,
    k: int,
)
    requires
        is_entry_list(section, items, entries),
    ensures
        entries.len() <= items.len(),
        0 <= k < entries.len() ==> entries[k].section@ == section,
        0 <= i < items.len() && items[i].listed() ==> exists|j: int|
            0 <= j < entries.len() && (#[trigger] entries[j]).symbol@ == items[i].shown_symbol()->0
                && entries[j].description@ == items[i].shown_description(),
    decreases items.len(),
{
    if items.len() > 0 {
        let less = items.drop_last();
        if items.last().listed() {
            let shorter = entries.drop_last();
            law_every_listed_key_has_an_entry(section, less, shorter, i, k);
            if 0 <= k < shorter.len() {
                assert(shorter[k] == entries[k]);
            }
            if 0 <= i < less.len() && items[i].listed() {
                assert(less[i] == items[i]);
                let j = choose|j: int|
                    0 <= j < shorter.len() && (#[trigger] shorter[j]).symbol@
                        == items[i].shown_symbol()->0 && shorter[j].description@
                        == items[i].shown_description();
                assert(entries[j] == shorter[j]);
            } else if i == less.len() {
                assert(entries[entries.len() - 1] == entries.last());
            }
        } else {
            law_every_listed_key_has_an_entry(section, less, entries, i, k);
            if 0 <= i < less.len() {
                assert(less[i] == items[i]);
            }
        }
    }
}

impl KeyItem {
    /// An entry is found by each of its keys, in lower case, also by those that are not
    /// shown.
    pub proof fn law_every_key_can_be_searched(&self, symbol: Seq<char>, count: int, i: int)
        requires
            0 <= i < count <= self.keys@.len(),
            self.keys@[i]@ != symbol,
        ensures
            crate::text::contains_text(
                self.other_keys(symbol, count),
                lowercase_of(self.keys@[i]@),
            ),
        decreases count,
    {
        let key = lowercase_of(self.keys@[i]@);
        let before = self.other_keys(symbol, count - 1);
        if i == count - 1 {
            crate::text::law_contained_texts_stand_somewhere(key, key);
            crate::text::lemma_contained_in_more(key, before + " "@, key);
        } else {
            self.law_every_key_can_be_searched(symbol, count - 1, i);
            if self.keys@[count - 1]@ != symbol {
                crate::text::lemma_contained_in_more(before, " "@, key);
                crate::text::lemma_contained_in_more(
                    before + " "@,
                    lowercase_of(self.keys@[count - 1]@),
                    key,
                );
            }
        }
    }

    /// The symbol that was chosen is shown, or else the first key; a description goes
    /// before a help text.
    pub proof fn law_the_chosen_symbol_is_shown(&self)
        ensures
            self.symbol is Some ==> self.shown_symbol() == Some(self.symbol->0@),
            self.symbol is None && self.keys@.len() > 0 ==> self.shown_symbol() == Some(
                self.keys@[0]@,
            ),
            self.symbol is None && self.keys@.len() == 0 ==> !self.listed(),
            self.description@.len() > 0 ==> self.shown_description() == self.description@,
            self.description@.len() == 0 && self.help is Some ==> self.shown_description()
                == self.help->0@,
            self.description@.len() == 0 && self.help is None ==> !self.listed(),
    {
    }
}

} // verus!
