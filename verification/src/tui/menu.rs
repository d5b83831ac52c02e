//! Menu of the code blocks or headings of a document.

use std::collections::HashMap;

use vstd::prelude::*;

use super::list_state::ListState;
use crate::cli::output::{first_place, position};
use crate::code::{block_ids, Code, CodeId};
use crate::config::{
    MENU_BORDER_SIZE, MENU_MAX_WIDTH_RATIO, MENU_TOC_MAX_WIDTH, MENU_TOC_MIN_WIDTH,
};
use crate::navigation::Navigation;
use crate::num::{larger, less_by, smaller};
use crate::rect::Rect;
use crate::style::{plain, Span, Style};
use crate::task::TaskStatus;
use crate::text::{
    char_width, chars_of, decimal, decimal_text, decimal_value, law_digits_stand_for_the_number,
    repeat_char, repeated, str_width, string_of, width_of_char, width_of_text,
};
use crate::theme::Theme;

verus! {

broadcast use vstd::std_specs::hash::group_hash_axioms;

/// What the menu lists.
#[derive(Clone, Copy, Debug, PartialEq, Eq, Structural)]
pub enum MenuMode {
    CodeBlocks,
    Toc,
}

/// Code blocks and headings for navigation.
pub struct Menu {
    pub items: Vec<CodeId>,
    pub state: ListState,
    pub code_statuses: HashMap<CodeId, TaskStatus>,
    pub mode: MenuMode,
    /// Level and text of the headings.
    pub toc_items: Vec<(u8, String)>,
    pub last_area: Rect,
    pub toc_width_adjustment: i16,
}

#[derive(Clone, Copy, Debug, PartialEq, Eq, Structural)]
pub enum Action {
    Navigation(Navigation),
    /// User clicked a code block entry in the menu.
    Click(CodeId),
    /// User clicked a TOC heading entry in the menu.
    TocClick(usize),
}

/// Rows of a page: the rows inside the border, or ten before anything was drawn.
pub open spec fn page_rows(height: u16) -> int {
    if less_by(height as int, 2) < 1 {
        10
    } else {
        less_by(height as int, 2)
    }
}

/// Where a move leads in a list of `len` entries with pages of `page` rows. Next
/// and previous go round in a circle, pages end at the first and last entry.
pub open spec fn moved(selected: Option<usize>, len: int, page: int, nav: Navigation) -> int {
    match nav {
        Navigation::First => 0,
        Navigation::Last => len - 1,
        Navigation::Next => match selected {
            Some(i) => if i >= len - 1 {
                0
            } else {
                i + 1
            },
            None => 0,
        },
        Navigation::Prev => match selected {
            Some(i) => if i == 0 {
                len - 1
            } else {
                i - 1
            },
            None => 0,
        },
        Navigation::PageUp => match selected {
            Some(i) => less_by(i as int, page),
            None => 0,
        },
        Navigation::PageDown => match selected {
            Some(i) => smaller(i + page, len - 1),
            None => 0,
        },
    }
}

/// The width of the heading list before it is adjusted.
pub open spec fn toc_base_width(total_width: u16) -> int {
    larger(smaller(24, total_width as int / MENU_MAX_WIDTH_RATIO as int), 15)
}

/// A width of the heading list within its limits.
pub open spec fn toc_clamp(width: int) -> int {
    smaller(larger(width, MENU_TOC_MIN_WIDTH as int), MENU_TOC_MAX_WIDTH as int)
}

impl Menu {
    /// The first of some blocks is selected.
    pub open spec fn first_state(blocks: int) -> ListState {
        ListState {
            selected: if blocks > 0 {
                Some(0usize)
            } else {
                None
            },
            offset: 0,
        }
    }

    /// Creates a menu from code blocks and headings (level and text).
    pub fn new(codes: &[Code], headings: Vec<(u8, String)>) -> (menu: Menu)
        ensures
            menu.items@ == block_ids(codes@),
            menu.toc_items == headings,
            menu.state == Menu::first_state(codes@.len() as int),
            menu.mode == MenuMode::CodeBlocks,
            menu.code_statuses@ == Map::<CodeId, TaskStatus>::empty(),
            menu.last_area == (Rect { x: 0, y: 0, width: 0, height: 0 }),
            menu.toc_width_adjustment == 0,
    {
        let mut items: Vec<CodeId> = Vec::new();
        let mut i: usize = 0;
        while i < codes.len()
            invariant
                i <= codes@.len(),
                items@ == block_ids(codes@).take(i as int),
            decreases codes@.len() - i,
        {
            items.push(codes[i].id);
            i += 1;
        }
        assert(block_ids(codes@).take(i as int) =~= block_ids(codes@));
        let mut state = ListState::default();
        if !items.is_empty() {
            state.select(Some(0));
        }
        Menu {
            items,
            state,
            code_statuses: HashMap::new(),
            mode: MenuMode::CodeBlocks,
            toc_items: headings,
            last_area: Rect::default(),
            toc_width_adjustment: 0,
        }
    }

    /// Everything but the selection is as `before`.
    pub open spec fn same_but_state(&self, before: &Menu) -> bool {
        &&& self.items == before.items
        &&& self.code_statuses == before.code_statuses
        &&& self.mode == before.mode
        &&& self.toc_items == before.toc_items
        &&& self.last_area == before.last_area
        &&& self.toc_width_adjustment == before.toc_width_adjustment
    }

    /// The number of entries.
    pub open spec fn len(&self) -> int {
        match self.mode {
            MenuMode::CodeBlocks => self.items@.len() as int,
            MenuMode::Toc => self.toc_items@.len() as int,
        }
    }

    fn entries(&self) -> (len: usize)
        ensures
            len == self.len(),
    {
        match self.mode {
            MenuMode::CodeBlocks => self.items.len(),
            MenuMode::Toc => self.toc_items.len(),
        }
    }

    /// Lists something else, with the first entry selected.
    pub fn set_mode(&mut self, mode: MenuMode)
        ensures
            final(self).mode == mode,
            final(self).state == old(self).state.selecting(Some(0usize)),
            final(self).items == old(self).items,
            final(self).code_statuses == old(self).code_statuses,
            final(self).toc_items == old(self).toc_items,
            final(self).last_area == old(self).last_area,
            final(self).toc_width_adjustment == old(self).toc_width_adjustment,
    {
        self.mode = mode;
        self.state.select(Some(0));
    }

    pub fn mode(&self) -> (mode: &MenuMode)
        ensures
            *mode == self.mode,
    {
        &self.mode
    }

    pub fn set_code_statuses(&mut self, statuses: HashMap<CodeId, TaskStatus>)
        ensures
            final(self).code_statuses == statuses,
            final(self).items == old(self).items,
            final(self).state == old(self).state,
            final(self).mode == old(self).mode,
            final(self).toc_items == old(self).toc_items,
            final(self).last_area == old(self).last_area,
            final(self).toc_width_adjustment == old(self).toc_width_adjustment,
    {
        self.code_statuses = statuses;
    }

    /// The selected block, where blocks are listed.
    pub open spec fn selected_id(&self) -> Option<CodeId> {
        if self.mode == MenuMode::CodeBlocks && self.state.selected is Some
            && self.state.selected->0 < self.items@.len() {
            Some(self.items@[self.state.selected->0 as int])
        } else {
            None
        }
    }

    pub fn selected(&self) -> (id: Option<CodeId>)
        ensures
            id == self.selected_id(),
    {
        if self.mode == MenuMode::Toc {
            return None;
        }
        match self.state.selected {
            Some(i) => if i < self.items.len() {
                Some(self.items[i])
            } else {
                None
            },
            None => None,
        }
    }

    /// The selected heading, where headings are listed.
    pub fn selected_toc_idx(&self) -> (idx: Option<usize>)
        ensures
            idx == (if self.mode == MenuMode::Toc {
                self.state.selected
            } else {
                None
            }),
    {
        if self.mode == MenuMode::Toc {
            self.state.selected
        } else {
            None
        }
    }

    fn page_size(&self) -> (rows: usize)
        ensures
            rows == page_rows(self.last_area.height),
    {
        let rows: u16 = self.last_area.height.saturating_sub(2);
        if rows < 1 {
            10
        } else {
            rows as usize
        }
    }

    /// Where a move leads; an empty list stays as it is. The first entry is
    /// selected as soon as there are blocks or headings at all.
    pub open spec fn navigated(&self, nav: Navigation) -> ListState {
        if nav == Navigation::First {
            if self.items@.len() > 0 || self.toc_items@.len() > 0 {
                self.state.selecting(Some(0usize))
            } else {
                self.state
            }
        } else if self.len() == 0 {
            self.state
        } else {
            self.state.selecting(
                Some(
                    moved(
                        self.state.selected,
                        self.len(),
                        page_rows(self.last_area.height),
                        nav,
                    ) as usize,
                ),
            )
        }
    }

    /// Selects the next entry, or the first behind the last.
    pub fn next(&mut self)
        ensures
            final(self).same_but_state(old(self)),
            final(self).state == old(self).navigated(Navigation::Next),
    {
        self.navigate(Navigation::Next);
    }

    /// Selects the entry before, or the last before the first.
    pub fn previous(&mut self)
        ensures
            final(self).same_but_state(old(self)),
            final(self).state == old(self).navigated(Navigation::Prev),
    {
        self.navigate(Navigation::Prev);
    }

    /// Selects the first entry.
    pub fn first(&mut self)
        ensures
            final(self).same_but_state(old(self)),
            final(self).state == old(self).navigated(Navigation::First),
    {
        self.navigate(Navigation::First);
    }

    /// Selects the last entry.
    pub fn last(&mut self)
        ensures
            final(self).same_but_state(old(self)),
            final(self).state == old(self).navigated(Navigation::Last),
    {
        self.navigate(Navigation::Last);
    }

    /// Moves a page up.
    pub fn page_up(&mut self)
        ensures
            final(self).same_but_state(old(self)),
            final(self).state == old(self).navigated(Navigation::PageUp),
    {
        self.navigate(Navigation::PageUp);
    }

    /// Moves a page down.
    pub fn page_down(&mut self)
        ensures
            final(self).same_but_state(old(self)),
            final(self).state == old(self).navigated(Navigation::PageDown),
    {
        self.navigate(Navigation::PageDown);
    }

    /// Moves the selection.
    pub fn navigate(&mut self, nav: Navigation)
        ensures
            final(self).same_but_state(old(self)),
            final(self).state == old(self).navigated(nav),
    {
        if nav == Navigation::First {
            if !self.items.is_empty() || !self.toc_items.is_empty() {
                self.state.select(Some(0));
            }
            return ;
        }
        let len: usize = self.entries();
        if len == 0 {
            return ;
        }
        let page: usize = self.page_size();
        let to: usize = match nav {
            Navigation::First => 0,
            Navigation::Last => len - 1,
            Navigation::Next => match self.state.selected {
                Some(i) => if i >= len - 1 {
                    0
                } else {
                    i + 1
                },
                None => 0,
            },
            Navigation::Prev => match self.state.selected {
                Some(i) => if i == 0 {
                    len - 1
                } else {
                    i - 1
                },
                None => 0,
            },
            Navigation::PageUp => match self.state.selected {
                Some(i) => i.saturating_sub(page),
                None => 0,
            },
            Navigation::PageDown => match self.state.selected {
                Some(i) => i.saturating_add(page).min(len - 1),
                None => 0,
            },
        };
        self.state.select(Some(to));
    }

    /// The state with a block selected, where blocks are listed and it is one of
    /// them.
    pub open spec fn with_id(&self, id: CodeId) -> ListState {
        if self.mode == MenuMode::CodeBlocks && self.items@.contains(id) {
            self.state.selecting(Some(first_place(self.items@, id) as usize))
        } else {
            self.state
        }
    }

    pub fn select_by_id(&mut self, id: CodeId)
        ensures
            final(self).same_but_state(old(self)),
            final(self).state == old(self).with_id(id),
    {
        if self.mode == MenuMode::Toc {
            return ;
        }
        if let Some(i) = position(&self.items, id) {
            self.state.select(Some(i));
        }
    }

    /// The state with a heading selected, where headings are listed.
    pub open spec fn with_heading(&self, heading_idx: int) -> ListState {
        if self.mode == MenuMode::Toc {
            self.state.selecting(
                Some(smaller(heading_idx, less_by(self.toc_items@.len() as int, 1)) as usize),
            )
        } else {
            self.state
        }
    }

    pub fn select_by_heading_idx(&mut self, heading_idx: usize)
        ensures
            final(self).same_but_state(old(self)),
            final(self).state == old(self).with_heading(heading_idx as int),
    {
        if self.mode == MenuMode::CodeBlocks {
            return ;
        }
        let idx: usize = heading_idx.min(self.toc_items.len().saturating_sub(1));
        self.state.select(Some(idx));
    }

    pub fn deselect(&mut self)
        ensures
            final(self).same_but_state(old(self)),
            final(self).state == (ListState { selected: None, offset: 0 }),
    {
        self.state.select(None);
    }

    fn toc_base(total_width: u16) -> (base: u16)
        ensures
            base == toc_base_width(total_width),
            15 <= base <= 24,
    {
        let max: u16 = total_width / MENU_MAX_WIDTH_RATIO;
        24u16.min(max).max(15)
    }

    /// The width that the menu takes: none without entries; that of the longest
    /// number for blocks; for headings a part of the whole width, adjusted.
    pub open spec fn width_in(&self, total_width: u16) -> int {
        if self.len() == 0 {
            0
        } else {
            match self.mode {
                MenuMode::CodeBlocks => larger(
                    5,
                    4 + decimal_text(self.items@.len()).len() as int,
                ),
                MenuMode::Toc => toc_clamp(
                    toc_base_width(total_width) + self.toc_width_adjustment,
                ),
            }
        }
    }

    pub fn width(&self, total_width: u16) -> (width: u16)
        ensures
            width == self.width_in(total_width),
    {
        match self.mode {
            MenuMode::CodeBlocks => {
                if self.items.is_empty() {
                    return 0;
                }
                let count: u64 = self.items.len() as u64;
                let digits: usize = decimal(count).as_str().unicode_len();
                proof {
                    reveal_with_fuel(vstd::arithmetic::power::pow, 21);
                    assert(vstd::arithmetic::power::pow(10, 20) == 100_000_000_000_000_000_000int);
                    lemma_digits(count as nat, 20);
                }
                5u16.max(4 + digits as u16)
            },
            MenuMode::Toc => {
                if self.toc_items.is_empty() {
                    return 0;
                }
                let width: i32 = Self::toc_base(total_width) as i32
                    + self.toc_width_adjustment as i32;
                width.max(MENU_TOC_MIN_WIDTH as i32).min(MENU_TOC_MAX_WIDTH as i32) as u16
            },
        }
    }

    /// Makes the heading list wider or narrower, within its limits.
    pub fn adjust_toc_width(&mut self, delta: i16, total_width: u16)
        ensures
            final(self).items == old(self).items,
            final(self).state == old(self).state,
            final(self).code_statuses == old(self).code_statuses,
            final(self).mode == old(self).mode,
            final(self).toc_items == old(self).toc_items,
            final(self).last_area == old(self).last_area,
            ({
                let base = toc_base_width(total_width);
                final(self).toc_width_adjustment == toc_clamp(
                    base + old(self).toc_width_adjustment + delta,
                ) - base
            }),
    {
        let base: i32 = Self::toc_base(total_width) as i32;
        let wanted: i32 = base + self.toc_width_adjustment as i32 + delta as i32;
        let width: i32 = wanted.max(MENU_TOC_MIN_WIDTH as i32).min(MENU_TOC_MAX_WIDTH as i32);
        self.toc_width_adjustment = (width - base) as i16;
    }

    /// What a click on a cell of the menu selects: row 0 is the top border, and
    /// the list is shown from its offset on.
    pub open spec fn clicked(&self, released_left: bool, column: u16, row: u16) -> Option<Action> {
        if released_left && self.last_area.holds(column, row) {
            let item = self.state.offset + less_by(row as int, self.last_area.y + 1);
            match self.mode {
                MenuMode::CodeBlocks => if item < self.items@.len() {
                    Some(Action::Click(self.items@[item]))
                } else {
                    None
                },
                MenuMode::Toc => if item < self.toc_items@.len() {
                    Some(Action::TocClick(item as usize))
                } else {
                    None
                },
            }
        } else {
            None
        }
    }

    /// What a click on a cell of the menu selects.
    pub fn handle_mouse(&self, released_left: bool, column: u16, row: u16) -> (action: Option<
        Action,
    >)
        ensures
            action == self.clicked(released_left, column, row),
    {
        if !released_left || !self.last_area.contains(column, row) {
            return None;
        }
        let inner_row: usize = (row as u32).saturating_sub(self.last_area.y as u32 + 1) as usize;
        let len: usize = self.entries();
        if self.state.offset >= len || inner_row >= len - self.state.offset {
            return None;
        }
        let item: usize = self.state.offset + inner_row;
        match self.mode {
            MenuMode::CodeBlocks => Some(Action::Click(self.items[item])),
            MenuMode::Toc => Some(Action::TocClick(item)),
        }
    }

    /// Takes an action; clicks are handled by the owner.
    pub fn update(&mut self, action: Action)
        ensures
            final(self).same_but_state(old(self)),
            final(self).state == (match action {
                Action::Navigation(nav) => old(self).navigated(nav),
                _ => old(self).state,
            }),
    {
        if let Action::Navigation(nav) = action {
            self.navigate(nav);
        }
    }
}

/// A number below a power of ten has no more digits than its exponent.
proof fn lemma_digits(n: nat, most: nat)
    requires
        most > 0,
        n < vstd::arithmetic::power::pow(10, most),
    ensures
        1 <= decimal_text(n).len() <= most,
    decreases most,
{
    if n >= 10 {
        vstd::arithmetic::power::lemma_pow1(10);
        if most == 1 {
            assert(false);
        }
        vstd::arithmetic::power::lemma_pow_adds(10, 1, (most - 1) as nat);
        assert(n / 10 < vstd::arithmetic::power::pow(10, (most - 1) as nat)) by (nonlinear_arith)
            requires
                n < 10 * vstd::arithmetic::power::pow(10, (most - 1) as nat),
        ;
        lemma_digits(n / 10, (most - 1) as nat);
    }
}

/// The columns of a character; none for a control character.
pub open spec fn shown_columns(c: char) -> int {
    match width_of_char(c) {
        Some(width) => width as int,
        None => 0,
    }
}

/// How many characters, starting at column `col`, end at or before column
/// `target`.
pub open spec fn chars_within(chars: Seq<char>, col: int, target: int) -> int
    decreases chars.len(),
{
    if chars.len() == 0 || col + shown_columns(chars[0]) > target {
        0
    } else {
        1 + chars_within(chars.drop_first(), col + shown_columns(chars[0]), target)
    }
}

/// A text as it is shown in at most `max_width` columns: a longer one ends in an
/// ellipsis.
pub open spec fn truncated(text: Seq<char>, max_width: int) -> Seq<char> {
    let ellipsis = width_of_text("…"@) as int;
    if max_width == 0 {
        Seq::empty()
    } else if width_of_text(text) <= max_width {
        text
    } else if max_width <= ellipsis {
        "…"@.take(smaller(max_width, "…"@.len() as int))
    } else {
        text.take(chars_within(text, 0, max_width - ellipsis)) + "…"@
    }
}

/// Truncates a string to fit within `max_width` display columns, appending "…"
/// when truncation occurs. Handles wide characters.
pub fn truncate_to_width(text: &str, max_width: usize) -> (out: String)
    ensures
        out@ == truncated(text@, max_width as int),
{
    let ellipsis_width = str_width("…");
    if max_width == 0 {
        let out = String::new();
        assert(out@ =~= Seq::empty());
        return out;
    }
    if str_width(text) <= max_width {
        return text.to_owned();
    }
    if max_width <= ellipsis_width {
        let chars = chars_of("…");
        let n: usize = max_width.min(chars.len());
        let out = string_of(vstd::slice::slice_subrange(chars.as_slice(), 0, n));
        assert(out@ =~= "…"@.take(n as int));
        return out;
    }
    let target: usize = max_width - ellipsis_width;
    let chars = chars_of(text);
    let mut w: usize = 0;
    let mut end: usize = 0;
    assert(chars@.skip(0) =~= chars@);
    while end < chars.len()
        invariant_except_break
            end <= chars@.len(),
            w <= target,
            chars_within(chars@, 0, target as int) == end + chars_within(
                chars@.skip(end as int),
                w as int,
                target as int,
            ),
        ensures
            end <= chars@.len(),
            end == chars_within(chars@, 0, target as int),
        decreases chars@.len() - end,
    {
        let cw: usize = match char_width(chars[end]) {
            Some(width) => width,
            None => 0,
        };
        assert(chars@.skip(end as int).drop_first() =~= chars@.skip(end + 1));
        if cw > target - w {
            break ;
        }
        w += cw;
        end += 1;
    }
    let mut out = string_of(vstd::slice::slice_subrange(chars.as_slice(), 0, end));
    assert(out@ =~= text@.take(end as int));
    out.append("…");
    out
}

impl Menu {
    /// The entry of a block: its number, right-aligned between blanks, with a
    /// spinner in front of a running one.
    pub open spec fn block_entry(&self, i: int, spinner: char, theme: Theme) -> (Seq<char>, Style) {
        let id = self.items@[i];
        let digits = decimal_text(self.items@.len()).len() as int;
        let padding = less_by(digits, decimal_text(id as nat).len() as int);
        let status = if self.code_statuses@.contains_key(id) {
            Some(self.code_statuses@[id])
        } else {
            None
        };
        let running = status == Some(TaskStatus::Running);
        let style = match status {
            Some(TaskStatus::Running) => plain().fg_spec(theme.warning),
            Some(TaskStatus::Success) => plain().fg_spec(theme.success),
            Some(TaskStatus::Error) => plain().fg_spec(theme.error),
            _ => theme.muted_fg(),
        };
        (
            seq![
                if running {
                    spinner
                } else {
                    ' '
                },
            ] + repeated(' ', padding as nat) + decimal_text(id as nat) + " "@,
            if self.state.selected == Some(i as usize) {
                plain().bg_spec(theme.active).fg_spec(theme.active_text)
            } else {
                style
            },
        )
    }

    /// The lowest heading level; one without headings.
    pub open spec fn lowest_level(&self, count: int) -> int
        decreases count,
    {
        if count <= 0 {
            255
        } else {
            smaller(self.lowest_level(count - 1), self.toc_items@[count - 1].0 as int)
        }
    }

    /// The entry of a heading: indented by its level and cut to the menu's
    /// width.
    pub open spec fn heading_entry(&self, i: int, width: u16, theme: Theme) -> (Seq<char>, Style) {
        let (level, text) = self.toc_items@[i];
        let indent = less_by(
            level as int,
            self.lowest_level(self.toc_items@.len() as int),
        ) * 2;
        let room = less_by(less_by(width as int, MENU_BORDER_SIZE as int), indent + 2);
        (
            " "@ + repeated(' ', indent as nat) + truncated(text@, room) + " "@,
            if self.state.selected == Some(i as usize) {
                plain().bg_spec(theme.active).fg_spec(theme.active_text)
            } else {
                theme.base()
            },
        )
    }

    fn block_span(&self, i: usize, spinner: char, theme: &Theme) -> (span: Span)
        requires
            i < self.items@.len(),
        ensures
            span@ == self.block_entry(i as int, spinner, *theme),
    {
        let id = self.items[i];
        let digits: usize = decimal(self.items.len() as u64).as_str().unicode_len();
        let number = decimal(id as u64);
        let padding: usize = digits.saturating_sub(number.as_str().unicode_len());
        let (first, style) = match self.code_statuses.get(&id) {
            Some(TaskStatus::Running) => (spinner, theme.running_style()),
            Some(TaskStatus::Success) => (' ', theme.success_style()),
            Some(TaskStatus::Error) => (' ', theme.error_style()),
            _ => (' ', theme.muted_style()),
        };
        let mut text = String::new();
        text.push(first);
        assert(text@ =~= seq![first]);
        text.append(repeat_char(' ', padding).as_str());
        text.append(number.as_str());
        text.append(" ");
        let selected = match self.state.selected {
            Some(at) => at == i,
            None => false,
        };
        let shown = if selected {
            theme.active_style()
        } else {
            style
        };
        Span::styled(text, shown)
    }

    fn heading_span(&self, i: usize, lowest: u8, width: u16, theme: &Theme) -> (span: Span)
        requires
            i < self.toc_items@.len(),
            lowest == self.lowest_level(self.toc_items@.len() as int),
        ensures
            span@ == self.heading_entry(i as int, width, *theme),
    {
        let (level, text) = &self.toc_items[i];
        let indent: usize = (*level as usize).saturating_sub(lowest as usize) * 2;
        let room: usize = (width.saturating_sub(MENU_BORDER_SIZE) as usize).saturating_sub(
            indent + 2,
        );
        let mut out = " ".to_owned();
        out.append(repeat_char(' ', indent).as_str());
        out.append(truncate_to_width(text.as_str(), room).as_str());
        out.append(" ");
        let selected = match self.state.selected {
            Some(at) => at == i,
            None => false,
        };
        let style = if selected {
            theme.active_style()
        } else {
            theme.style()
        };
        Span::styled(out, style)
    }

    /// Takes the area to draw in, frame included. Tells whether it has room for a
    /// frame; one that has not is not kept, and nothing is drawn in it.
    pub fn place(&mut self, area: Rect) -> (fits: bool)
        ensures
            fits == (area.width >= 2 && area.height >= 2),
            *final(self) == (Menu {
                last_area: if fits {
                    area
                } else {
                    old(self).last_area
                },
                ..*old(self)
            }),
    {
        if area.width < 2 || area.height < 2 {
            return false;
        }
        self.last_area = area;
        true
    }

    /// The title of the menu's frame.
    pub fn title(&self) -> (title: &'static str)
        ensures
            title@ == (match self.mode {
                MenuMode::CodeBlocks => ""@,
                MenuMode::Toc => " TOC "@,
            }),
    {
        match self.mode {
            MenuMode::CodeBlocks => "",
            MenuMode::Toc => " TOC ",
        }
    }

    /// The entries of the menu in an area of the given width.
    pub fn render(&self, width: u16, spinner: char, theme: &Theme) -> (spans: Vec<Span>)
        ensures
            spans@.len() == self.len(),
            forall|i: int|
                0 <= i < spans@.len() ==> (#[trigger] spans@[i])@ == (match self.mode {
                    MenuMode::CodeBlocks => self.block_entry(i, spinner, *theme),
                    MenuMode::Toc => self.heading_entry(i, width, *theme),
                }),
    {
        let mut lowest: u8 = 255;
        let mut k: usize = 0;
        while k < self.toc_items.len()
            invariant
                k <= self.toc_items@.len(),
                lowest == self.lowest_level(k as int),
            decreases self.toc_items@.len() - k,
        {
            let level: u8 = self.toc_items[k].0;
            lowest = lowest.min(level);
            k += 1;
        }
        let len: usize = self.entries();
        let mut spans: Vec<Span> = Vec::new();
        let mut i: usize = 0;
        while i < len
            invariant
                i <= len,
                len == self.len(),
                lowest == self.lowest_level(self.toc_items@.len() as int),
                spans@.len() == i,
                forall|j: int|
                    0 <= j < spans@.len() ==> (#[trigger] spans@[j])@ == (match self.mode {
                        MenuMode::CodeBlocks => self.block_entry(j, spinner, *theme),
                        MenuMode::Toc => self.heading_entry(j, width, *theme),
                    }),
            decreases len - i,
        {
            let span = match self.mode {
                MenuMode::CodeBlocks => self.block_span(i, spinner, theme),
                MenuMode::Toc => self.heading_span(i, lowest, width, theme),
            };
            spans.push(span);
            i += 1;
        }
        spans
    }
}

/// Previous undoes next, and next undoes previous.
pub proof fn law_prev_undoes_next(i: usize, len: int, page: int)
    requires
        0 <= i < len <= usize::MAX,
    ensures
        moved(
            Some(moved(Some(i), len, page, Navigation::Next) as usize),
            len,
            page,
            Navigation::Prev,
        ) == i,
        moved(
            Some(moved(Some(i), len, page, Navigation::Prev) as usize),
            len,
            page,
            Navigation::Next,
        ) == i,
{
}

/// Every move ends on an entry of the list.
pub proof fn law_moves_stay_inside(selected: Option<usize>, len: int, page: int, nav: Navigation)
    requires
        len > 0,
        page > 0,
        selected matches Some(i) ==> i < len,
    ensures
        0 <= moved(selected, len, page, nav) < len,
{
}

/// However often its width is adjusted, the heading list keeps within its
/// limits.
pub proof fn law_toc_width_has_limits(total_width: u16, adjustment: int, delta: int)
    ensures
        ({
            let base = toc_base_width(total_width);
            let after = toc_clamp(base + adjustment + delta) - base;
            MENU_TOC_MIN_WIDTH <= toc_clamp(base + after) <= MENU_TOC_MAX_WIDTH && toc_clamp(
                base + after,
            ) == base + after
        }),
{
}

/// `Next` and `Prev` go to the neighbours, round from one end to the other; `First` and
/// `Last` go to the ends; a page is as many entries as asked, or as there are.
pub proof fn law_moves_go_where_they_say(i: usize, len: int, page: int, other: int)
    requires
        0 <= i < len <= usize::MAX,
        0 <= other < len,
        page > 0,
    ensures
        moved(Some(i), len, page, Navigation::Next) == (i + 1) % len,
        (moved(Some(i), len, page, Navigation::Prev) + 1) % len == i,
        moved(Some(i), len, page, Navigation::First) <= other,
        moved(Some(i), len, page, Navigation::Last) >= other,
        i + page < len ==> moved(Some(i), len, page, Navigation::PageDown) - i == page,
        i + page >= len ==> moved(Some(i), len, page, Navigation::PageDown) >= other,
        i >= page ==> i - moved(Some(i), len, page, Navigation::PageUp) == page,
        i < page ==> moved(Some(i), len, page, Navigation::PageUp) <= other,
{
    if i + 1 < len {
        assert((i + 1) % len == i + 1) by (nonlinear_arith)
            requires
                0 <= i,
                i + 1 < len,
        ;
    } else {
        assert((i + 1) % len == 0) by (nonlinear_arith)
            requires
                i + 1 == len,
                len > 0,
        ;
    }
    if i > 0 {
        assert((i - 1 + 1) % len == i) by (nonlinear_arith)
            requires
                0 < i < len,
        ;
    } else {
        assert((len - 1 + 1) % len == 0) by (nonlinear_arith)
            requires
                len > 0,
        ;
    }
}

impl Menu {
    /// Selecting a block by its number selects the entry with that number.
    pub proof fn law_blocks_are_selected_by_number(&self, after: Menu, id: CodeId)
        requires
            self.mode == MenuMode::CodeBlocks,
            self.items@.contains(id),
            after.same_but_state(self),
            after.state == self.with_id(id),
        ensures
            after.selected_id() == Some(id),
    {
        let k = self.items@.index_of(id);
        assert(self.items.len() == self.items@.len());
        crate::cli::output::lemma_has_first_place(self.items@, id, k + 1);
        assert(crate::cli::output::is_first_place(
            self.items@,
            id,
            first_place(self.items@, id),
        ));
    }

    /// The entry of a block ends in its number and a blank; the entries of all blocks
    /// with numbers up to the number of blocks are equally wide.
    pub proof fn law_entries_show_their_number(&self, i: int, spinner: char, theme: Theme)
        requires
            0 <= i < self.items@.len(),
        ensures
            ({
                let (text, style) = self.block_entry(i, spinner, theme);
                let id = self.items@[i];
                let digits = decimal_text(id as nat).len();
                let running = self.code_statuses@.contains_key(id) && self.code_statuses@[id]
                    == TaskStatus::Running;
                &&& text.len() >= digits + 2
                &&& text.last() == ' '
                &&& decimal_value(text.subrange(text.len() - 1 - digits, text.len() - 1)) == id
                &&& digits <= decimal_text(self.items@.len()).len() ==> text.len() == decimal_text(
                    self.items@.len(),
                ).len() + 2
                &&& text[0] == (if running {
                    spinner
                } else {
                    ' '
                })
                &&& self.state.selected == Some(i as usize) ==> style.bg == Some(theme.active)
                &&& self.state.selected != Some(i as usize) && self.code_statuses@.contains_key(id)
                    ==> style.fg == Some(
                    match self.code_statuses@[id] {
                        TaskStatus::Running => theme.warning,
                        TaskStatus::Success => theme.success,
                        TaskStatus::Error => theme.error,
                        TaskStatus::Idle => theme.muted,
                    },
                )
            }),
    {
        reveal_strlit(" ");
        let (text, style) = self.block_entry(i, spinner, theme);
        let number = decimal_text(self.items@[i] as nat);
        law_digits_stand_for_the_number(self.items@[i] as nat);
        assert(text.subrange(text.len() - 1 - number.len(), text.len() - 1) =~= number);
    }

    /// The entry of a heading starts with a blank and two more for each level below the
    /// highest one, and shows its text where there is room for it.
    pub proof fn law_headings_are_indented_by_level(&self, i: int, width: u16, theme: Theme)
        requires
            0 <= i < self.toc_items@.len(),
        ensures
            ({
                let (level, heading) = self.toc_items@[i];
                let text = self.heading_entry(i, width, theme).0;
                let lowest = self.lowest_level(self.toc_items@.len() as int);
                let indent = 1 + 2 * (level - lowest);
                &&& lowest <= level
                &&& exists|k: int| 0 <= k < self.toc_items@.len() && (#[trigger] self.toc_items@[k]).0
                    == lowest
                &&& text.len() >= indent + 1
                &&& forall|k: int| 0 <= k < indent ==> #[trigger] text[k] == ' '
                &&& text.last() == ' '
                &&& width_of_text(heading@) + indent + 1 + MENU_BORDER_SIZE <= width
                    && width_of_text(heading@) > 0 ==> text.subrange(indent, text.len() - 1)
                    == heading@
            }),
    {
        reveal_strlit(" ");
        let (level, heading) = self.toc_items@[i];
        let text = self.heading_entry(i, width, theme).0;
        self.lemma_lowest(self.toc_items@.len() as int, i);
        let lowest = self.lowest_level(self.toc_items@.len() as int);
        let indent = less_by(level as int, lowest) * 2;
        let room = less_by(less_by(width as int, MENU_BORDER_SIZE as int), indent + 2);
        assert(text.subrange(indent + 1, text.len() - 1) =~= truncated(heading@, room));
    }

    proof fn lemma_lowest(&self, count: int, i: int)
        requires
            0 <= i < count <= self.toc_items@.len(),
        ensures
            self.lowest_level(count) <= self.toc_items@[i].0,
            exists|k: int|
                0 <= k < count && (#[trigger] self.toc_items@[k]).0 == self.lowest_level(count),
        decreases count,
    {
        if count == 1 {
            assert(self.lowest_level(0) == 255);
            assert(self.toc_items@[0].0 == self.lowest_level(1));
        } else {
            if i < count - 1 {
                self.lemma_lowest(count - 1, i);
            } else {
                self.lemma_lowest(count - 1, 0);
            }
            assert(self.toc_items@[count - 1].0 == self.lowest_level(count) || self.lowest_level(
                count,
            ) == self.lowest_level(count - 1));
        }
    }
}

impl Menu {
    /// A click on a row of the list selects the entry that is shown there; clicks beside
    /// the menu, and presses, select nothing.
    pub proof fn law_clicks_select_the_row(&self, column: u16, row: u16, k: int)
        requires
            self.last_area.x <= column < self.last_area.x + self.last_area.width,
            row == self.last_area.y + 1 + k,
            0 <= k,
            row < self.last_area.y + self.last_area.height,
        ensures
            self.mode == MenuMode::CodeBlocks && self.state.offset + k < self.items@.len()
                ==> self.clicked(true, column, row) == Some(
                Action::Click(self.items@[self.state.offset + k]),
            ),
            self.mode == MenuMode::CodeBlocks && self.state.offset + k >= self.items@.len()
                ==> self.clicked(true, column, row) is None,
            self.mode == MenuMode::Toc && self.state.offset + k < self.toc_items@.len()
                ==> self.clicked(true, column, row) == Some(
                Action::TocClick((self.state.offset + k) as usize),
            ),
            self.mode == MenuMode::Toc && self.state.offset + k >= self.toc_items@.len()
                ==> self.clicked(true, column, row) is None,
            self.clicked(false, column, row) is None,
    {
    }

    /// Clicks outside of the menu select nothing in it.
    pub proof fn law_clicks_beside_select_nothing(&self, released: bool, column: u16, row: u16)
        requires
            column < self.last_area.x || column >= self.last_area.x + self.last_area.width || row
                < self.last_area.y || row >= self.last_area.y + self.last_area.height,
        ensures
            self.clicked(released, column, row) is None,
    {
    }
}

/// A text that fits is shown as it is; a longer one is cut, and its end marked.
pub proof fn law_long_titles_are_cut(text: Seq<char>, max_width: int)
    requires
        max_width >= 0,
    ensures
        max_width > 0 && width_of_text(text) <= max_width ==> truncated(text, max_width) == text,
        max_width == 0 ==> truncated(text, max_width).len() == 0,
        width_of_text(text) > max_width > width_of_text("…"@) ==> ({
            let cut = truncated(text, max_width);
            &&& cut.last() == '…'
            &&& cut.len() - 1 <= text.len()
            &&& cut.drop_last() == text.take(cut.len() - 1)
        }),
{
    reveal_strlit("…");
    if width_of_text(text) > max_width > width_of_text("…"@) {
        let n = chars_within(text, 0, max_width - width_of_text("…"@));
        law_cut_titles_fit(text, 0, max_width - width_of_text("…"@));
        assert(truncated(text, max_width).drop_last() =~= text.take(n));
    }
}

/// The columns that some characters take.
pub open spec fn columns_shown(chars: Seq<char>) -> int
    decreases chars.len(),
{
    if chars.len() == 0 {
        0
    } else {
        shown_columns(chars[0]) + columns_shown(chars.drop_first())
    }
}

/// What is left of a text takes no more columns than there are, and one character more
/// would.
pub proof fn law_cut_titles_fit(chars: Seq<char>, col: int, target: int)
    requires
        col <= target,
    ensures
        ({
            let n = chars_within(chars, col, target);
            &&& 0 <= n <= chars.len()
            &&& col + columns_shown(chars.take(n)) <= target
            &&& n < chars.len() ==> col + columns_shown(chars.take(n)) + shown_columns(chars[n])
                > target
        }),
    decreases chars.len(),
{
    let n = chars_within(chars, col, target);
    if chars.len() == 0 || col + shown_columns(chars[0]) > target {
        assert(chars.take(0).len() == 0);
    } else {
        let rest = chars.drop_first();
        law_cut_titles_fit(rest, col + shown_columns(chars[0]), target);
        assert(chars.take(n).drop_first() =~= rest.take(n - 1));
        assert(chars.take(n)[0] == chars[0]);
        if n < chars.len() {
            assert(chars[n] == rest[n - 1]);
        }
    }
}

impl Menu {
    /// The menu of blocks has room for the largest number; an empty menu takes none.
    pub proof fn law_the_menu_has_room_for_its_entries(&self, total_width: u16)
        ensures
            self.mode == MenuMode::CodeBlocks && self.items@.len() == 0 ==> self.width_in(
                total_width,
            ) == 0,
            self.mode == MenuMode::Toc && self.toc_items@.len() == 0 ==> self.width_in(total_width)
                == 0,
            self.mode == MenuMode::CodeBlocks && self.items@.len() > 0 ==> self.width_in(
                total_width,
            ) == decimal_text(self.items@.len()).len() + 4,
            self.mode == MenuMode::Toc && self.toc_items@.len() > 0 ==> 10 <= self.width_in(
                total_width,
            ) <= 60,
    {
        crate::text::law_digits_stand_for_the_number(self.items@.len());
        if decimal_text(self.items@.len()).len() == 0 {
            assert(decimal_text(self.items@.len()) =~= Seq::empty());
        }
    }

    /// A heading is selected by its place among all headings, in the list of headings
    /// alone.
    pub proof fn law_headings_are_selected_by_place(&self, k: int)
        requires
            0 <= k < self.toc_items@.len(),
        ensures
            self.mode == MenuMode::Toc ==> self.with_heading(k).selected == Some(k as usize),
            self.mode == MenuMode::CodeBlocks ==> self.with_heading(k) == self.state,
    {
        assert(self.toc_items.len() == self.toc_items@.len());
    }
}

} // verus!
