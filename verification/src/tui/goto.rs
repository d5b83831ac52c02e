//! Dialog that jumps to a code block, with query filtering.

use std::collections::HashMap;

use vstd::prelude::*;

use super::layout::{
    centered_rect, columns_of, inside_popup, is_middle, popup_inner, rows_around, split_columns,
    split_rows,
};
use crate::code::CodeId;
use crate::num::{less_by, smaller};
use crate::rect::Rect;
use crate::seqs::{indices_where, lemma_indices_where};
use crate::style::{line_view, lines_view, plain, Color, Span, Style};
use crate::text::{contains, contains_text, decimal, decimal_text, lowercase, lowercase_of};
use crate::theme::{shortcuts_line, Theme};
use crate::theme_library::Painter;

verus! {

broadcast use vstd::std_specs::hash::group_hash_axioms;

/// The list and the preview stand side by side from this width on.
pub const MIN_PREVIEW_LAYOUT_WIDTH: u16 = 72;

/// Execution status kind for a code block in the goto list.
#[derive(Clone, Copy, Debug, PartialEq, Eq, Structural)]
pub enum StatusKind {
    /// The block has not run.
    NotRun,
    Running,
    Success,
    Error,
}

/// A code block of the list.
pub struct GotoBlock {
    pub id: CodeId,
    pub label: String,
    pub kind: StatusKind,
}

/// Goto dialog with query filtering and code-block name search.
///
/// Opens with all code blocks listed. A query (ID or name substring) filters
/// the list.
pub struct Goto {
    pub query: String,
    pub selected: usize,
    /// Places of the matching blocks.
    pub matches: Vec<usize>,
    pub all_blocks: Vec<GotoBlock>,
    /// Language and code by block, shown as a mini-preview.
    pub previews: HashMap<CodeId, (String, String)>,
}

#[derive(Clone, Copy, Debug, PartialEq, Eq, Hash, Structural)]
pub enum Action {
    Delete,
    Select,
    Next,
    Prev,
    Quit,
    Input(char),
}

/// The query is empty, or stands in the block's number or, upper and lower case
/// taken as the same, in its label.
pub open spec fn block_matches(block: GotoBlock, query: Seq<char>) -> bool {
    ||| query.len() == 0
    ||| contains_text(decimal_text(block.id as nat), query)
    ||| contains_text(lowercase_of(block.label@), lowercase_of(query))
}

/// The places of the blocks that match a query.
pub open spec fn matching_blocks(blocks: Seq<GotoBlock>, query: Seq<char>) -> Seq<usize> {
    indices_where(blocks.len(), |i: int| block_matches(blocks[i], query))
}

/// The part of a list of `total` entries that is shown in `rows` rows, such that
/// the selected one stays above the last row.
pub open spec fn window_of(total: int, selected: int, rows: int) -> (int, int) {
    let cap = less_by(rows, 1);
    let start = if total > cap && selected >= cap {
        selected - cap + 1
    } else {
        0
    };
    (start, smaller(start + rows, total))
}

/// The part of a list of `total` entries that is shown in `rows` rows.
pub fn list_window(total: usize, selected: usize, rows: usize) -> (window: (usize, usize))
    requires
        selected == 0 || selected < total,
    ensures
        (window.0 as int, window.1 as int) == window_of(
            total as int,
            selected as int,
            rows as int,
        ),
{
    let cap: usize = rows.saturating_sub(1);
    let start: usize = if total > cap && selected >= cap {
        selected - cap + 1
    } else {
        0
    };
    (start, start.saturating_add(rows).min(total))
}

/// One entry of the list: the selected one is marked, and a block that ran shows
/// how.
pub open spec fn entry_line(block: GotoBlock, selected: bool, spinner: char, theme: Theme) -> Seq<
    (Seq<char>, Style),
> {
    let prefix = if selected {
        "▸ "@
    } else {
        "  "@
    };
    let base = plain().fg_spec(
        if selected {
            theme.active
        } else {
            theme.foreground
        },
    );
    match block.kind {
        StatusKind::NotRun => seq![(prefix + block.label@, base)],
        StatusKind::Success => seq![
            (prefix + block.label@ + " "@, base),
            ("✔"@, plain().fg_spec(theme.success)),
        ],
        StatusKind::Error => seq![
            (prefix + block.label@ + " "@, base),
            ("✘"@, plain().fg_spec(theme.error)),
        ],
        StatusKind::Running => seq![
            (prefix + block.label@ + " "@, base),
            (seq![spinner], plain().fg_spec(theme.active)),
        ],
    }
}

fn entry_spans(block: &GotoBlock, selected: bool, spinner: char, theme: &Theme) -> (spans: Vec<Span>)
    ensures
        line_view(spans@) == entry_line(*block, selected, spinner, *theme),
{
    let prefix = if selected {
        "▸ "
    } else {
        "  "
    };
    let base = Style::default().fg(
        if selected {
            theme.active
        } else {
            theme.foreground
        },
    );
    let mut text = prefix.to_owned();
    text.append(block.label.as_str());
    let mut spans: Vec<Span> = Vec::new();
    let (status, color): (String, Color) = match block.kind {
        StatusKind::NotRun => {
            spans.push(Span::styled(text, base));
            assert(line_view(spans@) =~= entry_line(*block, selected, spinner, *theme));
            return spans;
        },
        StatusKind::Success => ("✔".to_owned(), theme.success),
        StatusKind::Error => ("✘".to_owned(), theme.error),
        StatusKind::Running => {
            let mut mark = String::new();
            mark.push(spinner);
            assert(mark@ =~= seq![spinner]);
            (mark, theme.active)
        },
    };
    text.append(" ");
    spans.push(Span::styled(text, base));
    spans.push(Span::styled(status, Style::default().fg(color)));
    assert(line_view(spans@) =~= entry_line(*block, selected, spinner, *theme));
    spans
}

/// `keys` are the keys of the dialog with what they do.
pub open spec fn goto_keys(keys: Seq<(String, String)>) -> bool {
    &&& keys.len() == 3
    &&& keys[0].0@ == "↑↓"@ && keys[0].1@ == "move"@
    &&& keys[1].0@ == "↵"@ && keys[1].1@ == "go"@
    &&& keys[2].0@ == "esc"@ && keys[2].1@ == "cancel"@
}

/// What the dialog shows.
pub struct GotoView {
    pub popup: Rect,
    pub input_area: Rect,
    pub input: Vec<Span>,
    pub footer_area: Rect,
    pub list_area: Rect,
    pub items: Vec<Vec<Span>>,
    /// Where the preview stands, and the code it shows.
    pub preview: Option<(Rect, Vec<Vec<Span>>)>,
}

impl Goto {
    /// The matches are those of the query, and the selection is one of them (or
    /// the first place where there is none).
    pub open spec fn wf(&self) -> bool {
        &&& self.all_blocks@.len() <= usize::MAX
        &&& self.matches@ == matching_blocks(self.all_blocks@, self.query@)
        &&& self.selected == 0 || self.selected < self.matches@.len()
    }

    pub fn new(all_blocks: Vec<GotoBlock>, previews: HashMap<CodeId, (String, String)>) -> (goto:
        Goto)
        ensures
            goto.wf(),
            goto.query@.len() == 0,
            goto.selected == 0,
            goto.all_blocks == all_blocks,
            goto.previews == previews,
    {
        let mut goto = Goto {
            query: String::new(),
            selected: 0,
            matches: Vec::new(),
            all_blocks,
            previews,
        };
        goto.rebuild();
        goto
    }

    /// The number of the selected block.
    pub open spec fn selected_id(&self) -> Option<CodeId> {
        if self.selected < self.matches@.len() {
            Some(self.all_blocks@[self.matches@[self.selected as int] as int].id)
        } else {
            None
        }
    }

    proof fn lemma_matches(&self)
        requires
            self.wf(),
        ensures
            forall|k: int|
                0 <= k < self.matches@.len() ==> (#[trigger] self.matches@[k])
                    < self.all_blocks@.len(),
    {
        lemma_indices_where(
            self.all_blocks@.len(),
            |i: int| block_matches(self.all_blocks@[i], self.query@),
        );
    }

    /// The keys of the dialog.
    pub fn footer_shortcuts(&self, theme: &Theme) -> (spans: Vec<Span>)
        ensures
            exists|keys: Seq<(String, String)>| #[trigger]
                goto_keys(keys) && line_view(spans@) == shortcuts_line(*theme, keys),
    {
        let mut keys: Vec<(String, String)> = Vec::new();
        keys.push(("↑↓".to_owned(), "move".to_owned()));
        keys.push(("↵".to_owned(), "go".to_owned()));
        keys.push(("esc".to_owned(), "cancel".to_owned()));
        assert(goto_keys(keys@));
        theme.shortcuts(keys.as_slice())
    }

    pub fn selected_code_id(&self) -> (id: Option<CodeId>)
        requires
            self.wf(),
        ensures
            id == self.selected_id(),
    {
        proof {
            self.lemma_matches();
        }
        if self.selected < self.matches.len() {
            Some(self.all_blocks[self.matches[self.selected]].id)
        } else {
            None
        }
    }

    /// Recomputes the matches and keeps the selection within them.
    fn rebuild(&mut self)
        ensures
            final(self).wf(),
            final(self).query == old(self).query,
            final(self).all_blocks == old(self).all_blocks,
            final(self).previews == old(self).previews,
            final(self).selected == smaller(
                old(self).selected as int,
                less_by(final(self).matches@.len() as int, 1),
            ),
    {
        self.matches = self.build_matches();
        self.selected = self.selected.min(self.matches.len().saturating_sub(1));
        let count: usize = self.all_blocks.len();
        assert(self.all_blocks@.len() == count);
    }

    /// The places of the blocks that match the query.
    pub fn build_matches(&self) -> (matches: Vec<usize>)
        ensures
            matches@ == matching_blocks(self.all_blocks@, self.query@),
    {
        let lower = lowercase(self.query.as_str());
        let ghost keep = |i: int| block_matches(self.all_blocks@[i], self.query@);
        let mut matches: Vec<usize> = Vec::new();
        let mut i: usize = 0;
        while i < self.all_blocks.len()
            invariant
                i <= self.all_blocks@.len(),
                lower@ == lowercase_of(self.query@),
                keep == (|i: int| block_matches(self.all_blocks@[i], self.query@)),
                matches@ == indices_where(i as nat, keep),
            decreases self.all_blocks@.len() - i,
        {
            let block = &self.all_blocks[i];
            if self.query.as_str().is_empty() || contains(
                decimal(block.id as u64).as_str(),
                self.query.as_str(),
            ) || contains(lowercase(block.label.as_str()).as_str(), lower.as_str()) {
                matches.push(i);
            }
            i += 1;
        }
        matches
    }

    /// The dialog after an action.
    pub open spec fn applied(&self, before: &Goto, action: Action) -> bool {
        &&& self.all_blocks == before.all_blocks
        &&& self.previews == before.previews
        &&& self.query@ == (match action {
                Action::Input(ch) => before.query@.push(ch),
                Action::Delete => if before.query@.len() > 0 {
                    before.query@.drop_last()
                } else {
                    before.query@
                },
                _ => before.query@,
            })
        &&& self.selected == (match action {
                Action::Next => smaller(
                    before.selected + 1,
                    less_by(before.matches@.len() as int, 1),
                ),
                Action::Prev => less_by(before.selected as int, 1),
                _ => smaller(
                    before.selected as int,
                    less_by(self.matches@.len() as int, 1),
                ),
            })
    }

    /// Takes an action; `Select` and `Quit` are handed to the owner.
    pub fn update(&mut self, action: Action) -> (outcome: Option<Action>)
        requires
            old(self).wf(),
        ensures
            final(self).wf(),
            outcome == (if action is Select || action is Quit {
                Some(action)
            } else {
                None
            }),
            final(self).applied(old(self), action),
    {
        match action {
            Action::Input(ch) => {
                self.query.push(ch);
                self.rebuild();
                None
            },
            Action::Delete => {
                self.query.pop();
                self.rebuild();
                None
            },
            Action::Next => {
                let count: usize = self.matches.len();
                if count > 0 {
                    self.selected = (self.selected + 1).min(count.saturating_sub(1));
                }
                None
            },
            Action::Prev => {
                if !self.matches.is_empty() {
                    self.selected = self.selected.saturating_sub(1);
                }
                None
            },
            Action::Select => Some(Action::Select),
            Action::Quit => Some(Action::Quit),
        }
    }

    /// The query, or a note where there is none.
    pub open spec fn input_line(&self, theme: Theme) -> Seq<(Seq<char>, Style)> {
        seq![
            ("Block: "@, plain()),
            if self.query@.len() > 0 {
                (self.query@, plain().fg_spec(theme.active))
            } else {
                ("type to filter..."@, plain().fg_spec(theme.muted))
            },
        ]
    }

    /// The query, or a note where there is none.
    pub fn input_spans(&self, theme: &Theme) -> (spans: Vec<Span>)
        ensures
            line_view(spans@) == self.input_line(*theme),
    {
        let mut spans: Vec<Span> = Vec::new();
        spans.push(Span::styled("Block: ".to_owned(), Style::default()));
        if self.query.as_str().is_empty() {
            spans.push(
                Span::styled("type to filter...".to_owned(), Style::default().fg(theme.muted)),
            );
        } else {
            spans.push(Span::styled(self.query.clone(), Style::default().fg(theme.active)));
        }
        assert(line_view(spans@) =~= self.input_line(*theme));
        spans
    }

    /// The entry at a place of the matches.
    pub open spec fn item_line(&self, place: int, spinner: char, theme: Theme) -> Seq<
        (Seq<char>, Style),
    > {
        entry_line(
            self.all_blocks@[self.matches@[place] as int],
            place == self.selected,
            spinner,
            theme,
        )
    }

    /// The entries that are shown in a list of `rows` rows.
    pub fn list_items(&self, rows: usize, spinner: char, theme: &Theme) -> (items: Vec<Vec<Span>>)
        requires
            self.wf(),
        ensures
            ({
                let (start, end) = window_of(
                    self.matches@.len() as int,
                    self.selected as int,
                    rows as int,
                );
                &&& items@.len() == less_by(end, start)
                &&& forall|i: int|
                    0 <= i < items@.len() ==> line_view((#[trigger] items@[i])@) == self.item_line(
                        start + i,
                        spinner,
                        *theme,
                    )
            }),
    {
        proof {
            self.lemma_matches();
        }
        let (start, end) = list_window(self.matches.len(), self.selected, rows);
        let mut items: Vec<Vec<Span>> = Vec::new();
        let mut i: usize = start;
        while i < end
            invariant
                start <= end ==> start <= i <= end,
                start > end ==> i == start,
                end <= self.matches@.len(),
                items@.len() == i - start,
                forall|k: int|
                    0 <= k < self.matches@.len() ==> (#[trigger] self.matches@[k])
                        < self.all_blocks@.len(),
                forall|k: int|
                    0 <= k < items@.len() ==> line_view((#[trigger] items@[k])@) == self.item_line(
                        start + k,
                        spinner,
                        *theme,
                    ),
            decreases end - i,
        {
            let block = &self.all_blocks[self.matches[i]];
            items.push(entry_spans(block, i == self.selected, spinner, theme));
            i += 1;
        }
        items
    }

    /// The code of the selected block, where it is known.
    pub open spec fn selected_preview(&self) -> Option<(String, String)> {
        match self.selected_id() {
            Some(id) => if self.previews@.contains_key(id) {
                Some(self.previews@[id])
            } else {
                None
            },
            None => None,
        }
    }

    /// What the preview shows of the selected block: the first lines of its code,
    /// highlighted, where the dialog is wide enough and the code is known.
    pub open spec fn previews_in(
        &self,
        wide: bool,
        area: Rect,
        painter: Painter,
        preview: Option<(Rect, Vec<Vec<Span>>)>,
    ) -> bool {
        match self.selected_preview() {
            Some((language, code)) => if wide {
                let lines = painter.painted(code@, language@);
                &&& preview is Some
                &&& (preview->0).0 == area
                &&& lines_view((preview->0).1@) == lines.take(
                    smaller(area.height as int, lines.len() as int),
                )
            } else {
                preview is None
            },
            None => preview is None,
        }
    }

    /// The dialog in an area: a row for the query, the list, on a wide area with the
    /// preview of the selected block next to it, and a row for the keys.
    pub open spec fn drawn_in(
        &self,
        view: GotoView,
        area: Rect,
        spinner: char,
        theme: Theme,
        painter: Painter,
    ) -> bool {
        &&& is_middle(view.popup, 70, 50, area)
        &&& line_view(view.input@) == self.input_line(theme)
        &&& exists|body: Rect|
            {
                let wide = body.width >= MIN_PREVIEW_LAYOUT_WIDTH;
                &&& #[trigger] rows_around(
                    inside_popup(view.popup),
                    view.input_area,
                    body,
                    view.footer_area,
                )
                &&& view.list_area == (if wide {
                    columns_of(body, 45).0
                } else {
                    body
                })
                &&& self.previews_in(wide, columns_of(body, 45).1, painter, view.preview)
            }
        &&& {
            let (start, end) = window_of(
                self.matches@.len() as int,
                self.selected as int,
                view.list_area.height as int,
            );
            &&& view.items@.len() == less_by(end, start)
            &&& forall|i: int|
                0 <= i < view.items@.len() ==> line_view((#[trigger] view.items@[i])@)
                    == self.item_line(start + i, spinner, theme)
        }
    }

    /// Lays the dialog out in an area: on a wide one a preview of the selected
    /// block stands next to the list.
    pub fn render(&self, area: Rect, spinner: char, theme: &Theme, painter: &Painter) -> (view:
        GotoView)
        requires
            self.wf(),
        ensures
            self.drawn_in(view, area, spinner, *theme, *painter),
    {
        let popup = centered_rect(70, 50, area);
        let inner = popup_inner(popup);
        let (input_area, body, footer_area) = split_rows(inner);
        let wide = body.width >= MIN_PREVIEW_LAYOUT_WIDTH;
        let (list_area, preview_area) = if wide {
            split_columns(body, 45)
        } else {
            (body, Rect::default())
        };
        let preview = self.preview_in(wide, preview_area, painter);
        let view = GotoView {
            popup,
            input_area,
            input: self.input_spans(theme),
            footer_area,
            list_area,
            items: self.list_items(list_area.height as usize, spinner, theme),
            preview,
        };
        assert(rows_around(inside_popup(view.popup), view.input_area, body, view.footer_area));
        view
    }

    /// The preview of the selected block: where the dialog is wide enough and its
    /// code is known, the first lines of the code.
    pub fn preview_in(&self, wide: bool, preview_area: Rect, painter: &Painter) -> (preview: Option<
        (Rect, Vec<Vec<Span>>),
    >)
        requires
            self.wf(),
        ensures
            self.previews_in(wide, preview_area, *painter, preview),
    {
        if wide {
            if let Some(id) = self.selected_code_id() {
                if let Some((language, code)) = self.previews.get(&id) {
                    let mut lines = painter.highlight(code.as_str(), language.as_str());
                    let ghost all = lines_view(lines@);
                    lines.truncate(preview_area.height as usize);
                    assert(lines_view(lines@) =~= all.take(
                        smaller(preview_area.height as int, all.len() as int),
                    ));
                    return Some((preview_area, lines));
                }
            }
        }
        None
    }
}

/// The selected entry is among those shown, in a list of at least two rows.
pub proof fn law_selection_is_shown(total: int, selected: int, rows: int)
    requires
        0 <= selected < total,
        rows >= 2,
    ensures
        ({
            let (start, end) = window_of(total, selected, rows);
            start <= selected < end
        }),
{
}

impl Goto {
    /// `Next` and `Prev` go to the neighbours and stop at the ends; one undoes the other.
    pub proof fn law_moves_go_to_the_neighbours(
        before: Goto,
        next: Goto,
        back: Goto,
        prev: Goto,
    )
        requires
            before.wf(),
            next.wf(),
            before.selected < before.matches@.len(),
            next.applied(&before, Action::Next),
            back.applied(&next, Action::Prev),
            prev.applied(&before, Action::Prev),
        ensures
            before.selected + 1 < before.matches@.len() ==> next.selected == before.selected + 1
                && back.selected == before.selected,
            before.selected + 1 == before.matches@.len() ==> next.selected == before.selected,
            before.selected > 0 ==> prev.selected == before.selected - 1,
            before.selected == 0 ==> prev.selected == 0,
            next.matches@ == before.matches@,
    {
    }

    /// Deleting undoes typing, and a block is offered exactly where the query stands in
    /// its number or, upper and lower case taken as the same, in its label. The block
    /// that is gone to is one of those.
    pub proof fn law_typing_filters(
        before: Goto,
        typed: Goto,
        deleted: Goto,
        c: char,
        i: usize,
    )
        requires
            typed.wf(),
            i < typed.all_blocks@.len(),
            typed.applied(&before, Action::Input(c)),
            deleted.applied(&typed, Action::Delete),
        ensures
            deleted.query@ == before.query@,
            typed.query@.len() == before.query@.len() + 1,
            typed.query@.last() == c,
            typed.matches@.contains(i) <==> contains_text(
                decimal_text(typed.all_blocks@[i as int].id as nat),
                typed.query@,
            ) || contains_text(
                lowercase_of(typed.all_blocks@[i as int].label@),
                lowercase_of(typed.query@),
            ),
            typed.selected_id() matches Some(id) ==> exists|k: int|
                0 <= k < typed.all_blocks@.len() && (#[trigger] typed.all_blocks@[k]).id == id
                    && block_matches(typed.all_blocks@[k], typed.query@),
    {
        assert(before.query@.push(c).drop_last() =~= before.query@);
        let keep = |k: int| block_matches(typed.all_blocks@[k], typed.query@);
        lemma_indices_where(typed.all_blocks@.len(), keep);
        let found = indices_where(typed.all_blocks@.len(), keep);
        assert(found == typed.matches@);
        let at = i as int;
        if keep(at) {
            assert(found.contains(at as usize));
        }
        if found.contains(i) {
            let k = found.index_of(i);
            assert(found[k] == i);
        }
        if typed.selected < typed.matches@.len() {
            let k = typed.matches@[typed.selected as int] as int;
            assert(keep(k));
            assert(typed.all_blocks@[k].id == typed.selected_id()->0);
        }
    }
}

/// An entry shows its label behind an arrow where it is selected, else behind blanks,
/// and how its block ended.
pub proof fn law_entries_show_the_block(
    block: GotoBlock,
    selected: bool,
    spinner: char,
    theme: Theme,
)
    ensures
        ({
            let line = entry_line(block, selected, spinner, theme);
            let label = line[0].0;
            &&& label[0] == (if selected {
                '▸'
            } else {
                ' '
            })
            &&& label.len() >= block.label@.len() + 2
            &&& label.subrange(2, block.label@.len() as int + 2) == block.label@
            &&& block.kind == StatusKind::NotRun <==> line.len() == 1
            &&& block.kind == StatusKind::Success ==> line[1].0 == "✔"@ && line[1].1.fg
                == Some(theme.success)
            &&& block.kind == StatusKind::Error ==> line[1].0 == "✘"@ && line[1].1.fg
                == Some(theme.error)
            &&& block.kind == StatusKind::Running ==> line[1].0 == seq![spinner]
        }),
{
    reveal_strlit("▸ ");
    reveal_strlit("  ");
    reveal_strlit(" ");
    let line = entry_line(block, selected, spinner, theme);
    assert(line[0].0.subrange(2, block.label@.len() as int + 2) =~= block.label@);
}

/// The list fills its rows where there are enough entries, and never leaves room that
/// entries before the first shown one could take, but for one row.
pub proof fn law_window_is_used(total: int, selected: int, rows: int)
    requires
        0 <= selected < total,
        rows >= 2,
    ensures
        ({
            let (start, end) = window_of(total, selected, rows);
            &&& 0 <= start <= end <= total
            &&& end - start <= rows
            &&& total <= rows - 1 ==> start == 0 && end == total
            &&& end < total ==> end - start == rows
            &&& start > 0 ==> selected >= start + rows - 2
        }),
{
}

impl Goto {
    /// The input shows what was typed, or how to type.
    pub proof fn law_the_input_shows_the_query(&self, theme: Theme)
        ensures
            self.query@.len() > 0 ==> self.input_line(theme)[1].0 == self.query@
                && self.input_line(theme)[1].1.fg == Some(theme.active),
            self.query@.len() == 0 ==> self.input_line(theme)[1].0.len() > 0 && self.input_line(
                theme,
            )[1].1.fg == Some(theme.muted),
    {
        reveal_strlit("type to filter...");
    }

    /// What is previewed is the selected block.
    pub proof fn law_the_selected_block_is_previewed(&self, id: CodeId)
        ensures
            self.selected_id() == Some(id) && self.previews@.contains_key(id)
                ==> self.selected_preview() == Some(self.previews@[id]),
            self.selected_id() is None ==> self.selected_preview() is None,
            self.selected_id() == Some(id) && !self.previews@.contains_key(id)
                ==> self.selected_preview() is None,
    {
    }
}

} // verus!
