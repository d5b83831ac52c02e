//! The footer.

use vstd::prelude::*;

use super::actions::Action;
use super::flow::{App, Screen};
use crate::num::{less_by, smaller};
use crate::style::{
    append_spans, lemma_line_push, line_view, plain, raw_line, Color, Line, Span, Style,
};
use crate::rect::Rect;
use crate::theme::{
    contrasted, is_test, shortcuts_line, shown_keys, tests_light, KeyHelp, Theme,
};
use crate::tui::file_picker::open_keys;
use crate::tui::layout::{split_below, split_bottom};
use crate::tui::overlay::Overlay;

verus! {

/// A key of the interface and what it shows in the footer.
pub struct Binding {
    pub action: Action,
    pub help: KeyHelp,
}

/// What the footer calls the mode, and its color.
pub open spec fn mode_of(app: App, theme: Theme) -> (Seq<char>, Color) {
    match app.overlay {
        Some(Overlay::Search(_)) => ("SEARCH"@, theme.active),
        Some(Overlay::Goto(_)) => ("GOTO"@, theme.active),
        Some(Overlay::FilePicker { .. }) => ("OPEN"@, theme.active),
        _ => if app.screen == Screen::Input {
            if app.selected_runs() {
                ("INPUT"@, theme.success)
            } else {
                ("NORMAL"@, theme.accent)
            }
        } else if app.zen {
            ("ZEN"@, theme.logo)
        } else {
            ("NORMAL"@, theme.accent)
        },
    }
}

/// The keys that the footer shows: those with a symbol and a help text whose action
/// it shows.
pub open spec fn listed_keys(app: App, bound: Seq<Binding>, keys: Seq<(String, String)>) -> bool
    decreases bound.len(),
{
    if bound.len() == 0 {
        keys.len() == 0
    } else if app.shows_in_footer(bound.last().action) && bound.last().help.shown() {
        &&& keys.len() > 0
        &&& keys.last().0@ == bound.last().help.symbol->0@
        &&& keys.last().1@ == bound.last().help.help->0@
        &&& listed_keys(app, bound.drop_last(), keys.drop_last())
    } else {
        listed_keys(app, bound.drop_last(), keys)
    }
}

/// How the footer starts, where keys move in the document.
pub open spec fn move_line(theme: Theme) -> Seq<(Seq<char>, Style)> {
    seq![
        ("↑↓"@, theme.active_fg()),
        (" "@, theme.inactive_fg()),
        ("move"@, theme.muted_fg()),
        ("  "@, theme.inactive_fg()),
    ]
}

/// `keys` are those that are shown while nothing but the document is.
pub open spec fn zen_keys(keys: Seq<(String, String)>) -> bool {
    &&& keys.len() == 2
    &&& keys[0].0@ == "z"@
    &&& keys[0].1@ == "exit zen"@
    &&& keys[1].0@ == "q"@
    &&& keys[1].1@ == "quit"@
}

impl App {
    /// The footer shows an action.
    pub open spec fn shows_in_footer(&self, action: Action) -> bool {
        self.enables(action) && match self.screen {
            Screen::Input => action == Action::ExitInput || action == Action::Paste,
            _ => match action {
                Action::Execute
                | Action::Input
                | Action::ViewOutput
                | Action::OpenFilePicker
                | Action::Search
                | Action::Goto
                | Action::SwitchTheme
                | Action::ToggleWorkflowGraph
                | Action::ToggleZen
                | Action::Help => true,
                _ => false,
            },
        }
    }

    /// Whether the footer shows an action.
    pub fn is_action_visible_in_footer(&self, action: Action) -> (yes: bool)
        ensures
            yes == self.shows_in_footer(action),
    {
        if !self.is_action_enabled(action) {
            return false;
        }
        match self.screen {
            Screen::Input => match action {
                Action::ExitInput | Action::Paste => true,
                _ => false,
            },
            _ => match action {
                Action::Execute
                | Action::Input
                | Action::ViewOutput
                | Action::OpenFilePicker
                | Action::Search
                | Action::Goto
                | Action::SwitchTheme
                | Action::ToggleWorkflowGraph
                | Action::ToggleZen
                | Action::Help => true,
                _ => false,
            },
        }
    }

    /// The badge of the footer: the mode.
    pub fn footer_badge<F: Fn(u8, u8, u8) -> bool>(&self, theme: &Theme, light: F) -> (badge: Span)
        requires
            is_test(light),
        ensures
            badge@ == ({
                let (label, color) = mode_of(*self, *theme);
                (
                    " "@ + label + " "@,
                    plain().bg_spec(color).fg_spec(
                        contrasted(color, 100, tests_light(light, color)),
                    ),
                )
            }),
    {
        let running = match self.content.selected_code_id() {
            Some(id) => self.tasks.accepts_input(id),
            None => false,
        };
        match &self.overlay {
            Some(Overlay::Search(_)) => theme.mode_badge("SEARCH", theme.active, light),
            Some(Overlay::Goto(_)) => theme.mode_badge("GOTO", theme.active, light),
            Some(Overlay::FilePicker { .. }) => theme.mode_badge("OPEN", theme.active, light),
            _ => if self.screen == Screen::Input {
                if running {
                    theme.mode_badge("INPUT", theme.success, light)
                } else {
                    theme.mode_badge("NORMAL", theme.accent, light)
                }
            } else if self.zen {
                theme.mode_badge("ZEN", theme.logo, light)
            } else {
                theme.mode_badge("NORMAL", theme.accent, light)
            },
        }
    }

    fn listed(&self, bound: &[Binding]) -> (keys: Vec<(String, String)>)
        ensures
            listed_keys(*self, bound@, keys@),
    {
        let mut keys: Vec<(String, String)> = Vec::new();
        let mut i: usize = 0;
        while i < bound.len()
            invariant
                i <= bound.len(),
                listed_keys(*self, bound@.take(i as int), keys@),
            decreases bound.len() - i,
        {
            let ghost before = keys@;
            let item = &bound[i];
            if self.is_action_visible_in_footer(item.action) {
                if let (Some(symbol), Some(help)) = (&item.help.symbol, &item.help.help) {
                    if symbol.as_str().unicode_len() > 0 && help.as_str().unicode_len() > 0 {
                        keys.push((symbol.clone(), help.clone()));
                    }
                }
            }
            proof {
                let longer = bound@.take(i + 1);
                assert(longer.drop_last() =~= bound@.take(i as int));
                assert(longer.last() == bound@[i as int]);
                if keys@.len() > before.len() {
                    assert(keys@.drop_last() =~= before);
                }
            }
            i += 1;
        }
        assert(bound@.take(i as int) =~= bound@);
        keys
    }

    /// The keys in the footer.
    pub open spec fn footer_keys(&self, theme: Theme, bound: Seq<Binding>, line: Seq<(Seq<char>, Style)>) -> bool {
        exists|keys: Seq<(String, String)>| #[trigger]
            listed_keys(*self, bound, keys) && line == (if self.screen == Screen::Input {
                shortcuts_line(theme, keys)
            } else {
                move_line(theme) + shortcuts_line(theme, keys)
            })
    }

    /// The keys of the interface as the footer shows them.
    pub fn footer_shortcuts(&self, theme: &Theme, bound: &[Binding]) -> (spans: Vec<Span>)
        ensures
            self.footer_keys(*theme, bound@, line_view(spans@)),
    {
        let keys = self.listed(bound);
        let shown = theme.shortcuts(keys.as_slice());
        assert(listed_keys(*self, bound@, keys@));
        if self.screen == Screen::Input {
            return shown;
        }
        let mut spans: Vec<Span> = Vec::new();
        let ghost start = line_view(spans@);
        let arrows = Span::styled("↑↓".to_owned(), theme.active_fg_style());
        let gap = Span::styled(" ".to_owned(), theme.inactive_style());
        let word = Span::styled("move".to_owned(), theme.muted_style());
        let end = Span::styled("  ".to_owned(), theme.inactive_style());
        proof {
            lemma_line_push(spans@, arrows);
            lemma_line_push(spans@.push(arrows), gap);
            lemma_line_push(spans@.push(arrows).push(gap), word);
            lemma_line_push(spans@.push(arrows).push(gap).push(word), end);
        }
        spans.push(arrows);
        spans.push(gap);
        spans.push(word);
        spans.push(end);
        assert(line_view(spans@) =~= move_line(*theme));
        append_spans(&mut spans, &shown);
        spans
    }

    /// What the footer shows between the badge and its end.
    pub open spec fn footer_shows(
        &self,
        theme: Theme,
        bound: Seq<Binding>,
        search_bound: Seq<KeyHelp>,
        line: Seq<(Seq<char>, Style)>,
    ) -> bool {
        match self.overlay {
            Some(Overlay::Search(_)) => exists|keys: Seq<(String, String)>| #[trigger]
                shown_keys(search_bound, keys) && line == shortcuts_line(theme, keys),
            Some(Overlay::Goto(_)) => line.len() == 0,
            Some(Overlay::FilePicker { .. }) => exists|keys: Seq<(String, String)>| #[trigger]
                open_keys(keys) && line == shortcuts_line(theme, keys),
            _ => if self.screen != Screen::Input && self.zen {
                exists|keys: Seq<(String, String)>| #[trigger]
                    zen_keys(keys) && line == shortcuts_line(theme, keys)
            } else {
                self.footer_keys(theme, bound, line)
            },
        }
    }

    /// The footer between the badge and its end: the keys of a search or of the file
    /// picker while one is open, else those of the interface, or two of them while
    /// nothing but the document is shown. `search_bound` are the keys of a search
    /// that the footer lists.
    pub fn footer_content(&self, theme: &Theme, bound: &[Binding], search_bound: &[KeyHelp]) -> (
        spans: Vec<Span>)
        ensures
            self.footer_shows(*theme, bound@, search_bound@, line_view(spans@)),
    {
        match &self.overlay {
            Some(Overlay::Search(_)) => theme.keymap_shortcuts(search_bound),
            Some(Overlay::Goto(_)) => Vec::new(),
            Some(Overlay::FilePicker { picker, .. }) => picker.footer_shortcuts(theme),
            _ => if self.screen != Screen::Input && self.zen {
                let mut keys: Vec<(String, String)> = Vec::new();
                keys.push(("z".to_owned(), "exit zen".to_owned()));
                keys.push(("q".to_owned(), "quit".to_owned()));
                assert(zen_keys(keys@));
                theme.shortcuts(keys.as_slice())
            } else {
                self.footer_shortcuts(theme, bound)
            },
        }
    }

    /// The end of the footer: the search while one is open, else the name and the
    /// version of the program.
    pub fn footer_end(&self, name: &str, version: &str, theme: &Theme) -> (spans: Vec<Span>)
        ensures
            line_view(spans@) == (match self.overlay {
                Some(Overlay::Search(search)) => raw_line(search@.footer()).spans,
                _ => seq![
                    (name@, theme.active_fg()),
                    (" "@, plain()),
                    (version@, theme.muted_fg()),
                ],
            }),
    {
        match &self.overlay {
            Some(Overlay::Search(search)) => Line::raw(search.footer_line().as_str()).spans,
            _ => App::footer_right(name, version, theme),
        }
    }

    /// The end of the footer: the name and the version of the program.
    pub fn footer_right(name: &str, version: &str, theme: &Theme) -> (spans: Vec<Span>)
        ensures
            line_view(spans@) =~= seq![
                (name@, theme.active_fg()),
                (" "@, plain()),
                (version@, theme.muted_fg()),
            ],
    {
        let mut spans: Vec<Span> = Vec::new();
        let first = Span::styled(name.to_owned(), theme.active_fg_style());
        let gap = Span::styled(" ".to_owned(), Style::default());
        let end = Span::styled(version.to_owned(), theme.muted_style());
        proof {
            lemma_line_push(spans@, first);
            lemma_line_push(spans@.push(first), gap);
            lemma_line_push(spans@.push(first).push(gap), end);
        }
        spans.push(first);
        spans.push(gap);
        spans.push(end);
        spans
    }

    /// The height of the graph below the preview, with its border.
    pub open spec fn graph_height(&self) -> Option<int> {
        if self.graph_shown && self.graph is Some {
            Some(
                smaller(
                    self.graph->0.rows_shown() as int,
                    less_by(self.layout.preview.height as int, 2),
                ) + 2,
            )
        } else {
            None
        }
    }

    /// The height of the graph below the preview, with its border, where it is
    /// shown.
    pub fn graph_rows(&self) -> (rows: Option<u16>)
        ensures
            match rows {
                Some(rows) => self.graph_height() is Some && rows == smaller(
                    self.graph_height()->0,
                    u16::MAX as int,
                ),
                None => self.graph_height() is None,
            },
    {
        match &self.graph {
            Some(graph) => if self.graph_shown {
                let rows = graph.graph_rows().min(self.layout.preview.height.saturating_sub(2));
                Some(rows.saturating_add(2))
            } else {
                None
            },
            None => None,
        }
    }

    /// Where the preview is drawn, and the graph below it where it is shown. The two
    /// share a border.
    pub fn preview_panes(&self) -> (panes: (Rect, Option<Rect>))
        ensures
            match panes.1 {
                Some(graph) => self.graph_height() is Some && split_below(
                    self.layout.preview,
                    smaller(self.graph_height()->0, u16::MAX as int),
                    panes.0,
                    graph,
                ),
                None => self.graph_height() is None && panes.0 == self.layout.preview,
            },
    {
        match self.graph_rows() {
            Some(rows) => {
                let (upper, lower) = split_bottom(self.layout.preview, rows);
                (upper, Some(lower))
            },
            None => (self.layout.preview, None),
        }
    }
}

} // verus!
