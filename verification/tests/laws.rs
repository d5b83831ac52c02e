use std::collections::HashMap;

use upmd::cli::app as cli;
use upmd::cli::line_counter::count_text;
use upmd::code::{Code, CodeId};
use upmd::exec::{merge_envs, Envs};
use upmd::navigation::Navigation;
use upmd::picker::{MarkdownFile, PickerAction, PickerState};
use upmd::rect::Rect;
use upmd::scheduler::{AdvanceResult, DependencyGraph, Scheduler};
use upmd::style::{Color, Line, Span, Style};
use upmd::task::{Task, TaskStatus};
use upmd::theme::{adjust_contrast, adjust_lightness, find_color, Hue, KeyHelp, Theme};
use upmd::tui::confirm::{self, Confirm, ConfirmAction};
use upmd::tui::dependencies::Dependencies;
use upmd::tui::goto::{self, list_window, Goto, GotoBlock, StatusKind};
use upmd::tui::layout::{centered_rect, split_bottom, Area};
use upmd::tui::markdown::inline::{expand_tabs_in_line, InlineSpan};
use upmd::tui::markdown::slice::slice_line;
use upmd::tui::markdown::table::{Alignment, Table, TableCell};
use upmd::tui::menu::{truncate_to_width, Menu};
use upmd::tui::search::{self, Search};
use upmd::tui::selection::{CopyLine, SelectionState};
use upmd::tui::themes::{self, Outcome, ThemeSelector};

fn code(id: CodeId, name: &str, deps: &[&[CodeId]]) -> Code {
    Code {
        id,
        name: name.to_string(),
        language: "sh".to_string(),
        language_name: "Sh".to_string(),
        content: String::new(),
        deps_text: String::new(),
        deps_tokens: Some(Vec::new()),
        dependencies: Ok(deps.iter().map(|group| group.to_vec()).collect()),
    }
}

fn text(spans: &[Span]) -> String {
    spans.iter().map(|span| span.content.as_str()).collect()
}

#[test]
fn deleting_undoes_typing_in_a_search() {
    let mut search = Search::new();
    search.update(search::Action::Input('a'));
    search.update(search::Action::Input('ß'));
    search.update(search::Action::Delete);
    assert_eq!(search.term(), "a");
    let rows = [4usize, 9];
    for _ in 0..5 {
        search.update(search::Action::Next);
    }
    assert_eq!(search.search(&rows), Some(&9));
    assert_eq!(search.footer_line(), "'a' 2/2");
}

#[test]
fn a_prompt_cancels_unless_yes_is_highlighted() {
    let mut prompt = Confirm::quit();
    assert_eq!(prompt.update(confirm::Action::Select), Some(confirm::Action::Cancelled));
    prompt.update(confirm::Action::Switch);
    assert_eq!(
        prompt.update(confirm::Action::Select),
        Some(confirm::Action::Confirmed(ConfirmAction::Quit))
    );
}

#[test]
fn the_selected_block_is_among_those_listed() {
    for selected in 0..30 {
        let (start, end) = list_window(30, selected, 7);
        assert!(start <= selected && selected < end);
        assert!(end <= 30 && end - start <= 7);
    }
}

#[test]
fn blocks_are_found_by_number_and_name() {
    let block = |id: CodeId, label: &str| GotoBlock {
        id,
        label: label.to_string(),
        kind: StatusKind::NotRun,
    };
    let mut goto = Goto::new(vec![block(1, "setup"), block(12, "Build")], HashMap::new());
    goto.update(goto::Action::Input('b'));
    assert_eq!(goto.selected_code_id(), Some(12));
    goto.update(goto::Action::Delete);
    goto.update(goto::Action::Input('1'));
    assert_eq!(goto.selected_code_id(), Some(1));
    goto.update(goto::Action::Next);
    assert_eq!(goto.selected_code_id(), Some(12));
}

#[test]
fn a_chain_is_drawn_in_one_row() {
    let codes = [code(1, "a", &[]), code(2, "b", &[&[1]]), code(3, "c", &[&[2]])];
    let deps = Dependencies::new(
        "Dependencies",
        &codes,
        Some(DependencyGraph::for_all(&codes)),
        "",
        HashMap::new(),
    );
    assert_eq!(deps.graph_rows(), 1);
    let rows = deps.graph_lines(deps.graph.as_ref().unwrap(), ' ', &Theme::default());
    assert_eq!(rows.len(), 1);
    let row = text(&rows[0]);
    assert!(row.find('a').unwrap() < row.find('b').unwrap());
    assert!(row.find('b').unwrap() < row.find('c').unwrap());
}

#[test]
fn moving_on_and_back_in_the_menu_ends_where_it_began() {
    let codes: Vec<Code> = (1..=3).map(|id| code(id, "", &[])).collect();
    let mut menu = Menu::new(&codes, Vec::new());
    for start in 0..3 {
        menu.state.selected = Some(start);
        menu.navigate(Navigation::Next);
        menu.navigate(Navigation::Prev);
        assert_eq!(menu.state.selected, Some(start));
    }
    menu.state.selected = Some(2);
    menu.navigate(Navigation::Next);
    assert_eq!(menu.selected(), Some(1));
}

#[test]
fn the_list_of_headings_keeps_its_limits() {
    let mut menu = Menu::new(&[], vec![(1, "Heading".to_string())]);
    menu.set_mode(upmd::tui::menu::MenuMode::Toc);
    for _ in 0..100 {
        menu.adjust_toc_width(2, 200);
    }
    assert!(menu.width(200) <= 60);
    for _ in 0..100 {
        menu.adjust_toc_width(-2, 200);
    }
    assert!(menu.width(200) >= 10);
}

#[test]
fn long_headings_are_cut_to_the_width() {
    assert_eq!(truncate_to_width("short", 10), "short");
    assert_eq!(truncate_to_width("日本語テキスト", 7), "日本語…");
}

#[test]
fn selections_copy_the_same_from_both_ends() {
    let lines = ["first", "second", "third"];
    let source = |i: usize| {
        lines.get(i).map(|line| CopyLine {
            text: line.to_string(),
            is_continuation: false,
            display_prefix_len: 0,
        })
    };
    let mut down = SelectionState::new();
    down.start(0, 2);
    down.extend(1, 3);
    let mut up = SelectionState::new();
    up.start(1, 3);
    up.extend(0, 2);
    assert_eq!(down.copy_text(source), Some("rst\nsec".to_string()));
    assert_eq!(up.copy_text(source), Some("rst\nsec".to_string()));
}

#[test]
fn marking_a_range_keeps_the_text() {
    let marked = Style::default().bg(Color::Blue);
    let line = vec![
        Span::styled("ab".to_string(), Style::default()),
        Span::styled("cdef".to_string(), Style::default().fg(Color::Red)),
    ];
    let out = SelectionState::apply_range(line, 1, 4, marked);
    assert_eq!(text(&out), "abcdef");
    let shown: String =
        out.iter().filter(|s| s.style.bg == Some(Color::Blue)).map(|s| s.content.as_str()).collect();
    assert_eq!(shown, "bcd");
}

#[test]
fn tabs_reach_the_next_stop_however_the_line_is_cut() {
    let whole = expand_tabs_in_line(Line::raw("a\tb"));
    assert_eq!(whole.text(), "a   b");
    let mut line = Line::raw("a");
    line.spans.extend(Line::raw("\tb").spans);
    assert_eq!(expand_tabs_in_line(line).text(), "a   b");
}

#[test]
fn parts_of_lines_have_the_text_of_the_part() {
    let mut line = Line::raw("héllo");
    line.spans.extend(Line::raw(" wörld").spans);
    assert_eq!(slice_line(&line, 1, 8).text(), "éllo wö");
    assert_eq!(slice_line(&line, 3, 3).text(), "");
}

fn table(cells: &[&str]) -> Table {
    let cell = |text: &&str| TableCell {
        spans: vec![InlineSpan { text: text.to_string(), style: Vec::new() }],
    };
    Table {
        headers: cells.iter().map(cell).collect(),
        rows: Vec::new(),
        alignments: cells.iter().map(|_| Alignment::Default).collect(),
    }
}

#[test]
fn columns_are_as_wide_as_their_content_where_the_table_fits() {
    let narrow = table(&["Name", "Description"]);
    assert!(narrow.is_countable());
    assert_eq!(narrow.column_widths(80), [4, 11]);
    let squeezed = narrow.column_widths(16);
    assert!(squeezed.iter().sum::<usize>() < 15);
}

#[test]
fn newlines_reach_the_terminal_behind_returns() {
    let counter = count_text("one\ntwo", 80);
    assert_eq!(counter.out, b"one\r\ntwo");
    assert_eq!(counter.lines, 1);
    assert_eq!(count_text(&"x".repeat(25), 10).lines, 2);
    assert_eq!(count_text("\x1b[31mred\x1b[0m", 80).col, 3);
}

#[test]
fn an_empty_query_matches_every_file() {
    let file = |path: &str| MarkdownFile { path: path.to_string(), display: path.to_string() };
    let state = PickerState::new(vec![file("b.md"), file("a.md")]);
    assert_eq!(state.matches, [0, 1]);
}

#[test]
fn every_block_of_a_plan_runs_once_and_after_its_dependencies() {
    let codes = [
        code(1, "d", &[&[2, 3]]),
        code(2, "b", &[&[4]]),
        code(3, "c", &[&[4]]),
        code(4, "a", &[]),
    ];
    let mut scheduler = Scheduler::for_all(&codes, true).unwrap();
    let mut ran: Vec<CodeId> = Vec::new();
    let mut batch = scheduler.start();
    while let Some(ids) = batch {
        batch = None;
        for id in ids {
            assert!(!ran.contains(&id));
            ran.push(id);
            if let AdvanceResult::NextBatch(next) = scheduler.advance(id, Some(0)) {
                batch = Some(next);
            }
        }
    }
    assert_eq!(ran, [4, 2, 3, 1]);
}

#[test]
fn statuses_follow_what_happened() {
    let mut task = Task::new();
    task.started = true;
    assert_eq!(task.status(), TaskStatus::Running);
    task.done = true;
    task.exit_code = Some(0);
    assert_eq!(task.status(), TaskStatus::Success);
    task.exit_code = Some(2);
    assert_eq!(task.status(), TaskStatus::Error);
}

#[test]
fn merged_variables_replace_and_extend() {
    let mut envs = Envs::new();
    envs.insert("A".to_string(), "1".to_string());
    envs.insert("B".to_string(), "2".to_string());
    let mut captured = Envs::new();
    captured.insert("B".to_string(), "3".to_string());
    captured.insert("C".to_string(), "4".to_string());
    merge_envs(&mut envs, &captured);
    let list: Vec<(&str, &str)> = (0..envs.len()).map(|i| envs.entry(i)).collect();
    assert_eq!(list, [("A", "1"), ("B", "3"), ("C", "4")]);
}

#[test]
fn colors_move_away_from_their_own_lightness() {
    let light = |r: u8, g: u8, b: u8| {
        0.299 * f32::from(r) + 0.587 * f32::from(g) + 0.114 * f32::from(b) >= 128.0
    };
    assert_eq!(adjust_lightness(Color::Rgb(10, 20, 250), 10), Color::Rgb(20, 30, 255));
    assert_eq!(adjust_lightness(Color::Rgb(5, 20, 250), -10), Color::Rgb(0, 10, 240));
    assert_eq!(adjust_contrast(Color::Rgb(10, 10, 10), 15, &light), Color::Rgb(25, 25, 25));
    assert_eq!(adjust_contrast(Color::Rgb(240, 240, 240), 15, &light), Color::Rgb(225, 225, 225));
    assert_eq!(find_color(&[Some((200, 20, 20)), Some((20, 200, 20))], Hue::Green), Some((20, 200, 20)));
}

#[test]
fn themes_are_previewed_selected_and_restored() {
    let names = vec!["dark".to_string(), "light".to_string()];
    let mut selector = ThemeSelector::new(names, "dark");
    let moved = selector.update(themes::Action::Navigation(Navigation::Next));
    assert!(matches!(moved, Some(Outcome::Preview(name)) if name == "light"));
    let quit = selector.update(themes::Action::Main(themes::MainAction::Quit));
    assert!(matches!(quit, Some(Outcome::Restore(name)) if name == "dark"));
    assert_eq!(text(&selector.footer_shortcuts(&Theme::default())), "esc quit  / search  ↵ select");
}

#[test]
fn regions_cover_the_terminal() {
    let mut area = Area::default();
    area.update(Rect::new(0, 0, 100, 40), 20);
    assert_eq!(area.footer, Rect::new(0, 39, 100, 1));
    assert_eq!(area.menu.x, 0);
    assert_eq!(area.menu.width, 20);
    assert_eq!(area.preview.x + area.preview.width, 100);
    assert_eq!(area.output_pty_size(), (100, 39));
    let middle = centered_rect(50, 50, Rect::new(0, 0, 100, 40));
    assert_eq!((middle.width, middle.height), (50, 20));
    assert_eq!((middle.x, middle.y), (25, 10));
}

#[test]
fn a_full_screen_program_gets_the_whole_terminal() {
    let app = cli::App::new(
        vec![code(1, "a", &[])],
        None,
        false,
        false,
        Envs::new(),
        "/".to_string(),
    );
    let entered = app.stream_effect(1, true, false, true, 100, 50);
    assert!(entered.pass_through);
    assert_eq!(entered.resize, Some((100, 50)));
    let left = app.stream_effect(1, true, true, false, 100, 50);
    assert_eq!(left.resize, Some((96, 40)));
    assert_eq!(app.stream_effect(1, true, false, false, 100, 50).resize, None);
    assert!(!app.is_alternate_screen());
}

#[test]
fn the_line_interface_can_start_with_a_picker() {
    let file = MarkdownFile { path: "/a.md".to_string(), display: "a.md".to_string() };
    let mut app =
        cli::App::from_file_picker(vec![file], false, false, Envs::new(), "/".to_string());
    let keys = cli::KeyBindings {
        picker: Some(PickerAction::Select),
        action: None,
        navigation: None,
        sendable: false,
    };
    assert_eq!(app.route_key(&keys), cli::Route::Picker(PickerAction::Select));
    assert!(matches!(app.handle_picker_msg(PickerAction::Select), cli::PickerNext::Open(0)));
    assert!(matches!(app.handle_picker_msg(PickerAction::Quit), cli::PickerNext::Quit));
}

#[test]
fn footers_list_keys_with_a_symbol_and_a_help_text() {
    let help = |symbol: Option<&str>, help: Option<&str>| KeyHelp {
        symbol: symbol.map(str::to_string),
        help: help.map(str::to_string),
    };
    let items = [
        help(Some("q"), Some("quit")),
        help(None, Some("hidden")),
        help(Some("x"), Some("")),
        help(Some("/"), Some("search")),
    ];
    assert_eq!(text(&Theme::default().keymap_shortcuts(&items)), "q quit  / search");
}

#[test]
fn rows_of_the_table_show_the_colors_of_their_themes() {
    let mut shown = vec![Theme::default(), Theme::default()];
    shown[1].background = Color::Red;
    let names = vec!["dark".to_string(), "light".to_string()];
    let selector = ThemeSelector::new(names, "light");
    let rows = selector.render_themes(&shown, &Theme::default());
    assert_eq!(rows.len(), 2);
    assert_eq!(rows[1].name.text(), " light ");
    assert_eq!(rows[1].swatches[0].style.fg, Some(Color::Red));
    assert!(rows[1].style.add.bold);
    assert!(!rows[0].style.add.bold);
}

#[test]
fn a_run_leaves_out_what_waits_for_a_failed_block() {
    let codes = [
        code(1, "a", &[]),
        code(2, "b", &[&[1]]),
        code(3, "c", &[]),
        code(4, "d", &[&[2]]),
    ];
    let mut scheduler = Scheduler::for_all(&codes, true).unwrap();
    let mut ran: Vec<CodeId> = Vec::new();
    let mut batch = scheduler.start();
    let mut end = None;
    while let Some(ids) = batch.take() {
        assert_eq!(ids.len(), 1);
        ran.push(ids[0]);
        match scheduler.advance(ids[0], Some(if ids[0] == 1 { 3 } else { 0 })) {
            AdvanceResult::NextBatch(next) => batch = Some(next),
            AdvanceResult::Finished { failed } => end = Some(failed),
            _ => panic!("one block runs at a time"),
        }
    }
    assert_eq!(ran, [1, 3]);
    assert_eq!(end, Some(true));
}

#[test]
fn returns_are_added_between_encoded_characters() {
    assert_eq!(count_text("é\n日本\n", 80).out, "é\r\n日本\r\n".as_bytes());
}

#[test]
fn an_empty_selection_gives_no_text() {
    let source = |_: usize| -> Option<CopyLine> {
        Some(CopyLine { text: "text".to_string(), is_continuation: false, display_prefix_len: 0 })
    };
    let mut selection = SelectionState::new();
    assert_eq!(selection.copy_text(source), None);
    selection.start(0, 2);
    assert_eq!(selection.copy_text(source), None);
    selection.extend(0, 4);
    assert_eq!(selection.copy_text(source), Some("xt".to_string()));
    selection.clear();
    assert_eq!(selection.copy_text(source), None);
}

#[test]
fn a_table_of_themes_marks_the_term() {
    let shown = vec![Theme::default(), Theme::default()];
    let names = vec!["dark".to_string(), "light".to_string()];
    let mut selector = ThemeSelector::new(names, "light");
    selector.update(themes::Action::Main(themes::MainAction::Search));
    selector.update(themes::Action::Search(search::Action::Input('G')));
    selector.update(themes::Action::Search(search::Action::Input('h')));
    let rows = selector.render_themes(&shown, &Theme::default());
    let marked = Theme::default().search_highlight_style();
    assert_eq!(rows.len(), selector.active_items().len());
    let light = rows.iter().find(|row| row.name.text() == " light ").unwrap();
    let parts: Vec<(&str, bool)> =
        light.name.spans.iter().map(|s| (s.content.as_str(), s.style == marked)).collect();
    assert_eq!(parts, [(" li", false), ("gh", true), ("t ", false)]);
}

#[test]
fn menus_and_panes_share_the_terminal() {
    let mut area = Area::default();
    area.update(Rect::new(0, 0, 100, 30), 20);
    assert_eq!(area.menu, Rect::new(0, 0, 20, 29));
    assert_eq!(area.preview, Rect::new(19, 0, 81, 29));
    assert_eq!(area.footer, Rect::new(0, 29, 100, 1));
    area.update(Rect::new(0, 0, 100, 30), 0);
    assert_eq!(area.menu, Rect::new(0, 0, 1, 29));
    assert_eq!(area.preview, Rect::new(0, 0, 100, 29));
    assert_eq!(centered_rect(60, 20, Rect::new(0, 0, 100, 50)), Rect::new(20, 20, 60, 10));
}

#[test]
fn a_menu_keeps_the_area_that_it_is_drawn_in() {
    let codes: Vec<Code> = (1..=40).map(|id| code(id, "", &[])).collect();
    let mut menu = Menu::new(&codes, Vec::new());
    assert!(menu.place(Rect::new(0, 0, 30, 12)));
    assert!(!menu.place(Rect::new(0, 0, 1, 12)));
    assert_eq!(menu.last_area, Rect::new(0, 0, 30, 12));
    menu.navigate(Navigation::First);
    menu.navigate(Navigation::PageDown);
    assert_eq!(menu.state.selected, Some(10));
}

#[test]
fn a_narrowed_table_fits_the_viewport() {
    let equal = table(&["aaaa", "bbbb", "cccc"]);
    assert_eq!(equal.column_widths(22), [4, 4, 4]);
    assert_eq!(equal.column_widths(21), [3, 4, 4]);
    assert_eq!(equal.column_widths(19), [3, 3, 3]);
    assert_eq!(equal.column_widths(5), [3, 3, 3]);
    let uneven = table(&["a", "b", "12345678901234567890"]);
    for viewport in 19..40 {
        let widths = uneven.column_widths(viewport);
        assert!(widths.iter().sum::<usize>() + 10 <= viewport, "{viewport}: {widths:?}");
    }
}

#[test]
fn rows_below_an_area_share_its_border() {
    let area = Rect::new(2, 0, 20, 10);
    let upper = |height: u16| Rect::new(2, 0, 20, height);
    assert_eq!(split_bottom(area, 3), (upper(8), Rect::new(2, 7, 20, 3)));
    assert_eq!(split_bottom(area, 1), (upper(10), Rect::new(2, 9, 20, 1)));
    assert_eq!(split_bottom(area, 0), (upper(10), Rect::new(2, 9, 20, 0)));
    assert_eq!(split_bottom(area, 30), (upper(1), Rect::new(2, 0, 20, 10)));
}

#[test]
fn a_counter_goes_on_behind_what_it_counted() {
    let mut counter = count_text("one\n", 80);
    counter.write("é\nthree\n".as_bytes());
    assert_eq!(counter.out, "one\r\né\r\nthree\r\n".as_bytes());
    assert_eq!(counter.lines, 3);
}

#[test]
fn colors_move_within_their_range() {
    let color = Color::Rgb(10, 200, 255);
    assert_eq!(adjust_lightness(color, i16::MIN), Color::Rgb(0, 0, 0));
    assert_eq!(adjust_lightness(color, 20), Color::Rgb(30, 220, 255));
    assert_eq!(adjust_lightness(Color::Reset, i16::MAX), Color::Reset);
}
