use std::collections::HashMap;

use upmd::cli;
use upmd::cli::render::{excerpt, BlockOutput};
use upmd::code::{check_codes, Code, CodeId};
use upmd::config::{
    CliConfig, Config, ConfigArgs, KeymapConfig, TuiConfig, UserConfig, CLI_PREVIEW_LINES,
};
use upmd::exec::{handle_stream, Envs, Stream};
use upmd::navigation::Navigation;
use upmd::picker::{MarkdownFile, PickerAction};
use upmd::rect::Rect;
use upmd::scheduler::{AdvanceResult, DependencyGraph};
use upmd::style::{Color, Span, Style};
use upmd::task::Task;
use upmd::theme::{KeyHelp, Theme};
use upmd::theme_library::{Painter, ThemeFile, ThemeLibrary};
use upmd::tui::app::actions::{Action, Command};
use upmd::tui::app::dialogs::{Answer, Clicked};
use upmd::tui::app::events::{Event, OutputCommand, OutputRoute, Route};
use upmd::tui::app::flow::{App, Next, Options, Screen};
use upmd::tui::app::footer::Binding;
use upmd::tui::app::open::{Document, Look};
use upmd::tui::app::resize::Resize;
use upmd::tui::dependencies::{self, Dependencies};
use upmd::tui::envs;
use upmd::tui::file_picker::{
    preview_prefix, FilePicker, PickerBody, PREVIEW_MAX_BYTES, PREVIEW_MAX_LINES,
};
use upmd::tui::help::{self, Help, KeymapEntry};
use upmd::tui::markdown::ast::{Node, NodeKind};
use upmd::tui::markdown::inline::InlineSpan;
use upmd::tui::menu::{self, Menu};
use upmd::tui::notification::{FlashKind, DEFAULT_DURATION};
use upmd::tui::output;
use upmd::tui::overlay::{Message, Overlay};
use upmd::tui::preview::interact::{Mouse, MouseKind};
use upmd::tui::search;
use upmd::tui::tasks::TaskOutput;
use upmd::tui::themes::ThemeSelector;

const THEME: &str = "base16-ocean.dark";

fn is_light(r: u8, g: u8, b: u8) -> bool {
    0.299 * f32::from(r) + 0.587 * f32::from(g) + 0.114 * f32::from(b) >= 128.0
}

fn library() -> ThemeLibrary {
    ThemeLibrary::new(Vec::new())
}

fn theme() -> Theme {
    Theme::new(THEME, false, &library(), &is_light)
}

fn code(id: CodeId, name: &str, language: &str, content: &str, deps: &[&[CodeId]]) -> Code {
    Code {
        id,
        name: name.to_string(),
        language: language.to_lowercase(),
        language_name: language.to_string(),
        content: content.to_string(),
        deps_text: String::new(),
        deps_tokens: Some(Vec::new()),
        dependencies: Ok(deps.iter().map(|group| group.to_vec()).collect()),
    }
}

fn text(spans: &[Span]) -> String {
    spans.iter().map(|span| span.content.as_str()).collect()
}

#[test]
fn test_user_config_defaults() {
    let cfg = UserConfig::default();
    assert_eq!(cfg.theme(), "catppuccin-mocha");
    assert!(!cfg.transparent());
    assert_eq!(cfg.tick_rate(), 66);
    assert_eq!(cfg.tui.as_ref().map(|t| t.inline_max_lines()), None);
    assert!(cfg.cli.is_none());
}

fn config(transparent: bool) -> Config {
    let args = ConfigArgs {
        file: None,
        theme: THEME.to_string(),
        capture_state: false,
        block: None,
        yes: false,
        all: false,
        tick_rate: 66,
        tui: TuiConfig::default(),
        cli: CliConfig::default(),
        transparent,
        keymap: KeymapConfig::default(),
        binaries: HashMap::new(),
        working_dir: None,
    };
    Config::new(args, &library(), is_light)
}

#[test]
fn test_config_new_theme_non_transparent() {
    let config = config(false);
    assert!(!config.transparent);
    assert_ne!(config.theme.background, Color::Reset);
    assert_ne!(config.theme.foreground, Color::Reset);
}

#[test]
fn test_config_new_theme_transparent() {
    let config = config(true);
    assert!(config.transparent);
    assert_eq!(config.theme.background, Color::Reset);
    assert_eq!(config.theme.foreground, Color::Reset);
}

#[test]
fn test_config_new_transparent_field_matches_argument() {
    assert!(!config(false).transparent);
    assert!(config(true).transparent);
}

#[test]
fn documents_with_unknown_or_repeated_blocks_are_told_apart() {
    let good = [code(1, "a", "Sh", ":", &[]), code(2, "b", "Sh", ":", &[&[1]])];
    assert!(check_codes(&good));
    assert!(!check_codes(&[code(1, "a", "Sh", ":", &[&[3]])]));
    assert!(!check_codes(&[code(1, "a", "Sh", ":", &[]), code(1, "b", "Sh", ":", &[])]));
}

#[test]
fn test_theme_loading() {
    let theme = theme();
    assert_ne!(theme.background, Color::Reset);
    assert_ne!(theme.foreground, Color::Reset);
    assert_eq!(theme.background, Color::Rgb(43, 48, 59));
    let transparent = Theme::new(THEME, true, &library(), &is_light);
    assert_eq!(transparent.background, Color::Reset);
    assert_eq!(transparent.foreground, Color::Reset);
}

#[test]
fn themes_of_files_come_before_those_of_the_highlighter() {
    let source = "<?xml version=\"1.0\" encoding=\"UTF-8\"?><plist version=\"1.0\"><dict>\
        <key>name</key><string>Night</string><key>settings</key><array><dict>\
        <key>settings</key><dict><key>background</key><string>#102030</string>\
        <key>foreground</key><string>#f0f0f0</string></dict></dict></array></dict></plist>";
    let library = ThemeLibrary::new(vec![ThemeFile {
        name: "night".to_string(),
        source: source.to_string(),
    }]);
    assert_eq!(library.bundled_theme_source("night"), Some(source));
    assert_eq!(library.bundled_theme_source("day"), None);
    let names = library.available_themes();
    assert!(names.contains(&"night".to_string()));
    assert!(names.contains(&THEME.to_string()));
    let theme = Theme::new("night", false, &library, &is_light);
    assert_eq!(theme.background, Color::Rgb(16, 32, 48));
    assert_eq!(theme.name(), "night");
}

#[test]
fn test_highlight_splits_lines_without_embedded_line_endings() {
    let painter = Painter::new(THEME, &library());
    let highlighted = painter.highlight("one\ntwo\r\nthree", "txt");
    let rendered: Vec<String> = highlighted.iter().map(|line| text(line)).collect();
    assert_eq!(rendered, ["one", "two", "three"]);
    assert!(highlighted
        .iter()
        .flat_map(|line| line.iter())
        .all(|span| !span.content.contains(['\r', '\n'])));
}

#[test]
fn test_find_language() {
    let painter = Painter::new(THEME, &library());
    for (name, code, expected) in [
        ("sh", "", "sh"),
        ("rb", "", "rb"),
        ("php", "", "php"),
        ("", "", "txt"),
        ("", "#!/usr/bin/sh", "sh"),
    ] {
        let result =
            upmd::highlight::find_syntax_or_default(painter.syntaxes(), name, code).unwrap();
        assert_eq!(result.file_extensions.first().unwrap(), expected);
    }
}

#[test]
fn code_is_painted_in_more_than_one_color() {
    let painter = Painter::new(THEME, &library());
    let lines = painter.highlight("let x = \"text\";", "rs");
    let mut colors: Vec<Option<Color>> = lines[0].iter().map(|s| s.style.fg).collect();
    colors.dedup();
    assert!(colors.len() > 1);
    assert_eq!(text(&lines[0]), "let x = \"text\";");
}

// The line interface.

fn cli_app(codes: Vec<Code>, yes: bool) -> cli::app::App {
    cli::app::App::new(codes, None, yes, false, Envs::new(), "/work".to_string())
}

fn make_two_block_app() -> cli::app::App {
    cli_app(
        vec![
            code(1, "", "Python", "print(\"hello\")", &[]),
            code(2, "", "Bash", "echo world", &[]),
        ],
        false,
    )
}

fn make_parallel_app() -> cli::app::App {
    cli_app(
        vec![
            code(1, "a", "Sh", ":", &[]),
            code(2, "b", "Sh", ":", &[]),
            code(3, "target", "Sh", ":", &[&[1, 2]]),
        ],
        false,
    )
}

fn draw(app: &mut cli::app::App, preview_lines: usize) -> String {
    let theme = theme();
    let painter = Painter::new(THEME, &library());
    let shown = match app.codes.get(app.selected) {
        Some(code) => painter.highlight(&excerpt(&code.content, preview_lines), &code.language),
        None => Vec::new(),
    };
    String::from_utf8(app.render(&theme, &shown, preview_lines, 80)).unwrap()
}

fn insert_completed_output(app: &mut cli::app::App, id: CodeId, line: &str, exit_code: i32) {
    let mut task = Task::new();
    handle_stream(&mut task, &Stream::Out(format!("{line}\n")));
    handle_stream(&mut task, &Stream::Exit(exit_code));
    handle_stream(&mut task, &Stream::End);
    let screen = vec![vec![Span::styled(line.to_string(), Style::default())]];
    app.outputs.insert(id, BlockOutput { task, screen, alternate: false });
}

#[test]
fn test_write_card_contains_block_header() {
    let out = draw(&mut make_two_block_app(), CLI_PREVIEW_LINES);
    assert!(out.contains("/2]"), "card should show block index");
    assert!(out.contains("Python"), "card should show language");
}

#[test]
fn test_write_card_contains_code_and_separator() {
    let out = draw(&mut make_two_block_app(), CLI_PREVIEW_LINES);
    assert!(out.contains("print"), "card should contain code content");
    assert!(out.contains('─'), "card should contain separator line");
}

#[test]
fn test_create_with_no_code_blocks_shows_message() {
    let mut app = cli_app(Vec::new(), false);
    let _ = app.create();
    assert_eq!(app.codes.len(), 0);
}

#[test]
fn test_write_footer_contains_help_text() {
    let out = draw(&mut make_two_block_app(), CLI_PREVIEW_LINES);
    assert!(out.contains("j/k"), "footer should show navigation");
    assert!(out.contains("enter"), "footer should show run key");
    assert!(out.contains("q"), "footer should show quit key");
}

#[test]
fn test_navigation_updates_selected() {
    let mut app = make_two_block_app();
    assert_eq!(app.selected, 0, "starts at first block");
    app.handle_nav(Navigation::Next);
    assert_eq!(app.selected, 1, "navigates to second block");
    app.handle_nav(Navigation::Prev);
    assert_eq!(app.selected, 0, "navigates back to first block");
}

#[test]
fn test_navigation_first_and_last() {
    let mut app = make_two_block_app();
    app.handle_nav(Navigation::Last);
    assert_eq!(app.selected, 1, "goes to last block");
    app.handle_nav(Navigation::First);
    assert_eq!(app.selected, 0, "goes to first block");
}

#[test]
fn test_navigation_clamps() {
    let mut app = make_two_block_app();
    app.handle_nav(Navigation::Prev);
    assert_eq!(app.selected, 0);
    app.handle_nav(Navigation::Last);
    app.handle_nav(Navigation::Next);
    assert_eq!(app.selected, 1);
}

#[test]
fn test_create_with_empty_codes() {
    let step = cli_app(Vec::new(), false).create();
    assert!(matches!(step.next, cli::app::Next::Nothing), "empty codes starts nothing");
}

#[test]
fn test_cli_config_preview_lines_used() {
    let content = "print(\"1\")\nprint(\"2\")\nprint(\"3\")";
    let mut app = cli_app(vec![code(1, "", "Python", content, &[])], false);
    let out = draw(&mut app, 1);
    assert!(out.contains("2 more lines"), "should respect preview_lines=1; got:\n{out}");
}

#[test]
fn test_cli_preview_highlight_has_no_embedded_line_endings() {
    let content = "print(\"1\")\nprint(\"2\")";
    let mut app = cli_app(vec![code(1, "", "Python", content, &[])], false);
    let out = draw(&mut app, 2);
    assert!(!out.contains("print(\"1\")\n\x1b[0m\n"), "highlight leaked a line ending:\n{out}");
}

#[test]
fn test_execute_with_wrong_id_returns_none() {
    let step = make_two_block_app().execute(9999);
    assert!(matches!(step.next, cli::app::Next::Nothing));
}

#[test]
fn test_empty_codes_action_does_not_panic() {
    let mut app = cli_app(Vec::new(), false);
    let step = app.handle_action(cli::app::Action::Quit);
    assert!(matches!(step.next, cli::app::Next::Quit));
}

#[test]
fn test_empty_all_plan_does_not_panic() {
    let step = cli_app(Vec::new(), false).start_all();
    assert!(matches!(step.next, cli::app::Next::Nothing));
}

#[test]
fn test_empty_codes_create_with_yes_does_not_panic() {
    let step = cli_app(Vec::new(), true).create();
    assert!(matches!(step.next, cli::app::Next::Nothing), "nothing to run with --yes");
}

#[test]
fn test_write_card_twice_gives_same_output() {
    let mut app = make_two_block_app();
    let first = draw(&mut app, CLI_PREVIEW_LINES);
    app.batch_output.set_previous_lines(0);
    assert_eq!(first, draw(&mut app, CLI_PREVIEW_LINES), "write_card is deterministic");
}

#[test]
fn test_write_card_different_blocks() {
    let mut app = make_two_block_app();
    let card1 = draw(&mut app, CLI_PREVIEW_LINES);
    app.selected = 1;
    let card2 = draw(&mut app, CLI_PREVIEW_LINES);
    assert!(card1.contains("print"), "first block contains python code");
    assert!(card2.contains("echo"), "second block contains bash code");
    assert_ne!(card1, card2, "different blocks produce different cards");
}

#[test]
fn non_terminal_parallel_output_is_plain_and_deterministic() {
    let mut app = make_parallel_app();
    insert_completed_output(&mut app, 1, "from a", 0);
    insert_completed_output(&mut app, 2, "from b", 0);
    app.batch_output.set_terminal(false);
    app.batch_output.select(&[1, 2]);
    app.batch_output.track(1);
    app.batch_output.track(2);
    app.batch_output.complete(&AdvanceResult::NextBatch(vec![3]));
    let output = draw(&mut app, CLI_PREVIEW_LINES);
    assert!(!output.contains('\u{1b}'));
    assert!(output.find("==> a").unwrap() < output.find("==> b").unwrap());
    assert!(output.contains("from a"));
    assert!(output.contains("from b"));
    assert!(output.contains("<== a exited with code 0"));
    assert!(output.contains("<== b exited with code 0"));
    assert!(draw(&mut app, CLI_PREVIEW_LINES).is_empty());
}

#[test]
fn terminal_parallel_output_supports_focus_and_commits_every_block() {
    let mut app = make_parallel_app();
    insert_completed_output(&mut app, 1, "from a", 0);
    insert_completed_output(&mut app, 2, "from b", 0);
    app.batch_output.select(&[1, 2]);
    app.batch_output.track(1);
    app.batch_output.track(2);
    let live = draw(&mut app, CLI_PREVIEW_LINES);
    assert!(live.contains("Parallel:"));
    assert!(live.contains("tab"));
    assert_eq!(app.codes[app.selected].id, 1);
    app.handle_action(cli::app::Action::FocusNext);
    assert_eq!(app.codes[app.selected].id, 2);
    app.batch_output.complete(&AdvanceResult::Finished { failed: false });
    app.batch_output.set_previous_lines(0);
    let committed = draw(&mut app, CLI_PREVIEW_LINES);
    assert!(committed.find("==> a").unwrap() < committed.find("==> b").unwrap());
    assert!(committed.contains("from a"));
    assert!(committed.contains("from b"));
    assert_eq!(app.batch_output.previous_lines(), 0);
}

// Pickers, help, menu and graph.

fn markdown_file(path: &str, display: &str) -> MarkdownFile {
    MarkdownFile { path: path.to_string(), display: display.to_string() }
}

fn picker() -> FilePicker {
    FilePicker::new(vec![
        markdown_file("/repo/README.md", "README.md"),
        markdown_file("/repo/docs/install.md", "docs/install.md"),
    ])
}

#[test]
fn filters_by_display_path() {
    let mut picker = picker();
    picker.update(PickerAction::Input('i'));
    picker.update(PickerAction::Input('n'));
    assert_eq!(picker.state.matches.len(), 1);
    assert_eq!(picker.selected_path().unwrap(), "/repo/docs/install.md");
}

#[test]
fn preview_prefix_reads_only_top_lines() {
    let content: String = (0..(PREVIEW_MAX_LINES + 25)).map(|i| format!("line {i}\n")).collect();
    let prefix = preview_prefix(content.as_bytes(), Some(content.len() as u64));
    assert_eq!(prefix.line_count, PREVIEW_MAX_LINES);
    assert!(prefix.truncated);
    assert!(prefix.content.contains("line 0\n"));
    assert!(prefix.content.contains(&format!("line {}\n", PREVIEW_MAX_LINES - 1)));
    assert!(!prefix.content.contains(&format!("line {}\n", PREVIEW_MAX_LINES)));
}

#[test]
fn preview_prefix_marks_byte_truncation() {
    let content = "a".repeat(PREVIEW_MAX_BYTES + 1);
    let prefix = preview_prefix(
        &content.as_bytes()[..PREVIEW_MAX_BYTES],
        Some(content.len() as u64),
    );
    assert_eq!(prefix.line_count, 1);
    assert_eq!(prefix.content.len(), PREVIEW_MAX_BYTES);
    assert!(prefix.truncated);
}

#[test]
fn invalid_bytes_become_replacement_characters() {
    let prefix = preview_prefix(&[b'a', 0xff, b'b'], Some(3));
    assert_eq!(prefix.content, "a\u{fffd}b");
}

#[test]
fn query_with_no_matches_clears_selection_and_recovers_after_delete() {
    let mut picker = picker();
    picker.update(PickerAction::Input('z'));
    assert!(picker.state.matches.is_empty());
    assert_eq!(picker.selected_path(), None);
    picker.update(PickerAction::Delete);
    assert_eq!(picker.state.matches.len(), 2);
    assert_eq!(picker.selected_path().unwrap(), "/repo/README.md");
}

#[test]
fn navigation_clamps_to_matches() {
    let mut picker = picker();
    picker.update(PickerAction::Next);
    picker.update(PickerAction::Next);
    assert_eq!(picker.selected_path().unwrap(), "/repo/docs/install.md");
    picker.update(PickerAction::Prev);
    assert_eq!(picker.selected_path().unwrap(), "/repo/README.md");
}

fn help_with_items() -> Help {
    let entry = |section: &str, symbol: &str, description: &str, search: &str| {
        KeymapEntry::new(
            section,
            symbol.to_string(),
            description.to_string(),
            search.to_string(),
        )
    };
    Help::new(vec![
        entry("help", "?", "Open help overlay", "help ? open help overlay"),
        entry("search", "/", "Find text", "search / find text"),
        entry("goto", "g", "Jump to code block", "goto g jump to code block"),
        entry("output", "x", "Clear completed output", "output x clear completed output"),
    ])
}

fn matched_symbols(help: &Help) -> Vec<&str> {
    help.matches.iter().map(|&idx| help.all_items[idx].symbol.as_str()).collect()
}

#[test]
fn input_appends_query_and_rebuilds_matches() {
    let mut help = help_with_items();
    help.update(help::Action::Input('j'));
    assert_eq!(help.query, "j");
    assert_eq!(matched_symbols(&help), vec!["g"]);
}

#[test]
fn navigation_scrolls_rows_without_selecting_items() {
    let mut help = help_with_items();
    help.update(help::Action::Next);
    help.update(help::Action::Next);
    assert_eq!(help.scroll, 2);
    help.update(help::Action::Prev);
    assert_eq!(help.scroll, 1);
    help.update(help::Action::Input('j'));
    assert_eq!(help.scroll, 0);
    assert_eq!(matched_symbols(&help), vec!["g"]);
}

#[test]
fn filters_match_section_symbol_and_description() {
    for (query, expected) in [("search", vec!["/"]), ("/", vec!["/"]), ("jump", vec!["g"])] {
        let mut help = help_with_items();
        for ch in query.chars() {
            help.update(help::Action::Input(ch));
        }
        assert_eq!(matched_symbols(&help), expected, "query {query:?}");
    }
}

#[test]
fn test_menu_page_up_down() {
    let codes: Vec<Code> = (1..=20).map(|id| code(id, "", "", "", &[])).collect();
    let mut menu = Menu::new(&codes, Vec::new());
    menu.last_area = Rect::new(0, 0, 30, 12);
    let page = |menu: &mut Menu, from: usize, nav: Navigation| {
        menu.state.selected = Some(from);
        menu.update(menu::Action::Navigation(nav));
        menu.state.selected
    };
    assert_eq!(page(&mut menu, 10, Navigation::PageUp), Some(0), "page_up from middle");
    assert_eq!(page(&mut menu, 5, Navigation::PageDown), Some(15), "page_down from middle");
    assert_eq!(page(&mut menu, 18, Navigation::PageDown), Some(19), "clamps to last");
    assert_eq!(page(&mut menu, 0, Navigation::PageUp), Some(0), "page_up at first item stays");
    menu.last_area = Rect::new(0, 0, 0, 0);
    assert_eq!(page(&mut menu, 9, Navigation::PageUp), Some(0), "page_size fallback to 10");
}

#[test]
fn uses_workflow_validation() {
    let mut target = code(3, "target", "Sh", ":", &[]);
    target.dependencies = Err("dependency 'dup' is ambiguous".to_string());
    let codes = vec![code(1, "dup", "Sh", ":", &[]), code(2, "dup", "Sh", ":", &[]), target];
    let deps = Dependencies::for_target(&codes, Some(3), HashMap::new());
    assert!(deps.message.as_ref().unwrap().contains("ambiguous"));
}

fn graph_of(codes: &[Code]) -> Dependencies {
    Dependencies::new(
        "Dependencies",
        codes,
        Some(DependencyGraph::for_all(codes)),
        "No block selected",
        HashMap::new(),
    )
}

#[test]
fn keeps_all_mode_graph() {
    let deps = graph_of(&[
        code(1, "a", "Sh", ":", &[]),
        code(2, "b", "Sh", ":", &[&[1]]),
        code(3, "independent", "Sh", ":", &[]),
    ]);
    assert_eq!(deps.graph.as_ref().unwrap().layers(), &[vec![1, 3], vec![2]]);
}

#[test]
fn handles_both_scroll_axes() {
    let mut deps = graph_of(&[code(1, "a", "Sh", ":", &[])]);
    assert_eq!(
        text(&deps.footer_shortcuts(&theme())),
        "↑↓←→ scroll  pgup/pgdn page  home reset  esc/q close"
    );
    deps.update(dependencies::Action::Right);
    deps.update(dependencies::Action::Down);
    assert_eq!(deps.scroll_x, 2);
    assert_eq!(deps.scroll_y, 1);
    deps.update(dependencies::Action::Reset);
    assert_eq!(deps.scroll_x, 0);
    assert_eq!(deps.scroll_y, 0);
}

// The full-screen interface.

fn wrap(text: &str, width: usize) -> Vec<(usize, usize)> {
    let count = text.chars().count();
    let width = width.max(1);
    let mut rows = Vec::new();
    let mut start = 0;
    while count - start > width {
        rows.push((start, start + width));
        start += width;
    }
    rows.push((start, count));
    rows
}

fn options(file: Option<&str>, all: bool, block: bool) -> Options {
    Options {
        yes: false,
        all,
        block,
        file: file.map(str::to_string),
        transparent: false,
        working_dir: None,
    }
}

fn look() -> Look {
    Look {
        theme: theme(),
        painter: Painter::new(THEME, &library()),
        inline_max_lines: 20,
        image_base_dir: ".".to_string(),
    }
}

/// A document with a heading, and a code block for each name and content.
fn document(heading: &str, blocks: &[(&str, &str)]) -> Document {
    let mut source = String::new();
    let mut nodes = Vec::new();
    let mut codes = Vec::new();
    let mut headings = Vec::new();
    if !heading.is_empty() {
        source.push_str(&format!("# {heading}\n\n"));
        nodes.push(Node {
            kind: NodeKind::Heading {
                text: vec![InlineSpan { text: heading.to_string(), style: Vec::new() }],
                level: 1,
            },
            start: 0,
            end: source.chars().count() - 2,
        });
        headings.push((1, heading.to_string()));
    }
    for (i, (name, content)) in blocks.iter().enumerate() {
        let id = i as CodeId + 1;
        let start = source.chars().count();
        source.push_str(&format!("```sh [name:{name}]\n{content}\n```"));
        nodes.push(Node { kind: NodeKind::Code(id), start, end: source.chars().count() });
        source.push_str("\n\n");
        codes.push(code(id, name, "Sh", content, &[]));
    }
    Document { source, nodes, codes, headings }
}

fn tui_app(doc: Document, options: Options, selected: Option<CodeId>) -> App {
    App::new(doc, options, Ok(selected), look(), &Envs::new(), &wrap).ok().unwrap()
}

fn two_blocks(selected: Option<CodeId>) -> App {
    let doc = document("Title", &[("first", "echo first"), ("second", "echo second")]);
    tui_app(doc, options(Some("runbook.md"), false, false), selected)
}

fn app_in_file_picker_mode() -> App {
    let empty = Document {
        source: String::new(),
        nodes: Vec::new(),
        codes: Vec::new(),
        headings: Vec::new(),
    };
    App::from_picker(
        tui_app(empty, options(None, false, false), None),
        "/repo".to_string(),
        vec![
            markdown_file("/repo/README.md", "README.md"),
            markdown_file("/repo/docs/install.md", "docs/install.md"),
        ],
    )
}

fn selected_picker_path(app: &App) -> Option<&str> {
    match &app.overlay {
        Some(Overlay::FilePicker { picker, .. }) => picker.selected_path(),
        _ => None,
    }
}

#[test]
fn file_picker_message_next_moves_selection() {
    let mut app = app_in_file_picker_mode();
    assert_eq!(selected_picker_path(&app), Some("/repo/README.md"));
    app.handle_overlay_msg(Message::FilePicker(PickerAction::Next), 0);
    assert_eq!(selected_picker_path(&app), Some("/repo/docs/install.md"));
}

#[test]
fn file_picker_for_bare_relative_file_opens_from_current_directory() {
    let mut app = tui_app(document("Read me", &[]), options(Some("README.md"), false, false), None);
    let Command::FindFiles(root) = app.handle_action(Action::OpenFilePicker, 0) else {
        panic!("the picker should look for files");
    };
    assert_eq!(root, None);
    let current = "/work".to_string();
    let files = Ok(vec![markdown_file("/work/README.md", "README.md")]);
    app.open_file_picker(root.unwrap_or(current.clone()), files, 0);
    assert!(matches!(app.overlay, Some(Overlay::FilePicker { .. })));
    assert_eq!(app.file_picker_root, Some(current));
}

#[test]
fn file_picker_select_keeps_original_picker_root_for_nested_file() {
    let mut app = app_in_file_picker_mode();
    app.handle_overlay_msg(Message::FilePicker(PickerAction::Next), 0);
    assert_eq!(selected_picker_path(&app), Some("/repo/docs/install.md"));
    let answer = app.handle_overlay_msg(Message::FilePicker(PickerAction::Select), 0);
    let Answer::OpenFile(path) = answer else {
        panic!("the file should be opened");
    };
    assert_eq!(path, "/repo/docs/install.md");
    app.open_markdown_file(path.clone(), Ok(document("Install", &[])), Ok(None), look(), &wrap, 0);
    assert!(app.overlay.is_none());
    assert_eq!(app.options.file, Some(path));
    assert_eq!(app.file_picker_root, Some("/repo".to_string()));
}

#[test]
fn reload_success_replaces_document_state_and_reapplies_run_configuration() {
    let doc = document("Original", &[("first", "echo old"), ("setup", "echo setup")]);
    let mut app = tui_app(doc, options(Some("runbook.md"), true, true), Some(2));
    app.graph = Some(Dependencies::for_target(app.content.codes(), Some(2), HashMap::new()));
    let updated = document("Updated", &[("first", "echo first"), ("setup", "echo setup")]);
    assert_eq!(app.reload_path(), Ok("runbook.md"));
    app.reload(Ok(updated), Ok(Some(2)), look(), &wrap, 0);
    assert!(app.workflow.is_none());
    assert!(app.graph.is_none());
    assert!(!app.started);
    assert_eq!(app.content.selected_code_id(), Some(2));
}

#[test]
fn reload_failure_preserves_document_state_and_notifies_error() {
    let doc = document("", &[("", "echo first"), ("", "echo second")]);
    let mut app = tui_app(doc, options(Some("unused.md"), true, true), Some(2));
    app.options.file = None;
    let selected_before = app.content.selected_code_id();
    let had_plan = app.workflow.is_some();
    let error = app.reload_path().unwrap_err();
    app.reload(Err(error), Ok(None), look(), &wrap, 0);
    assert_eq!(app.content.selected_code_id(), selected_before);
    assert_eq!(app.workflow.is_some(), had_plan);
    let notification = app.notification.as_ref().unwrap();
    assert_eq!(notification.kind, FlashKind::Error);
    assert_eq!(notification.text, "No file path in config, cannot reload");
}

fn screen(app: &App, id: CodeId) -> TaskOutput {
    let output = app.tasks.get(id).unwrap();
    TaskOutput {
        task: Task::new(),
        lines: Vec::new(),
        alternate: true,
        rows: output.rows,
        cols: output.cols,
        scrollback: 0,
        max_scrollback: 0,
        cursor_hidden: false,
        sgr_mouse: false,
    }
}

#[test]
fn alternate_screen_is_resized_to_rows_below_source_block() {
    let content = "printf '\\033[?1049h'\nprintf 'TUI'\nsleep 1\nprintf '\\033[?1049l'";
    let source = format!("```bash\n{content}\n```\n");
    let doc = Document {
        nodes: vec![Node {
            kind: NodeKind::Code(1),
            start: 0,
            end: source.chars().count() - 1,
        }],
        codes: vec![code(1, "", "Bash", content, &[])],
        headings: Vec::new(),
        source,
    };
    let mut app = tui_app(doc, options(None, false, false), Some(1));
    let area = Rect::new(0, 0, 80, 43);
    let menu_width = app.menu_width(area.width);
    app.layout.update(area, menu_width);
    app.content.rebuild(&app.tasks.outputs, &wrap);
    app.block_began(1, true);
    let shown = screen(&app, 1);
    app.handle_stream_update(1, &Stream::Out("TUI".to_string()), Some(shown), 0, &wrap);
    assert!(app.tasks.get(1).unwrap().alternate);
    assert_eq!(app.tasks.get(1).unwrap().rows, 35);
}

#[test]
fn running_a_block_selects_it_and_draws_its_graph() {
    let mut app = two_blocks(Some(1));
    let command = app.handle_action(Action::Execute, 0);
    assert!(matches!(command, Command::Run(Next::Launch(ids)) if ids == vec![1]));
    assert!(app.graph.is_some());
    app.block_began(1, true);
    assert!(matches!(app.launch_batch(&vec![1], &Vec::new(), 0), Next::Nothing));
    app.handle_stream_update(1, &Stream::Exit(0), None, 0, &wrap);
    app.handle_stream_update(1, &Stream::End, None, 0, &wrap);
    assert!(app.workflow.is_none());
    assert!(app.tasks.is_done(1));
    assert!(matches!(app.handle_action(Action::Execute, 0), Command::Run(Next::Nothing)));
    assert!(matches!(app.overlay, Some(Overlay::Confirm(_))));
}

#[test]
fn what_a_block_leaves_behind_is_kept() {
    let mut app = two_blocks(Some(1));
    app.handle_action(Action::Execute, 0);
    app.block_began(1, true);
    let mut captured = Envs::new();
    captured.insert("NAME".to_string(), "value".to_string());
    app.handle_stream_update(1, &Stream::Env(captured), None, 0, &wrap);
    app.handle_stream_update(1, &Stream::Cwd("/elsewhere".to_string()), None, 0, &wrap);
    app.handle_stream_update(1, &Stream::Exit(0), None, 0, &wrap);
    app.handle_stream_update(1, &Stream::End, None, 0, &wrap);
    assert_eq!(app.envs.data().get("NAME"), Some("value"));
    assert_eq!(app.last_cwd, Some("/elsewhere".to_string()));
}

#[test]
fn actions_that_are_not_there_do_nothing() {
    let mut app = two_blocks(Some(1));
    assert!(!app.is_action_enabled(Action::ViewOutput));
    assert!(matches!(app.handle_action(Action::ViewOutput, 0), Command::Nothing));
    assert_eq!(app.screen, Screen::Home);
}

#[test]
fn keys_reach_a_running_program_until_input_ends() {
    let mut app = two_blocks(Some(1));
    app.block_began(1, true);
    app.handle_action(Action::Input, 0);
    assert_eq!(app.screen, Screen::Input);
    assert_eq!(app.handle_home_event(Event::Key(Some(Action::Quit))), Route::Forward);
    let leave = app.handle_home_event(Event::Key(Some(Action::ExitInput)));
    assert_eq!(leave, Route::Action(Action::ExitInput));
    app.handle_action(Action::ExitInput, 0);
    assert_eq!(app.screen, Screen::Home);
    assert_eq!(
        app.handle_home_event(Event::Key(Some(Action::Quit))),
        Route::Document(Some(Action::Quit))
    );
}

#[test]
fn clicks_elsewhere_end_input() {
    let mut app = two_blocks(Some(1));
    app.block_began(1, true);
    app.handle_action(Action::Input, 0);
    let mouse = Mouse { kind: MouseKind::LeftDown, column: 200, row: 200 };
    let route = app.handle_home_event(Event::Mouse { mouse, click: true, encodable: false });
    assert_eq!(route, Route::Document(None));
    assert_eq!(app.screen, Screen::Home);
    assert!(app.auto_input_paused);
    app.handle_content_msg(
        Some(Clicked::Code { previous: Some(2), selected: 1, copied: Some(true) }),
        0,
    );
    assert_eq!(app.screen, Screen::Input);
    assert!(!app.auto_input_paused);
    assert_eq!(app.notification.as_ref().unwrap().text, "Copied");
}

#[test]
fn output_events_go_to_the_output_or_the_program() {
    let mut app = two_blocks(Some(1));
    app.block_began(1, true);
    app.handle_action(Action::ViewOutput, 0);
    assert_eq!(app.screen, Screen::Output);
    assert_eq!(app.handle_output_event(None, None), OutputRoute::Forward);
    let mouse = Mouse { kind: MouseKind::ScrollUp, column: 1, row: 1 };
    assert_eq!(app.handle_output_event(None, Some((mouse, true))), OutputRoute::Local(1));
    let back = app.handle_output_event(Some(output::Action::Back), None);
    assert_eq!(back, OutputRoute::Action(output::Action::Back));
    assert_eq!(app.handle_output_action(output::Action::BackIfDone), OutputCommand::Nothing);
    assert_eq!(app.screen, Screen::Output);
    app.handle_output_action(output::Action::Back);
    assert_eq!(app.screen, Screen::Home);
}

#[test]
fn inline_output_scrolls_line_by_line() {
    let mut app = two_blocks(Some(1));
    assert_eq!(app.scroll_inline(true), None);
    app.block_began(1, true);
    assert!(app.scroll_inline(true).is_some());
    assert!(app.scroll_inline(false).is_some());
    assert_eq!(app.tasks.get(1).unwrap().task.inline_scroll, 0);
}

#[test]
fn a_new_size_fits_the_selected_program() {
    let mut app = two_blocks(Some(1));
    app.block_began(1, true);
    let resize = app.handle_resize(120, 50, &wrap);
    assert_eq!(app.layout.last_area, Rect::new(0, 0, 120, 50));
    let output = app.tasks.get(1).unwrap();
    assert!(matches!(resize, Resize::One(1, c, r) if c == output.cols && r == output.rows));
    app.handle_action(Action::ViewOutput, 0);
    assert_eq!(app.handle_resize(100, 40, &wrap), Resize::All(100, 39));
}

#[test]
fn searching_selects_matches_and_closing_forgets_them() {
    let mut app = two_blocks(Some(1));
    app.handle_action(Action::Search, 0);
    for c in "second".chars() {
        app.handle_overlay_msg(Message::Search(search::Action::Input(c)), 0);
    }
    assert_eq!(app.content.selected_code_id(), Some(2));
    let answer = app.handle_overlay_msg(Message::Search(search::Action::Quit), 0);
    assert!(matches!(answer, Answer::Nothing));
    assert!(app.overlay.is_none());
    assert!(app.content.preview.search.term.is_none());
}

#[test]
fn dialogs_answer_what_has_to_be_done() {
    let mut app = two_blocks(Some(1));
    assert!(matches!(app.handle_overlay_msg(Message::Envs(envs::Action::Quit), 0), Answer::Nothing));
    app.handle_action(Action::Envs, 0);
    assert!(matches!(app.overlay, Some(Overlay::Envs)));
    let closed = app.handle_overlay_msg(Message::Envs(envs::Action::Main(envs::MainAction::Quit)), 0);
    assert!(matches!(closed, Answer::Nothing));
    assert!(app.overlay.is_none());
    app.handle_action(Action::ShowDeps, 0);
    let quit = app.handle_overlay_msg(Message::Dependencies(dependencies::Action::Exit), 0);
    assert!(matches!(quit, Answer::Quit));
}

#[test]
fn pickers_say_why_they_do_not_open() {
    let mut app = two_blocks(None);
    app.open_file_picker("/empty".to_string(), Ok(Vec::new()), 10);
    let flash = app.notification.as_ref().unwrap();
    assert_eq!(flash.text, "No Markdown files found under /empty");
    assert_eq!(flash.expires_at, 10 + DEFAULT_DURATION);
    app.open_file_picker("/locked".to_string(), Err("denied".to_string()), 10);
    assert_eq!(app.notification.as_ref().unwrap().text, "denied");
    app.open_markdown_file("a.md".to_string(), Err("gone".to_string()), Ok(None), look(), &wrap, 0);
    assert_eq!(app.notification.as_ref().unwrap().text, "Failed to open a.md: gone");
}

#[test]
fn a_theme_of_the_same_name_is_passed_over() {
    let mut app = two_blocks(None);
    let transparent = Theme::new(THEME, true, &library(), &is_light);
    app.apply_theme(transparent, Painter::new(THEME, &library()), &wrap);
    assert_eq!(app.content.preview.theme.background, Color::Rgb(43, 48, 59));
    let other = Theme::new("Solarized (dark)", false, &library(), &is_light);
    let background = other.background;
    app.apply_theme(other, Painter::new("Solarized (dark)", &library()), &wrap);
    assert_eq!(app.content.preview.theme.background, background);
}

#[test]
fn the_footer_shows_the_mode_and_its_keys() {
    let mut app = two_blocks(Some(1));
    let theme = theme();
    let bound = [
        Binding {
            action: Action::Execute,
            help: KeyHelp { symbol: Some("↵".to_string()), help: Some("run".to_string()) },
        },
        Binding {
            action: Action::Quit,
            help: KeyHelp { symbol: Some("q".to_string()), help: Some("quit".to_string()) },
        },
    ];
    assert_eq!(text(&app.footer_content(&theme, &bound, &[])), "↑↓ move  ↵ run");
    assert_eq!(app.footer_badge(&theme, is_light).content, " NORMAL ");
    assert_eq!(text(&App::footer_right("upmd", "1.0", &theme)), "upmd 1.0");
    app.handle_action(Action::ToggleZen, 0);
    assert_eq!(text(&app.footer_content(&theme, &bound, &[])), "z exit zen  q quit");
    assert_eq!(app.footer_badge(&theme, is_light).content, " ZEN ");
}

#[test]
fn time_starts_what_was_asked_for_once() {
    let doc = document("", &[("a", "echo a"), ("b", "echo b")]);
    let mut app = tui_app(doc, options(None, true, false), None);
    app.options.yes = true;
    let step = app.handle_tick(0, &wrap);
    assert!(matches!(step.next, Next::Launch(ids) if ids == vec![1]));
    assert!(matches!(app.handle_tick(1, &wrap).next, Next::Nothing));
    app.notify_info("note", 0);
    app.handle_tick(DEFAULT_DURATION, &wrap);
    assert!(app.notification.is_none());
}

#[test]
fn parallel_blocks_hand_on_their_variables_together_and_in_order() {
    for order in [[1, 2], [2, 1]] {
        let mut doc = document("", &[("a", "a"), ("b", "b"), ("target", "t")]);
        doc.codes[2].dependencies = Ok(vec![vec![1, 2]]);
        let mut app = tui_app(doc, options(None, false, false), Some(3));
        let command = app.handle_action(Action::Execute, 0);
        assert!(matches!(command, Command::Run(Next::Launch(ids)) if ids == vec![1, 2]));
        for id in order {
            app.block_began(id, true);
        }
        for id in order {
            let mut captured = Envs::new();
            captured.insert("NAME".to_string(), format!("from {id}"));
            app.handle_stream_update(id, &Stream::Env(captured), None, 0, &wrap);
            assert_eq!(app.envs.data().get("NAME"), None);
        }
        for id in order {
            app.handle_stream_update(id, &Stream::Exit(0), None, 0, &wrap);
        }
        app.handle_stream_update(order[0], &Stream::End, None, 0, &wrap);
        assert_eq!(app.envs.data().get("NAME"), None);
        let step = app.handle_stream_update(order[1], &Stream::End, None, 0, &wrap);
        assert!(matches!(step.next, Next::Launch(ids) if ids == vec![3]));
        assert_eq!(app.envs.data().get("NAME"), Some("from 2"));
    }
}

#[test]
fn a_failed_block_stops_the_chain_and_is_reported() {
    let mut doc = document("", &[("a", "a"), ("target", "t")]);
    doc.codes[1].dependencies = Ok(vec![vec![1]]);
    let mut app = tui_app(doc, options(None, false, false), Some(2));
    app.handle_action(Action::Execute, 0);
    app.block_began(1, true);
    app.handle_stream_update(1, &Stream::Exit(3), None, 0, &wrap);
    let step = app.handle_stream_update(1, &Stream::End, None, 0, &wrap);
    assert!(matches!(step.next, Next::Nothing));
    assert!(app.workflow.is_none());
    let text = &app.notification.as_ref().unwrap().text;
    assert_eq!(text, "Block 1 failed - stopping dependency chain");
}

#[test]
fn the_goto_dialog_previews_the_code_of_the_selected_block() {
    let mut app = two_blocks(Some(1));
    app.handle_action(Action::Goto, 0);
    let Some(Overlay::Goto(goto)) = &app.overlay else { panic!("no dialog") };
    assert_eq!(goto.previews.get(&2).map(|p| p.1.as_str()), Some("echo second"));
    assert_eq!(text(&goto.footer_shortcuts(&theme())), "↑↓ move  ↵ go  esc cancel");
    let painter = Painter::new(THEME, &library());
    let view = goto.render(Rect::new(0, 0, 200, 40), ' ', &theme(), &painter);
    assert_eq!(view.popup, Rect::new(30, 10, 140, 20));
    assert_eq!(view.input_area, Rect::new(32, 11, 136, 1));
    assert_eq!(view.footer_area, Rect::new(32, 28, 136, 1));
    assert_eq!(view.list_area, Rect::new(32, 12, 61, 16));
    let (at, lines) = view.preview.unwrap();
    assert_eq!(at, Rect::new(93, 12, 75, 16));
    assert_eq!(text(&lines[0]), "echo first");
    let narrow = goto.render(Rect::new(0, 0, 60, 40), ' ', &theme(), &painter);
    assert!(narrow.preview.is_none());
    assert!(text(&app.footer_content(&theme(), &[], &[])).is_empty());
}

#[test]
fn the_file_picker_shares_its_popup_between_list_and_preview() {
    let mut app = app_in_file_picker_mode();
    assert_eq!(text(&app.footer_content(&theme(), &[], &[])), "↑↓ move  ↵ open  esc cancel");
    let Some(Overlay::FilePicker { picker, .. }) = &mut app.overlay else { panic!("no picker") };
    let view = picker.render(Rect::new(0, 0, 200, 40), &theme());
    assert_eq!(view.popup, Rect::new(30, 10, 140, 20));
    assert_eq!(view.filter_area, Rect::new(32, 11, 136, 1));
    assert_eq!(view.footer_area, Rect::new(32, 28, 136, 1));
    match &view.body {
        PickerBody::List { area, items, preview } => {
            assert_eq!(*area, Rect::new(32, 12, 75, 16));
            assert_eq!(items.len(), 2);
            assert_eq!(preview.as_ref().map(|p| p.0), Some(Rect::new(107, 12, 61, 16)));
        }
        PickerBody::Message(_) => panic!("files match"),
    }
    picker.update(PickerAction::Input('~'));
    let view = picker.render(Rect::new(0, 0, 200, 40), &theme());
    assert!(matches!(view.body, PickerBody::Message(_)));
}

#[test]
fn the_footer_shows_an_open_search() {
    let mut app = two_blocks(Some(1));
    assert_eq!(text(&app.footer_end("upmd", "1.0", &theme())), "upmd 1.0");
    app.handle_action(Action::Search, 0);
    let keys = [KeyHelp { symbol: Some("esc".to_string()), help: Some("quit".to_string()) }];
    assert_eq!(text(&app.footer_content(&theme(), &[], &keys)), "esc quit");
    assert_eq!(text(&app.footer_end("upmd", "1.0", &theme())), "'' 0/0");
    assert!(search::Search::lists(search::Action::Quit));
    assert!(search::Search::lists(search::Action::Select));
    assert!(!search::Search::lists(search::Action::Next));
    assert!(Help::lists(help::Action::Delete));
    assert!(!Help::lists(help::Action::Input('a')));
}

#[test]
fn the_graph_takes_rows_off_the_preview() {
    let mut app = two_blocks(Some(1));
    app.layout.update(Rect::new(0, 0, 100, 30), 10);
    assert_eq!(app.layout.preview, Rect::new(9, 0, 91, 29));
    assert_eq!(app.preview_panes(), (Rect::new(9, 0, 91, 29), None));
    app.graph = Some(graph_of(&[code(1, "a", "Sh", ":", &[])]));
    app.graph_shown = true;
    assert_eq!(
        app.preview_panes(),
        (Rect::new(9, 0, 91, 27), Some(Rect::new(9, 26, 91, 3)))
    );
}

#[test]
fn an_output_keeps_a_row_for_its_footer() {
    let mut shown = output::Output::new();
    assert_eq!(shown.place(Rect::new(0, 0, 80, 24)), Rect::new(0, 23, 80, 1));
    assert_eq!(shown.inner_area(), Rect::new(0, 0, 80, 23));
    assert_eq!(shown.place(Rect::new(0, 0, 80, 0)), Rect::new(0, 0, 80, 0));
}

#[test]
fn leaving_the_headings_selects_the_block_that_is_shown() {
    let mut app = two_blocks(Some(2));
    let before = app.content.selected_code_id();
    app.content.toggle_toc();
    assert_eq!(app.content.menu.title(), " TOC ");
    app.content.toggle_toc();
    assert_eq!(app.content.menu.title(), "");
    assert_eq!(app.content.selected_code_id(), app.content.preview.selected_code_id());
    assert!(before.is_some());
}

#[test]
fn an_unknown_theme_falls_back_to_the_first_built_in_one() {
    let first = Painter::new("InspiredGitHub", &library()).highlight("let x = 1;", "rs");
    let unknown = Painter::new("no such theme", &library()).highlight("let x = 1;", "rs");
    assert_eq!(unknown, first);
}

fn drawing(deps: &Dependencies) -> Vec<String> {
    let graph = deps.graph.as_ref().unwrap();
    deps.graph_lines(graph, ' ', &theme()).iter().map(|row| text(row)).collect()
}

#[test]
fn snapshot_fan_out() {
    let deps = graph_of(&[
        code(1, "a", "Sh", ":", &[]),
        code(2, "b", "Sh", ":", &[&[1]]),
        code(3, "c", "Sh", ":", &[&[1]]),
    ]);
    assert_eq!(drawing(&deps), [" · a ──┬─→ · b ", "       │       ", "       └─→ · c "]);
}

#[test]
fn snapshot_3_fan_out() {
    let deps = graph_of(&[
        code(1, "a", "Sh", ":", &[]),
        code(2, "b", "Sh", ":", &[&[1]]),
        code(3, "c", "Sh", ":", &[&[1]]),
        code(4, "d", "Sh", ":", &[&[1]]),
    ]);
    assert_eq!(
        drawing(&deps),
        [
            " · a ──┬─→ · b ",
            "       │       ",
            "       ├─→ · c ",
            "       │       ",
            "       └─→ · d ",
        ]
    );
}

#[test]
fn snapshot_3_fan_in() {
    let deps = graph_of(&[
        code(1, "a", "Sh", ":", &[]),
        code(2, "b", "Sh", ":", &[]),
        code(3, "c", "Sh", ":", &[]),
        code(4, "d", "Sh", ":", &[&[1, 2, 3]]),
    ]);
    assert_eq!(
        drawing(&deps),
        [
            " · a ──┬─→ · d ",
            "       │       ",
            " · b ──┤       ",
            "       │       ",
            " · c ──┘       ",
        ]
    );
}

#[test]
fn snapshot_diamond() {
    let deps = graph_of(&[
        code(1, "a", "Sh", ":", &[]),
        code(2, "b", "Sh", ":", &[&[1]]),
        code(3, "c", "Sh", ":", &[&[1]]),
        code(4, "d", "Sh", ":", &[&[2, 3]]),
    ]);
    assert_eq!(
        drawing(&deps),
        [
            " · a ──┬─→ · b ──┬─→ · d ",
            "       │         │       ",
            "       └─→ · c ──┘       ",
        ]
    );
}

#[test]
fn every_setting_has_a_default() {
    let config = UserConfig::default_full();
    assert_eq!(config.theme.as_deref(), Some("catppuccin-mocha"));
    assert_eq!(config.transparent, Some(false));
    assert_eq!(config.tick_rate, Some(66));
    assert_eq!(config.tui.unwrap().inline_max_lines, Some(20));
    assert_eq!(config.cli.unwrap().preview_lines, Some(8));
    let keymap = config.keymap.unwrap();
    assert!(keymap.home.is_empty() && keymap.output.is_empty() && keymap.themes.is_empty());
    assert!(config.binaries.unwrap().is_empty());
}

#[test]
fn the_card_shows_the_first_lines_of_the_selected_block() {
    let painter = Painter::new(THEME, &library());
    let mut app = cli_app(vec![code(1, "a", "Sh", "one\ntwo\nthree", &[])], false);
    let lines: Vec<String> = app.card_code(&painter, 2).iter().map(|line| text(line)).collect();
    assert_eq!(lines, ["one", "two"]);
    app.codes.clear();
    assert!(app.card_code(&painter, 2).is_empty());
}

#[test]
fn the_table_of_themes_shows_the_theme_of_each_name() {
    let names = vec!["InspiredGitHub".to_string(), THEME.to_string()];
    let selector = ThemeSelector::new(names, THEME);
    let shown = selector.themes(&library(), false, is_light);
    assert_eq!(shown.len(), 2);
    assert_eq!(shown[0].name(), "InspiredGitHub");
    assert_eq!(shown[1].background, theme().background);
    assert_ne!(shown[0].background, shown[1].background);
}

#[test]
fn a_preview_of_a_file_is_highlighted_markdown() {
    let painter = Painter::new(THEME, &library());
    let preview = FilePicker::file_preview(b"# Title\ntext\n", Some(100), &painter);
    let lines: Vec<String> = preview.lines.iter().map(|line| text(line)).collect();
    assert_eq!(lines, ["# Title", "text"]);
    assert_eq!(preview.lines, painter.highlight("# Title\ntext\n", "md"));
    assert_eq!(preview.line_count, 2);
    assert!(preview.truncated);
    assert!(!FilePicker::file_preview(b"text", Some(4), &painter).truncated);
}

#[test]
fn the_wheel_moves_in_lists_only() {
    let mut app = two_blocks(Some(1));
    app.handle_action(Action::Goto, 0);
    let overlay = app.overlay.as_ref().unwrap();
    let next = Message::Goto(upmd::tui::goto::Action::Next);
    assert_eq!(overlay.wheel(MouseKind::ScrollDown), Some(next));
    assert_eq!(overlay.wheel(MouseKind::LeftDown), None);
    let scroll = Message::Envs(envs::Action::ScrollUp);
    assert_eq!(Overlay::Envs.wheel(MouseKind::ScrollUp), Some(scroll));
    let picker = app_in_file_picker_mode();
    assert_eq!(
        picker.overlay.unwrap().wheel(MouseKind::ScrollUp),
        Some(Message::FilePicker(PickerAction::Prev))
    );
    let search = Overlay::Search(search::Search::new());
    assert_eq!(search.wheel(MouseKind::ScrollDown), None);
}

#[test]
fn a_program_gets_the_cell_of_the_mouse_within_its_screen() {
    let mut app = two_blocks(Some(1));
    app.block_began(1, true);
    app.handle_action(Action::ViewOutput, 0);
    app.output.place(Rect::new(0, 0, 200, 100));
    let output = app.tasks.outputs.get_mut(&1).unwrap();
    output.sgr_mouse = true;
    output.cols = 90;
    output.rows = 30;
    let at = |column: u16, row: u16| Some((Mouse { kind: MouseKind::LeftDown, column, row }, true));
    assert_eq!(app.handle_output_event(None, at(60, 4)), OutputRoute::SendMouse(1, 61, 5));
    assert_eq!(app.handle_output_event(None, at(150, 80)), OutputRoute::SendMouse(1, 90, 30));
}
