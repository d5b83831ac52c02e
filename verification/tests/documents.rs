use std::collections::HashMap;

use upmd::code::{Code, CodeId};
use upmd::config::{ERROR_SYMBOL, PREVIEW_CONTENT_TOP_OFFSET, PREVIEW_CONTENT_X_OFFSET};
use upmd::rect::Rect;
use upmd::style::{Color, Line, Style};
use upmd::task::Task;
use upmd::theme::Theme;
use upmd::theme_library::{Painter, ThemeLibrary};
use upmd::tui::markdown::ast::{ListItem, ListKind, Node, NodeKind};
use upmd::tui::markdown::document::{check_document, RenderedMarkdown};
use upmd::tui::markdown::inline::{inline_text, split_span_lines, InlineSpan, InlineStyle};
use upmd::tui::markdown::line::{LogicalLine, LogicalLineSource, RenderMode};
use upmd::tui::markdown::marks::highlight_line;
use upmd::tui::markdown::paint::{apply_gutter, RenderContext};
use upmd::tui::markdown::render::MarkdownRenderer;
use upmd::tui::markdown::table::{Alignment, Table, TableCell};
use upmd::tui::preview::interact::{Action, Mouse, MouseKind};
use upmd::tui::preview::layout_lines::LayoutLine;
use upmd::tui::preview::pane::Preview;
use upmd::tui::preview::visual_lines::VisualLines;
use upmd::tui::tasks::TaskOutput;

// A reader for the small documents of these tests.

#[derive(Clone)]
struct SourceLine {
    text: String,
    start: usize,
    end: usize,
}

impl SourceLine {
    fn skip(&self, n: usize) -> SourceLine {
        SourceLine {
            text: self.text.chars().skip(n).collect(),
            start: (self.start + n).min(self.end),
            end: self.end,
        }
    }

    fn is_blank(&self) -> bool {
        self.text.trim().is_empty()
    }

    fn indent(&self) -> usize {
        self.text.chars().take_while(|c| *c == ' ').count()
    }
}

fn span(text: &str, style: &[InlineStyle]) -> InlineSpan {
    InlineSpan { text: text.to_string(), style: style.to_vec() }
}

fn inline(text: &str) -> Vec<InlineSpan> {
    let mut spans = Vec::new();
    let mut rest = text;
    while let Some(at) = rest.find('<') {
        let Some(end) = rest[at..].find('>') else { break };
        if at > 0 {
            spans.push(span(&rest[..at], &[]));
        }
        spans.push(span(&rest[at..at + end + 1], &[InlineStyle::HtmlTag]));
        rest = &rest[at + end + 1..];
    }
    if !rest.is_empty() {
        spans.push(span(rest, &[]));
    }
    spans
}

fn cells(text: &str) -> Vec<TableCell> {
    text.trim()
        .trim_matches('|')
        .split('|')
        .map(|cell| TableCell { spans: vec![span(cell.trim(), &[])] })
        .collect()
}

struct Reader {
    codes: Vec<Code>,
}

impl Reader {
    fn code(&mut self, info: &str, content: String) -> CodeId {
        let id = self.codes.len() as CodeId + 1;
        let language = info.split_whitespace().next().unwrap_or("").to_string();
        let name = info
            .split("name:")
            .nth(1)
            .map(|rest| rest.split([']', ',']).next().unwrap_or("").to_string())
            .unwrap_or_default();
        self.codes.push(Code {
            id,
            name,
            language: language.clone(),
            language_name: language,
            content,
            deps_text: String::new(),
            deps_tokens: Some(Vec::new()),
            dependencies: Ok(Vec::new()),
        });
        id
    }

    fn blocks(&mut self, lines: &[SourceLine], depth: usize) -> Vec<Node> {
        let mut nodes = Vec::new();
        let mut i = 0;
        while i < lines.len() {
            let first = &lines[i];
            let text = first.text.as_str();
            let mut end = i + 1;
            let kind = if first.is_blank() {
                i += 1;
                continue;
            } else if text.starts_with("```") {
                while end < lines.len() && !lines[end].text.starts_with("```") {
                    end += 1;
                }
                let body: Vec<&str> = lines[i + 1..end].iter().map(|l| l.text.as_str()).collect();
                let id = self.code(&text[3..], body.join("\n"));
                end = (end + 1).min(lines.len());
                NodeKind::Code(id)
            } else if text.starts_with('#') {
                let level = text.chars().take_while(|c| *c == '#').count();
                NodeKind::Heading { text: inline(text[level..].trim()), level: level as u8 }
            } else if text.starts_with('>') {
                while end < lines.len() && lines[end].text.starts_with('>') {
                    end += 1;
                }
                let inner: Vec<SourceLine> = lines[i..end]
                    .iter()
                    .map(|l| l.skip(if l.text.starts_with("> ") { 2 } else { 1 }))
                    .collect();
                NodeKind::BlockQuote(self.blocks(&inner, depth))
            } else if text.starts_with("- ") {
                while end < lines.len()
                    && (lines[end].is_blank()
                        || lines[end].text.starts_with("- ")
                        || lines[end].indent() >= 2)
                {
                    end += 1;
                }
                NodeKind::List(self.items(&lines[i..end], depth + 1))
            } else if text.starts_with('|') {
                while end < lines.len() && lines[end].text.starts_with('|') {
                    end += 1;
                }
                let headers = cells(text);
                NodeKind::Table(Table {
                    alignments: headers.iter().map(|_| Alignment::Default).collect(),
                    headers,
                    rows: lines[i + 2..end].iter().map(|l| cells(&l.text)).collect(),
                })
            } else if text.starts_with('<') {
                while end < lines.len() && !lines[end].is_blank() {
                    end += 1;
                }
                NodeKind::HtmlBlock
            } else if text.starts_with("---") {
                NodeKind::ThematicBreak
            } else if text.starts_with("![") && text.ends_with(')') {
                let (alt, src) = text[2..text.len() - 1].split_once("](").unwrap();
                NodeKind::Image { alt: alt.to_string(), src: src.to_string() }
            } else {
                while end < lines.len()
                    && !lines[end].is_blank()
                    && !lines[end].text.starts_with("```")
                {
                    end += 1;
                }
                let text: Vec<&str> = lines[i..end].iter().map(|l| l.text.as_str()).collect();
                NodeKind::Paragraph(inline(&text.join("\n")))
            };
            nodes.push(Node { kind, start: first.start, end: lines[end - 1].end });
            i = end;
        }
        nodes
    }

    fn items(&mut self, lines: &[SourceLine], depth: usize) -> Vec<ListItem> {
        let mut items = Vec::new();
        let mut i = 0;
        while i < lines.len() {
            let mut end = i + 1;
            while end < lines.len() && !lines[end].text.starts_with("- ") {
                end += 1;
            }
            let nested: Vec<SourceLine> =
                lines[i + 1..end].iter().map(|l| l.skip(l.indent())).collect();
            items.push(ListItem {
                text: inline(&lines[i].text[2..]),
                depth,
                kind: ListKind::Bullet,
                children: self.blocks(&nested, depth),
            });
            i = end;
        }
        items
    }
}

fn read(markdown: &str) -> (Vec<Node>, Vec<Code>) {
    let mut lines = Vec::new();
    let mut start = 0;
    for text in markdown.lines() {
        let end = start + text.chars().count();
        lines.push(SourceLine { text: text.to_string(), start, end });
        start = end + 1;
    }
    let mut reader = Reader { codes: Vec::new() };
    let nodes = reader.blocks(&lines, 0);
    assert!(check_document(&nodes, &reader.codes, markdown));
    (nodes, reader.codes)
}

fn is_light(r: u8, g: u8, b: u8) -> bool {
    0.299 * f32::from(r) + 0.587 * f32::from(g) + 0.114 * f32::from(b) >= 128.0
}

const THEME: &str = "base16-ocean.dark";

fn test_look() -> (Theme, Painter) {
    let library = ThemeLibrary::new(Vec::new());
    (Theme::new(THEME, false, &library, &is_light), Painter::new(THEME, &library))
}

fn ctx<'a>(theme: &'a Theme, painter: &'a Painter, width: usize) -> RenderContext<'a> {
    RenderContext {
        theme,
        painter,
        active_code_id: None,
        prefer_status_gutter: None,
        spinner_char: ' ',
        viewport_width: width,
    }
}

fn render_with(
    markdown: &str,
    outputs: &HashMap<CodeId, TaskOutput>,
    mode: RenderMode,
    width: usize,
) -> RenderedMarkdown {
    let (theme, painter) = test_look();
    let (nodes, codes) = read(markdown);
    MarkdownRenderer::new(markdown, &theme, &painter, outputs, &codes, 10, width)
        .mode(mode)
        .render(&nodes)
}

fn render_nodes(markdown: &str) -> Vec<LogicalLine> {
    render_with(markdown, &HashMap::new(), RenderMode::Visual, 80).lines
}

fn source_label(line: &LogicalLine) -> String {
    match &line.source {
        LogicalLineSource::Text(_) => "Text".to_string(),
        LogicalLineSource::ListItem(_) => "ListItem".to_string(),
        LogicalLineSource::Heading { level, .. } => format!("Heading({level})"),
        LogicalLineSource::CodeInfo(_) => "CodeInfo".to_string(),
        LogicalLineSource::CodeBody(_) => "CodeBody".to_string(),
        LogicalLineSource::Output(_) => "Output".to_string(),
        LogicalLineSource::Html { .. } => "Html".to_string(),
        LogicalLineSource::Frontmatter { .. } => "Frontmatter".to_string(),
        LogicalLineSource::TableRow { .. } => "Table".to_string(),
        LogicalLineSource::Image { .. } => "Image".to_string(),
        LogicalLineSource::ThematicBreak => "ThematicBreak".to_string(),
        LogicalLineSource::Newline => "Newline".to_string(),
    }
}

fn code_start_lines(lines: &[LogicalLine]) -> Vec<(usize, String, Option<CodeId>, String)> {
    lines
        .iter()
        .enumerate()
        .filter(|(_, line)| line.is_code_start)
        .map(|(idx, line)| (idx, source_label(line), line.code_id, line.text_content()))
        .collect()
}

fn output(lines: &[String], task: Task) -> TaskOutput {
    TaskOutput {
        task,
        lines: lines.iter().map(|l| Line::raw(l)).collect(),
        alternate: false,
        rows: 24,
        cols: 40,
        scrollback: 0,
        max_scrollback: 0,
        cursor_hidden: false,
        sgr_mouse: false,
    }
}

fn first_fg(line: &Line) -> Option<Color> {
    line.spans.first().and_then(|span| span.style.fg)
}

#[test]
fn test_apply_gutter_prefers_active_color_without_prefer_status_gutter() {
    let (theme, _) = test_look();
    let line = apply_gutter(Line::raw("done"), false, true, &theme, Some(theme.success), false, false);
    assert_eq!(first_fg(&line), Some(theme.active));
}

#[test]
fn test_apply_gutter_prefers_status_color_with_prefer_status_gutter() {
    let (theme, _) = test_look();
    let line = apply_gutter(Line::raw("done"), false, true, &theme, Some(theme.success), true, false);
    assert_eq!(first_fg(&line), Some(theme.success));
}

#[test]
fn test_failed_start_code_info_renders_error_status_and_gutter() {
    let mut task = Task::new();
    task.done = true;
    task.exit_code = None;
    let mut outputs = HashMap::new();
    outputs.insert(1, output(&[], task));
    let (theme, _) = test_look();
    let rendered = render_with("```bash\necho hello\n```", &outputs, RenderMode::Visual, 80);
    let code_info = rendered.lines.iter().find(|line| line.is_code_info()).unwrap();
    assert_eq!(code_info.gutter_fg, Some(theme.error));
    assert!(code_info.text_content().contains(ERROR_SYMBOL));
}

#[test]
fn test_highlight_line_thai_match_middle() {
    let style = Style::default().fg(Color::Red);
    let line = highlight_line(Line::raw("เปิดภาษาไทยได้"), "ภาษาไทย", style);
    assert_eq!(line.text(), "เปิดภาษาไทยได้");
    assert_eq!(line.spans[1].content, "ภาษาไทย");
    assert_eq!(line.spans[1].style.fg, Some(Color::Red));
}

#[test]
fn test_highlight_line_thai_match_at_start() {
    let style = Style::default().fg(Color::Red);
    let line = highlight_line(Line::raw("สวัสดีจาก upmd"), "สวัสดี", style);
    assert_eq!(line.text(), "สวัสดีจาก upmd");
    assert_eq!(line.spans[0].content, "สวัสดี");
    assert_eq!(line.spans[0].style.fg, Some(Color::Red));
}

#[test]
fn search_marks_ignore_case() {
    let style = Style::default().fg(Color::Red);
    let line = highlight_line(Line::raw("one TWO three"), "two", style);
    assert_eq!(line.spans[1].content, "TWO");
    assert_eq!(line.text(), "one TWO three");
}

#[test]
fn render_plain_does_not_populate_content_cache() {
    let (theme, painter) = test_look();
    let ctx = ctx(&theme, &painter, 80);
    let mut line = LogicalLine::text_lazy_spans(vec![span("let value = 1;", &[])], false);
    assert_eq!(line.render_plain(&ctx).text(), "let value = 1;");
    assert!(line.source.lazy_text().unwrap().cached.is_none());
    assert!(line.ensure_rendered(&ctx));
    assert!(line.source.lazy_text().unwrap().cached.is_some());
    assert!(!line.ensure_rendered(&ctx));
}

#[test]
fn running_code_body_does_not_append_spinner() {
    let (theme, painter) = test_look();
    let mut ctx = ctx(&theme, &painter, 80);
    ctx.active_code_id = Some(1);
    ctx.spinner_char = '⠲';
    let mut line =
        LogicalLine::code_body("read -p \"Your name: \" ME".to_string(), "bash".to_string(), 1);
    line.is_running = true;
    let rendered = line.render(&ctx).text();
    assert!(!rendered.contains('⠲'));
    assert!(rendered.ends_with(" ME"));
}

#[test]
fn nested_children_do_not_change_following_list_item_identity() {
    let markdown = "- first\n\n    | A | B |\n    |---|---|\n    | x | y |\n\n- after\n";
    let identity = |mode| {
        render_with(markdown, &HashMap::new(), mode, 80)
            .lines
            .into_iter()
            .find(|line| line.text_content().trim_start_matches("- ") == "after")
            .expect("following list item")
            .node_idx
    };
    assert_eq!(identity(RenderMode::Visual), identity(RenderMode::Markup));
}

#[test]
fn test_snap_heading_to_code_start() {
    let starts = code_start_lines(&render_nodes("# Title\n\n```bash\necho hi\n```"));
    assert_eq!(starts.len(), 1);
    assert_eq!(starts[0].0, 0);
    assert_eq!(starts[0].1, "Heading(1)");
    assert_eq!(starts[0].3, "# Title");
}

#[test]
fn test_snap_paragraph_fallback_to_code_start() {
    let starts = code_start_lines(&render_nodes("Intro paragraph.\n\n```bash\necho hi\n```"));
    assert_eq!(starts.len(), 1);
    assert_eq!(starts[0].0, 0);
    assert_eq!(starts[0].1, "Text");
    assert_eq!(starts[0].3, "Intro paragraph.");
}

#[test]
fn test_adjacent_code_blocks_do_not_reuse_snap_context() {
    let starts = code_start_lines(&render_nodes(
        "# Title\n\n```bash\necho one\n```\n\n```bash\necho two\n```",
    ));
    assert_eq!(starts.len(), 2);
    assert_eq!(starts[0].1, "Heading(1)");
    assert_eq!(starts[0].3, "# Title");
    assert_eq!(starts[1].1, "CodeInfo");
    assert_ne!(starts[0].2, starts[1].2);
}

#[test]
fn test_blockquote_snap_context_does_not_leak_outward() {
    let lines = render_nodes("> quoted note\n\n```bash\necho hi\n```");
    let starts = code_start_lines(&lines);
    assert_eq!(starts.len(), 1);
    assert_eq!(starts[0].1, "CodeInfo");
    assert_eq!(lines[0].text_content(), "quoted note");
    assert!(lines[0].code_id.is_none());
}

#[test]
fn test_blockquote_snap_context_does_not_leak_inward() {
    let lines = render_nodes("Intro paragraph.\n\n> ```bash\n> echo hi\n> ```");
    let starts = code_start_lines(&lines);
    assert_eq!(starts.len(), 1);
    assert_eq!(starts[0].1, "CodeInfo");
    assert_eq!(lines[0].text_content(), "Intro paragraph.");
    assert!(lines[0].code_id.is_none());
}

#[test]
fn visual_test_code_prefix_overhead_tracks_blockquote_depth() {
    for (name, markdown, expected) in [
        ("flat", "```bash\necho hi\n```", 0),
        ("single blockquote", "> ```bash\n> echo hi\n> ```", 2),
        ("nested blockquote", "> > ```bash\n> > echo hi\n> > ```", 4),
    ] {
        let rendered = render_with(markdown, &HashMap::new(), RenderMode::Visual, 80);
        let code_id = rendered
            .lines
            .iter()
            .find(|line| line.is_code_body())
            .and_then(|line| line.code_id)
            .unwrap();
        let overhead = rendered.code_prefix_overhead.get(&code_id).copied().unwrap_or(0);
        assert_eq!(overhead, expected, "{name} code prefix overhead should match its quote depth");
    }
}

#[test]
fn test_blockquote_list_item_renders_quote_and_list_prefixes() {
    let (theme, painter) = test_look();
    let lines = render_nodes("> - quoted item");
    let list_item = lines
        .iter()
        .find(|line| matches!(line.source, LogicalLineSource::ListItem(_)))
        .expect("expected a list item inside the blockquote");
    assert_eq!(list_item.prefix_width(), 4);
    assert_eq!(list_item.render(&ctx(&theme, &painter, 80)).text(), "> • quoted item");
}

#[test]
fn test_render_github_heading_rules() {
    for level in 1..=6 {
        let lines = render_nodes(&format!("{} Heading", "#".repeat(level)));
        assert_eq!(
            lines.iter().any(|line| matches!(line.source, LogicalLineSource::ThematicBreak)),
            level <= 2,
            "H{level}"
        );
    }
}

#[test]
fn test_render_html_tabs_preserved_logically_expanded_visually() {
    let lines = render_nodes("<pre>\n\tindented\n</pre>\n");
    let html: Vec<&LogicalLine> = lines
        .iter()
        .filter(|l| matches!(l.source, LogicalLineSource::Html { .. }))
        .collect();
    assert_eq!(html.len(), 3);
    assert_eq!(html[1].text_content(), "\tindented");
    let (theme, painter) = test_look();
    let ctx = ctx(&theme, &painter, 80);
    let painted = html[1].render(&ctx).text();
    assert!(!painted.contains('\t'));
    assert!(painted.contains("    indented"));
    assert_eq!(html[1].render_plain(&ctx).text(), painted);
}

#[test]
fn test_render_html_styles() {
    let (theme, painter) = test_look();
    let ctx = ctx(&theme, &painter, 80);
    for (name, line) in [
        (
            "block",
            render_nodes("<div class=\"card\">\n</div>\n")
                .iter()
                .find(|l| matches!(l.source, LogicalLineSource::Html { .. }))
                .unwrap()
                .render(&ctx),
        ),
        (
            "inline",
            render_nodes("x <img src=\"a.png\"> y")
                .iter()
                .find(|l| matches!(l.source, LogicalLineSource::Text(_)))
                .unwrap()
                .render(&ctx),
        ),
    ] {
        let mut distinct: Vec<Color> = Vec::new();
        for span in &line.spans {
            if let Some(fg) = span.style.fg {
                if !distinct.contains(&fg) {
                    distinct.push(fg);
                }
            }
        }
        assert!(distinct.len() >= 2, "{name} HTML should use multiple syntax colors");
    }
}

#[test]
fn test_split_span_lines() {
    let spans = vec![span("line one\n", &[InlineStyle::Bold]), span("line two", &[])];
    let lines = split_span_lines(&spans);
    assert_eq!(lines.len(), 2);
    assert_eq!(inline_text(&lines[0]), "line one");
    assert_eq!(lines[0][0].style, vec![InlineStyle::Bold]);
    assert_eq!(inline_text(&lines[1]), "line two");
    assert!(split_span_lines(&Vec::new()).is_empty());
    assert_eq!(split_span_lines(&vec![span("a\n", &[])]).len(), 1);
}

#[test]
fn test_render_empty_input() {
    assert!(render_nodes("").is_empty());
}

#[test]
fn test_render_code_ids_sequence() {
    let lines = render_nodes("```bash\necho a\n```\n\n```python\nprint(1)\n```");
    let code_lines: Vec<_> = lines.iter().filter(|line| line.is_code_info()).collect();
    assert_eq!(code_lines.len(), 2);
    assert!(code_lines[0].code_id.is_some());
    assert!(code_lines[1].code_id.is_some());
    assert_ne!(code_lines[0].code_id, code_lines[1].code_id);
}

#[test]
fn test_render_code_info_line_has_code_id() {
    let lines = render_nodes("```bash\necho test\n```");
    let code_info = lines.iter().find(|line| line.is_code_info());
    assert!(code_info.is_some());
    assert!(code_info.unwrap().code_id.is_some());
}

#[test]
fn test_render_code_body_associated_with_code_id() {
    let lines = render_nodes("```bash\necho test\n```");
    let code_bodies: Vec<_> = lines.iter().filter(|line| line.is_code_body()).collect();
    assert!(!code_bodies.is_empty());
    for body in code_bodies {
        assert!(body.code_id.is_some(), "code body missing code_id");
    }
}

#[test]
fn test_render_code_tabs_preserved_logically_expanded_visually() {
    let lines = render_nodes(
        "```go\npackage main\n\t\"fmt\"\n\tos.Setenv(\"FROM_GO\", \"set by go\")\n```",
    );
    let code_bodies: Vec<_> = lines.iter().filter(|line| line.is_code_body()).collect();
    assert_eq!(code_bodies.len(), 3);
    assert_eq!(code_bodies[0].text_content(), "package main");
    assert_eq!(code_bodies[1].text_content(), "\t\"fmt\"");
    assert_eq!(code_bodies[2].text_content(), "\tos.Setenv(\"FROM_GO\", \"set by go\")");
    let (theme, painter) = test_look();
    let ctx = ctx(&theme, &painter, 80);
    let import_line = code_bodies[1].render(&ctx).text();
    let call_line = code_bodies[2].render(&ctx).text();
    assert!(!import_line.contains('\t'));
    assert!(!call_line.contains('\t'));
    assert!(import_line.contains("    \"fmt\""));
    assert!(call_line.contains("    os.Setenv"));
    assert!(!call_line.contains("os. Setenv"));
}

#[test]
fn test_render_heading_source() {
    let lines = render_nodes("# Title\n\n## Subtitle");
    let headings: Vec<_> = lines.iter().filter(|l| l.heading_level().is_some()).collect();
    assert_eq!(headings.len(), 2);
    assert_eq!(headings[0].heading_level(), Some(1));
    assert_eq!(headings[1].heading_level(), Some(2));
}

#[test]
fn test_render_heading_level() {
    let lines = render_nodes("# H1\n## H2\n### H3\n#### H4");
    let levels: Vec<u8> = lines.iter().filter_map(LogicalLine::heading_level).collect();
    assert_eq!(levels, [1, 2, 3, 4]);
}

#[test]
fn a_table_that_fits_keeps_its_natural_widths() {
    let (theme, painter) = test_look();
    let ctx = ctx(&theme, &painter, 80);
    let rows: Vec<String> = render_nodes("| A | Bee |\n|---|---|\n| x | y |")
        .iter()
        .filter(|l| l.is_table())
        .map(|l| l.render(&ctx).text())
        .collect();
    assert!(rows.iter().any(|r| r.contains("Bee")));
    assert!(rows.iter().all(|r| r.chars().count() == rows[0].chars().count()));
}

/// The output below a block whose program printed lines on a screen of 24 rows.
fn inline_output(lines: &[String], inline_scroll: usize) -> Vec<String> {
    let rows = 24;
    let mut printed = lines.to_vec();
    while printed.len() < rows {
        printed.push(String::new());
    }
    let max = printed.len() - rows;
    let mut task = Task::new();
    task.started = true;
    task.done = true;
    task.inline_scroll = inline_scroll;
    let scrollback = task.sync_inline_scrollback(10, max, rows);
    let end = printed.len() - scrollback;
    let mut visible = printed[end - rows..end].to_vec();
    while visible.last().is_some_and(|line| line.is_empty()) {
        visible.pop();
    }
    let mut screen = output(&visible, task);
    screen.scrollback = scrollback;
    screen.max_scrollback = max as u16;
    let mut outputs = HashMap::new();
    outputs.insert(1, screen);
    render_with("```bash\necho test\n```", &outputs, RenderMode::Visual, 80)
        .lines
        .iter()
        .filter(|l| l.is_output())
        .map(|l| l.text_content())
        .collect()
}

fn fifty_lines() -> Vec<String> {
    (0..50).map(|i| format!("This is output line number {i}")).collect()
}

#[test]
fn test_inline_scroll_first_line_reachable() {
    assert_eq!(inline_output(&fifty_lines(), usize::MAX), fifty_lines()[..10]);
}

#[test]
fn test_inline_scroll_bottom() {
    assert_eq!(inline_output(&fifty_lines(), 0), fifty_lines()[40..]);
}

#[test]
fn test_inline_scroll_middle() {
    assert_eq!(inline_output(&fifty_lines(), 25), fifty_lines()[15..25]);
}

#[test]
fn test_inline_scroll_clamp_no_collapse() {
    assert_eq!(inline_output(&fifty_lines(), 999).len(), 10);
}

#[test]
fn test_inline_scroll_short_output() {
    let lines: Vec<String> = (0..5).map(|i| format!("short line {i}")).collect();
    let shown = inline_output(&lines, 10);
    assert_eq!(shown, lines);
}

fn markup_text(markdown: &str) -> String {
    let (theme, painter) = test_look();
    let ctx = ctx(&theme, &painter, 80);
    render_with(markdown, &HashMap::new(), RenderMode::Markup, 80)
        .lines
        .iter()
        .map(|l| l.render_plain(&ctx).text())
        .collect::<Vec<_>>()
        .join("\n")
}

#[test]
fn markup_preserves_non_code_source() {
    for markdown in [
        "[**bold** text](url \"title\")",
        "***bold italic***",
        "**bold *italic* tail**",
        "x ![**styled** alt](image.png) y",
        "literal \\* [ ] | text",
        "[label \\] text](<path with spaces> \"title with &quot;quote&quot;\")",
        "# heading\n\nparagraph",
        "> quoted\n>\n> next",
        "> outer\n>\n> > nested",
        "- first\n\n- second",
        "![alt \\] text](<image path.png>)",
    ] {
        assert_eq!(markup_text(markdown), markdown, "input: {markdown}");
    }
}

#[test]
fn markup_preserves_spacing_around_interactive_code() {
    let quoted = markup_text("> quoted\n>\n> ```bash\n> echo hello\n> ```");
    assert!(quoted.starts_with("> quoted\n"), "got: {quoted}");
    assert!(!quoted.contains("> >"), "got: {quoted}");
    assert!(!quoted.ends_with('\n'), "got: {quoted}");
    let followed = markup_text("```bash\necho hello\n```\n\nnext");
    assert!(followed.contains("echo hello\n\nnext"), "got: {followed}");
    assert!(!followed.contains("echo hello\n\n\nnext"), "got: {followed}");
}

#[test]
fn markup_reuses_visual_code_lines() {
    let code_lines = |mode| {
        render_with("```bash\necho hello\n```", &HashMap::new(), mode, 80)
            .lines
            .iter()
            .filter(|line| {
                line.code_id.is_some() && !matches!(line.source, LogicalLineSource::Newline)
            })
            .map(|line| {
                (
                    line.text_content(),
                    line.code_id,
                    line.is_block_start,
                    line.is_code_start,
                    line.is_running,
                    line.gutter_fg,
                )
            })
            .collect::<Vec<_>>()
    };
    let markup = code_lines(RenderMode::Markup);
    assert!(markup.iter().any(|line| line.0 == "echo hello" && line.1 == Some(1)));
    assert_eq!(markup, code_lines(RenderMode::Visual));
}

/// Rows of at most `width` characters, cut behind a blank where there is one.
fn wrap(text: &str, width: usize) -> Vec<(usize, usize)> {
    let chars: Vec<char> = text.chars().collect();
    let width = width.max(1);
    let mut rows = Vec::new();
    let mut start = 0;
    while chars.len() - start > width {
        let cut = (start + 1..=start + width)
            .rev()
            .find(|i| chars[i - 1] == ' ')
            .unwrap_or(start + width);
        rows.push((start, cut));
        start = cut;
    }
    rows.push((start, chars.len()));
    rows
}

fn preview_with(markdown: &str, outputs: &HashMap<CodeId, TaskOutput>) -> Preview {
    let (theme, painter) = test_look();
    let (nodes, codes) = read(markdown);
    Preview::new(
        markdown.to_string(),
        nodes,
        codes,
        theme,
        painter,
        outputs,
        10,
        ".".to_string(),
        &wrap,
    )
}

fn preview_from_markdown(markdown: &str) -> Preview {
    preview_with(markdown, &HashMap::new())
}

fn render_layout_line(preview: &Preview, row: &LayoutLine, ctx: &RenderContext<'_>) -> Line {
    let logical_line = &preview.logical_lines[row.logical_idx];
    let rendered = logical_line.render(ctx);
    row.render(logical_line, &rendered, ctx)
}

fn full_preview_text(preview: &Preview) -> String {
    let ctx = ctx(&preview.theme, &preview.painter, preview.layout_lines.last_width());
    preview
        .layout_lines
        .borrow()
        .iter()
        .map(|row| render_layout_line(preview, row, &ctx).text())
        .collect::<Vec<_>>()
        .join("\n")
}

fn row_of(preview: &Preview, test: impl Fn(&LogicalLine) -> bool) -> usize {
    preview
        .layout_lines
        .borrow()
        .iter()
        .position(|row| row.wrap_idx == 0 && test(row.logical(&preview.logical_lines)))
        .expect("expected such a row")
}

#[test]
fn mode_toggle_switches_to_markup_and_preserves_code_selection() {
    let mut preview = preview_from_markdown("# Title\n\n```bash\necho hello\n```");
    preview.rebuild_layout_lines(60, &wrap);
    preview.select_code(1);
    preview.toggle_mode();
    preview.rebuild_view(&HashMap::new(), &wrap);
    assert_eq!(preview.mode, RenderMode::Markup);
    assert_eq!(preview.selected_code_id(), Some(1));
    let text = full_preview_text(&preview);
    assert!(text.contains("# Title"), "got: {text}");
    assert!(text.contains("echo hello"), "got: {text}");
}

#[test]
fn mode_toggle_preserves_paragraph_selection_across_headings() {
    let markdown = "# One\n\n## Two\n\nmiddle paragraph\n\n# Three\n\n## Four\n\nend\n";
    let mut preview = preview_from_markdown(markdown);
    preview.rebuild_layout_lines(60, &wrap);
    let target = "middle paragraph";
    let row = row_of(&preview, |line| line.text_content() == target);
    preview.state.selected = Some(row);
    preview.state.offset = row;
    for _ in 0..2 {
        preview.toggle_mode();
        preview.rebuild_view(&HashMap::new(), &wrap);
        let selected = preview.selected_logical_line().expect("selection preserved");
        assert_eq!(preview.logical_lines[selected].text_content(), target);
    }
}

#[test]
fn mode_toggle_maps_heading_rule_to_heading() {
    let mut preview = preview_from_markdown("# One\n\nbody\n");
    preview.rebuild_layout_lines(60, &wrap);
    let heading_idx = preview
        .logical_lines
        .iter()
        .position(|line| line.text_content() == "# One")
        .expect("heading line");
    let rule = preview
        .layout_lines
        .borrow()
        .iter()
        .position(|row| row.logical_idx == heading_idx + 1)
        .expect("heading rule layout line");
    preview.state.selected = Some(rule);
    preview.toggle_mode();
    preview.rebuild_view(&HashMap::new(), &wrap);
    let selected = preview.selected_logical_line().expect("heading selection preserved");
    assert_eq!(preview.logical_lines[selected].text_content(), "# One");
}

#[test]
fn markup_mode_does_not_reserve_image_rows() {
    let mut preview = preview_from_markdown("![alt](image.png)");
    preview.toggle_mode();
    preview.rebuild_view(&HashMap::new(), &wrap);
    assert!(preview.logical_lines.iter().all(|l| !l.is_image()));
}

#[test]
fn image_continuation_rows_have_no_copy_text() {
    let preview = preview_from_markdown("![alt](image.png)");
    let row = LayoutLine { logical_idx: 0, wrap_idx: 1, start: 0, end: 0 };
    let ctx = ctx(&preview.theme, &preview.painter, 80);
    assert!(row.render_plain(&preview.logical_lines[0], &ctx).text().is_empty());
}

#[test]
fn test_rebuild_clamps_selection_when_lines_shrink() {
    let mut preview = preview_from_markdown("This is a very long paragraph that should wrap into several rows at narrow widths but fit in fewer rows at wider widths.");
    preview.rebuild_layout_lines(20, &wrap);
    let last_idx = preview.layout_lines.len().saturating_sub(1);
    preview.state.selected = Some(last_idx);
    preview.state.offset = last_idx;
    preview.select_code(2);
    preview.rebuild_layout_lines(120, &wrap);
    let len = preview.layout_lines.len();
    assert!(preview.state.selected.is_some_and(|idx| idx < len));
    assert!(preview.state.offset < len);
}

#[test]
fn test_deferred_block_jump_applies_during_full_rebuild() {
    let mut preview = preview_from_markdown(
        "# Intro\n\n```sh [name:first]\necho first\n```\n\nSome filler\n\n```sh [name:setup]\necho setup\n```\n",
    );
    preview.select_code(2);
    preview.rebuild_layout_lines(80, &wrap);
    assert!(preview.state.offset > 0);
    let row = preview.layout_lines.get(preview.state.offset);
    assert_eq!(row.and_then(|row| row.code_id(&preview.logical_lines)), Some(2));
}

#[test]
fn test_cached_code_line_updates_active_gutter() {
    let mut preview = preview_from_markdown("```bash\necho hello\n```");
    preview.rebuild_layout_lines(80, &wrap);
    let at = row_of(&preview, |line| line.code_id == Some(1) && line.is_code_body());
    let row = preview.layout_lines.get(at).unwrap();
    let mut ctx = ctx(&preview.theme, &preview.painter, 80);
    ctx.active_code_id = Some(1);
    let rendered = render_layout_line(&preview, &row, &ctx);
    assert_eq!(first_fg(&rendered), Some(preview.theme.active));
}

#[test]
fn test_cached_code_body_gutter_matches_code_info_prefer_status_gutter() {
    let mut task = Task::new();
    task.done = true;
    task.exit_code = Some(0);
    let mut outputs = HashMap::new();
    outputs.insert(1, output(&[], task));
    let mut preview = preview_with("```bash\necho hello\n```", &outputs);
    preview.rebuild_layout_lines(80, &wrap);
    let code_info = preview.logical_lines.iter().find(|line| line.is_code_info()).unwrap();
    let at = row_of(&preview, |line| line.code_id == Some(1) && line.is_code_body());
    let row = preview.layout_lines.get(at).unwrap();
    let mut ctx = ctx(&preview.theme, &preview.painter, 80);
    ctx.active_code_id = Some(1);
    assert_eq!(first_fg(&code_info.render(&ctx)), Some(preview.theme.active));
    assert_eq!(first_fg(&render_layout_line(&preview, &row, &ctx)), Some(preview.theme.active));
    ctx.prefer_status_gutter = Some(1);
    assert_eq!(first_fg(&code_info.render(&ctx)), Some(preview.theme.success));
    assert_eq!(first_fg(&render_layout_line(&preview, &row, &ctx)), Some(preview.theme.success));
}

#[test]
fn test_active_code_info_id_uses_accent_when_preview_unfocused() {
    let preview = preview_from_markdown("```bash\necho hello\n```");
    let info_line = preview.logical_lines.iter().find(|line| line.is_code_info()).unwrap();
    let mut ctx = ctx(&preview.theme, &preview.painter, 80);
    ctx.active_code_id = Some(1);
    let rendered = info_line.render(&ctx);
    let id_span = rendered.spans.get(2).expect("expected gutter, gap, id spans");
    assert_eq!(id_span.content, "1");
    assert_eq!(id_span.style.fg, Some(preview.theme.active));
    assert_eq!(id_span.style.bg, Some(preview.theme.info_background));
}

#[test]
fn test_plain_text_stays_inactive_when_no_code_selected() {
    let mut preview =
        preview_from_markdown("# Review Findings\n\nCode review of `upmd`, `upmd-parser`.\n");
    preview.rebuild_layout_lines(80, &wrap);
    let at = row_of(&preview, |line| {
        line.code_id.is_none() && line.text_content().starts_with("Code review")
    });
    let row = preview.layout_lines.get(at).unwrap();
    let ctx = ctx(&preview.theme, &preview.painter, 80);
    assert_ne!(first_fg(&render_layout_line(&preview, &row, &ctx)), Some(preview.theme.active));
}

#[test]
fn test_copy_code_line_excludes_gutter() {
    let mut preview = preview_from_markdown("```bash\necho hello\n```");
    preview.rebuild_layout_lines(80, &wrap);
    let at = row_of(&preview, |line| line.code_id == Some(1) && line.is_code_body());
    let row = preview.layout_lines.get(at).unwrap();
    let ctx = ctx(&preview.theme, &preview.painter, 80);
    let display_len =
        row.render_plain(&preview.logical_lines[row.logical_idx], &ctx).text().chars().count();
    preview.selection.start(at, 0);
    preview.selection.extend(at, display_len);
    assert_eq!(preview.selected_text(), Some("echo hello".to_string()));
}

fn mouse(kind: MouseKind, row: u16, column: u16) -> Mouse {
    Mouse { kind, column, row }
}

#[test]
fn test_mouse_to_pty_coords_handles_scroll_above_block_start() {
    let mut preview =
        preview_from_markdown("# Intro\n\n```bash\necho first\necho second\n```\n");
    preview.rebuild_layout_lines(80, &wrap);
    preview.last_area = Rect::new(0, 0, 80, 20);
    let block: Vec<usize> = preview
        .layout_lines
        .borrow()
        .iter()
        .enumerate()
        .filter(|(_, row)| row.code_id(&preview.logical_lines) == Some(1))
        .map(|(idx, _)| idx)
        .collect();
    let block_first = *block.first().expect("block 1 should exist");
    let click_vl = *block.last().expect("block 1 should have body lines");
    assert!(block.len() >= 3, "need at least info + 2 body lines");
    preview.state.offset = block_first + 1;
    assert!(click_vl > block_first, "click line must be visible");
    let click_row = (click_vl - (block_first + 1)) as u16 + PREVIEW_CONTENT_TOP_OFFSET;
    let click_col = PREVIEW_CONTENT_X_OFFSET + 1;
    let (pty_col, pty_row) = preview
        .mouse_to_pty_coords(1, mouse(MouseKind::LeftDown, click_row, click_col), 78, 24)
        .expect("should return PTY coords for visible block row");
    assert_eq!(pty_col, click_col - PREVIEW_CONTENT_X_OFFSET + 1);
    assert_eq!(pty_row as usize, click_vl - block_first + 1);
}

#[test]
fn test_mouse_to_pty_coords_rejects_click_outside_block() {
    let mut preview = preview_from_markdown(
        "# Intro\n\n```bash\necho first\n```\n\n## Details\n\n```bash\necho second\n```\n",
    );
    preview.rebuild_layout_lines(80, &wrap);
    preview.last_area = Rect::new(0, 0, 80, 20);
    let outside = preview
        .layout_lines
        .borrow()
        .iter()
        .position(|row| row.code_id(&preview.logical_lines) != Some(1))
        .expect("should have a non-block-1 visual line");
    let click_row = (outside - preview.state.offset) as u16 + PREVIEW_CONTENT_TOP_OFFSET;
    let click_col = PREVIEW_CONTENT_X_OFFSET + 1;
    let event = mouse(MouseKind::LeftDown, click_row, click_col);
    assert!(preview.mouse_to_pty_coords(1, event, 78, 24).is_none());
}

fn clickable() -> (Preview, u16, u16) {
    let mut preview = preview_from_markdown("```bash\necho hello\n```");
    preview.rebuild_layout_lines(80, &wrap);
    preview.last_area = Rect::new(0, 0, 80, 10);
    let at = row_of(&preview, |line| line.code_id == Some(1) && line.is_code_body());
    (preview, at as u16 + PREVIEW_CONTENT_TOP_OFFSET, PREVIEW_CONTENT_X_OFFSET + 1)
}

#[test]
fn test_click_code_line_selects_code_block_on_release() {
    let (mut preview, row, column) = clickable();
    let down = preview.handle_mouse_event(mouse(MouseKind::LeftDown, row, column));
    assert_eq!(down.action, Some(Action::Select));
    let up = preview.handle_mouse_event(mouse(MouseKind::LeftUp, row, column));
    assert_eq!(up.action, Some(Action::SelectCodeBlock(1)));
}

#[test]
fn test_drag_code_line_keeps_text_selection() {
    let (mut preview, row, column) = clickable();
    let down = preview.handle_mouse_event(mouse(MouseKind::LeftDown, row, column));
    assert_eq!(down.action, Some(Action::Select));
    let drag = preview.handle_mouse_event(mouse(MouseKind::LeftDrag, row, column + 5));
    assert_eq!(drag.action, Some(Action::Select));
    let up = preview.handle_mouse_event(mouse(MouseKind::LeftUp, row, column + 5));
    assert_eq!(up.action, Some(Action::Select));
}

#[test]
fn test_code_by_id_finds_nested_in_blockquote() {
    let preview = preview_from_markdown(
        "# Welcome\n\n> Blockquote\n> ```sh\n> ls\n> ```\n\n## Other\n```sh\necho hi\n```\n",
    );
    assert!(preview.code_by_id(1).is_some(), "code block 1 should be findable");
    assert!(preview.code_by_id(2).is_some(), "code block 2 should be findable");
}

#[test]
fn mod_test_code_prefix_overhead_tracks_blockquote_depth() {
    for (name, markdown, expected) in [
        ("flat", "```bash\necho hi\n```", 0),
        ("single blockquote", "> ```bash\n> echo hi\n> ```", 2),
        ("nested blockquote", "> > ```bash\n> > echo hi\n> > ```", 4),
    ] {
        let preview = preview_from_markdown(markdown);
        assert_eq!(preview.code_prefix_overhead(1), expected, "{name}");
    }
}

#[test]
fn searching_finds_the_rows_of_matching_lines() {
    let mut preview = preview_from_markdown("alpha\n\nbeta\n\nALPHA again\n");
    preview.rebuild_layout_lines(60, &wrap);
    let rows = preview.search("alpha");
    let texts: Vec<String> = rows
        .iter()
        .map(|r| preview.layout_lines.get(*r).unwrap().logical_idx)
        .map(|i| preview.logical_lines[i].text_content())
        .collect();
    assert_eq!(texts, ["alpha", "ALPHA again"]);
    assert!(preview.search("").is_empty());
}

#[test]
fn rows_know_their_block_and_line() {
    let (theme, painter) = test_look();
    let lines = render_nodes("intro text that wraps\n\n```bash\necho hi\n```\n\n![alt](a.png)\n");
    let image_rows: Vec<usize> = lines.iter().map(|l| if l.is_image() { 4 } else { 1 }).collect();
    let mut rows = VisualLines::new();
    assert!(rows.is_empty());
    assert_eq!(rows.last_width(), 80);
    let mut target = Some(1);
    let start = rows.rebuild(
        &lines,
        14,
        &theme,
        &painter,
        &mut target,
        |i| lines[i].is_code_start,
        &image_rows,
        &wrap,
    );
    assert_eq!(target, None);
    assert_eq!(rows.last_width(), 14);
    let at = start.expect("the block starts somewhere");
    assert_eq!(rows.get(at).unwrap().code_id, Some(1));
    assert_eq!(rows.find_code_start(2, |i| lines[i].is_code_start), None);
    let image = lines.iter().position(|l| l.is_image()).unwrap();
    let first = rows.visual_idx_of_logical(image).unwrap();
    assert_eq!(rows.borrow().iter().filter(|r| r.logical_idx == image).count(), 4);
    assert_eq!(rows.get(first + 3).unwrap().wrap_idx, 3);
    assert_eq!(rows.get(rows.len()), None);
    assert_eq!(
        rows.rebuild(&lines, 0, &theme, &painter, &mut target, |_| true, &image_rows, &wrap),
        None
    );
    assert_eq!(rows.last_width(), 14);
}

#[test]
fn rows_stand_in_the_order_of_their_lines() {
    let mut preview = preview_from_markdown("# One\n\nsome longer text to wrap\n\n- item\n");
    preview.rebuild_layout_lines(12, &wrap);
    let order: Vec<usize> = preview.layout_lines.borrow().iter().map(|r| r.logical_idx).collect();
    assert!(order.windows(2).all(|pair| pair[0] <= pair[1]));
    assert!(order.len() > preview.logical_lines.len());
}

#[test]
fn the_selected_row_keeps_its_place_when_text_above_is_wrapped() {
    let text = "first paragraph with a number of words in it\n\nsecond\n\nthird\n\nfourth\n";
    let mut preview = preview_from_markdown(text);
    preview.rebuild_layout_lines(80, &wrap);
    let row = row_of(&preview, |line| line.text_content() == "third");
    preview.state.selected = Some(row);
    preview.state.offset = row - 2;
    preview.rebuild_layout_lines(20, &wrap);
    let moved = row_of(&preview, |line| line.text_content() == "third");
    assert!(moved > row);
    assert_eq!(preview.state.selected, Some(moved));
    assert_eq!(preview.state.offset, moved - 2);
}

#[test]
fn upper_case_and_longer_terms_find_the_rows_of_the_term() {
    let mut preview = preview_from_markdown("alpha\n\nalphabet\n\nALPHA again\n");
    preview.rebuild_layout_lines(60, &wrap);
    let rows = preview.search("alpha");
    assert_eq!(preview.search("ALPHA"), rows);
    let longer = preview.search("alphab");
    assert_eq!(longer.len(), 1);
    assert!(rows.contains(&longer[0]));
}

#[test]
fn inline_output_takes_between_three_and_twenty_lines() {
    let preview_for = |cap: usize| {
        let (theme, painter) = test_look();
        let (nodes, codes) = read("text\n");
        let none = HashMap::new();
        let base = ".".to_string();
        Preview::new("text\n".to_string(), nodes, codes, theme, painter, &none, cap, base, &wrap)
    };
    let mut large = preview_for(50);
    large.set_inline_max_lines(100);
    assert_eq!(large.inline_max_lines, 20);
    large.set_inline_max_lines(16);
    assert_eq!(large.inline_max_lines, 8);
    large.set_inline_max_lines(2);
    assert_eq!(large.inline_max_lines, 3);
    let mut small = preview_for(1);
    small.set_inline_max_lines(100);
    assert_eq!(small.inline_max_lines, 3);
}
