//! Blocks as a terminal shows them.

use std::rc::Rc;

use vstd::prelude::*;

use crate::config::PREVIEW_FRAME_OVERHEAD;
use crate::num::{larger, less_by};
use crate::style::{
    copy_spans, line_text, line_view, line_views, plain, text_len, Color, LineView, Span, Style,
};
use crate::text::{
    chars_of, decimal, decimal_text, decimal_value, is_digit, law_digits_stand_for_the_number,
    repeat_char, repeated, string_of, text_lines, trimmed_start, whitespace,
};
use crate::theme::Theme;
use crate::tui::markdown::ast::{
    node_ok, nodes_ok, ListItem, ListKind, Node, NodeKind, TaskMark,
};
use crate::tui::markdown::inline::{
    copy_inline, inline_lines_view, inline_view, split_inline, split_span_lines, InlineSpan,
    InlineView,
};
use crate::tui::markdown::line::{
    frontmatter_lines, lines_wf, share, FrontmatterBlock, FrontmatterStyle, LogicalLine,
    LogicalView, MarkdownHtml, SourceView, TextView,
};
use crate::tui::markdown::render::{
    next_number, MarkdownRenderer, RenderState, RenderView, SnapContext,
};
use crate::tui::markdown::table::{render_table, table_lines, Table, TableView};

verus! {

/// Stands in front of quoted lines.
pub const QUOTE_PREFIX: &'static str = "> ";

/// A text without the number signs at its start.
pub open spec fn without_marker(s: Seq<char>) -> Seq<char>
    decreases s.len(),
{
    if s.len() > 0 && s[0] == '#' {
        without_marker(s.drop_first())
    } else {
        s
    }
}

/// A heading's text behind its marker.
pub open spec fn heading_pieces(spans: Seq<InlineView>, level: u8) -> Seq<InlineView> {
    let marker = InlineView { text: repeated('#', level as nat) + " "@, style: Seq::empty() };
    let content = if spans.len() > 0 {
        spans.update(
            0,
            InlineView { text: trimmed_start(without_marker(spans[0].text)), ..spans[0] },
        )
    } else {
        spans
    };
    seq![marker] + content
}

/// The marker of a list item.
pub open spec fn marker_text(kind: ListKind) -> Seq<char> {
    match kind {
        ListKind::Bullet => "• "@,
        ListKind::Ordered(n) => decimal_text(n as nat) + ". "@,
        ListKind::Task(mark) => match mark {
            TaskMark::Checked => "󰱒  "@,
            TaskMark::InProgress => "󰡖  "@,
            TaskMark::Unchecked => "󰄱  "@,
        },
    }
}

/// The color of a list item's marker.
pub open spec fn marker_color(kind: ListKind, theme: Theme) -> Color {
    match kind {
        ListKind::Task(TaskMark::Checked) => theme.success,
        ListKind::Task(_) => theme.muted,
        _ => theme.foreground,
    }
}

/// The indentation of a list item.
pub open spec fn indent_text(depth: usize) -> Seq<char> {
    repeated(' ', (4 * less_by(depth as int, 1)) as nat)
}

/// What stands below the marker of a list item.
pub open spec fn continuation_text(item: ListItem) -> Seq<char> {
    indent_text(item.depth) + repeated(' ', marker_text(item.kind).len())
}

/// The lines of a list item.
pub open spec fn item_views(item: ListItem, is_first: bool, theme: Theme) -> Seq<LogicalView> {
    let below = (continuation_text(item), plain());
    let marker = (
        indent_text(item.depth) + marker_text(item.kind),
        plain().fg_spec(marker_color(item.kind, theme)),
    );
    let lines = split_inline(inline_view(item.text@));
    Seq::new(
        lines.len(),
        |j: int|
            LogicalView::of_item(
                lines[j],
                if j == 0 {
                    marker
                } else {
                    below
                },
                below,
                is_first && j == 0,
            ),
    )
}

/// The lines of a text; the first starts a block.
pub open spec fn text_views(spans: Seq<InlineView>) -> Seq<LogicalView> {
    let lines = split_inline(spans);
    Seq::new(
        lines.len(),
        |j: int|
            LogicalView {
                is_block_start: j == 0,
                ..LogicalView::holding(SourceView::Text(TextView::of_spans(lines[j])))
            },
    )
}

/// The lines of an HTML block; the first starts a block.
pub open spec fn html_views(source: Seq<char>) -> Seq<LogicalView> {
    Seq::new(
        text_lines(source).len(),
        |j: int|
            LogicalView {
                is_block_start: j == 0,
                ..LogicalView::holding(SourceView::Html { source, row_idx: j })
            },
    )
}

/// The lines of a document's metadata; the first starts a block.
pub open spec fn frontmatter_views(style: FrontmatterStyle, raw: Seq<char>) -> Seq<LogicalView> {
    Seq::new(
        frontmatter_lines(style, raw).len(),
        |j: int|
            LogicalView {
                is_block_start: j == 0,
                ..LogicalView::holding(SourceView::Frontmatter { style, raw, row_idx: j })
            },
    )
}

/// The rows of a table.
pub open spec fn table_views(table: TableView, lines: Seq<LineView>) -> Seq<LogicalView> {
    Seq::new(
        lines.len(),
        |j: int|
            LogicalView::holding(SourceView::TableRow { table, row_idx: j, initial: lines[j] }),
    )
}

impl RenderView {
    /// Appends an empty line.
    pub open spec fn spaced(self) -> RenderView {
        self.pushed(LogicalView::holding(SourceView::Newline))
    }

    /// Enters a block quote, whose headings and paragraphs do not count outside,
    /// nor those outside in it.
    pub open spec fn quoted(self, theme: Theme) -> RenderView {
        RenderView {
            snap: SnapContext::none(),
            quote_depth: next_number(self.quote_depth),
            prefixes: self.prefixes.push((QUOTE_PREFIX@, theme.muted_fg())),
            ..self
        }
    }

    /// Leaves a block quote that was entered in another state.
    pub open spec fn unquoted(self, outside: RenderView) -> RenderView {
        RenderView {
            snap: outside.snap,
            quote_depth: outside.quote_depth,
            prefixes: outside.prefixes,
            ..self
        }
    }
}

impl<'a> MarkdownRenderer<'a> {
    /// Appends a block.
    pub open spec fn visual_node(&self, node: Node, state: RenderView) -> RenderView
        decreases node, 0nat,
    {
        let s = state.begun();
        let line = s.lines.len() as usize;
        let after = match node.kind {
            NodeKind::HtmlBlock => s.pushed_all(
                html_views(self.source@.subrange(node.start as int, node.end as int)),
            ).spaced(),
            NodeKind::Frontmatter { style, raw } => s.pushed_all(
                frontmatter_views(style, raw@),
            ).spaced(),
            NodeKind::Text(spans) => s.pushed_all(text_views(inline_view(spans@))).spaced(),
            NodeKind::Paragraph(spans) => {
                let shown = s.pushed_all(text_views(inline_view(spans@))).spaced();
                if split_inline(inline_view(spans@)).len() > 0 {
                    RenderView {
                        snap: SnapContext { description_line: Some(line), ..shown.snap },
                        ..shown
                    }
                } else {
                    shown
                }
            },
            NodeKind::BlockQuote(children) => self.visual_nodes(
                children,
                s.quoted(*self.theme),
                children@.len(),
            ).unquoted(s),
            NodeKind::Heading { text, level } => {
                let heading = s.pushed(
                    LogicalView {
                        is_block_start: true,
                        ..LogicalView::holding(
                            SourceView::Heading {
                                level,
                                text: TextView::of_spans(
                                    heading_pieces(inline_view(text@), level),
                                ),
                            },
                        )
                    },
                );
                let ruled = if level <= 2 {
                    heading.pushed(LogicalView::holding(SourceView::ThematicBreak))
                } else {
                    heading
                };
                RenderView {
                    snap: SnapContext { title_line: Some(line), ..ruled.snap },
                    ..ruled
                }
            },
            NodeKind::List(items) => {
                let shown = self.visual_items(items, s, items@.len());
                if items@.len() > 0 && items@[0].depth == 1 {
                    shown.spaced()
                } else {
                    shown
                }
            },
            NodeKind::Code(id) => self.with_code(s, id),
            NodeKind::Table(table) => s.pushed_all(
                table_views(
                    table@,
                    table_lines(
                        *self.painter,
                        *self.theme,
                        table@,
                        self.table_width(line_text(s.prefixes).len() as int),
                    ),
                ),
            ).spaced(),
            NodeKind::ThematicBreak => s.pushed(
                LogicalView {
                    is_block_start: true,
                    ..LogicalView::holding(SourceView::ThematicBreak)
                },
            ).spaced(),
            NodeKind::Image { alt, src } => s.pushed(
                LogicalView {
                    is_block_start: true,
                    ..LogicalView::holding(SourceView::Image { alt: alt@, src: src@ })
                },
            ).spaced(),
        };
        after.ended(state.node_idx)
    }

    /// Appends the first `n` blocks.
    pub open spec fn visual_nodes(&self, nodes: Vec<Node>, state: RenderView, n: nat) -> RenderView
        decreases nodes, n,
    {
        if n == 0 || n > nodes@.len() {
            state
        } else {
            self.visual_node(nodes@[n - 1], self.visual_nodes(nodes, state, (n - 1) as nat))
        }
    }

    /// Appends the first `n` items of a list, each with the blocks in it.
    pub open spec fn visual_items(&self, items: Vec<ListItem>, state: RenderView, n: nat) -> RenderView
        decreases items, n,
    {
        if n == 0 || n > items@.len() {
            state
        } else {
            let before = self.visual_items(items, state, (n - 1) as nat);
            let item = items@[n - 1];
            self.visual_nodes(
                item.children,
                before.pushed_all(item_views(item, n == 1, *self.theme)),
                item.children@.len(),
            )
        }
    }

    /// The width of a table behind what stands in front of it.
    pub open spec fn table_width(&self, prefix: int) -> int {
        larger(
            less_by(less_by(self.viewport_width as int, PREVIEW_FRAME_OVERHEAD as int), prefix),
            1,
        )
    }
}

fn strip_heading(text: &str) -> (out: String)
    ensures
        out@ == trimmed_start(without_marker(text@)),
{
    let chars = chars_of(text);
    let n: usize = chars.len();
    let mut i: usize = 0;
    assert(chars@.skip(0) =~= chars@);
    while i < n && chars[i] == '#'
        invariant
            n == chars@.len(),
            i <= n,
            without_marker(chars@) == without_marker(chars@.skip(i as int)),
        decreases n - i,
    {
        assert(chars@.skip(i as int)[0] == chars@[i as int]);
        assert(chars@.skip(i as int).drop_first() =~= chars@.skip(i + 1));
        i += 1;
    }
    assert(i < n ==> chars@.skip(i as int)[0] == chars@[i as int]);
    let ghost rest = chars@.skip(i as int);
    while i < n && chars[i].is_whitespace()
        invariant
            n == chars@.len(),
            i <= n,
            trimmed_start(rest) == trimmed_start(chars@.skip(i as int)),
        decreases n - i,
    {
        assert(chars@.skip(i as int)[0] == chars@[i as int]);
        assert(chars@.skip(i as int).drop_first() =~= chars@.skip(i + 1));
        i += 1;
    }
    assert(i < n ==> chars@.skip(i as int)[0] == chars@[i as int]);
    let out = string_of(vstd::slice::slice_subrange(chars.as_slice(), i, n));
    assert(out@ =~= chars@.skip(i as int));
    out
}

fn heading_spans(spans: &Vec<InlineSpan>, level: u8) -> (out: Vec<InlineSpan>)
    ensures
        inline_view(out@) == heading_pieces(inline_view(spans@), level),
{
    let mut marker = repeat_char('#', level as usize);
    marker.append(" ");
    let mut content = copy_inline(spans);
    let ghost view = inline_view(spans@);
    assert(view.len() == inline_view(content@).len());
    if content.len() > 0 {
        let ghost before = content@;
        let text = strip_heading(content[0].text.as_str());
        let first = &mut content[0];
        first.text = text;
        proof {
            assert(view[0] == before[0]@);
            assert forall|i: int| 0 < i < view.len() implies inline_view(content@)[i] == view[i] by {
                assert(inline_view(before)[i] == before[i]@);
                assert(content@[i] == before[i]);
            }
            assert(inline_view(content@) =~= view.update(
                0,
                InlineView { text: trimmed_start(without_marker(view[0].text)), ..view[0] },
            ));
        }
    }
    let ghost shown = inline_view(content@);
    let first = InlineSpan { text: marker, style: Vec::new() };
    let ghost head = first@;
    content.insert(0, first);
    proof {
        assert(head.style =~= Seq::empty());
        assert(inline_view(content@) =~= seq![head] + shown);
    }
    content
}

fn list_marker(kind: ListKind) -> (marker: String)
    ensures
        marker@ == marker_text(kind),
{
    match kind {
        ListKind::Bullet => "• ".to_owned(),
        ListKind::Ordered(n) => {
            let mut marker = decimal(n);
            marker.append(". ");
            marker
        },
        ListKind::Task(mark) => match mark {
            TaskMark::Checked => "󰱒  ".to_owned(),
            TaskMark::InProgress => "󰡖  ".to_owned(),
            TaskMark::Unchecked => "󰄱  ".to_owned(),
        },
    }
}

fn list_color(kind: ListKind, theme: &Theme) -> (color: Color)
    ensures
        color == marker_color(kind, *theme),
{
    match kind {
        ListKind::Task(TaskMark::Checked) => theme.success,
        ListKind::Task(_) => theme.muted,
        _ => theme.foreground,
    }
}

fn list_indent(depth: usize) -> (indent: String)
    ensures
        indent@ == indent_text(depth),
{
    let n: usize = depth.saturating_sub(1);
    let step = repeat_char(' ', n);
    let mut indent = String::new();
    indent.append(step.as_str());
    indent.append(step.as_str());
    indent.append(step.as_str());
    indent.append(step.as_str());
    assert(indent@ =~= indent_text(depth));
    indent
}

impl<'a> MarkdownRenderer<'a> {
    fn push_item(&self, item: &ListItem, is_first: bool, state: &mut RenderState)
        requires
            lines_wf(old(state).lines@),
        ensures
            final(state)@ == old(state)@.pushed_all(item_views(*item, is_first, *self.theme)),
            lines_wf(final(state).lines@),
    {
        let marker = list_marker(item.kind);
        let color = list_color(item.kind, self.theme);
        let mut label = list_indent(item.depth);
        label.append(marker.as_str());
        let mut below = list_indent(item.depth);
        below.append(repeat_char(' ', marker.as_str().unicode_len()).as_str());
        let mut lines = split_span_lines(&item.text);
        let ghost texts = split_inline(inline_view(item.text@));
        let ghost all = item_views(*item, is_first, *self.theme);
        let ghost before = state@;
        let n: usize = lines.len();
        let mut j: usize = 0;
        assert(all.take(0) =~= Seq::empty());
        assert(inline_lines_view(lines@).len() == lines@.len());
        while j < n
            invariant
                j <= n,
                n == texts.len(),
                lines@.len() == n,
                forall|k: int| j <= k < n ==> inline_view((#[trigger] lines@[k])@) == texts[k],
                texts == split_inline(inline_view(item.text@)),
                all == item_views(*item, is_first, *self.theme),
                label@ == indent_text(item.depth) + marker_text(item.kind),
                below@ == continuation_text(*item),
                color == marker_color(item.kind, *self.theme),
                state@ == before.pushed_all(all.take(j as int)),
                lines_wf(state.lines@),
            decreases n - j,
        {
            let prefix = if j == 0 {
                Span::styled(label.clone(), Style::default().fg(color))
            } else {
                Span::styled(below.clone(), Style::default())
            };
            let wrap = Span::styled(below.clone(), Style::default());
            let mut spans: Vec<InlineSpan> = Vec::new();
            let ghost current = lines@[j as int]@;
            assert(inline_view(current) == texts[j as int]);
            let ghost now = lines@;
            let line_spans = &mut lines[j];
            spans.append(line_spans);
            assert(spans@ =~= current);
            assert forall|k: int| j + 1 <= k < n implies inline_view((#[trigger] lines@[k])@)
                == texts[k] by {
                assert(lines@[k] == now[k]);
            }
            let line = LogicalLine::list_item_spans(spans, prefix, wrap, is_first && j == 0);
            proof {
                assert(all[j as int] == line@);
                assert(all.take(j + 1).drop_last() =~= all.take(j as int));
                assert(all.take(j + 1).last() == all[j as int]);
            }
            state.push_line(line);
            j += 1;
        }
        assert(all.take(j as int) =~= all);
    }

    fn push_text(&self, spans: &Vec<InlineSpan>, state: &mut RenderState) -> (emitted: bool)
        requires
            lines_wf(old(state).lines@),
        ensures
            final(state)@ == old(state)@.pushed_all(text_views(inline_view(spans@))).spaced(),
            emitted == (split_inline(inline_view(spans@)).len() > 0),
            lines_wf(final(state).lines@),
    {
        let mut lines = split_span_lines(spans);
        let ghost texts = split_inline(inline_view(spans@));
        let ghost all = text_views(inline_view(spans@));
        let ghost before = state@;
        let n: usize = lines.len();
        let mut j: usize = 0;
        assert(all.take(0) =~= Seq::empty());
        assert(inline_lines_view(lines@).len() == lines@.len());
        while j < n
            invariant
                j <= n,
                n == texts.len(),
                lines@.len() == n,
                forall|k: int| j <= k < n ==> inline_view((#[trigger] lines@[k])@) == texts[k],
                texts == split_inline(inline_view(spans@)),
                all == text_views(inline_view(spans@)),
                state@ == before.pushed_all(all.take(j as int)),
                lines_wf(state.lines@),
            decreases n - j,
        {
            let mut line_spans: Vec<InlineSpan> = Vec::new();
            let ghost current = lines@[j as int]@;
            assert(inline_view(current) == texts[j as int]);
            let ghost now = lines@;
            let taken = &mut lines[j];
            line_spans.append(taken);
            assert(line_spans@ =~= current);
            assert forall|k: int| j + 1 <= k < n implies inline_view((#[trigger] lines@[k])@)
                == texts[k] by {
                assert(lines@[k] == now[k]);
            }
            let line = LogicalLine::text_lazy_spans(line_spans, j == 0);
            proof {
                assert(all[j as int] == line@);
                assert(all.take(j + 1).drop_last() =~= all.take(j as int));
                assert(all.take(j + 1).last() == all[j as int]);
            }
            state.push_line(line);
            j += 1;
        }
        assert(all.take(j as int) =~= all);
        state.push_line(LogicalLine::newline());
        n > 0
    }

    fn push_html(&self, source: String, state: &mut RenderState)
        requires
            lines_wf(old(state).lines@),
        ensures
            final(state)@ == old(state)@.pushed_all(html_views(source@)).spaced(),
            lines_wf(final(state).lines@),
    {
        let block = Rc::new(MarkdownHtml::new(source));
        let n: usize = block.lines.len();
        let ghost all = html_views(source@);
        let ghost before = state@;
        let mut j: usize = 0;
        proof {
            assert(crate::text::strings_view(block.lines@).len() == n);
            assert(all.take(0) =~= Seq::empty());
        }
        while j < n
            invariant
                j <= n,
                n == all.len(),
                block.wf(),
                block.source@ == source@,
                all == html_views(source@),
                state@ == before.pushed_all(all.take(j as int)),
                lines_wf(state.lines@),
            decreases n - j,
        {
            let line = LogicalLine::html(share(&block), j, j == 0);
            proof {
                assert(all[j as int] == line@);
                assert(all.take(j + 1).drop_last() =~= all.take(j as int));
                assert(all.take(j + 1).last() == all[j as int]);
            }
            state.push_line(line);
            j += 1;
        }
        assert(all.take(j as int) =~= all);
        state.push_line(LogicalLine::newline());
    }

    fn push_frontmatter(&self, style: FrontmatterStyle, raw: &str, state: &mut RenderState)
        requires
            lines_wf(old(state).lines@),
        ensures
            final(state)@ == old(state)@.pushed_all(frontmatter_views(style, raw@)).spaced(),
            lines_wf(final(state).lines@),
    {
        let block = Rc::new(FrontmatterBlock::new(style, raw.to_owned()));
        let n: usize = block.lines.len();
        let ghost all = frontmatter_views(style, raw@);
        let ghost before = state@;
        let mut j: usize = 0;
        proof {
            assert(crate::text::strings_view(block.lines@).len() == n);
            assert(all.take(0) =~= Seq::empty());
        }
        while j < n
            invariant
                j <= n,
                n == all.len(),
                block.wf(),
                block.raw@ == raw@,
                block.style == style,
                all == frontmatter_views(style, raw@),
                state@ == before.pushed_all(all.take(j as int)),
                lines_wf(state.lines@),
            decreases n - j,
        {
            let line = LogicalLine::frontmatter(share(&block), j, j == 0);
            proof {
                assert(all[j as int] == line@);
                assert(all.take(j + 1).drop_last() =~= all.take(j as int));
                assert(all.take(j + 1).last() == all[j as int]);
            }
            state.push_line(line);
            j += 1;
        }
        assert(all.take(j as int) =~= all);
        state.push_line(LogicalLine::newline());
    }

    fn push_table(&self, table: &Table, state: &mut RenderState)
        requires
            lines_wf(old(state).lines@),
            table@.fits(),
        ensures
            final(state)@ == old(state)@.pushed_all(
                table_views(
                    table@,
                    table_lines(
                        *self.painter,
                        *self.theme,
                        table@,
                        self.table_width(line_text(old(state)@.prefixes).len() as int),
                    ),
                ),
            ).spaced(),
            lines_wf(final(state).lines@),
    {
        let width: usize = self.viewport_width.saturating_sub(
            PREVIEW_FRAME_OVERHEAD,
        ).saturating_sub(text_len(&state.prefixes)).max(1);
        let shown = render_table(table, self.theme, width, self.painter);
        let table = Rc::new(table.copy());
        let n: usize = shown.len();
        let ghost lines = line_views(shown@);
        let ghost all = table_views(table@, lines);
        let ghost before = state@;
        let mut j: usize = 0;
        assert(all.take(0) =~= Seq::empty());
        while j < n
            invariant
                j <= n,
                n == all.len(),
                n == shown@.len(),
                lines == line_views(shown@),
                table@.fits(),
                all == table_views(table@, lines),
                state@ == before.pushed_all(all.take(j as int)),
                lines_wf(state.lines@),
            decreases n - j,
        {
            let line = LogicalLine::table(share(&table), j, shown[j].copy());
            proof {
                assert(lines[j as int] == shown@[j as int]@);
                assert(all[j as int] == line@);
                assert(all.take(j + 1).drop_last() =~= all.take(j as int));
                assert(all.take(j + 1).last() == all[j as int]);
            }
            state.push_line(line);
            j += 1;
        }
        assert(all.take(j as int) =~= all);
        state.push_line(LogicalLine::newline());
    }

    fn push_heading(&self, text: &Vec<InlineSpan>, level: u8, state: &mut RenderState)
        requires
            lines_wf(old(state).lines@),
        ensures
            final(state)@ == ({
                let heading = old(state)@.pushed(
                    LogicalView {
                        is_block_start: true,
                        ..LogicalView::holding(
                            SourceView::Heading {
                                level,
                                text: TextView::of_spans(heading_pieces(inline_view(text@), level)),
                            },
                        )
                    },
                );
                let ruled = if level <= 2 {
                    heading.pushed(LogicalView::holding(SourceView::ThematicBreak))
                } else {
                    heading
                };
                RenderView {
                    snap: SnapContext {
                        title_line: Some(old(state)@.lines.len() as usize),
                        ..ruled.snap
                    },
                    ..ruled
                }
            }),
            lines_wf(final(state).lines@),
    {
        let line: usize = state.lines.len();
        state.push_line(LogicalLine::heading_lazy_spans(heading_spans(text, level), level));
        if level <= 2 {
            state.push_line(LogicalLine::heading_rule());
        }
        state.snap.title_line = Some(line);
    }
}

impl<'a> MarkdownRenderer<'a> {
    fn render_quote(&self, children: &Vec<Node>, state: &mut RenderState)
        requires
            lines_wf(old(state).lines@),
            nodes_ok(*children, self.codes@, self.source@.len() as int),
        ensures
            final(state)@ == self.visual_nodes(
                *children,
                old(state)@.quoted(*self.theme),
                children@.len(),
            ).unquoted(old(state)@),
            lines_wf(final(state).lines@),
        decreases *children, children@.len() + 1,
    {
        let snap = state.snap;
        let depth = state.quote_depth;
        let prefixes = copy_spans(&state.prefixes);
        state.snap = SnapContext { title_line: None, description_line: None };
        state.quote_depth = depth.saturating_add(1);
        let ghost before = line_view(state.prefixes@);
        let quote = Span::styled(QUOTE_PREFIX.to_owned(), self.theme.muted_style());
        let ghost shown = quote@;
        state.prefixes.push(quote);
        assert(line_view(state.prefixes@) =~= before.push(shown));
        self.render_visual(children, state);
        state.snap = snap;
        state.quote_depth = depth;
        state.prefixes = prefixes;
    }

    fn render_list(&self, items: &Vec<ListItem>, state: &mut RenderState)
        requires
            lines_wf(old(state).lines@),
            forall|i: int|
                0 <= i < items@.len() ==> nodes_ok(
                    (#[trigger] items@[i]).children,
                    self.codes@,
                    self.source@.len() as int,
                ),
        ensures
            final(state)@ == ({
                let shown = self.visual_items(*items, old(state)@, items@.len());
                if items@.len() > 0 && items@[0].depth == 1 {
                    shown.spaced()
                } else {
                    shown
                }
            }),
            lines_wf(final(state).lines@),
        decreases *items, items@.len() + 1,
    {
        let ghost before = state@;
        let mut i: usize = 0;
        while i < items.len()
            invariant
                i <= items@.len(),
                forall|i: int|
                    0 <= i < items@.len() ==> nodes_ok(
                        (#[trigger] items@[i]).children,
                        self.codes@,
                        self.source@.len() as int,
                    ),
                state@ == self.visual_items(*items, before, i as nat),
                lines_wf(state.lines@),
            decreases items@.len() - i,
        {
            let item = &items[i];
            self.push_item(item, i == 0, state);
            assert(decreases_to!(*items => items@[i as int]));
            self.render_visual(&item.children, state);
            i += 1;
        }
        if items.len() > 0 && items[0].depth == 1 {
            state.push_line(LogicalLine::newline());
        }
    }

    /// Appends a block.
    pub fn render_node(&self, node: &Node, state: &mut RenderState)
        requires
            lines_wf(old(state).lines@),
            node_ok(*node, self.codes@, self.source@.len() as int),
        ensures
            final(state)@ == self.visual_node(*node, old(state)@),
            lines_wf(final(state).lines@),
        decreases *node, 0nat,
    {
        let parent = state.begin_node();
        match &node.kind {
            NodeKind::HtmlBlock => {
                let chars = chars_of(self.source);
                let source = string_of(
                    vstd::slice::slice_subrange(chars.as_slice(), node.start, node.end),
                );
                self.push_html(source, state);
            },
            NodeKind::Frontmatter { style, raw } => {
                self.push_frontmatter(*style, raw.as_str(), state);
            },
            NodeKind::Text(spans) => {
                self.push_text(spans, state);
            },
            NodeKind::Paragraph(spans) => {
                let line: usize = state.lines.len();
                if self.push_text(spans, state) {
                    state.snap.description_line = Some(line);
                }
            },
            NodeKind::BlockQuote(children) => self.render_quote(children, state),
            NodeKind::Heading { text, level } => self.push_heading(text, *level, state),
            NodeKind::List(items) => self.render_list(items, state),
            NodeKind::Code(id) => self.render_code(*id, state),
            NodeKind::Table(table) => self.push_table(table, state),
            NodeKind::ThematicBreak => {
                state.push_line(LogicalLine::thematic_break());
                state.push_line(LogicalLine::newline());
            },
            NodeKind::Image { alt, src } => {
                state.push_line(LogicalLine::image(alt.clone(), src.clone()));
                state.push_line(LogicalLine::newline());
            },
        }
        state.end_node(parent);
    }

    /// Appends blocks.
    pub fn render_visual(&self, nodes: &Vec<Node>, state: &mut RenderState)
        requires
            lines_wf(old(state).lines@),
            nodes_ok(*nodes, self.codes@, self.source@.len() as int),
        ensures
            final(state)@ == self.visual_nodes(*nodes, old(state)@, nodes@.len()),
            lines_wf(final(state).lines@),
        decreases *nodes, nodes@.len(),
    {
        let ghost before = state@;
        let mut i: usize = 0;
        while i < nodes.len()
            invariant
                i <= nodes@.len(),
                nodes_ok(*nodes, self.codes@, self.source@.len() as int),
                state@ == self.visual_nodes(*nodes, before, i as nat),
                lines_wf(state.lines@),
            decreases nodes@.len() - i,
        {
            assert(decreases_to!(*nodes => nodes@[i as int]));
            self.render_node(&nodes[i], state);
            i += 1;
        }
    }
}

/// The marker of an ordered item ends in a dot and a blank, and the digits before them
/// stand for the item's number.
pub proof fn law_ordered_markers_show_the_number(kind: ListKind)
    requires
        kind is Ordered,
    ensures
        ({
            let marker = marker_text(kind);
            let digits = marker.take(marker.len() - 2);
            &&& marker.len() > 2
            &&& marker.skip(marker.len() - 2) == seq!['.', ' ']
            &&& decimal_value(digits) == kind->Ordered_0
            &&& forall|i: int| 0 <= i < digits.len() ==> is_digit(#[trigger] digits[i])
        }),
{
    let n = kind->Ordered_0;
    reveal_strlit(". ");
    law_digits_stand_for_the_number(n as nat);
    let marker = marker_text(kind);
    assert(marker.take(marker.len() - 2) =~= decimal_text(n as nat));
    assert(marker.skip(marker.len() - 2) =~= seq!['.', ' ']);
}

/// Different kinds of items, and items with different numbers, have different markers.
/// A marker ends in a blank.
pub proof fn law_markers_differ(a: ListKind, b: ListKind)
    ensures
        marker_text(a) == marker_text(b) ==> a == b,
        marker_text(a).len() > 0,
        marker_text(a).last() == ' ',
{
    reveal_strlit(". ");
    reveal_strlit("• ");
    reveal_strlit("󰱒  ");
    reveal_strlit("󰡖  ");
    reveal_strlit("󰄱  ");
    let first = marker_text(a)[0];
    let second = marker_text(b)[0];
    if a is Ordered {
        law_ordered_markers_show_the_number(a);
        let digits = marker_text(a).take(marker_text(a).len() - 2);
        assert(is_digit(digits[0]));
        assert(first == digits[0]);
        assert(marker_text(a).skip(marker_text(a).len() - 2)[1] == ' ');
    } else {
        law_bullets_and_boxes(a);
        assert(!is_digit(first));
    }
    if b is Ordered {
        law_ordered_markers_show_the_number(b);
        let digits = marker_text(b).take(marker_text(b).len() - 2);
        assert(is_digit(digits[0]));
        assert(second == digits[0]);
    } else {
        law_bullets_and_boxes(b);
        assert(!is_digit(second));
    }
    if marker_text(a) == marker_text(b) {
        assert(first == second);
        match (a, b) {
            (ListKind::Ordered(m), ListKind::Ordered(n)) => {
                assert(m == n);
            },
            (ListKind::Task(m), ListKind::Task(n)) => {
                assert(m == n);
            },
            (ListKind::Bullet, ListKind::Bullet) => {},
            _ => {
                assert(false);
            },
        }
    }
}

/// A bullet is a bullet, and a task shows a box with a tick, a box that is partly filled
/// or an empty box.
pub proof fn law_bullets_and_boxes(kind: ListKind)
    ensures
        kind is Bullet ==> marker_text(kind)[0] as u32 == 0x2022 && marker_text(kind).len() == 2,
        kind == ListKind::Task(TaskMark::Checked) ==> marker_text(kind)[0] as u32 == 0xF0C52,
        kind == ListKind::Task(TaskMark::InProgress) ==> marker_text(kind)[0] as u32 == 0xF0856,
        kind == ListKind::Task(TaskMark::Unchecked) ==> marker_text(kind)[0] as u32 == 0xF0131,
        kind is Task ==> marker_text(kind).len() == 3,
{
    reveal_strlit("• ");
    reveal_strlit("󰱒  ");
    reveal_strlit("󰡖  ");
    reveal_strlit("󰄱  ");
}

/// The lines of an item: the first shows the marker behind blanks for its depth, and
/// those below it blanks of the same width, so that the texts stand in one column. The
/// texts are those of the item, in order.
pub proof fn law_items_stand_behind_their_marker(
    item: ListItem,
    is_first: bool,
    theme: Theme,
    j: int,
)
    requires
        0 <= j < item_views(item, is_first, theme).len(),
    ensures
        ({
            let view = item_views(item, is_first, theme)[j];
            let prefix = view.prefixes[0].0;
            let indent = if item.depth > 1 {
                4 * (item.depth - 1)
            } else {
                0
            };
            &&& item_views(item, is_first, theme).len() == split_inline(inline_view(item.text@)).len()
            &&& view.prefixes.len() == 1
            &&& prefix.len() == indent + marker_text(item.kind).len()
            &&& forall|i: int| 0 <= i < indent ==> #[trigger] prefix[i] == ' '
            &&& j == 0 ==> prefix.skip(indent) == marker_text(item.kind)
            &&& j > 0 ==> forall|i: int| 0 <= i < prefix.len() ==> #[trigger] prefix[i] == ' '
            &&& view.source is ListItem
            &&& view.source->ListItem_0.spans == split_inline(inline_view(item.text@))[j]
            &&& view.is_block_start == (is_first && j == 0)
        }),
{
    let view = item_views(item, is_first, theme)[j];
    let indent = indent_text(item.depth);
    let marker = marker_text(item.kind);
    if j == 0 {
        assert((indent + marker).skip(indent.len() as int) =~= marker);
    }
}

/// An item with a number shows that number: reading the digits behind the indentation
/// of its first line gives it back.
pub proof fn law_items_show_their_number(item: ListItem, is_first: bool, theme: Theme)
    requires
        item.kind is Ordered,
        item_views(item, is_first, theme).len() > 0,
    ensures
        ({
            let prefix = item_views(item, is_first, theme)[0].prefixes[0].0;
            let indent = if item.depth > 1 {
                4 * (item.depth - 1)
            } else {
                0
            };
            &&& prefix.len() >= indent + 3
            &&& decimal_value(prefix.subrange(indent, prefix.len() - 2)) == item.kind->Ordered_0
            &&& prefix.skip(prefix.len() - 2) == seq!['.', ' ']
        }),
{
    law_items_stand_behind_their_marker(item, is_first, theme, 0);
    law_ordered_markers_show_the_number(item.kind);
    let prefix = item_views(item, is_first, theme)[0].prefixes[0].0;
    let marker = marker_text(item.kind);
    let indent: int = if item.depth > 1 {
        4 * (item.depth - 1)
    } else {
        0
    };
    assert(prefix.subrange(indent, prefix.len() - 2) =~= prefix.skip(indent).take(
        marker.len() - 2,
    ));
    assert(prefix.skip(prefix.len() - 2) =~= prefix.skip(indent).skip(marker.len() - 2));
}

/// A heading shows as many number signs as its level, and a blank, in front of its
/// text; number signs and blanks at the start of the text itself are not shown twice.
pub proof fn law_headings_show_their_level(spans: Seq<InlineView>, level: u8)
    ensures
        ({
            let pieces = heading_pieces(spans, level);
            let marker = pieces[0].text;
            &&& pieces.len() == spans.len() + 1
            &&& marker.len() == level + 1
            &&& marker.last() == ' '
            &&& forall|i: int| 0 <= i < level ==> #[trigger] marker[i] == '#'
            &&& forall|i: int| 1 <= i < spans.len() ==> #[trigger] pieces[i + 1] == spans[i]
            &&& spans.len() > 0 ==> pieces[1].style == spans[0].style
            &&& spans.len() > 0 && spans[0].text.len() > 0 && spans[0].text[0] != '#'
                && !whitespace(spans[0].text[0]) ==> pieces[1].text == spans[0].text
        }),
{
    reveal_strlit(" ");
    if spans.len() > 0 && spans[0].text.len() > 0 && spans[0].text[0] != '#' && !whitespace(
        spans[0].text[0],
    ) {
        assert(without_marker(spans[0].text) == spans[0].text);
    }
}

/// A quote puts its sign in front of every line in it, and nothing of it is left behind
/// it.
pub proof fn law_quotes_are_left_as_they_were(state: RenderView, inside: RenderView, theme: Theme)
    ensures
        state.quoted(theme).prefixes.len() == state.prefixes.len() + 1,
        state.quoted(theme).prefixes.last().0 == seq!['>', ' '],
        state.quoted(theme).lines == state.lines,
        inside.unquoted(state).prefixes == state.prefixes,
        inside.unquoted(state).quote_depth == state.quote_depth,
        inside.unquoted(state).lines == inside.lines,
{
    reveal_strlit("> ");
    assert(QUOTE_PREFIX@ =~= seq!['>', ' ']);
}

/// Of a heading's own markers nothing is left, and nothing else is taken away.
pub proof fn law_heading_markers_are_taken_away(s: Seq<char>)
    ensures
        without_marker(s).len() <= s.len(),
        s.skip(s.len() - without_marker(s).len()) == without_marker(s),
        without_marker(s).len() > 0 ==> without_marker(s)[0] != '#',
        forall|i: int| 0 <= i < s.len() - without_marker(s).len() ==> #[trigger] s[i] == '#',
    decreases s.len(),
{
    if s.len() > 0 && s[0] == '#' {
        let rest = s.drop_first();
        law_heading_markers_are_taken_away(rest);
        let k = s.len() - without_marker(s).len();
        assert(s.skip(k) =~= rest.skip(k - 1));
        assert forall|i: int| 0 <= i < k implies #[trigger] s[i] == '#' by {
            if i > 0 {
                assert(rest[i - 1] == '#');
            }
        }
    } else {
        assert(s.skip(0) =~= s);
    }
}

/// A checked task has the color of success; lists have the color of text.
pub proof fn law_checked_tasks_look_done(theme: Theme)
    ensures
        marker_color(ListKind::Task(TaskMark::Checked), theme) == theme.success,
        marker_color(ListKind::Task(TaskMark::Unchecked), theme) == theme.muted,
        marker_color(ListKind::Bullet, theme) == theme.foreground,
{
}

} // verus!
