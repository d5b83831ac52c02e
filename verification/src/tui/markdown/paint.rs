//! Lines of a document in their styles.

use vstd::prelude::*;

use crate::code::CodeId;
use crate::config::{GUTTER_GLYPH, PREVIEW_CODE_WRAP_OVERHEAD, PREVIEW_FRAME_OVERHEAD};
use crate::highlight::{lines_texts, no_lone_return};
use crate::num::{larger, less_by};
use crate::style::{
    copy_spans, lemma_line_text_add, lemma_line_text_one, lemma_raw_text, line_text, line_view,
    line_views, lines_view, move_spans, plain, raw_line, text_len, Color, Line, LineView, Span,
    Style,
};
use crate::text::{
    join_first, joined_text, lemma_lines_hold_no_newline, lemma_one_line, repeat_char, repeated, strings_view, text_lines,
    trim_end, trimmed_end,
};
use crate::theme::Theme;
use crate::theme_library::Painter;
use crate::tui::markdown::inline::{
    expand_tabs_in_line, expanded, expanded_line, inline_chars, inline_line, law_tabs_follow_text,
    render_heading_spans, render_inline_spans, single_line, single_lines,
};
use crate::tui::markdown::line::{
    frontmatter_lines, nth_line, FrontmatterBlock, FrontmatterStyle, InfoView, LazyText,
    LogicalLine, LogicalLineSource, LogicalView, MarkdownHtml, SourceView, TextView,
};
use crate::tui::markdown::table::{render_table, table_lines};

verus! {

/// What rendering a line depends on.
pub struct RenderContext<'a> {
    pub theme: &'a Theme,
    pub painter: &'a Painter,
    pub active_code_id: Option<CodeId>,
    /// The status of this block shows in its gutter even where it is active.
    pub prefer_status_gutter: Option<CodeId>,
    pub spinner_char: char,
    pub viewport_width: usize,
}

impl LogicalView {
    /// The characters in front of the content.
    pub open spec fn prefix_chars(self) -> int {
        line_text(self.prefixes).len() as int
    }

    /// The characters to leave room for in front of every row.
    pub open spec fn reserved(self) -> int {
        larger(self.prefix_chars(), self.wrap_prefix_width)
    }

    /// A line of a code block, with a gutter.
    pub open spec fn gutter(self) -> bool {
        self.source is CodeInfo || self.source is CodeBody || self.source is Output
    }

    /// A line that has its final form and is not wrapped.
    pub open spec fn unwrappable(self) -> bool {
        self.source is TableRow || self.source is Output || self.source is CodeInfo
            || self.source is Image || self.source is ThematicBreak
    }

    /// The text of the line's content.
    pub open spec fn content_text(self) -> Seq<char> {
        match self.source {
            SourceView::Text(text) => text.text,
            SourceView::ListItem(text) => text.text,
            SourceView::CodeBody(text) => text.text,
            SourceView::Heading { level, text } => text.text,
            SourceView::CodeInfo(info) => line_text(info.left) + " "@ + trimmed_end(info.right),
            SourceView::Output(lines) => joined_text(
                lines.map_values(|line: LineView| line.text()),
                "\n"@,
            ),
            SourceView::Html { source, row_idx } => nth_line(text_lines(source), row_idx),
            SourceView::Frontmatter { style, raw, row_idx } => nth_line(
                frontmatter_lines(style, raw),
                row_idx,
            ),
            SourceView::TableRow { table, row_idx, initial } => initial.text(),
            SourceView::Image { alt, src } => alt,
            SourceView::ThematicBreak => Seq::empty(),
            SourceView::Newline => Seq::empty(),
        }
    }
}

fn texts_of(lines: &Vec<Line>) -> (texts: Vec<String>)
    ensures
        strings_view(texts@) == line_views(lines@).map_values(|line: LineView| line.text()),
{
    let ghost whole = line_views(lines@).map_values(|line: LineView| line.text());
    let mut texts: Vec<String> = Vec::new();
    let mut i: usize = 0;
    assert(strings_view(texts@) =~= whole.take(0));
    while i < lines.len()
        invariant
            i <= lines@.len(),
            whole == line_views(lines@).map_values(|line: LineView| line.text()),
            strings_view(texts@) == whole.take(i as int),
        decreases lines@.len() - i,
    {
        let text = lines[i].text();
        let ghost before = strings_view(texts@);
        let ghost shown = text@;
        texts.push(text);
        proof {
            assert(strings_view(texts@) =~= before.push(shown));
            assert(line_views(lines@)[i as int] == lines@[i as int]@);
            assert(whole.take(i + 1) =~= whole.take(i as int).push(shown));
        }
        i += 1;
    }
    assert(whole.take(i as int) =~= whole);
    texts
}

impl LogicalLine {
    /// The characters in front of the content.
    pub fn prefix_width(&self) -> (width: usize)
        ensures
            width == self@.prefix_chars(),
    {
        text_len(&self.prefixes)
    }

    /// The characters at the start that wrapped rows repeat.
    pub fn wrap_prefix_width(&self) -> (width: usize)
        ensures
            width == self@.wrap_prefix_width,
    {
        self.wrap_prefix_width
    }

    /// The characters to leave room for in front of every row.
    pub fn reserved_prefix_width(&self) -> (width: usize)
        ensures
            width == self@.reserved(),
    {
        self.prefix_width().max(self.wrap_prefix_width)
    }

    /// The level of a heading.
    pub fn heading_level(&self) -> (level: Option<u8>)
        ensures
            level == (match self@.source {
                SourceView::Heading { level, text } => Some(level),
                _ => None,
            }),
    {
        match &self.source {
            LogicalLineSource::Heading { level, .. } => Some(*level),
            _ => None,
        }
    }

    /// Whether this is the line above a code block.
    pub fn is_code_info(&self) -> (yes: bool)
        ensures
            yes == (self@.source is CodeInfo),
    {
        matches!(&self.source, LogicalLineSource::CodeInfo(_))
    }

    /// Whether this is a line of code.
    pub fn is_code_body(&self) -> (yes: bool)
        ensures
            yes == (self@.source is CodeBody),
    {
        matches!(&self.source, LogicalLineSource::CodeBody(_))
    }

    /// Whether this is a line of output.
    pub fn is_output(&self) -> (yes: bool)
        ensures
            yes == (self@.source is Output),
    {
        matches!(&self.source, LogicalLineSource::Output(_))
    }

    /// Whether this is an empty line.
    pub fn is_newline(&self) -> (yes: bool)
        ensures
            yes == (self@.source is Newline),
    {
        matches!(&self.source, LogicalLineSource::Newline)
    }

    /// Whether this is a line of a code block, with a gutter.
    pub fn has_code_gutter(&self) -> (yes: bool)
        ensures
            yes == self@.gutter(),
    {
        self.is_code_info() || self.is_code_body() || self.is_output()
    }

    /// Whether this is a row of a table.
    pub fn is_table(&self) -> (yes: bool)
        ensures
            yes == (self@.source is TableRow),
    {
        matches!(&self.source, LogicalLineSource::TableRow { .. })
    }

    /// Whether this is an image.
    pub fn is_image(&self) -> (yes: bool)
        ensures
            yes == (self@.source is Image),
    {
        matches!(&self.source, LogicalLineSource::Image { .. })
    }

    /// Where an image is read from.
    pub fn image_src(&self) -> (src: Option<&str>)
        ensures
            src is Some <==> self@.source is Image,
            src matches Some(s) ==> s@ == self@.source->src,
    {
        match &self.source {
            LogicalLineSource::Image { src, .. } => Some(src.as_str()),
            _ => None,
        }
    }

    /// Whether the line has its final form and is not wrapped.
    pub fn is_unwrappable(&self) -> (yes: bool)
        ensures
            yes == self@.unwrappable(),
    {
        self.is_table() || self.is_output() || self.is_code_info() || self.is_image() || matches!(
            &self.source,
            LogicalLineSource::ThematicBreak
        )
    }

    /// The text of the line's content.
    pub fn text_content(&self) -> (text: String)
        requires
            self.source.wf(),
        ensures
            text@ == self@.content_text(),
    {
        match &self.source {
            LogicalLineSource::Text(text) => text.text.clone(),
            LogicalLineSource::ListItem(text) => text.text.clone(),
            LogicalLineSource::CodeBody(text) => text.text.clone(),
            LogicalLineSource::Heading { text, .. } => text.text.clone(),
            LogicalLineSource::CodeInfo(info) => {
                let mut text = crate::style::text_of_line(info.left.as_slice());
                text.append(" ");
                text.append(trim_end(info.right.as_str()).as_str());
                text
            },
            LogicalLineSource::Output(lines) => {
                let texts = texts_of(lines);
                proof {
                    assert(strings_view(texts@).len() == texts@.len());
                    assert(strings_view(texts@).take(texts@.len() as int) =~= strings_view(texts@));
                }
                join_first(&texts, texts.len(), "\n")
            },
            LogicalLineSource::Html { block, row_idx } => block.raw_line(*row_idx),
            LogicalLineSource::Frontmatter { block, row_idx } => block.raw_line(*row_idx),
            LogicalLineSource::TableRow { initial, .. } => initial.text(),
            LogicalLineSource::Image { alt, .. } => alt.clone(),
            LogicalLineSource::ThematicBreak => String::new(),
            LogicalLineSource::Newline => String::new(),
        }
    }
}

/// The style of a gutter. A running block shows its status, an active one the
/// active color unless its status is preferred, others their status.
pub open spec fn gutter_of(
    bg: Option<Color>,
    unwrappable: bool,
    active: bool,
    theme: Theme,
    gutter_fg: Option<Color>,
    prefer_status: bool,
    running: bool,
) -> Style {
    let style = if gutter_fg is Some && (running || !active || prefer_status) {
        plain().fg_spec(gutter_fg->0)
    } else if active {
        theme.active_fg()
    } else if unwrappable {
        plain()
    } else {
        theme.inactive_fg()
    };
    match bg {
        Some(color) => style.bg_spec(color),
        None => style,
    }
}

/// The style of a gutter.
pub fn gutter_style(
    bg: Option<Color>,
    is_unwrappable: bool,
    is_active: bool,
    theme: &Theme,
    gutter_fg: Option<Color>,
    prefer_status_gutter: bool,
    is_running: bool,
) -> (style: Style)
    ensures
        style == gutter_of(
            bg,
            is_unwrappable,
            is_active,
            *theme,
            gutter_fg,
            prefer_status_gutter,
            is_running,
        ),
{
    let mut style = match gutter_fg {
        Some(fg) => if is_running || !is_active || prefer_status_gutter {
            Style::default().fg(fg)
        } else {
            theme.active_fg_style()
        },
        None => if is_active {
            theme.active_fg_style()
        } else if is_unwrappable {
            Style::default()
        } else {
            theme.inactive_style()
        },
    };
    if let Some(bg) = bg {
        style = style.bg(bg);
    }
    style
}

/// A line behind a gutter, with a blank between them where the line has content.
pub open spec fn guttered(line: LineView, gutter: Style) -> LineView {
    LineView {
        spans: (if line.spans.len() > 0 {
            seq![(GUTTER_GLYPH@, gutter), (" "@, plain())]
        } else {
            seq![(GUTTER_GLYPH@, gutter)]
        }) + line.spans,
        style: line.style,
    }
}

/// Puts a gutter in front of a line.
pub fn apply_gutter(
    line: Line,
    is_unwrappable: bool,
    is_active: bool,
    theme: &Theme,
    gutter_fg: Option<Color>,
    prefer_status_gutter: bool,
    is_running: bool,
) -> (out: Line)
    ensures
        out@ == guttered(
            line@,
            gutter_of(
                line.style.bg,
                is_unwrappable,
                is_active,
                *theme,
                gutter_fg,
                prefer_status_gutter,
                is_running,
            ),
        ),
{
    let style = gutter_style(
        line.style.bg,
        is_unwrappable,
        is_active,
        theme,
        gutter_fg,
        prefer_status_gutter,
        is_running,
    );
    let mut spans: Vec<Span> = Vec::new();
    spans.push(Span::styled(GUTTER_GLYPH.to_owned(), style));
    assert(line_view(spans@) =~= seq![(GUTTER_GLYPH@, style)]);
    if line.spans.len() > 0 {
        spans.push(Span::styled(" ".to_owned(), Style::default()));
        assert(line_view(spans@) =~= seq![(GUTTER_GLYPH@, style), (" "@, plain())]);
    }
    move_spans(&mut spans, line.spans);
    Line { spans, style: line.style }
}

/// Highlighted lines with blanks in place of tabs.
pub open spec fn expanded_all(lines: Seq<Seq<(Seq<char>, Style)>>) -> Seq<LineView> {
    lines.map_values(
        |runs: Seq<(Seq<char>, Style)>| expanded_line(LineView { spans: runs, style: plain() }),
    )
}

fn expand_all(lines: Vec<Vec<Span>>) -> (out: Vec<Line>)
    ensures
        line_views(out@) == expanded_all(lines_view(lines@)),
{
    let ghost whole = expanded_all(lines_view(lines@));
    let mut out: Vec<Line> = Vec::new();
    let mut i: usize = 0;
    assert(line_views(out@) =~= whole.take(0));
    while i < lines.len()
        invariant
            i <= lines@.len(),
            whole == expanded_all(lines_view(lines@)),
            line_views(out@) == whole.take(i as int),
        decreases lines@.len() - i,
    {
        let line = expand_tabs_in_line(
            Line { spans: copy_spans(&lines[i]), style: Style::default() },
        );
        let ghost before = line_views(out@);
        let ghost shown = line@;
        out.push(line);
        proof {
            assert(line_views(out@) =~= before.push(shown));
            assert(lines_view(lines@)[i as int] == line_view(lines@[i as int]@));
            assert(whole.take(i + 1) =~= whole.take(i as int).push(shown));
        }
        i += 1;
    }
    assert(whole.take(i as int) =~= whole);
    out
}

impl TextView {
    /// The text without highlighting.
    pub open spec fn plain_line(self) -> LineView {
        expanded_line(raw_line(self.text))
    }

    /// The rendered lines of the text.
    pub open spec fn computed(self, heading: bool, painter: Painter, theme: Theme) -> Seq<LineView> {
        if self.spans.len() == 0 {
            expanded_all(painter.painted(self.text, self.language))
        } else {
            seq![
                expanded_line(
                    inline_line(
                        painter,
                        theme,
                        self.spans,
                        if heading {
                            None
                        } else {
                            Some(theme.markdown.text)
                        },
                    ),
                ),
            ]
        }
    }

    /// The rendered text, as it was rendered before or anew.
    pub open spec fn rendered(self, heading: bool, painter: Painter, theme: Theme) -> LineView {
        let lines = match self.cached {
            Some(lines) => lines,
            None => self.computed(heading, painter, theme),
        };
        if lines.len() > 0 {
            lines[0]
        } else {
            self.plain_line()
        }
    }
}

/// The pieces of a text on one line are each on one line.
proof fn lemma_single_pieces(spans: Seq<crate::tui::markdown::inline::InlineView>)
    requires
        single_line(inline_chars(spans)),
    ensures
        single_lines(spans),
    decreases spans.len(),
{
    if spans.len() > 0 {
        let before = inline_chars(spans.drop_last());
        let last = spans.last().text;
        let all = inline_chars(spans);
        assert(single_line(before)) by {
            assert forall|k: int| 0 <= k < before.len() implies before[k] == all[k] by {}
            if before.contains('\n') {
                let k = choose|k: int| 0 <= k < before.len() && before[k] == '\n';
                assert(all[k] == '\n');
            }
            if before.contains('\r') {
                let k = choose|k: int| 0 <= k < before.len() && before[k] == '\r';
                assert(all[k] == '\r');
            }
        }
        assert(single_line(last)) by {
            if last.contains('\n') {
                let k = choose|k: int| 0 <= k < last.len() && last[k] == '\n';
                assert(all[before.len() + k] == '\n');
            }
            if last.contains('\r') {
                let k = choose|k: int| 0 <= k < last.len() && last[k] == '\r';
                assert(all[before.len() + k] == '\r');
            }
        }
        lemma_single_pieces(spans.drop_last());
        assert forall|i: int| 0 <= i < spans.len() implies single_line((#[trigger] spans[i]).text) by {
            if i < spans.len() - 1 {
                assert(spans[i] == spans.drop_last()[i]);
            }
        }
    }
}

/// A text on one line has no carriage return of its own.
proof fn lemma_single_no_return(text: Seq<char>)
    requires
        single_line(text),
    ensures
        no_lone_return(text),
{
    assert forall|i: int| 0 <= i < text.len() && #[trigger] text[i] == '\r' implies i + 1
        < text.len() && text[i + 1] == '\n' by {
        assert(text.contains('\r'));
    }
}

/// A line with blanks in place of tabs is empty where the line is.
proof fn lemma_expanded_len(text: Seq<char>, column: int)
    ensures
        text.len() > 0 ==> expanded(text, column).len() > 0,
    decreases text.len(),
{
}

impl LazyText {
    /// Renders the text. A text on one line keeps its characters.
    pub fn compute(&self, heading: bool, ctx: &RenderContext<'_>) -> (lines: Vec<Line>)
        requires
            self@.wf(),
        ensures
            line_views(lines@) == self@.computed(heading, *ctx.painter, *ctx.theme),
            self@.renders_to(line_views(lines@)),
    {
        if self.spans.len() == 0 {
            let painted = ctx.painter.highlight(self.text.as_str(), self.language.as_str());
            let ghost shown = lines_view(painted@);
            let lines = expand_all(painted);
            proof {
                assert(self@.spans.len() == 0);
                if single_line(self.text@) {
                    lemma_single_no_return(self.text@);
                    lemma_one_line(self.text@);
                    assert(lines_texts(shown) == text_lines(self.text@));
                    assert(lines_texts(shown).len() == shown.len());
                    if shown.len() > 0 {
                        assert(lines_texts(shown)[0] == self.text@);
                        law_tabs_follow_text(shown[0]);
                        assert(line_views(lines@)[0].text() == expanded(self.text@, 0));
                    }
                } else {
                    assert(self.text@.len() > 0);
                }
            }
            return lines;
        }
        let line = if heading {
            render_heading_spans(&self.spans, ctx.theme, ctx.painter)
        } else {
            render_inline_spans(
                &self.spans,
                ctx.theme.markdown_text_style(),
                ctx.theme,
                ctx.painter,
            )
        };
        let ghost shown = line@;
        let mut lines: Vec<Line> = Vec::new();
        lines.push(expand_tabs_in_line(line));
        proof {
            assert(self@.spans.len() > 0);
            assert(line_views(lines@) =~= seq![expanded_line(shown)]);
            if single_line(self.text@) {
                lemma_single_pieces(self@.spans);
                law_tabs_follow_text(shown.spans);
            }
        }
        lines
    }

    /// The rendered text, as it was rendered before or anew.
    pub fn rendered(&self, heading: bool, ctx: &RenderContext<'_>) -> (line: Line)
        requires
            self@.wf(),
        ensures
            line@ == self@.rendered(heading, *ctx.painter, *ctx.theme),
            single_line(self@.text) ==> line@.text() == self@.plain_line().text(),
            self@.spans.len() == 0 && single_line(self@.text) ==> (line@.spans.len() == 0
                <==> self@.plain_line().spans.len() == 0),
    {
        proof {
            self.lemma_plain();
            lemma_expanded_len(self@.text, 0);
        }
        match &self.cached {
            Some(lines) => {
                if lines.len() > 0 {
                    assert(line_views(lines@)[0] == lines@[0]@);
                    return lines[0].copy();
                }
                assert(line_views(lines@).len() == 0);
            },
            None => {
                let lines = self.compute(heading, ctx);
                if lines.len() > 0 {
                    assert(line_views(lines@)[0] == lines@[0]@);
                    return lines[0].copy();
                }
                assert(line_views(lines@).len() == 0);
            },
        }
        expand_tabs_in_line(Line::raw(self.text.as_str()))
    }

    proof fn lemma_plain(&self)
        ensures
            single_line(self@.text) ==> self@.plain_line().text() == expanded(self@.text, 0),
            single_line(self@.text) ==> (self@.plain_line().spans.len() == 0 <==> self@.text.len()
                == 0),
    {
        if single_line(self@.text) {
            lemma_raw_text(self@.text);
            lemma_one_line(self@.text);
            let raw = raw_line(self@.text).spans;
            law_tabs_follow_text(raw);
            if self@.text.len() > 0 {
                assert(raw.len() == 1);
            }
        }
    }

    /// Renders the text and keeps it, unless that was done before.
    pub fn ensure_rendered(&mut self, heading: bool, ctx: &RenderContext<'_>) -> (done: bool)
        requires
            old(self)@.wf(),
        ensures
            final(self)@.wf(),
            done == (old(self)@.cached is None),
            final(self)@ == (if done {
                TextView {
                    cached: Some(old(self)@.computed(heading, *ctx.painter, *ctx.theme)),
                    ..old(self)@
                }
            } else {
                old(self)@
            }),
    {
        if self.cached.is_some() {
            return false;
        }
        let lines = self.compute(heading, ctx);
        self.cached = Some(lines);
        true
    }

    /// Forgets what the text was rendered to.
    pub fn clear_cache(&mut self)
        ensures
            final(self)@ == (TextView { cached: None, ..old(self)@ }),
            old(self)@.wf() ==> final(self)@.wf(),
    {
        self.cached = None;
    }
}

/// A row of a highlighted block of HTML.
pub open spec fn html_row(painter: Painter, source: Seq<char>, row: int) -> LineView {
    let lines = expanded_all(painter.painted(source, "html"@));
    if 0 <= row < lines.len() {
        lines[row]
    } else {
        expanded_line(raw_line(nth_line(text_lines(source), row)))
    }
}

/// A row of highlighted metadata.
pub open spec fn frontmatter_row(
    painter: Painter,
    theme: Theme,
    style: FrontmatterStyle,
    raw: Seq<char>,
    row: int,
) -> LineView {
    let rule = LineView {
        spans: seq![(style.fence(), theme.inactive_fg().add_spec(crate::style::dim_only()))],
        style: plain(),
    };
    let lines = (seq![rule] + expanded_all(painter.painted(raw, style.language()))).push(rule);
    if 0 <= row < lines.len() {
        lines[row]
    } else {
        raw_line(nth_line(frontmatter_lines(style, raw), row))
    }
}

/// An unstyled row has the row's text.
proof fn lemma_raw_row(lines: Seq<Seq<char>>, row: int)
    requires
        forall|i: int| 0 <= i < lines.len() ==> !(#[trigger] lines[i]).contains('\n'),
    ensures
        expanded_line(raw_line(nth_line(lines, row))).text() == expanded(nth_line(lines, row), 0),
{
    let text = nth_line(lines, row);
    assert(!text.contains('\n'));
    lemma_raw_text(text);
    law_tabs_follow_text(raw_line(text).spans);
}

impl MarkdownHtml {
    /// A row of the highlighted block. Unless a carriage return stands alone, it
    /// has the text of that line, with blanks in place of tabs.
    pub fn line(&self, row: usize, painter: &Painter) -> (line: Line)
        requires
            self.wf(),
        ensures
            line@ == html_row(*painter, self.source@, row as int),
            no_lone_return(self.source@) ==> line@.text() == expanded_line(
                raw_line(nth_line(text_lines(self.source@), row as int)),
            ).text(),
    {
        let painted = painter.highlight(self.source.as_str(), "html");
        let ghost shown = lines_view(painted@);
        proof {
            lemma_lines_hold_no_newline(self.source@);
            lemma_raw_row(text_lines(self.source@), row as int);
            assert(lines_texts(shown).len() == shown.len());
            if no_lone_return(self.source@) && row < shown.len() {
                assert(lines_texts(shown)[row as int] == line_text(shown[row as int]));
                law_tabs_follow_text(shown[row as int]);
            }
        }
        let lines = expand_all(painted);
        if row < lines.len() {
            assert(line_views(lines@)[row as int] == lines@[row as int]@);
            lines[row].copy()
        } else {
            assert(line_views(lines@).len() == lines@.len());
            expand_tabs_in_line(Line::raw(self.raw_line(row).as_str()))
        }
    }
}

/// Text without tabs stays as it is.
proof fn lemma_expanded_plain(text: Seq<char>, column: int)
    requires
        !text.contains('\t'),
    ensures
        expanded(text, column) == text,
    decreases text.len(),
{
    if text.len() > 0 {
        assert(text.contains(text.last()));
        assert(!text.drop_last().contains('\t')) by {
            if text.drop_last().contains('\t') {
                let k = choose|k: int| 0 <= k < text.len() - 1 && text[k] == '\t';
                assert(text.contains(text[k]));
            }
        }
        lemma_expanded_plain(text.drop_last(), column);
        assert(expanded(text, column) =~= text);
    } else {
        assert(expanded(text, column) =~= text);
    }
}

proof fn lemma_fence(style: FrontmatterStyle)
    ensures
        !style.fence().contains('\t'),
        !style.fence().contains('\n'),
{
    reveal_strlit("---");
    reveal_strlit("+++");
}

impl FrontmatterBlock {
    /// A row of the highlighted block. Unless a carriage return stands alone, it
    /// has the text of that line, with blanks in place of tabs.
    pub fn line(&self, row: usize, theme: &Theme, painter: &Painter) -> (line: Line)
        requires
            self.wf(),
        ensures
            line@ == frontmatter_row(*painter, *theme, self.style, self.raw@, row as int),
            no_lone_return(self.raw@) ==> line@.text() == expanded_line(
                raw_line(nth_line(frontmatter_lines(self.style, self.raw@), row as int)),
            ).text(),
    {
        let painted = painter.highlight(self.raw.as_str(), self.style.language_name());
        let ghost shown = lines_view(painted@);
        let ghost texts = frontmatter_lines(self.style, self.raw@);
        let lines = expand_all(painted);
        let ghost rule = LineView {
            spans: seq![(self.style.fence(), theme.inactive_fg().add_spec(crate::style::dim_only()))],
            style: plain(),
        };
        let ghost all = (seq![rule] + expanded_all(
            painter.painted(self.raw@, self.style.language()),
        )).push(rule);
        proof {
            lemma_fence(self.style);
            lemma_lines_hold_no_newline(self.raw@);
            assert forall|i: int| 0 <= i < texts.len() implies !(#[trigger] texts[i]).contains('\n') by {
                if 0 < i < texts.len() - 1 {
                    assert(texts[i] == text_lines(self.raw@)[i - 1]);
                }
            }
            lemma_raw_row(texts, row as int);
            lemma_expanded_plain(self.style.fence(), 0);
            lemma_line_text_one(rule.spans[0]);
            assert(rule.spans =~= seq![rule.spans[0]]);
            assert(lines_texts(shown).len() == shown.len());
            assert(line_views(lines@).len() == lines@.len());
            assert(all.len() == lines@.len() + 2);
            if no_lone_return(self.raw@) {
                if 1 <= row <= shown.len() {
                    assert(lines_texts(shown)[row - 1] == line_text(shown[row - 1]));
                    law_tabs_follow_text(shown[row - 1]);
                    assert(texts[row as int] == text_lines(self.raw@)[row - 1]);
                } else if row > shown.len() + 1 {
                    let empty = nth_line(texts, row as int);
                    lemma_raw_text(empty);
                    lemma_expanded_plain(empty, 0);
                }
            }
        }
        if row >= 1 && row - 1 < lines.len() {
            assert(line_views(lines@)[row - 1] == lines@[row - 1]@);
            lines[row - 1].copy()
        } else if row == 0 || row - 1 == lines.len() {
            Line::styled(self.style.delimiter().to_owned(), theme.rule_style())
        } else {
            Line::raw(self.raw_line(row).as_str())
        }
    }
}

/// The line above a code block: the right side ends at the width, a blank at least
/// stands between the sides.
pub open spec fn info_line(
    info: InfoView,
    running: bool,
    prefix: int,
    theme: Theme,
    spinner: char,
    viewport: int,
) -> LineView {
    let width = larger(less_by(viewport, PREVIEW_CODE_WRAP_OVERHEAD + prefix), 1);
    let left = if running {
        info.left.push((" "@.push(spinner), theme.active_fg()))
    } else {
        info.left
    };
    let gap = larger(less_by(width, (line_text(left).len() + info.right.len()) as int), 1);
    LineView {
        spans: left.push((repeated(' ', gap as nat), info.style)).push((info.right, info.style)),
        style: info.style,
    }
}

impl LogicalView {
    /// The content without what stands in front of it, and without the styles of
    /// the block's state.
    pub open spec fn content(
        self,
        theme: Theme,
        painter: Painter,
        spinner: char,
        viewport: int,
        highlight: bool,
    ) -> LineView {
        let empty = LineView { spans: Seq::empty(), style: plain() };
        match self.source {
            SourceView::Text(text) => if highlight {
                text.rendered(false, painter, theme)
            } else {
                text.plain_line()
            },
            SourceView::ListItem(text) => if highlight {
                text.rendered(false, painter, theme)
            } else {
                text.plain_line()
            },
            SourceView::CodeBody(text) => if highlight {
                text.rendered(false, painter, theme)
            } else {
                text.plain_line()
            },
            SourceView::Heading { level, text } => if highlight {
                text.rendered(true, painter, theme)
            } else {
                text.plain_line()
            },
            SourceView::Html { source, row_idx } => if highlight {
                html_row(painter, source, row_idx)
            } else {
                expanded_line(raw_line(nth_line(text_lines(source), row_idx)))
            },
            SourceView::Frontmatter { style, raw, row_idx } => if highlight {
                frontmatter_row(painter, theme, style, raw, row_idx)
            } else {
                expanded_line(raw_line(nth_line(frontmatter_lines(style, raw), row_idx)))
            },
            SourceView::CodeInfo(info) => info_line(
                info,
                self.is_running,
                self.prefix_chars(),
                theme,
                spinner,
                viewport,
            ),
            SourceView::Output(lines) => if lines.len() > 0 {
                lines[0]
            } else {
                empty
            },
            SourceView::Image { alt, src } => LineView {
                spans: raw_line(alt).spans,
                style: theme.image(),
            },
            _ => empty,
        }
    }

    /// A rule or a table row, which take no styles of the block's state.
    pub open spec fn synthetic(self, theme: Theme, painter: Painter, viewport: int) -> Option<
        LineView,
    > {
        let width = less_by(less_by(viewport, PREVIEW_FRAME_OVERHEAD as int), self.prefix_chars());
        match self.source {
            SourceView::ThematicBreak => Some(
                LineView {
                    spans: seq![
                        (
                            repeated('─', width as nat),
                            theme.inactive_fg().add_spec(crate::style::dim_only()),
                        ),
                    ],
                    style: plain(),
                },
            ),
            SourceView::TableRow { table, row_idx, initial } => {
                let lines = table_lines(painter, theme, table, larger(width, 1));
                Some(
                    if 0 <= row_idx < lines.len() {
                        lines[row_idx]
                    } else {
                        LineView { spans: Seq::empty(), style: plain() }
                    },
                )
            },
            _ => None,
        }
    }
}

fn render_info(
    info: &crate::tui::markdown::line::CodeInfoLine,
    running: bool,
    prefix: usize,
    ctx: &RenderContext<'_>,
) -> (line: Line)
    ensures
        line@ == info_line(
            info@,
            running,
            prefix as int,
            *ctx.theme,
            ctx.spinner_char,
            ctx.viewport_width as int,
        ),
{
    let width: usize = ctx.viewport_width.saturating_sub(
        PREVIEW_CODE_WRAP_OVERHEAD.saturating_add(prefix),
    ).max(1);
    let mut spans = copy_spans(&info.left);
    if running {
        let ghost before = line_view(spans@);
        let mut spinner = String::new();
        spinner.append(" ");
        spinner.push(ctx.spinner_char);
        assert(spinner@ =~= " "@.push(ctx.spinner_char));
        let span = Span::styled(spinner, ctx.theme.active_fg_style());
        let ghost shown = span@;
        spans.push(span);
        assert(line_view(spans@) =~= before.push(shown));
    }
    let left: usize = text_len(&spans);
    let right: usize = info.right.as_str().unicode_len();
    let gap: usize = width.saturating_sub(left.saturating_add(right)).max(1);
    let ghost before = line_view(spans@);
    let blank = Span::styled(repeat_char(' ', gap), info.style);
    let ghost shown = blank@;
    spans.push(blank);
    assert(line_view(spans@) =~= before.push(shown));
    let last = Span::styled(info.right.clone(), info.style);
    let ghost end = last@;
    spans.push(last);
    assert(line_view(spans@) =~= before.push(shown).push(end));
    Line { spans, style: info.style }
}

impl LogicalView {
    /// The characters of the content stay whatever highlighting does.
    pub open spec fn keeps_text(self) -> bool {
        match self.source {
            SourceView::Text(text) => single_line(text.text),
            SourceView::ListItem(text) => single_line(text.text),
            SourceView::CodeBody(text) => single_line(text.text),
            SourceView::Heading { level, text } => single_line(text.text),
            SourceView::Html { source, row_idx } => no_lone_return(source),
            SourceView::Frontmatter { style, raw, row_idx } => no_lone_return(raw),
            _ => true,
        }
    }
}

impl LogicalLine {
    fn render_synthetic(&self, ctx: &RenderContext<'_>) -> (line: Option<Line>)
        requires
            self.source.wf(),
        ensures
            line is Some <==> self@.synthetic(
                *ctx.theme,
                *ctx.painter,
                ctx.viewport_width as int,
            ) is Some,
            line matches Some(l) ==> self@.synthetic(
                *ctx.theme,
                *ctx.painter,
                ctx.viewport_width as int,
            ) == Some(l@),
    {
        let width: usize = ctx.viewport_width.saturating_sub(PREVIEW_FRAME_OVERHEAD).saturating_sub(
            self.prefix_width(),
        );
        match &self.source {
            LogicalLineSource::ThematicBreak => Some(
                Line::styled(repeat_char('─', width), ctx.theme.rule_style()),
            ),
            LogicalLineSource::TableRow { table, row_idx, .. } => {
                let lines = render_table(table, ctx.theme, width.max(1), ctx.painter);
                assert(line_views(lines@).len() == lines@.len());
                if *row_idx < lines.len() {
                    assert(line_views(lines@)[*row_idx as int] == lines@[*row_idx as int]@);
                    Some(lines[*row_idx].copy())
                } else {
                    Some(Line::empty())
                }
            },
            _ => None,
        }
    }

    fn render_content(&self, ctx: &RenderContext<'_>, highlight: bool) -> (line: Line)
        requires
            self.source.wf(),
        ensures
            line@ == self@.content(
                *ctx.theme,
                *ctx.painter,
                ctx.spinner_char,
                ctx.viewport_width as int,
                highlight,
            ),
            self@.keeps_text() ==> ({
                let flat = self@.content(
                    *ctx.theme,
                    *ctx.painter,
                    ctx.spinner_char,
                    ctx.viewport_width as int,
                    false,
                );
                &&& line@.text() == flat.text()
                &&& self@.gutter() ==> (line@.spans.len() == 0 <==> flat.spans.len() == 0)
            }),
    {
        match &self.source {
            LogicalLineSource::Text(text) => if highlight {
                text.rendered(false, ctx)
            } else {
                expand_tabs_in_line(Line::raw(text.text.as_str()))
            },
            LogicalLineSource::ListItem(text) => if highlight {
                text.rendered(false, ctx)
            } else {
                expand_tabs_in_line(Line::raw(text.text.as_str()))
            },
            LogicalLineSource::CodeBody(text) => if highlight {
                text.rendered(false, ctx)
            } else {
                expand_tabs_in_line(Line::raw(text.text.as_str()))
            },
            LogicalLineSource::Heading { text, .. } => if highlight {
                text.rendered(true, ctx)
            } else {
                expand_tabs_in_line(Line::raw(text.text.as_str()))
            },
            LogicalLineSource::Html { block, row_idx } => if highlight {
                block.line(*row_idx, ctx.painter)
            } else {
                expand_tabs_in_line(Line::raw(block.raw_line(*row_idx).as_str()))
            },
            LogicalLineSource::Frontmatter { block, row_idx } => if highlight {
                block.line(*row_idx, ctx.theme, ctx.painter)
            } else {
                expand_tabs_in_line(Line::raw(block.raw_line(*row_idx).as_str()))
            },
            LogicalLineSource::CodeInfo(info) => {
                render_info(info, self.is_running, self.prefix_width(), ctx)
            },
            LogicalLineSource::Output(lines) => {
                assert(line_views(lines@).len() == lines@.len());
                if lines.len() > 0 {
                    assert(line_views(lines@)[0] == lines@[0]@);
                    lines[0].copy()
                } else {
                    Line::empty()
                }
            },
            LogicalLineSource::Image { alt, .. } => {
                let line = Line::raw(alt.as_str());
                Line { spans: line.spans, style: ctx.theme.image_style() }
            },
            _ => Line::empty(),
        }
    }
}

/// Runs with a style added to each.
pub open spec fn patched_runs(runs: Seq<(Seq<char>, Style)>, style: Style) -> Seq<
    (Seq<char>, Style),
> {
    runs.map_values(|run: (Seq<char>, Style)| (run.0, run.1.patch_spec(style)))
}

/// Runs with a style added to the first.
pub open spec fn first_patched(runs: Seq<(Seq<char>, Style)>, style: Style) -> Seq<
    (Seq<char>, Style),
> {
    if runs.len() > 0 {
        runs.update(0, (runs[0].0, runs[0].1.patch_spec(style)))
    } else {
        runs
    }
}

/// Adding styles keeps the text.
proof fn lemma_patched_text(runs: Seq<(Seq<char>, Style)>, style: Style)
    ensures
        line_text(patched_runs(runs, style)) == line_text(runs),
    decreases runs.len(),
{
    if runs.len() > 0 {
        lemma_patched_text(runs.drop_last(), style);
        assert(patched_runs(runs, style).drop_last() =~= patched_runs(runs.drop_last(), style));
    }
}

proof fn lemma_first_patched_text(runs: Seq<(Seq<char>, Style)>, style: Style)
    ensures
        line_text(first_patched(runs, style)) == line_text(runs),
{
    if runs.len() > 0 {
        let out = first_patched(runs, style);
        assert(runs =~= seq![runs[0]] + runs.skip(1));
        assert(out =~= seq![out[0]] + runs.skip(1));
        lemma_line_text_add(seq![runs[0]], runs.skip(1));
        lemma_line_text_add(seq![out[0]], runs.skip(1));
        lemma_line_text_one(runs[0]);
        lemma_line_text_one(out[0]);
    }
}

fn patch_spans(spans: Vec<Span>, style: Style) -> (out: Vec<Span>)
    ensures
        line_view(out@) == patched_runs(line_view(spans@), style),
{
    let ghost whole = patched_runs(line_view(spans@), style);
    let mut out: Vec<Span> = Vec::new();
    let mut i: usize = 0;
    assert(line_view(out@) =~= whole.take(0));
    while i < spans.len()
        invariant
            i <= spans@.len(),
            whole == patched_runs(line_view(spans@), style),
            line_view(out@) == whole.take(i as int),
        decreases spans@.len() - i,
    {
        let span = Span::styled(spans[i].content.clone(), spans[i].style.patch(style));
        let ghost before = line_view(out@);
        let ghost shown = span@;
        out.push(span);
        proof {
            assert(line_view(out@) =~= before.push(shown));
            assert(line_view(spans@)[i as int] == spans@[i as int]@);
            assert(whole.take(i + 1) =~= whole.take(i as int).push(shown));
        }
        i += 1;
    }
    assert(whole.take(i as int) =~= whole);
    out
}

impl LogicalView {
    /// Whether the line belongs to the active block.
    pub open spec fn active(self, active: Option<CodeId>) -> bool {
        active is Some && active == self.code_id
    }

    /// A content in the styles of the block's state: code has a background, the
    /// line above the active block its color.
    pub open spec fn in_state(self, line: LineView, active: bool, theme: Theme) -> LineView {
        let code = plain().bg_spec(theme.code_background);
        if self.source is CodeBody {
            LineView { spans: patched_runs(line.spans, code), style: line.style.patch_spec(code) }
        } else if active && self.source is CodeInfo {
            LineView { spans: first_patched(line.spans, theme.active_fg()), style: line.style }
        } else {
            line
        }
    }

    /// A content behind its gutter.
    pub open spec fn in_gutter(
        self,
        line: LineView,
        active: bool,
        theme: Theme,
        prefer: Option<CodeId>,
    ) -> LineView {
        if self.gutter() {
            guttered(
                line,
                gutter_of(
                    line.style.bg,
                    self.source is Output,
                    active,
                    theme,
                    self.gutter_fg,
                    prefer == self.code_id,
                    self.is_running,
                ),
            )
        } else {
            line
        }
    }

    /// A line behind what stands in front of it.
    pub open spec fn prefixed(self, line: LineView) -> LineView {
        LineView { spans: self.prefixes + line.spans, style: line.style }
    }

    /// The line as it is shown.
    pub open spec fn shown(self, ctx: RenderContext<'_>, highlight: bool) -> LineView {
        let theme = *ctx.theme;
        let viewport = ctx.viewport_width as int;
        let active = self.active(ctx.active_code_id);
        match self.synthetic(theme, *ctx.painter, viewport) {
            Some(line) => self.prefixed(line),
            None => {
                let content = self.content(
                    theme,
                    *ctx.painter,
                    ctx.spinner_char,
                    viewport,
                    highlight,
                );
                self.prefixed(
                    self.in_gutter(
                        self.in_state(content, active, theme),
                        active,
                        theme,
                        ctx.prefer_status_gutter,
                    ),
                )
            },
        }
    }
}

/// Lines with the same text have it behind the same gutter and prefixes too.
proof fn lemma_shown_text(
    view: LogicalView,
    a: LineView,
    b: LineView,
    active: bool,
    theme: Theme,
    prefer: Option<CodeId>,
)
    requires
        a.text() == b.text(),
        view.gutter() ==> (a.spans.len() == 0 <==> b.spans.len() == 0),
    ensures
        view.prefixed(view.in_gutter(view.in_state(a, active, theme), active, theme, prefer)).text()
            == view.prefixed(
            view.in_gutter(view.in_state(b, active, theme), active, theme, prefer),
        ).text(),
{
    let code = plain().bg_spec(theme.code_background);
    lemma_patched_text(a.spans, code);
    lemma_patched_text(b.spans, code);
    lemma_first_patched_text(a.spans, theme.active_fg());
    lemma_first_patched_text(b.spans, theme.active_fg());
    let sa = view.in_state(a, active, theme);
    let sb = view.in_state(b, active, theme);
    assert(sa.text() == sb.text());
    let ga = view.in_gutter(sa, active, theme, prefer);
    let gb = view.in_gutter(sb, active, theme, prefer);
    if view.gutter() {
        lemma_guttered_text(sa, ga.spans[0].1);
        lemma_guttered_text(sb, gb.spans[0].1);
    }
    lemma_line_text_add(view.prefixes, ga.spans);
    lemma_line_text_add(view.prefixes, gb.spans);
}

/// The text of a line behind a gutter.
proof fn lemma_guttered_text(line: LineView, gutter: Style)
    ensures
        guttered(line, gutter).text() == (if line.spans.len() > 0 {
            GUTTER_GLYPH@ + " "@ + line.text()
        } else {
            GUTTER_GLYPH@ + line.text()
        }),
{
    let glyph = seq![(GUTTER_GLYPH@, gutter)];
    let both = seq![(GUTTER_GLYPH@, gutter), (" "@, plain())];
    lemma_line_text_one((GUTTER_GLYPH@, gutter));
    assert(both.drop_last() =~= glyph);
    assert(line_text(both) == GUTTER_GLYPH@ + " "@);
    lemma_line_text_add(glyph, line.spans);
    lemma_line_text_add(both, line.spans);
}

impl LogicalLine {
    fn apply_content_style(&self, line: Line, active: bool, theme: &Theme) -> (out: Line)
        ensures
            out@ == self@.in_state(line@, active, *theme),
    {
        if self.is_code_body() {
            let code = theme.code_style();
            return Line { spans: patch_spans(line.spans, code), style: line.style.patch(code) };
        }
        if active && self.is_code_info() && line.spans.len() > 0 {
            let mut spans = line.spans;
            let ghost before = line_view(spans@);
            let first = Span::styled(
                spans[0].content.clone(),
                spans[0].style.patch(theme.active_fg_style()),
            );
            let ghost shown = first@;
            spans.set(0, first);
            proof {
                assert(before[0] == line.spans@[0]@);
                assert(line_view(spans@) =~= before.update(0, shown));
            }
            return Line { spans, style: line.style };
        }
        assert(line_view(line.spans@).len() == line.spans@.len());
        line
    }

    fn add_gutter(&self, line: Line, active: bool, ctx: &RenderContext<'_>) -> (out: Line)
        ensures
            out@ == self@.in_gutter(line@, active, *ctx.theme, ctx.prefer_status_gutter),
    {
        if !self.has_code_gutter() {
            return line;
        }
        apply_gutter(
            line,
            self.is_output(),
            active,
            ctx.theme,
            self.gutter_fg,
            ctx.prefer_status_gutter == self.code_id,
            self.is_running,
        )
    }

    fn apply_prefixes(&self, line: Line) -> (out: Line)
        ensures
            out@ == self@.prefixed(line@),
    {
        let mut spans = copy_spans(&self.prefixes);
        move_spans(&mut spans, line.spans);
        Line { spans, style: line.style }
    }

    fn render_with(&self, ctx: &RenderContext<'_>, highlight: bool) -> (line: Line)
        requires
            self.source.wf(),
        ensures
            line@ == self@.shown(*ctx, highlight),
            self@.keeps_text() ==> line@.text() == self@.shown(*ctx, false).text(),
    {
        if let Some(line) = self.render_synthetic(ctx) {
            return self.apply_prefixes(line);
        }
        let active = ctx.active_code_id.is_some() && ctx.active_code_id == self.code_id;
        let content = self.render_content(ctx, highlight);
        proof {
            if self@.keeps_text() {
                lemma_shown_text(
                    self@,
                    content@,
                    self@.content(
                        *ctx.theme,
                        *ctx.painter,
                        ctx.spinner_char,
                        ctx.viewport_width as int,
                        false,
                    ),
                    active,
                    *ctx.theme,
                    ctx.prefer_status_gutter,
                );
            }
        }
        let styled = self.apply_content_style(content, active, ctx.theme);
        let guttered_line = self.add_gutter(styled, active, ctx);
        self.apply_prefixes(guttered_line)
    }

    /// Renders the line: content, styles of the block's state, gutter and what
    /// stands in front. It has the same characters, in the same order, as without
    /// highlighting.
    pub fn render(&self, ctx: &RenderContext<'_>) -> (line: Line)
        requires
            self.source.wf(),
        ensures
            line@ == self@.shown(*ctx, true),
            self@.keeps_text() ==> line@.text() == self@.shown(*ctx, false).text(),
    {
        self.render_with(ctx, true)
    }

    /// Renders the line without highlighting, to measure it.
    pub fn render_plain(&self, ctx: &RenderContext<'_>) -> (line: Line)
        requires
            self.source.wf(),
        ensures
            line@ == self@.shown(*ctx, false),
    {
        self.render_with(ctx, false)
    }
}

impl SourceView {
    /// The content with another text that is rendered on demand.
    pub open spec fn with_lazy(self, text: TextView) -> SourceView {
        match self {
            SourceView::Text(_) => SourceView::Text(text),
            SourceView::ListItem(_) => SourceView::ListItem(text),
            SourceView::CodeBody(_) => SourceView::CodeBody(text),
            SourceView::Heading { level, .. } => SourceView::Heading { level, text },
            _ => self,
        }
    }
}

impl LogicalView {
    /// The line with a cleared cache.
    pub open spec fn uncached(self) -> LogicalView {
        match self.source.lazy() {
            Some(text) => LogicalView {
                source: self.source.with_lazy(TextView { cached: None, ..text }),
                ..self
            },
            None => self,
        }
    }

    /// The line with its text rendered.
    pub open spec fn cached(self, painter: Painter, theme: Theme) -> LogicalView {
        match self.source.lazy() {
            Some(text) => if text.cached is None {
                LogicalView {
                    source: self.source.with_lazy(
                        TextView {
                            cached: Some(text.computed(self.source is Heading, painter, theme)),
                            ..text
                        },
                    ),
                    ..self
                }
            } else {
                self
            },
            None => self,
        }
    }
}

/// Keeping what was rendered does not change what is shown.
pub proof fn law_cache_is_transparent(view: LogicalView, ctx: RenderContext<'_>, highlight: bool)
    ensures
        view.cached(*ctx.painter, *ctx.theme).shown(ctx, highlight) == view.shown(ctx, highlight),
{
    let theme = *ctx.theme;
    let viewport = ctx.viewport_width as int;
    let after = view.cached(*ctx.painter, theme);
    let active = view.active(ctx.active_code_id);
    if view.source.lazy() is Some {
        let text = view.source.lazy()->0;
        let now = after.source.lazy()->0;
        assert(now.text == text.text);
        assert(now.rendered(view.source is Heading, *ctx.painter, theme) == text.rendered(
            view.source is Heading,
            *ctx.painter,
            theme,
        ));
        let content = view.content(theme, *ctx.painter, ctx.spinner_char, viewport, highlight);
        assert(after.content(theme, *ctx.painter, ctx.spinner_char, viewport, highlight) == content);
        assert(after.synthetic(theme, *ctx.painter, viewport) is None);
        assert(view.synthetic(theme, *ctx.painter, viewport) is None);
        lemma_same_frame(view, after, content, active, theme, ctx.prefer_status_gutter);
    }
}

/// The styles and the frame around a content depend on its kind only.
proof fn lemma_same_frame(
    a: LogicalView,
    b: LogicalView,
    line: LineView,
    active: bool,
    theme: Theme,
    prefer: Option<CodeId>,
)
    requires
        a.source is CodeBody <==> b.source is CodeBody,
        a.source is CodeInfo <==> b.source is CodeInfo,
        a.source is Output <==> b.source is Output,
        a.prefixes == b.prefixes,
        a.gutter_fg == b.gutter_fg,
        a.code_id == b.code_id,
        a.is_running == b.is_running,
    ensures
        a.prefixed(a.in_gutter(a.in_state(line, active, theme), active, theme, prefer))
            == b.prefixed(b.in_gutter(b.in_state(line, active, theme), active, theme, prefer)),
{
    assert(a.in_state(line, active, theme) == b.in_state(line, active, theme));
}

impl LogicalLine {
    /// Renders the text and keeps it, unless that was done before.
    pub fn ensure_rendered(&mut self, ctx: &RenderContext<'_>) -> (done: bool)
        requires
            old(self).source.wf(),
        ensures
            final(self).source.wf(),
            done == (old(self)@.source.lazy() is Some && old(self)@.source.lazy()->0.cached is None),
            final(self)@ == old(self)@.cached(*ctx.painter, *ctx.theme),
    {
        match &mut self.source {
            LogicalLineSource::Text(text) => text.ensure_rendered(false, ctx),
            LogicalLineSource::ListItem(text) => text.ensure_rendered(false, ctx),
            LogicalLineSource::CodeBody(text) => text.ensure_rendered(false, ctx),
            LogicalLineSource::Heading { text, .. } => text.ensure_rendered(true, ctx),
            _ => false,
        }
    }

    /// Forgets what the text was rendered to, so that it is rendered in the
    /// current theme.
    pub fn clear_cache(&mut self)
        ensures
            old(self).source.wf() ==> final(self).source.wf(),
            final(self)@ == old(self)@.uncached(),
    {
        match &mut self.source {
            LogicalLineSource::Text(text) => text.clear_cache(),
            LogicalLineSource::ListItem(text) => text.clear_cache(),
            LogicalLineSource::CodeBody(text) => text.clear_cache(),
            LogicalLineSource::Heading { text, .. } => text.clear_cache(),
            _ => {},
        }
    }
}

} // verus!
