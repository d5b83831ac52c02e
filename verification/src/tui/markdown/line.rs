//! Lines of a document before they are wrapped.

use std::rc::Rc;

use vstd::prelude::*;

use crate::code::CodeId;
use crate::style::{line_view, line_views, Color, Line, LineView, Span, Style};
use crate::text::{lines_of, strings_view, text_lines};
use crate::tui::markdown::inline::{
    expanded, inline_chars, inline_text, inline_view, single_line, InlineSpan, InlineView,
};
use crate::tui::markdown::table::{Table, TableView};

verus! {

/// How many blanks may stand in front of a block quote's marker.
pub const MAX_BLOCKQUOTE_MARKER_INDENT: usize = 3;

/// How the preview shows a document.
#[derive(Clone, Copy, Debug, PartialEq, Eq, Structural)]
pub enum RenderMode {
    /// Task glyphs, styled links, decoded images.
    Visual,
    /// The Markdown source, with interactive code blocks.
    Markup,
}

/// `Rc::clone`: another pointer to the same value.
#[verifier::external_body]
pub(crate) fn share<T>(value: &Rc<T>) -> (shared: Rc<T>)
    ensures
        shared == *value,
{
    Rc::clone(value)
}

/// Text that is rendered on demand.
pub struct LazyText {
    pub text: String,
    pub language: String,
    /// Inline formatting of the text; none where it is highlighted as code.
    pub spans: Vec<InlineSpan>,
    /// What the text was rendered to.
    pub cached: Option<Vec<Line>>,
}

/// Contents of a text that is rendered on demand.
pub struct TextView {
    pub text: Seq<char>,
    pub language: Seq<char>,
    pub spans: Seq<InlineView>,
    pub cached: Option<Seq<LineView>>,
}

impl View for LazyText {
    type V = TextView;

    open spec fn view(&self) -> TextView {
        TextView {
            text: self.text@,
            language: self.language@,
            spans: inline_view(self.spans@),
            cached: match self.cached {
                Some(lines) => Some(line_views(lines@)),
                None => None,
            },
        }
    }
}

impl TextView {
    /// What is derived from the text agrees with it: formatted pieces make up the
    /// text, and so does what it was rendered to.
    pub open spec fn wf(self) -> bool {
        &&& self.spans.len() > 0 ==> self.text == inline_chars(self.spans)
        &&& self.cached matches Some(lines) ==> self.renders_to(lines)
    }

    /// Lines that show the text: the first has the text, with blanks in place of
    /// tabs.
    pub open spec fn renders_to(self, lines: Seq<LineView>) -> bool {
        &&& single_line(self.text) && lines.len() > 0 ==> lines[0].text() == expanded(self.text, 0)
        &&& self.text.len() == 0 && self.spans.len() == 0 ==> lines.len() == 0
    }

    /// A text in a language.
    pub open spec fn code(text: Seq<char>, language: Seq<char>) -> TextView {
        TextView { text, language, spans: Seq::empty(), cached: None }
    }

    /// A formatted text.
    pub open spec fn of_spans(spans: Seq<InlineView>) -> TextView {
        TextView { text: inline_chars(spans), language: "markdown"@, spans, cached: None }
    }
}

impl LazyText {
    /// A text in a language.
    pub fn new(text: String, language: String) -> (lazy: LazyText)
        ensures
            lazy@ == TextView::code(text@, language@),
    {
        let lazy = LazyText { text, language, spans: Vec::new(), cached: None };
        assert(lazy@.spans =~= Seq::empty());
        lazy
    }

    /// A text in Markdown.
    pub fn markdown(text: String) -> (lazy: LazyText)
        ensures
            lazy@ == TextView::code(text@, "markdown"@),
    {
        LazyText::new(text, "markdown".to_owned())
    }

    /// A formatted text.
    pub fn from_spans(spans: Vec<InlineSpan>) -> (lazy: LazyText)
        ensures
            lazy@ == TextView::of_spans(inline_view(spans@)),
    {
        LazyText {
            text: inline_text(&spans),
            language: "markdown".to_owned(),
            spans,
            cached: None,
        }
    }
}

/// A line of a text, empty where it has none such.
pub open spec fn nth_line(lines: Seq<Seq<char>>, row: int) -> Seq<char> {
    if 0 <= row < lines.len() {
        lines[row]
    } else {
        Seq::empty()
    }
}

fn nth(lines: &Vec<String>, row: usize) -> (line: String)
    ensures
        line@ == nth_line(strings_view(lines@), row as int),
{
    if row < lines.len() {
        assert(strings_view(lines@)[row as int] == lines@[row as int]@);
        lines[row].clone()
    } else {
        let line = String::new();
        assert(line@ =~= Seq::empty());
        line
    }
}

/// A block of HTML.
pub struct MarkdownHtml {
    pub source: String,
    pub lines: Vec<String>,
}

impl MarkdownHtml {
    /// The lines are those of the source.
    pub open spec fn wf(&self) -> bool {
        strings_view(self.lines@) == text_lines(self.source@)
    }

    /// A block of HTML.
    pub fn new(source: String) -> (block: MarkdownHtml)
        ensures
            block.wf(),
            block.source@ == source@,
    {
        let lines = lines_of(source.as_str());
        MarkdownHtml { source, lines }
    }

    /// A line of the source.
    pub fn raw_line(&self, row: usize) -> (line: String)
        requires
            self.wf(),
        ensures
            line@ == nth_line(text_lines(self.source@), row as int),
    {
        nth(&self.lines, row)
    }
}

/// The format of a document's metadata.
#[derive(Clone, Copy, Debug, PartialEq, Eq, Structural)]
pub enum FrontmatterStyle {
    Yaml,
    Toml,
}

impl FrontmatterStyle {
    /// The line around the metadata.
    pub open spec fn fence(self) -> Seq<char> {
        match self {
            FrontmatterStyle::Yaml => "---"@,
            FrontmatterStyle::Toml => "+++"@,
        }
    }

    /// The language of the metadata.
    pub open spec fn language(self) -> Seq<char> {
        match self {
            FrontmatterStyle::Yaml => "yaml"@,
            FrontmatterStyle::Toml => "toml"@,
        }
    }

    /// The line around the metadata.
    pub fn delimiter(self) -> (text: &'static str)
        ensures
            text@ == self.fence(),
    {
        match self {
            FrontmatterStyle::Yaml => "---",
            FrontmatterStyle::Toml => "+++",
        }
    }

    /// The language of the metadata.
    pub fn language_name(self) -> (text: &'static str)
        ensures
            text@ == self.language(),
    {
        match self {
            FrontmatterStyle::Yaml => "yaml",
            FrontmatterStyle::Toml => "toml",
        }
    }
}

/// Metadata at the start of a document.
pub struct FrontmatterBlock {
    pub raw: String,
    pub style: FrontmatterStyle,
    pub lines: Vec<String>,
}

/// The lines of metadata with those around it.
pub open spec fn frontmatter_lines(style: FrontmatterStyle, raw: Seq<char>) -> Seq<Seq<char>> {
    (seq![style.fence()] + text_lines(raw)).push(style.fence())
}

impl FrontmatterBlock {
    /// The lines are those of the metadata with those around it.
    pub open spec fn wf(&self) -> bool {
        strings_view(self.lines@) == frontmatter_lines(self.style, self.raw@)
    }

    /// Metadata of a format.
    pub fn new(style: FrontmatterStyle, raw: String) -> (block: FrontmatterBlock)
        ensures
            block.wf(),
            block.raw@ == raw@,
            block.style == style,
    {
        let mut inner = lines_of(raw.as_str());
        let ghost middle = inner@;
        let mut lines: Vec<String> = Vec::new();
        lines.push(style.delimiter().to_owned());
        lines.append(&mut inner);
        lines.push(style.delimiter().to_owned());
        proof {
            let view = strings_view(lines@);
            let goal = frontmatter_lines(style, raw@);
            assert(view.len() == middle.len() + 2);
            assert forall|i: int| 0 <= i < view.len() implies view[i] == goal[i] by {
                if 0 < i <= middle.len() {
                    assert(lines@[i] == middle[i - 1]);
                    assert(strings_view(middle)[i - 1] == middle[i - 1]@);
                }
            }
            assert(view =~= goal);
        }
        FrontmatterBlock { raw, style, lines }
    }

    /// A line of the block.
    pub fn raw_line(&self, row: usize) -> (line: String)
        requires
            self.wf(),
        ensures
            line@ == nth_line(frontmatter_lines(self.style, self.raw@), row as int),
    {
        nth(&self.lines, row)
    }
}

/// The line above a code block: what stands at its left and at its right.
pub struct CodeInfoLine {
    pub left: Vec<Span>,
    pub right: String,
    pub style: Style,
}

/// Contents of the line above a code block.
pub struct InfoView {
    pub left: Seq<(Seq<char>, Style)>,
    pub right: Seq<char>,
    pub style: Style,
}

impl View for CodeInfoLine {
    type V = InfoView;

    open spec fn view(&self) -> InfoView {
        InfoView { left: line_view(self.left@), right: self.right@, style: self.style }
    }
}

/// What a line holds.
pub enum LogicalLineSource {
    Text(LazyText),
    ListItem(LazyText),
    Heading { level: u8, text: LazyText },
    CodeInfo(CodeInfoLine),
    CodeBody(LazyText),
    Output(Vec<Line>),
    /// One row of an HTML block.
    Html { block: Rc<MarkdownHtml>, row_idx: usize },
    /// One row of a document's metadata.
    Frontmatter { block: Rc<FrontmatterBlock>, row_idx: usize },
    /// One row of a table, and how it looked at first.
    TableRow { table: Rc<Table>, row_idx: usize, initial: Line },
    /// An image in a block of its own.
    Image { alt: String, src: String },
    ThematicBreak,
    Newline,
}

/// Contents of what a line holds.
pub enum SourceView {
    Text(TextView),
    ListItem(TextView),
    Heading { level: u8, text: TextView },
    CodeInfo(InfoView),
    CodeBody(TextView),
    Output(Seq<LineView>),
    Html { source: Seq<char>, row_idx: int },
    Frontmatter { style: FrontmatterStyle, raw: Seq<char>, row_idx: int },
    TableRow { table: TableView, row_idx: int, initial: LineView },
    Image { alt: Seq<char>, src: Seq<char> },
    ThematicBreak,
    Newline,
}

impl View for LogicalLineSource {
    type V = SourceView;

    open spec fn view(&self) -> SourceView {
        match self {
            LogicalLineSource::Text(text) => SourceView::Text(text@),
            LogicalLineSource::ListItem(text) => SourceView::ListItem(text@),
            LogicalLineSource::Heading { level, text } => SourceView::Heading {
                level: *level,
                text: text@,
            },
            LogicalLineSource::CodeInfo(info) => SourceView::CodeInfo(info@),
            LogicalLineSource::CodeBody(text) => SourceView::CodeBody(text@),
            LogicalLineSource::Output(lines) => SourceView::Output(line_views(lines@)),
            LogicalLineSource::Html { block, row_idx } => SourceView::Html {
                source: block.source@,
                row_idx: *row_idx as int,
            },
            LogicalLineSource::Frontmatter { block, row_idx } => SourceView::Frontmatter {
                style: block.style,
                raw: block.raw@,
                row_idx: *row_idx as int,
            },
            LogicalLineSource::TableRow { table, row_idx, initial } => SourceView::TableRow {
                table: table@,
                row_idx: *row_idx as int,
                initial: initial@,
            },
            LogicalLineSource::Image { alt, src } => SourceView::Image { alt: alt@, src: src@ },
            LogicalLineSource::ThematicBreak => SourceView::ThematicBreak,
            LogicalLineSource::Newline => SourceView::Newline,
        }
    }
}

impl SourceView {
    /// The text that is rendered on demand.
    pub open spec fn lazy(self) -> Option<TextView> {
        match self {
            SourceView::Text(text) => Some(text),
            SourceView::ListItem(text) => Some(text),
            SourceView::CodeBody(text) => Some(text),
            SourceView::Heading { level, text } => Some(text),
            _ => None,
        }
    }
}

impl LogicalLineSource {
    /// What is derived from the content agrees with it.
    pub open spec fn wf(&self) -> bool {
        match self {
            LogicalLineSource::Html { block, .. } => block.wf(),
            LogicalLineSource::Frontmatter { block, .. } => block.wf(),
            LogicalLineSource::TableRow { table, .. } => table@.fits(),
            LogicalLineSource::CodeBody(text) => text@.wf() && text@.spans.len() == 0,
            LogicalLineSource::Text(text) => text@.wf(),
            LogicalLineSource::ListItem(text) => text@.wf(),
            LogicalLineSource::Heading { text, .. } => text@.wf(),
            _ => true,
        }
    }

    /// The text that is rendered on demand.
    pub fn lazy_text(&self) -> (text: Option<&LazyText>)
        ensures
            text is Some <==> self@.lazy() is Some,
            text matches Some(t) ==> self@.lazy() == Some(t@),
    {
        match self {
            LogicalLineSource::Text(text) => Some(text),
            LogicalLineSource::ListItem(text) => Some(text),
            LogicalLineSource::CodeBody(text) => Some(text),
            LogicalLineSource::Heading { text, .. } => Some(text),
            _ => None,
        }
    }
}

/// One line of a document, whatever the width of the terminal.
pub struct LogicalLine {
    pub source: LogicalLineSource,
    pub code_id: Option<CodeId>,
    pub is_block_start: bool,
    pub is_code_start: bool,
    /// Whether the code block of the line is running.
    pub is_running: bool,
    /// What stands in front of the content, each with its own style.
    pub prefixes: Vec<Span>,
    /// How many characters at the start are repeated on wrapped rows.
    pub wrap_prefix_width: usize,
    /// What stands in front of wrapped rows, where that is not the start of the
    /// line.
    pub wrap_prefixes: Option<Vec<Span>>,
    /// A color for the gutter, such as that of the block's status.
    pub gutter_fg: Option<Color>,
    /// The number of the document's node that the line comes from.
    pub node_idx: Option<usize>,
}

/// Contents of a line of a document.
pub struct LogicalView {
    pub source: SourceView,
    pub code_id: Option<CodeId>,
    pub is_block_start: bool,
    pub is_code_start: bool,
    pub is_running: bool,
    pub prefixes: Seq<(Seq<char>, Style)>,
    pub wrap_prefix_width: int,
    pub wrap_prefixes: Option<Seq<(Seq<char>, Style)>>,
    pub gutter_fg: Option<Color>,
    pub node_idx: Option<usize>,
}

/// Some runs, where there are any.
pub open spec fn runs_view(spans: Option<Vec<Span>>) -> Option<Seq<(Seq<char>, Style)>> {
    match spans {
        Some(spans) => Some(line_view(spans@)),
        None => None,
    }
}

impl View for LogicalLine {
    type V = LogicalView;

    open spec fn view(&self) -> LogicalView {
        LogicalView {
            source: self.source@,
            code_id: self.code_id,
            is_block_start: self.is_block_start,
            is_code_start: self.is_code_start,
            is_running: self.is_running,
            prefixes: line_view(self.prefixes@),
            wrap_prefix_width: self.wrap_prefix_width as int,
            wrap_prefixes: runs_view(self.wrap_prefixes),
            gutter_fg: self.gutter_fg,
            node_idx: self.node_idx,
        }
    }
}

/// Contents of some lines of a document.
pub open spec fn logical_views(lines: Seq<LogicalLine>) -> Seq<LogicalView> {
    lines.map_values(|line: LogicalLine| line@)
}

/// The lines are valid.
pub open spec fn lines_wf(lines: Seq<LogicalLine>) -> bool {
    forall|i: int| 0 <= i < lines.len() ==> (#[trigger] lines[i]).source.wf()
}

/// Where the markers of block quotes at the start of a source line end: each up to
/// three blanks, `>`, and a blank or tab.
pub open spec fn quote_end(text: Seq<char>, at: int) -> int
    decreases text.len() - at,
{
    let spaces = leading_blanks(text, at, MAX_BLOCKQUOTE_MARKER_INDENT as nat);
    if 0 <= at && at + spaces < text.len() && text[at + spaces] == '>' {
        let next = at + spaces + 1;
        if next < text.len() && (text[next] == ' ' || text[next] == '\t') {
            quote_end(text, next + 1)
        } else {
            quote_end(text, next)
        }
    } else {
        at
    }
}

/// How many blanks stand at a place, up to a limit.
pub open spec fn leading_blanks(text: Seq<char>, at: int, limit: nat) -> nat
    decreases limit,
{
    if limit > 0 && 0 <= at < text.len() && text[at] == ' ' {
        1 + leading_blanks(text, at + 1, (limit - 1) as nat)
    } else {
        0
    }
}

fn count_blanks(chars: &Vec<char>, at: usize, limit: usize) -> (n: usize)
    requires
        at <= chars@.len(),
    ensures
        n == leading_blanks(chars@, at as int, limit as nat),
        n <= chars@.len() - at,
{
    let mut n: usize = 0;
    while n < limit && n < chars.len() - at && chars[at + n] == ' '
        invariant
            at <= chars@.len(),
            n <= limit,
            n <= chars@.len() - at,
            leading_blanks(chars@, at as int, limit as nat) == n + leading_blanks(
                chars@,
                at + n,
                (limit - n) as nat,
            ),
        decreases limit - n,
    {
        n += 1;
    }
    n
}

/// How wide the markers of block quotes at the start of a source line are.
pub fn source_quote_width(text: &str) -> (width: usize)
    ensures
        width == quote_end(text@, 0),
        width <= text@.len(),
{
    let chars = crate::text::chars_of(text);
    let mut at: usize = 0;
    loop
        invariant
            at <= chars@.len(),
            chars@ == text@,
            quote_end(text@, 0) == quote_end(text@, at as int),
        ensures
            at <= chars@.len(),
            quote_end(text@, 0) == at,
        decreases chars@.len() - at,
    {
        let spaces = count_blanks(&chars, at, MAX_BLOCKQUOTE_MARKER_INDENT);
        if spaces >= chars.len() - at || chars[at + spaces] != '>' {
            break ;
        }
        at = at + spaces + 1;
        if at < chars.len() && (chars[at] == ' ' || chars[at] == '\t') {
            at += 1;
        }
    }
    at
}

impl LogicalView {
    /// A line with nothing but a content.
    pub open spec fn holding(source: SourceView) -> LogicalView {
        LogicalView {
            source,
            code_id: None,
            is_block_start: false,
            is_code_start: false,
            is_running: false,
            prefixes: Seq::empty(),
            wrap_prefix_width: 0,
            wrap_prefixes: None,
            gutter_fg: None,
            node_idx: None,
        }
    }

    /// A line of Markdown source.
    pub open spec fn of_markup(text: Seq<char>, is_block_start: bool) -> LogicalView {
        LogicalView {
            wrap_prefix_width: quote_end(text, 0),
            is_block_start,
            ..LogicalView::holding(SourceView::Text(TextView::code(text, "markdown"@)))
        }
    }

    /// A list item behind a marker.
    pub open spec fn of_item(
        spans: Seq<InlineView>,
        prefix: (Seq<char>, Style),
        wrap_prefix: (Seq<char>, Style),
        is_block_start: bool,
    ) -> LogicalView {
        LogicalView {
            is_block_start,
            prefixes: seq![prefix],
            wrap_prefixes: Some(seq![wrap_prefix]),
            ..LogicalView::holding(SourceView::ListItem(TextView::of_spans(spans)))
        }
    }
}

impl LogicalLine {
    /// A line with nothing but a content.
    pub fn holding(source: LogicalLineSource) -> (line: LogicalLine)
        ensures
            line@ == LogicalView::holding(source@),
            line.source == source,
    {
        let line = LogicalLine {
            source,
            code_id: None,
            is_block_start: false,
            is_code_start: false,
            is_running: false,
            prefixes: Vec::new(),
            wrap_prefix_width: 0,
            wrap_prefixes: None,
            gutter_fg: None,
            node_idx: None,
        };
        assert(line@.prefixes =~= Seq::empty());
        line
    }

    /// An empty line.
    pub fn newline() -> (line: LogicalLine)
        ensures
            line@ == LogicalView::holding(SourceView::Newline),
            line.source.wf(),
    {
        LogicalLine::holding(LogicalLineSource::Newline)
    }

    /// A line of formatted text.
    pub fn text_lazy_spans(spans: Vec<InlineSpan>, is_block_start: bool) -> (line: LogicalLine)
        ensures
            line@ == (LogicalView {
                is_block_start,
                ..LogicalView::holding(
                    SourceView::Text(TextView::of_spans(inline_view(spans@))),
                )
            }),
            line.source.wf(),
    {
        let mut line = LogicalLine::holding(LogicalLineSource::Text(LazyText::from_spans(spans)));
        line.is_block_start = is_block_start;
        line
    }

    /// A list item of formatted text behind a marker.
    pub fn list_item_spans(
        spans: Vec<InlineSpan>,
        prefix: Span,
        wrap_prefix: Span,
        is_block_start: bool,
    ) -> (line: LogicalLine)
        ensures
            line@ == LogicalView::of_item(
                inline_view(spans@),
                prefix@,
                wrap_prefix@,
                is_block_start,
            ),
            line.source.wf(),
    {
        let mut line = LogicalLine::holding(
            LogicalLineSource::ListItem(LazyText::from_spans(spans)),
        );
        line.is_block_start = is_block_start;
        line.prefixes.push(prefix);
        let mut wrap: Vec<Span> = Vec::new();
        wrap.push(wrap_prefix);
        proof {
            assert(line_view(line.prefixes@) =~= seq![prefix@]);
            assert(line_view(wrap@) =~= seq![wrap_prefix@]);
        }
        line.wrap_prefixes = Some(wrap);
        line
    }

    /// A heading.
    pub fn heading_lazy_spans(spans: Vec<InlineSpan>, level: u8) -> (line: LogicalLine)
        ensures
            line@ == (LogicalView {
                is_block_start: true,
                ..LogicalView::holding(
                    SourceView::Heading { level, text: TextView::of_spans(inline_view(spans@)) },
                )
            }),
            line.source.wf(),
    {
        let mut line = LogicalLine::holding(
            LogicalLineSource::Heading { level, text: LazyText::from_spans(spans) },
        );
        line.is_block_start = true;
        line
    }

    /// A line of Markdown source.
    pub fn markup_text(text: String, is_block_start: bool) -> (line: LogicalLine)
        ensures
            line@ == LogicalView::of_markup(text@, is_block_start),
            line.source.wf(),
    {
        let width = source_quote_width(text.as_str());
        let mut line = LogicalLine::holding(LogicalLineSource::Text(LazyText::markdown(text)));
        line.wrap_prefix_width = width;
        line.is_block_start = is_block_start;
        line
    }

    /// The line above a code block.
    pub fn code_info(
        left: Vec<Span>,
        right: String,
        style: Style,
        code_id: CodeId,
        is_start: bool,
        is_running: bool,
    ) -> (line: LogicalLine)
        ensures
            line@ == (LogicalView {
                code_id: Some(code_id),
                is_block_start: is_start,
                is_code_start: is_start,
                is_running,
                ..LogicalView::holding(
                    SourceView::CodeInfo(
                        InfoView { left: line_view(left@), right: right@, style },
                    ),
                )
            }),
            line.source.wf(),
    {
        let mut line = LogicalLine::holding(
            LogicalLineSource::CodeInfo(CodeInfoLine { left, right, style }),
        );
        line.code_id = Some(code_id);
        line.is_block_start = is_start;
        line.is_code_start = is_start;
        line.is_running = is_running;
        line
    }

    /// A line of code.
    pub fn code_body(raw: String, language: String, code_id: CodeId) -> (line: LogicalLine)
        ensures
            line@ == (LogicalView {
                code_id: Some(code_id),
                ..LogicalView::holding(SourceView::CodeBody(TextView::code(raw@, language@)))
            }),
            line.source.wf(),
    {
        let mut line = LogicalLine::holding(
            LogicalLineSource::CodeBody(LazyText::new(raw, language)),
        );
        line.code_id = Some(code_id);
        line
    }

    /// A line of output.
    pub fn output(content: Vec<Line>, code_id: CodeId) -> (line: LogicalLine)
        ensures
            line@ == (LogicalView {
                code_id: Some(code_id),
                ..LogicalView::holding(SourceView::Output(line_views(content@)))
            }),
            line.source.wf(),
    {
        let mut line = LogicalLine::holding(LogicalLineSource::Output(content));
        line.code_id = Some(code_id);
        line
    }

    /// One row of an HTML block.
    pub fn html(block: Rc<MarkdownHtml>, row_idx: usize, is_block_start: bool) -> (line: LogicalLine)
        requires
            block.wf(),
        ensures
            line@ == (LogicalView {
                is_block_start,
                ..LogicalView::holding(
                    SourceView::Html { source: block.source@, row_idx: row_idx as int },
                )
            }),
            line.source.wf(),
    {
        let mut line = LogicalLine::holding(LogicalLineSource::Html { block, row_idx });
        line.is_block_start = is_block_start;
        line
    }

    /// One row of a document's metadata.
    pub fn frontmatter(block: Rc<FrontmatterBlock>, row_idx: usize, is_block_start: bool) -> (line:
        LogicalLine)
        requires
            block.wf(),
        ensures
            line@ == (LogicalView {
                is_block_start,
                ..LogicalView::holding(
                    SourceView::Frontmatter {
                        style: block.style,
                        raw: block.raw@,
                        row_idx: row_idx as int,
                    },
                )
            }),
            line.source.wf(),
    {
        let mut line = LogicalLine::holding(LogicalLineSource::Frontmatter { block, row_idx });
        line.is_block_start = is_block_start;
        line
    }

    /// One row of a table.
    pub fn table(table: Rc<Table>, row_idx: usize, initial: Line) -> (line: LogicalLine)
        requires
            table@.fits(),
        ensures
            line@ == LogicalView::holding(
                SourceView::TableRow { table: table@, row_idx: row_idx as int, initial: initial@ },
            ),
            line.source.wf(),
    {
        LogicalLine::holding(LogicalLineSource::TableRow { table, row_idx, initial })
    }

    /// A horizontal rule.
    pub fn thematic_break() -> (line: LogicalLine)
        ensures
            line@ == (LogicalView {
                is_block_start: true,
                ..LogicalView::holding(SourceView::ThematicBreak)
            }),
            line.source.wf(),
    {
        let mut line = LogicalLine::holding(LogicalLineSource::ThematicBreak);
        line.is_block_start = true;
        line
    }

    /// The rule below a heading.
    pub fn heading_rule() -> (line: LogicalLine)
        ensures
            line@ == LogicalView::holding(SourceView::ThematicBreak),
            line.source.wf(),
    {
        LogicalLine::holding(LogicalLineSource::ThematicBreak)
    }

    /// An image in a block of its own.
    pub fn image(alt: String, src: String) -> (line: LogicalLine)
        ensures
            line@ == (LogicalView {
                is_block_start: true,
                ..LogicalView::holding(SourceView::Image { alt: alt@, src: src@ })
            }),
            line.source.wf(),
    {
        let mut line = LogicalLine::holding(LogicalLineSource::Image { alt, src });
        line.is_block_start = true;
        line
    }
}

/// What is repeated in front of wrapped markup ends behind the last marker of the block
/// quotes that the line is in: one marker more makes it longer, and text without a marker
/// has none.
pub proof fn law_quote_markers_are_repeated(text: Seq<char>, at: int)
    requires
        0 <= at <= text.len(),
    ensures
        at <= quote_end(text, at) <= text.len(),
        at < text.len() && text[at] != '>' && text[at] != ' ' ==> quote_end(text, at) == at,
        at < text.len() && text[at] == '>' ==> quote_end(text, at) > at,
        quote_end(text, at) > at ==> text.subrange(at, quote_end(text, at)).contains('>'),
    decreases text.len() - at,
{
    lemma_blanks_within(text, at, MAX_BLOCKQUOTE_MARKER_INDENT as nat);
    let spaces = leading_blanks(text, at, MAX_BLOCKQUOTE_MARKER_INDENT as nat);
    if at + spaces < text.len() && text[at + spaces] == '>' {
        let next = at + spaces + 1;
        if next < text.len() && (text[next] == ' ' || text[next] == '\t') {
            law_quote_markers_are_repeated(text, next + 1);
        } else {
            law_quote_markers_are_repeated(text, next);
        }
        let part = text.subrange(at, quote_end(text, at));
        assert(part[spaces as int] == '>');
    }
}

proof fn lemma_blanks_within(text: Seq<char>, at: int, limit: nat)
    requires
        0 <= at <= text.len(),
    ensures
        at + leading_blanks(text, at, limit) <= text.len(),
        at < text.len() && text[at] != ' ' ==> leading_blanks(text, at, limit) == 0,
        forall|i: int|
            at <= i < at + leading_blanks(text, at, limit) ==> #[trigger] text[i] == ' ',
    decreases limit,
{
    if limit > 0 && at < text.len() && text[at] == ' ' {
        lemma_blanks_within(text, at + 1, (limit - 1) as nat);
    }
}

} // verus!
