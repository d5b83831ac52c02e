//! Text with inline formatting.

use vstd::prelude::*;

use crate::highlight::{lines_texts, no_lone_return};
use crate::style::{
    crossed_out_only, lemma_line_text_add, lemma_line_text_one, line_text, line_view, lines_view,
    move_spans, plain, Line, LineView, Span, Style,
};
use crate::style::{bold_only, italic_only};
use crate::text::{
    char_width, chars_of, lemma_one_line, newline_at, repeat_char, repeated, string_of,
    width_of_char,
};
use crate::theme::Theme;
use crate::theme_library::Painter;

verus! {

/// Columns from one tab stop to the next.
pub const TAB_WIDTH: usize = 4;

/// Formatting of a piece of text.
#[derive(Clone, Copy, Debug, PartialEq, Eq, Structural)]
pub enum InlineStyle {
    Bold,
    Italic,
    Strikethrough,
    InlineCode,
    Link,
    Image,
    HtmlTag,
}

/// A piece of text with its formatting.
pub struct InlineSpan {
    pub text: String,
    pub style: Vec<InlineStyle>,
}

/// Contents of a formatted piece of text.
pub struct InlineView {
    pub text: Seq<char>,
    pub style: Seq<InlineStyle>,
}

impl View for InlineSpan {
    type V = InlineView;

    open spec fn view(&self) -> InlineView {
        InlineView { text: self.text@, style: self.style@ }
    }
}

/// Contents of some pieces of text.
pub open spec fn inline_view(spans: Seq<InlineSpan>) -> Seq<InlineView> {
    spans.map_values(|span: InlineSpan| span@)
}

/// The text of some pieces.
pub open spec fn inline_chars(spans: Seq<InlineView>) -> Seq<char>
    decreases spans.len(),
{
    if spans.len() == 0 {
        Seq::empty()
    } else {
        inline_chars(spans.drop_last()) + spans.last().text
    }
}

impl InlineSpan {
    /// A copy of the piece.
    pub fn copy(&self) -> (span: InlineSpan)
        ensures
            span@ == self@,
    {
        let mut style: Vec<InlineStyle> = Vec::new();
        style.extend_from_slice(self.style.as_slice());
        assert(style@ =~= self.style@);
        InlineSpan { text: self.text.clone(), style }
    }
}

/// Copies some pieces.
pub fn copy_inline(spans: &Vec<InlineSpan>) -> (copy: Vec<InlineSpan>)
    ensures
        inline_view(copy@) == inline_view(spans@),
{
    let mut copy: Vec<InlineSpan> = Vec::new();
    let ghost whole = inline_view(spans@);
    let mut i: usize = 0;
    assert(inline_view(copy@) =~= whole.take(0));
    while i < spans.len()
        invariant
            i <= spans@.len(),
            whole == inline_view(spans@),
            inline_view(copy@) == whole.take(i as int),
        decreases spans@.len() - i,
    {
        let ghost before = inline_view(copy@);
        let span = spans[i].copy();
        let ghost shown = span@;
        copy.push(span);
        assert(inline_view(copy@) =~= before.push(shown));
        assert(whole.take(i + 1) =~= whole.take(i as int).push(shown));
        i += 1;
    }
    assert(whole.take(i as int) =~= whole);
    copy
}

/// The text of some pieces.
pub fn inline_text(spans: &Vec<InlineSpan>) -> (text: String)
    ensures
        text@ == inline_chars(inline_view(spans@)),
{
    let mut text = String::new();
    let ghost whole = inline_view(spans@);
    let mut i: usize = 0;
    assert(whole.take(0) =~= Seq::empty());
    while i < spans.len()
        invariant
            i <= spans@.len(),
            whole == inline_view(spans@),
            text@ == inline_chars(whole.take(i as int)),
        decreases spans@.len() - i,
    {
        text.append(spans[i].text.as_str());
        proof {
            assert(whole.take(i + 1).drop_last() =~= whole.take(i as int));
            assert(whole.take(i + 1).last() == spans@[i as int]@);
        }
        i += 1;
    }
    assert(whole.take(i as int) =~= whole);
    text
}

/// Lines of formatted text that are being collected.
pub struct SplitView {
    pub lines: Seq<Seq<InlineView>>,
    pub current: Seq<InlineView>,
}

impl SplitView {
    /// Appends a text without newlines.
    pub open spec fn appended(self, text: Seq<char>, style: Seq<InlineStyle>) -> SplitView {
        if text.len() == 0 {
            self
        } else {
            SplitView { current: self.current.push(InlineView { text, style }), ..self }
        }
    }

    /// Ends the current line.
    pub open spec fn ended(self) -> SplitView {
        SplitView { lines: self.lines.push(self.current), current: Seq::empty() }
    }

    /// Appends a text; each newline ends a line.
    pub open spec fn taking(self, text: Seq<char>, style: Seq<InlineStyle>) -> SplitView
        decreases text.len(),
    {
        let n = newline_at(text);
        if n >= text.len() {
            self.appended(text, style)
        } else {
            self.appended(text.take(n as int), style).ended().taking(
                text.skip(n as int + 1),
                style,
            )
        }
    }

    /// The lines; a last one without text is none.
    pub open spec fn finished(self) -> Seq<Seq<InlineView>> {
        if self.current.len() == 0 {
            self.lines
        } else {
            self.lines.push(self.current)
        }
    }
}

/// Some pieces, taken one after the other.
pub open spec fn split_pieces(spans: Seq<InlineView>) -> SplitView
    decreases spans.len(),
{
    if spans.len() == 0 {
        SplitView { lines: Seq::empty(), current: Seq::empty() }
    } else {
        split_pieces(spans.drop_last()).taking(spans.last().text, spans.last().style)
    }
}

/// The pieces of each line.
pub open spec fn split_inline(spans: Seq<InlineView>) -> Seq<Seq<InlineView>> {
    split_pieces(spans).finished()
}

/// Contents of lines of formatted text.
pub open spec fn inline_lines_view(lines: Seq<Vec<InlineSpan>>) -> Seq<Seq<InlineView>> {
    lines.map_values(|line: Vec<InlineSpan>| inline_view(line@))
}

struct Split {
    lines: Vec<Vec<InlineSpan>>,
    current: Vec<InlineSpan>,
}

impl Split {
    spec fn view(&self) -> SplitView {
        SplitView { lines: inline_lines_view(self.lines@), current: inline_view(self.current@) }
    }

    fn append(&mut self, text: &[char], style: &Vec<InlineStyle>)
        ensures
            final(self).view() == old(self).view().appended(text@, style@),
    {
        if text.len() > 0 {
            let ghost before = inline_view(self.current@);
            let mut copied: Vec<InlineStyle> = Vec::new();
            copied.extend_from_slice(style.as_slice());
            assert(copied@ =~= style@);
            self.current.push(InlineSpan { text: string_of(text), style: copied });
            assert(inline_view(self.current@) =~= before.push(
                InlineView { text: text@, style: style@ },
            ));
        }
    }

    fn end(&mut self)
        ensures
            final(self).view() == old(self).view().ended(),
    {
        let ghost lines = inline_lines_view(self.lines@);
        let mut line: Vec<InlineSpan> = Vec::new();
        line.append(&mut self.current);
        assert(line@ =~= old(self).current@);
        self.lines.push(line);
        assert(inline_lines_view(self.lines@) =~= lines.push(inline_view(old(self).current@)));
        assert(inline_view(self.current@) =~= Seq::empty());
    }

    fn take(&mut self, text: &str, style: &Vec<InlineStyle>)
        ensures
            final(self).view() == old(self).view().taking(text@, style@),
    {
        let chars = chars_of(text);
        let mut start: usize = 0;
        let mut i: usize = 0;
        let ghost all = old(self).view().taking(text@, style@);
        assert(chars@.skip(0) =~= chars@);
        while i < chars.len()
            invariant
                start <= i <= chars@.len(),
                all == self.view().taking(chars@.skip(start as int), style@),
                newline_at(chars@.skip(start as int)) == (i - start) + newline_at(
                    chars@.skip(i as int),
                ),
            decreases chars@.len() - i,
        {
            assert(chars@.skip(i as int)[0] == chars@[i as int]);
            if chars[i] == '\n' {
                let ghost rest = chars@.skip(start as int);
                let line = vstd::slice::slice_subrange(chars.as_slice(), start, i);
                assert(line@ =~= rest.take(i - start));
                self.append(line, style);
                self.end();
                assert(rest.skip(i - start + 1) =~= chars@.skip(i + 1));
                start = i + 1;
            } else {
                assert(chars@.skip(i as int).drop_first() =~= chars@.skip(i + 1));
            }
            i += 1;
        }
        let rest = vstd::slice::slice_subrange(chars.as_slice(), start, chars.len());
        assert(rest@ =~= chars@.skip(start as int));
        self.append(rest, style);
    }
}

/// Splits formatted text into lines; nothing follows a final newline.
pub fn split_span_lines(spans: &Vec<InlineSpan>) -> (lines: Vec<Vec<InlineSpan>>)
    ensures
        inline_lines_view(lines@) == split_inline(inline_view(spans@)),
{
    let mut split = Split { lines: Vec::new(), current: Vec::new() };
    let ghost whole = inline_view(spans@);
    let mut i: usize = 0;
    proof {
        assert(whole.take(0) =~= Seq::empty());
        assert(split.view().lines =~= Seq::empty());
        assert(split.view().current =~= Seq::empty());
    }
    while i < spans.len()
        invariant
            i <= spans@.len(),
            whole == inline_view(spans@),
            split.view() == split_pieces(whole.take(i as int)),
        decreases spans@.len() - i,
    {
        split.take(spans[i].text.as_str(), &spans[i].style);
        proof {
            assert(whole.take(i + 1).drop_last() =~= whole.take(i as int));
            assert(whole.take(i + 1).last() == spans@[i as int]@);
        }
        i += 1;
    }
    assert(whole.take(i as int) =~= whole);
    if split.current.len() > 0 {
        split.end();
    }
    split.lines
}

/// The lines of a text that a newline ends, cut at newlines only.
pub open spec fn ended_by_newline(s: Seq<char>) -> Seq<Seq<char>>
    decreases s.len(),
{
    if s.len() == 0 {
        Seq::empty()
    } else if s.last() == '\n' {
        ended_by_newline(s.drop_last()).push(behind_newline(s.drop_last()))
    } else {
        ended_by_newline(s.drop_last())
    }
}

/// What follows the last newline of a text.
pub open spec fn behind_newline(s: Seq<char>) -> Seq<char>
    decreases s.len(),
{
    if s.len() == 0 || s.last() == '\n' {
        Seq::empty()
    } else {
        behind_newline(s.drop_last()).push(s.last())
    }
}

/// The lines of a text, cut at newlines only; nothing follows a final one.
pub open spec fn cut_lines(s: Seq<char>) -> Seq<Seq<char>> {
    if behind_newline(s).len() == 0 {
        ended_by_newline(s)
    } else {
        ended_by_newline(s).push(behind_newline(s))
    }
}

/// The texts of lines of formatted text.
pub open spec fn inline_texts(lines: Seq<Seq<InlineView>>) -> Seq<Seq<char>> {
    lines.map_values(|line: Seq<InlineView>| inline_chars(line))
}

/// The lines collected from a text.
spec fn holds_text(state: SplitView, text: Seq<char>) -> bool {
    &&& inline_texts(state.lines) == ended_by_newline(text)
    &&& inline_chars(state.current) == behind_newline(text)
    &&& forall|i: int| 0 <= i < state.current.len() ==> (#[trigger] state.current[i]).text.len() > 0
}

proof fn lemma_cut_append(s: Seq<char>, t: Seq<char>)
    requires
        forall|i: int| 0 <= i < t.len() ==> t[i] != '\n',
    ensures
        ended_by_newline(s + t) == ended_by_newline(s),
        behind_newline(s + t) == behind_newline(s) + t,
    decreases t.len(),
{
    if t.len() == 0 {
        assert(s + t =~= s);
        assert(behind_newline(s) + t =~= behind_newline(s));
    } else {
        lemma_cut_append(s, t.drop_last());
        assert((s + t).drop_last() =~= s + t.drop_last());
        assert(behind_newline(s + t) =~= behind_newline(s) + t);
    }
}

proof fn lemma_append_holds(state: SplitView, s: Seq<char>, t: Seq<char>, style: Seq<InlineStyle>)
    requires
        holds_text(state, s),
        forall|i: int| 0 <= i < t.len() ==> t[i] != '\n',
    ensures
        holds_text(state.appended(t, style), s + t),
{
    lemma_cut_append(s, t);
    let after = state.appended(t, style);
    if t.len() > 0 {
        assert(after.current.drop_last() =~= state.current);
    } else {
        assert(behind_newline(s) + t =~= behind_newline(s));
    }
}

proof fn lemma_take_holds(state: SplitView, s: Seq<char>, t: Seq<char>, style: Seq<InlineStyle>)
    requires
        holds_text(state, s),
    ensures
        holds_text(state.taking(t, style), s + t),
    decreases t.len(),
{
    let n = newline_at(t);
    crate::highlight::lemma_newline_at(t);
    if n >= t.len() {
        lemma_append_holds(state, s, t, style);
    } else {
        let head = t.take(n as int);
        let rest = t.skip(n as int + 1);
        let appended = state.appended(head, style);
        lemma_append_holds(state, s, head, style);
        let s2 = (s + head).push('\n');
        assert(s2.drop_last() =~= s + head);
        let ended = appended.ended();
        assert(inline_texts(ended.lines) =~= inline_texts(appended.lines).push(
            inline_chars(appended.current),
        ));
        assert(inline_chars(ended.current) =~= Seq::empty());
        assert(holds_text(ended, s2));
        lemma_take_holds(ended, s2, rest, style);
        assert(s2 + rest =~= s + t);
    }
}

proof fn lemma_split_holds(spans: Seq<InlineView>)
    ensures
        holds_text(split_pieces(spans), inline_chars(spans)),
    decreases spans.len(),
{
    if spans.len() == 0 {
        assert(inline_texts(split_pieces(spans).lines) =~= Seq::empty());
        assert(inline_chars(split_pieces(spans).current) =~= Seq::empty());
    } else {
        lemma_split_holds(spans.drop_last());
        lemma_take_holds(
            split_pieces(spans.drop_last()),
            inline_chars(spans.drop_last()),
            spans.last().text,
            spans.last().style,
        );
    }
}

/// Splitting formatted text gives the lines of the text.
pub proof fn law_split_cuts_at_newlines(spans: Seq<InlineView>)
    ensures
        inline_texts(split_inline(spans)) == cut_lines(inline_chars(spans)),
{
    lemma_split_holds(spans);
    let state = split_pieces(spans);
    if state.current.len() > 0 {
        assert(state.current.last().text.len() > 0);
        assert(inline_texts(split_inline(spans)) =~= inline_texts(state.lines).push(
            inline_chars(state.current),
        ));
    }
}

/// The style that a formatting adds.
pub open spec fn inline_style_of(theme: Theme, style: InlineStyle) -> Style {
    match style {
        InlineStyle::Bold => Style { add: bold_only(), ..plain() },
        InlineStyle::Italic => Style { add: italic_only(), ..plain() },
        InlineStyle::Strikethrough => Style { add: crossed_out_only(), ..plain() },
        InlineStyle::InlineCode => theme.inline_code(),
        InlineStyle::Link => theme.link(),
        InlineStyle::Image => theme.image(),
        InlineStyle::HtmlTag => plain(),
    }
}

/// The style that a formatting adds. Nested formatting combines; colors override
/// those below.
pub fn inline_style(theme: &Theme, style: InlineStyle) -> (out: Style)
    ensures
        out == inline_style_of(*theme, style),
{
    match style {
        InlineStyle::Bold => Style::default().bold(),
        InlineStyle::Italic => Style::default().italic(),
        InlineStyle::Strikethrough => Style::default().crossed_out(),
        InlineStyle::InlineCode => theme.inline_code_style(),
        InlineStyle::Link => theme.link_style(),
        InlineStyle::Image => theme.image_style(),
        InlineStyle::HtmlTag => Style::default(),
    }
}

/// A base style with formatting added.
pub open spec fn formatted(theme: Theme, base: Style, styles: Seq<InlineStyle>) -> Style
    decreases styles.len(),
{
    if styles.len() == 0 {
        base
    } else {
        formatted(theme, base, styles.drop_last()).patch_spec(
            inline_style_of(theme, styles.last()),
        )
    }
}

/// The runs of some lines, one line's after the other's.
pub open spec fn all_runs(lines: Seq<Seq<(Seq<char>, Style)>>) -> Seq<(Seq<char>, Style)>
    decreases lines.len(),
{
    if lines.len() == 0 {
        Seq::empty()
    } else {
        all_runs(lines.drop_last()) + lines.last()
    }
}

/// A highlighted HTML tag.
pub open spec fn tag_runs(painter: Painter, text: Seq<char>, base: Style) -> Seq<
    (Seq<char>, Style),
> {
    let runs = all_runs(painter.painted(text, "html"@));
    if runs.len() == 0 {
        seq![(text, base)]
    } else {
        runs
    }
}

/// The runs that show a formatted piece of text.
pub open spec fn piece_runs(painter: Painter, theme: Theme, span: InlineView, base: Style) -> Seq<
    (Seq<char>, Style),
> {
    if span.style.contains(InlineStyle::HtmlTag) {
        tag_runs(painter, span.text, base)
    } else {
        seq![(span.text, formatted(theme, base, span.style))]
    }
}

/// A text that stays on one line.
pub open spec fn single_line(text: Seq<char>) -> bool {
    !text.contains('\n') && !text.contains('\r')
}

fn gather_runs(lines: Vec<Vec<Span>>) -> (runs: Vec<Span>)
    ensures
        line_view(runs@) == all_runs(lines_view(lines@)),
{
    let mut runs: Vec<Span> = Vec::new();
    let ghost whole = lines_view(lines@);
    let mut i: usize = 0;
    assert(line_view(runs@) =~= all_runs(whole.take(0)));
    while i < lines.len()
        invariant
            i <= lines@.len(),
            whole == lines_view(lines@),
            line_view(runs@) == all_runs(whole.take(i as int)),
        decreases lines@.len() - i,
    {
        crate::style::append_spans(&mut runs, &lines[i]);
        proof {
            assert(whole.take(i + 1).drop_last() =~= whole.take(i as int));
            assert(whole.take(i + 1).last() == line_view(lines@[i as int]@));
        }
        i += 1;
    }
    assert(whole.take(i as int) =~= whole);
    runs
}

/// Highlights an inline HTML tag. A tag on one line keeps its text.
pub fn render_html_tag(text: &str, base: Style, painter: &Painter) -> (runs: Vec<Span>)
    ensures
        line_view(runs@) == tag_runs(*painter, text@, base),
        single_line(text@) ==> line_text(line_view(runs@)) == text@,
{
    let lines = painter.highlight(text, "html");
    let ghost shown = lines_view(lines@);
    proof {
        if single_line(text@) {
            lemma_one_line(text@);
            assert forall|i: int| 0 <= i < text@.len() && #[trigger] text@[i] == '\r' implies i + 1
                < text@.len() && text@[i + 1] == '\n' by {
                assert(text@.contains('\r'));
            }
            assert(no_lone_return(text@));
            assert(shown.len() == lines_texts(shown).len());
            if text@.len() > 0 {
                assert(lines_texts(shown)[0] == text@);
                assert(shown.drop_last() =~= Seq::empty());
                assert(all_runs(shown.drop_last()) =~= Seq::empty());
                assert(all_runs(shown) =~= shown[0]);
                assert(line_text(shown[0]) == text@);
                if shown[0].len() == 0 {
                    assert(line_text(shown[0]).len() == 0);
                }
            } else {
                assert(all_runs(shown) =~= Seq::empty());
                lemma_line_text_one((text@, base));
            }
        }
    }
    let mut runs = gather_runs(lines);
    if runs.len() == 0 {
        runs.push(Span::styled(text.to_owned(), base));
        assert(line_view(runs@) =~= seq![(text@, base)]);
    }
    runs
}

fn has_tag(styles: &Vec<InlineStyle>) -> (found: bool)
    ensures
        found == styles@.contains(InlineStyle::HtmlTag),
{
    let mut i: usize = 0;
    while i < styles.len()
        invariant
            i <= styles@.len(),
            forall|k: int| 0 <= k < i ==> styles@[k] != InlineStyle::HtmlTag,
        decreases styles@.len() - i,
    {
        if styles[i] == InlineStyle::HtmlTag {
            return true;
        }
        i += 1;
    }
    false
}

/// Shows a formatted piece of text. A piece on one line keeps its text.
pub fn render_inline_span(span: &InlineSpan, base: Style, theme: &Theme, painter: &Painter) -> (runs:
    Vec<Span>)
    ensures
        line_view(runs@) == piece_runs(*painter, *theme, span@, base),
        single_line(span@.text) ==> line_text(line_view(runs@)) == span@.text,
{
    if has_tag(&span.style) {
        return render_html_tag(span.text.as_str(), base, painter);
    }
    let mut style = base;
    let mut i: usize = 0;
    assert(span.style@.take(0) =~= Seq::empty());
    while i < span.style.len()
        invariant
            i <= span.style@.len(),
            style == formatted(*theme, base, span.style@.take(i as int)),
        decreases span.style@.len() - i,
    {
        style = style.patch(inline_style(theme, span.style[i]));
        assert(span.style@.take(i + 1).drop_last() =~= span.style@.take(i as int));
        i += 1;
    }
    assert(span.style@.take(i as int) =~= span.style@);
    let mut runs: Vec<Span> = Vec::new();
    runs.push(Span::styled(span.text.clone(), style));
    proof {
        assert(line_view(runs@) =~= seq![(span.text@, style)]);
        lemma_line_text_one((span.text@, style));
    }
    runs
}

/// The base style of a piece of a heading: the marker has its own.
pub open spec fn heading_base(theme: Theme, spans: Seq<InlineView>, i: int) -> Style {
    if i == 0 && spans[0].text.len() > 0 && spans[0].text[0] == '#' {
        theme.markdown.heading_marker
    } else {
        theme.markdown.heading
    }
}

/// The base style of a piece: the heading's, or the same for all.
pub open spec fn base_style(theme: Theme, spans: Seq<InlineView>, i: int, base: Option<Style>) -> Style {
    match base {
        Some(style) => style,
        None => heading_base(theme, spans, i),
    }
}

/// The runs that show the first `n` pieces of a text; those of a heading where
/// no base style is given.
pub open spec fn inline_runs(
    painter: Painter,
    theme: Theme,
    spans: Seq<InlineView>,
    base: Option<Style>,
    n: nat,
) -> Seq<(Seq<char>, Style)>
    decreases n,
{
    if n == 0 {
        Seq::empty()
    } else {
        inline_runs(painter, theme, spans, base, (n - 1) as nat) + piece_runs(
            painter,
            theme,
            spans[n - 1],
            base_style(theme, spans, n - 1, base),
        )
    }
}

/// A line of formatted text.
pub open spec fn inline_line(
    painter: Painter,
    theme: Theme,
    spans: Seq<InlineView>,
    base: Option<Style>,
) -> LineView {
    LineView {
        spans: inline_runs(painter, theme, spans, base, spans.len()),
        style: match base {
            Some(style) => style,
            None => theme.markdown.heading,
        },
    }
}

/// Every piece stays on one line.
pub open spec fn single_lines(spans: Seq<InlineView>) -> bool {
    forall|i: int| 0 <= i < spans.len() ==> single_line((#[trigger] spans[i]).text)
}

fn starts_with_marker(text: &str) -> (yes: bool)
    ensures
        yes == (text@.len() > 0 && text@[0] == '#'),
{
    text.unicode_len() > 0 && text.get_char(0) == '#'
}

fn render_inline(spans: &Vec<InlineSpan>, base: Option<Style>, theme: &Theme, painter: &Painter) -> (line:
    Line)
    ensures
        line@ == inline_line(*painter, *theme, inline_view(spans@), base),
        single_lines(inline_view(spans@)) ==> line@.text() == inline_chars(inline_view(spans@)),
{
    let ghost whole = inline_view(spans@);
    let mut runs: Vec<Span> = Vec::new();
    let mut i: usize = 0;
    assert(line_view(runs@) =~= Seq::empty());
    assert(whole.take(0) =~= Seq::empty());
    while i < spans.len()
        invariant
            i <= spans@.len(),
            whole == inline_view(spans@),
            line_view(runs@) == inline_runs(*painter, *theme, whole, base, i as nat),
            single_lines(whole) ==> line_text(line_view(runs@)) == inline_chars(
                whole.take(i as int),
            ),
        decreases spans@.len() - i,
    {
        let style = match base {
            Some(style) => style,
            None => if i == 0 && starts_with_marker(spans[0].text.as_str()) {
                theme.markdown_heading_marker_style()
            } else {
                theme.markdown_heading_style()
            },
        };
        assert(whole[0] == spans@[0]@);
        let piece = render_inline_span(&spans[i], style, theme, painter);
        proof {
            assert(whole[i as int] == spans@[i as int]@);
            lemma_line_text_add(line_view(runs@), line_view(piece@));
            assert(whole.take(i + 1).drop_last() =~= whole.take(i as int));
            assert(whole.take(i + 1).last() == whole[i as int]);
        }
        move_spans(&mut runs, piece);
        i += 1;
    }
    assert(whole.take(i as int) =~= whole);
    let style = match base {
        Some(style) => style,
        None => theme.markdown_heading_style(),
    };
    Line { spans: runs, style }
}

/// Shows formatted text over a base style. Text on one line stays as it is.
pub fn render_inline_spans(spans: &Vec<InlineSpan>, base: Style, theme: &Theme, painter: &Painter) -> (line:
    Line)
    ensures
        line@ == inline_line(*painter, *theme, inline_view(spans@), Some(base)),
        single_lines(inline_view(spans@)) ==> line@.text() == inline_chars(inline_view(spans@)),
{
    render_inline(spans, Some(base), theme, painter)
}

/// Shows a heading; its marker has a style of its own. Text on one line stays as
/// it is.
pub fn render_heading_spans(spans: &Vec<InlineSpan>, theme: &Theme, painter: &Painter) -> (line: Line)
    ensures
        line@ == inline_line(*painter, *theme, inline_view(spans@), None),
        single_lines(inline_view(spans@)) ==> line@.text() == inline_chars(inline_view(spans@)),
{
    render_inline(spans, None, theme, painter)
}

/// How far a character moves, seen from a tab stop.
pub open spec fn advance_of(c: char, column: int) -> int {
    if c == '\t' {
        TAB_WIDTH - column % TAB_WIDTH as int
    } else {
        match width_of_char(c) {
            Some(w) => w as int,
            None => 0,
        }
    }
}

/// The column behind a text.
pub open spec fn column_after(text: Seq<char>, column: int) -> int
    decreases text.len(),
{
    if text.len() == 0 {
        column
    } else {
        let before = column_after(text.drop_last(), column);
        before + advance_of(text.last(), before)
    }
}

/// A text with blanks in place of tabs, up to the next tab stop.
pub open spec fn expanded(text: Seq<char>, column: int) -> Seq<char>
    decreases text.len(),
{
    if text.len() == 0 {
        Seq::empty()
    } else if text.last() == '\t' {
        expanded(text.drop_last(), column) + repeated(
            ' ',
            advance_of('\t', column_after(text.drop_last(), column)) as nat,
        )
    } else {
        expanded(text.drop_last(), column).push(text.last())
    }
}

/// Runs with blanks in place of tabs.
pub open spec fn expanded_runs(runs: Seq<(Seq<char>, Style)>) -> Seq<(Seq<char>, Style)>
    decreases runs.len(),
{
    if runs.len() == 0 {
        Seq::empty()
    } else {
        let last = runs.last();
        expanded_runs(runs.drop_last()).push(
            (expanded(last.0, column_after(line_text(runs.drop_last()), 0)), last.1),
        )
    }
}

/// A line with blanks in place of tabs.
pub open spec fn expanded_line(line: LineView) -> LineView {
    LineView { spans: expanded_runs(line.spans), style: line.style }
}

proof fn lemma_expanded_add(a: Seq<char>, b: Seq<char>, column: int)
    ensures
        column_after(a + b, column) == column_after(b, column_after(a, column)),
        expanded(a + b, column) == expanded(a, column) + expanded(b, column_after(a, column)),
    decreases b.len(),
{
    if b.len() == 0 {
        assert(a + b =~= a);
        assert(expanded(a, column) + expanded(b, column_after(a, column)) =~= expanded(a, column));
    } else {
        lemma_expanded_add(a, b.drop_last(), column);
        assert((a + b).drop_last() =~= a + b.drop_last());
        assert((a + b).last() == b.last());
        assert(expanded(a + b, column) =~= expanded(a, column) + expanded(
            b,
            column_after(a, column),
        ));
    }
}

/// Where tabs go depends on the text alone, not on how it is cut into runs.
pub proof fn law_tabs_follow_text(runs: Seq<(Seq<char>, Style)>)
    ensures
        line_text(expanded_runs(runs)) == expanded(line_text(runs), 0),
    decreases runs.len(),
{
    if runs.len() > 0 {
        law_tabs_follow_text(runs.drop_last());
        lemma_expanded_add(line_text(runs.drop_last()), runs.last().0, 0);
        assert(expanded_runs(runs).drop_last() =~= expanded_runs(runs.drop_last()));
    }
}

/// No tab is left.
pub proof fn law_no_tab_is_left(text: Seq<char>, column: int)
    ensures
        !expanded(text, column).contains('\t'),
    decreases text.len(),
{
    if text.len() > 0 {
        law_no_tab_is_left(text.drop_last(), column);
        let before = expanded(text.drop_last(), column);
        let all = expanded(text, column);
        assert forall|i: int| 0 <= i < all.len() implies all[i] != '\t' by {
            if i < before.len() {
                assert(all[i] == before[i]);
                assert(before.contains(before[i]));
            }
        }
    }
}

fn expand_text(text: &str, column: usize, Ghost(exact): Ghost<int>) -> (out: (String, usize))
    requires
        column < TAB_WIDTH,
        exact % 4 == column,
    ensures
        out.0@ == expanded(text@, exact),
        out.1 < TAB_WIDTH,
        out.1 == column_after(text@, exact) % 4,
{
    let chars = chars_of(text);
    let mut out = String::new();
    let mut column: usize = column;
    let mut i: usize = 0;
    assert(chars@.take(0) =~= Seq::empty());
    while i < chars.len()
        invariant
            i <= chars@.len(),
            column < TAB_WIDTH,
            out@ == expanded(chars@.take(i as int), exact),
            column == column_after(chars@.take(i as int), exact) % 4,
        decreases chars@.len() - i,
    {
        proof {
            assert(chars@.take(i + 1).drop_last() =~= chars@.take(i as int));
            assert(chars@.take(i + 1).last() == chars@[i as int]);
        }
        if chars[i] == '\t' {
            out.append(repeat_char(' ', TAB_WIDTH - column).as_str());
            column = 0;
        } else {
            out.push(chars[i]);
            let width: usize = match char_width(chars[i]) {
                Some(w) => w,
                None => 0,
            };
            column = (column + width) % TAB_WIDTH;
        }
        i += 1;
    }
    assert(chars@.take(i as int) =~= chars@);
    (out, column)
}

/// Puts blanks in place of tabs. Terminals take a tab as a cursor movement, so
/// what is shown holds none.
pub fn expand_tabs_in_line(line: Line) -> (out: Line)
    ensures
        out@ == expanded_line(line@),
{
    let ghost whole = line_view(line.spans@);
    let mut spans: Vec<Span> = Vec::new();
    let mut column: usize = 0;
    let mut i: usize = 0;
    assert(line_view(spans@) =~= expanded_runs(whole.take(0)));
    while i < line.spans.len()
        invariant
            i <= line.spans@.len(),
            column < TAB_WIDTH,
            whole == line_view(line.spans@),
            line_view(spans@) == expanded_runs(whole.take(i as int)),
            column == column_after(line_text(whole.take(i as int)), 0) % 4,
        decreases line.spans@.len() - i,
    {
        let ghost text = line_text(whole.take(i as int));
        let expanded_text = expand_text(
            line.spans[i].content.as_str(),
            column,
            Ghost(column_after(text, 0)),
        );
        let ghost before = line_view(spans@);
        let span = Span::styled(expanded_text.0, line.spans[i].style);
        let ghost shown = span@;
        spans.push(span);
        column = expanded_text.1;
        proof {
            assert(line_view(spans@) =~= before.push(shown));
            assert(whole.take(i + 1).drop_last() =~= whole.take(i as int));
            assert(whole.take(i + 1).last() == line.spans@[i as int]@);
            lemma_expanded_add(text, line.spans@[i as int]@.0, 0);
        }
        i += 1;
    }
    assert(whole.take(i as int) =~= whole);
    Line { spans, style: line.style }
}

fn same_styles(a: &Vec<InlineStyle>, b: &Vec<InlineStyle>) -> (same: bool)
    ensures
        same == (a@ == b@),
{
    if a.len() != b.len() {
        return false;
    }
    let mut i: usize = 0;
    while i < a.len()
        invariant
            i <= a@.len(),
            a@.len() == b@.len(),
            forall|k: int| 0 <= k < i ==> a@[k] == b@[k],
        decreases a@.len() - i,
    {
        if a[i] != b[i] {
            return false;
        }
        i += 1;
    }
    assert(a@ =~= b@);
    true
}

/// Whether two formatted texts are the same.
pub fn same_spans(a: &Vec<InlineSpan>, b: &Vec<InlineSpan>) -> (same: bool)
    ensures
        same == (inline_view(a@) == inline_view(b@)),
{
    let ghost x = inline_view(a@);
    let ghost y = inline_view(b@);
    if a.len() != b.len() {
        assert(x.len() != y.len());
        return false;
    }
    let mut i: usize = 0;
    while i < a.len()
        invariant
            i <= a@.len(),
            a@.len() == b@.len(),
            x == inline_view(a@),
            y == inline_view(b@),
            forall|k: int| 0 <= k < i ==> x[k] == y[k],
        decreases a@.len() - i,
    {
        proof {
            assert(x[i as int] == a@[i as int]@);
            assert(y[i as int] == b@[i as int]@);
        }
        if !crate::text::same_text(a[i].text.as_str(), b[i].text.as_str()) || !same_styles(
            &a[i].style,
            &b[i].style,
        ) {
            return false;
        }
        i += 1;
    }
    assert(x =~= y);
    true
}

/// The marker of a heading has a style of its own; the rest of the heading has that of
/// headings.
pub proof fn law_heading_markers_have_their_style(theme: Theme, spans: Seq<InlineView>, i: int)
    requires
        0 <= i < spans.len(),
    ensures
        i == 0 && spans[0].text.len() > 0 && spans[0].text[0] == '#' ==> heading_base(
            theme,
            spans,
            i,
        ) == theme.markdown.heading_marker,
        i == 0 && spans[0].text.len() == 0 ==> heading_base(theme, spans, i)
            == theme.markdown.heading,
        i == 0 && spans[0].text.len() > 0 && spans[0].text[0] != '#' ==> heading_base(
            theme,
            spans,
            i,
        ) == theme.markdown.heading,
        i > 0 ==> heading_base(theme, spans, i) == theme.markdown.heading,
{
}

} // verus!
