//! Colors, styles and styled text.

use vstd::prelude::*;

use crate::num::smaller;
use crate::text::{
    decimal, decimal_text, lines_of, str_width, strings_view, text_lines, width_of_text,
};

verus! {

/// A terminal color.
#[derive(Clone, Copy, Debug, PartialEq, Eq, Structural)]
pub enum Color {
    /// The terminal's own color.
    Reset,
    Black,
    Red,
    Green,
    Yellow,
    Blue,
    Magenta,
    Cyan,
    Gray,
    DarkGray,
    LightRed,
    LightGreen,
    LightYellow,
    LightBlue,
    LightMagenta,
    LightCyan,
    White,
    /// One of the terminal's 256 palette entries.
    Indexed(u8),
    /// Red, green and blue parts.
    Rgb(u8, u8, u8),
}

/// Text emphasis.
#[derive(Clone, Copy, Debug, PartialEq, Eq, Structural)]
pub struct Modifiers {
    pub bold: bool,
    pub dim: bool,
    pub italic: bool,
    pub underlined: bool,
    pub slow_blink: bool,
    pub rapid_blink: bool,
    pub reversed: bool,
    pub hidden: bool,
    pub crossed_out: bool,
}

/// No emphasis.
pub open spec fn no_modifiers() -> Modifiers {
    Modifiers {
        bold: false,
        dim: false,
        italic: false,
        underlined: false,
        slow_blink: false,
        rapid_blink: false,
        reversed: false,
        hidden: false,
        crossed_out: false,
    }
}

impl Default for Modifiers {
    fn default() -> (modifiers: Modifiers)
        ensures
            modifiers == no_modifiers(),
    {
        Modifiers {
            bold: false,
            dim: false,
            italic: false,
            underlined: false,
            slow_blink: false,
            rapid_blink: false,
            reversed: false,
            hidden: false,
            crossed_out: false,
        }
    }
}

impl Modifiers {
    /// The emphasis of both.
    pub open spec fn union_spec(self, other: Modifiers) -> Modifiers {
        Modifiers {
            bold: self.bold || other.bold,
            dim: self.dim || other.dim,
            italic: self.italic || other.italic,
            underlined: self.underlined || other.underlined,
            slow_blink: self.slow_blink || other.slow_blink,
            rapid_blink: self.rapid_blink || other.rapid_blink,
            reversed: self.reversed || other.reversed,
            hidden: self.hidden || other.hidden,
            crossed_out: self.crossed_out || other.crossed_out,
        }
    }

    /// The emphasis of both.
    pub fn union(self, other: Modifiers) -> (both: Modifiers)
        ensures
            both == self.union_spec(other),
    {
        Modifiers {
            bold: self.bold || other.bold,
            dim: self.dim || other.dim,
            italic: self.italic || other.italic,
            underlined: self.underlined || other.underlined,
            slow_blink: self.slow_blink || other.slow_blink,
            rapid_blink: self.rapid_blink || other.rapid_blink,
            reversed: self.reversed || other.reversed,
            hidden: self.hidden || other.hidden,
            crossed_out: self.crossed_out || other.crossed_out,
        }
    }
}

/// Foreground, background and added emphasis; what is `None` is left to the
/// text below.
#[derive(Clone, Copy, Debug, PartialEq, Eq)]
pub struct Style {
    pub fg: Option<Color>,
    pub bg: Option<Color>,
    pub add: Modifiers,
}

/// The style that changes nothing.
pub open spec fn plain() -> Style {
    Style { fg: None, bg: None, add: no_modifiers() }
}

/// Bold emphasis alone.
pub open spec fn bold_only() -> Modifiers {
    Modifiers { bold: true, ..no_modifiers() }
}

/// Dim emphasis alone.
pub open spec fn dim_only() -> Modifiers {
    Modifiers { dim: true, ..no_modifiers() }
}

/// Italic emphasis alone.
pub open spec fn italic_only() -> Modifiers {
    Modifiers { italic: true, ..no_modifiers() }
}

/// Underline alone.
pub open spec fn underlined_only() -> Modifiers {
    Modifiers { underlined: true, ..no_modifiers() }
}

/// Reversed colors alone.
pub open spec fn reversed_only() -> Modifiers {
    Modifiers { reversed: true, ..no_modifiers() }
}

/// Strike-through alone.
pub open spec fn crossed_out_only() -> Modifiers {
    Modifiers { crossed_out: true, ..no_modifiers() }
}

impl Default for Style {
    fn default() -> (style: Style)
        ensures
            style == plain(),
    {
        Style { fg: None, bg: None, add: Modifiers::default() }
    }
}

impl Style {
    /// The style with this foreground.
    pub open spec fn fg_spec(self, color: Color) -> Style {
        Style { fg: Some(color), ..self }
    }

    /// The style with this background.
    pub open spec fn bg_spec(self, color: Color) -> Style {
        Style { bg: Some(color), ..self }
    }

    /// The style with emphasis added.
    pub open spec fn add_spec(self, modifiers: Modifiers) -> Style {
        Style { add: self.add.union_spec(modifiers), ..self }
    }

    /// `other` laid over this style: what `other` leaves open comes from here.
    pub open spec fn patch_spec(self, other: Style) -> Style {
        Style {
            fg: if other.fg is Some { other.fg } else { self.fg },
            bg: if other.bg is Some { other.bg } else { self.bg },
            add: self.add.union_spec(other.add),
        }
    }

    /// Sets the foreground.
    pub fn fg(self, color: Color) -> (style: Style)
        ensures
            style == self.fg_spec(color),
    {
        Style { fg: Some(color), bg: self.bg, add: self.add }
    }

    /// Sets the background.
    pub fn bg(self, color: Color) -> (style: Style)
        ensures
            style == self.bg_spec(color),
    {
        Style { fg: self.fg, bg: Some(color), add: self.add }
    }

    /// Adds emphasis.
    pub fn add_modifiers(self, modifiers: Modifiers) -> (style: Style)
        ensures
            style == self.add_spec(modifiers),
    {
        Style { fg: self.fg, bg: self.bg, add: self.add.union(modifiers) }
    }

    /// Adds bold emphasis.
    pub fn bold(self) -> (style: Style)
        ensures
            style == self.add_spec(bold_only()),
    {
        let mut modifiers = Modifiers::default();
        modifiers.bold = true;
        self.add_modifiers(modifiers)
    }

    /// Adds dim emphasis.
    pub fn dim(self) -> (style: Style)
        ensures
            style == self.add_spec(dim_only()),
    {
        let mut modifiers = Modifiers::default();
        modifiers.dim = true;
        self.add_modifiers(modifiers)
    }

    /// Adds italic emphasis.
    pub fn italic(self) -> (style: Style)
        ensures
            style == self.add_spec(italic_only()),
    {
        let mut modifiers = Modifiers::default();
        modifiers.italic = true;
        self.add_modifiers(modifiers)
    }

    /// Adds underline.
    pub fn underlined(self) -> (style: Style)
        ensures
            style == self.add_spec(underlined_only()),
    {
        let mut modifiers = Modifiers::default();
        modifiers.underlined = true;
        self.add_modifiers(modifiers)
    }

    /// Reverses the colors.
    pub fn reversed(self) -> (style: Style)
        ensures
            style == self.add_spec(reversed_only()),
    {
        let mut modifiers = Modifiers::default();
        modifiers.reversed = true;
        self.add_modifiers(modifiers)
    }

    /// Adds strike-through.
    pub fn crossed_out(self) -> (style: Style)
        ensures
            style == self.add_spec(crossed_out_only()),
    {
        let mut modifiers = Modifiers::default();
        modifiers.crossed_out = true;
        self.add_modifiers(modifiers)
    }

    /// Lays `other` over this style.
    pub fn patch(self, other: Style) -> (style: Style)
        ensures
            style == self.patch_spec(other),
    {
        let fg = match other.fg {
            Some(color) => Some(color),
            None => self.fg,
        };
        let bg = match other.bg {
            Some(color) => Some(color),
            None => self.bg,
        };
        Style { fg, bg, add: self.add.union(other.add) }
    }
}

/// A run of text in one style.
#[derive(Clone, Debug, PartialEq, Eq)]
pub struct Span {
    pub content: String,
    pub style: Style,
}

impl View for Span {
    type V = (Seq<char>, Style);

    open spec fn view(&self) -> (Seq<char>, Style) {
        (self.content@, self.style)
    }
}

impl Span {
    /// A run of text in a style.
    pub fn styled(content: String, style: Style) -> (span: Span)
        ensures
            span@ == (content@, style),
    {
        Span { content, style }
    }

    /// A copy of the run.
    pub fn copy(&self) -> (span: Span)
        ensures
            span@ == self@,
    {
        Span { content: self.content.clone(), style: self.style }
    }
}

/// The contents of a styled line.
pub open spec fn line_view(spans: Seq<Span>) -> Seq<(Seq<char>, Style)> {
    spans.map_values(|span: Span| span@)
}

/// The contents of styled lines.
pub open spec fn lines_view(lines: Seq<Vec<Span>>) -> Seq<Seq<(Seq<char>, Style)>> {
    lines.map_values(|line: Vec<Span>| line_view(line@))
}

/// The text of a styled line.
pub open spec fn line_text(line: Seq<(Seq<char>, Style)>) -> Seq<char>
    decreases line.len(),
{
    if line.len() == 0 {
        Seq::empty()
    } else {
        line_text(line.drop_last()) + line.last().0
    }
}

/// Appending a run appends its view.
pub proof fn lemma_line_push(spans: Seq<Span>, span: Span)
    ensures
        line_view(spans.push(span)) == line_view(spans).push(span@),
        line_text(line_view(spans.push(span))) == line_text(line_view(spans)) + span@.0,
{
    assert(line_view(spans.push(span)) =~= line_view(spans).push(span@));
    assert(line_view(spans).push(span@).drop_last() =~= line_view(spans));
}

/// The text of a styled line.
pub fn text_of_line(spans: &[Span]) -> (text: String)
    ensures
        text@ == line_text(line_view(spans@)),
{
    let mut text = String::new();
    let mut i: usize = 0;
    assert(line_view(spans@.take(0)) =~= Seq::empty());
    while i < spans.len()
        invariant
            i <= spans.len(),
            text@ == line_text(line_view(spans@.take(i as int))),
        decreases spans.len() - i,
    {
        text.append(spans[i].content.as_str());
        proof {
            assert(spans@.take(i + 1) =~= spans@.take(i as int).push(spans@[i as int]));
            lemma_line_push(spans@.take(i as int), spans@[i as int]);
        }
        i += 1;
    }
    assert(spans@.take(i as int) =~= spans@);
    text
}

/// The text of two lines' runs, one line's after the other's.
pub proof fn lemma_line_text_add(a: Seq<(Seq<char>, Style)>, b: Seq<(Seq<char>, Style)>)
    ensures
        line_text(a + b) == line_text(a) + line_text(b),
    decreases b.len(),
{
    if b.len() == 0 {
        assert(a + b =~= a);
        assert(line_text(a) + line_text(b) =~= line_text(a));
    } else {
        lemma_line_text_add(a, b.drop_last());
        assert((a + b).drop_last() =~= a + b.drop_last());
        assert(line_text(a + b) =~= line_text(a) + line_text(b));
    }
}

/// The text of a single run.
pub proof fn lemma_line_text_one(run: (Seq<char>, Style))
    ensures
        line_text(seq![run]) == run.0,
{
    assert(seq![run].drop_last() =~= Seq::empty());
    assert(line_text(seq![run].drop_last()) =~= Seq::empty());
    assert(line_text(seq![run]) =~= run.0);
}

/// A line of styled runs with a style of its own.
pub struct Line {
    pub spans: Vec<Span>,
    pub style: Style,
}

/// Contents of a line.
pub struct LineView {
    pub spans: Seq<(Seq<char>, Style)>,
    pub style: Style,
}

impl View for Line {
    type V = LineView;

    open spec fn view(&self) -> LineView {
        LineView { spans: line_view(self.spans@), style: self.style }
    }
}

impl LineView {
    /// The text of the line.
    pub open spec fn text(self) -> Seq<char> {
        line_text(self.spans)
    }
}

/// An unstyled line; the text's own lines become its runs.
pub open spec fn raw_line(text: Seq<char>) -> LineView {
    LineView {
        spans: text_lines(text).map_values(|line: Seq<char>| (line, plain())),
        style: plain(),
    }
}

/// The contents of some lines.
pub open spec fn line_views(lines: Seq<Line>) -> Seq<LineView> {
    lines.map_values(|line: Line| line@)
}

/// Copies some runs.
pub fn copy_spans(spans: &Vec<Span>) -> (copy: Vec<Span>)
    ensures
        line_view(copy@) == line_view(spans@),
{
    let mut copy: Vec<Span> = Vec::new();
    append_spans(&mut copy, spans);
    assert(line_view(copy@) =~= line_view(spans@));
    copy
}

/// Appends copies of some runs.
pub fn append_spans(out: &mut Vec<Span>, spans: &Vec<Span>)
    ensures
        line_view(final(out)@) == line_view(old(out)@) + line_view(spans@),
{
    let ghost before = line_view(out@);
    let ghost whole = line_view(spans@);
    let mut i: usize = 0;
    assert(before + whole.take(0) =~= before);
    while i < spans.len()
        invariant
            i <= spans@.len(),
            whole == line_view(spans@),
            line_view(out@) == before + whole.take(i as int),
        decreases spans@.len() - i,
    {
        let span = spans[i].copy();
        let ghost now = line_view(out@);
        let ghost shown = span@;
        out.push(span);
        assert(line_view(out@) =~= now.push(shown));
        assert(before + whole.take(i + 1) =~= (before + whole.take(i as int)).push(shown));
        i += 1;
    }
    assert(whole.take(i as int) =~= whole);
}

/// Appends some runs.
pub fn move_spans(out: &mut Vec<Span>, spans: Vec<Span>)
    ensures
        line_view(final(out)@) == line_view(old(out)@) + line_view(spans@),
{
    let ghost before = out@;
    let mut spans = spans;
    let ghost more = spans@;
    out.append(&mut spans);
    assert(line_view(before + more) =~= line_view(before) + line_view(more));
}

/// The characters of a line's runs.
pub fn text_len(spans: &Vec<Span>) -> (len: usize)
    ensures
        len == line_text(line_view(spans@)).len(),
{
    text_of_line(spans.as_slice()).as_str().unicode_len()
}

impl Line {
    /// An empty line.
    pub fn empty() -> (line: Line)
        ensures
            line@ == (LineView { spans: Seq::empty(), style: plain() }),
    {
        let line = Line { spans: Vec::new(), style: Style::default() };
        assert(line@.spans =~= Seq::empty());
        line
    }

    /// An unstyled line.
    pub fn raw(text: &str) -> (line: Line)
        ensures
            line@ == raw_line(text@),
    {
        let texts = lines_of(text);
        let ghost view = strings_view(texts@);
        let mut spans: Vec<Span> = Vec::new();
        let mut i: usize = 0;
        let ghost whole = raw_line(text@).spans;
        assert(line_view(spans@) =~= whole.take(0));
        while i < texts.len()
            invariant
                i <= texts@.len(),
                view == strings_view(texts@),
                whole == raw_line(text@).spans,
                view == text_lines(text@),
                line_view(spans@) == whole.take(i as int),
            decreases texts@.len() - i,
        {
            let ghost before = line_view(spans@);
            let span = Span::styled(texts[i].clone(), Style::default());
            let ghost shown = span@;
            spans.push(span);
            assert(line_view(spans@) =~= before.push(shown));
            assert(view[i as int] == texts@[i as int]@);
            assert(whole.take(i + 1) =~= whole.take(i as int).push(shown));
            i += 1;
        }
        assert(whole.take(i as int) =~= whole);
        Line { spans, style: Style::default() }
    }

    /// A line of one run.
    pub fn styled(text: String, style: Style) -> (line: Line)
        ensures
            line@ == (LineView { spans: seq![(text@, style)], style: plain() }),
    {
        let ghost shown = text@;
        let mut spans: Vec<Span> = Vec::new();
        spans.push(Span::styled(text, style));
        assert(line_view(spans@) =~= seq![(shown, style)]);
        Line { spans, style: Style::default() }
    }

    /// A copy of the line.
    pub fn copy(&self) -> (line: Line)
        ensures
            line@ == self@,
    {
        Line { spans: copy_spans(&self.spans), style: self.style }
    }

    /// The text of the line.
    pub fn text(&self) -> (text: String)
        ensures
            text@ == self@.text(),
    {
        text_of_line(self.spans.as_slice())
    }
}

/// An unstyled line has the text, unless that has line endings.
pub proof fn lemma_raw_text(text: Seq<char>)
    requires
        !text.contains('\n'),
    ensures
        raw_line(text).text() == text,
{
    crate::text::lemma_one_line(text);
    let spans = raw_line(text).spans;
    if text.len() == 0 {
        assert(spans =~= Seq::empty());
        assert(line_text(spans) =~= text);
    } else {
        assert(spans =~= seq![(text, plain())]);
        lemma_line_text_one((text, plain()));
    }
}

/// The escape sequence that selects a foreground color; a color without a
/// palette or RGB value stands for the terminal's own.
pub open spec fn ansi_fg_text(color: Color) -> Seq<char> {
    match color {
        Color::Rgb(r, g, b) => "\x1b[38;2;"@ + decimal_text(r as nat) + ";"@ + decimal_text(
            g as nat,
        ) + ";"@ + decimal_text(b as nat) + "m"@,
        Color::Indexed(i) => "\x1b[38;5;"@ + decimal_text(i as nat) + "m"@,
        _ => "\x1b[39m"@,
    }
}

/// The escape sequence that selects a background color; a color without a
/// palette or RGB value stands for the terminal's own.
pub open spec fn ansi_bg_text(color: Color) -> Seq<char> {
    match color {
        Color::Rgb(r, g, b) => "\x1b[48;2;"@ + decimal_text(r as nat) + ";"@ + decimal_text(
            g as nat,
        ) + ";"@ + decimal_text(b as nat) + "m"@,
        Color::Indexed(i) => "\x1b[48;5;"@ + decimal_text(i as nat) + "m"@,
        _ => "\x1b[49m"@,
    }
}

fn rgb_sequence(start: &str, r: u8, g: u8, b: u8) -> (out: String)
    ensures
        out@ == start@ + decimal_text(r as nat) + ";"@ + decimal_text(g as nat) + ";"@
            + decimal_text(b as nat) + "m"@,
{
    let mut out = start.to_owned();
    out.append(decimal(r as u64).as_str());
    out.append(";");
    out.append(decimal(g as u64).as_str());
    out.append(";");
    out.append(decimal(b as u64).as_str());
    out.append("m");
    out
}

fn indexed_sequence(start: &str, i: u8) -> (out: String)
    ensures
        out@ == start@ + decimal_text(i as nat) + "m"@,
{
    let mut out = start.to_owned();
    out.append(decimal(i as u64).as_str());
    out.append("m");
    out
}

/// Converts a color to an ANSI foreground color escape sequence.
pub fn ansi_fg(color: Color) -> (out: String)
    ensures
        out@ == ansi_fg_text(color),
{
    match color {
        Color::Rgb(r, g, b) => rgb_sequence("\x1b[38;2;", r, g, b),
        Color::Indexed(i) => indexed_sequence("\x1b[38;5;", i),
        _ => "\x1b[39m".to_owned(),
    }
}

/// Converts a color to an ANSI background color escape sequence.
pub fn ansi_bg(color: Color) -> (out: String)
    ensures
        out@ == ansi_bg_text(color),
{
    match color {
        Color::Rgb(r, g, b) => rgb_sequence("\x1b[48;2;", r, g, b),
        Color::Indexed(i) => indexed_sequence("\x1b[48;5;", i),
        _ => "\x1b[49m".to_owned(),
    }
}

/// `s` where the condition holds, else nothing.
pub open spec fn text_if(cond: bool, s: Seq<char>) -> Seq<char> {
    if cond {
        s
    } else {
        Seq::empty()
    }
}

/// The escape sequences that switch to a style: colors first, then emphasis.
pub open spec fn ansi_style_text(style: Style) -> Seq<char> {
    (match style.fg {
        Some(color) => ansi_fg_text(color),
        None => Seq::empty(),
    }) + (match style.bg {
        Some(color) => ansi_bg_text(color),
        None => Seq::empty(),
    }) + text_if(style.add.bold, "\x1b[1m"@) + text_if(style.add.dim, "\x1b[2m"@) + text_if(
        style.add.italic,
        "\x1b[3m"@,
    ) + text_if(style.add.underlined, "\x1b[4m"@) + text_if(style.add.slow_blink, "\x1b[5m"@)
        + text_if(style.add.rapid_blink, "\x1b[6m"@) + text_if(style.add.reversed, "\x1b[7m"@)
        + text_if(style.add.hidden, "\x1b[8m"@) + text_if(style.add.crossed_out, "\x1b[9m"@)
}

fn append_if(out: &mut String, cond: bool, s: &str)
    ensures
        final(out)@ == old(out)@ + text_if(cond, s@),
{
    if cond {
        out.append(s);
    }
    assert(out@ =~= old(out)@ + text_if(cond, s@));
}

/// Converts a style to an ANSI escape sequence string.
pub fn ansi_style(style: Style) -> (out: String)
    ensures
        out@ == ansi_style_text(style),
{
    let mut out = match style.fg {
        Some(color) => ansi_fg(color),
        None => String::new(),
    };
    match style.bg {
        Some(color) => {
            out.append(ansi_bg(color).as_str());
        },
        None => {
            assert(out@ + Seq::<char>::empty() =~= out@);
        },
    }
    append_if(&mut out, style.add.bold, "\x1b[1m");
    append_if(&mut out, style.add.dim, "\x1b[2m");
    append_if(&mut out, style.add.italic, "\x1b[3m");
    append_if(&mut out, style.add.underlined, "\x1b[4m");
    append_if(&mut out, style.add.slow_blink, "\x1b[5m");
    append_if(&mut out, style.add.rapid_blink, "\x1b[6m");
    append_if(&mut out, style.add.reversed, "\x1b[7m");
    append_if(&mut out, style.add.hidden, "\x1b[8m");
    append_if(&mut out, style.add.crossed_out, "\x1b[9m");
    out
}

/// The columns that a line takes, as far as a `usize` can tell.
pub open spec fn line_width(line: Seq<(Seq<char>, Style)>) -> int
    decreases line.len(),
{
    if line.len() == 0 {
        0
    } else {
        smaller(line_width(line.drop_last()) + width_of_text(line.last().0), usize::MAX as int)
    }
}

/// The columns that a line takes, as far as a `usize` can tell.
pub fn width_of_line(line: &[Span]) -> (width: usize)
    ensures
        width == line_width(line_view(line@)),
{
    let mut width: usize = 0;
    let mut i: usize = 0;
    while i < line.len()
        invariant
            i <= line.len(),
            width == line_width(line_view(line@).take(i as int)),
        decreases line.len() - i,
    {
        let used = str_width(line[i].content.as_str());
        proof {
            let longer = line_view(line@).take(i + 1);
            assert(longer.drop_last() =~= line_view(line@).take(i as int));
            assert(longer.last() == line@[i as int]@);
        }
        width = width.saturating_add(used);
        i += 1;
    }
    assert(line_view(line@).take(i as int) =~= line_view(line@));
    width
}

/// The columns of some texts, as far as a `usize` can tell.
pub open spec fn texts_width(texts: Seq<Seq<char>>) -> int
    decreases texts.len(),
{
    if texts.len() == 0 {
        0
    } else {
        smaller(texts_width(texts.drop_last()) + width_of_text(texts.last()), usize::MAX as int)
    }
}

/// The columns of a text that is drawn as one line: its lines follow each other
/// without a gap.
pub open spec fn raw_width(text: Seq<char>) -> int {
    texts_width(text_lines(text))
}

/// The columns of a text that is drawn as one line.
pub fn raw_width_of(text: &str) -> (width: usize)
    ensures
        width == raw_width(text@),
{
    let lines = lines_of(text);
    let mut width: usize = 0;
    let mut i: usize = 0;
    let ghost view = strings_view(lines@);
    while i < lines.len()
        invariant
            i <= lines@.len(),
            view == strings_view(lines@),
            width == texts_width(view.take(i as int)),
        decreases lines@.len() - i,
    {
        proof {
            let longer = view.take(i + 1);
            assert(longer.drop_last() =~= view.take(i as int));
            assert(longer.last() == lines@[i as int]@);
        }
        width = width.saturating_add(str_width(lines[i].as_str()));
        i += 1;
    }
    assert(view.take(i as int) =~= view);
    width
}

/// A style over another one keeps what it leaves open, and lays over what it sets;
/// emphasis adds up.
pub proof fn law_styles_are_laid_over(base: Style, over: Style, color: Color)
    ensures
        base.patch_spec(plain()) == base,
        plain().patch_spec(over) == over,
        over.fg is Some ==> base.patch_spec(over).fg == over.fg,
        over.fg is None ==> base.patch_spec(over).fg == base.fg,
        over.bg is Some ==> base.patch_spec(over).bg == over.bg,
        over.bg is None ==> base.patch_spec(over).bg == base.bg,
        base.patch_spec(over).add.bold <==> base.add.bold || over.add.bold,
        base.patch_spec(over).add.italic <==> base.add.italic || over.add.italic,
        base.patch_spec(over).add.underlined <==> base.add.underlined || over.add.underlined,
        base.patch_spec(over).add.crossed_out <==> base.add.crossed_out || over.add.crossed_out,
        base.fg_spec(color).fg == Some(color),
        base.fg_spec(color).bg == base.bg,
        base.bg_spec(color).bg == Some(color),
        base.bg_spec(color).fg == base.fg,
{
}

/// A color is selected by a sequence that starts with the escape character and ends in
/// `m`; it holds the parts of the color, and tells text and background apart.
pub proof fn law_sequences_hold_the_color(r: u8, g: u8, b: u8)
    ensures
        ({
            let fg = ansi_fg_text(Color::Rgb(r, g, b));
            let bg = ansi_bg_text(Color::Rgb(r, g, b));
            let i = decimal_text(r as nat).len() as int;
            let j = decimal_text(g as nat).len() as int;
            let k = decimal_text(b as nat).len() as int;
            &&& fg[0] == '\x1b' && fg[1] == '[' && fg[2] == '3' && fg[3] == '8'
            &&& bg[0] == '\x1b' && bg[1] == '[' && bg[2] == '4' && bg[3] == '8'
            &&& fg.last() == 'm' && bg.last() == 'm'
            &&& crate::text::decimal_value(fg.subrange(7, 7 + i)) == r
            &&& crate::text::decimal_value(fg.subrange(8 + i, 8 + i + j)) == g
            &&& crate::text::decimal_value(fg.subrange(9 + i + j, 9 + i + j + k)) == b
            &&& fg.skip(3) == bg.skip(3)
        }),
{
    reveal_strlit("\x1b[38;2;");
    reveal_strlit("\x1b[48;2;");
    reveal_strlit(";");
    reveal_strlit("m");
    let fg = ansi_fg_text(Color::Rgb(r, g, b));
    let bg = ansi_bg_text(Color::Rgb(r, g, b));
    let x = decimal_text(r as nat);
    let y = decimal_text(g as nat);
    let z = decimal_text(b as nat);
    crate::text::law_digits_stand_for_the_number(r as nat);
    crate::text::law_digits_stand_for_the_number(g as nat);
    crate::text::law_digits_stand_for_the_number(b as nat);
    assert(fg.subrange(7, 7 + x.len() as int) =~= x);
    assert(fg.subrange(8 + x.len() as int, (8 + x.len() + y.len()) as int) =~= y);
    assert(fg.subrange((9 + x.len() + y.len()) as int, (9 + x.len() + y.len() + z.len()) as int)
        =~= z);
    assert(fg.skip(3) =~= bg.skip(3));
}

/// The width of some texts is that of all of them together.
pub proof fn law_widths_add_up(texts: Seq<Seq<char>>, text: Seq<char>)
    requires
        texts_width(texts) + width_of_text(text) <= usize::MAX,
    ensures
        texts_width(texts.push(text)) == texts_width(texts) + width_of_text(text),
        texts_width(Seq::empty()) == 0,
{
    assert(texts.push(text).drop_last() =~= texts);
}

} // verus!
