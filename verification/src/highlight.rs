//! Syntax highlighting and syntax themes.

use syntect::easy::HighlightLines;
use syntect::highlighting::{FontStyle, Style as SyntaxStyle, Theme as SyntaxTheme, ThemeSet};
use syntect::parsing::{SyntaxReference, SyntaxSet};
use vstd::prelude::*;

use crate::config::DEFAULT_SYNTAX;
use crate::style::{line_text, line_view, lines_view, plain, Color, Span, Style};
use crate::text::{chars_of, lines_of, newline_at, string_of, strings_view, text_lines};

verus! {

#[verifier::external_type_specification]
#[verifier::external_body]
pub struct ExSyntaxSet(SyntaxSet);

#[verifier::external_type_specification]
#[verifier::external_body]
pub struct ExSyntaxReference(SyntaxReference);

#[verifier::external_type_specification]
#[verifier::external_body]
pub struct ExSyntaxTheme(SyntaxTheme);

#[verifier::external_type_specification]
#[verifier::external_body]
pub struct ExThemeSet(ThemeSet);

#[verifier::external_type_specification]
#[verifier::external_body]
pub struct ExSyntaxStyle(SyntaxStyle);

#[verifier::external_type_specification]
#[verifier::external_body]
pub struct ExHighlightLines<'a>(HighlightLines<'a>);

/// Foreground and font style that a theme gives to a piece of code.
#[derive(Clone, Copy, Debug, PartialEq, Eq, Structural)]
pub struct PieceStyle {
    pub r: u8,
    pub g: u8,
    pub b: u8,
    /// Opacity; nothing is colored at zero.
    pub a: u8,
    pub bold: bool,
    pub italic: bool,
    pub underline: bool,
}

/// The parts of a `syntect` style that the interface uses.
pub uninterp spec fn parts_of_style(style: SyntaxStyle) -> PieceStyle;

/// Reads a `syntect` style: the parts of its foreground color, and whether
/// `FontStyle::contains` bold, italic and underline.
#[verifier::external_body]
pub(crate) fn piece_style(style: &SyntaxStyle) -> (piece: PieceStyle)
    ensures
        piece == parts_of_style(*style),
{
    let color = style.foreground;
    PieceStyle {
        r: color.r,
        g: color.g,
        b: color.b,
        a: color.a,
        bold: style.font_style.contains(FontStyle::BOLD),
        italic: style.font_style.contains(FontStyle::ITALIC),
        underline: style.font_style.contains(FontStyle::UNDERLINE),
    }
}

/// How highlighting got to where it is: what it was started with, and the lines
/// it has taken since.
pub struct Progress {
    pub syntax: SyntaxReference,
    pub theme: SyntaxTheme,
    pub lines: Seq<(SyntaxSet, Seq<char>)>,
}

impl Progress {
    /// How highlighting got to the line with the given number.
    pub open spec fn upto(self, n: int) -> Progress {
        Progress { lines: self.lines.take(n), ..self }
    }

    /// The highlighter works with the syntaxes of a set: its own is one of them, so
    /// were those of all lines it has taken, and it failed on none of these.
    pub open spec fn works_with(self, set: SyntaxSet) -> bool {
        &&& syntaxes_in(set).contains(self.syntax)
        &&& forall|i: int| 0 <= i < self.lines.len() ==> (#[trigger] self.lines[i]).0 == set
        &&& forall|i: int|
            0 <= i < self.lines.len() ==> pieces_of(
                #[trigger] self.upto(i),
                set,
                self.lines[i].1,
            ) is Some
    }
}

/// What a highlighter was started with and has taken.
pub uninterp spec fn progress(highlighter: HighlightLines<'_>) -> Progress;

/// Starts highlighting with `HighlightLines::new`: no line is taken yet.
#[verifier::external_body]
fn new_highlighter<'a>(syntax: &SyntaxReference, theme: &'a SyntaxTheme) -> (highlighter:
    HighlightLines<'a>)
    ensures
        progress(highlighter) == (Progress { syntax: *syntax, theme: *theme, lines: Seq::empty() }),
{
    HighlightLines::new(syntax, theme)
}

/// A piece of highlighted text.
pub type Piece = (SyntaxStyle, Seq<char>);

/// The contents of some pieces.
pub open spec fn pieces_view(pieces: Seq<(SyntaxStyle, String)>) -> Seq<Piece> {
    pieces.map_values(|piece: (SyntaxStyle, String)| (piece.0, piece.1@))
}

/// The texts of some pieces, one after the other.
pub open spec fn pieces_text(pieces: Seq<Piece>) -> Seq<char>
    decreases pieces.len(),
{
    if pieces.len() == 0 {
        Seq::empty()
    } else {
        pieces_text(pieces.drop_last()) + pieces.last().1
    }
}

/// The pieces that the next line is cut into, `None` where the syntax fails on
/// it.
pub uninterp spec fn pieces_of(
    before: Progress,
    set: SyntaxSet,
    line: Seq<char>,
) -> Option<Seq<Piece>>;

/// `HighlightLines::highlight_line`: cuts the next line into styled pieces,
/// `None` where the syntax fails on it. The pieces are the whole line, in order, as
/// long as the syntax failed on no line before. The set is the one that comes with the
/// crate: patterns of other syntaxes may capture text beyond their match, which the
/// highlighter does not expect.
/// The highlighter has then taken the line.
#[verifier::external_body]
fn highlight_next(highlighter: &mut HighlightLines<'_>, line: &str, set: &SyntaxSet) -> (pieces:
    Option<Vec<(SyntaxStyle, String)>>)
    requires
        comes_with_crate(*set),
        progress(*old(highlighter)).works_with(*set),
    ensures
        pieces is Some <==> pieces_of(progress(*old(highlighter)), *set, line@) is Some,
        pieces matches Some(p) ==> pieces_of(progress(*old(highlighter)), *set, line@) == Some(
            pieces_view(p@),
        ) && pieces_text(pieces_view(p@)) == line@,
        progress(*final(highlighter)) == (Progress {
            lines: progress(*old(highlighter)).lines.push((*set, line@)),
            ..progress(*old(highlighter))
        }),
{
    let ranges = highlighter.highlight_line(line, set).ok()?;
    Some(ranges.into_iter().map(|(style, text)| (style, text.to_owned())).collect())
}

/// What `SyntaxSet::find_syntax_by_token` finds.
pub uninterp spec fn syntax_by_token(set: SyntaxSet, token: Seq<char>) -> Option<SyntaxReference>;

/// `SyntaxSet::find_syntax_by_token`: the syntax with this file extension, or
/// else with this name. It is one of the set.
#[verifier::external_body]
fn by_token<'a>(set: &'a SyntaxSet, token: &str) -> (syntax: Option<&'a SyntaxReference>)
    ensures
        syntax is Some <==> syntax_by_token(*set, token@) is Some,
        syntax matches Some(s) ==> syntax_by_token(*set, token@) == Some(*s) && syntaxes_in(*set).contains(*s),
{
    set.find_syntax_by_token(token)
}

/// What `SyntaxSet::find_syntax_by_first_line` finds.
pub uninterp spec fn syntax_by_first_line(set: SyntaxSet, code: Seq<char>) -> Option<
    SyntaxReference,
>;

/// `SyntaxSet::find_syntax_by_first_line`: the syntax that the start of a text
/// gives away. It is one of the set.
#[verifier::external_body]
fn by_first_line<'a>(set: &'a SyntaxSet, code: &str) -> (syntax: Option<&'a SyntaxReference>)
    ensures
        syntax is Some <==> syntax_by_first_line(*set, code@) is Some,
        syntax matches Some(s) ==> syntax_by_first_line(*set, code@) == Some(*s) && syntaxes_in(*set).contains(*s),
{
    set.find_syntax_by_first_line(code)
}

/// What `SyntaxSet::find_syntax_by_extension` finds.
pub uninterp spec fn syntax_by_extension(set: SyntaxSet, extension: Seq<char>) -> Option<
    SyntaxReference,
>;

/// `SyntaxSet::find_syntax_by_extension`: the syntax with this file extension, one of
/// the set.
#[verifier::external_body]
fn by_extension<'a>(set: &'a SyntaxSet, extension: &str) -> (syntax: Option<&'a SyntaxReference>)
    ensures
        syntax is Some <==> syntax_by_extension(*set, extension@) is Some,
        syntax matches Some(s) ==> syntax_by_extension(*set, extension@) == Some(*s) && syntaxes_in(*set).contains(*s),
{
    set.find_syntax_by_extension(extension)
}

/// The syntaxes of a set, as `SyntaxSet::syntaxes` lists them.
pub uninterp spec fn syntaxes_in(set: SyntaxSet) -> Seq<SyntaxReference>;

/// `SyntaxSet::syntaxes`: the syntaxes of a set.
#[verifier::external_body]
fn syntaxes_of(set: &SyntaxSet) -> (syntaxes: &[SyntaxReference])
    ensures
        syntaxes@ == syntaxes_in(*set),
{
    set.syntaxes()
}

/// The set is the one that `SyntaxSet::load_defaults_newlines` gives.
pub uninterp spec fn comes_with_crate(set: SyntaxSet) -> bool;

/// `SyntaxSet::load_defaults_newlines`: the syntaxes that come with the crate.
#[verifier::external_body]
pub(crate) fn default_syntaxes() -> (set: SyntaxSet)
    ensures
        comes_with_crate(set),
{
    SyntaxSet::load_defaults_newlines()
}

/// The syntax for a language name, told by the name, or else by how the code
/// starts, or else that of plain text, or else any.
pub open spec fn syntax_for(set: SyntaxSet, name: Seq<char>, code: Seq<char>) -> Option<
    SyntaxReference,
> {
    if syntax_by_token(set, name) is Some {
        syntax_by_token(set, name)
    } else if syntax_by_first_line(set, code) is Some {
        syntax_by_first_line(set, code)
    } else if syntax_by_extension(set, DEFAULT_SYNTAX@) is Some {
        syntax_by_extension(set, DEFAULT_SYNTAX@)
    } else if syntaxes_in(set).len() > 0 {
        Some(syntaxes_in(set)[0])
    } else {
        None
    }
}

/// The first known of the syntaxes that were found by name, by the first line
/// and for plain text, or else the first of all.
pub fn pick_syntax<'a>(
    by_name: Option<&'a SyntaxReference>,
    by_line: Option<&'a SyntaxReference>,
    plain_text: Option<&'a SyntaxReference>,
    all: &'a [SyntaxReference],
) -> (syntax: Option<&'a SyntaxReference>)
    ensures
        match syntax {
            Some(s) => if by_name is Some {
                *s == *by_name->0
            } else if by_line is Some {
                *s == *by_line->0
            } else if plain_text is Some {
                *s == *plain_text->0
            } else {
                all@.len() > 0 && *s == all@[0]
            },
            None => by_name is None && by_line is None && plain_text is None && all@.len() == 0,
        },
{
    if by_name.is_some() {
        by_name
    } else if by_line.is_some() {
        by_line
    } else if plain_text.is_some() {
        plain_text
    } else if all.len() > 0 {
        Some(&all[0])
    } else {
        None
    }
}

/// Finds syntax by name or content, or falls back to that of plain text; `None`
/// only for a set without any syntax.
pub fn find_syntax_or_default<'a>(set: &'a SyntaxSet, name: &str, code: &str) -> (syntax: Option<
    &'a SyntaxReference,
>)
    ensures
        syntax is Some <==> syntax_for(*set, name@, code@) is Some,
        syntax matches Some(s) ==> syntax_for(*set, name@, code@) == Some(*s) && syntaxes_in(
            *set,
        ).contains(*s),
{
    assert(syntaxes_in(*set).len() > 0 ==> syntaxes_in(*set).contains(syntaxes_in(*set)[0]));
    pick_syntax(
        by_token(set, name),
        by_first_line(set, code),
        by_extension(set, DEFAULT_SYNTAX),
        syntaxes_of(set),
    )
}

/// The style of a piece in the interface: no color where it is transparent.
/// Backgrounds are applied elsewhere.
pub open spec fn style_of_piece(piece: PieceStyle) -> Style {
    Style {
        fg: if piece.a > 0 {
            Some(Color::Rgb(piece.r, piece.g, piece.b))
        } else {
            None
        },
        bg: None,
        add: crate::style::Modifiers {
            bold: piece.bold,
            italic: piece.italic,
            underlined: piece.underline,
            ..crate::style::no_modifiers()
        },
    }
}

/// The style of a piece in the interface.
pub fn to_style(piece: PieceStyle) -> (style: Style)
    ensures
        style == style_of_piece(piece),
{
    let mut style = Style::default();
    if piece.a > 0 {
        style = style.fg(Color::Rgb(piece.r, piece.g, piece.b));
    }
    if piece.bold {
        style = style.bold();
    }
    if piece.italic {
        style = style.italic();
    }
    if piece.underline {
        style = style.underlined();
    }
    style
}

/// A text without the line ending at its end.
pub open spec fn without_ending(text: Seq<char>) -> Seq<char> {
    let n = text.len() as int;
    if n >= 2 && text[n - 2] == '\r' && text[n - 1] == '\n' {
        text.take(n - 2)
    } else if n >= 1 && (text[n - 1] == '\n' || text[n - 1] == '\r') {
        text.take(n - 1)
    } else {
        text
    }
}

/// Removes the line ending at the end of a text.
pub fn strip_line_ending(text: &str) -> (out: String)
    ensures
        out@ == without_ending(text@),
{
    let chars = chars_of(text);
    let n: usize = chars.len();
    let end: usize = if n >= 2 && chars[n - 2] == '\r' && chars[n - 1] == '\n' {
        n - 2
    } else if n >= 1 && (chars[n - 1] == '\n' || chars[n - 1] == '\r') {
        n - 1
    } else {
        n
    };
    let out = string_of(vstd::slice::slice_subrange(chars.as_slice(), 0, end));
    assert(out@ =~= without_ending(text@));
    out
}

/// The lines of a text with their newlines.
pub open spec fn ended_lines(s: Seq<char>) -> Seq<Seq<char>>
    decreases s.len(),
{
    let n = newline_at(s);
    if s.len() == 0 {
        Seq::empty()
    } else if n >= s.len() {
        seq![s]
    } else {
        seq![s.take(n as int + 1)] + ended_lines(s.skip(n as int + 1))
    }
}

/// A line made of pieces: each in its style, without the line ending at its end.
pub open spec fn line_of_pieces(pieces: Seq<Piece>) -> Seq<(Seq<char>, Style)> {
    pieces.map_values(|piece: Piece| (without_ending(piece.1), style_of_piece(parts_of_style(piece.0))))
}

/// Lines as they are, without styles.
pub open spec fn unstyled(lines: Seq<Seq<char>>) -> Seq<Seq<(Seq<char>, Style)>> {
    lines.map_values(|line: Seq<char>| seq![(line, plain())])
}

/// The highlighting of the first `n` of some lines, `None` where the syntax fails
/// on one of them.
pub open spec fn highlighted_lines(
    start: Progress,
    set: SyntaxSet,
    lines: Seq<Seq<char>>,
    n: nat,
) -> Option<Seq<Seq<(Seq<char>, Style)>>>
    decreases n,
{
    if n == 0 {
        Some(Seq::empty())
    } else {
        let before = highlighted_lines(start, set, lines, (n - 1) as nat);
        let pieces = pieces_of(
            Progress { lines: taken(set, lines, (n - 1) as nat), ..start },
            set,
            lines[n - 1],
        );
        if before is None || pieces is None {
            None
        } else {
            Some(before->0.push(line_of_pieces(pieces->0)))
        }
    }
}

/// The first `n` lines, as they are taken from a set's syntaxes.
pub open spec fn taken(set: SyntaxSet, lines: Seq<Seq<char>>, n: nat) -> Seq<
    (SyntaxSet, Seq<char>),
> {
    lines.take(n as int).map_values(|line: Seq<char>| (set, line))
}

/// Highlighted code: plain lines where highlighting fails.
pub open spec fn highlighted(set: SyntaxSet, theme: SyntaxTheme, code: Seq<char>, ext: Seq<char>) -> Seq<
    Seq<(Seq<char>, Style)>,
> {
    let syntax = syntax_for(set, ext, code);
    let lines = ended_lines(code);
    if syntax is None {
        unstyled(text_lines(code))
    } else {
        let start = Progress { syntax: syntax->0, theme, lines: Seq::empty() };
        match highlighted_lines(start, set, lines, lines.len()) {
            Some(shown) => shown,
            None => unstyled(text_lines(code)),
        }
    }
}

/// A highlighter that took some lines without failing still works with their set.
proof fn lemma_still_works(start: Progress, set: SyntaxSet, lines: Seq<Seq<char>>, n: nat)
    requires
        n <= lines.len(),
        syntaxes_in(set).contains(start.syntax),
        highlighted_lines(start, set, lines, n) is Some,
    ensures
        (Progress { lines: taken(set, lines, n), ..start }).works_with(set),
    decreases n,
{
    let now = Progress { lines: taken(set, lines, n), ..start };
    if n > 0 {
        let m = (n - 1) as nat;
        lemma_still_works(start, set, lines, m);
        let before = Progress { lines: taken(set, lines, m), ..start };
        assert forall|i: int| 0 <= i < now.lines.len() implies pieces_of(
            #[trigger] now.upto(i),
            set,
            now.lines[i].1,
        ) is Some by {
            assert(now.lines.take(i) =~= before.lines.take(i));
            if i < m {
                assert(now.upto(i) == before.upto(i));
                assert(now.lines[i] == before.lines[i]);
            } else {
                assert(before.lines.take(i) =~= before.lines);
                assert(now.upto(i) == before);
            }
        }
    }
}

/// Failing on a line, highlighting fails on all.
proof fn lemma_failed(start: Progress, set: SyntaxSet, lines: Seq<Seq<char>>, at: nat, n: nat)
    requires
        at <= n,
        highlighted_lines(start, set, lines, at) is None,
    ensures
        highlighted_lines(start, set, lines, n) is None,
    decreases n,
{
    if at < n {
        lemma_failed(start, set, lines, at, (n - 1) as nat);
    }
}

/// Every carriage return of a text is part of a line ending.
pub open spec fn no_lone_return(text: Seq<char>) -> bool {
    forall|i: int|
        0 <= i < text.len() && #[trigger] text[i] == '\r' ==> i + 1 < text.len() && text[i + 1]
            == '\n'
}

/// The texts of styled lines.
pub open spec fn lines_texts(lines: Seq<Seq<(Seq<char>, Style)>>) -> Seq<Seq<char>> {
    lines.map_values(|line: Seq<(Seq<char>, Style)>| line_text(line))
}

/// Where the line ending of a line starts.
spec fn ending_at(s: Seq<char>) -> nat
    decreases s.len(),
{
    if s.len() == 0 || s[0] == '\n' || s[0] == '\r' {
        0
    } else {
        1 + ending_at(s.drop_first())
    }
}

/// A line, or the start of one, that holds a line ending at its end only.
spec fn one_line(s: Seq<char>) -> bool {
    let k = ending_at(s) as int;
    s.len() <= k + 1 || (s.len() == k + 2 && s[k] == '\r' && s[k + 1] == '\n')
}

/// The first newline of a text.
pub proof fn lemma_newline_at(s: Seq<char>)
    ensures
        newline_at(s) <= s.len(),
        newline_at(s) < s.len() ==> s[newline_at(s) as int] == '\n',
        forall|i: int| 0 <= i < newline_at(s) ==> s[i] != '\n',
    decreases s.len(),
{
    if s.len() > 0 && s[0] != '\n' {
        lemma_newline_at(s.drop_first());
        assert forall|i: int| 0 <= i < newline_at(s) implies s[i] != '\n' by {
            if i > 0 {
                assert(s[i] == s.drop_first()[i - 1]);
            }
        }
    }
}

proof fn lemma_ending_at(s: Seq<char>)
    ensures
        ending_at(s) <= s.len(),
        ending_at(s) < s.len() ==> s[ending_at(s) as int] == '\n' || s[ending_at(s) as int] == '\r',
        forall|i: int| 0 <= i < ending_at(s) ==> s[i] != '\n' && s[i] != '\r',
    decreases s.len(),
{
    if s.len() > 0 && s[0] != '\n' && s[0] != '\r' {
        lemma_ending_at(s.drop_first());
        assert forall|i: int| 0 <= i < ending_at(s) implies s[i] != '\n' && s[i] != '\r' by {
            if i > 0 {
                assert(s[i] == s.drop_first()[i - 1]);
            }
        }
    }
}

/// Lines with and without their endings.
proof fn lemma_ended_lines(s: Seq<char>)
    requires
        no_lone_return(s),
    ensures
        ended_lines(s).len() == text_lines(s).len(),
        forall|i: int|
            0 <= i < ended_lines(s).len() ==> one_line(#[trigger] ended_lines(s)[i])
                && ended_lines(s)[i].take(ending_at(ended_lines(s)[i]) as int) == text_lines(s)[i],
    decreases s.len(),
{
    let n = newline_at(s);
    lemma_newline_at(s);
    lemma_ending_at(s);
    if s.len() > 0 {
        if n >= s.len() {
            assert(ending_at(s) == s.len());
            assert(s.take(s.len() as int) =~= s);
        } else {
            let head = s.take(n as int + 1);
            let rest = s.skip(n as int + 1);
            assert(no_lone_return(rest)) by {
                assert forall|i: int| 0 <= i < rest.len() && #[trigger] rest[i] == '\r' implies i + 1
                    < rest.len() && rest[i + 1] == '\n' by {
                    assert(s[i + n as int + 1] == '\r');
                }
            }
            lemma_ended_lines(rest);
            lemma_ending_at(head);
            let k = ending_at(head) as int;
            assert(k <= n) by {
                if k > n {
                    assert(head[n as int] == '\n');
                }
            }
            assert(head[k] == s[k]);
            if k < n {
                assert(s[k] == '\r');
                assert(k + 1 == n);
            }
            assert(head.take(k) =~= crate::text::without_return(s.take(n as int))) by {
                if k == n && n > 0 {
                    assert(head[n - 1] == s[n - 1]);
                }
            }
            assert forall|i: int| 0 <= i < ended_lines(s).len() implies one_line(
                #[trigger] ended_lines(s)[i],
            ) && ended_lines(s)[i].take(ending_at(ended_lines(s)[i]) as int) == text_lines(
                s,
            )[i] by {
                if i > 0 {
                    assert(ended_lines(s)[i] == ended_lines(rest)[i - 1]);
                    assert(text_lines(s)[i] == text_lines(rest)[i - 1]);
                } else {
                    assert(ended_lines(s)[0] == head);
                }
            }
        }
    }
}

/// The pieces of a line show the line without its ending.
proof fn lemma_line_of_pieces(pieces: Seq<Piece>, line: Seq<char>)
    requires
        pieces_text(pieces) == line,
        one_line(line),
    ensures
        line_text(line_of_pieces(pieces)) == line.take(ending_at(line) as int),
    decreases pieces.len(),
{
    lemma_ending_at(line);
    let k = ending_at(line) as int;
    if pieces.len() == 0 {
        assert(line_of_pieces(pieces) =~= Seq::empty());
        assert(line.take(0) =~= Seq::empty());
    } else {
        let last = pieces.last().1;
        let before = pieces_text(pieces.drop_last());
        let shown = line_of_pieces(pieces);
        assert(shown.drop_last() =~= line_of_pieces(pieces.drop_last()));
        assert(line =~= before + last);
        lemma_ending_at(before);
        let b = ending_at(before) as int;
        assert forall|i: int| 0 <= i < before.len() implies before[i] == line[i] by {}
        assert forall|i: int| 0 <= i < last.len() implies last[i] == line[before.len() + i] by {}
        if k >= before.len() {
            assert(b == before.len()) by {
                if b < before.len() {
                    assert(line[b] == before[b]);
                }
            }
            lemma_line_of_pieces(pieces.drop_last(), before);
            assert(before.take(b) =~= before);
            assert(without_ending(last) =~= last.take(k - before.len())) by {
                let m = last.len() as int;
                if m > 0 {
                    assert(last[m - 1] == line[line.len() - 1]);
                }
                if m >= 2 {
                    assert(last[m - 2] == line[line.len() - 2]);
                }
            }
            assert(line.take(k) =~= before + last.take(k - before.len()));
        } else {
            assert(b == k) by {
                assert(before[k] == line[k]);
                if b < k {
                    assert(line[b] == before[b]);
                }
            }
            lemma_line_of_pieces(pieces.drop_last(), before);
            assert(before.take(k) =~= line.take(k));
            assert(without_ending(last) =~= Seq::empty()) by {
                if last.len() > 0 {
                    assert(last[0] == line[before.len() as int]);
                }
            }
        }
        assert(line_text(shown) =~= line.take(k));
    }
}

fn unstyled_lines(code: &str) -> (lines: Vec<Vec<Span>>)
    ensures
        lines_view(lines@) == unstyled(text_lines(code@)),
{
    let texts = lines_of(code);
    let ghost view = strings_view(texts@);
    let mut lines: Vec<Vec<Span>> = Vec::new();
    let mut i: usize = 0;
    assert(lines_view(lines@) =~= unstyled(view.take(0)));
    while i < texts.len()
        invariant
            i <= texts@.len(),
            view == strings_view(texts@),
            lines_view(lines@) == unstyled(view.take(i as int)),
        decreases texts@.len() - i,
    {
        let ghost before = lines_view(lines@);
        let mut line: Vec<Span> = Vec::new();
        line.push(Span::styled(texts[i].clone(), Style::default()));
        assert(line_view(line@) =~= seq![(view[i as int], plain())]);
        let ghost shown = line_view(line@);
        lines.push(line);
        assert(lines_view(lines@) =~= before.push(shown));
        assert(unstyled(view.take(i + 1)) =~= unstyled(view.take(i as int)).push(shown));
        i += 1;
    }
    assert(view.take(i as int) =~= view);
    lines
}

fn pieces_to_line(pieces: &Vec<(SyntaxStyle, String)>) -> (line: Vec<Span>)
    ensures
        line_view(line@) == line_of_pieces(pieces_view(pieces@)),
{
    let ghost whole = line_of_pieces(pieces_view(pieces@));
    let mut line: Vec<Span> = Vec::new();
    let mut i: usize = 0;
    assert(line_view(line@) =~= whole.take(0));
    while i < pieces.len()
        invariant
            i <= pieces@.len(),
            whole == line_of_pieces(pieces_view(pieces@)),
            line_view(line@) == whole.take(i as int),
        decreases pieces@.len() - i,
    {
        let ghost before = line_view(line@);
        let style = to_style(piece_style(&pieces[i].0));
        let span = Span::styled(strip_line_ending(pieces[i].1.as_str()), style);
        let ghost shown = span@;
        line.push(span);
        assert(line_view(line@) =~= before.push(shown));
        assert(pieces_view(pieces@)[i as int] == (pieces@[i as int].0, pieces@[i as int].1@));
        assert(whole.take(i + 1) =~= whole.take(i as int).push(shown));
        i += 1;
    }
    assert(whole.take(i as int) =~= whole);
    line
}

/// The end of the line that starts at `start`, behind its newline.
fn ended_line_end(chars: &Vec<char>, start: usize) -> (end: usize)
    requires
        start < chars@.len(),
    ensures
        start < end <= chars@.len(),
        ({
            let rest = chars@.skip(start as int);
            end == start + if newline_at(rest) >= rest.len() {
                rest.len() as int
            } else {
                newline_at(rest) as int + 1
            }
        }),
{
    let mut i: usize = start;
    while i < chars.len()
        invariant
            start <= i <= chars@.len(),
            newline_at(chars@.skip(start as int)) == (i - start) + newline_at(
                chars@.skip(i as int),
            ),
        decreases chars@.len() - i,
    {
        assert(chars@.skip(i as int)[0] == chars@[i as int]);
        if chars[i] == '\n' {
            return i + 1;
        }
        assert(chars@.skip(i as int).drop_first() =~= chars@.skip(i + 1));
        i += 1;
    }
    i
}

/// Plain lines have the lines' texts.
proof fn lemma_unstyled_texts(lines: Seq<Seq<char>>)
    ensures
        lines_texts(unstyled(lines)) == lines,
{
    assert forall|i: int| 0 <= i < lines.len() implies lines_texts(unstyled(lines))[i] == lines[i] by {
        let line = unstyled(lines)[i];
        assert(line == seq![(lines[i], plain())]);
        assert(line.drop_last() =~= Seq::empty());
        assert(line_text(line.drop_last()) =~= Seq::empty());
        assert(line_text(line) =~= lines[i]);
    }
    assert(lines_texts(unstyled(lines)) =~= lines);
}

/// Highlights code in the colors of a theme; plain lines where that fails.
/// Unless a carriage return stands alone, what is shown has the code's own lines.
pub(crate) fn highlight(set: &SyntaxSet, theme: &SyntaxTheme, code: &str, ext: &str) -> (lines: Vec<
    Vec<Span>,
>)
    requires
        comes_with_crate(*set),
    ensures
        lines_view(lines@) == highlighted(*set, *theme, code@, ext@),
        no_lone_return(code@) ==> lines_texts(lines_view(lines@)) == text_lines(code@),
{
    proof {
        lemma_unstyled_texts(text_lines(code@));
        if no_lone_return(code@) {
            lemma_ended_lines(code@);
        }
    }
    let syntax = match find_syntax_or_default(set, ext, code) {
        Some(syntax) => syntax,
        None => {
            return unstyled_lines(code);
        },
    };
    let mut highlighter = new_highlighter(syntax, theme);
    let ghost begin = Progress { syntax: *syntax, theme: *theme, lines: Seq::empty() };
    let ghost all = ended_lines(code@);
    let chars = chars_of(code);
    let mut lines: Vec<Vec<Span>> = Vec::new();
    let mut start: usize = 0;
    let ghost mut n: nat = 0;
    proof {
        assert(code@.skip(0) =~= code@);
        assert(all.skip(0) =~= all);
        assert(taken(*set, all, 0) =~= Seq::empty());
        assert(lines_view(lines@) =~= Seq::empty());
    }
    while start < chars.len()
        invariant
            start <= chars@.len(),
            chars@ == code@,
            all == ended_lines(code@),
            comes_with_crate(*set),
            n <= all.len(),
            all.skip(n as int) == ended_lines(code@.skip(start as int)),
            syntax_for(*set, ext@, code@) == Some(*syntax),
            syntaxes_in(*set).contains(*syntax),
            begin == (Progress { syntax: *syntax, theme: *theme, lines: Seq::empty() }),
            progress(highlighter) == (Progress { lines: taken(*set, all, n), ..begin }),
            highlighted_lines(begin, *set, all, n) == Some(lines_view(lines@)),
            lines_view(lines@).len() == n,
            no_lone_return(code@) ==> forall|i: int|
                0 <= i < n ==> line_text(#[trigger] lines_view(lines@)[i]) == text_lines(code@)[i],
            no_lone_return(code@) ==> all.len() == text_lines(code@).len() && forall|i: int|
                0 <= i < all.len() ==> one_line(#[trigger] all[i]) && all[i].take(
                    ending_at(all[i]) as int,
                ) == text_lines(code@)[i],
            lines_texts(unstyled(text_lines(code@))) == text_lines(code@),
        decreases chars@.len() - start,
    {
        let end = ended_line_end(&chars, start);
        let line = string_of(vstd::slice::slice_subrange(chars.as_slice(), start, end));
        let ghost rest = code@.skip(start as int);
        proof {
            assert(code@.skip(end as int) =~= rest.skip(end - start));
            assert(line@ =~= rest.take(end - start));
            if newline_at(rest) >= rest.len() {
                assert(line@ =~= rest);
                assert(ended_lines(code@.skip(end as int)) =~= Seq::empty());
                assert(ended_lines(rest) =~= seq![line@] + ended_lines(code@.skip(end as int)));
            }
            assert(all.skip(n as int)[0] == line@);
            assert(all[n as int] == line@);
            assert(all.skip(n as int + 1) =~= all.skip(n as int).skip(1));
            assert((seq![line@] + ended_lines(code@.skip(end as int))).skip(1) =~= ended_lines(
                code@.skip(end as int),
            ));
            assert(taken(*set, all, n + 1) =~= taken(*set, all, n).push((*set, line@)));
        }
        proof {
            lemma_still_works(begin, *set, all, n);
        }
        match highlight_next(&mut highlighter, line.as_str(), set) {
            None => {
                proof {
                    assert(highlighted_lines(begin, *set, all, n + 1) is None);
                    lemma_failed(begin, *set, all, n + 1, all.len());
                }
                return unstyled_lines(code);
            },
            Some(pieces) => {
                let shown = pieces_to_line(&pieces);
                let ghost before = lines_view(lines@);
                let ghost view = line_view(shown@);
                lines.push(shown);
                proof {
                    assert(lines_view(lines@) =~= before.push(view));
                    if no_lone_return(code@) {
                        lemma_line_of_pieces(pieces_view(pieces@), line@);
                        assert forall|i: int| 0 <= i < n + 1 implies line_text(
                            #[trigger] lines_view(lines@)[i],
                        ) == text_lines(code@)[i] by {
                            if i < n {
                                assert(lines_view(lines@)[i] == before[i]);
                            }
                        }
                    }
                    n = n + 1;
                }
            },
        }
        start = end;
    }
    proof {
        assert(code@.skip(start as int).len() == 0);
        assert(all.skip(n as int).len() == 0);
        if no_lone_return(code@) {
            assert(lines_texts(lines_view(lines@)) =~= text_lines(code@));
        }
    }
    lines
}

/// A language named by the block goes before what the first line tells, and that before
/// plain text.
pub proof fn law_the_named_language_is_used(set: SyntaxSet, name: Seq<char>, code: Seq<char>)
    ensures
        syntax_by_token(set, name) is Some ==> syntax_for(set, name, code) == syntax_by_token(
            set,
            name,
        ),
        syntax_by_token(set, name) is None && syntax_by_first_line(set, code) is Some
            ==> syntax_for(set, name, code) == syntax_by_first_line(set, code),
        syntax_by_token(set, name) is None && syntax_by_first_line(set, code) is None
            && syntax_by_extension(set, "txt"@) is Some ==> syntax_for(set, name, code)
            == syntax_by_extension(set, "txt"@),
        syntaxes_in(set).len() > 0 ==> syntax_for(set, name, code) is Some,
{
}

/// A piece of code has the color that the theme gives it, unless that is transparent, and
/// no background.
pub proof fn law_pieces_have_their_color(piece: PieceStyle)
    ensures
        ({
            let style = style_of_piece(piece);
            &&& style.fg is Some <==> piece.a > 0
            &&& piece.a > 0 ==> style.fg == Some(Color::Rgb(piece.r, piece.g, piece.b))
            &&& style.bg is None
            &&& style.add.bold == piece.bold
            &&& style.add.italic == piece.italic
            &&& style.add.underlined == piece.underline
            &&& !style.add.crossed_out
        }),
{
}

} // verus!
