//! The themes to choose from, and what the interface takes from them.

use std::io::Cursor;
use std::str::FromStr;

use syntect::highlighting::{
    Color as SyntaxColor, Highlighter, Style as SyntaxStyle, Theme as SyntaxTheme, ThemeSet,
};
use syntect::parsing::{ScopeStack, SyntaxSet};
use vstd::prelude::*;

use crate::config::DEFAULT_THEME;
use crate::exec::{lemma_text_order, lemma_text_transitive, text_before, text_less};
use crate::highlight::{
    comes_with_crate, default_syntaxes, highlight, highlighted, lines_texts, no_lone_return,
    parts_of_style, piece_style, style_of_piece, to_style, PieceStyle,
};
use crate::style::{lines_view, Span, Style};
use crate::text::{same_text, strings_view, text_lines};
use crate::theme::{is_test, MarkdownStyles, Rgb, Theme, ThemeSource};

verus! {

/// The scopes of a Markdown heading's text.
pub const HEADING_SCOPES: &'static str = "text.html.markdown markup.heading.markdown markup.heading.1.markdown entity.name.section.markdown";

/// The scopes of a Markdown heading's marker.
pub const HEADING_MARKER_SCOPES: &'static str = "text.html.markdown markup.heading.markdown markup.heading.1.markdown punctuation.definition.heading.markdown";

/// A color with its opacity.
#[derive(Clone, Copy, Debug, PartialEq, Eq, Structural)]
pub struct Rgba {
    pub r: u8,
    pub g: u8,
    pub b: u8,
    pub a: u8,
}

/// The settings of a syntax theme that the interface uses.
#[derive(Clone, Copy, Debug, PartialEq, Eq, Structural)]
pub struct Settings {
    pub background: Option<Rgba>,
    pub foreground: Option<Rgba>,
    pub accent: Option<Rgba>,
    pub selection: Option<Rgba>,
    pub active_guide: Option<Rgba>,
}

/// The settings that a theme holds.
pub uninterp spec fn settings_in(theme: SyntaxTheme) -> Settings;

/// Reads a theme's `settings`.
#[verifier::external_body]
fn settings_of(theme: &SyntaxTheme) -> (settings: Settings)
    ensures
        settings == settings_in(*theme),
{
    let rgba = |color: SyntaxColor| Rgba { r: color.r, g: color.g, b: color.b, a: color.a };
    let settings = &theme.settings;
    Settings {
        background: settings.background.map(rgba),
        foreground: settings.foreground.map(rgba),
        accent: settings.accent.map(rgba),
        selection: settings.selection.map(rgba),
        active_guide: settings.active_guide.map(rgba),
    }
}

/// `syntect`'s `Theme::default`: a theme without any setting.
#[verifier::external_body]
fn empty_theme() -> (theme: SyntaxTheme)
    ensures
        settings_in(theme) == (Settings {
            background: None,
            foreground: None,
            accent: None,
            selection: None,
            active_guide: None,
        }),
{
    SyntaxTheme::default()
}

/// The style that a theme gives to some scopes.
pub uninterp spec fn scope_style_in(theme: SyntaxTheme, scopes: Seq<char>) -> SyntaxStyle;

/// `Highlighter::style_for_stack`, for scopes read by `ScopeStack::from_str`. Nothing
/// comes back where the scopes cannot be read; that may also be because too many
/// scopes were read before, so nothing is said of when it happens.
#[verifier::external_body]
fn scope_style(theme: &SyntaxTheme, scopes: &str) -> (style: Option<SyntaxStyle>)
    ensures
        style matches Some(s) ==> s == scope_style_in(*theme, scopes@),
{
    let stack = ScopeStack::from_str(scopes).ok()?;
    Some(Highlighter::new(theme).style_for_stack(stack.as_slice()))
}

/// What the interface uses of the style that a theme gives to some scopes.
pub open spec fn scope_piece_in(theme: SyntaxTheme, scopes: Seq<char>) -> PieceStyle {
    parts_of_style(scope_style_in(theme, scopes))
}

fn scope_piece(theme: &SyntaxTheme, scopes: &str) -> (piece: Option<PieceStyle>)
    ensures
        piece matches Some(p) ==> p == scope_piece_in(*theme, scopes@),
{
    match scope_style(theme, scopes) {
        Some(style) => Some(piece_style(&style)),
        None => None,
    }
}

/// The theme that a theme file holds.
pub uninterp spec fn parsed_theme(source: Seq<char>) -> SyntaxTheme;

/// `ThemeSet::load_from_reader`: reads a theme file. Nothing comes back where it
/// cannot be read; that may also be because too many scopes were read before, so
/// nothing is said of when it happens.
#[verifier::external_body]
fn parse_theme(source: &str) -> (theme: Option<SyntaxTheme>)
    ensures
        theme matches Some(t) ==> t == parsed_theme(source@),
{
    ThemeSet::load_from_reader(&mut Cursor::new(source.as_bytes())).ok()
}

/// `ThemeSet::load_defaults`: the themes that come with the crate.
#[verifier::external_body]
fn default_themes() -> ThemeSet {
    ThemeSet::load_defaults()
}

/// The themes of a set by name.
pub uninterp spec fn themes_in(set: ThemeSet) -> Map<Seq<char>, SyntaxTheme>;

/// Looks a theme up in a set's `themes`.
#[verifier::external_body]
fn theme_named(set: &ThemeSet, name: &str) -> (theme: Option<SyntaxTheme>)
    ensures
        theme == (if themes_in(*set).contains_key(name@) {
            Some(themes_in(*set)[name@])
        } else {
            None
        }),
{
    set.themes.get(name).cloned()
}

/// The keys of a set's `themes`, which is a `BTreeMap`: the names of all its themes,
/// in ascending order.
#[verifier::external_body]
fn theme_names(set: &ThemeSet) -> (names: Vec<String>)
    ensures
        strings_view(names@).to_set() == themes_in(*set).dom(),
        names_ascend(strings_view(names@)),
{
    set.themes.keys().cloned().collect()
}

/// The red, green and blue parts of a color.
pub open spec fn rgb_in(color: Option<Rgba>) -> Option<Rgb> {
    match color {
        Some(c) => Some((c.r, c.g, c.b)),
        None => None,
    }
}

fn rgb_of(color: Option<Rgba>) -> (rgb: Option<Rgb>)
    ensures
        rgb == rgb_in(color),
{
    match color {
        Some(c) => Some((c.r, c.g, c.b)),
        None => None,
    }
}

/// The color that a theme gives to some scopes, or none where they could not be read.
pub open spec fn is_scope_color(color: Option<Rgb>, theme: SyntaxTheme, scopes: Seq<char>) -> bool {
    let piece = scope_piece_in(theme, scopes);
    color is None || color == Some((piece.r, piece.g, piece.b))
}

fn scope_color(theme: &SyntaxTheme, scopes: &str) -> (color: Option<Rgb>)
    ensures
        is_scope_color(color, *theme, scopes@),
{
    match scope_piece(theme, scopes) {
        Some(p) => Some((p.r, p.g, p.b)),
        None => None,
    }
}

/// The style of text without scopes: the theme's foreground, or black.
pub open spec fn default_piece(settings: Settings) -> PieceStyle {
    let c = match settings.foreground {
        Some(c) => c,
        None => Rgba { r: 0, g: 0, b: 0, a: 0xFF },
    };
    PieceStyle { r: c.r, g: c.g, b: c.b, a: c.a, bold: false, italic: false, underline: false }
}

/// The Markdown styles of a theme.
pub open spec fn markdown_styles_in(theme: SyntaxTheme) -> MarkdownStyles {
    MarkdownStyles {
        text: style_of_piece(default_piece(settings_in(theme))),
        heading_marker: style_of_piece(scope_piece_in(theme, HEADING_MARKER_SCOPES@)),
        heading: style_of_piece(scope_piece_in(theme, HEADING_SCOPES@)),
    }
}

/// The Markdown styles that follow from the scopes' styles.
pub fn markdown_styles(
    settings: Settings,
    marker: Option<PieceStyle>,
    heading: Option<PieceStyle>,
) -> (styles: Option<MarkdownStyles>)
    ensures
        styles == (if marker is Some && heading is Some {
            Some(
                MarkdownStyles {
                    text: style_of_piece(default_piece(settings)),
                    heading_marker: style_of_piece(marker->0),
                    heading: style_of_piece(heading->0),
                },
            )
        } else {
            None
        }),
{
    let c = match settings.foreground {
        Some(c) => c,
        None => Rgba { r: 0, g: 0, b: 0, a: 0xFF },
    };
    let text = PieceStyle {
        r: c.r,
        g: c.g,
        b: c.b,
        a: c.a,
        bold: false,
        italic: false,
        underline: false,
    };
    match (marker, heading) {
        (Some(marker), Some(heading)) => Some(
            MarkdownStyles {
                text: to_style(text),
                heading_marker: to_style(marker),
                heading: to_style(heading),
            },
        ),
        _ => None,
    }
}

/// The colors that a theme gives to the scopes of a list, one for one.
pub open spec fn are_scope_colors(
    colors: Seq<Option<Rgb>>,
    theme: SyntaxTheme,
    scopes: Seq<Seq<char>>,
) -> bool {
    &&& colors.len() == scopes.len()
    &&& forall|i: int|
        0 <= i < scopes.len() ==> is_scope_color(#[trigger] colors[i], theme, scopes[i])
}

/// What the interface takes from a theme. What belongs to scopes that could not be
/// read is missing.
pub open spec fn is_source_of(source: ThemeSource, theme: SyntaxTheme) -> bool {
    let settings = settings_in(theme);
    &&& source.background == rgb_in(settings.background)
    &&& source.foreground == rgb_in(settings.foreground)
    &&& source.accent == rgb_in(settings.accent)
    &&& source.selection == rgb_in(settings.selection)
    &&& source.active_guide == rgb_in(settings.active_guide)
    &&& are_scope_colors(
        source.active@,
        theme,
        seq!["keyword"@, "entity.name.function"@, "constant.numeric"@],
    )
    &&& are_scope_colors(
        source.success@,
        theme,
        seq![
            "markup.inserted.diff"@,
            "markup.inserted"@,
            "string"@,
            "support.type"@,
            "storage.type"@,
        ],
    )
    &&& are_scope_colors(
        source.error@,
        theme,
        seq!["markup.deleted.diff"@, "markup.deleted"@, "constant.language"@, "invalid"@],
    )
    &&& are_scope_colors(
        source.warning@,
        theme,
        seq!["markup.changed.diff"@, "markup.changed"@, "meta.warning"@, "constant.numeric"@],
    )
    &&& is_scope_color(source.muted, theme, "comment"@)
    &&& source.markdown is None || source.markdown == Some(markdown_styles_in(theme))
}

/// What the interface takes from a theme.
pub fn theme_source(theme: &SyntaxTheme) -> (source: ThemeSource)
    ensures
        is_source_of(source, *theme),
{
    let settings = settings_of(theme);
    let mut active: Vec<Option<Rgb>> = Vec::new();
    active.push(scope_color(theme, "keyword"));
    active.push(scope_color(theme, "entity.name.function"));
    active.push(scope_color(theme, "constant.numeric"));
    let mut success: Vec<Option<Rgb>> = Vec::new();
    success.push(scope_color(theme, "markup.inserted.diff"));
    success.push(scope_color(theme, "markup.inserted"));
    success.push(scope_color(theme, "string"));
    success.push(scope_color(theme, "support.type"));
    success.push(scope_color(theme, "storage.type"));
    let mut error: Vec<Option<Rgb>> = Vec::new();
    error.push(scope_color(theme, "markup.deleted.diff"));
    error.push(scope_color(theme, "markup.deleted"));
    error.push(scope_color(theme, "constant.language"));
    error.push(scope_color(theme, "invalid"));
    let mut warning: Vec<Option<Rgb>> = Vec::new();
    warning.push(scope_color(theme, "markup.changed.diff"));
    warning.push(scope_color(theme, "markup.changed"));
    warning.push(scope_color(theme, "meta.warning"));
    warning.push(scope_color(theme, "constant.numeric"));
    let markdown = markdown_styles(
        settings,
        scope_piece(theme, HEADING_MARKER_SCOPES),
        scope_piece(theme, HEADING_SCOPES),
    );
    ThemeSource {
        background: rgb_of(settings.background),
        foreground: rgb_of(settings.foreground),
        accent: rgb_of(settings.accent),
        selection: rgb_of(settings.selection),
        active_guide: rgb_of(settings.active_guide),
        active,
        success,
        error,
        warning,
        muted: scope_color(theme, "comment"),
        markdown,
    }
}

/// A theme file that comes with the program.
pub struct ThemeFile {
    pub name: String,
    pub source: String,
}

/// The themes to choose from: files that come with the program, and those of
/// the highlighter.
pub struct ThemeLibrary {
    pub files: Vec<ThemeFile>,
    pub builtin: ThemeSet,
}

/// The first file of a name.
pub open spec fn file_named(files: Seq<ThemeFile>, name: Seq<char>) -> Option<Seq<char>>
    decreases files.len(),
{
    if files.len() == 0 {
        None
    } else if files[0].name@ == name {
        Some(files[0].source@)
    } else {
        file_named(files.drop_first(), name)
    }
}

/// The theme that comes with the program under a name.
pub open spec fn bundled_theme(files: Seq<ThemeFile>, name: Seq<char>) -> Option<SyntaxTheme> {
    match file_named(files, name) {
        Some(source) => Some(parsed_theme(source)),
        None => None,
    }
}

/// Names strictly ascend.
pub open spec fn names_ascend(names: Seq<Seq<char>>) -> bool {
    forall|i: int, j: int|
        0 <= i < j < names.len() ==> text_less(#[trigger] names[i], #[trigger] names[j])
}

/// The names of some theme files.
pub open spec fn file_names(files: Seq<ThemeFile>) -> Seq<Seq<char>> {
    files.map_values(|file: ThemeFile| file.name@)
}

/// Inserts a name in its place, unless it is there.
fn insert_name(names: &mut Vec<String>, name: String)
    requires
        names_ascend(strings_view(old(names)@)),
    ensures
        names_ascend(strings_view(final(names)@)),
        strings_view(final(names)@).to_set() == strings_view(old(names)@).to_set().insert(name@),
{
    let ghost before = strings_view(names@);
    let mut i: usize = 0;
    while i < names.len() && text_before(names[i].as_str(), name.as_str())
        invariant
            i <= names@.len(),
            before == strings_view(names@),
            forall|k: int| 0 <= k < i ==> text_less(#[trigger] before[k], name@),
        decreases names@.len() - i,
    {
        assert(before[i as int] == names@[i as int]@);
        i += 1;
    }
    if i < names.len() && same_text(names[i].as_str(), name.as_str()) {
        proof {
            assert(before[i as int] == name@);
            assert(before.contains(name@));
            assert(before.to_set().insert(name@) =~= before.to_set());
        }
        return ;
    }
    let ghost text = name@;
    proof {
        assert forall|k: int| i <= k < before.len() implies text_less(text, #[trigger] before[k]) by {
            assert(before[i as int] == names@[i as int]@);
            lemma_text_order(before[i as int], text);
            if k > i {
                lemma_text_transitive(text, before[i as int], before[k]);
            }
        }
    }
    names.insert(i, name);
    proof {
        let after = strings_view(names@);
        assert(after =~= before.insert(i as int, text));
        assert forall|a: int, b: int| 0 <= a < b < after.len() implies text_less(
            #[trigger] after[a],
            #[trigger] after[b],
        ) by {
            if a < i && b < i {
                assert(after[a] == before[a] && after[b] == before[b]);
            } else if a < i && b > i {
                assert(after[a] == before[a] && after[b] == before[b - 1]);
            } else if a > i {
                assert(after[a] == before[a - 1] && after[b] == before[b - 1]);
            } else if a < i {
                assert(after[a] == before[a]);
            } else {
                assert(after[b] == before[b - 1]);
            }
        }
        assert forall|x: Seq<char>| after.to_set().contains(x) <==> before.to_set().insert(
            text,
        ).contains(x) by {
            if after.contains(x) {
                let k = choose|k: int| 0 <= k < after.len() && after[k] == x;
                if k < i {
                    assert(before[k] == x);
                } else if k > i {
                    assert(before[k - 1] == x);
                }
            }
            if before.contains(x) {
                let k = choose|k: int| 0 <= k < before.len() && before[k] == x;
                if k < i {
                    assert(after[k] == x);
                } else {
                    assert(after[k + 1] == x);
                }
            }
            assert(after[i as int] == text);
        }
        assert(after.to_set() =~= before.to_set().insert(text));
    }
}

/// The first that is there: the theme read from a file, the highlighter's theme of
/// the name, the default theme read from its file, and the highlighter's first.
pub open spec fn picked_theme(
    parsed: Option<SyntaxTheme>,
    named: Option<SyntaxTheme>,
    fallback: Option<SyntaxTheme>,
    first: Option<SyntaxTheme>,
) -> Option<SyntaxTheme> {
    if parsed is Some {
        parsed
    } else if named is Some {
        named
    } else if fallback is Some {
        fallback
    } else {
        first
    }
}

/// Picks the first theme that is there.
pub fn pick_theme(
    parsed: Option<SyntaxTheme>,
    named: Option<SyntaxTheme>,
    fallback: Option<SyntaxTheme>,
    first: Option<SyntaxTheme>,
) -> (theme: Option<SyntaxTheme>)
    ensures
        theme == picked_theme(parsed, named, fallback, first),
{
    if parsed.is_some() {
        parsed
    } else if named.is_some() {
        named
    } else if fallback.is_some() {
        fallback
    } else {
        first
    }
}

impl ThemeLibrary {
    /// The given theme files, and the themes of the highlighter.
    pub fn new(files: Vec<ThemeFile>) -> (library: ThemeLibrary)
        ensures
            library.files == files,
    {
        ThemeLibrary { files, builtin: default_themes() }
    }

    /// The theme under the first name in order.
    pub open spec fn is_first_builtin(&self, theme: SyntaxTheme) -> bool {
        let builtin = themes_in(self.builtin);
        exists|name: Seq<char>|
            {
                &&& #[trigger] builtin.contains_key(name)
                &&& theme == builtin[name]
                &&& forall|other: Seq<char>| #[trigger]
                    builtin.contains_key(other) ==> other == name || text_less(name, other)
            }
    }

    /// The syntax theme of a name: one of the program's, or else of the highlighter's;
    /// where there is none of that name the default theme, or else the first of the
    /// highlighter's. A file that cannot be read counts as missing.
    pub open spec fn is_theme(&self, name: Seq<char>, theme: SyntaxTheme) -> bool {
        let builtin = themes_in(self.builtin);
        ||| bundled_theme(self.files@, name) == Some(theme)
        ||| if builtin.contains_key(name) {
            theme == builtin[name]
        } else {
            ||| bundled_theme(self.files@, DEFAULT_THEME@) == Some(theme)
            ||| self.is_first_builtin(theme)
            ||| builtin.dom() == Set::<Seq<char>>::empty() && settings_in(theme) == (Settings {
                background: None,
                foreground: None,
                accent: None,
                selection: None,
                active_guide: None,
            })
        }
    }

    /// The interface theme of a name: colored after the syntax theme of that name.
    pub open spec fn themed<F: Fn(u8, u8, u8) -> bool>(
        &self,
        theme: Theme,
        name: Seq<char>,
        transparent: bool,
        light: F,
    ) -> bool {
        &&& theme.name@ == name
        &&& exists|syntax: SyntaxTheme, source: ThemeSource| #[trigger]
            self.is_theme(name, syntax) && #[trigger] is_source_of(source, syntax)
                && theme.colored_by(source, transparent, light)
    }

    /// The source of the program's theme of a name.
    pub fn bundled_theme_source(&self, name: &str) -> (source: Option<&str>)
        ensures
            source is Some <==> file_named(self.files@, name@) is Some,
            source matches Some(s) ==> file_named(self.files@, name@) == Some(s@),
    {
        let mut i: usize = 0;
        assert(self.files@.skip(0) =~= self.files@);
        while i < self.files.len()
            invariant
                i <= self.files@.len(),
                file_named(self.files@, name@) == file_named(self.files@.skip(i as int), name@),
            decreases self.files@.len() - i,
        {
            assert(self.files@.skip(i as int)[0] == self.files@[i as int]);
            if same_text(self.files[i].name.as_str(), name) {
                return Some(self.files[i].source.as_str());
            }
            assert(self.files@.skip(i as int).drop_first() =~= self.files@.skip(i + 1));
            i += 1;
        }
        None
    }

    fn load_bundled_theme(&self, name: &str) -> (theme: Option<SyntaxTheme>)
        ensures
            theme matches Some(t) ==> bundled_theme(self.files@, name@) == Some(t),
    {
        match self.bundled_theme_source(name) {
            Some(source) => parse_theme(source),
            None => None,
        }
    }

    fn first_builtin(&self) -> (theme: Option<SyntaxTheme>)
        ensures
            match theme {
                Some(t) => self.is_first_builtin(t),
                None => themes_in(self.builtin).dom() == Set::<Seq<char>>::empty(),
            },
    {
        let names = theme_names(&self.builtin);
        let ghost view = strings_view(names@);
        let ghost builtin = themes_in(self.builtin);
        if names.len() > 0 {
            let found = theme_named(&self.builtin, names[0].as_str());
            proof {
                let first = view[0];
                assert(first == names@[0]@);
                assert(view.contains(first));
                assert(view.to_set().contains(first));
                assert(builtin.dom().contains(first));
                assert(builtin.contains_key(first));
                assert forall|other: Seq<char>| #[trigger]
                    builtin.contains_key(other) implies other == first || text_less(first, other) by {
                    assert(view.to_set().contains(other));
                    let k = choose|k: int| 0 <= k < view.len() && view[k] == other;
                    if k > 0 {
                        assert(text_less(view[0], view[k]));
                    }
                }
                assert(self.is_first_builtin(builtin[first]));
            }
            return found;
        }
        assert(view.to_set() =~= Set::<Seq<char>>::empty());
        None
    }

    /// The syntax theme of a name, or else a default.
    pub fn theme(&self, name: &str) -> (theme: SyntaxTheme)
        ensures
            self.is_theme(name@, theme),
    {
        let parsed = self.load_bundled_theme(name);
        let named = theme_named(&self.builtin, name);
        let fallback = if parsed.is_none() && named.is_none() {
            self.load_bundled_theme(DEFAULT_THEME)
        } else {
            None
        };
        let first = if parsed.is_none() && named.is_none() {
            self.first_builtin()
        } else {
            None
        };
        match pick_theme(parsed, named, fallback, first) {
            Some(theme) => theme,
            None => empty_theme(),
        }
    }

    /// The names of all themes, in ascending order, each once.
    pub fn available_themes(&self) -> (names: Vec<String>)
        ensures
            names_ascend(strings_view(names@)),
            strings_view(names@).to_set() == file_names(self.files@).to_set().union(
                themes_in(self.builtin).dom(),
            ),
    {
        let mut names: Vec<String> = Vec::new();
        let ghost files = file_names(self.files@);
        let mut i: usize = 0;
        assert(strings_view(names@).to_set() =~= files.take(0).to_set());
        while i < self.files.len()
            invariant
                i <= self.files@.len(),
                files == file_names(self.files@),
                names_ascend(strings_view(names@)),
                strings_view(names@).to_set() == files.take(i as int).to_set(),
            decreases self.files@.len() - i,
        {
            insert_name(&mut names, self.files[i].name.clone());
            proof {
                assert(files.take(i + 1) =~= files.take(i as int).push(files[i as int]));
                crate::seqs::lemma_push_contains(files.take(i as int), files[i as int]);
                assert(files.take(i + 1).to_set() =~= files.take(i as int).to_set().insert(
                    files[i as int],
                ));
            }
            i += 1;
        }
        let builtin = theme_names(&self.builtin);
        let ghost more = strings_view(builtin@);
        let mut j: usize = 0;
        proof {
            assert(files.take(i as int) =~= files);
            assert(files.to_set() =~= files.to_set().union(more.take(0).to_set()));
        }
        while j < builtin.len()
            invariant
                j <= builtin@.len(),
                more == strings_view(builtin@),
                names_ascend(strings_view(names@)),
                strings_view(names@).to_set() == files.to_set().union(
                    more.take(j as int).to_set(),
                ),
            decreases builtin@.len() - j,
        {
            insert_name(&mut names, builtin[j].clone());
            proof {
                assert(more.take(j + 1) =~= more.take(j as int).push(more[j as int]));
                crate::seqs::lemma_push_contains(more.take(j as int), more[j as int]);
                assert(files.to_set().union(more.take(j + 1).to_set()) =~= files.to_set().union(
                    more.take(j as int).to_set(),
                ).insert(more[j as int]));
            }
            j += 1;
        }
        assert(more.take(j as int) =~= more);
        names
    }
}

impl Theme {
    /// The interface theme of a name. `light` tells light colors from dark ones.
    pub fn new<F: Fn(u8, u8, u8) -> bool>(
        name: &str,
        transparent: bool,
        library: &ThemeLibrary,
        light: F,
    ) -> (theme: Theme)
        requires
            is_test(light),
        ensures
            library.themed(theme, name@, transparent, light),
    {
        let syntax = library.theme(name);
        let source = theme_source(&syntax);
        Theme::from_source(name, &source, transparent, light)
    }
}

/// Highlights code in the colors of one theme.
pub struct Painter {
    syntaxes: SyntaxSet,
    theme: SyntaxTheme,
}

impl Painter {
    #[verifier::type_invariant]
    spec fn has_default_syntaxes(self) -> bool {
        comes_with_crate(self.syntaxes)
    }

    /// The syntaxes that are told apart.
    pub closed spec fn syntax_set(&self) -> SyntaxSet {
        self.syntaxes
    }

    /// The theme whose colors are used.
    pub closed spec fn syntax_theme(&self) -> SyntaxTheme {
        self.theme
    }

    /// Paints in the colors of the theme of a name.
    pub fn new(name: &str, library: &ThemeLibrary) -> (painter: Painter)
        ensures
            library.is_theme(name@, painter.syntax_theme()),
    {
        Painter { syntaxes: default_syntaxes(), theme: library.theme(name) }
    }

    /// The syntaxes that are told apart.
    pub fn syntaxes(&self) -> (set: &SyntaxSet)
        ensures
            *set == self.syntax_set(),
    {
        &self.syntaxes
    }

    /// Highlighted code.
    pub open spec fn painted(&self, code: Seq<char>, ext: Seq<char>) -> Seq<
        Seq<(Seq<char>, Style)>,
    > {
        highlighted(self.syntax_set(), self.syntax_theme(), code, ext)
    }

    /// Highlights code; plain lines where that fails. Unless a carriage return
    /// stands alone, what is shown has the code's own lines.
    pub fn highlight(&self, code: &str, ext: &str) -> (lines: Vec<Vec<Span>>)
        ensures
            lines_view(lines@) == self.painted(code@, ext@),
            no_lone_return(code@) ==> lines_texts(lines_view(lines@)) == text_lines(code@),
    {
        proof {
            use_type_invariant(self);
        }
        highlight(&self.syntaxes, &self.theme, code, ext)
    }
}

/// A theme of the wanted name goes before any other: one from a file first, then one of
/// the highlighter. Only without either is the default taken, and there is a theme as
/// long as there is any.
pub proof fn law_the_named_theme_is_picked(
    parsed: Option<SyntaxTheme>,
    named: Option<SyntaxTheme>,
    fallback: Option<SyntaxTheme>,
    first: Option<SyntaxTheme>,
    theme: SyntaxTheme,
)
    ensures
        picked_theme(Some(theme), named, fallback, first) == Some(theme),
        picked_theme(None, Some(theme), fallback, first) == Some(theme),
        picked_theme(None, None, Some(theme), first) == Some(theme),
        picked_theme(None, None, None, first) == first,
        picked_theme(parsed, named, fallback, first) is None <==> parsed is None && named is None
            && fallback is None && first is None,
{
}

/// Of the files with a name, the first counts.
pub proof fn law_the_first_file_counts(files: Seq<ThemeFile>, name: Seq<char>, i: int)
    requires
        0 <= i < files.len(),
        files[i].name@ == name,
        forall|j: int| 0 <= j < i ==> (#[trigger] files[j]).name@ != name,
    ensures
        file_named(files, name) == Some(files[i].source@),
    decreases i,
{
    if i > 0 {
        assert(files[0].name@ != name);
        let rest = files.drop_first();
        assert forall|j: int| 0 <= j < i - 1 implies (#[trigger] rest[j]).name@ != name by {
            assert(files[j + 1].name@ != name);
        }
        law_the_first_file_counts(rest, name, i - 1);
    }
}

/// A name that no file has is not found.
pub proof fn law_missing_files_are_not_found(files: Seq<ThemeFile>, name: Seq<char>)
    requires
        forall|j: int| 0 <= j < files.len() ==> (#[trigger] files[j]).name@ != name,
    ensures
        file_named(files, name) is None,
    decreases files.len(),
{
    if files.len() > 0 {
        assert(files[0].name@ != name);
        let rest = files.drop_first();
        assert forall|j: int| 0 <= j < rest.len() implies (#[trigger] rest[j]).name@ != name by {
            assert(files[j + 1].name@ != name);
        }
        law_missing_files_are_not_found(rest, name);
    }
}

} // verus!
