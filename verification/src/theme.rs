//! Theme colors and the styles drawn from them.

use vstd::prelude::*;

use crate::style::{
    dim_only, italic_only, line_view, lemma_line_push, plain, underlined_only, Color, Span, Style,
};

verus! {

/// Brand accent for the "up" portion of the logo.
pub open spec fn logo_color() -> Color {
    Color::Rgb(0x00, 0xB8, 0xD4)
}

/// Red, green and blue parts of a color.
pub type Rgb = (u8, u8, u8);

/// The colors that a syntax theme gives to what the interface shows.
///
/// The lists hold, in order of preference, what the theme gives to the scopes
/// that stand for a purpose; `None` where it cannot tell.
pub struct ThemeSource {
    pub background: Option<Rgb>,
    pub foreground: Option<Rgb>,
    pub accent: Option<Rgb>,
    pub selection: Option<Rgb>,
    pub active_guide: Option<Rgb>,
    pub active: Vec<Option<Rgb>>,
    pub success: Vec<Option<Rgb>>,
    pub error: Vec<Option<Rgb>>,
    pub warning: Vec<Option<Rgb>>,
    pub muted: Option<Rgb>,
    pub markdown: Option<MarkdownStyles>,
}

/// Styles of Markdown text.
#[derive(Clone, Copy, Debug, PartialEq, Eq)]
pub struct MarkdownStyles {
    pub text: Style,
    pub heading_marker: Style,
    pub heading: Style,
}

/// A shade of green, or a strong cyan.
pub open spec fn greenish(c: Rgb) -> bool {
    (c.1 > c.0 && c.1 > c.2) || (c.1 > c.0 && c.2 > c.0 && c.1 >= 150 && c.2 >= 150)
}

/// A shade of red, or a strong magenta.
pub open spec fn reddish(c: Rgb) -> bool {
    (c.0 > c.1 && c.0 > c.2) || (c.0 > c.1 && c.2 > c.1 && c.0 >= 200)
}

/// A shade of yellow.
pub open spec fn yellowish(c: Rgb) -> bool {
    c.0 > c.2 && c.1 > c.2 && c.0 - c.1 < 80 && c.1 - c.0 < 80
}

/// Whether the color is a shade of green, or a strong cyan.
pub fn is_greenish(r: u8, g: u8, b: u8) -> (yes: bool)
    ensures
        yes == greenish((r, g, b)),
{
    g > r && g > b || (g > r && b > r && g >= 150 && b >= 150)
}

/// Whether the color is a shade of red, or a strong magenta.
pub fn is_reddish(r: u8, g: u8, b: u8) -> (yes: bool)
    ensures
        yes == reddish((r, g, b)),
{
    r > g && r > b || (r > g && b > g && r >= 200)
}

/// Whether the color is a shade of yellow.
pub fn is_yellowish(r: u8, g: u8, b: u8) -> (yes: bool)
    ensures
        yes == yellowish((r, g, b)),
{
    let apart: u8 = if r >= g {
        r - g
    } else {
        g - r
    };
    r > b && g > b && apart < 80
}

/// What a scope color has to look like to serve a purpose.
#[derive(Clone, Copy, Debug, PartialEq, Eq, Structural)]
pub enum Hue {
    Any,
    Green,
    Red,
    Yellow,
}

/// The color looks as asked.
pub open spec fn hue_fits(hue: Hue, c: Rgb) -> bool {
    match hue {
        Hue::Any => true,
        Hue::Green => greenish(c),
        Hue::Red => reddish(c),
        Hue::Yellow => yellowish(c),
    }
}

/// The first known color that looks as asked.
pub open spec fn first_fit(colors: Seq<Option<Rgb>>, hue: Hue) -> Option<Rgb>
    decreases colors.len(),
{
    if colors.len() == 0 {
        None
    } else if colors[0] is Some && hue_fits(hue, colors[0]->0) {
        colors[0]
    } else {
        first_fit(colors.drop_first(), hue)
    }
}

/// The first of `a` and `b` that is known.
pub open spec fn known(a: Option<Rgb>, b: Option<Rgb>) -> Option<Rgb> {
    if a is Some {
        a
    } else {
        b
    }
}

fn or(a: Option<Rgb>, b: Option<Rgb>) -> (c: Option<Rgb>)
    ensures
        c == known(a, b),
{
    match a {
        Some(color) => Some(color),
        None => b,
    }
}

/// The first known color that looks as asked.
pub fn find_color(colors: &[Option<Rgb>], hue: Hue) -> (found: Option<Rgb>)
    ensures
        found == first_fit(colors@, hue),
{
    let mut i: usize = 0;
    assert(colors@.skip(0) =~= colors@);
    while i < colors.len()
        invariant
            i <= colors.len(),
            first_fit(colors@, hue) == first_fit(colors@.skip(i as int), hue),
        decreases colors.len() - i,
    {
        if let Some((r, g, b)) = colors[i] {
            let fits = match hue {
                Hue::Any => true,
                Hue::Green => is_greenish(r, g, b),
                Hue::Red => is_reddish(r, g, b),
                Hue::Yellow => is_yellowish(r, g, b),
            };
            if fits {
                return Some((r, g, b));
            }
        }
        assert(colors@.skip(i as int).drop_first() =~= colors@.skip(i + 1));
        i += 1;
    }
    None
}

impl ThemeSource {
    /// The color of what is active.
    pub open spec fn active_color(&self) -> Option<Rgb> {
        known(known(first_fit(self.active@, Hue::Any), self.active_guide), self.accent)
    }

    /// The color of success.
    pub open spec fn success_color(&self) -> Option<Rgb> {
        known(first_fit(self.success@, Hue::Green), self.accent)
    }

    /// The color of an error.
    pub open spec fn error_color(&self) -> Option<Rgb> {
        known(first_fit(self.error@, Hue::Red), self.accent)
    }

    /// The color of a warning.
    pub open spec fn warning_color(&self) -> Option<Rgb> {
        known(known(first_fit(self.warning@, Hue::Yellow), self.accent), self.active_color())
    }

    /// The color of what is active: the first known scope color, then the
    /// guide color, then the accent.
    pub fn find_active_color(&self) -> (color: Option<Rgb>)
        ensures
            color == self.active_color(),
    {
        or(or(find_color(self.active.as_slice(), Hue::Any), self.active_guide), self.accent)
    }

    /// The first green scope color, else the accent.
    pub fn find_success_color(&self) -> (color: Option<Rgb>)
        ensures
            color == self.success_color(),
    {
        or(find_color(self.success.as_slice(), Hue::Green), self.accent)
    }

    /// The first red scope color, else the accent.
    pub fn find_error_color(&self) -> (color: Option<Rgb>)
        ensures
            color == self.error_color(),
    {
        or(find_color(self.error.as_slice(), Hue::Red), self.accent)
    }

    /// The first yellow scope color, else the accent, else the active color.
    pub fn find_warning_color(&self) -> (color: Option<Rgb>)
        ensures
            color == self.warning_color(),
    {
        or(
            or(find_color(self.warning.as_slice(), Hue::Yellow), self.accent),
            self.find_active_color(),
        )
    }
}

/// A known color as it is, an unknown one as the terminal's own.
pub open spec fn color_of(rgb: Option<Rgb>) -> Color {
    match rgb {
        Some((r, g, b)) => Color::Rgb(r, g, b),
        None => Color::Reset,
    }
}

/// A known color as it is, an unknown one as the terminal's own.
pub fn to_color(rgb: Option<Rgb>) -> (color: Color)
    ensures
        color == color_of(rgb),
{
    match rgb {
        Some((r, g, b)) => Color::Rgb(r, g, b),
        None => Color::Reset,
    }
}

/// One part of a color moved by `amount` within its range.
pub open spec fn moved(part: u8, amount: int) -> u8 {
    if part + amount < 0 {
        0u8
    } else if part + amount > 255 {
        255u8
    } else {
        (part + amount) as u8
    }
}

/// A color made lighter (or, with a negative amount, darker).
pub open spec fn lightened(color: Color, amount: int) -> Color {
    match color {
        Color::Rgb(r, g, b) => Color::Rgb(moved(r, amount), moved(g, amount), moved(b, amount)),
        _ => color,
    }
}

/// A light color made darker, a dark color made lighter.
pub open spec fn contrasted(color: Color, amount: int, light: bool) -> Color {
    lightened(
        color,
        if light {
            -amount
        } else {
            amount
        },
    )
}

/// The parts of a color can be moved by an amount.
pub open spec fn can_move(color: Color, amount: int) -> bool {
    match color {
        Color::Rgb(r, g, b) => {
            &&& r + amount <= i16::MAX
            &&& g + amount <= i16::MAX
            &&& b + amount <= i16::MAX
        },
        _ => true,
    }
}

fn move_part(part: u8, amount: i16) -> (out: u8)
    requires
        part + amount <= i16::MAX,
    ensures
        out == moved(part, amount as int),
{
    let sum: i16 = part as i16 + amount;
    if sum < 0 {
        0
    } else if sum > 255 {
        255
    } else {
        sum as u8
    }
}

/// Adjusts color lightness by the given amount (positive = lighter, negative =
/// darker).
pub fn adjust_lightness(color: Color, amount: i16) -> (out: Color)
    requires
        can_move(color, amount as int),
    ensures
        out == lightened(color, amount as int),
{
    match color {
        Color::Rgb(r, g, b) => Color::Rgb(
            move_part(r, amount),
            move_part(g, amount),
            move_part(b, amount),
        ),
        _ => color,
    }
}

/// A test for light colors can be asked about any color and always gives the
/// same answer for it.
pub open spec fn is_test<F: Fn(u8, u8, u8) -> bool>(light: F) -> bool {
    &&& forall|r: u8, g: u8, b: u8| #[trigger] call_requires(light, (r, g, b))
    &&& forall|r: u8, g: u8, b: u8, x: bool, y: bool| #[trigger]
        call_ensures(light, (r, g, b), x) && #[trigger] call_ensures(light, (r, g, b), y) ==> x
            == y
}

/// The test calls the color light.
pub open spec fn tests_light<F: Fn(u8, u8, u8) -> bool>(light: F, color: Color) -> bool {
    match color {
        Color::Rgb(r, g, b) => call_ensures(light, (r, g, b), true),
        _ => false,
    }
}

/// Adjusts color lightness towards the opposite of the current contrast: a
/// color that `light` calls light is darkened, another one lightened.
pub fn adjust_contrast<F: Fn(u8, u8, u8) -> bool>(color: Color, amount: i16, light: &F) -> (out:
    Color)
    requires
        tests_light(*light, color) ==> amount > i16::MIN && can_move(color, -amount),
        !tests_light(*light, color) ==> can_move(color, amount as int),
        is_test(*light),
    ensures
        out == contrasted(color, amount as int, tests_light(*light, color)),
{
    match color {
        Color::Rgb(r, g, b) => {
            if light(r, g, b) {
                adjust_lightness(color, -amount)
            } else {
                adjust_lightness(color, amount)
            }
        },
        _ => color,
    }
}

/// The current theme.
pub struct Theme {
    pub name: String,
    pub accent: Color,
    pub background: Color,
    pub foreground: Color,
    pub code_background: Color,
    pub output_background: Color,
    pub info_background: Color,
    pub info_foreground: Color,
    pub active: Color,
    pub success: Color,
    pub error: Color,
    pub logo: Color,
    pub muted: Color,
    pub warning: Color,
    /// Text on the accent color.
    pub accent_text: Color,
    /// Text on the active color.
    pub active_text: Color,
    /// Text on the success color.
    pub success_text: Color,
    /// Text on the error color.
    pub error_text: Color,
    pub markdown: MarkdownStyles,
}

impl Default for Theme {
    /// The default theme without any color of its own.
    fn default() -> (theme: Theme)
        ensures
            theme.name@ == crate::config::DEFAULT_THEME@,
            theme.uncolored(),
    {
        let markdown = MarkdownStyles {
            text: Style::default(),
            heading_marker: Style::default(),
            heading: Style::default(),
        };
        Theme {
            name: crate::config::DEFAULT_THEME.to_owned(),
            accent: Color::Reset,
            background: Color::Reset,
            foreground: Color::Reset,
            code_background: Color::Reset,
            output_background: Color::Reset,
            info_background: Color::Reset,
            info_foreground: Color::Reset,
            active: Color::Reset,
            success: Color::Reset,
            error: Color::Reset,
            logo: Color::Reset,
            muted: Color::Reset,
            warning: Color::Reset,
            accent_text: Color::Reset,
            active_text: Color::Reset,
            success_text: Color::Reset,
            error_text: Color::Reset,
            markdown,
        }
    }
}

/// The background of code, from the theme's own background.
pub open spec fn code_background_of<F: Fn(u8, u8, u8) -> bool>(
    background: Option<Rgb>,
    light: F,
) -> Color {
    match background {
        Some((r, g, b)) => contrasted(
            Color::Rgb(r, g, b),
            15,
            tests_light(light, Color::Rgb(r, g, b)),
        ),
        None => Color::Indexed(236),
    }
}

/// Calculates the code background from the main background: a dark one is
/// lightened, a light one darkened.
pub fn calculate_code_background<F: Fn(u8, u8, u8) -> bool>(
    background: Option<Rgb>,
    light: &F,
) -> (color: Color)
    requires
        is_test(*light),
    ensures
        color == code_background_of(background, *light),
{
    match background {
        Some((r, g, b)) => adjust_contrast(Color::Rgb(r, g, b), 15, light),
        None => Color::Indexed(236),
    }
}

impl Theme {
    /// Every color is the terminal's own.
    pub open spec fn uncolored(&self) -> bool {
        &&& self.accent == Color::Reset
        &&& self.background == Color::Reset
        &&& self.foreground == Color::Reset
        &&& self.code_background == Color::Reset
        &&& self.output_background == Color::Reset
        &&& self.info_background == Color::Reset
        &&& self.info_foreground == Color::Reset
        &&& self.active == Color::Reset
        &&& self.success == Color::Reset
        &&& self.error == Color::Reset
        &&& self.logo == Color::Reset
        &&& self.muted == Color::Reset
        &&& self.warning == Color::Reset
        &&& self.accent_text == Color::Reset
        &&& self.active_text == Color::Reset
        &&& self.success_text == Color::Reset
        &&& self.error_text == Color::Reset
        &&& self.markdown.text == plain()
        &&& self.markdown.heading_marker == plain()
        &&& self.markdown.heading == plain()
    }

    /// The colors are those that follow from a source.
    pub open spec fn colored_by<F: Fn(u8, u8, u8) -> bool>(
        &self,
        source: ThemeSource,
        transparent: bool,
        light: F,
    ) -> bool {
        let text_on = |color: Color| contrasted(color, 100, tests_light(light, color));
        let code = code_background_of(source.background, light);
        let info = contrasted(code, 15, tests_light(light, code));
        let fallback = plain().fg_spec(self.foreground);
        &&& self.background == if transparent {
            Color::Reset
        } else {
            color_of(source.background)
        }
        &&& self.foreground == if transparent {
            Color::Reset
        } else {
            color_of(source.foreground)
        }
        &&& self.accent == color_of(known(source.accent, source.selection))
        &&& self.active == color_of(source.active_color())
        &&& self.muted == color_of(source.muted)
        &&& self.code_background == code
        &&& self.output_background == contrasted(code, -7, tests_light(light, code))
        &&& self.info_background == info
        &&& self.info_foreground == contrasted(info, 70, tests_light(light, info))
        &&& self.warning == color_of(source.warning_color())
        &&& self.success == color_of(source.success_color())
        &&& self.error == color_of(source.error_color())
        &&& self.logo == logo_color()
        &&& self.accent_text == text_on(self.accent)
        &&& self.active_text == text_on(self.active)
        &&& self.success_text == text_on(self.success)
        &&& self.error_text == text_on(self.error)
        &&& self.markdown == (match source.markdown {
            Some(styles) => styles,
            None => MarkdownStyles { text: fallback, heading_marker: fallback, heading: fallback },
        })
    }

    /// Derives the interface colors from a syntax theme. `light` tells light
    /// colors from dark ones.
    pub fn from_source<F: Fn(u8, u8, u8) -> bool>(
        name: &str,
        source: &ThemeSource,
        transparent: bool,
        light: F,
    ) -> (theme: Theme)
        requires
            is_test(light),
        ensures
            theme.name@ == name@,
            theme.colored_by(*source, transparent, light),
    {
        let background = if transparent {
            Color::Reset
        } else {
            to_color(source.background)
        };
        let foreground = if transparent {
            Color::Reset
        } else {
            to_color(source.foreground)
        };
        let accent = to_color(or(source.accent, source.selection));
        let active = to_color(source.find_active_color());
        let muted = to_color(source.muted);
        let code_background = calculate_code_background(source.background, &light);
        let output_background = adjust_contrast(code_background, -7, &light);
        let info_background = adjust_contrast(code_background, 15, &light);
        let info_foreground = adjust_contrast(info_background, 70, &light);
        let warning = to_color(source.find_warning_color());
        let success = to_color(source.find_success_color());
        let error = to_color(source.find_error_color());
        let fallback = Style::default().fg(foreground);
        let markdown = match source.markdown {
            Some(styles) => styles,
            None => MarkdownStyles { text: fallback, heading_marker: fallback, heading: fallback },
        };
        Theme {
            name: name.to_owned(),
            accent,
            background,
            foreground,
            code_background,
            output_background,
            info_background,
            info_foreground,
            active,
            success,
            error,
            logo: Color::Rgb(0x00, 0xB8, 0xD4),
            muted,
            warning,
            accent_text: adjust_contrast(accent, 100, &light),
            active_text: adjust_contrast(active, 100, &light),
            success_text: adjust_contrast(success, 100, &light),
            error_text: adjust_contrast(error, 100, &light),
            markdown,
        }
    }
}

/// What a key binding shows in a footer.
pub struct KeyHelp {
    pub symbol: Option<String>,
    pub help: Option<String>,
}

impl KeyHelp {
    /// Both the symbol and the help text are there and not empty.
    pub open spec fn shown(&self) -> bool {
        &&& self.symbol is Some
        &&& self.help is Some
        &&& self.symbol->0@.len() > 0
        &&& self.help->0@.len() > 0
    }
}

/// A key with its description.
pub open spec fn shortcut_spans(theme: Theme, key: Seq<char>, desc: Seq<char>) -> Seq<
    (Seq<char>, Style),
> {
    seq![(key, theme.active_fg()), (" "@ + desc, theme.muted_fg())]
}

/// Keys with their descriptions, two blanks apart.
pub open spec fn shortcuts_line(theme: Theme, keys: Seq<(String, String)>) -> Seq<(Seq<char>, Style)>
    decreases keys.len(),
{
    if keys.len() == 0 {
        Seq::empty()
    } else if keys.len() == 1 {
        shortcut_spans(theme, keys[0].0@, keys[0].1@)
    } else {
        shortcuts_line(theme, keys.drop_last()).push(("  "@, theme.inactive_fg()))
            + shortcut_spans(theme, keys.last().0@, keys.last().1@)
    }
}

impl Theme {
    /// The theme's name.
    pub fn name(&self) -> (name: &str)
        ensures
            name@ == self.name@,
    {
        self.name.as_str()
    }

    /// The style of ordinary text.
    pub open spec fn base(&self) -> Style {
        plain().fg_spec(self.foreground)
    }

    /// The style of text in the active color.
    pub open spec fn active_fg(&self) -> Style {
        plain().fg_spec(self.active)
    }

    /// The style of text in the muted color.
    pub open spec fn muted_fg(&self) -> Style {
        plain().fg_spec(self.muted)
    }

    /// The style of what is inactive.
    pub open spec fn inactive_fg(&self) -> Style {
        plain().fg_spec(self.info_background)
    }

    /// The style of a code block's info line.
    pub open spec fn code_info(&self) -> Style {
        plain().bg_spec(self.info_background).fg_spec(self.info_foreground)
    }

    /// The style of the entire application.
    pub open spec fn global(&self) -> Style {
        plain().bg_spec(self.background).fg_spec(self.foreground)
    }

    /// The style of what is selected or found.
    pub open spec fn marked(&self) -> Style {
        plain().bg_spec(self.accent).fg_spec(self.accent_text)
    }

    /// Inline code.
    pub open spec fn inline_code(&self) -> Style {
        plain().fg_spec(self.active).bg_spec(self.code_background)
    }

    /// Links.
    pub open spec fn link(&self) -> Style {
        plain().fg_spec(self.accent).add_spec(underlined_only())
    }

    /// Alternative texts of images.
    pub open spec fn image(&self) -> Style {
        plain().fg_spec(self.muted).add_spec(italic_only())
    }

    pub fn style(&self) -> (style: Style)
        ensures
            style == self.base(),
    {
        Style::default().fg(self.foreground)
    }

    /// Style of ordinary Markdown text in this theme.
    pub fn markdown_text_style(&self) -> (style: Style)
        ensures
            style == self.markdown.text,
    {
        self.markdown.text
    }

    /// Style of the `#` marker of a Markdown heading.
    pub fn markdown_heading_marker_style(&self) -> (style: Style)
        ensures
            style == self.markdown.heading_marker,
    {
        self.markdown.heading_marker
    }

    /// Style of Markdown heading text in this theme.
    pub fn markdown_heading_style(&self) -> (style: Style)
        ensures
            style == self.markdown.heading,
    {
        self.markdown.heading
    }

    /// The base style for the entire application, including the background.
    pub fn global_style(&self) -> (style: Style)
        ensures
            style == self.global(),
    {
        Style::default().bg(self.background).fg(self.foreground)
    }

    pub fn active_style(&self) -> (style: Style)
        ensures
            style == plain().bg_spec(self.active).fg_spec(self.active_text),
    {
        Style::default().bg(self.active).fg(self.active_text)
    }

    pub fn inactive_style(&self) -> (style: Style)
        ensures
            style == self.inactive_fg(),
    {
        Style::default().fg(self.info_background)
    }

    pub fn table_header_style(&self) -> (style: Style)
        ensures
            style == self.code_info(),
    {
        self.code_info_style()
    }

    pub fn rule_style(&self) -> (style: Style)
        ensures
            style == self.inactive_fg().add_spec(dim_only()),
    {
        Style::default().fg(self.info_background).dim()
    }

    pub fn code_style(&self) -> (style: Style)
        ensures
            style == plain().bg_spec(self.code_background),
    {
        Style::default().bg(self.code_background)
    }

    pub fn code_info_style(&self) -> (style: Style)
        ensures
            style == self.code_info(),
    {
        Style::default().bg(self.info_background).fg(self.info_foreground)
    }

    pub fn success_style(&self) -> (style: Style)
        ensures
            style == plain().fg_spec(self.success),
    {
        Style::default().fg(self.success)
    }

    pub fn success_badge_style(&self) -> (style: Style)
        ensures
            style == plain().bg_spec(self.success).fg_spec(self.success_text),
    {
        Style::default().bg(self.success).fg(self.success_text)
    }

    pub fn error_style(&self) -> (style: Style)
        ensures
            style == plain().fg_spec(self.error),
    {
        Style::default().fg(self.error)
    }

    pub fn error_badge_style(&self) -> (style: Style)
        ensures
            style == plain().bg_spec(self.error).fg_spec(self.error_text),
    {
        Style::default().bg(self.error).fg(self.error_text)
    }

    pub fn muted_style(&self) -> (style: Style)
        ensures
            style == self.muted_fg(),
    {
        Style::default().fg(self.muted)
    }

    pub fn info_badge_style(&self) -> (style: Style)
        ensures
            style == plain().bg_spec(self.active).fg_spec(self.active_text),
    {
        Style::default().bg(self.active).fg(self.active_text)
    }

    pub fn active_fg_style(&self) -> (style: Style)
        ensures
            style == self.active_fg(),
    {
        Style::default().fg(self.active)
    }

    pub fn warning_fg_style(&self) -> (style: Style)
        ensures
            style == plain().fg_spec(self.warning),
    {
        Style::default().fg(self.warning)
    }

    /// Style for inline code runs inside markdown text.
    pub fn inline_code_style(&self) -> (style: Style)
        ensures
            style == self.inline_code(),
    {
        Style::default().fg(self.active).bg(self.code_background)
    }

    /// Style for inline links in markdown text.
    pub fn link_style(&self) -> (style: Style)
        ensures
            style == self.link(),
    {
        Style::default().fg(self.accent).underlined()
    }

    /// Style for inline images (rendered as their alt text) in markdown text.
    pub fn image_style(&self) -> (style: Style)
        ensures
            style == self.image(),
    {
        Style::default().fg(self.muted).italic()
    }

    /// Style of a running task.
    pub fn running_style(&self) -> (style: Style)
        ensures
            style == plain().fg_spec(self.warning),
    {
        self.warning_fg_style()
    }

    pub fn selection_style(&self) -> (style: Style)
        ensures
            style == self.marked(),
    {
        Style::default().bg(self.accent).fg(self.accent_text)
    }

    pub fn search_highlight_style(&self) -> (style: Style)
        ensures
            style == self.marked(),
    {
        Style::default().bg(self.accent).fg(self.accent_text)
    }

    pub fn logo_style(&self) -> (style: Style)
        ensures
            style == plain().fg_spec(self.logo),
    {
        Style::default().fg(self.logo)
    }

    /// A styled badge for a mode label: the label between blanks, on `color`.
    pub fn mode_badge<F: Fn(u8, u8, u8) -> bool>(&self, label: &str, color: Color, light: F) -> (
        badge: Span)
        requires
            is_test(light),
        ensures
            badge@ == (
                " "@ + label@ + " "@,
                plain().bg_spec(color).fg_spec(
                    contrasted(color, 100, tests_light(light, color)),
                ),
            ),
    {
        let fg = adjust_contrast(color, 100, &light);
        let mut text = " ".to_owned();
        text.append(label);
        text.append(" ");
        Span::styled(text, Style::default().bg(color).fg(fg))
    }

    /// Keys with their descriptions, two blanks apart.
    pub fn shortcuts(&self, keys: &[(String, String)]) -> (spans: Vec<Span>)
        ensures
            line_view(spans@) == shortcuts_line(*self, keys@),
    {
        let mut spans: Vec<Span> = Vec::new();
        let mut i: usize = 0;
        assert(line_view(spans@) =~= shortcuts_line(*self, keys@.take(0)));
        while i < keys.len()
            invariant
                i <= keys.len(),
                line_view(spans@) == shortcuts_line(*self, keys@.take(i as int)),
            decreases keys.len() - i,
        {
            let ghost start = line_view(spans@);
            if i > 0 {
                let gap = Span::styled("  ".to_owned(), self.inactive_style());
                proof {
                    lemma_line_push(spans@, gap);
                }
                spans.push(gap);
            }
            let ghost opened = line_view(spans@);
            let key = Span::styled(keys[i].0.clone(), self.active_fg_style());
            proof {
                lemma_line_push(spans@, key);
            }
            spans.push(key);
            let mut text = " ".to_owned();
            text.append(keys[i].1.as_str());
            let desc = Span::styled(text, self.muted_style());
            proof {
                lemma_line_push(spans@, desc);
            }
            spans.push(desc);
            proof {
                let longer = keys@.take(i + 1);
                assert(longer.drop_last() =~= keys@.take(i as int));
                let pair = shortcut_spans(*self, keys@[i as int].0@, keys@[i as int].1@);
                assert(line_view(spans@) =~= opened + pair);
                if i == 0 {
                    assert(opened =~= Seq::empty());
                    assert(line_view(spans@) =~= pair);
                    assert(longer[0] == keys@[0]);
                } else {
                    assert(longer.last() == keys@[i as int]);
                }
            }
            i += 1;
        }
        assert(keys@.take(i as int) =~= keys@);
        spans
    }

    /// The keys of a footer: those with both a symbol and a help text.
    pub fn keymap_shortcuts(&self, items: &[KeyHelp]) -> (spans: Vec<Span>)
        ensures
            exists|keys: Seq<(String, String)>| #[trigger]
                shown_keys(items@, keys) && line_view(spans@) == shortcuts_line(*self, keys),
    {
        let mut keys: Vec<(String, String)> = Vec::new();
        let mut i: usize = 0;
        assert(shown_keys(items@.take(0), keys@));
        while i < items.len()
            invariant
                i <= items.len(),
                shown_keys(items@.take(i as int), keys@),
            decreases items.len() - i,
        {
            let ghost before = keys@;
            if let (Some(symbol), Some(help)) = (&items[i].symbol, &items[i].help) {
                if symbol.as_str().unicode_len() > 0 && help.as_str().unicode_len() > 0 {
                    keys.push((symbol.clone(), help.clone()));
                }
            }
            proof {
                let longer = items@.take(i + 1);
                let item = items@[i as int];
                assert(longer.drop_last() =~= items@.take(i as int));
                assert(longer.last() == item);
                if item.shown() {
                    assert(keys@.drop_last() =~= before);
                }
            }
            i += 1;
        }
        assert(items@.take(i as int) =~= items@);
        assert(shown_keys(items@, keys@));
        self.shortcuts(keys.as_slice())
    }
}

/// `keys` are the symbols and help texts of the items that show both.
pub open spec fn shown_keys(items: Seq<KeyHelp>, keys: Seq<(String, String)>) -> bool
    decreases items.len(),
{
    if items.len() == 0 {
        keys.len() == 0
    } else if items.last().shown() {
        &&& keys.len() > 0
        &&& keys.last().0@ == items.last().symbol->0@
        &&& keys.last().1@ == items.last().help->0@
        &&& shown_keys(items.drop_last(), keys.drop_last())
    } else {
        shown_keys(items.drop_last(), keys)
    }
}

/// The color that is taken is the first of those that fit.
pub proof fn law_the_first_fitting_color_is_taken(colors: Seq<Option<Rgb>>, hue: Hue)
    ensures
        first_fit(colors, hue) matches Some(color) ==> hue_fits(hue, color) && exists|i: int|
            0 <= i < colors.len() && #[trigger] colors[i] == Some(color) && forall|j: int|
                0 <= j < i && (#[trigger] colors[j]) is Some ==> !hue_fits(hue, colors[j]->0),
        first_fit(colors, hue) is None ==> forall|i: int|
            0 <= i < colors.len() && (#[trigger] colors[i]) is Some ==> !hue_fits(
                hue,
                colors[i]->0,
            ),
    decreases colors.len(),
{
    if colors.len() > 0 {
        if colors[0] is Some && hue_fits(hue, colors[0]->0) {
            assert(colors[0] == first_fit(colors, hue));
        } else {
            let rest = colors.drop_first();
            law_the_first_fitting_color_is_taken(rest, hue);
            if let Some(color) = first_fit(rest, hue) {
                let i = choose|i: int|
                    0 <= i < rest.len() && #[trigger] rest[i] == Some(color) && forall|j: int|
                        0 <= j < i && (#[trigger] rest[j]) is Some ==> !hue_fits(hue, rest[j]->0);
                assert(colors[i + 1] == Some(color));
                assert forall|j: int| 0 <= j < i + 1 && (#[trigger] colors[j]) is Some implies
                    !hue_fits(hue, colors[j]->0) by {
                    if j > 0 {
                        assert(rest[j - 1] == colors[j]);
                    }
                }
            } else {
                assert forall|i: int| 0 <= i < colors.len() && (#[trigger] colors[i]) is Some implies
                    !hue_fits(hue, colors[i]->0) by {
                    if i > 0 {
                        assert(rest[i - 1] == colors[i]);
                    }
                }
            }
        }
    }
}

/// Success looks green, failure red and a warning yellow, wherever the theme has such a
/// color to choose from.
pub proof fn law_colors_mean_what_they_say(source: ThemeSource)
    ensures
        first_fit(source.success@, Hue::Green) is Some ==> source.success_color() is Some
            && greenish(source.success_color()->0),
        first_fit(source.error@, Hue::Red) is Some ==> source.error_color() is Some && reddish(
            source.error_color()->0,
        ),
        first_fit(source.warning@, Hue::Yellow) is Some ==> source.warning_color() is Some
            && yellowish(source.warning_color()->0),
        first_fit(source.success@, Hue::Green) is None ==> source.success_color() == source.accent,
        first_fit(source.error@, Hue::Red) is None ==> source.error_color() == source.accent,
        greenish((0u8, 255u8, 0u8)),
        reddish((255u8, 0u8, 0u8)),
        yellowish((255u8, 255u8, 0u8)),
        !greenish((255u8, 0u8, 0u8)),
        !reddish((0u8, 255u8, 0u8)),
        !yellowish((0u8, 0u8, 255u8)),
{
    law_the_first_fitting_color_is_taken(source.success@, Hue::Green);
    law_the_first_fitting_color_is_taken(source.error@, Hue::Red);
    law_the_first_fitting_color_is_taken(source.warning@, Hue::Yellow);
}

/// Making a color lighter raises each part by the amount, up to the most there is; making
/// it darker lowers it. A light color is contrasted by a darker one, a dark color by a
/// lighter one.
pub proof fn law_contrast_goes_the_other_way(r: u8, g: u8, b: u8, amount: int)
    requires
        0 <= amount <= 255,
    ensures
        ({
            let color = Color::Rgb(r, g, b);
            &&& r + amount <= 255 && g + amount <= 255 && b + amount <= 255 ==> lightened(
                color,
                amount,
            ) == Color::Rgb((r + amount) as u8, (g + amount) as u8, (b + amount) as u8)
            &&& r >= amount && g >= amount && b >= amount ==> lightened(color, -amount)
                == Color::Rgb((r - amount) as u8, (g - amount) as u8, (b - amount) as u8)
            &&& lightened(color, 255) == Color::Rgb(255, 255, 255)
            &&& lightened(color, -255) == Color::Rgb(0, 0, 0)
            &&& contrasted(color, amount, true) == lightened(color, -amount)
            &&& contrasted(color, amount, false) == lightened(color, amount)
        }),
{
}

/// The keys of a footer are listed in order, each before what it does.
pub proof fn law_keys_are_listed_in_order(theme: Theme, keys: Seq<(String, String)>)
    requires
        keys.len() > 0,
    ensures
        ({
            let line = shortcuts_line(theme, keys);
            &&& line.len() == 3 * keys.len() - 1
            &&& line[line.len() - 2].0 == keys.last().0@
            &&& line[line.len() - 1].0.len() == keys.last().1@.len() + 1
            &&& line[line.len() - 1].0.skip(1) == keys.last().1@
            &&& line[0].0 == keys[0].0@
        }),
    decreases keys.len(),
{
    reveal_strlit(" ");
    let line = shortcuts_line(theme, keys);
    if keys.len() > 1 {
        law_keys_are_listed_in_order(theme, keys.drop_last());
    }
    assert(line[line.len() - 1].0.skip(1) =~= keys.last().1@);
}

/// Each key with a symbol and a help text is listed, in order, and no other.
pub proof fn law_only_shown_keys_are_listed(items: Seq<KeyHelp>, keys: Seq<(String, String)>, i: int)
    requires
        shown_keys(items, keys),
    ensures
        keys.len() <= items.len(),
        (forall|j: int| 0 <= j < items.len() ==> (#[trigger] items[j]).shown()) ==> keys.len()
            == items.len(),
        (forall|j: int| 0 <= j < items.len() ==> (#[trigger] items[j]).shown()) && 0 <= i
            < items.len() ==> keys[i].0@ == items[i].symbol->0@ && keys[i].1@
            == items[i].help->0@,
        (forall|j: int| 0 <= j < items.len() ==> !(#[trigger] items[j]).shown()) ==> keys.len()
            == 0,
    decreases items.len(),
{
    if items.len() > 0 {
        let less = items.drop_last();
        assert(forall|j: int| 0 <= j < less.len() ==> less[j] == #[trigger] items[j]);
        assert(items[items.len() - 1] == items.last());
        if items.last().shown() {
            law_only_shown_keys_are_listed(less, keys.drop_last(), i);
        } else {
            law_only_shown_keys_are_listed(less, keys, i);
        }
    }
}

/// A theme has the colors of its source; a transparent one leaves the terminal's own text
/// and background. Code stands out from the background by a little, towards the middle.
pub proof fn law_themes_have_the_colors_of_their_source<F: Fn(u8, u8, u8) -> bool>(
    theme: Theme,
    source: ThemeSource,
    transparent: bool,
    light: F,
    r: u8,
    g: u8,
    b: u8,
)
    requires
        theme.colored_by(source, transparent, light),
    ensures
        transparent ==> theme.background == Color::Reset && theme.foreground == Color::Reset,
        !transparent && source.background == Some((r, g, b)) ==> theme.background == Color::Rgb(
            r,
            g,
            b,
        ),
        !transparent && source.foreground == Some((r, g, b)) ==> theme.foreground == Color::Rgb(
            r,
            g,
            b,
        ),
        source.accent == Some((r, g, b)) ==> theme.accent == Color::Rgb(r, g, b),
        source.accent is None && source.selection == Some((r, g, b)) ==> theme.accent
            == Color::Rgb(r, g, b),
        source.muted == Some((r, g, b)) ==> theme.muted == Color::Rgb(r, g, b),
        source.success_color() == Some((r, g, b)) ==> theme.success == Color::Rgb(r, g, b),
        source.error_color() == Some((r, g, b)) ==> theme.error == Color::Rgb(r, g, b),
        source.warning_color() == Some((r, g, b)) ==> theme.warning == Color::Rgb(r, g, b),
        source.background == Some((r, g, b)) && r <= 240 && g <= 240 && b <= 240 && !tests_light(
            light,
            Color::Rgb(r, g, b),
        ) ==> theme.code_background == Color::Rgb((r + 15) as u8, (g + 15) as u8, (b + 15) as u8),
        source.background == Some((r, g, b)) && r >= 15 && g >= 15 && b >= 15 && tests_light(
            light,
            Color::Rgb(r, g, b),
        ) ==> theme.code_background == Color::Rgb((r - 15) as u8, (g - 15) as u8, (b - 15) as u8),
{
}

/// The active color is the first of its own that is known, then that of the active guide,
/// then the accent.
pub proof fn law_the_active_color_is_known(source: ThemeSource)
    ensures
        first_fit(source.active@, Hue::Any) is Some ==> source.active_color() == first_fit(
            source.active@,
            Hue::Any,
        ),
        first_fit(source.active@, Hue::Any) is None && source.active_guide is Some
            ==> source.active_color() == source.active_guide,
        first_fit(source.active@, Hue::Any) is None && source.active_guide is None
            ==> source.active_color() == source.accent,
{
}

} // verus!
