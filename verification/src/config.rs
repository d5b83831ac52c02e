//! Limits, defaults and user preferences.

use std::collections::HashMap;

use vstd::prelude::*;

use crate::theme::{is_test, Theme};
use crate::theme_library::ThemeLibrary;

verus! {

/// Default theme name.
pub const DEFAULT_THEME: &'static str = "catppuccin-mocha";

/// File extension of the syntax for plain text.
pub const DEFAULT_SYNTAX: &'static str = "txt";

pub const SUCCESS_SYMBOL: &'static str = "✔";

pub const ERROR_SYMBOL: &'static str = "✘";

/// Tick rate in ms (default to 15 fps ~ 66).
pub const TICK_RATE_MS: u64 = 66;

pub const PTY_DEFAULT_COLS: u16 = 80;

pub const PTY_DEFAULT_ROWS: u16 = 24;

/// Height of the footer row in the full-screen output view.
pub const OUTPUT_FOOTER_HEIGHT: u16 = 1;

/// Stream channel capacity.
pub const STREAM_CHANNEL_SIZE: usize = 1000;

/// Height subtracted from the terminal height to account for borders.
pub const BORDER_HEIGHT: usize = 2;

/// Fraction of the viewport height used as the inline output cap.
pub const INLINE_MAX_LINES_FRACTION: usize = 2;

/// Minimum number of inline output lines shown in the preview.
pub const INLINE_MAX_LINES_MIN: usize = 3;

/// Maximum number of inline output lines shown in the preview.
pub const INLINE_MAX_LINES_MAX: usize = 20;

/// Initial inline output line cap before the first render sets the real value.
pub const INLINE_MAX_LINES_DEFAULT: usize = 10;

/// Horizontal offset for content inside the preview pane.
pub const PREVIEW_CONTENT_X_OFFSET: u16 = 2;

/// Vertical offset for content inside the preview pane.
pub const PREVIEW_CONTENT_TOP_OFFSET: u16 = 1;

/// Horizontal space consumed by the preview pane's borders and padding.
pub const PREVIEW_FRAME_OVERHEAD: usize = 4;

/// Marks the lines of a code block.
pub const GUTTER_GLYPH: &'static str = "▎";

/// Width of the gutter prepended to code-block lines (`"▎ "`).
pub const CODE_GUTTER_WIDTH: usize = 2;

/// Total horizontal overhead for code-block content (frame + gutter).
pub const PREVIEW_CODE_WRAP_OVERHEAD: usize = 6;

/// Number of lines of overdraw above and below the viewport, as a fraction of
/// the viewport.
pub const OVERDRAW_FRACTION: usize = 2;

/// Terminal height below which the home layout stacks menu and preview.
pub const VERTICAL_LAYOUT_HEIGHT_THRESHOLD: u16 = 20;

/// Height of the menu in the stacked layout.
pub const VERTICAL_MENU_HEIGHT: u16 = 3;

/// Max menu sidebar width = total_width / MENU_MAX_WIDTH_RATIO.
pub const MENU_MAX_WIDTH_RATIO: u16 = 4;

pub const MENU_BORDER_SIZE: u16 = 2;

/// Minimum TOC panel width.
pub const MENU_TOC_MIN_WIDTH: u16 = 10;

/// Maximum TOC panel width.
pub const MENU_TOC_MAX_WIDTH: u16 = 60;

/// Number of code lines shown per card in CLI mode.
pub const CLI_PREVIEW_LINES: usize = 8;

/// Horizontal column overhead reserved for the CLI card UI.
pub const CLI_PTY_COL_OVERHEAD: u16 = 4;

/// Vertical row overhead reserved for the CLI card UI.
pub const CLI_PTY_ROW_OVERHEAD: u16 = 10;

/// Minimum PTY columns in CLI mode.
pub const CLI_PTY_MIN_COLS: u16 = 40;

/// Minimum PTY rows in CLI mode.
pub const CLI_PTY_MIN_ROWS: u16 = 5;

/// TUI display preferences.
#[derive(Clone, Debug)]
pub struct TuiConfig {
    /// Maximum number of inline output lines shown beneath a code block, taken as the
    /// nearest that is within the limits.
    pub inline_max_lines: Option<usize>,
}

impl Default for TuiConfig {
    fn default() -> (config: TuiConfig)
        ensures
            config.inline_max_lines is None,
    {
        TuiConfig { inline_max_lines: None }
    }
}

impl TuiConfig {
    /// The preferred number of inline output lines, or the default.
    pub fn inline_max_lines(&self) -> (lines: usize)
        ensures
            lines == self.inline_max_lines.unwrap_or(INLINE_MAX_LINES_MAX),
    {
        self.inline_max_lines.unwrap_or(INLINE_MAX_LINES_MAX)
    }
}

/// CLI display preferences.
#[derive(Clone, Debug)]
pub struct CliConfig {
    /// Number of code lines shown per card in CLI mode.
    pub preview_lines: Option<usize>,
}

impl Default for CliConfig {
    fn default() -> (config: CliConfig)
        ensures
            config.preview_lines is None,
    {
        CliConfig { preview_lines: None }
    }
}

/// A key binding of the user: its keys, and what is shown of them where that is set.
#[derive(Clone, Debug)]
pub struct KeyBinding {
    pub keys: Vec<String>,
    pub description: Option<String>,
    pub symbol: Option<String>,
    pub help: Option<String>,
}

/// Key bindings of the user over the built-in ones, by component and action.
#[derive(Clone, Debug)]
pub struct KeymapConfig {
    /// Keys of the document.
    pub home: HashMap<String, KeyBinding>,
    /// Keys of a block's output.
    pub output: HashMap<String, KeyBinding>,
    /// Keys of the line interface.
    pub cli: HashMap<String, KeyBinding>,
    /// Keys of moving in lists.
    pub menu: HashMap<String, KeyBinding>,
    /// Keys of the preview.
    pub preview: HashMap<String, KeyBinding>,
    /// Keys of prompts.
    pub confirm: HashMap<String, KeyBinding>,
    /// Keys of a search.
    pub search: HashMap<String, KeyBinding>,
    /// Keys of the goto dialog.
    pub goto: HashMap<String, KeyBinding>,
    /// Keys of the file picker.
    pub file_picker: HashMap<String, KeyBinding>,
    /// Keys of the help.
    pub help: HashMap<String, KeyBinding>,
    /// Keys of the table of variables.
    pub envs: HashMap<String, KeyBinding>,
    /// Keys of editing a variable.
    pub envs_edit: HashMap<String, KeyBinding>,
    /// Keys of the table of themes.
    pub themes: HashMap<String, KeyBinding>,
}

impl KeymapConfig {
    /// Every component has its built-in bindings.
    pub open spec fn is_built_in(&self) -> bool {
        &&& self.home@ == Map::<String, KeyBinding>::empty()
        &&& self.output@ == Map::<String, KeyBinding>::empty()
        &&& self.cli@ == Map::<String, KeyBinding>::empty()
        &&& self.menu@ == Map::<String, KeyBinding>::empty()
        &&& self.preview@ == Map::<String, KeyBinding>::empty()
        &&& self.confirm@ == Map::<String, KeyBinding>::empty()
        &&& self.search@ == Map::<String, KeyBinding>::empty()
        &&& self.goto@ == Map::<String, KeyBinding>::empty()
        &&& self.file_picker@ == Map::<String, KeyBinding>::empty()
        &&& self.help@ == Map::<String, KeyBinding>::empty()
        &&& self.envs@ == Map::<String, KeyBinding>::empty()
        &&& self.envs_edit@ == Map::<String, KeyBinding>::empty()
        &&& self.themes@ == Map::<String, KeyBinding>::empty()
    }
}

impl Default for KeymapConfig {
    fn default() -> (config: KeymapConfig)
        ensures
            config.is_built_in(),
    {
        KeymapConfig {
            home: HashMap::new(),
            output: HashMap::new(),
            cli: HashMap::new(),
            menu: HashMap::new(),
            preview: HashMap::new(),
            confirm: HashMap::new(),
            search: HashMap::new(),
            goto: HashMap::new(),
            file_picker: HashMap::new(),
            help: HashMap::new(),
            envs: HashMap::new(),
            envs_edit: HashMap::new(),
            themes: HashMap::new(),
        }
    }
}

/// How a language is run otherwise than by default: its binary, and further arguments
/// and variables for it.
#[derive(Clone, Debug)]
pub struct RunnerOptions {
    pub bin: Option<String>,
    pub extra_args: Vec<String>,
    pub env: Vec<(String, String)>,
}

/// User preferences; what is `None` falls back to a default.
#[derive(Clone, Debug)]
pub struct UserConfig {
    pub theme: Option<String>,
    pub transparent: Option<bool>,
    pub tick_rate: Option<u64>,
    pub tui: Option<TuiConfig>,
    pub cli: Option<CliConfig>,
    pub keymap: Option<KeymapConfig>,
    /// How languages are run, by name.
    pub binaries: Option<HashMap<String, RunnerOptions>>,
}

impl Default for UserConfig {
    fn default() -> (config: UserConfig)
        ensures
            config.theme is None,
            config.transparent is None,
            config.tick_rate is None,
            config.tui is None,
            config.cli is None,
            config.keymap is None,
            config.binaries is None,
    {
        UserConfig {
            theme: None,
            transparent: None,
            tick_rate: None,
            tui: None,
            cli: None,
            keymap: None,
            binaries: None,
        }
    }
}

impl UserConfig {
    /// The preferred theme, or the default.
    pub fn theme(&self) -> (theme: &str)
        ensures
            theme@ == (match self.theme {
                Some(name) => name@,
                None => DEFAULT_THEME@,
            }),
    {
        match &self.theme {
            Some(name) => name.as_str(),
            None => DEFAULT_THEME,
        }
    }

    /// Whether the terminal's background shows through; off by default.
    pub fn transparent(&self) -> (transparent: bool)
        ensures
            transparent == self.transparent.unwrap_or(false),
    {
        self.transparent.unwrap_or(false)
    }

    /// The preferred tick rate in ms, or the default.
    pub fn tick_rate(&self) -> (tick_rate: u64)
        ensures
            tick_rate == self.tick_rate.unwrap_or(TICK_RATE_MS),
    {
        self.tick_rate.unwrap_or(TICK_RATE_MS)
    }

    /// Preferences with every field set to its runtime default.
    pub fn default_full() -> (config: UserConfig)
        ensures
            config.theme matches Some(name) && name@ == DEFAULT_THEME@,
            config.transparent == Some(false),
            config.tick_rate == Some(TICK_RATE_MS),
            config.tui matches Some(tui) && tui.inline_max_lines == Some(INLINE_MAX_LINES_MAX),
            config.cli matches Some(cli) && cli.preview_lines == Some(CLI_PREVIEW_LINES),
            config.keymap matches Some(keymap) && keymap.is_built_in(),
            config.binaries matches Some(binaries) && binaries@ == Map::<
                String,
                RunnerOptions,
            >::empty(),
    {
        UserConfig {
            theme: Some(DEFAULT_THEME.to_owned()),
            transparent: Some(false),
            tick_rate: Some(TICK_RATE_MS),
            tui: Some(TuiConfig { inline_max_lines: Some(INLINE_MAX_LINES_MAX) }),
            cli: Some(CliConfig { preview_lines: Some(CLI_PREVIEW_LINES) }),
            keymap: Some(KeymapConfig::default()),
            binaries: Some(HashMap::new()),
        }
    }
}

/// What a [`Config`] is made of.
pub struct ConfigArgs {
    pub file: Option<String>,
    pub theme: String,
    pub capture_state: bool,
    pub block: Option<String>,
    pub yes: bool,
    pub all: bool,
    pub tick_rate: u64,
    pub tui: TuiConfig,
    pub cli: CliConfig,
    pub transparent: bool,
    pub keymap: KeymapConfig,
    pub binaries: HashMap<String, RunnerOptions>,
    pub working_dir: Option<String>,
}

/// The settings of the application: those of the command line, of the user and
/// the defaults.
pub struct Config {
    pub theme: Theme,
    pub transparent: bool,
    pub file: Option<String>,
    pub capture_state: bool,
    pub block: Option<String>,
    pub yes: bool,
    pub all: bool,
    pub tick_rate: u64,
    pub tui: TuiConfig,
    /// Display preferences of the line interface.
    pub cli: CliConfig,
    /// Key bindings of the user.
    pub keymap: KeymapConfig,
    /// How languages are run, by name.
    pub binaries: HashMap<String, RunnerOptions>,
    /// The directory that blocks run in.
    pub working_dir: Option<String>,
}

impl Config {
    /// The settings with the theme of the wanted name. `light` tells light colors
    /// from dark ones.
    pub fn new<F: Fn(u8, u8, u8) -> bool>(args: ConfigArgs, library: &ThemeLibrary, light: F) -> (
        config: Config)
        requires
            is_test(light),
        ensures
            library.themed(config.theme, args.theme@, args.transparent, light),
            config == (Config {
                theme: config.theme,
                transparent: args.transparent,
                file: args.file,
                capture_state: args.capture_state,
                block: args.block,
                yes: args.yes,
                all: args.all,
                tick_rate: args.tick_rate,
                tui: args.tui,
                cli: args.cli,
                keymap: args.keymap,
                binaries: args.binaries,
                working_dir: args.working_dir,
            }),
    {
        Config {
            theme: Theme::new(args.theme.as_str(), args.transparent, library, light),
            transparent: args.transparent,
            file: args.file,
            capture_state: args.capture_state,
            block: args.block,
            yes: args.yes,
            all: args.all,
            tick_rate: args.tick_rate,
            tui: args.tui,
            cli: args.cli,
            keymap: args.keymap,
            binaries: args.binaries,
            working_dir: args.working_dir,
        }
    }
}

} // verus!
