//! Opening a document.

use vstd::prelude::*;

use super::dialogs::flashes;
use super::flow::{App, Options, Screen};
use crate::code::{valid_codes, Code, CodeId};
use crate::exec::Envs;
use crate::rect::Rect;
use crate::theme::Theme;
use crate::theme_library::Painter;
use crate::tui::content::Content;
use crate::tui::envs::{EnvVars, Mode};
use crate::tui::layout::Area;
use crate::tui::markdown::ast::Node;
use crate::tui::markdown::document::document_ok;
use crate::tui::notification::{FlashKind, DEFAULT_DURATION};
use crate::tui::output::Output;
use crate::tui::preview::layout_lines::is_wrap;
use crate::tui::selection::SelectionView;
use crate::tui::tasks::{TaskOutput, Tasks};

verus! {

/// A document that was read.
pub struct Document {
    pub source: String,
    pub nodes: Vec<Node>,
    pub codes: Vec<Code>,
    /// The level and the text of each heading.
    pub headings: Vec<(u8, String)>,
}

impl Document {
    /// The parts of the document fit together.
    pub open spec fn wf(&self) -> bool {
        &&& document_ok(self.nodes, self.codes@, self.source@)
        &&& valid_codes(self.codes@)
    }
}

/// How a document is shown.
pub struct Look {
    pub theme: Theme,
    pub painter: Painter,
    /// The most lines of output below a code block.
    pub inline_max_lines: usize,
    /// The directory that images are looked for in.
    pub image_base_dir: String,
}

/// The menu and preview of a document, without any output.
#[verifier::opaque]
pub open spec fn shows<W: Fn(&str, usize) -> Vec<(usize, usize)>>(
    content: Content,
    doc: Document,
    selected: Option<CodeId>,
    look: Look,
    wrap: W,
) -> bool {
    exists|tasks: Tasks|
        {
            &&& tasks.outputs@ == Map::<CodeId, TaskOutput>::empty()
            &&& #[trigger] content.opens(
                doc.source@,
                doc.nodes,
                doc.codes,
                doc.headings,
                selected,
                look.theme,
                look.painter,
                tasks.outputs,
                look.inline_max_lines,
                look.image_base_dir@,
                wrap,
            )
        }
}

fn open_content<W: Fn(&str, usize) -> Vec<(usize, usize)>>(
    doc: Document,
    selected: Option<CodeId>,
    look: Look,
    wrap: &W,
) -> (content: Content)
    requires
        is_wrap(*wrap),
        doc.wf(),
    ensures
        content.wf(),
        valid_codes(content.preview.codes@),
        shows(content, doc, selected, look, *wrap),
{
    let tasks = Tasks::new();
    let content = Content::new(
        doc.source,
        doc.nodes,
        doc.codes,
        doc.headings,
        selected,
        look.theme,
        look.painter,
        tasks.buffers(),
        look.inline_max_lines,
        look.image_base_dir,
        wrap,
    );
    assert(shows(content, doc, selected, look, *wrap)) by {
        reveal(shows);
    }
    content
}

/// A region before anything is laid out.
pub open spec fn no_area() -> Rect {
    Rect { x: 0, y: 0, width: 0, height: 0 }
}

/// What is said where a file cannot be read.
pub open spec fn open_failed_text(path: Seq<char>, error: Seq<char>) -> Seq<char> {
    "Failed to open "@ + path + ": "@ + error
}

/// What is said where there is no file to read again.
pub open spec fn no_path_text() -> Seq<char> {
    "No file path in config, cannot reload"@
}

impl App {
    /// The state at the start, with the document shown.
    pub open spec fn starts(&self, options: Options, envs: Envs) -> bool {
        &&& self.options == options
        &&& self.tasks.outputs@ == Map::<CodeId, TaskOutput>::empty()
        &&& self.screen == Screen::Home
        &&& self.overlay is None
        &&& !self.zen
        &&& !self.auto_input_paused
        &&& self.layout == (Area {
            menu: no_area(),
            preview: no_area(),
            footer: no_area(),
            last_area: no_area(),
            last_menu_width: 0,
        })
        &&& self.envs.items@.map == envs@
        &&& self.envs.items@.term.len() == 0
        &&& self.envs.selected is None
        &&& self.envs.mode == Mode::List
        &&& self.envs.search is None
        &&& self.envs.not_editing()
        &&& self.file_picker_root is None
        &&& self.output.selection@ == SelectionView::nothing()
        &&& self.output.last_area == no_area()
        &&& !self.output.done
        &&& self.workflow is None
        &&& self.captures@.len() == 0
        &&& self.graph is None
        &&& self.graph_shown
        &&& self.last_cwd is None
        &&& !self.started
        &&& self.notification is None
    }

    /// The interface for a document. `selected` is the block that was asked for, or
    /// the reason why there is none.
    pub fn new<W: Fn(&str, usize) -> Vec<(usize, usize)>>(
        doc: Document,
        options: Options,
        selected: Result<Option<CodeId>, String>,
        look: Look,
        envs: &Envs,
        wrap: &W,
    ) -> (app: Result<App, String>)
        requires
            is_wrap(*wrap),
            doc.wf(),
            envs.wf(),
        ensures
            match selected {
                Ok(selected) => app is Ok && app->Ok_0.wf() && app->Ok_0.starts(options, *envs)
                    && shows(app->Ok_0.content, doc, selected, look, *wrap),
                Err(error) => app is Err && app->Err_0 == error,
            },
    {
        match selected {
            Err(error) => Err(error),
            Ok(selected) => {
                let content = open_content(doc, selected, look, wrap);
                let app = App {
                    options,
                    content,
                    tasks: Tasks::new(),
                    screen: Screen::Home,
                    overlay: None,
                    zen: false,
                    auto_input_paused: false,
                    layout: Area::default(),
                    envs: EnvVars::new(envs),
                    file_picker_root: None,
                    output: Output::new(),
                    workflow: None,
                    captures: Vec::new(),
                    graph: None,
                    graph_shown: true,
                    last_cwd: None,
                    started: false,
                    notification: None,
                };
                proof {
                    reveal(App::wf);
                }
                Ok(app)
            },
        }
    }

    /// Another document in place of the one before: what ran is forgotten.
    #[verifier::opaque]
    pub open spec fn loaded<W: Fn(&str, usize) -> Vec<(usize, usize)>>(
        &self,
        before: &App,
        doc: Document,
        selected: Option<CodeId>,
        look: Look,
        wrap: W,
    ) -> bool {
        &&& shows(self.content, doc, selected, look, wrap)
        &&& self.tasks.outputs@ == Map::<CodeId, TaskOutput>::empty()
        &&& self.captures@.len() == 0
        &&& *self == (App {
            content: self.content,
            tasks: self.tasks,
            auto_input_paused: false,
            workflow: None,
            captures: self.captures,
            graph: None,
            overlay: None,
            started: false,
            ..*before
        })
    }

    /// Replaces the document and forgets what belongs to the one before. A block
    /// that was asked for and is not there leaves everything as it is.
    pub fn load_document<W: Fn(&str, usize) -> Vec<(usize, usize)>>(
        &mut self,
        doc: Document,
        selected: Result<Option<CodeId>, String>,
        look: Look,
        wrap: &W,
    ) -> (result: Result<(), String>)
        requires
            old(self).wf(),
            is_wrap(*wrap),
            doc.wf(),
        ensures
            final(self).wf(),
            match selected {
                Ok(selected) => result is Ok && final(self).loaded(
                    old(self),
                    doc,
                    selected,
                    look,
                    *wrap,
                ),
                Err(error) => result == Err::<(), String>(error) && *final(self) == *old(self),
            },
    {
        match selected {
            Err(error) => Err(error),
            Ok(selected) => {
                proof {
                    reveal(App::wf);
                    reveal(App::loaded);
                }
                self.tasks.clear();
                self.auto_input_paused = false;
                self.content = open_content(doc, selected, look, wrap);
                self.workflow = None;
                self.captures = Vec::new();
                self.graph = None;
                self.overlay = None;
                self.started = false;
                Ok(())
            },
        }
    }

    fn show_opened(&mut self, path: Option<String>)
        requires
            old(self).wf(),
        ensures
            final(self).wf(),
            *final(self) == (App {
                options: Options {
                    file: match path {
                        Some(path) => Some(path),
                        None => old(self).options.file,
                    },
                    ..old(self).options
                },
                screen: Screen::Home,
                ..*old(self)
            }),
    {
        proof {
            reveal(App::wf);
        }
        if let Some(path) = path {
            self.options.file = Some(path);
        }
        self.screen = Screen::Home;
    }

    /// A document was read, to be shown in place of the one before. `path` is its
    /// file, where that is another one.
    pub open spec fn document_taken<W: Fn(&str, usize) -> Vec<(usize, usize)>>(
        &self,
        before: &App,
        path: Option<String>,
        doc: Document,
        selected: Result<Option<CodeId>, String>,
        look: Look,
        wrap: W,
        now: u64,
    ) -> bool {
        match selected {
            Ok(selected) => {
                exists|loaded: App|
                    {
                        &&& #[trigger] loaded.loaded(before, doc, selected, look, wrap)
                        &&& *self == (App {
                            options: Options {
                                file: match path {
                                    Some(path) => Some(path),
                                    None => loaded.options.file,
                                },
                                ..loaded.options
                            },
                            screen: Screen::Home,
                            ..loaded
                        })
                    }
            },
            Err(error) => {
                &&& *self == (App { notification: self.notification, ..*before })
                &&& flashes(self.notification, FlashKind::Error, error@, now)
            },
        }
    }

    fn take_document<W: Fn(&str, usize) -> Vec<(usize, usize)>>(
        &mut self,
        path: Option<String>,
        doc: Document,
        selected: Result<Option<CodeId>, String>,
        look: Look,
        wrap: &W,
        now: u64,
    )
        requires
            old(self).wf(),
            is_wrap(*wrap),
            doc.wf(),
            now + DEFAULT_DURATION <= u64::MAX,
        ensures
            final(self).wf(),
            final(self).document_taken(old(self), path, doc, selected, look, *wrap, now),
    {
        let ghost before = *self;
        match self.load_document(doc, selected, look, wrap) {
            Ok(_) => {
                let ghost loaded = *self;
                assert(loaded.loaded(&before, doc, selected->Ok_0, look, *wrap));
                self.show_opened(path);
            },
            Err(error) => {
                self.notify_error(error.as_str(), now);
            },
        }
    }

    /// Shows a file that was read in place of the document, or says why it could
    /// not be read.
    pub fn open_markdown_file<W: Fn(&str, usize) -> Vec<(usize, usize)>>(
        &mut self,
        path: String,
        read: Result<Document, String>,
        selected: Result<Option<CodeId>, String>,
        look: Look,
        wrap: &W,
        now: u64,
    )
        requires
            old(self).wf(),
            is_wrap(*wrap),
            read matches Ok(doc) ==> doc.wf(),
            now + DEFAULT_DURATION <= u64::MAX,
        ensures
            final(self).wf(),
            match read {
                Ok(doc) => final(self).document_taken(
                    old(self),
                    Some(path),
                    doc,
                    selected,
                    look,
                    *wrap,
                    now,
                ),
                Err(error) => {
                    &&& *final(self) == (App {
                        notification: final(self).notification,
                        ..*old(self)
                    })
                    &&& flashes(
                        final(self).notification,
                        FlashKind::Error,
                        open_failed_text(path@, error@),
                        now,
                    )
                },
            },
    {
        match read {
            Ok(doc) => self.take_document(Some(path), doc, selected, look, wrap, now),
            Err(error) => {
                let mut text = "Failed to open ".to_owned();
                text.append(path.as_str());
                text.append(": ");
                text.append(error.as_str());
                self.notify_error(text.as_str(), now);
            },
        }
    }

    /// The file to read again, or the reason why there is none.
    pub fn reload_path(&self) -> (path: Result<&str, String>)
        ensures
            match self.options.file {
                Some(file) => path is Ok && path->Ok_0@ == file@,
                None => path is Err && path->Err_0@ == no_path_text(),
            },
    {
        match &self.options.file {
            Some(file) => Ok(file.as_str()),
            None => Err("No file path in config, cannot reload".to_owned()),
        }
    }

    /// Shows the document anew after its file was read again, or says why it was
    /// not.
    pub fn reload<W: Fn(&str, usize) -> Vec<(usize, usize)>>(
        &mut self,
        read: Result<Document, String>,
        selected: Result<Option<CodeId>, String>,
        look: Look,
        wrap: &W,
        now: u64,
    )
        requires
            old(self).wf(),
            is_wrap(*wrap),
            read matches Ok(doc) ==> doc.wf(),
            now + DEFAULT_DURATION <= u64::MAX,
        ensures
            final(self).wf(),
            match read {
                Ok(doc) => final(self).document_taken(
                    old(self),
                    None,
                    doc,
                    selected,
                    look,
                    *wrap,
                    now,
                ),
                Err(error) => {
                    &&& *final(self) == (App {
                        notification: final(self).notification,
                        ..*old(self)
                    })
                    &&& flashes(final(self).notification, FlashKind::Error, error@, now)
                },
            },
    {
        match read {
            Ok(doc) => self.take_document(None, doc, selected, look, wrap, now),
            Err(error) => {
                self.notify_error(error.as_str(), now);
            },
        }
    }
}

} // verus!
