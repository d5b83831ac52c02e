//! What follows from dialogs, clicks and reports.

use vstd::prelude::*;

use super::flow::{App, Next, NextView, Screen};
use crate::code::CodeId;
use crate::num::{less_by, smaller};
use crate::picker::MarkdownFile;
use crate::text::strings_view;
use crate::theme::Theme;
use crate::theme_library::Painter;
use crate::tui::content::Content;
use crate::tui::file_picker::FilePicker;
use crate::tui::markdown::line::{logical_views, LogicalView};
use crate::tui::notification::{FlashKind, FlashMessage, DEFAULT_DURATION};
use crate::tui::overlay::{effect_view, Effect, EffectView, Message, Overlay};
use crate::tui::preview::layout_lines::is_wrap;
use crate::tui::preview::pane::{at_row, Preview};
use crate::tui::preview::search::{matching_rows, term_view};

verus! {

/// A message of a kind that was just shown.
pub open spec fn flashes(flash: Option<FlashMessage>, kind: FlashKind, text: Seq<char>, now: u64) -> bool {
    &&& flash is Some
    &&& flash->0.text@ == text
    &&& flash->0.kind == kind
    &&& flash->0.expires_at == now + DEFAULT_DURATION
}

/// What a click in the document led to. `copied` says whether a copy succeeded.
#[derive(Clone, Copy, Debug, PartialEq, Eq, Structural)]
pub enum Clicked {
    /// A block was selected in place of another.
    Code { previous: Option<CodeId>, selected: CodeId, copied: Option<bool> },
    /// Anything else in the preview.
    Preview { copied: Option<bool> },
}

/// What the caller has to do after a dialog.
pub enum Answer {
    Nothing,
    Quit,
    /// Read the file again.
    Reload,
    Run(Next),
    /// Read a file and open it.
    OpenFile(String),
    /// Show the theme of a name.
    UseTheme(String),
    /// Show the theme of a name and remember it.
    KeepTheme(String),
}

/// What the caller has to do after a dialog.
pub enum AnswerView {
    Nothing,
    Quit,
    Reload,
    Run(NextView),
    OpenFile(Seq<char>),
    UseTheme(Seq<char>),
    KeepTheme(Seq<char>),
}

impl View for Answer {
    type V = AnswerView;

    open spec fn view(&self) -> AnswerView {
        match *self {
            Answer::Nothing => AnswerView::Nothing,
            Answer::Quit => AnswerView::Quit,
            Answer::Reload => AnswerView::Reload,
            Answer::Run(next) => AnswerView::Run(next@),
            Answer::OpenFile(path) => AnswerView::OpenFile(path@),
            Answer::UseTheme(name) => AnswerView::UseTheme(name@),
            Answer::KeepTheme(name) => AnswerView::KeepTheme(name@),
        }
    }
}

/// What is said where a directory holds no file to open.
pub open spec fn no_files_text(root: Seq<char>) -> Seq<char> {
    "No Markdown files found under "@ + root
}

impl EffectView {
    /// The dialog is not closed.
    pub open spec fn keeps_dialog(self) -> bool {
        self is RefreshSearch || self is Quit || self is OpenFile || self is PreviewTheme
    }
}

impl Effect {
    fn leaves_open(&self) -> (yes: bool)
        ensures
            yes == self@.keeps_dialog(),
    {
        match self {
            Effect::RefreshSearch(_) | Effect::Quit | Effect::OpenFile(_) | Effect::PreviewTheme(_)
            => true,
            _ => false,
        }
    }
}

impl App {
    /// Shows a message.
    pub fn notify(&mut self, flash: FlashMessage)
        ensures
            old(self).wf() ==> final(self).wf(),
            *final(self) == (App { notification: Some(flash), ..*old(self) }),
    {
        proof {
            reveal(App::wf);
        }
        self.notification = Some(flash);
    }

    /// Shows an info message.
    pub fn notify_info(&mut self, text: &str, now: u64)
        requires
            now + DEFAULT_DURATION <= u64::MAX,
        ensures
            old(self).wf() ==> final(self).wf(),
            *final(self) == (App { notification: final(self).notification, ..*old(self) }),
            flashes(final(self).notification, FlashKind::Info, text@, now),
    {
        self.notify(FlashMessage::info(text, now));
    }

    /// Shows that something succeeded.
    pub fn notify_success(&mut self, text: &str, now: u64)
        requires
            now + DEFAULT_DURATION <= u64::MAX,
        ensures
            old(self).wf() ==> final(self).wf(),
            *final(self) == (App { notification: final(self).notification, ..*old(self) }),
            flashes(final(self).notification, FlashKind::Success, text@, now),
    {
        self.notify(FlashMessage::success(text, now));
    }

    /// Whether a copy succeeded is shown; without a copy nothing changes.
    pub open spec fn copy_told(&self, before: &App, copied: Option<bool>, now: u64) -> bool {
        &&& *self == (App { notification: self.notification, ..*before })
        &&& match copied {
            Some(true) => flashes(self.notification, FlashKind::Success, "Copied"@, now),
            Some(false) => flashes(self.notification, FlashKind::Error, "Failed to copy"@, now),
            None => self.notification == before.notification,
        }
    }

    /// Shows whether a copy succeeded.
    pub fn notify_copy_result(&mut self, copied: Option<bool>, now: u64)
        requires
            now + DEFAULT_DURATION <= u64::MAX,
        ensures
            old(self).wf() ==> final(self).wf(),
            final(self).copy_told(old(self), copied, now),
    {
        match copied {
            Some(true) => self.notify_success("Copied", now),
            Some(false) => self.notify_error("Failed to copy", now),
            None => {},
        }
    }

    /// The screen after a click: a click on another block ends input to a program,
    /// unless that block runs, and one on a running block starts it again.
    pub open spec fn clicked_screen(&self, outcome: Option<Clicked>) -> (Screen, bool) {
        match outcome {
            Some(Clicked::Code { previous, selected, .. }) => {
                let kept = if self.screen == Screen::Input && previous != Some(selected)
                    && !self.tasks.runs(selected) {
                    Screen::Home
                } else {
                    self.screen
                };
                if kept == Screen::Home && self.auto_input_paused && self.tasks.runs(selected) {
                    (Screen::Input, false)
                } else {
                    (kept, self.auto_input_paused)
                }
            },
            Some(Clicked::Preview { .. }) => if self.screen == Screen::Input {
                (Screen::Home, self.auto_input_paused)
            } else {
                (self.screen, self.auto_input_paused)
            },
            None => (self.screen, self.auto_input_paused),
        }
    }

    /// The state after a click in the document.
    pub open spec fn click_taken(&self, before: &App, outcome: Option<Clicked>, now: u64) -> bool {
        let (screen, auto_input_paused) = before.clicked_screen(outcome);
        let shown = App { screen, auto_input_paused, ..*before };
        let copied = match outcome {
            Some(Clicked::Code { copied, .. }) => copied,
            Some(Clicked::Preview { copied }) => copied,
            None => None,
        };
        self.copy_told(&(App { screen: shown.input_screen(), ..shown }), copied, now)
    }

    /// Takes over what a click in the document led to.
    pub fn handle_content_msg(&mut self, outcome: Option<Clicked>, now: u64)
        requires
            old(self).wf(),
            now + DEFAULT_DURATION <= u64::MAX,
        ensures
            final(self).wf(),
            final(self).click_taken(old(self), outcome, now),
    {
        self.settle_click(outcome);
        match outcome {
            Some(Clicked::Code { copied, .. }) => self.notify_copy_result(copied, now),
            Some(Clicked::Preview { copied }) => self.notify_copy_result(copied, now),
            None => {},
        }
    }

    fn settle_click(&mut self, outcome: Option<Clicked>)
        requires
            old(self).wf(),
        ensures
            final(self).wf(),
            ({
                let (screen, auto_input_paused) = old(self).clicked_screen(outcome);
                let shown = App { screen, auto_input_paused, ..*old(self) };
                *final(self) == (App { screen: shown.input_screen(), ..shown })
            }),
    {
        match outcome {
            Some(Clicked::Code { previous, selected, .. }) => {
                self.keep_input_for_running_click_target(previous, selected);
                self.enter_input_for_running_click_target(selected);
            },
            Some(Clicked::Preview { .. }) => {
                self.show_home_after_input();
            },
            None => {},
        }
        self.sync_input_mode();
    }

    fn show_home_after_input(&mut self)
        ensures
            old(self).wf() ==> final(self).wf(),
            *final(self) == (App {
                screen: if old(self).screen == Screen::Input {
                    Screen::Home
                } else {
                    old(self).screen
                },
                ..*old(self)
            }),
    {
        proof {
            reveal(App::wf);
        }
        if self.screen == Screen::Input {
            self.screen = Screen::Home;
        }
    }

    /// Without a dialog, on the document.
    pub open spec fn closed(&self) -> App {
        App { overlay: None, screen: Screen::Home, ..*self }
    }

    fn close(&mut self)
        requires
            old(self).wf(),
        ensures
            final(self).wf(),
            *final(self) == old(self).closed(),
    {
        proof {
            reveal(App::wf);
        }
        self.overlay = None;
        self.screen = Screen::Home;
    }

    /// A document that is searched for a term.
    #[verifier::opaque]
    pub open spec fn searches(&self, before: &App, term: Seq<char>) -> bool {
        &&& term_view(self.content.preview.search.term) == (if term.len() == 0 {
            None
        } else {
            Some(term)
        })
        &&& self.content.preview.search.logical_texts
            == before.content.preview.search.logical_texts
        &&& *self == (App {
            content: Content {
                menu: before.content.menu,
                preview: Preview {
                    search: self.content.preview.search,
                    ..before.content.preview
                },
            },
            ..*before
        })
    }

    /// The rows that show the term that is searched for.
    pub open spec fn found_rows(&self) -> Seq<usize> {
        matching_rows(
            strings_view(self.content.preview.search.logical_texts@),
            term_view(self.content.preview.search.term),
            self.content.preview.rows(),
        )
    }

    fn search(&mut self, term: &str) -> (rows: Vec<usize>)
        requires
            old(self).wf(),
        ensures
            final(self).wf(),
            final(self).searches(old(self), term@),
            rows@ == final(self).found_rows(),
    {
        proof {
            reveal(App::wf);
            reveal(App::searches);
        }
        self.content.search(term)
    }

    /// The search dialog takes over what was found, and the match it stands at is
    /// selected.
    #[verifier::opaque]
    pub open spec fn match_shown(&self, before: &App, rows: Seq<usize>) -> bool {
        match before.overlay {
            Some(Overlay::Search(search)) => {
                let found = search@.found(rows.len() as int);
                &&& self.overlay is Some
                &&& self.overlay->0 is Search
                &&& self.overlay->0->Search_0@ == found
                &&& *self == (App { overlay: self.overlay, content: self.content, ..*before })
                &&& if rows.len() > 0 {
                    self.content.follows(
                        &(Content {
                            preview: Preview {
                                state: at_row(
                                    smaller(
                                        rows[found.index] as int,
                                        less_by(before.content.preview.rows().len() as int, 1),
                                    ) as usize,
                                ),
                                ..before.content.preview
                            },
                            menu: before.content.menu,
                        }),
                    )
                } else {
                    self.content == before.content
                }
            },
            _ => *self == *before,
        }
    }

    fn show_match(&mut self, rows: &Vec<usize>)
        requires
            old(self).wf(),
        ensures
            final(self).wf(),
            final(self).match_shown(old(self), rows@),
    {
        proof {
            reveal(App::wf);
            reveal(App::match_shown);
        }
        if let Some(overlay) = &mut self.overlay {
            if let Some(row) = overlay.apply_search_results(rows.as_slice()) {
                self.content.select_search_match(row);
            }
        }
    }

    /// The document is searched for a term, and a match is shown.
    #[verifier::opaque]
    pub open spec fn search_refreshed(&self, before: &App, term: Seq<char>) -> bool {
        exists|searched: App|
            #[trigger] searched.searches(before, term) && self.match_shown(
                &searched,
                searched.found_rows(),
            )
    }

    /// A block is selected.
    #[verifier::opaque]
    pub open spec fn code_selected(&self, before: &App, id: CodeId) -> bool {
        &&& self.content.selects(&before.content, id)
        &&& *self == (App { content: self.content, ..*before })
    }

    fn select_block(&mut self, id: CodeId)
        requires
            old(self).wf(),
        ensures
            final(self).wf(),
            final(self).code_selected(old(self), id),
    {
        proof {
            reveal(App::wf);
            reveal(App::code_selected);
        }
        self.content.select_code(id);
    }

    fn forget_block(&mut self)
        requires
            old(self).wf(),
        ensures
            final(self).wf(),
            *final(self) == (App {
                options: super::flow::Options { block: false, ..old(self).options },
                ..*old(self)
            }),
    {
        proof {
            reveal(App::wf);
        }
        self.options.block = false;
    }

    fn resume_input(&mut self)
        requires
            old(self).wf(),
        ensures
            final(self).wf(),
            *final(self) == (App { auto_input_paused: false, ..*old(self) }),
    {
        proof {
            reveal(App::wf);
        }
        self.auto_input_paused = false;
    }

    /// The state and what the caller has to do after a dialog asked for something.
    #[verifier::opaque]
    pub open spec fn effected(&self, before: &App, effect: EffectView, answer: AnswerView, now: u64) -> bool {
        match effect {
            EffectView::Close => *self == before.closed() && answer == AnswerView::Nothing,
            EffectView::Quit => *self == *before && answer == AnswerView::Quit,
            EffectView::Reload => *self == before.closed() && answer == AnswerView::Reload,
            EffectView::Rerun(id) => answer is Run && self.targeted(
                &(App { auto_input_paused: false, ..before.closed() }),
                id,
                false,
                answer->Run_0,
                now,
            ),
            EffectView::ClearSearch => answer == AnswerView::Nothing && self.searches(
                &before.closed(),
                Seq::empty(),
            ),
            EffectView::RefreshSearch(term) => answer == AnswerView::Nothing
                && self.search_refreshed(before, term),
            EffectView::SelectCode(id) => answer == AnswerView::Nothing && self.code_selected(
                &before.closed(),
                id,
            ),
            EffectView::OpenFile(path) => answer == AnswerView::OpenFile(path) && *self == (App {
                options: super::flow::Options { block: false, ..before.options },
                ..*before
            }),
            EffectView::PreviewTheme(name) => *self == *before && answer == AnswerView::UseTheme(
                name,
            ),
            EffectView::SaveTheme(name) => *self == before.closed() && answer
                == AnswerView::KeepTheme(name),
            EffectView::RestoreTheme(name) => {
                &&& answer == AnswerView::UseTheme(name)
                &&& *self == (App { notification: self.notification, ..before.closed() })
                &&& flashes(self.notification, FlashKind::Info, "Theme restored"@, now)
            },
        }
    }

    /// Does what a dialog asked for; returns what the caller has to do for it.
    pub fn apply_overlay_outcome(&mut self, effect: Effect, now: u64) -> (answer: Answer)
        requires
            old(self).wf(),
            now + DEFAULT_DURATION <= u64::MAX,
        ensures
            final(self).wf(),
            final(self).effected(old(self), effect@, answer@, now),
    {
        if effect.leaves_open() {
            self.with_dialog(effect, now)
        } else {
            let ghost before = *self;
            self.close();
            self.after_closing(effect, now, Ghost(before))
        }
    }

    fn with_dialog(&mut self, effect: Effect, now: u64) -> (answer: Answer)
        requires
            old(self).wf(),
            effect@.keeps_dialog(),
        ensures
            final(self).wf(),
            final(self).effected(old(self), effect@, answer@, now),
    {
        let ghost asked = effect@;
        match effect {
            Effect::RefreshSearch(term) => {
                self.refresh_search(term.as_str());
                assert(self.effected(old(self), asked, AnswerView::Nothing, now)) by {
                    reveal(App::effected);
                }
                Answer::Nothing
            },
            Effect::OpenFile(path) => {
                self.forget_block();
                assert(self.effected(old(self), asked, AnswerView::OpenFile(path@), now)) by {
                    reveal(App::effected);
                }
                Answer::OpenFile(path)
            },
            Effect::PreviewTheme(name) => {
                assert(self.effected(old(self), asked, AnswerView::UseTheme(name@), now)) by {
                    reveal(App::effected);
                }
                Answer::UseTheme(name)
            },
            _ => {
                assert(self.effected(old(self), asked, AnswerView::Quit, now)) by {
                    reveal(App::effected);
                }
                Answer::Quit
            },
        }
    }

    fn refresh_search(&mut self, term: &str)
        requires
            old(self).wf(),
        ensures
            final(self).wf(),
            final(self).search_refreshed(old(self), term@),
    {
        let rows = self.search(term);
        let ghost searched = *self;
        assert(searched.searches(old(self), term@));
        self.show_match(&rows);
        assert(self.search_refreshed(old(self), term@)) by {
            reveal(App::search_refreshed);
        }
    }

    fn after_closing(&mut self, effect: Effect, now: u64, Ghost(before): Ghost<App>) -> (answer:
        Answer)
        requires
            old(self).wf(),
            *old(self) == before.closed(),
            now + DEFAULT_DURATION <= u64::MAX,
            !effect@.keeps_dialog(),
        ensures
            final(self).wf(),
            final(self).effected(&before, effect@, answer@, now),
    {
        let ghost asked = effect@;
        match effect {
            Effect::Reload => {
                assert(self.effected(&before, asked, AnswerView::Reload, now)) by {
                    reveal(App::effected);
                }
                Answer::Reload
            },
            Effect::Rerun(id) => {
                self.resume_input();
                let next = self.rerun_target(id, now);
                assert(self.effected(&before, asked, AnswerView::Run(next@), now)) by {
                    reveal(App::effected);
                }
                Answer::Run(next)
            },
            Effect::ClearSearch => {
                self.search("");
                assert(self.effected(&before, asked, AnswerView::Nothing, now)) by {
                    reveal(App::effected);
                    reveal_strlit("");
                    assert(""@ =~= Seq::<char>::empty());
                }
                Answer::Nothing
            },
            Effect::SelectCode(id) => {
                self.select_block(id);
                assert(self.effected(&before, asked, AnswerView::Nothing, now)) by {
                    reveal(App::effected);
                }
                Answer::Nothing
            },
            Effect::SaveTheme(name) => {
                assert(self.effected(&before, asked, AnswerView::KeepTheme(name@), now)) by {
                    reveal(App::effected);
                }
                Answer::KeepTheme(name)
            },
            Effect::RestoreTheme(name) => {
                self.notify_info("Theme restored", now);
                assert(self.effected(&before, asked, AnswerView::UseTheme(name@), now)) by {
                    reveal(App::effected);
                }
                Answer::UseTheme(name)
            },
            _ => {
                assert(self.effected(&before, asked, AnswerView::Nothing, now)) by {
                    reveal(App::effected);
                }
                Answer::Nothing
            },
        }
    }

    /// The dialog and the variables after an action, and what is asked for.
    #[verifier::opaque]
    pub open spec fn dialog_updated(
        &self,
        before: &App,
        message: Message,
        effect: Option<EffectView>,
    ) -> bool {
        &&& before.overlay is Some
        &&& self.overlay is Some
        &&& self.overlay->0.updated(
            &before.overlay->0,
            message,
            self.envs,
            before.envs,
            effect,
        )
        &&& *self == (App { overlay: self.overlay, envs: self.envs, ..*before })
    }

    fn update_dialog(&mut self, message: Message) -> (effect: Option<Effect>)
        requires
            old(self).wf(),
            old(self).overlay is Some,
        ensures
            final(self).wf(),
            final(self).dialog_updated(old(self), message, effect_view(effect)),
    {
        proof {
            reveal(App::wf);
            reveal(App::dialog_updated);
        }
        if let Some(overlay) = &mut self.overlay {
            overlay.update(message, &mut self.envs)
        } else {
            None
        }
    }

    /// The state and what the caller has to do after an action of the dialog.
    pub open spec fn dialog_answered(
        &self,
        before: &App,
        message: Message,
        answer: AnswerView,
        now: u64,
    ) -> bool {
        if before.overlay is None {
            *self == *before && answer == AnswerView::Nothing
        } else {
            exists|updated: App, effect: Option<EffectView>|
                {
                    &&& #[trigger] updated.dialog_updated(before, message, effect)
                    &&& match effect {
                        Some(effect) => self.effected(&updated, effect, answer, now),
                        None => *self == updated && answer == AnswerView::Nothing,
                    }
                }
        }
    }

    /// Carries out an action of the dialog; returns what the caller has to do for
    /// it.
    pub fn handle_overlay_msg(&mut self, message: Message, now: u64) -> (answer: Answer)
        requires
            old(self).wf(),
            now + DEFAULT_DURATION <= u64::MAX,
        ensures
            final(self).wf(),
            final(self).dialog_answered(old(self), message, answer@, now),
    {
        if self.overlay.is_none() {
            return Answer::Nothing;
        }
        let effect = self.update_dialog(message);
        let ghost updated = *self;
        assert(updated.dialog_updated(old(self), message, effect_view(effect)));
        match effect {
            Some(effect) => self.apply_overlay_outcome(effect, now),
            None => Answer::Nothing,
        }
    }

    /// The files of a directory were looked for: the picker shows them, or it is
    /// said why it does not.
    pub open spec fn picker_opened(
        &self,
        before: &App,
        root: Seq<char>,
        files: Result<Vec<MarkdownFile>, String>,
        now: u64,
    ) -> bool {
        match files {
            Ok(files) => if files@.len() == 0 {
                &&& *self == (App { notification: self.notification, ..*before })
                &&& flashes(self.notification, FlashKind::Error, no_files_text(root), now)
            } else {
                &&& *self == (App {
                    overlay: self.overlay,
                    file_picker_root: self.file_picker_root,
                    ..*before
                })
                &&& self.file_picker_root is Some
                &&& self.file_picker_root->0@ == root
                &&& self.picks(files, false)
            },
            Err(error) => {
                &&& *self == (App { notification: self.notification, ..*before })
                &&& flashes(self.notification, FlashKind::Error, error@, now)
            },
        }
    }

    /// The file picker is open on files.
    pub open spec fn picks(&self, files: Vec<MarkdownFile>, quit_on_cancel: bool) -> bool {
        &&& self.overlay is Some
        &&& self.overlay->0 is FilePicker
        &&& self.overlay->0->quit_on_cancel == quit_on_cancel
        &&& self.overlay->0->picker.wf()
        &&& self.overlay->0->picker.state.files == files
        &&& self.overlay->0->picker.state.query@.len() == 0
        &&& self.overlay->0->picker.state.selected == 0
        &&& self.overlay->0->picker.previews@.dom() =~= Set::empty()
    }

    fn pick(&mut self, root: String, files: Vec<MarkdownFile>, quit_on_cancel: bool)
        requires
            old(self).wf(),
        ensures
            final(self).wf(),
            final(self).picks(files, quit_on_cancel),
            *final(self) == (App {
                overlay: final(self).overlay,
                file_picker_root: Some(root),
                ..*old(self)
            }),
    {
        proof {
            reveal(App::wf);
        }
        let picker = FilePicker::new(files);
        self.overlay = Some(Overlay::FilePicker { picker, quit_on_cancel });
        self.file_picker_root = Some(root);
    }

    /// Opens the file picker on the files of a directory.
    pub fn open_file_picker(
        &mut self,
        root: String,
        files: Result<Vec<MarkdownFile>, String>,
        now: u64,
    )
        requires
            old(self).wf(),
            now + DEFAULT_DURATION <= u64::MAX,
        ensures
            final(self).wf(),
            final(self).picker_opened(old(self), root@, files, now),
    {
        match files {
            Ok(files) => {
                if files.is_empty() {
                    let mut text = "No Markdown files found under ".to_owned();
                    text.append(root.as_str());
                    self.notify_error(text.as_str(), now);
                } else {
                    self.pick(root, files, false);
                }
            },
            Err(error) => {
                self.notify_error(error.as_str(), now);
            },
        }
    }

    /// With the file picker open from the start; leaving it ends the program.
    pub fn from_picker(app: App, root: String, files: Vec<MarkdownFile>) -> (picking: App)
        requires
            app.wf(),
        ensures
            picking.wf(),
            picking.picks(files, true),
            picking == (App {
                overlay: picking.overlay,
                file_picker_root: Some(root),
                ..app
            }),
    {
        let mut picking = app;
        picking.pick(root, files, true);
        picking
    }

    /// Another theme is shown. One of the same name changes nothing.
    #[verifier::opaque]
    pub open spec fn themed<W: Fn(&str, usize) -> Vec<(usize, usize)>>(
        &self,
        before: &App,
        theme: Theme,
        painter: Painter,
        wrap: W,
    ) -> bool {
        if before.content.preview.theme.name@ == theme.name@ {
            *self == *before
        } else {
            &&& *self == (App { content: self.content, ..*before })
            &&& self.content.menu == before.content.menu
            &&& exists|painted: Preview|
                {
                    &&& painted == (Preview {
                        theme,
                        painter,
                        logical_lines: painted.logical_lines,
                        ..before.content.preview
                    })
                    &&& logical_views(painted.logical_lines@) == logical_views(
                        before.content.preview.logical_lines@,
                    ).map_values(|line: LogicalView| line.uncached())
                    &&& #[trigger] self.content.preview.rebuilt(
                        &painted,
                        before.tasks.outputs,
                        before.content.preview.layout_lines.last_width,
                        wrap,
                    )
                }
        }
    }

    /// Shows another theme, and renders the document anew. A theme of the same name
    /// is passed over.
    pub fn apply_theme<W: Fn(&str, usize) -> Vec<(usize, usize)>>(
        &mut self,
        theme: Theme,
        painter: Painter,
        wrap: &W,
    )
        requires
            old(self).wf(),
            is_wrap(*wrap),
        ensures
            final(self).wf(),
            final(self).themed(old(self), theme, painter, *wrap),
    {
        proof {
            reveal(App::wf);
            reveal(App::themed);
        }
        if crate::text::same_text(self.content.preview.theme.name(), theme.name()) {
            return ;
        }
        self.content.set_theme(theme, painter);
        let ghost painted = self.content.preview;
        self.content.rebuild(self.tasks.buffers(), wrap);
        assert(self.content.preview.rebuilt(
            &painted,
            old(self).tasks.outputs,
            old(self).content.preview.layout_lines.last_width,
            *wrap,
        ));
    }

    /// Turns the background of the theme off or on.
    pub fn set_transparency(&mut self, on: bool)
        requires
            old(self).wf(),
        ensures
            final(self).wf(),
            *final(self) == (App {
                options: super::flow::Options { transparent: on, ..old(self).options },
                ..*old(self)
            }),
    {
        proof {
            reveal(App::wf);
        }
        self.options.transparent = on;
    }
}

} // verus!
