//! What keys ask of the interface.

use std::collections::HashMap;

use vstd::prelude::*;

use super::flow::{text_of, App, Next, NextView, Screen};
use crate::code::{Code, CodeId};
use crate::num::less_by;
use crate::text::{decimal, decimal_text};
use crate::tui::confirm::{Confirm, ConfirmAction};
use crate::tui::content::Content;
use crate::tui::dependencies::Dependencies;
use crate::tui::goto::{Goto, GotoBlock, StatusKind};
use crate::tui::menu::{toc_base_width, toc_clamp, Menu, MenuMode};
use crate::tui::notification::DEFAULT_DURATION;
use crate::tui::overlay::Overlay;
use crate::tui::preview::images::parent_dir;
use crate::tui::search::{Search, SearchView};
use crate::tui::tasks::{TaskOutput, Tasks};

verus! {

/// What a key asks of the interface.
#[derive(Clone, Copy, Debug, PartialEq, Eq, Structural)]
pub enum Action {
    /// Execute code block
    Execute,
    /// View environment variables
    Envs,
    /// Search text
    Search,
    /// Go to block by ID
    Goto,
    /// Open Markdown file picker
    OpenFilePicker,
    /// Switch theme
    SwitchTheme,
    /// Toggle transparency
    ToggleTransparency,
    /// Toggle zen mode
    ToggleZen,
    /// Decrease TOC panel width
    DecreaseTocWidth,
    /// Increase TOC panel width
    IncreaseTocWidth,
    /// View output
    ViewOutput,
    /// Enter input mode for the selected running block
    Input,
    /// Exit input mode
    ExitInput,
    /// Reload the input file, clearing all output
    Reload,
    /// Paste clipboard content into the active PTY.
    Paste,
    /// Show/hide help
    Help,
    /// Show dependency diagram
    ShowDeps,
    /// Toggle the inline workflow dependency graph
    ToggleWorkflowGraph,
    /// Quit
    Quit,
}

/// What the caller has to do for an action.
pub enum Command {
    Nothing,
    Run(Next),
    /// Look for files, below a directory or else below the current one, and show
    /// them in the picker.
    FindFiles(Option<String>),
    /// Show the key bindings.
    ShowHelp,
    /// Show the themes.
    ShowThemes,
    /// Show the current theme with or without its background, and remember that.
    SetTransparency(bool),
    /// Paste into the program of a block.
    Paste(CodeId),
    /// Resize the programs of some blocks.
    Resize(Vec<CodeId>, u16, u16),
}

/// What the caller has to do for an action.
pub enum CommandView {
    Nothing,
    Run(NextView),
    FindFiles(Option<Seq<char>>),
    ShowHelp,
    ShowThemes,
    SetTransparency(bool),
    Paste(CodeId),
    Resize(Seq<CodeId>, u16, u16),
}

impl View for Command {
    type V = CommandView;

    open spec fn view(&self) -> CommandView {
        match *self {
            Command::Nothing => CommandView::Nothing,
            Command::Run(next) => CommandView::Run(next@),
            Command::FindFiles(root) => CommandView::FindFiles(text_of(root)),
            Command::ShowHelp => CommandView::ShowHelp,
            Command::ShowThemes => CommandView::ShowThemes,
            Command::SetTransparency(on) => CommandView::SetTransparency(on),
            Command::Paste(id) => CommandView::Paste(id),
            Command::Resize(ids, cols, rows) => CommandView::Resize(ids@, cols, rows),
        }
    }
}

/// A prompt that is open.
pub open spec fn prompts(overlay: Option<Overlay>, action: ConfirmAction) -> bool {
    match overlay {
        Some(Overlay::Confirm(confirm)) => confirm.action == action && !confirm.selected,
        _ => false,
    }
}

/// How a block stands in the list of blocks to go to.
pub open spec fn goto_kind(output: Option<TaskOutput>) -> StatusKind {
    match output {
        Some(output) => if !output.task.done {
            StatusKind::Running
        } else if output.task.exit_code == Some(0i32) {
            StatusKind::Success
        } else {
            StatusKind::Error
        },
        None => StatusKind::NotRun,
    }
}

/// How a block is called in the list of blocks to go to.
pub open spec fn goto_label(code: Code) -> Seq<char> {
    decimal_text(code.id as nat) + ". "@ + if code.name@.len() == 0 {
        code.language@
    } else {
        code.name@
    }
}

/// The list of blocks to go to.
pub open spec fn lists_blocks(goto: Goto, codes: Seq<Code>, tasks: Tasks) -> bool {
    &&& goto.query@.len() == 0
    &&& goto.selected == 0
    &&& goto.all_blocks@.len() == codes.len()
    &&& forall|i: int|
        0 <= i < codes.len() ==> (#[trigger] goto.all_blocks@[i]).id == codes[i].id
            && goto.all_blocks@[i].label@ == goto_label(codes[i]) && goto.all_blocks@[i].kind
            == goto_kind(tasks.at(codes[i].id))
    &&& forall|id: CodeId| #[trigger]
        goto.previews@.contains_key(id) <==> crate::code::has_block(codes, id)
    &&& forall|i: int|
        0 <= i < codes.len() && last_with_id(codes, i) ==> previews_code(
            goto.previews@,
            #[trigger] codes[i],
        )
}

/// No later block has the number of this one.
pub open spec fn last_with_id(codes: Seq<Code>, i: int) -> bool {
    forall|j: int| i < j < codes.len() ==> (#[trigger] codes[j]).id != codes[i].id
}

/// A block is previewed by its language and its content.
pub open spec fn previews_code(previews: Map<CodeId, (String, String)>, code: Code) -> bool {
    &&& previews.contains_key(code.id)
    &&& previews[code.id].0@ == code.language@
    &&& previews[code.id].1@ == code.content@
}

fn list_blocks(codes: &Vec<Code>, tasks: &Tasks) -> (goto: Goto)
    ensures
        goto.wf(),
        lists_blocks(goto, codes@, *tasks),
{
    broadcast use vstd::std_specs::hash::group_hash_axioms;

    let mut blocks: Vec<GotoBlock> = Vec::new();
    let mut previews: HashMap<CodeId, (String, String)> = HashMap::new();
    let mut i: usize = 0;
    while i < codes.len()
        invariant
            i <= codes@.len(),
            blocks@.len() == i,
            forall|k: int|
                0 <= k < i ==> (#[trigger] blocks@[k]).id == codes@[k].id && blocks@[k].label@
                    == goto_label(codes@[k]) && blocks@[k].kind == goto_kind(
                    tasks.at(codes@[k].id),
                ),
            forall|id: CodeId| #[trigger]
                previews@.contains_key(id) <==> exists|k: int|
                    0 <= k < i && (#[trigger] codes@[k]).id == id,
            forall|k: int|
                0 <= k < i && last_with_id(codes@.take(i as int), k) ==> previews_code(
                    previews@,
                    #[trigger] codes@[k],
                ),
        decreases codes@.len() - i,
    {
        let code = &codes[i];
        let mut label = decimal(code.id as u64);
        label.append(". ");
        if code.name.as_str().is_empty() {
            label.append(code.language.as_str());
        } else {
            label.append(code.name.as_str());
        }
        let kind = match tasks.get(code.id) {
            Some(output) => if !output.task.done() {
                StatusKind::Running
            } else {
                match output.task.exit_code {
                    Some(status) => if status == 0 {
                        StatusKind::Success
                    } else {
                        StatusKind::Error
                    },
                    None => StatusKind::Error,
                }
            },
            None => StatusKind::NotRun,
        };
        let ghost before = previews@;
        blocks.push(GotoBlock { id: code.id, label, kind });
        previews.insert(code.id, (code.language.clone(), code.content.clone()));
        proof {
            assert forall|id: CodeId| #[trigger]
                previews@.contains_key(id) <==> exists|k: int|
                    0 <= k < i + 1 && (#[trigger] codes@[k]).id == id by {
                if id == code.id {
                    assert(codes@[i as int].id == id);
                }
                if before.contains_key(id) {
                    let k = choose|k: int| 0 <= k < i && (#[trigger] codes@[k]).id == id;
                    assert(codes@[k].id == id);
                }
            }
            assert forall|k: int|
                0 <= k < i + 1 && last_with_id(codes@.take(i + 1), k) implies previews_code(
                previews@,
                #[trigger] codes@[k],
            ) by {
                let longer = codes@.take(i + 1);
                let shorter = codes@.take(i as int);
                if k < i {
                    assert(longer[i as int].id != longer[k].id);
                    assert forall|j: int| k < j < shorter.len() implies (#[trigger] shorter[j]).id
                        != shorter[k].id by {
                        assert(longer[j].id != longer[k].id);
                    }
                    assert(last_with_id(shorter, k));
                    assert(previews_code(before, codes@[k]));
                }
            }
        }
        i += 1;
    }
    assert(codes@.take(i as int) =~= codes@);
    Goto::new(blocks, previews)
}

impl App {
    /// Whether an action is there: some are for the selected block's task, or for
    /// input to its program, or for a plan.
    pub open spec fn enables(&self, action: Action) -> bool {
        match action {
            Action::ViewOutput => self.selected() is Some && self.tasks.at(
                self.selected()->0,
            ) is Some,
            Action::Input => self.selected_runs(),
            Action::ExitInput => self.screen == Screen::Input,
            Action::Paste => self.screen == Screen::Input && self.selected_runs(),
            Action::ToggleWorkflowGraph => self.graph is Some,
            _ => true,
        }
    }

    /// Whether an action is there.
    pub fn is_action_enabled(&self, action: Action) -> (yes: bool)
        ensures
            yes == self.enables(action),
    {
        let (known, running) = match self.content.selected_code_id() {
            Some(id) => (self.tasks.contains(id), self.tasks.accepts_input(id)),
            None => (false, false),
        };
        match action {
            Action::ViewOutput => known,
            Action::Input => running,
            Action::ExitInput => self.screen == Screen::Input,
            Action::Paste => self.screen == Screen::Input && running,
            Action::ToggleWorkflowGraph => self.graph.is_some(),
            _ => true,
        }
    }

    /// Opens a dialog.
    pub fn open(&mut self, overlay: Overlay)
        requires
            old(self).wf(),
            overlay.wf(),
        ensures
            final(self).wf(),
            *final(self) == (App { overlay: Some(overlay), ..*old(self) }),
    {
        proof {
            reveal(App::wf);
        }
        self.overlay = Some(overlay);
    }

    /// Only the dialog is another one.
    pub open spec fn only_overlay(&self, before: &App) -> bool {
        *self == (App { overlay: self.overlay, ..*before })
    }

    /// The block that is selected or shown was asked to run: one that ran before
    /// after a prompt.
    #[verifier::opaque]
    pub open spec fn ran_focused(&self, before: &App, next: NextView, now: u64) -> bool {
        match before.content.focused() {
            Some(id) => if before.tasks.at(id) is Some {
                self.only_overlay(before) && prompts(self.overlay, ConfirmAction::ReRun(id))
                    && next == NextView::Nothing
            } else {
                self.executed(&(App { auto_input_paused: false, ..*before }), id, next, now)
            },
            None => *self == *before && next == NextView::Nothing,
        }
    }

    /// Lets blocks that are started later take input.
    fn resume_auto_input(&mut self)
        requires
            old(self).wf(),
        ensures
            final(self).wf(),
            *final(self) == (App { auto_input_paused: false, ..*old(self) }),
    {
        proof {
            reveal(App::wf);
        }
        self.auto_input_paused = false;
    }

    fn focused_id(&self) -> (id: Option<CodeId>)
        requires
            self.wf(),
        ensures
            id == self.content.focused(),
    {
        proof {
            reveal(App::wf);
        }
        self.content.focused_code_id()
    }

    /// Runs the block that is selected or shown.
    pub fn execute_focused(&mut self, now: u64) -> (next: Next)
        requires
            old(self).wf(),
            now + DEFAULT_DURATION <= u64::MAX,
        ensures
            final(self).wf(),
            final(self).ran_focused(old(self), next@, now),
    {
        let next = match self.focused_id() {
            Some(id) => {
                if self.tasks.contains(id) {
                    self.open(Overlay::Confirm(Confirm::rerun(id)));
                    Next::Nothing
                } else {
                    self.resume_auto_input();
                    self.execute(id, now)
                }
            },
            None => Next::Nothing,
        };
        assert(self.ran_focused(old(self), next@, now)) by {
            reveal(App::ran_focused);
        }
        next
    }

    /// The output of the selected block takes the screen, and every program has
    /// its size.
    #[verifier::opaque]
    pub open spec fn views_output(&self, before: &App, command: CommandView) -> bool {
        let cols = before.layout.last_area.width;
        let rows = less_by(
            before.layout.last_area.height as int,
            crate::config::OUTPUT_FOOTER_HEIGHT as int,
        ) as u16;
        &&& *self == (App { screen: Screen::Output, tasks: self.tasks, ..*before })
        &&& self.tasks.all_resized(&before.tasks, cols, rows)
        &&& command == CommandView::Resize(before.tasks.ids@, cols, rows)
    }

    fn view_output(&mut self) -> (command: Command)
        requires
            old(self).wf(),
        ensures
            final(self).wf(),
            final(self).views_output(old(self), command@),
    {
        proof {
            reveal(App::wf);
            reveal(App::views_output);
        }
        self.screen = Screen::Output;
        let (cols, rows) = self.layout.output_pty_size();
        let ids = self.tasks.resize(cols, rows);
        Command::Resize(ids, cols, rows)
    }

    /// The width of the menu; none in zen mode.
    pub open spec fn menu_room(&self, total_width: u16) -> u16 {
        if self.zen {
            0
        } else {
            self.content.menu.width_in(total_width) as u16
        }
    }

    /// The width of the menu; none in zen mode.
    pub fn menu_width(&self, total_width: u16) -> (width: u16)
        ensures
            width == self.menu_room(total_width),
    {
        if self.zen {
            0
        } else {
            self.content.width(total_width)
        }
    }

    /// The layout has the width of the menu.
    #[verifier::opaque]
    pub open spec fn relaid_menu(&self, before: &App) -> bool {
        &&& *self == (App { layout: self.layout, ..*before })
        &&& self.layout.laid(
            &before.layout,
            before.layout.last_area,
            before.menu_room(before.layout.last_area.width),
        )
    }

    fn relay_menu(&mut self)
        requires
            old(self).wf(),
        ensures
            final(self).wf(),
            final(self).relaid_menu(old(self)),
    {
        proof {
            reveal(App::wf);
        }
        let total = self.layout.total_width();
        let width = self.menu_width(total);
        self.layout.update_menu_width(width);
        assert(self.relaid_menu(old(self))) by {
            reveal(App::relaid_menu);
        }
    }

    fn toggle_zen(&mut self)
        requires
            old(self).wf(),
        ensures
            final(self).wf(),
            final(self).relaid_menu(&(App { zen: !old(self).zen, ..*old(self) })),
    {
        proof {
            reveal(App::wf);
        }
        self.zen = !self.zen;
        self.relay_menu();
    }

    /// The list of headings is wider or narrower, where it is shown.
    #[verifier::opaque]
    pub open spec fn toc_changed(&self, before: &App, delta: int) -> bool {
        let total = before.layout.last_area.width;
        if before.content.menu.mode == MenuMode::Toc {
            self.relaid_menu(
                &(App {
                    content: Content {
                        menu: Menu {
                            toc_width_adjustment: (toc_clamp(
                                toc_base_width(total) + before.content.menu.toc_width_adjustment
                                    + delta,
                            ) - toc_base_width(total)) as i16,
                            ..before.content.menu
                        },
                        preview: before.content.preview,
                    },
                    ..*before
                }),
            )
        } else {
            *self == *before
        }
    }

    fn change_toc_width(&mut self, delta: i16)
        requires
            old(self).wf(),
        ensures
            final(self).wf(),
            final(self).toc_changed(old(self), delta as int),
    {
        proof {
            reveal(App::wf);
            reveal(App::toc_changed);
        }
        if self.content.is_toc() {
            let total = self.layout.total_width();
            self.content.adjust_toc_width(delta, total);
            self.relay_menu();
        }
    }

    fn set_screen(&mut self, screen: Screen, paused: bool)
        requires
            old(self).wf(),
        ensures
            final(self).wf(),
            *final(self) == (App { screen, auto_input_paused: paused, ..*old(self) }),
    {
        proof {
            reveal(App::wf);
        }
        self.screen = screen;
        self.auto_input_paused = paused;
    }

    fn set_graph_shown(&mut self)
        requires
            old(self).wf(),
        ensures
            final(self).wf(),
            *final(self) == (App { graph_shown: !old(self).graph_shown, ..*old(self) }),
    {
        proof {
            reveal(App::wf);
        }
        self.graph_shown = !self.graph_shown;
    }

    /// The blocks to go to are listed.
    #[verifier::opaque]
    pub open spec fn goto_open(&self, before: &App) -> bool {
        &&& self.only_overlay(before)
        &&& match self.overlay {
            Some(Overlay::Goto(goto)) => lists_blocks(
                goto,
                before.content.preview.codes@,
                before.tasks,
            ),
            _ => false,
        }
    }

    fn open_goto(&mut self)
        requires
            old(self).wf(),
        ensures
            final(self).wf(),
            final(self).goto_open(old(self)),
    {
        let goto = list_blocks(self.content.codes(), &self.tasks);
        self.open(Overlay::Goto(goto));
        assert(self.goto_open(old(self))) by {
            reveal(App::goto_open);
        }
    }

    /// What the selected block depends on is shown.
    #[verifier::opaque]
    pub open spec fn deps_open(&self, before: &App) -> bool {
        &&& self.only_overlay(before)
        &&& match self.overlay {
            Some(Overlay::Dependencies(deps)) => deps.shows_target(
                before.content.preview.codes@,
                before.selected(),
                crate::tui::tasks::statuses_of(before.tasks.outputs@),
            ),
            _ => false,
        }
    }

    fn open_deps(&mut self)
        requires
            old(self).wf(),
        ensures
            final(self).wf(),
            final(self).deps_open(old(self)),
    {
        let deps = self.selected_deps();
        self.open(Overlay::Dependencies(deps));
        assert(self.deps_open(old(self))) by {
            reveal(App::deps_open);
        }
    }

    fn selected_deps(&self) -> (deps: Dependencies)
        requires
            self.wf(),
        ensures
            deps.shows_target(
                self.content.preview.codes@,
                self.selected(),
                crate::tui::tasks::statuses_of(self.tasks.outputs@),
            ),
    {
        proof {
            reveal(App::wf);
        }
        Dependencies::for_target(
            self.content.codes().as_slice(),
            self.content.selected_code_id(),
            self.tasks.task_statuses(),
        )
    }

    /// Where files are looked for: where they were before, or where the document
    /// is; else in the current directory.
    pub open spec fn picker_root(&self) -> Option<Seq<char>> {
        match self.file_picker_root {
            Some(root) => Some(root@),
            None => match self.options.file {
                Some(file) => if parent_dir(file@).len() > 0 {
                    Some(parent_dir(file@))
                } else {
                    None
                },
                None => None,
            },
        }
    }

    fn find_root(&self) -> (root: Option<String>)
        ensures
            text_of(root) == self.picker_root(),
    {
        match &self.file_picker_root {
            Some(root) => Some(root.clone()),
            None => match &self.options.file {
                Some(file) => {
                    let dir = crate::tui::preview::images::image_base_dir(
                        Some(file.as_str()),
                        "",
                    );
                    proof {
                        reveal_strlit("");
                    }
                    if dir.as_str().is_empty() {
                        None
                    } else {
                        Some(dir)
                    }
                },
                None => None,
            },
        }
    }

    /// The dialog that an action opens.
    #[verifier::opaque]
    pub open spec fn dialog_opened(&self, before: &App, action: Action) -> bool {
        match action {
            Action::Quit => self.only_overlay(before) && prompts(
                self.overlay,
                ConfirmAction::Quit,
            ),
            Action::Reload => self.only_overlay(before) && prompts(
                self.overlay,
                ConfirmAction::ReloadFile,
            ),
            Action::Envs => *self == (App { overlay: Some(Overlay::Envs), ..*before }),
            Action::Search => self.only_overlay(before) && match self.overlay {
                Some(Overlay::Search(search)) => search@ == SearchView::empty(),
                _ => false,
            },
            Action::Goto => self.goto_open(before),
            Action::ShowDeps => self.deps_open(before),
            _ => false,
        }
    }

    /// An action that opens a dialog.
    pub open spec fn is_dialog(action: Action) -> bool {
        action == Action::Quit || action == Action::Reload || action == Action::Envs || action
            == Action::Search || action == Action::Goto || action == Action::ShowDeps
    }

    fn open_dialog(&mut self, action: Action)
        requires
            old(self).wf(),
            App::is_dialog(action),
        ensures
            final(self).wf(),
            final(self).dialog_opened(old(self), action),
    {
        proof {
            reveal(App::dialog_opened);
        }
        match action {
            Action::Quit => self.open(Overlay::Confirm(Confirm::quit())),
            Action::Reload => self.open(Overlay::Confirm(Confirm::reload())),
            Action::Search => self.open(Overlay::Search(Search::new())),
            Action::Goto => self.open_goto(),
            Action::ShowDeps => self.open_deps(),
            _ => self.open(Overlay::Envs),
        }
    }

    /// What an action changes in what is shown.
    #[verifier::opaque]
    pub open spec fn view_changed(&self, before: &App, action: Action, command: CommandView) -> bool {
        match action {
            Action::ViewOutput => self.views_output(before, command),
            Action::ToggleWorkflowGraph => command == CommandView::Nothing && *self == (App {
                graph_shown: !before.graph_shown,
                ..*before
            }),
            Action::Input => command == CommandView::Nothing && *self == (App {
                screen: Screen::Input,
                auto_input_paused: false,
                ..*before
            }),
            Action::ExitInput => command == CommandView::Nothing && *self == (App {
                screen: Screen::Home,
                auto_input_paused: true,
                ..*before
            }),
            Action::ToggleZen => command == CommandView::Nothing && self.relaid_menu(
                &(App { zen: !before.zen, ..*before }),
            ),
            Action::DecreaseTocWidth => command == CommandView::Nothing && self.toc_changed(
                before,
                -2,
            ),
            Action::IncreaseTocWidth => command == CommandView::Nothing && self.toc_changed(
                before,
                2,
            ),
            _ => false,
        }
    }

    /// An action that changes what is shown.
    pub open spec fn is_view(action: Action) -> bool {
        action == Action::ViewOutput || action == Action::ToggleWorkflowGraph || action
            == Action::Input || action == Action::ExitInput || action == Action::ToggleZen || action
            == Action::DecreaseTocWidth || action == Action::IncreaseTocWidth
    }

    fn change_view(&mut self, action: Action) -> (command: Command)
        requires
            old(self).wf(),
            App::is_view(action),
        ensures
            final(self).wf(),
            final(self).view_changed(old(self), action, command@),
    {
        proof {
            reveal(App::view_changed);
        }
        match action {
            Action::ViewOutput => {
                return self.view_output();
            },
            Action::Input => self.set_screen(Screen::Input, false),
            Action::ExitInput => self.set_screen(Screen::Home, true),
            Action::ToggleZen => self.toggle_zen(),
            Action::DecreaseTocWidth => self.change_toc_width(-2),
            Action::IncreaseTocWidth => self.change_toc_width(2),
            _ => self.set_graph_shown(),
        }
        Command::Nothing
    }

    /// The state and what the caller has to do after an action. An action that is
    /// not there does nothing.
    pub open spec fn acted(&self, before: &App, action: Action, command: CommandView, now: u64) -> bool {
        if !before.enables(action) {
            *self == *before && command == CommandView::Nothing
        } else if App::is_dialog(action) {
            self.dialog_opened(before, action) && command == CommandView::Nothing
        } else if App::is_view(action) {
            self.view_changed(before, action, command)
        } else {
            match action {
                Action::Execute => command is Run && self.ran_focused(before, command->Run_0, now),
                Action::Help => command == CommandView::ShowHelp && *self == *before,
                Action::OpenFilePicker => command == CommandView::FindFiles(before.picker_root())
                    && *self == *before,
                Action::SwitchTheme => command == CommandView::ShowThemes && *self == *before,
                Action::ToggleTransparency => command == CommandView::SetTransparency(
                    !before.options.transparent,
                ) && *self == *before,
                Action::Paste => command == CommandView::Paste(before.selected()->0) && *self
                    == *before,
                _ => false,
            }
        }
    }

    /// Carries out an action; returns what the caller has to do for it.
    pub fn handle_action(&mut self, action: Action, now: u64) -> (command: Command)
        requires
            old(self).wf(),
            now + DEFAULT_DURATION <= u64::MAX,
        ensures
            final(self).wf(),
            final(self).acted(old(self), action, command@, now),
    {
        if !self.is_action_enabled(action) {
            return Command::Nothing;
        }
        match action {
            Action::Quit | Action::Reload | Action::Envs | Action::Search | Action::Goto
            | Action::ShowDeps => {
                self.open_dialog(action);
                Command::Nothing
            },
            Action::ViewOutput | Action::ToggleWorkflowGraph | Action::Input | Action::ExitInput
            | Action::ToggleZen | Action::DecreaseTocWidth | Action::IncreaseTocWidth => {
                self.change_view(action)
            },
            Action::Execute => Command::Run(self.execute_focused(now)),
            Action::Help => Command::ShowHelp,
            Action::OpenFilePicker => Command::FindFiles(self.find_root()),
            Action::SwitchTheme => Command::ShowThemes,
            Action::ToggleTransparency => Command::SetTransparency(!self.options.transparent),
            Action::Paste => match self.content.selected_code_id() {
                Some(id) => Command::Paste(id),
                None => Command::Nothing,
            },
        }
    }
}

impl Tasks {
    /// Every screen has a size.
    pub open spec fn all_resized(&self, before: &Tasks, cols: u16, rows: u16) -> bool {
        self.outputs@ == before.outputs@.map_values(
            |output: TaskOutput| TaskOutput { rows, cols, ..output },
        )
    }

    /// Takes a new size of every screen; returns the blocks whose screens and
    /// programs may have to be resized.
    pub fn resize(&mut self, cols: u16, rows: u16) -> (ids: Vec<CodeId>)
        requires
            old(self).wf(),
        ensures
            final(self).wf(),
            final(self).all_resized(old(self), cols, rows),
            ids@ == old(self).ids@,
    {
        let n: usize = self.ids.len();
        let mut ids: Vec<CodeId> = Vec::new();
        let mut i: usize = 0;
        while i < n
            invariant
                i <= n,
                n == self.ids@.len(),
                self.ids == old(self).ids,
                old(self).wf(),
                self.wf(),
                ids@ == self.ids@.take(i as int),
                self.outputs@.dom() == old(self).outputs@.dom(),
                forall|k: int|
                    0 <= k < n ==> self.outputs@[#[trigger] self.ids@[k]] == (if k < i {
                        TaskOutput { rows, cols, ..old(self).outputs@[self.ids@[k]] }
                    } else {
                        old(self).outputs@[self.ids@[k]]
                    }),
            decreases n - i,
        {
            let id = self.ids[i];
            proof {
                assert(self.ids@.contains(id));
                assert(self.outputs@.contains_key(id));
            }
            self.resize_task(id, cols, rows);
            ids.push(id);
            proof {
                assert(self.outputs@.dom() =~= old(self).outputs@.dom());
                assert(self.ids@.take(i + 1) =~= self.ids@.take(i as int).push(id));
            }
            i += 1;
        }
        let ghost goal = old(self).outputs@.map_values(
            |output: TaskOutput| TaskOutput { rows, cols, ..output },
        );
        assert forall|id: CodeId| #[trigger] goal.contains_key(id) implies self.outputs@[id]
            == goal[id] by {
            assert(old(self).ids@.contains(id));
            let k = choose|k: int| 0 <= k < self.ids@.len() && self.ids@[k] == id;
            assert(self.outputs@[self.ids@[k]] == goal[id]);
        }
        assert(self.outputs@ =~= goal);
        assert(self.ids@.take(i as int) =~= self.ids@);
        ids
    }
}

} // verus!
