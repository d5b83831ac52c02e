//! Where events go.

use vstd::prelude::*;

use super::actions::Action;
use super::flow::{App, Screen};
use crate::code::CodeId;
use crate::num::{less_by, smaller};
use crate::task::Task;
use crate::tui::output;
use crate::tui::preview::interact::{Mouse, MouseKind};
use crate::tui::tasks::{TaskOutput, Tasks};

verus! {

/// An event, and what the keys are bound to.
#[derive(Clone, Copy, Debug, PartialEq, Eq, Structural)]
pub enum Event {
    /// A key, and what it asks of the interface.
    Key(Option<Action>),
    /// The mouse; whether a button went down or up, and whether a program can be
    /// told.
    Mouse { mouse: Mouse, click: bool, encodable: bool },
    Other,
}

/// Where an event goes.
#[derive(Clone, Copy, Debug, PartialEq, Eq, Structural)]
pub enum Route {
    Nothing,
    /// An action of the interface.
    Action(Action),
    /// To the document, or else an action of the interface.
    Document(Option<Action>),
    /// A mouse event at a place of a program's screen.
    SendMouse(CodeId, u16, u16),
    /// Scrolls the output below the selected block, up or down.
    ScrollInline(bool),
    /// To the selected block's program.
    Forward,
}

/// Where an event of the output goes.
#[derive(Clone, Copy, Debug, PartialEq, Eq, Structural)]
pub enum OutputRoute {
    /// An action of the output.
    Action(output::Action),
    /// A mouse event at a place of a program's screen.
    SendMouse(CodeId, u16, u16),
    /// A mouse event for the output of a block.
    Local(CodeId),
    /// To the selected block's program.
    Forward,
}

/// The action that a key asks of the interface.
pub open spec fn bound_action(event: Event) -> Option<Action> {
    match event {
        Event::Key(action) => action,
        _ => None,
    }
}

impl App {
    /// The block under the mouse.
    pub open spec fn clicked(&self, mouse: Mouse) -> Option<CodeId> {
        let preview = self.content.preview;
        match preview.rel_row(mouse.row) {
            Some(row) => if preview.last_area.holds(mouse.column, mouse.row) {
                preview.code_at(preview.state.offset + row)
            } else {
                None
            },
            None => None,
        }
    }

    /// Where a mouse event goes to the selected block's program.
    pub open spec fn program_place(&self, mouse: Mouse) -> Option<(CodeId, u16, u16)> {
        match self.selected() {
            Some(id) => match self.tasks.at(id) {
                Some(output) => {
                    let at = self.content.preview.pty_coords(id, mouse, output.cols, output.rows);
                    if !output.task.done && output.sgr_mouse && at is Some {
                        Some((id, (at->0).0 as u16, (at->0).1 as u16))
                    } else {
                        None
                    }
                },
                None => None,
            },
            None => None,
        }
    }

    /// A program gets a mouse event that happens over the preview.
    pub open spec fn sends_mouse(&self, mouse: Mouse, encodable: bool) -> bool {
        self.selected_runs() && self.layout.preview.holds(mouse.column, mouse.row) && encodable
            && self.program_place(mouse) is Some
    }

    /// Where an event goes, and the state then. While keys go to a program, it gets
    /// everything but what ends that, and a click elsewhere ends it too.
    #[verifier::opaque]
    pub open spec fn routed(&self, before: &App, event: Event, route: Route) -> bool {
        let paused = App { screen: Screen::Home, auto_input_paused: true, ..*before };
        let document = Route::Document(bound_action(event));
        if before.screen != Screen::Input {
            *self == *before && route == document
        } else {
            match event {
                Event::Key(action) => *self == *before && route == (if action == Some(
                    Action::ExitInput,
                ) || action == Some(Action::Paste) {
                    Route::Action(action->0)
                } else if before.selected_runs() {
                    Route::Forward
                } else {
                    document
                }),
                Event::Mouse { mouse, click, encodable } => {
                    if before.sends_mouse(mouse, encodable) {
                        let place = before.program_place(mouse)->0;
                        *self == *before && route == Route::SendMouse(place.0, place.1, place.2)
                    } else if mouse.kind == MouseKind::ScrollUp {
                        *self == *before && route == Route::ScrollInline(true)
                    } else if mouse.kind == MouseKind::ScrollDown {
                        *self == *before && route == Route::ScrollInline(false)
                    } else if click && before.clicked(mouse) != before.selected() {
                        *self == paused && route == document
                    } else if click && before.selected_runs() {
                        *self == *before && route == Route::Nothing
                    } else {
                        *self == *before && route == document
                    }
                },
                Event::Other => *self == *before && route == (if before.selected_runs() {
                    Route::Forward
                } else {
                    document
                }),
            }
        }
    }

    fn input_is_active(&self) -> (yes: bool)
        ensures
            yes == self.selected_runs(),
    {
        match self.content.selected_code_id() {
            Some(id) => self.tasks.accepts_input(id),
            None => false,
        }
    }

    fn clicked_code(&self, mouse: Mouse) -> (id: Option<CodeId>)
        requires
            self.wf(),
        ensures
            id == self.clicked(mouse),
    {
        proof {
            reveal(App::wf);
        }
        self.content.code_id_at_mouse(mouse)
    }

    fn place_of_mouse(&self, mouse: Mouse) -> (place: Option<(CodeId, u16, u16)>)
        requires
            self.wf(),
        ensures
            place == self.program_place(mouse),
    {
        self.mouse_target(mouse)
    }

    fn pause_input(&mut self)
        requires
            old(self).wf(),
        ensures
            final(self).wf(),
            *final(self) == (App { screen: Screen::Home, auto_input_paused: true, ..*old(self) }),
    {
        proof {
            reveal(App::wf);
        }
        self.screen = Screen::Home;
        self.auto_input_paused = true;
    }

    /// Decides where an event of the document goes.
    pub fn handle_home_event(&mut self, event: Event) -> (route: Route)
        requires
            old(self).wf(),
        ensures
            final(self).wf(),
            final(self).routed(old(self), event, route),
    {
        proof {
            reveal(App::routed);
        }
        let bound = match event {
            Event::Key(action) => action,
            _ => None,
        };
        if self.screen != Screen::Input {
            return Route::Document(bound);
        }
        let active = self.input_is_active();
        match event {
            Event::Key(action) => {
                match action {
                    Some(Action::ExitInput) => Route::Action(Action::ExitInput),
                    Some(Action::Paste) => Route::Action(Action::Paste),
                    _ => if active {
                        Route::Forward
                    } else {
                        Route::Document(action)
                    },
                }
            },
            Event::Mouse { mouse, click, encodable } => {
                if active && encodable && self.layout.preview.contains(mouse.column, mouse.row) {
                    if let Some((id, col, row)) = self.place_of_mouse(mouse) {
                        return Route::SendMouse(id, col, row);
                    }
                }
                match mouse.kind {
                    MouseKind::ScrollUp => Route::ScrollInline(true),
                    MouseKind::ScrollDown => Route::ScrollInline(false),
                    _ => {
                        if click && self.clicked_code(mouse) != self.content.selected_code_id() {
                            self.pause_input();
                            Route::Document(None)
                        } else if click && active {
                            Route::Nothing
                        } else {
                            Route::Document(None)
                        }
                    },
                }
            },
            Event::Other => if active {
                Route::Forward
            } else {
                Route::Document(None)
            },
        }
    }

    /// Where an event of the output goes: to the output itself, to a program that
    /// asks for the mouse, or else the mouse to the output and keys to the program.
    pub open spec fn output_routed(
        &self,
        bound: Option<output::Action>,
        mouse: Option<(Mouse, bool)>,
    ) -> OutputRoute {
        let task = match self.selected() {
            Some(id) => self.tasks.at(id),
            None => None,
        };
        let done = match task {
            Some(output) => output.task.done,
            None => self.output.done,
        };
        if bound is Some && output::is_bound(bound->0, done) {
            OutputRoute::Action(bound->0)
        } else if mouse is Some && task is Some {
            let id = self.selected()->0;
            if task->0.sgr_mouse && (mouse->0).1 {
                let area = self.output.last_area;
                let at = (mouse->0).0;
                OutputRoute::SendMouse(
                    id,
                    smaller(
                        crate::num::fit_u16(less_by(at.column as int, area.x as int) + 1),
                        task->0.cols as int,
                    ) as u16,
                    smaller(
                        crate::num::fit_u16(less_by(at.row as int, area.y as int) + 1),
                        task->0.rows as int,
                    ) as u16,
                )
            } else {
                OutputRoute::Local(id)
            }
        } else {
            OutputRoute::Forward
        }
    }

    /// Decides where an event of the output goes. `bound` is what the output's keys
    /// ask for; `mouse` comes with whether a program can be told of it.
    pub fn handle_output_event(&mut self, bound: Option<output::Action>, mouse: Option<(Mouse, bool)>) -> (route:
        OutputRoute)
        requires
            old(self).wf(),
        ensures
            final(self).wf(),
            route == old(self).output_routed(bound, mouse),
            *final(self) == (App {
                output: output::Output {
                    done: match old(self).selected() {
                        Some(id) => match old(self).tasks.at(id) {
                            Some(task) => task.task.done,
                            None => old(self).output.done,
                        },
                        None => old(self).output.done,
                    },
                    ..old(self).output
                },
                ..*old(self)
            }),
    {
        proof {
            reveal(App::wf);
        }
        let id = self.content.selected_code_id();
        if let Some(id) = id {
            if let Some(task) = self.tasks.get(id) {
                self.output.update_state(task);
            }
        }
        if let Some(action) = self.output.action(bound) {
            return OutputRoute::Action(action);
        }
        if let Some((mouse, encodable)) = mouse {
            if let Some(id) = id {
                if let Some(task) = self.tasks.get(id) {
                    if task.sgr_mouse && encodable {
                        let (col, row) = self.output.mouse_to_pty_coords(
                            mouse,
                            task.cols,
                            task.rows,
                        );
                        return OutputRoute::SendMouse(id, col, row);
                    }
                    return OutputRoute::Local(id);
                }
            }
        }
        OutputRoute::Forward
    }

    /// Scrolls the output below the selected block by one line; returns the block
    /// and how far its screen has to be scrolled back.
    pub fn scroll_inline(&mut self, up: bool) -> (scrolled: Option<(CodeId, usize)>)
        requires
            old(self).wf(),
        ensures
            final(self).wf(),
            *final(self) == (App { tasks: final(self).tasks, ..*old(self) }),
            match old(self).selected() {
                Some(id) => match old(self).tasks.at(id) {
                    Some(output) => {
                        let wanted = if up {
                            smaller(output.task.inline_scroll + 1, usize::MAX as int)
                        } else {
                            less_by(output.task.inline_scroll as int, 1)
                        };
                        let scroll = Task::inline_clamp(
                            wanted,
                            old(self).content.preview.inline_max_lines,
                            output.max_scrollback as usize,
                            output.rows as usize,
                        );
                        &&& final(self).tasks.outputs@ == old(self).tasks.outputs@.insert(
                            id,
                            TaskOutput {
                                task: Task { inline_scroll: scroll as usize, ..output.task },
                                ..output
                            },
                        )
                        &&& scrolled == Some(
                            (id, smaller(scroll, output.max_scrollback as int) as usize),
                        )
                    },
                    None => scrolled is None && final(self).tasks.outputs@ == old(
                        self,
                    ).tasks.outputs@,
                },
                None => scrolled is None && final(self).tasks.outputs@ == old(self).tasks.outputs@,
            },
    {
        proof {
            reveal(App::wf);
        }
        let lines = self.content.inline_max_lines();
        match self.content.selected_code_id() {
            Some(id) => match self.tasks.scroll_inline(id, up, lines) {
                Some(n) => Some((id, n)),
                None => None,
            },
            None => None,
        }
    }
}

impl Tasks {
    /// The output of a task was scrolled by one line, and how far its screen has to be
    /// scrolled back.
    pub open spec fn scrolled_inline(
        &self,
        before: &Tasks,
        id: CodeId,
        up: bool,
        lines: usize,
        n: Option<usize>,
    ) -> bool {
        match before.at(id) {
            Some(output) => {
                let wanted = if up {
                    smaller(output.task.inline_scroll + 1, usize::MAX as int)
                } else {
                    less_by(output.task.inline_scroll as int, 1)
                };
                let scroll = Task::inline_clamp(
                    wanted,
                    lines,
                    output.max_scrollback as usize,
                    output.rows as usize,
                );
                &&& self.outputs@ == before.outputs@.insert(
                    id,
                    TaskOutput {
                        task: Task { inline_scroll: scroll as usize, ..output.task },
                        ..output
                    },
                )
                &&& n == Some(smaller(scroll, output.max_scrollback as int) as usize)
            },
            None => n is None && self.outputs@ == before.outputs@,
        }
    }

    /// Scrolls the output of a task by one line; returns how far its screen has to
    /// be scrolled back.
    pub fn scroll_inline(&mut self, id: CodeId, up: bool, lines: usize) -> (n: Option<usize>)
        requires
            old(self).wf(),
        ensures
            final(self).wf(),
            final(self).scrolled_inline(old(self), id, up, lines, n),
    {
        broadcast use vstd::std_specs::hash::group_hash_axioms;

        match self.outputs.remove(&id) {
            Some(mut output) => {
                let max = output.max_scrollback as usize;
                let rows = output.rows as usize;
                let n = if up {
                    output.task.scroll_inline_up(lines, max, rows)
                } else {
                    output.task.scroll_inline_down(lines, max, rows)
                };
                let ghost after = output;
                self.outputs.insert(id, output);
                assert(self.outputs@ =~= old(self).outputs@.insert(id, after));
                Some(n)
            },
            None => {
                assert(self.outputs@ =~= old(self).outputs@);
                None
            },
        }
    }
}

/// What an action of the output asks of the caller.
#[derive(Clone, Copy, Debug, PartialEq, Eq, Structural)]
pub enum OutputCommand {
    Nothing,
    /// Resize the program of a block.
    Resize(CodeId, u16, u16),
    /// Copy the output of a block.
    Copy(CodeId),
    /// Paste into the program of a block.
    Paste(CodeId),
}

impl App {
    /// Back to the document, with the selected block's program fitted into it.
    #[verifier::opaque]
    pub open spec fn went_home(&self, before: &App, command: OutputCommand) -> bool {
        let home = App { screen: Screen::Home, ..*before };
        match before.selected() {
            Some(id) => {
                let (cols, rows) = home.inline_size(id);
                &&& (App { tasks: before.tasks, ..*self }).fitted(&home, id)
                &&& self.tasks.resized(&before.tasks, id, cols as u16, rows as u16)
                &&& command == (if before.tasks.at(id) is Some && (before.tasks.at(id)->0.rows
                    != rows || before.tasks.at(id)->0.cols != cols) {
                    OutputCommand::Resize(id, cols as u16, rows as u16)
                } else {
                    OutputCommand::Nothing
                })
            },
            None => *self == home && command == OutputCommand::Nothing,
        }
    }

    fn go_home(&mut self) -> (command: OutputCommand)
        requires
            old(self).wf(),
        ensures
            final(self).wf(),
            final(self).went_home(old(self), command),
    {
        proof {
            reveal(App::wf);
            reveal(App::went_home);
        }
        self.screen = Screen::Home;
        match self.resize_tasks_for_preview() {
            Some((id, cols, rows)) => OutputCommand::Resize(id, cols, rows),
            None => OutputCommand::Nothing,
        }
    }

    /// The state and what the caller has to do after an action of the output.
    pub open spec fn output_acted(&self, before: &App, action: output::Action, command: OutputCommand) -> bool {
        let task = match before.selected() {
            Some(id) => before.tasks.at(id),
            None => None,
        };
        let done = task is Some && task->0.task.done;
        match action {
            output::Action::Back => self.went_home(before, command),
            output::Action::BackIfDone => if done {
                self.went_home(before, command)
            } else {
                *self == *before && command == OutputCommand::Nothing
            },
            output::Action::Copy => *self == *before && command == (if done {
                OutputCommand::Copy(before.selected()->0)
            } else {
                OutputCommand::Nothing
            }),
            output::Action::Paste => *self == *before && command == (match before.selected() {
                Some(id) => OutputCommand::Paste(id),
                None => OutputCommand::Nothing,
            }),
        }
    }

    /// Carries out an action of the output; returns what the caller has to do for
    /// it.
    pub fn handle_output_action(&mut self, action: output::Action) -> (command: OutputCommand)
        requires
            old(self).wf(),
        ensures
            final(self).wf(),
            final(self).output_acted(old(self), action, command),
    {
        let selected = self.content.selected_code_id();
        let done = match selected {
            Some(id) => self.tasks.is_done(id),
            None => false,
        };
        match action {
            output::Action::Back => self.go_home(),
            output::Action::BackIfDone => if done {
                self.go_home()
            } else {
                OutputCommand::Nothing
            },
            output::Action::Copy => match selected {
                Some(id) => if done {
                    OutputCommand::Copy(id)
                } else {
                    OutputCommand::Nothing
                },
                None => OutputCommand::Nothing,
            },
            output::Action::Paste => match selected {
                Some(id) => OutputCommand::Paste(id),
                None => OutputCommand::Nothing,
            },
        }
    }
}

} // verus!
