//! Sizes of program screens, input to programs, and messages from them.

use vstd::prelude::*;

use super::flow::{App, Next, Screen};
use crate::code::CodeId;
use crate::config::PREVIEW_CODE_WRAP_OVERHEAD;
use crate::num::{fit_u16, less_by, smaller};
use crate::task::Task;
use crate::tui::content::Content;
use crate::tui::layout::Area;
use crate::tui::list_state::ListState;
use crate::tui::menu::Menu;
use crate::tui::preview::interact::Mouse;
use crate::tui::preview::layout_lines::RowTest;
use crate::tui::preview::pane::Preview;
use crate::tui::preview::rows::{extent_of, pty_rows};
use crate::tui::tasks::{statuses_of, TaskOutput, Tasks};

verus! {

/// What follows from a message of a block.
pub struct StreamStep {
    pub next: Next,
    /// The new size (columns, rows) of the block's program.
    pub resize: Option<(u16, u16)>,
}

impl App {
    /// The block that is selected in the menu.
    pub open spec fn selected(&self) -> Option<CodeId> {
        self.content.menu.selected_id()
    }

    /// The selected block runs.
    pub open spec fn selected_runs(&self) -> bool {
        self.selected() is Some && self.tasks.runs(self.selected()->0)
    }

    /// The screen, where keys go to a program only while it runs.
    pub open spec fn input_screen(&self) -> Screen {
        if self.screen == Screen::Output {
            Screen::Output
        } else if self.screen == Screen::Input && self.selected() is Some && self.tasks.at(
            self.selected()->0,
        ) is Some && !self.tasks.at(self.selected()->0)->0.task.done {
            Screen::Input
        } else {
            Screen::Home
        }
    }

    /// Keeps input to a program only while the selected block runs; never starts
    /// it.
    pub fn sync_input_mode(&mut self)
        ensures
            old(self).wf() ==> final(self).wf(),
            *final(self) == (App { screen: old(self).input_screen(), ..*old(self) }),
    {
        proof {
            reveal(App::wf);
        }
        let keeps = match self.content.selected_code_id() {
            Some(id) => self.tasks.contains(id) && !self.tasks.is_done(id) && self.screen
                == Screen::Input,
            None => false,
        };
        self.screen = match self.screen {
            Screen::Output => Screen::Output,
            _ => if keeps {
                Screen::Input
            } else {
                Screen::Home
            },
        };
    }

    /// How the blocks stand, in the menu.
    #[verifier::opaque]
    pub open spec fn with_statuses(&self, before: &App) -> bool {
        &&& self.content.menu.code_statuses@ == statuses_of(before.tasks.outputs@)
        &&& *self == (App {
            content: Content {
                menu: Menu {
                    code_statuses: self.content.menu.code_statuses,
                    ..before.content.menu
                },
                preview: before.content.preview,
            },
            ..*before
        })
    }

    /// Shows in the menu how the blocks stand.
    pub fn sync_task_statuses(&mut self)
        requires
            old(self).wf(),
        ensures
            final(self).wf(),
            final(self).with_statuses(old(self)),
            final(self).flow() == old(self).flow(),
    {
        proof {
            reveal(App::wf);
        }
        let statuses = self.tasks.task_statuses();
        self.content.set_code_statuses(statuses);
        assert(self.with_statuses(old(self))) by {
            reveal(App::with_statuses);
        }
    }

    /// The size (columns, rows) of a block's program.
    pub open spec fn pty_size(&self, id: CodeId) -> (int, int) {
        Area::pty_size_for(
            self.layout.preview,
            smaller(
                self.content.preview.overhead(id),
                u16::MAX - PREVIEW_CODE_WRAP_OVERHEAD,
            ) as u16,
        )
    }

    /// The size (columns, rows) of a block's program.
    pub fn pty_size_for_code(&self, id: CodeId) -> (size: (u16, u16))
        ensures
            (size.0 as int, size.1 as int) == self.pty_size(id),
    {
        let room: usize = (u16::MAX as usize) - PREVIEW_CODE_WRAP_OVERHEAD;
        let overhead: u16 = self.content.code_prefix_overhead(id).min(room) as u16;
        self.layout.pty_size(overhead)
    }

    /// How a full-screen program is fitted below its code block: the rows it gets,
    /// and the first row that the preview shows.
    pub open spec fn inline_fit(&self, id: CodeId) -> Option<(int, int)> {
        let preview = self.content.preview;
        match extent_of(preview.rows(), preview.logical_lines@, RowTest::CodeSource(id)) {
            Some((start, end)) => Some(
                pty_rows(
                    less_by(
                        self.layout.preview.height as int,
                        crate::config::BORDER_HEIGHT as int,
                    ),
                    end as int,
                    end - start + 1,
                    preview.state.offset as int,
                ),
            ),
            None => None,
        }
    }

    /// A full-screen program has taken the screen of a block.
    pub open spec fn alternate(&self, id: CodeId) -> bool {
        self.tasks.at(id) is Some && self.tasks.at(id)->0.alternate
    }

    /// The size of a block's program: for a full-screen program the rows that are
    /// left below the block, else that of the preview.
    pub open spec fn inline_size(&self, id: CodeId) -> (int, int) {
        let base = self.pty_size(id);
        if self.alternate(id) && self.inline_fit(id) is Some {
            (base.0, fit_u16((self.inline_fit(id)->0).0))
        } else {
            base
        }
    }

    /// The state after a full-screen program was fitted: the preview may have been
    /// scrolled.
    pub open spec fn fitted(&self, before: &App, id: CodeId) -> bool {
        let offset = if before.alternate(id) && before.inline_fit(id) is Some {
            (before.inline_fit(id)->0).1 as usize
        } else {
            before.content.preview.state.offset
        };
        *self == (App {
            content: Content {
                menu: before.content.menu,
                preview: Preview {
                    state: ListState { offset, ..before.content.preview.state },
                    ..before.content.preview
                },
            },
            ..*before
        })
    }

    /// The size of a block's program. The preview is scrolled where a full-screen
    /// program needs more room.
    pub fn inline_pty_size_for_code(&mut self, id: CodeId) -> (size: (u16, u16))
        requires
            old(self).wf(),
        ensures
            final(self).wf(),
            final(self).fitted(old(self), id),
            (size.0 as int, size.1 as int) == old(self).inline_size(id),
    {
        proof {
            reveal(App::wf);
        }
        let base = self.pty_size_for_code(id);
        let alternate = match self.tasks.get(id) {
            Some(output) => output.alternate,
            None => false,
        };
        if !alternate {
            return base;
        }
        let viewport = self.layout.preview_viewport_rows();
        match self.content.preview.fit_inline_pty_rows(id, viewport) {
            Some(rows) => (base.0, crate::num::to_u16(rows)),
            None => base,
        }
    }

    /// Fits the program of the selected block into the preview; returns the block
    /// and the size, where the program has to be resized.
    pub fn resize_tasks_for_preview(&mut self) -> (resize: Option<(CodeId, u16, u16)>)
        requires
            old(self).wf(),
        ensures
            final(self).wf(),
            match old(self).selected() {
                Some(id) => {
                    let (cols, rows) = old(self).inline_size(id);
                    &&& (App { tasks: old(self).tasks, ..*final(self) }).fitted(old(self), id)
                    &&& final(self).tasks.resized(&old(self).tasks, id, cols as u16, rows as u16)
                    &&& resize == (if old(self).tasks.at(id) is Some && (old(self).tasks.at(
                        id,
                    )->0.rows != rows || old(self).tasks.at(id)->0.cols != cols) {
                        Some((id, cols as u16, rows as u16))
                    } else {
                        None
                    })
                },
                None => resize is None && *final(self) == *old(self),
            },
    {
        proof {
            reveal(App::wf);
        }
        match self.content.selected_code_id() {
            Some(id) => {
                let (cols, rows) = self.inline_pty_size_for_code(id);
                if self.tasks.resize_task(id, cols, rows) {
                    Some((id, cols, rows))
                } else {
                    None
                }
            },
            None => None,
        }
    }

    /// A click on another block ends input to a program, unless that block runs.
    pub fn keep_input_for_running_click_target(&mut self, previous: Option<CodeId>, id: CodeId)
        ensures
            old(self).wf() ==> final(self).wf(),
            *final(self) == (App {
                screen: if old(self).screen == Screen::Input && previous != Some(id)
                    && !old(self).tasks.runs(id) {
                    Screen::Home
                } else {
                    old(self).screen
                },
                ..*old(self)
            }),
    {
        proof {
            reveal(App::wf);
        }
        if self.screen == Screen::Input && previous != Some(id) && !self.tasks.accepts_input(id) {
            self.screen = Screen::Home;
        }
    }

    /// A click on a running block starts input to it again.
    pub fn enter_input_for_running_click_target(&mut self, id: CodeId)
        ensures
            old(self).wf() ==> final(self).wf(),
            *final(self) == (if old(self).screen == Screen::Home && old(self).auto_input_paused
                && old(self).tasks.runs(id) {
                App { screen: Screen::Input, auto_input_paused: false, ..*old(self) }
            } else {
                *old(self)
            }),
    {
        proof {
            reveal(App::wf);
        }
        if self.screen == Screen::Home && self.auto_input_paused && self.tasks.accepts_input(id) {
            self.auto_input_paused = false;
            self.screen = Screen::Input;
        }
    }

    /// Where a mouse event goes to the selected block's program: only to one that
    /// runs, asks for the mouse, and is clicked.
    pub fn mouse_target(&self, mouse: Mouse) -> (target: Option<(CodeId, u16, u16)>)
        requires
            self.wf(),
        ensures
            target == ({
                match self.selected() {
                    Some(id) => match self.tasks.at(id) {
                        Some(output) => {
                            let at = self.content.preview.pty_coords(
                                id,
                                mouse,
                                output.cols,
                                output.rows,
                            );
                            if !output.task.done && output.sgr_mouse && at is Some {
                                Some((id, (at->0).0 as u16, (at->0).1 as u16))
                            } else {
                                None
                            }
                        },
                        None => None,
                    },
                    None => None,
                }
            }),
    {
        proof {
            reveal(App::wf);
        }
        let id = match self.content.selected_code_id() {
            Some(id) => id,
            None => {
                return None;
            },
        };
        let output = match self.tasks.get(id) {
            Some(output) => output,
            None => {
                return None;
            },
        };
        if output.task.done || !output.sgr_mouse {
            return None;
        }
        match self.content.mouse_to_pty_coords(id, mouse, output.cols, output.rows) {
            Some((col, row)) => Some((id, col, row)),
            None => None,
        }
    }

    /// A block was asked to run: its task starts over. One that could not be
    /// started shows that in its gutter.
    pub open spec fn began(&self, before: &App, id: CodeId, started: bool) -> bool {
        let (cols, rows) = before.pty_size(id);
        &&& self.tasks.outputs@ == before.tasks.outputs@.insert(id, self.tasks.outputs@[id])
        &&& crate::tui::tasks::is_blank_screen(self.tasks.outputs@[id], cols as u16, rows as u16)
        &&& self.tasks.outputs@[id].task == (Task {
            started,
            done: !started,
            exit_code: None,
            captured_envs: None,
            captured_cwd: None,
            scroll: 0,
            inline_scroll: 0,
            dirty: true,
        })
        &&& *self == (App {
            tasks: self.tasks,
            content: if started {
                before.content
            } else {
                Content {
                    menu: before.content.menu,
                    preview: Preview {
                        prefer_status_gutter: Some(id),
                        ..before.content.preview
                    },
                }
            },
            ..*before
        })
    }

    /// Notes that the caller tried to start a block.
    pub fn block_began(&mut self, id: CodeId, started: bool)
        requires
            old(self).wf(),
        ensures
            final(self).wf(),
            final(self).began(old(self), id, started),
    {
        proof {
            reveal(App::wf);
        }
        let (cols, rows) = self.pty_size_for_code(id);
        self.tasks.run(id, cols, rows, started);
        if !started {
            self.content.prefer_status_gutter_for(id);
        }
    }
}

impl Tasks {
    /// A task's screen has a new size.
    pub open spec fn resized(&self, before: &Tasks, id: CodeId, cols: u16, rows: u16) -> bool {
        self.outputs@ == (match before.at(id) {
            Some(output) => if output.rows != rows || output.cols != cols {
                before.outputs@.insert(id, TaskOutput { rows, cols, ..output })
            } else {
                before.outputs@
            },
            None => before.outputs@,
        })
    }
}

} // verus!
