//! Per-block execution state with display state (scroll, dirty).

use vstd::prelude::*;

use crate::num::{less_by, smaller};

verus! {

/// Lifecycle status of a code block execution.
#[derive(Clone, Copy, Debug, PartialEq, Eq, Hash, Structural)]
pub enum TaskStatus {
    Idle,
    /// Process is alive (may be waiting for input or producing output).
    Running,
    /// Process exited with code 0.
    Success,
    /// Process exited with a non-zero code or failed to start.
    Error,
}

/// State of one code-block execution.
///
/// `started` tells whether a process was launched; the process itself and its
/// terminal screen belong to the caller.
pub struct Task {
    pub started: bool,
    pub done: bool,
    pub exit_code: Option<i32>,
    pub captured_envs: Option<crate::exec::Envs>,
    pub captured_cwd: Option<String>,
    /// Output-mode scroll position (lines from bottom of full scrollback).
    pub scroll: u16,
    /// Inline output scroll offset.
    pub inline_scroll: usize,
    /// Set when new output has arrived since last rebuild.
    pub dirty: bool,
}

impl Task {
    /// Nothing has run yet, or what ran was forgotten.
    pub open spec fn idle(&self) -> bool {
        &&& !self.started
        &&& !self.done
        &&& self.exit_code is None
        &&& self.captured_envs is None
        &&& self.captured_cwd is None
        &&& self.scroll == 0
        &&& self.inline_scroll == 0
        &&& self.dirty
    }

    pub fn new() -> (task: Task)
        ensures
            task.idle(),
    {
        Task {
            started: false,
            done: false,
            exit_code: None,
            captured_envs: None,
            captured_cwd: None,
            scroll: 0,
            inline_scroll: 0,
            dirty: true,
        }
    }

    pub fn running(&self) -> (running: bool)
        ensures
            running == (self.started && !self.done),
    {
        self.started && !self.done
    }

    pub fn done(&self) -> (done: bool)
        ensures
            done == self.done,
    {
        self.done
    }

    /// The lifecycle status that the flags stand for.
    pub open spec fn status_spec(&self) -> TaskStatus {
        if self.done {
            if self.exit_code == Some(0i32) {
                TaskStatus::Success
            } else {
                TaskStatus::Error
            }
        } else if self.started {
            TaskStatus::Running
        } else {
            TaskStatus::Idle
        }
    }

    pub fn status(&self) -> (status: TaskStatus)
        ensures
            status == self.status_spec(),
    {
        if !self.done && self.started {
            TaskStatus::Running
        } else if self.done {
            match self.exit_code {
                Some(code) => if code == 0 {
                    TaskStatus::Success
                } else {
                    TaskStatus::Error
                },
                None => TaskStatus::Error,
            }
        } else {
            TaskStatus::Idle
        }
    }

    /// Resets execution state.
    pub fn reset(&mut self)
        ensures
            final(self).idle(),
    {
        self.started = false;
        self.done = false;
        self.exit_code = None;
        self.captured_envs = None;
        self.captured_cwd = None;
        self.scroll = 0;
        self.inline_scroll = 0;
        self.dirty = true;
    }

    /// Everything but the inline scroll offset is as `before`.
    pub open spec fn same_but_inline_scroll(&self, before: &Task) -> bool {
        &&& self.started == before.started
        &&& self.done == before.done
        &&& self.exit_code == before.exit_code
        &&& self.captured_envs == before.captured_envs
        &&& self.captured_cwd == before.captured_cwd
        &&& self.scroll == before.scroll
        &&& self.dirty == before.dirty
    }

    /// The inline offset closest to `wanted` that keeps the window filled: the
    /// screen and the lines above it, less the window.
    pub open spec fn inline_clamp(
        wanted: int,
        inline_max_lines: usize,
        max_scrollback: usize,
        rows: usize,
    ) -> int {
        smaller(wanted, less_by(max_scrollback + rows, inline_max_lines as int))
    }

    /// Scrolls the inline output up by one line; returns how far the terminal
    /// screen has to be scrolled back.
    pub fn scroll_inline_up(
        &mut self,
        inline_max_lines: usize,
        max_scrollback: usize,
        rows: usize,
    ) -> (n: usize)
        requires
            max_scrollback + rows <= usize::MAX,
        ensures
            final(self).same_but_inline_scroll(old(self)),
            final(self).inline_scroll == Self::inline_clamp(
                smaller(old(self).inline_scroll + 1, usize::MAX as int),
                inline_max_lines,
                max_scrollback,
                rows,
            ),
            n == smaller(final(self).inline_scroll as int, max_scrollback as int),
    {
        self.inline_scroll = self.inline_scroll.saturating_add(1);
        self.sync_inline_scrollback(inline_max_lines, max_scrollback, rows)
    }

    /// Scrolls the inline output down by one line; returns how far the terminal
    /// screen has to be scrolled back.
    pub fn scroll_inline_down(
        &mut self,
        inline_max_lines: usize,
        max_scrollback: usize,
        rows: usize,
    ) -> (n: usize)
        requires
            max_scrollback + rows <= usize::MAX,
        ensures
            final(self).same_but_inline_scroll(old(self)),
            final(self).inline_scroll == Self::inline_clamp(
                less_by(old(self).inline_scroll as int, 1),
                inline_max_lines,
                max_scrollback,
                rows,
            ),
            n == smaller(final(self).inline_scroll as int, max_scrollback as int),
    {
        self.inline_scroll = self.inline_scroll.saturating_sub(1);
        self.sync_inline_scrollback(inline_max_lines, max_scrollback, rows)
    }

    /// Clamps the inline offset so that the window never starts above the first
    /// line of output, and returns how far the terminal screen, which holds
    /// `max_scrollback` lines above its `rows`, has to be scrolled back.
    pub fn sync_inline_scrollback(
        &mut self,
        inline_max_lines: usize,
        max_scrollback: usize,
        rows: usize,
    ) -> (n: usize)
        requires
            max_scrollback + rows <= usize::MAX,
        ensures
            final(self).same_but_inline_scroll(old(self)),
            final(self).inline_scroll == Self::inline_clamp(
                old(self).inline_scroll as int,
                inline_max_lines,
                max_scrollback,
                rows,
            ),
            n == smaller(final(self).inline_scroll as int, max_scrollback as int),
    {
        let total_lines: usize = max_scrollback + rows;
        let max_scroll: usize = total_lines.saturating_sub(inline_max_lines);
        self.inline_scroll = self.inline_scroll.min(max_scroll);
        self.inline_scroll.min(max_scrollback)
    }
}

impl Task {
    /// A task that is done succeeded exactly where it exited with zero; one that is not
    /// done runs exactly where it was started.
    pub proof fn law_the_exit_code_decides(&self)
        ensures
            self.status_spec() == TaskStatus::Success <==> self.done && self.exit_code == Some(
                0i32,
            ),
            self.status_spec() == TaskStatus::Error <==> self.done && self.exit_code != Some(0i32),
            self.status_spec() == TaskStatus::Running <==> self.started && !self.done,
            self.status_spec() == TaskStatus::Idle <==> !self.started && !self.done,
    {
    }
}

} // verus!
