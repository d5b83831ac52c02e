//! Tasks of the terminal interface.

use std::collections::HashMap;

use vstd::prelude::*;

use crate::code::CodeId;
use crate::exec::{captures_wf, forces_rebuild, handle_stream, stream_applied, Stream};
use crate::style::Line;
use crate::task::{Task, TaskStatus};

verus! {

broadcast use vstd::std_specs::hash::group_hash_axioms;

/// A task with what its terminal screen shows.
pub struct TaskOutput {
    pub task: Task,
    /// The lines of the screen; with a cursor while the task is not done.
    pub lines: Vec<Line>,
    /// Whether a full-screen program has taken the screen.
    pub alternate: bool,
    /// The height of the screen.
    pub rows: u16,
    /// The width of the screen.
    pub cols: u16,
    /// How many lines the screen is scrolled back.
    pub scrollback: usize,
    /// How many lines the screen can be scrolled back.
    pub max_scrollback: u16,
    /// Whether the program hides the cursor.
    pub cursor_hidden: bool,
    /// Whether the program asks for the mouse.
    pub sgr_mouse: bool,
}

/// The tasks of a document's code blocks.
pub struct Tasks {
    pub outputs: HashMap<CodeId, TaskOutput>,
    /// The blocks with tasks.
    pub ids: Vec<CodeId>,
}

/// The status of each task.
pub open spec fn statuses_of(outputs: Map<CodeId, TaskOutput>) -> Map<CodeId, TaskStatus> {
    outputs.map_values(|output: TaskOutput| output.task.status_spec())
}

/// A screen that shows nothing yet.
pub open spec fn is_blank_screen(output: TaskOutput, cols: u16, rows: u16) -> bool {
    &&& output.lines@.len() == 0
    &&& !output.alternate
    &&& output.rows == rows
    &&& output.cols == cols
    &&& output.scrollback == 0
    &&& output.max_scrollback == 0
    &&& !output.cursor_hidden
    &&& !output.sgr_mouse
}

impl Tasks {
    /// Each task is listed once, and its captured variables are in order.
    pub open spec fn wf(&self) -> bool {
        &&& self.ids@.no_duplicates()
        &&& forall|id: CodeId| self.ids@.contains(id) <==> #[trigger] self.outputs@.contains_key(id)
        &&& forall|id: CodeId| #[trigger]
            self.outputs@.contains_key(id) ==> captures_wf(self.outputs@[id].task)
    }

    /// The task of a block.
    pub open spec fn at(&self, id: CodeId) -> Option<TaskOutput> {
        if self.outputs@.contains_key(id) {
            Some(self.outputs@[id])
        } else {
            None
        }
    }

    /// A block runs and takes input.
    pub open spec fn runs(&self, id: CodeId) -> bool {
        self.at(id) is Some && self.at(id)->0.task.started && !self.at(id)->0.task.done
    }

    /// No tasks yet.
    pub fn new() -> (tasks: Tasks)
        ensures
            tasks.wf(),
            tasks.outputs@ == Map::<CodeId, TaskOutput>::empty(),
            tasks.ids@.len() == 0,
    {
        Tasks { outputs: HashMap::new(), ids: Vec::new() }
    }

    /// Puts a task in its place.
    fn put(&mut self, id: CodeId, output: TaskOutput)
        requires
            old(self).wf(),
            captures_wf(output.task),
        ensures
            final(self).wf(),
            final(self).outputs@ == old(self).outputs@.insert(id, output),
    {
        let known = self.outputs.contains_key(&id);
        self.outputs.insert(id, output);
        if !known {
            let ghost before = self.ids@;
            self.ids.push(id);
            proof {
                crate::seqs::lemma_push_contains(before, id);
                assert(!before.contains(id));
                assert forall|i: int, j: int|
                    0 <= i < self.ids@.len() && 0 <= j < self.ids@.len() && i
                        != j implies self.ids@[i] != self.ids@[j] by {
                    if i < before.len() && j < before.len() {
                        assert(before[i] != before[j]);
                    } else if i < before.len() {
                        assert(before.contains(before[i]));
                    } else {
                        assert(before.contains(before[j]));
                    }
                }
            }
        }
    }

    /// A block was asked to run anew: its task starts over, on a blank screen. One
    /// that could not be started is done.
    pub fn run(&mut self, id: CodeId, cols: u16, rows: u16, started: bool)
        requires
            old(self).wf(),
        ensures
            final(self).wf(),
            final(self).outputs@ == old(self).outputs@.insert(id, final(self).outputs@[id]),
            is_blank_screen(final(self).outputs@[id], cols, rows),
            final(self).outputs@[id].task == (Task {
                started,
                done: !started,
                exit_code: None,
                captured_envs: None,
                captured_cwd: None,
                scroll: 0,
                inline_scroll: 0,
                dirty: true,
            }),
    {
        let mut task = Task::new();
        task.reset();
        task.started = started;
        task.done = !started;
        self.put(
            id,
            TaskOutput {
                task,
                lines: Vec::new(),
                alternate: false,
                rows,
                cols,
                scrollback: 0,
                max_scrollback: 0,
                cursor_hidden: false,
                sgr_mouse: false,
            },
        );
    }

    /// Takes over what a task's screen shows.
    pub fn show(&mut self, id: CodeId, screen: TaskOutput)
        requires
            old(self).wf(),
        ensures
            final(self).wf(),
            final(self).outputs@ == (match old(self).at(id) {
                Some(output) => old(self).outputs@.insert(
                    id,
                    TaskOutput { task: output.task, ..screen },
                ),
                None => old(self).outputs@,
            }),
    {
        match self.outputs.remove(&id) {
            Some(output) => {
                let shown = TaskOutput {
                    task: output.task,
                    lines: screen.lines,
                    alternate: screen.alternate,
                    rows: screen.rows,
                    cols: screen.cols,
                    scrollback: screen.scrollback,
                    max_scrollback: screen.max_scrollback,
                    cursor_hidden: screen.cursor_hidden,
                    sgr_mouse: screen.sgr_mouse,
                };
                self.outputs.insert(id, shown);
                assert(self.outputs@ =~= old(self).outputs@.insert(id, shown));
            },
            None => {
                assert(self.outputs@ =~= old(self).outputs@);
            },
        }
    }

    /// A message of a running task came in.
    pub open spec fn streamed(&self, before: &Tasks, id: CodeId, stream: Stream) -> bool {
        match before.at(id) {
            Some(output) => {
                let after = self.outputs@[id];
                &&& self.outputs@ == before.outputs@.insert(id, after)
                &&& after == (TaskOutput { task: after.task, ..output })
                &&& exists|task: Task| #[trigger]
                    stream_applied(output.task, stream, task) && after.task == (if stream is Out {
                        Task { dirty: true, ..task }
                    } else {
                        task
                    })
            },
            None => self.outputs@ == before.outputs@,
        }
    }

    /// Takes a message of a running task; tells whether the preview has to be
    /// rebuilt.
    pub fn handle_stream(&mut self, id: CodeId, stream: &Stream) -> (rebuild: bool)
        requires
            old(self).wf(),
            stream matches Stream::Env(envs) ==> envs.wf(),
        ensures
            final(self).wf(),
            final(self).streamed(old(self), id, *stream),
            rebuild == (old(self).at(id) is Some && forces_rebuild(
                old(self).at(id)->0.task,
                *stream,
            )),
    {
        match self.outputs.remove(&id) {
            Some(mut output) => {
                let ghost before = output;
                let rebuild = handle_stream(&mut output.task, stream);
                let ghost applied = output.task;
                if let Stream::Out(_) = stream {
                    output.task.dirty = true;
                }
                let ghost after = output;
                self.outputs.insert(id, output);
                proof {
                    assert(self.outputs@ =~= old(self).outputs@.insert(id, after));
                    assert(stream_applied(before.task, *stream, applied));
                }
                rebuild
            },
            None => {
                assert(self.outputs@ =~= old(self).outputs@);
                false
            },
        }
    }

    /// Whether a block runs and takes input.
    pub fn accepts_input(&self, id: CodeId) -> (yes: bool)
        ensures
            yes == self.runs(id),
    {
        match self.outputs.get(&id) {
            Some(output) => output.task.running(),
            None => false,
        }
    }

    /// The end of a running task's output shows again.
    pub open spec fn at_the_end(&self, before: &Tasks, id: CodeId, scrolled: bool) -> bool {
        &&& scrolled == before.runs(id)
        &&& self.outputs@ == (if before.runs(id) {
            let output = before.outputs@[id];
            before.outputs@.insert(
                id,
                TaskOutput { task: Task { scroll: 0, ..output.task }, ..output },
            )
        } else {
            before.outputs@
        })
    }

    /// Shows the end of a running task's output again; tells whether its screen has
    /// to be scrolled there.
    pub fn reset_scroll(&mut self, id: CodeId) -> (scrolled: bool)
        requires
            old(self).wf(),
        ensures
            final(self).wf(),
            final(self).at_the_end(old(self), id, scrolled),
    {
        if !self.accepts_input(id) {
            return false;
        }
        if let Some(mut output) = self.outputs.remove(&id) {
            output.task.scroll = 0;
            let ghost after = output;
            self.outputs.insert(id, output);
            assert(self.outputs@ =~= old(self).outputs@.insert(id, after));
        }
        true
    }

    /// Takes a new size of a task's screen; tells whether the screen and the program
    /// have to be resized.
    pub fn resize_task(&mut self, id: CodeId, cols: u16, rows: u16) -> (changed: bool)
        requires
            old(self).wf(),
        ensures
            final(self).wf(),
            final(self).ids == old(self).ids,
            changed == (old(self).at(id) is Some && (old(self).at(id)->0.rows != rows || old(
                self,
            ).at(id)->0.cols != cols)),
            final(self).outputs@ == (if changed {
                let output = old(self).outputs@[id];
                old(self).outputs@.insert(
                    id,
                    TaskOutput { rows, cols, ..output },
                )
            } else {
                old(self).outputs@
            }),
    {
        match self.outputs.remove(&id) {
            Some(mut output) => {
                let changed = output.rows != rows || output.cols != cols;
                if changed {
                    output.rows = rows;
                    output.cols = cols;
                }
                let ghost after = output;
                self.outputs.insert(id, output);
                assert(self.outputs@ =~= old(self).outputs@.insert(id, after));
                if !changed {
                    assert(self.outputs@ =~= old(self).outputs@);
                }
                changed
            },
            None => {
                assert(self.outputs@ =~= old(self).outputs@);
                false
            },
        }
    }

    /// All tasks.
    pub fn buffers(&self) -> (outputs: &HashMap<CodeId, TaskOutput>)
        ensures
            *outputs == self.outputs,
    {
        &self.outputs
    }

    /// The task of a block.
    pub fn get(&self, id: CodeId) -> (output: Option<&TaskOutput>)
        ensures
            output is Some <==> self.at(id) is Some,
            output matches Some(o) ==> self.at(id) == Some(*o),
    {
        self.outputs.get(&id)
    }

    /// Whether a block has a task.
    pub fn contains(&self, id: CodeId) -> (yes: bool)
        ensures
            yes == (self.at(id) is Some),
    {
        self.outputs.contains_key(&id)
    }

    /// Whether the task of a block is done.
    pub fn is_done(&self, id: CodeId) -> (done: bool)
        ensures
            done == (self.at(id) is Some && self.at(id)->0.task.done),
    {
        match self.outputs.get(&id) {
            Some(output) => output.task.done,
            None => false,
        }
    }

    /// A started task that shows its cursor.
    pub open spec fn waits(&self, id: CodeId) -> bool {
        self.at(id) is Some && self.at(id)->0.task.started && !self.at(id)->0.cursor_hidden
    }

    /// Whether a task waits for input, which it shows by its cursor.
    pub fn is_waiting_for_input(&self, id: CodeId) -> (yes: bool)
        ensures
            yes == self.waits(id),
    {
        match self.outputs.get(&id) {
            Some(output) => output.task.started && !output.cursor_hidden,
            None => false,
        }
    }

    /// The status of each task.
    pub fn task_statuses(&self) -> (statuses: HashMap<CodeId, TaskStatus>)
        requires
            self.wf(),
        ensures
            statuses@ == statuses_of(self.outputs@),
    {
        let mut statuses: HashMap<CodeId, TaskStatus> = HashMap::new();
        let mut i: usize = 0;
        while i < self.ids.len()
            invariant
                i <= self.ids@.len(),
                self.wf(),
                forall|id: CodeId| #[trigger]
                    statuses@.contains_key(id) <==> self.ids@.take(i as int).contains(id),
                forall|id: CodeId| #[trigger]
                    statuses@.contains_key(id) ==> statuses@[id]
                        == self.outputs@[id].task.status_spec(),
            decreases self.ids@.len() - i,
        {
            let id = self.ids[i];
            proof {
                crate::seqs::lemma_take_contains(self.ids@, i as int);
                assert(self.ids@.contains(id));
                assert(self.outputs@.contains_key(id));
            }
            if let Some(output) = self.outputs.get(&id) {
                statuses.insert(id, output.task.status());
            }
            i += 1;
        }
        proof {
            assert(self.ids@.take(i as int) =~= self.ids@);
            assert(statuses@ =~= statuses_of(self.outputs@));
        }
        statuses
    }

    /// Some task has output that is not shown yet.
    pub open spec fn dirty(&self) -> bool {
        exists|id: CodeId| #[trigger] self.outputs@.contains_key(id) && self.outputs@[id].task.dirty
    }

    /// Whether some task has output that is not shown yet.
    pub fn is_dirty(&self) -> (dirty: bool)
        requires
            self.wf(),
        ensures
            dirty == self.dirty(),
    {
        let mut i: usize = 0;
        while i < self.ids.len()
            invariant
                i <= self.ids@.len(),
                self.wf(),
                forall|k: int|
                    0 <= k < i ==> !self.outputs@[#[trigger] self.ids@[k]].task.dirty,
            decreases self.ids@.len() - i,
        {
            let id = self.ids[i];
            proof {
                assert(self.ids@.contains(id));
                assert(self.outputs@.contains_key(id));
            }
            if let Some(output) = self.outputs.get(&id) {
                if output.task.dirty {
                    return true;
                }
            }
            i += 1;
        }
        proof {
            if self.dirty() {
                let id = choose|id: CodeId| #[trigger]
                    self.outputs@.contains_key(id) && self.outputs@[id].task.dirty;
                let k = choose|k: int| 0 <= k < self.ids@.len() && self.ids@[k] == id;
                assert(!self.outputs@[self.ids@[k]].task.dirty);
            }
        }
        false
    }

    /// All output is shown now.
    pub fn clear_dirty(&mut self)
        requires
            old(self).wf(),
        ensures
            final(self).wf(),
            final(self).outputs@ == old(self).outputs@.map_values(
                |output: TaskOutput|
                    TaskOutput { task: Task { dirty: false, ..output.task }, ..output },
            ),
    {
        let n: usize = self.ids.len();
        let mut i: usize = 0;
        while i < n
            invariant
                i <= n,
                n == self.ids@.len(),
                self.ids == old(self).ids,
                old(self).wf(),
                self.wf(),
                self.outputs@.dom() == old(self).outputs@.dom(),
                forall|k: int|
                    0 <= k < n ==> self.outputs@[#[trigger] self.ids@[k]] == (if k < i {
                        TaskOutput {
                            task: Task {
                                dirty: false,
                                ..old(self).outputs@[self.ids@[k]].task
                            },
                            ..old(self).outputs@[self.ids@[k]]
                        }
                    } else {
                        old(self).outputs@[self.ids@[k]]
                    }),
            decreases n - i,
        {
            let id = self.ids[i];
            proof {
                assert(self.ids@.contains(id));
                assert(self.outputs@.contains_key(id));
            }
            let ghost before = self.outputs@;
            if let Some(mut output) = self.outputs.remove(&id) {
                output.task.dirty = false;
                let ghost after = output;
                self.outputs.insert(id, output);
                assert(self.outputs@ =~= before.insert(id, after));
            }
            assert(self.outputs@.dom() =~= old(self).outputs@.dom());
            i += 1;
        }
        let ghost goal = old(self).outputs@.map_values(
            |output: TaskOutput|
                TaskOutput { task: Task { dirty: false, ..output.task }, ..output },
        );
        assert forall|id: CodeId| #[trigger] goal.contains_key(id) implies self.outputs@[id]
            == goal[id] by {
            assert(old(self).ids@.contains(id));
            let k = choose|k: int| 0 <= k < self.ids@.len() && self.ids@[k] == id;
            assert(self.outputs@[self.ids@[k]] == goal[id]);
        }
        assert(self.outputs@ =~= goal);
    }

    /// Forgets all tasks.
    pub fn clear(&mut self)
        ensures
            final(self).wf(),
            final(self).outputs@ == Map::<CodeId, TaskOutput>::empty(),
            final(self).ids@.len() == 0,
    {
        self.outputs.clear();
        self.ids.clear();
    }
}

impl Tasks {
    /// Input to a running task scrolls its output to the end; other tasks, and those that
    /// do not run, stay where they are.
    pub proof fn law_input_shows_the_end(
        before: Tasks,
        after: Tasks,
        id: CodeId,
        scrolled: bool,
        other: CodeId,
    )
        requires
            after.at_the_end(&before, id, scrolled),
        ensures
            scrolled <==> before.outputs@.contains_key(id) && before.outputs@[id].task.started
                && !before.outputs@[id].task.done,
            scrolled ==> after.outputs@.contains_key(id) && after.outputs@[id].task.scroll == 0
                && after.outputs@[id].lines == before.outputs@[id].lines,
            !scrolled ==> after.outputs@ == before.outputs@,
            other != id ==> after.at(other) == before.at(other),
    {
    }

    /// A task that waits for input was started and shows its cursor; a task that runs is
    /// not done.
    pub proof fn law_only_visible_cursors_wait(&self, id: CodeId)
        ensures
            self.waits(id) ==> self.outputs@.contains_key(id) && self.outputs@[id].task.started
                && !self.outputs@[id].cursor_hidden,
            self.runs(id) && !self.outputs@[id].cursor_hidden ==> self.waits(id),
            self.runs(id) ==> !self.outputs@[id].task.done,
            self.outputs@.contains_key(id) && self.outputs@[id].task.dirty ==> self.dirty(),
    {
    }
}

} // verus!
