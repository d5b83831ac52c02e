//! Output lifecycle for batches in the command-line front end.

use std::collections::VecDeque;

use vstd::prelude::*;

use crate::code::CodeId;
use crate::scheduler::{nested, AdvanceResult, AdvanceView};

verus! {

/// Records which blocks of the current batch execute, queues completed batches
/// for rendering in order, and tracks the height of the terminal dashboard.
pub struct BatchOutput {
    terminal: bool,
    scheduled: Vec<CodeId>,
    visible: Vec<CodeId>,
    pending: VecDeque<Vec<CodeId>>,
    previous_lines: u16,
}

/// The contents of a batch output.
pub struct BatchView {
    /// Output goes to a terminal.
    pub terminal: bool,
    /// The blocks of the current batch.
    pub scheduled: Seq<CodeId>,
    /// Those of them that execute, in the order they started.
    pub visible: Seq<CodeId>,
    /// Completed batches that are not rendered yet.
    pub pending: Seq<Seq<CodeId>>,
    /// Rows of the dashboard.
    pub previous_lines: u16,
}

impl BatchView {
    /// A batch has started.
    pub open spec fn selecting(self, batch: Seq<CodeId>) -> BatchView {
        BatchView { scheduled: batch, visible: Seq::empty(), ..self }
    }

    /// A block of the batch executes.
    pub open spec fn tracking(self, id: CodeId) -> BatchView {
        BatchView {
            visible: if self.scheduled.contains(id) && !self.visible.contains(id) {
                self.visible.push(id)
            } else {
                self.visible
            },
            ..self
        }
    }

    /// What executed is queued once the batch is over.
    pub open spec fn completed(self, result: AdvanceView) -> BatchView {
        if result is Pending || result is Untracked {
            self
        } else {
            BatchView {
                scheduled: Seq::empty(),
                visible: Seq::empty(),
                pending: if self.visible.len() == 0 {
                    self.pending
                } else {
                    self.pending.push(self.visible)
                },
                ..self
            }
        }
    }
}

impl View for BatchOutput {
    type V = BatchView;

    closed spec fn view(&self) -> BatchView {
        BatchView {
            terminal: self.terminal,
            scheduled: self.scheduled@,
            visible: self.visible@,
            pending: nested(self.pending@),
            previous_lines: self.previous_lines,
        }
    }
}

/// `i` is the first place of `id` in `ids`.
pub open spec fn is_first_place(ids: Seq<CodeId>, id: CodeId, i: int) -> bool {
    &&& 0 <= i < ids.len()
    &&& ids[i] == id
    &&& forall|j: int| 0 <= j < i ==> #[trigger] ids[j] != id
}

/// The first place of `id` in `ids`.
pub open spec fn first_place(ids: Seq<CodeId>, id: CodeId) -> int {
    choose|i: int| is_first_place(ids, id, i)
}

/// A number of the list has a first place in it.
pub proof fn lemma_has_first_place(ids: Seq<CodeId>, id: CodeId, n: int)
    requires
        0 <= n <= ids.len(),
        exists|k: int| 0 <= k < n && #[trigger] ids[k] == id,
    ensures
        is_first_place(ids, id, first_place(ids, id)),
    decreases n,
{
    if exists|k: int| 0 <= k < n - 1 && #[trigger] ids[k] == id {
        lemma_has_first_place(ids, id, n - 1);
    } else {
        assert(ids[n - 1] == id);
        assert(is_first_place(ids, id, n - 1));
    }
}

/// Whether `ids` holds `id`.
pub fn holds(ids: &Vec<CodeId>, id: CodeId) -> (found: bool)
    ensures
        found == ids@.contains(id),
{
    position(ids, id).is_some()
}

/// The first place of `id` in `ids`.
pub fn position(ids: &Vec<CodeId>, id: CodeId) -> (found: Option<usize>)
    ensures
        found is Some <==> ids@.contains(id),
        found matches Some(i) ==> i == first_place(ids@, id) && is_first_place(ids@, id, i as int),
{
    let mut i: usize = 0;
    while i < ids.len()
        invariant
            i <= ids.len(),
            forall|j: int| 0 <= j < i ==> #[trigger] ids@[j] != id,
        decreases ids.len() - i,
    {
        if ids[i] == id {
            proof {
                assert(is_first_place(ids@, id, i as int));
                let k = first_place(ids@, id);
                assert(is_first_place(ids@, id, k));
                if i < k {
                    assert(ids@[i as int] != id);
                }
            }
            return Some(i);
        }
        i += 1;
    }
    None
}

impl Default for BatchOutput {
    fn default() -> (output: BatchOutput)
        ensures
            output@.terminal,
            output@.scheduled.len() == 0,
            output@.visible.len() == 0,
            output@.pending.len() == 0,
            output@.previous_lines == 0,
    {
        BatchOutput::new()
    }
}

impl BatchOutput {
    /// An empty output for a terminal.
    pub fn new() -> (output: BatchOutput)
        ensures
            output@.terminal,
            output@.scheduled.len() == 0,
            output@.visible.len() == 0,
            output@.pending.len() == 0,
            output@.previous_lines == 0,
    {
        BatchOutput {
            terminal: true,
            scheduled: Vec::new(),
            visible: Vec::new(),
            pending: VecDeque::new(),
            previous_lines: 0,
        }
    }

    pub fn set_terminal(&mut self, terminal: bool)
        ensures
            final(self)@ == (BatchView { terminal, ..old(self)@ }),
    {
        self.terminal = terminal;
    }

    pub fn is_terminal(&self) -> (terminal: bool)
        ensures
            terminal == self@.terminal,
    {
        self.terminal
    }

    /// Starts a batch.
    pub fn select(&mut self, batch: &[CodeId])
        ensures
            final(self)@ == old(self)@.selecting(batch@),
    {
        self.scheduled.clear();
        self.scheduled.extend_from_slice(batch);
        self.visible.clear();
        assert(self.scheduled@ =~= batch@);
    }

    /// Records that a block of the batch executes.
    pub fn track(&mut self, id: CodeId)
        ensures
            final(self)@ == old(self)@.tracking(id),
    {
        if holds(&self.scheduled, id) && !holds(&self.visible, id) {
            self.visible.push(id);
        }
    }

    /// Queues what executed once the batch is over.
    pub fn complete(&mut self, result: &AdvanceResult)
        ensures
            final(self)@ == old(self)@.completed(result@),
    {
        match result {
            AdvanceResult::Pending | AdvanceResult::Untracked => {
                return ;
            },
            _ => {},
        }
        self.scheduled.clear();
        let ghost queued = nested(self.pending@);
        if !self.visible.is_empty() {
            let mut batch: Vec<CodeId> = Vec::new();
            batch.append(&mut self.visible);
            self.pending.push_back(batch);
            assert(batch@ =~= old(self).visible@);
            assert(nested(self.pending@) =~= queued.push(batch@));
        }
        assert(self.visible@ =~= Seq::empty());
        assert(self.scheduled@ =~= Seq::empty());
    }

    /// The blocks of the batch that execute.
    pub fn visible(&self) -> (visible: &[CodeId])
        ensures
            visible@ == self@.visible,
    {
        self.visible.as_slice()
    }

    /// The block after `selected` among those that execute, in a circle.
    pub fn focus_next(&self, selected: CodeId) -> (next: Option<CodeId>)
        ensures
            next == (if self@.visible.contains(selected) {
                Some(
                    self@.visible[(first_place(self@.visible, selected) + 1)
                        % self@.visible.len() as int],
                )
            } else {
                None
            }),
    {
        let index = match position(&self.visible, selected) {
            Some(index) => index,
            None => {
                return None;
            },
        };
        let count: usize = self.visible.len();
        let next: usize = if index + 1 == count {
            0
        } else {
            index + 1
        };
        proof {
            let n = self.visible@.len() as int;
            let k = index as int;
            assert(next == (k + 1) % n) by (nonlinear_arith)
                requires
                    0 <= k < n,
                    next == (if k + 1 == n { 0 } else { k + 1 }),
            ;
        }
        Some(self.visible[next])
    }

    /// Takes the completed batches.
    pub fn take_pending(&mut self) -> (batches: VecDeque<Vec<CodeId>>)
        ensures
            nested(batches@) == old(self)@.pending,
            final(self)@ == (BatchView { pending: Seq::empty(), ..old(self)@ }),
    {
        let mut batches: VecDeque<Vec<CodeId>> = VecDeque::new();
        batches.append(&mut self.pending);
        assert(batches@ =~= old(self).pending@);
        assert(nested(self.pending@) =~= Seq::empty());
        batches
    }

    pub fn previous_lines(&self) -> (lines: u16)
        ensures
            lines == self@.previous_lines,
    {
        self.previous_lines
    }

    pub fn set_previous_lines(&mut self, lines: u16)
        ensures
            final(self)@ == (BatchView { previous_lines: lines, ..old(self)@ }),
    {
        self.previous_lines = lines;
    }

    /// Forgets everything but where the output goes.
    pub fn reset(&mut self)
        ensures
            final(self)@ == (BatchView {
                terminal: old(self)@.terminal,
                scheduled: Seq::empty(),
                visible: Seq::empty(),
                pending: Seq::empty(),
                previous_lines: 0,
            }),
    {
        self.scheduled.clear();
        self.visible.clear();
        self.pending.clear();
        self.previous_lines = 0;
        assert(nested(self.pending@) =~= Seq::empty());
    }
}

} // verus!
