//! Block execution and navigation of the command-line front end.
//!
//! Processes are started, read and drawn by the caller; this state decides what
//! starts next and keeps what the blocks left behind.

use std::collections::HashMap;

use vstd::prelude::*;
use vstd::utf8::encode_utf8;

use super::output::{first_place, holds, BatchOutput, BatchView};
use super::line_counter::{count_text, counted_text};
use super::render::{
    card_text, clear_sequence, clear_text, excerpt, excerpt_text, picker_lines, picker_text, plain_transcript, render_card,
    render_picker, render_plain_transcript, render_terminal_transcript, terminal_transcript,
    BlockOutput,
};
use crate::captures::{
    captured_list, captured_of, captured_set, captured_wf, captured_with, captured_without,
    forget_captured, keep_captured, merged_cwd, merged_envs, Captured, CapturedView,
};
use crate::code::{find_block, valid_codes, Code, CodeId};
use crate::exec::{
    captures_wf, handle_stream, merge_envs, stream_applied, Envs, Stream,
};
use crate::navigation::Navigation;
use crate::config::{CLI_PTY_COL_OVERHEAD, CLI_PTY_MIN_COLS, CLI_PTY_MIN_ROWS, CLI_PTY_ROW_OVERHEAD};
use crate::num::{fit_u16, larger, less_by, smaller};
use crate::picker::{PickerAction, PickerState};
use crate::scheduler::{
    joined, nested, AdvanceResult, AdvanceView, Scheduler, SchedulerView,
};
use crate::style::{lines_view, Span, Style};
use crate::text::{decimal, decimal_text};
use crate::theme::Theme;
use crate::theme_library::Painter;

verus! {

broadcast use vstd::std_specs::hash::group_hash_axioms;

/// What changes while blocks run.
pub struct Flow {
    pub workflow: Option<SchedulerView>,
    pub output: BatchView,
    pub envs: Map<Seq<char>, Seq<char>>,
    pub cwd: Seq<char>,
    pub pending: Seq<(CodeId, CapturedView)>,
    pub selected: int,
    pub failed: bool,
}

/// What the caller has to do next.
pub enum Next {
    Nothing,
    /// Start the blocks of a batch.
    Launch(Vec<CodeId>),
    /// Start one block of the running batch.
    Start(CodeId),
    Quit,
}

/// What the caller has to do next.
pub enum NextView {
    Nothing,
    Launch(Seq<CodeId>),
    Start(CodeId),
    Quit,
}

impl View for Next {
    type V = NextView;

    open spec fn view(&self) -> NextView {
        match *self {
            Next::Nothing => NextView::Nothing,
            Next::Launch(ids) => NextView::Launch(ids@),
            Next::Start(id) => NextView::Start(id),
            Next::Quit => NextView::Quit,
        }
    }
}

/// What the caller has to do next, and what it reports to the user.
pub struct Step {
    pub next: Next,
    pub message: Option<String>,
}

/// What the caller has to do next, and what it reports to the user.
pub struct StepView {
    pub next: NextView,
    pub message: Option<Seq<char>>,
}

impl View for Step {
    type V = StepView;

    open spec fn view(&self) -> StepView {
        StepView {
            next: self.next@,
            message: match self.message {
                Some(message) => Some(message@),
                None => None,
            },
        }
    }
}

/// There is nothing to report.
pub open spec fn quietly(next: NextView) -> StepView {
    StepView { next, message: None }
}

/// The first block of the document with a number.
pub open spec fn place_of(codes: Seq<Code>, id: CodeId, i: int) -> bool {
    &&& 0 <= i < codes.len()
    &&& codes[i].id == id
    &&& forall|j: int| 0 <= j < i ==> (#[trigger] codes[j]).id != id
}

/// The place of a block, or `otherwise` where the document lacks it.
pub open spec fn place_or(codes: Seq<Code>, id: CodeId, otherwise: int) -> int {
    if exists|i: int| place_of(codes, id, i) {
        choose|i: int| place_of(codes, id, i)
    } else {
        otherwise
    }
}

/// The report about a plan that a failure stops.
pub open spec fn stopped_text(block: CodeId) -> Seq<char> {
    "Block "@ + decimal_text(block as nat) + " failed - stopping dependency chain"@
}

impl Flow {
    /// A block has ended.
    pub open spec fn advanced(self, id: CodeId, exit_code: Option<i32>) -> (
        Flow,
        Option<AdvanceView>,
    ) {
        match self.workflow {
            None => (self, None),
            Some(workflow) => {
                let (after, result) = workflow.advance(id, exit_code);
                (
                    Flow {
                        workflow: Some(after),
                        output: self.output.completed(result),
                        ..self
                    },
                    Some(result),
                )
            },
        }
    }

    /// What blocks left behind is taken over.
    pub open spec fn flushed(self) -> Flow {
        Flow {
            envs: merged_envs(self.envs, self.pending),
            cwd: merged_cwd(self.cwd, self.pending),
            pending: Seq::empty(),
            ..self
        }
    }

    /// A batch has started: its first block is selected.
    pub open spec fn batch_selected(self, codes: Seq<Code>, batch: Seq<CodeId>) -> Flow {
        Flow {
            output: self.output.selecting(batch),
            selected: if batch.len() > 0 {
                place_or(codes, batch[0], self.selected)
            } else {
                self.selected
            },
            ..self
        }
    }

    /// What follows from the end of a block.
    pub open spec fn handled(self, codes: Seq<Code>, yes: bool, result: AdvanceView) -> (
        Flow,
        StepView,
    ) {
        let quit = if yes {
            NextView::Quit
        } else {
            NextView::Nothing
        };
        match result {
            AdvanceView::NextBatch(batch) => (
                self.flushed().batch_selected(codes, batch),
                quietly(
                    if self.workflow is Some && self.workflow->0.auto_run {
                        NextView::Launch(batch)
                    } else {
                        NextView::Nothing
                    },
                ),
            ),
            AdvanceView::Pending | AdvanceView::Untracked => (self, quietly(NextView::Nothing)),
            AdvanceView::Stopped(failure) => (
                Flow { workflow: None, failed: self.failed || yes, ..self.flushed() },
                StepView { next: quit, message: Some(stopped_text(failure.block)) },
            ),
            AdvanceView::Finished(failed) => (
                Flow {
                    workflow: None,
                    failed: if yes {
                        failed
                    } else {
                        self.failed
                    },
                    ..self.flushed()
                },
                quietly(quit),
            ),
        }
    }

    /// A plan begins: its first batch is selected, and runs where the plan runs
    /// by itself. A plan without work ends at once.
    pub open spec fn begun(self, codes: Seq<Code>, workflow: SchedulerView) -> (Flow, StepView) {
        let (started, batch) = workflow.start();
        match batch {
            None => (
                self,
                quietly(
                    if workflow.auto_run {
                        NextView::Quit
                    } else {
                        NextView::Nothing
                    },
                ),
            ),
            Some(ids) => (
                Flow { workflow: Some(started), ..self }.batch_selected(codes, ids),
                quietly(
                    if workflow.auto_run {
                        NextView::Launch(ids)
                    } else {
                        NextView::Nothing
                    },
                ),
            ),
        }
    }

    /// There is no plan: the reason is reported.
    pub open spec fn plan_failed(self, yes: bool, error: Seq<char>) -> (Flow, StepView) {
        (
            Flow { failed: self.failed || yes, ..self },
            StepView {
                next: if yes {
                    NextView::Quit
                } else {
                    NextView::Nothing
                },
                message: Some(error),
            },
        )
    }

    /// A plan begins, or the reason why there is none is reported.
    pub open spec fn planned(
        self,
        codes: Seq<Code>,
        yes: bool,
        plan: Result<Scheduler, String>,
    ) -> (Flow, StepView) {
        match plan {
            Ok(workflow) => self.begun(codes, workflow@),
            Err(error) => self.plan_failed(yes, error@),
        }
    }

    /// A block has ended, and what follows from it.
    pub open spec fn ended(
        self,
        codes: Seq<Code>,
        yes: bool,
        id: CodeId,
        exit_code: Option<i32>,
    ) -> (Flow, StepView) {
        let (after, result) = self.advanced(id, exit_code);
        match result {
            Some(result) => after.handled(codes, yes, result),
            None => (after, quietly(NextView::Nothing)),
        }
    }

    /// A block executes.
    pub open spec fn noted(self, id: CodeId) -> Flow {
        Flow {
            output: if self.workflow is Some && self.workflow->0.running.contains(id) {
                self.output.tracking(id)
            } else {
                self.output
            },
            ..self
        }
    }

    /// The block has to execute.
    pub open spec fn executes(self, id: CodeId, succeeded: bool) -> bool {
        self.workflow is None || self.workflow->0.executes(id, succeeded)
    }

    /// The blocks of a batch execute, one after the other: those that need not
    /// are taken as successful, those that could not be started as failed. With
    /// the last result of a block that has ended that way.
    pub open spec fn launched(
        self,
        batch: Seq<CodeId>,
        succeeded: spec_fn(CodeId) -> bool,
        not_started: Seq<CodeId>,
    ) -> (Flow, Option<AdvanceView>)
        decreases batch.len(),
    {
        if batch.len() == 0 {
            (self, None)
        } else {
            let (flow, done) = self.launched(batch.drop_last(), succeeded, not_started);
            let id = batch.last();
            if !flow.executes(id, succeeded(id)) {
                flow.advanced(id, Some(0))
            } else if not_started.contains(id) {
                flow.noted(id).advanced(id, Some(1))
            } else {
                (flow.noted(id), done)
            }
        }
    }
}

/// For the CLI, manages code block execution and navigation.
pub struct App {
    pub codes: Vec<Code>,
    pub selected: usize,
    /// Run without asking.
    pub yes: bool,
    /// Run every block.
    pub all: bool,
    /// A block was asked for on the command line.
    pub block: bool,
    pub outputs: HashMap<CodeId, BlockOutput>,
    pub workflow: Option<Scheduler>,
    pub envs: Envs,
    pub cwd: String,
    pub batch_output: BatchOutput,
    pub picker: Option<PickerState>,
    pub pending_states: Vec<(CodeId, Captured)>,
    pub failed: bool,
}

impl App {
    /// What changes while blocks run.
    pub open spec fn flow(&self) -> Flow {
        Flow {
            workflow: match self.workflow {
                Some(workflow) => Some(workflow@),
                None => None,
            },
            output: self.batch_output@,
            envs: self.envs@,
            cwd: self.cwd@,
            pending: captured_list(self.pending_states@),
            selected: self.selected as int,
            failed: self.failed,
        }
    }

    /// Everything but the flow is as `before`.
    pub open spec fn same_but_flow(&self, before: &App) -> bool {
        &&& self.codes == before.codes
        &&& self.yes == before.yes
        &&& self.all == before.all
        &&& self.block == before.block
        &&& self.outputs == before.outputs
        &&& self.picker == before.picker
    }

    /// The parts of the state fit together.
    pub open spec fn wf(&self) -> bool {
        &&& valid_codes(self.codes@)
        &&& self.selected == 0 || self.selected < self.codes@.len()
        &&& self.workflow matches Some(workflow) ==> workflow.wf()
        &&& self.envs.wf()
        &&& captured_wf(self.pending_states@)
        &&& self.picker matches Some(picker) ==> picker.wf()
        &&& forall|id: CodeId| #[trigger]
            self.outputs@.contains_key(id) ==> captures_wf(self.outputs@[id].task)
    }

    /// The block ran before and succeeded.
    pub open spec fn succeeded(&self, id: CodeId) -> bool {
        self.outputs@.contains_key(id) && self.outputs@[id].task.exit_code == Some(0i32)
    }
}

/// The place of a block in the document.
proof fn lemma_place(codes: Seq<Code>, id: CodeId, i: int)
    requires
        place_of(codes, id, i),
    ensures
        forall|otherwise: int| #[trigger] place_or(codes, id, otherwise) == i,
{
    let k = choose|k: int| place_of(codes, id, k);
    if k < i {
        assert(codes[k].id != id);
    }
    if i < k {
        assert(codes[i].id != id);
    }
}

impl App {
    /// A fresh state over the blocks of a document. `wanted` are the blocks
    /// asked for on the command line, if any were.
    pub fn new(
        codes: Vec<Code>,
        wanted: Option<Vec<CodeId>>,
        yes: bool,
        all: bool,
        envs: Envs,
        cwd: String,
    ) -> (app: App)
        requires
            valid_codes(codes@),
            envs.wf(),
        ensures
            app.wf(),
            app.codes == codes,
            app.yes == yes,
            app.all == all,
            app.block == (wanted is Some),
            app.selected == first_wanted(codes@, wanted),
            app.outputs@ == Map::<CodeId, BlockOutput>::empty(),
            app.workflow is None,
            app.envs == envs,
            app.cwd == cwd,
            app.batch_output@.terminal,
            app.batch_output@.visible.len() == 0,
            app.batch_output@.pending.len() == 0,
            app.batch_output@.previous_lines == 0,
            app.picker is None,
            app.pending_states@.len() == 0,
            !app.failed,
    {
        let selected = initial_selection(&codes, &wanted);
        App {
            codes,
            selected,
            yes,
            all,
            block: wanted.is_some(),
            outputs: HashMap::new(),
            workflow: None,
            envs,
            cwd,
            batch_output: BatchOutput::new(),
            picker: None,
            pending_states: Vec::new(),
            failed: false,
        }
    }

    /// Opens the state in file-picker mode, before a document is loaded.
    pub fn from_file_picker(
        files: Vec<crate::picker::MarkdownFile>,
        yes: bool,
        all: bool,
        envs: Envs,
        cwd: String,
    ) -> (app: App)
        requires
            envs.wf(),
        ensures
            app.wf(),
            app.codes@.len() == 0,
            app.yes == yes,
            app.all == all,
            app.picker matches Some(picker) && picker.files == files && picker.query@.len() == 0
                && picker.selected == 0,
    {
        let mut app = App::new(Vec::new(), None, yes, all, envs, cwd);
        app.picker = Some(PickerState::new(files));
        app
    }

    /// The document was replaced, and what ran is forgotten.
    pub open spec fn opened(
        &self,
        before: &App,
        codes: Vec<Code>,
        wanted: Option<Vec<CodeId>>,
    ) -> bool {
        &&& self.codes == codes
        &&& self.selected == first_wanted(codes@, wanted)
        &&& self.workflow is None
        &&& self.outputs@ == Map::<CodeId, BlockOutput>::empty()
        &&& self.pending_states@.len() == 0
        &&& self.picker is None
        &&& self.batch_output@ == (BatchView {
            terminal: before.batch_output@.terminal,
            scheduled: Seq::empty(),
            visible: Seq::empty(),
            pending: Seq::empty(),
            previous_lines: 0,
        })
        &&& self.envs == before.envs
        &&& self.cwd == before.cwd
        &&& self.failed == before.failed
        &&& self.yes == before.yes
        &&& self.all == before.all
        &&& self.block == before.block
    }

    /// Replaces the document and forgets what ran.
    pub fn load_document(&mut self, codes: Vec<Code>, wanted: Option<Vec<CodeId>>)
        requires
            old(self).wf(),
            valid_codes(codes@),
        ensures
            final(self).wf(),
            final(self).opened(old(self), codes, wanted),
    {
        self.selected = initial_selection(&codes, &wanted);
        self.codes = codes;
        self.workflow = None;
        self.outputs.clear();
        self.batch_output.reset();
        self.pending_states.clear();
        self.picker = None;
    }

    /// Records that a block has ended.
    fn advance_workflow(&mut self, id: CodeId, exit_code: Option<i32>) -> (result: Option<
        AdvanceResult,
    >)
        requires
            old(self).wf(),
        ensures
            final(self).wf(),
            final(self).same_but_flow(old(self)),
            final(self).flow() == old(self).flow().advanced(id, exit_code).0,
            match result {
                Some(result) => old(self).flow().advanced(id, exit_code).1 == Some(result@),
                None => old(self).flow().advanced(id, exit_code).1 is None,
            },
    {
        match self.workflow.take() {
            None => None,
            Some(mut workflow) => {
                let result = workflow.advance(id, exit_code);
                self.workflow = Some(workflow);
                self.batch_output.complete(&result);
                Some(result)
            },
        }
    }

    /// Takes over what the blocks of a batch left behind.
    fn flush_pending_states(&mut self)
        requires
            old(self).wf(),
        ensures
            final(self).wf(),
            final(self).same_but_flow(old(self)),
            final(self).workflow == old(self).workflow,
            final(self).flow() == old(self).flow().flushed(),
    {
        let mut pending: Vec<(CodeId, Captured)> = Vec::new();
        pending.append(&mut self.pending_states);
        let ghost all = captured_list(pending@);
        assert(pending@ =~= old(self).pending_states@);
        assert(captured_list(self.pending_states@) =~= Seq::empty());
        assert(merged_envs(self.envs@, all.take(0)) == self.envs@);
        let mut i: usize = 0;
        while i < pending.len()
            invariant
                i <= pending@.len(),
                all == captured_list(pending@),
                captured_wf(pending@),
                self.envs.wf(),
                self.envs@ == merged_envs(old(self).envs@, all.take(i as int)),
                self.cwd@ == merged_cwd(old(self).cwd@, all.take(i as int)),
                self.same_but_flow(old(self)),
                self.workflow == old(self).workflow,
                self.batch_output == old(self).batch_output,
                self.selected == old(self).selected,
                self.failed == old(self).failed,
                self.pending_states@.len() == 0,
            decreases pending@.len() - i,
        {
            proof {
                let longer = all.take(i + 1);
                assert(longer.drop_last() =~= all.take(i as int));
                assert(longer.last() == (pending@[i as int].0, pending@[i as int].1@));
            }
            if let Some(envs) = &pending[i].1.envs {
                merge_envs(&mut self.envs, envs);
            }
            if let Some(cwd) = &pending[i].1.cwd {
                self.cwd = cwd.clone();
            }
            i += 1;
        }
        assert(all.take(i as int) =~= all);
        assert(captured_list(self.pending_states@) =~= Seq::empty());
    }

    /// Selects the first block of a batch.
    fn select_batch(&mut self, batch: &Vec<CodeId>)
        requires
            old(self).wf(),
        ensures
            final(self).wf(),
            final(self).same_but_flow(old(self)),
            final(self).workflow == old(self).workflow,
            final(self).flow() == old(self).flow().batch_selected(old(self).codes@, batch@),
    {
        self.batch_output.select(batch.as_slice());
        if batch.len() > 0 {
            self.focus(batch[0]);
        }
    }

    /// Selects a block of the document.
    fn focus(&mut self, id: CodeId)
        requires
            old(self).wf(),
        ensures
            final(self).wf(),
            final(self).same_but_flow(old(self)),
            final(self).workflow == old(self).workflow,
            final(self).flow() == (Flow {
                selected: place_or(old(self).codes@, id, old(self).selected as int),
                ..old(self).flow()
            }),
    {
        match find_block(self.codes.as_slice(), id) {
            Some(index) => {
                proof {
                    assert(place_of(self.codes@, id, index as int));
                    lemma_place(self.codes@, id, index as int);
                }
                self.selected = index;
            },
            None => {
                assert forall|i: int| !place_of(self.codes@, id, i) by {
                    if place_of(self.codes@, id, i) {
                        assert(self.codes@[i].id == id);
                    }
                }
            },
        }
    }

    /// Decides what follows from the end of a block.
    pub fn handle_advance(&mut self, result: AdvanceResult) -> (step: Step)
        requires
            old(self).wf(),
        ensures
            final(self).wf(),
            final(self).same_but_flow(old(self)),
            (final(self).flow(), step@) == old(self).flow().handled(
                old(self).codes@,
                old(self).yes,
                result@,
            ),
    {
        match result {
            AdvanceResult::NextBatch(batch) => {
                self.flush_pending_states();
                self.select_batch(&batch);
                let auto_run = match &self.workflow {
                    Some(workflow) => workflow.auto_run(),
                    None => false,
                };
                let next = if auto_run {
                    Next::Launch(batch)
                } else {
                    Next::Nothing
                };
                Step { next, message: None }
            },
            AdvanceResult::Pending | AdvanceResult::Untracked => Step {
                next: Next::Nothing,
                message: None,
            },
            AdvanceResult::Stopped(failure) => {
                self.flush_pending_states();
                self.workflow = None;
                let mut message = "Block ".to_owned();
                message.append(decimal(failure.block as u64).as_str());
                message.append(" failed - stopping dependency chain");
                let next = if self.yes {
                    self.failed = true;
                    Next::Quit
                } else {
                    Next::Nothing
                };
                Step { next, message: Some(message) }
            },
            AdvanceResult::Finished { failed } => {
                self.flush_pending_states();
                self.workflow = None;
                let next = if self.yes {
                    self.failed = failed;
                    Next::Quit
                } else {
                    Next::Nothing
                };
                Step { next, message: None }
            },
        }
    }

    /// Whether the block ran before and succeeded.
    fn has_succeeded(&self, id: CodeId) -> (yes: bool)
        ensures
            yes == self.succeeded(id),
    {
        match self.outputs.get(&id) {
            Some(output) => output.task.exit_code == Some(0),
            None => false,
        }
    }

    /// Whether the block has to execute.
    fn should_execute(&self, id: CodeId) -> (yes: bool)
        ensures
            yes == self.flow().executes(id, self.succeeded(id)),
    {
        let succeeded = self.has_succeeded(id);
        match &self.workflow {
            Some(workflow) => workflow.should_execute(id, succeeded),
            None => true,
        }
    }

    /// The blocks of a batch that the caller has to start.
    pub fn blocks_to_start(&self, batch: &Vec<CodeId>) -> (ids: Vec<CodeId>)
        ensures
            ids@ == batch@.filter(|id: CodeId| self.flow().executes(id, self.succeeded(id))),
    {
        let mut ids: Vec<CodeId> = Vec::new();
        let ghost keep = |id: CodeId| self.flow().executes(id, self.succeeded(id));
        let mut i: usize = 0;
        while i < batch.len()
            invariant
                i <= batch@.len(),
                keep == (|id: CodeId| self.flow().executes(id, self.succeeded(id))),
                ids@ == batch@.take(i as int).filter(keep),
            decreases batch@.len() - i,
        {
            proof {
                crate::seqs::lemma_take_contains(batch@, i as int);
                crate::seqs::lemma_filter_push(batch@.take(i as int), batch@[i as int], keep);
            }
            if self.should_execute(batch[i]) {
                ids.push(batch[i]);
            }
            i += 1;
        }
        assert(batch@.take(i as int) =~= batch@);
        ids
    }

    /// Notes that a block of the running batch executes.
    pub fn block_started(&mut self, id: CodeId)
        requires
            old(self).wf(),
        ensures
            final(self).wf(),
            final(self).same_but_flow(old(self)),
            final(self).flow() == old(self).flow().noted(id),
    {
        let running = match &self.workflow {
            Some(workflow) => workflow.is_running(id),
            None => false,
        };
        if running {
            self.batch_output.track(id);
        }
    }

    /// Notes which blocks of a batch execute, once the caller has started them.
    /// Blocks that need not execute count as successful, those in `not_started`
    /// as failed.
    pub fn launch_batch(&mut self, batch: &Vec<CodeId>, not_started: &Vec<CodeId>) -> (step: Step)
        requires
            old(self).wf(),
        ensures
            final(self).wf(),
            final(self).same_but_flow(old(self)),
            ({
                let (flow, done) = old(self).flow().launched(
                    batch@,
                    |id: CodeId| old(self).succeeded(id),
                    not_started@,
                );
                (final(self).flow(), step@) == (match done {
                    Some(result) => flow.handled(old(self).codes@, old(self).yes, result),
                    None => (flow, quietly(NextView::Nothing)),
                })
            }),
    {
        let ghost succeeded = |id: CodeId| old(self).succeeded(id);
        let mut completed: Option<AdvanceResult> = None;
        let mut i: usize = 0;
        assert(batch@.take(0) =~= Seq::empty());
        while i < batch.len()
            invariant
                i <= batch@.len(),
                self.wf(),
                self.same_but_flow(old(self)),
                succeeded == (|id: CodeId| old(self).succeeded(id)),
                self.flow() == old(self).flow().launched(
                    batch@.take(i as int),
                    succeeded,
                    not_started@,
                ).0,
                old(self).flow().launched(batch@.take(i as int), succeeded, not_started@).1 == (
                match completed {
                    Some(result) => Some(result@),
                    None => None,
                }),
            decreases batch@.len() - i,
        {
            let id = batch[i];
            proof {
                let longer = batch@.take(i + 1);
                assert(longer.drop_last() =~= batch@.take(i as int));
                assert(longer.last() == id);
                assert(succeeded(id) == self.succeeded(id));
            }
            if !self.should_execute(id) {
                completed = self.advance_workflow(id, Some(0));
            } else {
                self.block_started(id);
                if holds(not_started, id) {
                    completed = self.advance_workflow(id, Some(1));
                }
            }
            i += 1;
        }
        assert(batch@.take(i as int) =~= batch@);
        match completed {
            Some(result) => self.handle_advance(result),
            None => Step { next: Next::Nothing, message: None },
        }
    }

    /// Notes that a block of the running batch could not be started.
    pub fn start_failed(&mut self, id: CodeId) -> (step: Step)
        requires
            old(self).wf(),
        ensures
            final(self).wf(),
            final(self).same_but_flow(old(self)),
            (final(self).flow(), step@) == old(self).flow().ended(
                old(self).codes@,
                old(self).yes,
                id,
                Some(1),
            ),
    {
        match self.advance_workflow(id, Some(1)) {
            Some(result) => self.handle_advance(result),
            None => Step { next: Next::Nothing, message: None },
        }
    }
}

/// The first block of the document among those wanted; the first of all where
/// none is.
pub open spec fn first_wanted(codes: Seq<Code>, wanted: Option<Vec<CodeId>>) -> int {
    match wanted {
        Some(ids) => first_listed(codes, ids@),
        None => 0,
    }
}

/// The first block of the document whose number is listed; the first of all where none
/// is.
pub open spec fn first_listed(codes: Seq<Code>, ids: Seq<CodeId>) -> int {
    if exists|i: int| first_among(codes, ids, i) {
        choose|i: int| first_among(codes, ids, i)
    } else {
        0
    }
}

/// `i` is the first block of the document whose number is listed.
pub open spec fn first_among(codes: Seq<Code>, ids: Seq<CodeId>, i: int) -> bool {
    &&& 0 <= i < codes.len()
    &&& ids.contains(codes[i].id)
    &&& forall|j: int| 0 <= j < i ==> !ids.contains((#[trigger] codes[j]).id)
}

/// The first block of the document among those wanted.
pub fn initial_selection(codes: &Vec<Code>, wanted: &Option<Vec<CodeId>>) -> (selected: usize)
    ensures
        selected == first_wanted(codes@, *wanted),
        selected == 0 || selected < codes@.len(),
{
    if let Some(ids) = wanted {
        let mut i: usize = 0;
        while i < codes.len()
            invariant
                i <= codes@.len(),
                *wanted == Some(*ids),
                forall|j: int| 0 <= j < i ==> !ids@.contains((#[trigger] codes@[j]).id),
            decreases codes@.len() - i,
        {
            if holds(ids, codes[i].id) {
                proof {
                    assert(first_among(codes@, ids@, i as int));
                    let k = choose|k: int| first_among(codes@, ids@, k);
                    if k < i {
                        assert(!ids@.contains(codes@[k].id));
                    }
                    if i < k {
                        assert(!ids@.contains(codes@[i as int].id));
                    }
                }
                return i;
            }
            i += 1;
        }
        assert forall|k: int| !first_among(codes@, ids@, k) by {
            if first_among(codes@, ids@, k) {
                assert(!ids@.contains(codes@[k].id));
            }
        }
    }
    0
}

impl App {
    /// The outcome of asking for one block to run.
    pub open spec fn asked_for(
        flow: Flow,
        codes: Seq<Code>,
        yes: bool,
        id: CodeId,
        after: Flow,
        step: StepView,
    ) -> bool {
        match flow.workflow {
            Some(workflow) => after == flow && step == quietly(
                if workflow.running.contains(id) {
                    NextView::Start(id)
                } else {
                    NextView::Nothing
                },
            ),
            None => exists|plan: Result<Scheduler, String>|
                {
                    &&& #[trigger] Scheduler::built_for(codes, id, true, plan)
                    &&& (after, step) == flow.planned(codes, yes, plan)
                },
        }
    }

    fn start_plan(&mut self, plan: Result<Scheduler, String>) -> (step: Step)
        requires
            old(self).wf(),
            plan matches Ok(workflow) ==> workflow.wf(),
        ensures
            final(self).wf(),
            final(self).same_but_flow(old(self)),
            (final(self).flow(), step@) == old(self).flow().planned(
                old(self).codes@,
                old(self).yes,
                plan,
            ),
    {
        match plan {
            Ok(mut workflow) => {
                let auto_run = workflow.auto_run();
                match workflow.start() {
                    None => {
                        let next = if auto_run {
                            Next::Quit
                        } else {
                            Next::Nothing
                        };
                        Step { next, message: None }
                    },
                    Some(batch) => {
                        self.workflow = Some(workflow);
                        self.select_batch(&batch);
                        let next = if auto_run {
                            Next::Launch(batch)
                        } else {
                            Next::Nothing
                        };
                        Step { next, message: None }
                    },
                }
            },
            Err(error) => self.plan_error(error),
        }
    }

    /// Begins to run every block.
    pub fn start_all(&mut self) -> (step: Step)
        requires
            old(self).wf(),
        ensures
            final(self).wf(),
            final(self).same_but_flow(old(self)),
            exists|plan: Result<Scheduler, String>|
                {
                    &&& #[trigger] Scheduler::built_all(old(self).codes@, old(self).yes, plan)
                    &&& (final(self).flow(), step@) == old(self).flow().planned(
                        old(self).codes@,
                        old(self).yes,
                        plan,
                    )
                },
    {
        let plan = Scheduler::for_all(self.codes.as_slice(), self.yes);
        self.start_plan(plan)
    }

    /// Reports that there is no plan.
    pub fn plan_error(&mut self, error: String) -> (step: Step)
        requires
            old(self).wf(),
        ensures
            final(self).wf(),
            final(self).same_but_flow(old(self)),
            (final(self).flow(), step@) == old(self).flow().plan_failed(old(self).yes, error@),
    {
        let next = if self.yes {
            self.failed = true;
            Next::Quit
        } else {
            Next::Nothing
        };
        Step { next, message: Some(error) }
    }

    /// Runs a block: one of the running batch at once, else its dependency
    /// chain.
    pub fn execute(&mut self, id: CodeId) -> (step: Step)
        requires
            old(self).wf(),
        ensures
            final(self).wf(),
            final(self).same_but_flow(old(self)),
            Self::asked_for(
                old(self).flow(),
                old(self).codes@,
                old(self).yes,
                id,
                final(self).flow(),
                step@,
            ),
    {
        if let Some(workflow) = &self.workflow {
            let next = if workflow.is_running(id) {
                Next::Start(id)
            } else {
                Next::Nothing
            };
            return Step { next, message: None };
        }
        let plan = Scheduler::for_target(self.codes.as_slice(), id);
        self.start_plan(plan)
    }

    /// Runs the selected block, where there is one.
    fn execute_selected(&mut self) -> (step: Step)
        requires
            old(self).wf(),
        ensures
            final(self).wf(),
            final(self).same_but_flow(old(self)),
            old(self).codes@.len() == 0 ==> final(self).flow() == old(self).flow() && step@
                == quietly(NextView::Nothing),
            old(self).codes@.len() > 0 ==> Self::asked_for(
                old(self).flow(),
                old(self).codes@,
                old(self).yes,
                old(self).codes@[old(self).selected as int].id,
                final(self).flow(),
                step@,
            ),
    {
        if self.selected < self.codes.len() {
            let id = self.codes[self.selected].id;
            self.execute(id)
        } else {
            Step { next: Next::Nothing, message: None }
        }
    }

    /// What was asked for on the command line has begun.
    pub open spec fn begun(&self, before: &App, step: StepView) -> bool {
        if before.picker is Some || (!(before.block && before.yes) && !before.all) || (
        before.block && before.yes && before.codes@.len() == 0) {
            self.flow() == before.flow() && step == quietly(NextView::Nothing)
        } else if before.block && before.yes {
            Self::asked_for(
                before.flow(),
                before.codes@,
                before.yes,
                before.codes@[before.selected as int].id,
                self.flow(),
                step,
            )
        } else {
            exists|plan: Result<Scheduler, String>|
                {
                    &&& #[trigger] Scheduler::built_all(before.codes@, before.yes, plan)
                    &&& (self.flow(), step) == before.flow().planned(
                        before.codes@,
                        before.yes,
                        plan,
                    )
                }
        }
    }

    /// What runs when the application starts: the block asked for on the command
    /// line, or every block, where that was asked for.
    pub fn create(&mut self) -> (step: Step)
        requires
            old(self).wf(),
        ensures
            final(self).wf(),
            final(self).same_but_flow(old(self)),
            final(self).begun(old(self), step@),
    {
        if self.picker.is_some() {
            return Step { next: Next::Nothing, message: None };
        }
        if self.block && self.yes {
            self.execute_selected()
        } else if self.all {
            self.start_all()
        } else {
            Step { next: Next::Nothing, message: None }
        }
    }

    /// Selects the next block of a parallel batch.
    fn focus_next_batch_block(&mut self)
        requires
            old(self).wf(),
        ensures
            final(self).wf(),
            final(self).same_but_flow(old(self)),
            final(self).flow() == (Flow {
                selected: next_focus(
                    old(self).codes@,
                    old(self).batch_output@.visible,
                    old(self).selected as int,
                ),
                ..old(self).flow()
            }),
    {
        if self.selected < self.codes.len() {
            let id = self.codes[self.selected].id;
            match self.batch_output.focus_next(id) {
                Some(next) => {
                    self.focus(next);
                },
                None => {},
            }
        }
    }

    /// The state and what to do next after an action on the selected block.
    pub open spec fn acted(&self, before: &App, action: Action, step: StepView) -> bool {
        match action {
            Action::Run => if before.codes@.len() == 0 {
                self.flow() == before.flow() && step == quietly(NextView::Nothing)
            } else {
                Self::asked_for(
                    before.flow(),
                    before.codes@,
                    before.yes,
                    before.codes@[before.selected as int].id,
                    self.flow(),
                    step,
                )
            },
            Action::FocusNext => step == quietly(NextView::Nothing) && self.flow() == (Flow {
                selected: next_focus(
                    before.codes@,
                    before.batch_output@.visible,
                    before.selected as int,
                ),
                ..before.flow()
            }),
            Action::Quit => self.flow() == before.flow() && step == quietly(NextView::Quit),
        }
    }

    /// Handles an action on the selected block.
    pub fn handle_action(&mut self, action: Action) -> (step: Step)
        requires
            old(self).wf(),
        ensures
            final(self).wf(),
            final(self).same_but_flow(old(self)),
            final(self).acted(old(self), action, step@),
    {
        match action {
            Action::Run => self.execute_selected(),
            Action::FocusNext => {
                self.focus_next_batch_block();
                Step { next: Next::Nothing, message: None }
            },
            Action::Quit => Step { next: Next::Quit, message: None },
        }
    }

    /// The state and what to do next after the selection moved.
    pub open spec fn moved(&self, before: &App, nav: Navigation, step: StepView) -> bool {
        let selected = moved_to(nav, before.selected as int, before.codes@.len() as int);
        let flow = Flow { selected, ..before.flow() };
        if before.yes && before.codes@.len() > 0 {
            Self::asked_for(
                flow,
                before.codes@,
                before.yes,
                before.codes@[selected].id,
                self.flow(),
                step,
            )
        } else {
            self.flow() == flow && step == quietly(NextView::Nothing)
        }
    }

    /// Moves the selection; with `yes` the block it comes to rest on runs.
    pub fn handle_nav(&mut self, nav: Navigation) -> (step: Step)
        requires
            old(self).wf(),
        ensures
            final(self).wf(),
            final(self).same_but_flow(old(self)),
            final(self).moved(old(self), nav, step@),
    {
        let total: usize = self.codes.len();
        match nav {
            Navigation::Next => {
                if total > 0 && self.selected < total - 1 {
                    self.selected = self.selected + 1;
                }
            },
            Navigation::Prev => {
                if self.selected > 0 {
                    self.selected = self.selected - 1;
                }
            },
            Navigation::First => {
                self.selected = 0;
            },
            Navigation::Last => {
                self.selected = total.saturating_sub(1);
            },
            Navigation::PageUp => {
                self.selected = self.selected.saturating_sub(5);
            },
            Navigation::PageDown => {
                self.selected = self.selected.saturating_add(5).min(total.saturating_sub(1));
            },
        }
        if self.yes {
            self.execute_selected()
        } else {
            Step { next: Next::Nothing, message: None }
        }
    }
}

#[derive(Clone, Copy, Debug, PartialEq, Eq, Hash, Structural)]
pub enum Action {
    /// Executes the selected code block.
    Run,
    /// Focuses the next block in a parallel batch.
    FocusNext,
    /// Quits the application.
    Quit,
}

/// Where a move leads in a list of `total` blocks: it ends at the first and the
/// last of them, and a page is five.
pub open spec fn moved_to(nav: Navigation, selected: int, total: int) -> int {
    match nav {
        Navigation::Next => if selected + 1 < total {
            selected + 1
        } else {
            selected
        },
        Navigation::Prev => less_by(selected, 1),
        Navigation::First => 0,
        Navigation::Last => less_by(total, 1),
        Navigation::PageUp => less_by(selected, 5),
        Navigation::PageDown => smaller(selected + 5, less_by(total, 1)),
    }
}

/// The block after the selected one among those that execute, in a circle.
pub open spec fn next_focus(codes: Seq<Code>, visible: Seq<CodeId>, selected: int) -> int {
    if 0 <= selected < codes.len() && visible.contains(codes[selected].id) {
        let i = first_place(visible, codes[selected].id);
        place_or(codes, visible[(i + 1) % visible.len() as int], selected)
    } else {
        selected
    }
}

impl Flow {
    /// Something that a block left behind has arrived: it is taken over at once
    /// where no plan is running, else kept until the batch is over.
    pub open spec fn captured(
        self,
        id: CodeId,
        envs: Option<Map<Seq<char>, Seq<char>>>,
        cwd: Option<Seq<char>>,
    ) -> Flow {
        if self.workflow is None {
            Flow {
                envs: match envs {
                    Some(captured) => self.envs.union_prefer_right(captured),
                    None => self.envs,
                },
                cwd: match cwd {
                    Some(captured) => captured,
                    None => self.cwd,
                },
                ..self
            }
        } else {
            let after = captured_with(captured_of(self.pending, id), envs, cwd);
            Flow { pending: captured_set(self.pending, id, after), ..self }
        }
    }

    /// A message has arrived from a block; `known` tells whether the block's
    /// output is kept, `exit_code` how it ended.
    pub open spec fn streamed(
        self,
        codes: Seq<Code>,
        yes: bool,
        id: CodeId,
        stream: Stream,
        known: bool,
        exit_code: Option<i32>,
    ) -> (Flow, StepView) {
        match stream {
            Stream::Env(envs) => (
                self.captured(
                    id,
                    if known {
                        Some(envs@)
                    } else {
                        None
                    },
                    None,
                ),
                quietly(NextView::Nothing),
            ),
            Stream::Cwd(cwd) => (
                self.captured(
                    id,
                    None,
                    if known {
                        Some(cwd@)
                    } else {
                        None
                    },
                ),
                quietly(NextView::Nothing),
            ),
            Stream::End => {
                let kept = if exit_code == Some(0i32) {
                    self
                } else {
                    Flow { pending: captured_without(self.pending, id), ..self }
                };
                kept.ended(codes, yes, id, exit_code)
            },
            _ => (self, quietly(NextView::Nothing)),
        }
    }
}

/// A block's output after a message.
pub open spec fn output_after(
    before: Map<CodeId, BlockOutput>,
    id: CodeId,
    stream: Stream,
    after: Map<CodeId, BlockOutput>,
) -> bool {
    if before.contains_key(id) {
        &&& after.contains_key(id)
        &&& after == before.insert(id, after[id])
        &&& stream_applied(before[id].task, stream, after[id].task)
        &&& after[id].screen == before[id].screen
        &&& after[id].alternate == before[id].alternate
    } else {
        after == before
    }
}

impl App {
    /// Forgets what a block left behind.
    fn forget_captured(&mut self, id: CodeId)
        requires
            old(self).wf(),
        ensures
            final(self).wf(),
            final(self).same_but_flow(old(self)),
            final(self).workflow == old(self).workflow,
            final(self).flow() == (Flow {
                pending: captured_without(old(self).flow().pending, id),
                ..old(self).flow()
            }),
    {
        forget_captured(&mut self.pending_states, id);
    }

    /// Keeps what a block left behind, or takes it over.
    fn capture(&mut self, id: CodeId, envs: Option<Envs>, cwd: Option<String>)
        requires
            old(self).wf(),
            envs matches Some(captured) ==> captured.wf(),
        ensures
            final(self).wf(),
            final(self).same_but_flow(old(self)),
            final(self).flow() == old(self).flow().captured(
                id,
                match envs {
                    Some(captured) => Some(captured@),
                    None => None,
                },
                match cwd {
                    Some(captured) => Some(captured@),
                    None => None,
                },
            ),
    {
        if self.workflow.is_none() {
            if let Some(captured) = envs {
                merge_envs(&mut self.envs, &captured);
            }
            if let Some(captured) = cwd {
                self.cwd = captured;
            }
            return ;
        }
        keep_captured(&mut self.pending_states, id, envs, cwd);
    }

    /// A message of a block was applied to the state before.
    pub open spec fn took(&self, before: &App, id: CodeId, stream: Stream, step: StepView) -> bool {
        &&& self.codes == before.codes
        &&& self.yes == before.yes
        &&& self.all == before.all
        &&& self.block == before.block
        &&& self.picker == before.picker
        &&& output_after(before.outputs@, id, stream, self.outputs@)
        &&& (self.flow(), step) == before.flow().streamed(
            before.codes@,
            before.yes,
            id,
            stream,
            before.outputs@.contains_key(id),
            if before.outputs@.contains_key(id) {
                before.outputs@[id].task.exit_code
            } else {
                None
            },
        )
    }

    /// Applies a message of a running block.
    pub fn handle_stream_update(&mut self, id: CodeId, stream: &Stream) -> (step: Step)
        requires
            old(self).wf(),
            stream matches Stream::Env(envs) ==> envs.wf(),
        ensures
            final(self).wf(),
            final(self).codes == old(self).codes,
            final(self).yes == old(self).yes,
            final(self).all == old(self).all,
            final(self).block == old(self).block,
            final(self).picker == old(self).picker,
            output_after(old(self).outputs@, id, *stream, final(self).outputs@),
            final(self).took(old(self), id, *stream, step@),
            (final(self).flow(), step@) == old(self).flow().streamed(
                old(self).codes@,
                old(self).yes,
                id,
                *stream,
                old(self).outputs@.contains_key(id),
                if old(self).outputs@.contains_key(id) {
                    old(self).outputs@[id].task.exit_code
                } else {
                    None
                },
            ),
    {
        let mut known = false;
        let mut exit_code: Option<i32> = None;
        let ghost before = self.outputs@;
        if let Some(mut output) = self.outputs.remove(&id) {
            assert(captures_wf(before[id].task));
            handle_stream(&mut output.task, stream);
            known = true;
            exit_code = output.task.exit_code;
            self.outputs.insert(id, output);
            assert(self.outputs@ =~= before.insert(id, self.outputs@[id]));
        } else {
            assert(self.outputs@ =~= before);
        }
        assert(self.flow() == old(self).flow());
        match stream {
            Stream::Env(envs) => {
                let captured = if known {
                    Some(envs.copy())
                } else {
                    None
                };
                self.capture(id, captured, None);
                Step { next: Next::Nothing, message: None }
            },
            Stream::Cwd(cwd) => {
                let captured = if known {
                    Some(cwd.clone())
                } else {
                    None
                };
                self.capture(id, None, captured);
                Step { next: Next::Nothing, message: None }
            },
            Stream::End => {
                if exit_code != Some(0) {
                    self.forget_captured(id);
                }
                match self.advance_workflow(id, exit_code) {
                    Some(result) => self.handle_advance(result),
                    None => Step { next: Next::Nothing, message: None },
                }
            },
            _ => Step { next: Next::Nothing, message: None },
        }
    }
}

/// What the picker asks of the caller.
#[derive(Clone, Copy, Debug, PartialEq, Eq, Structural)]
pub enum PickerNext {
    Nothing,
    /// Open the file at this place of the list.
    Open(usize),
    Quit,
}

/// What an action of the picker asks for.
pub open spec fn picker_next(picker: Option<PickerState>, action: PickerAction) -> PickerNext {
    match picker {
        None => PickerNext::Nothing,
        Some(picker) => match action {
            PickerAction::Select => if picker.selected < picker.matches@.len() {
                PickerNext::Open(picker.matches@[picker.selected as int])
            } else {
                PickerNext::Nothing
            },
            PickerAction::Quit => PickerNext::Quit,
            _ => PickerNext::Nothing,
        },
    }
}

/// What the caller does with a message of a block's terminal.
#[derive(Clone, Copy, Debug, PartialEq, Eq)]
pub struct StreamEffect {
    /// Write the output to the real terminal.
    pub pass_through: bool,
    /// Give the block's terminal this size (columns, rows).
    pub resize: Option<(u16, u16)>,
}

/// What a key is bound to.
pub struct KeyBindings {
    pub picker: Option<PickerAction>,
    pub action: Option<Action>,
    pub navigation: Option<Navigation>,
    /// The key can be sent to a process.
    pub sendable: bool,
}

/// Where a key goes.
#[derive(Clone, Copy, Debug, PartialEq, Eq, Structural)]
pub enum Route {
    Nothing,
    Picker(PickerAction),
    Action(Action),
    Navigation(Navigation),
    /// To the process of a block.
    Process(CodeId),
}

/// The size (columns, rows) of a block's terminal next to its card.
pub open spec fn card_size(cols: u16, rows: u16) -> (int, int) {
    (
        larger(less_by(cols as int, CLI_PTY_COL_OVERHEAD as int), CLI_PTY_MIN_COLS as int),
        larger(less_by(rows as int, CLI_PTY_ROW_OVERHEAD as int), CLI_PTY_MIN_ROWS as int),
    )
}

/// The size (columns, rows) of a block's terminal next to its card.
pub fn pty_size(cols: u16, rows: u16) -> (size: (u16, u16))
    ensures
        (size.0 as int, size.1 as int) == card_size(cols, rows),
{
    let pty_rows: u16 = rows.saturating_sub(CLI_PTY_ROW_OVERHEAD).max(CLI_PTY_MIN_ROWS);
    let pty_cols: u16 = cols.saturating_sub(CLI_PTY_COL_OVERHEAD).max(CLI_PTY_MIN_COLS);
    (pty_cols, pty_rows)
}

/// The transcripts of some blocks, one after the other.
pub open spec fn transcripts(
    codes: Seq<Code>,
    outputs: Map<CodeId, BlockOutput>,
    theme: Theme,
    terminal: bool,
    ids: Seq<CodeId>,
) -> Seq<char>
    decreases ids.len(),
{
    if ids.len() == 0 {
        Seq::empty()
    } else {
        transcripts(codes, outputs, theme, terminal, ids.drop_last()) + if terminal {
            terminal_transcript(codes, outputs, theme, ids.last())
        } else {
            plain_transcript(codes, outputs, ids.last())
        }
    }
}

impl App {
    /// The block is the selected one.
    pub open spec fn focused(&self, id: CodeId) -> bool {
        self.selected < self.codes@.len() && self.codes@[self.selected as int].id == id
    }

    fn is_focused(&self, id: CodeId) -> (yes: bool)
        ensures
            yes == self.focused(id),
    {
        self.selected < self.codes.len() && self.codes[self.selected].id == id
    }

    /// The whole terminal goes to the selected block of a terminal session while a
    /// full-screen program has taken over its own; the size follows.
    pub open spec fn has_effect(
        &self,
        id: CodeId,
        is_output: bool,
        was_alternate: bool,
        now_alternate: bool,
        cols: u16,
        rows: u16,
        effect: StreamEffect,
    ) -> bool {
        &&& effect.pass_through == (is_output && self.batch_output@.terminal && self.focused(id)
            && (was_alternate || now_alternate))
        &&& effect.resize is Some <==> was_alternate != now_alternate
        &&& effect.resize matches Some(size) ==> (size.0 as int, size.1 as int) == (
        if now_alternate && self.batch_output@.terminal && self.focused(id) {
            (cols as int, rows as int)
        } else {
            card_size(cols, rows)
        })
    }

    /// What to do with a message of a block whose terminal was, and now is, taken
    /// over by a full-screen program: the selected block of a terminal session
    /// then has the whole terminal.
    pub fn stream_effect(
        &self,
        id: CodeId,
        is_output: bool,
        was_alternate: bool,
        now_alternate: bool,
        cols: u16,
        rows: u16,
    ) -> (effect: StreamEffect)
        ensures
            self.has_effect(id, is_output, was_alternate, now_alternate, cols, rows, effect),
    {
        let on_terminal = self.batch_output.is_terminal() && self.is_focused(id);
        let resize = if was_alternate != now_alternate {
            if now_alternate && on_terminal {
                Some((cols, rows))
            } else {
                Some(pty_size(cols, rows))
            }
        } else {
            None
        };
        StreamEffect {
            pass_through: is_output && on_terminal && (was_alternate || now_alternate),
            resize,
        }
    }

    /// Handles an action of the file picker.
    pub fn handle_picker_msg(&mut self, action: PickerAction) -> (next: PickerNext)
        requires
            old(self).wf(),
        ensures
            final(self).wf(),
            final(self).flow() == old(self).flow(),
            final(self).codes == old(self).codes,
            final(self).yes == old(self).yes,
            final(self).all == old(self).all,
            final(self).block == old(self).block,
            final(self).outputs == old(self).outputs,
            match old(self).picker {
                None => final(self).picker is None,
                Some(before) => final(self).picker matches Some(after) && after.navigated(
                    before,
                    action,
                ),
            },
            next == picker_next(old(self).picker, action),
    {
        match self.picker.take() {
            None => PickerNext::Nothing,
            Some(mut picker) => {
                let next = match action {
                    PickerAction::Select => match picker.selected_file_idx() {
                        Some(file) => PickerNext::Open(file),
                        None => PickerNext::Nothing,
                    },
                    PickerAction::Quit => PickerNext::Quit,
                    _ => {
                        picker.handle_navigation(&action);
                        PickerNext::Nothing
                    },
                };
                self.picker = Some(picker);
                next
            },
        }
    }

    /// Where a key goes: to the picker while it is open, to the running process
    /// of the selected block, else to what it is bound to. Without any block only
    /// quitting is left.
    pub open spec fn key_route(&self, keys: KeyBindings) -> Route {
        if self.picker is Some {
            match keys.picker {
                Some(action) => Route::Picker(action),
                None => Route::Nothing,
            }
        } else if self.batch_output@.visible.len() > 1 && keys.action == Some(
            Action::FocusNext,
        ) {
            Route::Action(Action::FocusNext)
        } else if self.selected >= self.codes@.len() {
            if keys.action == Some(Action::Quit) {
                Route::Action(Action::Quit)
            } else {
                Route::Nothing
            }
        } else {
            let id = self.codes@[self.selected as int].id;
            if self.outputs@.contains_key(id) && !self.outputs@[id].task.done
                && self.outputs@[id].task.started && keys.sendable {
                Route::Process(id)
            } else if keys.action is Some {
                Route::Action(keys.action->0)
            } else if keys.navigation is Some {
                Route::Navigation(keys.navigation->0)
            } else {
                Route::Nothing
            }
        }
    }

    /// Where a key goes.
    pub fn route_key(&self, keys: &KeyBindings) -> (route: Route)
        ensures
            route == self.key_route(*keys),
    {
        if self.picker.is_some() {
            return match keys.picker {
                Some(action) => Route::Picker(action),
                None => Route::Nothing,
            };
        }
        if self.batch_output.visible().len() > 1 && matches!(keys.action, Some(Action::FocusNext)) {
            return Route::Action(Action::FocusNext);
        }
        if self.selected >= self.codes.len() {
            return match keys.action {
                Some(Action::Quit) => Route::Action(Action::Quit),
                _ => Route::Nothing,
            };
        }
        let id = self.codes[self.selected].id;
        if let Some(output) = self.outputs.get(&id) {
            if !output.task.done && output.task.started && keys.sendable {
                return Route::Process(id);
            }
        }
        match keys.action {
            Some(action) => Route::Action(action),
            None => match keys.navigation {
                Some(nav) => Route::Navigation(nav),
                None => Route::Nothing,
            },
        }
    }

    /// Whether a full-screen program has taken over the terminal of the selected
    /// block.
    pub fn is_alternate_screen(&self) -> (yes: bool)
        requires
            self.wf(),
        ensures
            yes == (self.batch_output@.terminal && self.codes@.len() > 0 && {
                let id = self.codes@[self.selected as int].id;
                self.outputs@.contains_key(id) && self.outputs@[id].alternate
            }),
    {
        if !self.batch_output.is_terminal() || self.codes.is_empty() {
            return false;
        }
        let id = self.codes[self.selected].id;
        match self.outputs.get(&id) {
            Some(output) => output.alternate,
            None => false,
        }
    }

    fn transcripts_of(&self, batches: &Vec<Vec<CodeId>>, terminal: bool, theme: &Theme) -> (out:
        String)
        ensures
            out@ == transcripts(
                self.codes@,
                self.outputs@,
                *theme,
                terminal,
                joined(nested(batches@)),
            ),
    {
        let mut out = String::new();
        let mut b: usize = 0;
        let ghost view = nested(batches@);
        assert(joined(view.take(0)) =~= Seq::empty());
        while b < batches.len()
            invariant
                b <= batches@.len(),
                view == nested(batches@),
                out@ == transcripts(
                    self.codes@,
                    self.outputs@,
                    *theme,
                    terminal,
                    joined(view.take(b as int)),
                ),
            decreases batches@.len() - b,
        {
            let ghost done = joined(view.take(b as int));
            let batch = &batches[b];
            let mut i: usize = 0;
            assert(done + batch@.take(0) =~= done);
            while i < batch.len()
                invariant
                    i <= batch@.len(),
                    out@ == transcripts(
                        self.codes@,
                        self.outputs@,
                        *theme,
                        terminal,
                        done + batch@.take(i as int),
                    ),
                decreases batch@.len() - i,
            {
                let text = if terminal {
                    render_terminal_transcript(
                        self.codes.as_slice(),
                        &self.outputs,
                        theme,
                        batch[i],
                    )
                } else {
                    render_plain_transcript(self.codes.as_slice(), &self.outputs, batch[i])
                };
                out.append(text.as_str());
                proof {
                    let longer = done + batch@.take(i + 1);
                    assert(longer.drop_last() =~= done + batch@.take(i as int));
                    assert(longer.last() == batch@[i as int]);
                }
                i += 1;
            }
            proof {
                assert(batch@.take(i as int) =~= batch@);
                let longer = view.take(b + 1);
                assert(longer.drop_last() =~= view.take(b as int));
                assert(longer.last() == batch@);
            }
            b += 1;
        }
        assert(view.take(b as int) =~= view);
        out
    }

    /// The code that the card of the selected block shows.
    pub open spec fn card_lines(&self, painter: Painter, preview_lines: int) -> Seq<
        Seq<(Seq<char>, Style)>,
    > {
        if self.selected < self.codes@.len() {
            let code = self.codes@[self.selected as int];
            painter.painted(excerpt_text(code.content@, preview_lines), code.language@)
        } else {
            Seq::empty()
        }
    }

    /// The code that the card of the selected block shows: its first lines,
    /// highlighted.
    pub fn card_code(&self, painter: &Painter, preview_lines: usize) -> (lines: Vec<Vec<Span>>)
        ensures
            lines_view(lines@) == self.card_lines(*painter, preview_lines as int),
    {
        if self.selected < self.codes.len() {
            let code = &self.codes[self.selected];
            let text = excerpt(code.content.as_str(), preview_lines);
            painter.highlight(text.as_str(), code.language.as_str())
        } else {
            let lines: Vec<Vec<Span>> = Vec::new();
            assert(lines_view(lines@) =~= Seq::empty());
            lines
        }
    }

    /// Draws what is due: plain transcripts without a terminal, else the picker,
    /// or the transcripts of finished batches and the card of the selected block
    /// over what was drawn before. `highlighted` is the code of that card.
    pub fn render(
        &mut self,
        theme: &Theme,
        highlighted: &[Vec<Span>],
        preview_lines: usize,
        term_width: u16,
    ) -> (out: Vec<u8>)
        requires
            old(self).wf(),
        ensures
            final(self).wf(),
            final(self).same_but_flow(old(self)),
            ({
                let (bytes, output) = old(self).rendered(
                    *theme,
                    lines_view(highlighted@),
                    preview_lines as int,
                    term_width,
                );
                out@ == bytes && final(self).flow() == (Flow { output, ..old(self).flow() })
            }),
    {
        self.draw(theme, highlighted, preview_lines, term_width)
    }

    fn draw(
        &mut self,
        theme: &Theme,
        highlighted: &[Vec<Span>],
        preview_lines: usize,
        term_width: u16,
    ) -> (out: Vec<u8>)
        requires
            old(self).wf(),
        ensures
            *final(self) == (App { batch_output: final(self).batch_output, ..*old(self) }),
            (out@, final(self).batch_output@) == old(self).rendered(
                *theme,
                lines_view(highlighted@),
                preview_lines as int,
                term_width,
            ),
    {
        let mut out: Vec<u8> = Vec::new();
        if !self.batch_output.is_terminal() {
            let batches = self.take_batches();
            let text = self.transcripts_of(&batches, false, theme);
            out.extend_from_slice(text.as_str().as_bytes());
            assert(out@ =~= encode_utf8(text@));
            return out;
        }
        if let Some(picker) = &self.picker {
            let (text, lines) = render_picker(picker, self.batch_output.previous_lines(), theme);
            self.batch_output.set_previous_lines(lines);
            out.extend_from_slice(text.as_str().as_bytes());
            assert(out@ =~= encode_utf8(text@));
            return out;
        }
        let previous = self.batch_output.previous_lines();
        if previous > 0 {
            let clear = clear_sequence(previous);
            out.extend_from_slice(clear.as_str().as_bytes());
            assert(out@ =~= encode_utf8(clear@));
        }
        let ghost cleared = out@;
        let batches = self.take_batches();
        let committed = batches.len() > 0;
        if committed {
            let text = self.transcripts_of(&batches, true, theme);
            let counter = count_text(text.as_str(), term_width);
            out.extend_from_slice(counter.out.as_slice());
            assert(out@ =~= cleared + counter.counted().out);
        } else {
            assert(out@ =~= cleared + Seq::empty());
        }
        let ghost drawn = out@;
        if committed && self.batch_output.visible().len() == 0 {
            self.batch_output.set_previous_lines(0);
            return out;
        }
        let text = if self.codes.is_empty() {
            "No code blocks found.\n".to_owned()
        } else {
            render_card(
                self.codes.as_slice(),
                self.selected,
                &self.outputs,
                self.batch_output.visible(),
                preview_lines,
                highlighted,
                term_width,
                theme,
            )
        };
        let counter = count_text(text.as_str(), term_width);
        out.extend_from_slice(counter.out.as_slice());
        assert(out@ =~= drawn + counter.counted().out);
        self.batch_output.set_previous_lines(counter.lines);
        out
    }

    fn take_batches(&mut self) -> (batches: Vec<Vec<CodeId>>)
        ensures
            *final(self) == (App { batch_output: final(self).batch_output, ..*old(self) }),
            nested(batches@) == old(self).batch_output@.pending,
            final(self).batch_output@ == (BatchView {
                pending: Seq::empty(),
                ..old(self).batch_output@
            }),
    {
        let mut queue = self.batch_output.take_pending();
        let ghost all = queue@;
        let mut batches: Vec<Vec<CodeId>> = Vec::new();
        while queue.len() > 0
            invariant
                batches@ + queue@ == all,
            decreases queue@.len(),
        {
            let ghost before = queue@;
            if let Some(batch) = queue.pop_front() {
                batches.push(batch);
                assert(batches@ + queue@ =~= all);
            }
        }
        assert(batches@ =~= all);
        batches
    }

    /// What is drawn, and the state of the output after it.
    pub open spec fn rendered(
        &self,
        theme: Theme,
        highlighted: Seq<Seq<(Seq<char>, Style)>>,
        preview_lines: int,
        term_width: u16,
    ) -> (Seq<u8>, BatchView) {
        let output = self.batch_output@;
        let taken = BatchView { pending: Seq::empty(), ..output };
        let ids = joined(output.pending);
        if !output.terminal {
            (
                encode_utf8(transcripts(self.codes@, self.outputs@, theme, false, ids)),
                taken,
            )
        } else if self.picker is Some {
            (
                encode_utf8(picker_text(self.picker->0, output.previous_lines, theme)),
                BatchView {
                    previous_lines: fit_u16(picker_lines(self.picker->0)) as u16,
                    ..output
                },
            )
        } else {
            let cleared = if output.previous_lines > 0 {
                encode_utf8(clear_text(output.previous_lines))
            } else {
                Seq::empty()
            };
            let committed = output.pending.len() > 0;
            let drawn = cleared + if committed {
                counted_text(
                    transcripts(self.codes@, self.outputs@, theme, true, ids),
                    term_width,
                ).out
            } else {
                Seq::empty()
            };
            if committed && output.visible.len() == 0 {
                (drawn, BatchView { previous_lines: 0, ..taken })
            } else {
                let card = counted_text(
                    if self.codes@.len() == 0 {
                        "No code blocks found.\n"@
                    } else {
                        card_text(
                            self.codes@,
                            self.selected as int,
                            self.outputs@,
                            output.visible,
                            preview_lines,
                            highlighted,
                            term_width as int,
                            theme,
                        )
                    },
                    term_width,
                );
                (drawn + card.out, BatchView { previous_lines: card.lines as u16, ..taken })
            }
        }
    }
}

} // verus!
