//! The state of the terminal interface, and how blocks run.
//!
//! Processes are started and read by the caller; this state decides what starts
//! next and keeps what the blocks left behind.


use vstd::prelude::*;

use crate::captures::{
    captured_list, captured_of, captured_set, captured_wf, captured_with, captured_without,
    forget_captured, keep_captured, merged_envs, Captured, CapturedView,
};
use crate::code::{block_ids, valid_codes, Code, CodeId};
use crate::exec::Envs;
use crate::scheduler::{
    needed_blocks, planned, AdvanceResult, AdvanceView, DependencyGraph, Scheduler, SchedulerView,
};
use crate::text::{decimal, decimal_text};
use crate::tui::content::Content;
use crate::tui::dependencies::Dependencies;
use crate::tui::envs::EnvVars;
use crate::tui::layout::Area;
use crate::tui::notification::{FlashKind, FlashMessage, DEFAULT_DURATION};
use crate::tui::output::Output;
use crate::tui::overlay::Overlay;
use crate::tui::tasks::{statuses_of, Tasks};

verus! {

/// What the interface shows.
#[derive(Clone, Copy, Debug, PartialEq, Eq, Structural)]
pub enum Screen {
    /// The document.
    Home,
    /// The document, with keys going to the selected block's program.
    Input,
    /// The output of the selected block.
    Output,
}

/// What was asked for on the command line and in the user's settings.
pub struct Options {
    /// Run without asking.
    pub yes: bool,
    /// Run every block.
    pub all: bool,
    /// A block was asked for.
    pub block: bool,
    /// The document's file.
    pub file: Option<String>,
    pub transparent: bool,
    /// The directory that blocks run in, whatever blocks before them did.
    pub working_dir: Option<String>,
}

/// The terminal interface.
pub struct App {
    pub options: Options,
    pub content: Content,
    pub tasks: Tasks,
    pub screen: Screen,
    pub overlay: Option<Overlay>,
    pub zen: bool,
    pub auto_input_paused: bool,
    pub layout: Area,
    pub envs: EnvVars,
    /// Where the file picker looks for files, whichever was opened.
    pub file_picker_root: Option<String>,
    pub output: Output,
    pub workflow: Option<Scheduler>,
    pub captures: Vec<(CodeId, Captured)>,
    /// The graph of the latest plan, and whether it is shown.
    pub graph: Option<Dependencies>,
    pub graph_shown: bool,
    pub last_cwd: Option<String>,
    pub started: bool,
    pub notification: Option<FlashMessage>,
}

/// What changes while blocks run.
pub struct Flow {
    pub workflow: Option<SchedulerView>,
    pub envs: Map<Seq<char>, Seq<char>>,
    pub cwd: Option<Seq<char>>,
    pub pending: Seq<(CodeId, CapturedView)>,
}

/// What the caller has to do next.
pub enum Next {
    Nothing,
    /// Start the blocks of a batch.
    Launch(Vec<CodeId>),
    /// Start one block of the running batch.
    Start(CodeId),
}

/// What the caller has to do next.
pub enum NextView {
    Nothing,
    Launch(Seq<CodeId>),
    Start(CodeId),
}

impl View for Next {
    type V = NextView;

    open spec fn view(&self) -> NextView {
        match *self {
            Next::Nothing => NextView::Nothing,
            Next::Launch(ids) => NextView::Launch(ids@),
            Next::Start(id) => NextView::Start(id),
        }
    }
}

/// What follows from a change: what starts, what is selected, and what is
/// reported.
pub struct StepView {
    pub next: NextView,
    pub select: Option<CodeId>,
    pub error: Option<Seq<char>>,
}

/// Nothing but what comes next.
pub open spec fn only(next: NextView) -> StepView {
    StepView { next, select: None, error: None }
}

/// A text that may be missing.
pub open spec fn text_of(text: Option<String>) -> Option<Seq<char>> {
    match text {
        Some(text) => Some(text@),
        None => None,
    }
}

/// The last working directory that a block left behind, or the one before.
pub open spec fn latest_cwd(cwd: Option<Seq<char>>, pending: Seq<(CodeId, CapturedView)>) -> Option<
    Seq<char>,
>
    decreases pending.len(),
{
    if pending.len() == 0 {
        cwd
    } else {
        match pending.last().1.cwd {
            Some(captured) => Some(captured),
            None => latest_cwd(cwd, pending.drop_last()),
        }
    }
}

/// The report about a plan that a failure stops.
pub open spec fn stopped_text(block: CodeId) -> Seq<char> {
    "Block "@ + decimal_text(block as nat) + " failed - stopping dependency chain"@
}

impl Flow {
    /// A block has ended.
    pub open spec fn advanced(self, id: CodeId, exit_code: Option<i32>) -> (
        Flow,
        Option<AdvanceView>,
    ) {
        match self.workflow {
            None => (self, None),
            Some(workflow) => {
                let (after, result) = workflow.advance(id, exit_code);
                (Flow { workflow: Some(after), ..self }, Some(result))
            },
        }
    }

    /// What blocks left behind is taken over.
    pub open spec fn flushed(self) -> Flow {
        Flow {
            envs: merged_envs(self.envs, self.pending),
            cwd: latest_cwd(self.cwd, self.pending),
            pending: Seq::empty(),
            ..self
        }
    }

    /// The first block of a batch is selected where the plan runs all blocks; on
    /// the way to one block, that block stays selected.
    pub open spec fn selection(self, batch: Seq<CodeId>) -> Option<CodeId> {
        if batch.len() > 0 && !(self.workflow is Some
            && self.workflow->0.graph.target_view() is Some) {
            Some(batch[0])
        } else {
            None
        }
    }

    /// A batch begins: it runs where the plan runs by itself.
    pub open spec fn batch_begun(self, batch: Seq<CodeId>) -> StepView {
        StepView {
            next: if self.workflow is Some && self.workflow->0.auto_run {
                NextView::Launch(batch)
            } else {
                NextView::Nothing
            },
            select: self.selection(batch),
            error: None,
        }
    }

    /// What follows from the end of a block.
    pub open spec fn handled(self, result: AdvanceView) -> (Flow, StepView) {
        match result {
            AdvanceView::NextBatch(batch) => (self.flushed(), self.batch_begun(batch)),
            AdvanceView::Pending | AdvanceView::Untracked => (self, only(NextView::Nothing)),
            AdvanceView::Stopped(failure) => (
                Flow { workflow: None, ..self.flushed() },
                StepView {
                    next: NextView::Nothing,
                    select: None,
                    error: Some(stopped_text(failure.block)),
                },
            ),
            AdvanceView::Finished(failed) => (
                Flow { workflow: None, ..self.flushed() },
                only(NextView::Nothing),
            ),
        }
    }

    /// A block has ended, and what follows from it.
    pub open spec fn ended(self, id: CodeId, exit_code: Option<i32>) -> (Flow, StepView) {
        let (after, result) = self.advanced(id, exit_code);
        match result {
            Some(result) => after.handled(result),
            None => (after, only(NextView::Nothing)),
        }
    }

    /// A plan begins, or the reason why there is none is reported. A plan without
    /// work changes nothing.
    pub open spec fn planned(self, plan: Result<Scheduler, String>) -> (Flow, StepView) {
        match plan {
            Ok(workflow) => {
                let (begun, batch) = workflow@.start();
                match batch {
                    None => (self, only(NextView::Nothing)),
                    Some(ids) => {
                        let flow = Flow { workflow: Some(begun), ..self };
                        (flow, flow.batch_begun(ids))
                    },
                }
            },
            Err(error) => (
                self,
                StepView { next: NextView::Nothing, select: None, error: Some(error@) },
            ),
        }
    }

    /// The block has to execute.
    pub open spec fn executes(self, id: CodeId, succeeded: bool) -> bool {
        self.workflow is None || self.workflow->0.executes(id, succeeded)
    }

    /// The blocks of a batch execute, one after the other: those that need not are
    /// taken as successful, those that could not be started as failed. With the
    /// last result of a block that has ended that way.
    pub open spec fn launched(
        self,
        batch: Seq<CodeId>,
        succeeded: spec_fn(CodeId) -> bool,
        not_started: Seq<CodeId>,
    ) -> (Flow, Option<AdvanceView>)
        decreases batch.len(),
    {
        if batch.len() == 0 {
            (self, None)
        } else {
            let (flow, done) = self.launched(batch.drop_last(), succeeded, not_started);
            let id = batch.last();
            if !flow.executes(id, succeeded(id)) {
                flow.advanced(id, Some(0))
            } else if not_started.contains(id) {
                flow.advanced(id, Some(1))
            } else {
                (flow, done)
            }
        }
    }

    /// Something that a block left behind has arrived: it is taken over at once
    /// where no plan is running, else kept until the batch is over.
    pub open spec fn captured(
        self,
        id: CodeId,
        envs: Option<Map<Seq<char>, Seq<char>>>,
        cwd: Option<Seq<char>>,
    ) -> Flow {
        if self.workflow is None {
            Flow {
                envs: match envs {
                    Some(captured) => self.envs.union_prefer_right(captured),
                    None => self.envs,
                },
                cwd: match cwd {
                    Some(captured) => Some(captured),
                    None => self.cwd,
                },
                ..self
            }
        } else {
            let after = captured_with(captured_of(self.pending, id), envs, cwd);
            Flow { pending: captured_set(self.pending, id, after), ..self }
        }
    }
}

/// While a plan runs, what a block leaves behind is not seen by others until its
/// batch is over.
pub proof fn law_captures_wait_for_the_batch(
    flow: Flow,
    id: CodeId,
    envs: Option<Map<Seq<char>, Seq<char>>>,
    cwd: Option<Seq<char>>,
)
    requires
        flow.workflow is Some,
    ensures
        flow.captured(id, envs, cwd).envs == flow.envs,
        flow.captured(id, envs, cwd).cwd == flow.cwd,
        flow.captured(id, envs, cwd).workflow == flow.workflow,
{
}

/// Once a plan has stopped or is finished, nothing of it is left to run or to take
/// over, and a plan that stopped is reported.
pub proof fn law_plans_end_completely(flow: Flow, result: AdvanceView)
    requires
        result is Stopped || result is Finished,
    ensures
        flow.handled(result).0.workflow is None,
        flow.handled(result).0.pending.len() == 0,
        flow.handled(result).1.next == NextView::Nothing,
        flow.handled(result).1.error is Some <==> result is Stopped,
{
}

/// A report of an error.
pub open spec fn is_error(flash: Option<FlashMessage>, text: Seq<char>, now: u64) -> bool {
    &&& flash is Some
    &&& flash->0.text@ == text
    &&& flash->0.kind == FlashKind::Error
    &&& flash->0.expires_at == now + DEFAULT_DURATION
}

/// The graph of a block and what it depends on, or the reason why there is none.
pub open spec fn graph_of(
    codes: Seq<Code>,
    id: CodeId,
    graph: Result<DependencyGraph, String>,
) -> bool {
    match needed_blocks(codes, id) {
        Ok(selected) => planned(codes, selected, Some(id), graph),
        Err(message) => graph is Err && graph->Err_0@ == message,
    }
}

impl App {
    /// The parts of the state fit together.
    #[verifier::opaque]
    pub open spec fn wf(&self) -> bool {
        &&& self.content.wf()
        &&& valid_codes(self.content.preview.codes@)
        &&& self.tasks.wf()
        &&& self.envs.wf()
        &&& captured_wf(self.captures@)
        &&& self.workflow matches Some(workflow) ==> workflow.wf()
        &&& self.overlay matches Some(overlay) ==> overlay.wf()
    }

    /// What changes while blocks run.
    pub open spec fn flow(&self) -> Flow {
        Flow {
            workflow: match self.workflow {
                Some(workflow) => Some(workflow@),
                None => None,
            },
            envs: self.envs.items@.map,
            cwd: text_of(self.last_cwd),
            pending: captured_list(self.captures@),
        }
    }

    /// The variables are as before, but for their values.
    pub open spec fn same_but_values(&self, before: &App) -> bool {
        &&& self.envs.items@.term == before.envs.items@.term
        &&& self.envs.selected == before.envs.selected
        &&& self.envs.mode == before.envs.mode
        &&& self.envs.search == before.envs.search
        &&& self.envs.same_editor(&before.envs)
    }

    /// Everything but the flow is as before.
    pub open spec fn same_but_flow(&self, before: &App) -> bool {
        &&& *self == (App {
            workflow: self.workflow,
            envs: self.envs,
            last_cwd: self.last_cwd,
            captures: self.captures,
            ..*before
        })
        &&& self.same_but_values(before)
    }

    /// The state after a change of the flow and what follows from it: the selected
    /// block, and the report. Nothing else changes.
    pub open spec fn ran(&self, before: &App, outcome: (Flow, StepView), now: u64) -> bool {
        &&& self.flow() == outcome.0
        &&& match outcome.1.select {
            Some(id) => self.content.selects(&before.content, id),
            None => self.content == before.content,
        }
        &&& match outcome.1.error {
            Some(text) => is_error(self.notification, text, now),
            None => self.notification == before.notification,
        }
        &&& *self == (App {
            workflow: self.workflow,
            envs: self.envs,
            last_cwd: self.last_cwd,
            captures: self.captures,
            content: self.content,
            notification: self.notification,
            ..*before
        })
        &&& self.same_but_values(before)
    }

    /// The block ran before and succeeded.
    pub open spec fn succeeded(&self, id: CodeId) -> bool {
        self.tasks.at(id) is Some && self.tasks.at(id)->0.task.exit_code == Some(0i32)
    }

    /// Shows an error.
    pub fn notify_error(&mut self, text: &str, now: u64)
        requires
            now + DEFAULT_DURATION <= u64::MAX,
        ensures
            old(self).wf() ==> final(self).wf(),
            *final(self) == (App { notification: final(self).notification, ..*old(self) }),
            is_error(final(self).notification, text@, now),
    {
        proof {
            reveal(App::wf);
        }
        self.notification = Some(FlashMessage::error(text, now));
    }

    /// Records that a block has ended.
    fn advance_workflow(&mut self, id: CodeId, exit_code: Option<i32>) -> (result: Option<
        AdvanceResult,
    >)
        requires
            old(self).wf(),
        ensures
            final(self).wf(),
            *final(self) == (App { workflow: final(self).workflow, ..*old(self) }),
            final(self).flow() == old(self).flow().advanced(id, exit_code).0,
            match result {
                Some(result) => old(self).flow().advanced(id, exit_code).1 == Some(result@),
                None => old(self).flow().advanced(id, exit_code).1 is None,
            },
    {
        proof {
            reveal(App::wf);
        }
        match self.workflow.take() {
            None => None,
            Some(mut workflow) => {
                let result = workflow.advance(id, exit_code);
                self.workflow = Some(workflow);
                Some(result)
            },
        }
    }

    /// Takes over what the blocks of a batch left behind.
    fn flush_pending_states(&mut self)
        requires
            old(self).wf(),
        ensures
            final(self).wf(),
            final(self).same_but_flow(old(self)),
            final(self).workflow == old(self).workflow,
            final(self).flow() == old(self).flow().flushed(),
    {
        proof {
            reveal(App::wf);
        }
        let mut pending: Vec<(CodeId, Captured)> = Vec::new();
        pending.append(&mut self.captures);
        let ghost all = captured_list(pending@);
        assert(pending@ =~= old(self).captures@);
        assert(captured_list(self.captures@) =~= Seq::empty());
        let mut i: usize = 0;
        assert(merged_envs(self.envs.items@.map, all.take(0)) == self.envs.items@.map);
        while i < pending.len()
            invariant
                i <= pending@.len(),
                all == captured_list(pending@),
                captured_wf(pending@),
                old(self).wf(),
                self.envs.wf(),
                self.envs.items@.map == merged_envs(old(self).envs.items@.map, all.take(i as int)),
                text_of(self.last_cwd) == latest_cwd(text_of(old(self).last_cwd), all.take(i as int)),
                self.same_but_flow(old(self)),
                self.workflow == old(self).workflow,
                self.captures@.len() == 0,
            decreases pending@.len() - i,
        {
            proof {
                let longer = all.take(i + 1);
                assert(longer.drop_last() =~= all.take(i as int));
                assert(longer.last() == (pending@[i as int].0, pending@[i as int].1@));
            }
            if let Some(envs) = &pending[i].1.envs {
                self.envs.merge_envs(envs);
            }
            if let Some(cwd) = &pending[i].1.cwd {
                self.last_cwd = Some(cwd.clone());
            }
            i += 1;
        }
        assert(all.take(i as int) =~= all);
        assert(captured_list(self.captures@) =~= Seq::empty());
    }

    /// Selects the first block of a batch, unless the plan is for one block.
    fn select_batch(&mut self, batch: &Vec<CodeId>)
        requires
            old(self).wf(),
        ensures
            final(self).wf(),
            *final(self) == (App { content: final(self).content, ..*old(self) }),
            match old(self).flow().selection(batch@) {
                Some(id) => final(self).content.selects(&old(self).content, id),
                None => final(self).content == old(self).content,
            },
    {
        proof {
            reveal(App::wf);
        }
        let has_target = match &self.workflow {
            Some(workflow) => workflow.target().is_some(),
            None => false,
        };
        if has_target {
            return ;
        }
        if batch.len() > 0 {
            self.content.select_code(batch[0]);
        }
    }

    /// Decides what follows from the end of a block.
    #[verifier::spinoff_prover]
    #[verifier::rlimit(60)]
    pub fn handle_advance(&mut self, result: AdvanceResult, now: u64) -> (next: Next)
        requires
            old(self).wf(),
            now + DEFAULT_DURATION <= u64::MAX,
        ensures
            final(self).wf(),
            final(self).ran(old(self), old(self).flow().handled(result@), now),
            next@ == old(self).flow().handled(result@).1.next,
    {
        proof {
            reveal(App::wf);
        }
        match result {
            AdvanceResult::NextBatch(batch) => {
                self.flush_pending_states();
                self.select_batch(&batch);
                let auto_run = match &self.workflow {
                    Some(workflow) => workflow.auto_run(),
                    None => false,
                };
                if auto_run {
                    Next::Launch(batch)
                } else {
                    Next::Nothing
                }
            },
            AdvanceResult::Pending | AdvanceResult::Untracked => Next::Nothing,
            AdvanceResult::Stopped(failure) => {
                self.flush_pending_states();
                self.workflow = None;
                let mut message = "Block ".to_owned();
                message.append(decimal(failure.block as u64).as_str());
                message.append(" failed - stopping dependency chain");
                self.notify_error(message.as_str(), now);
                Next::Nothing
            },
            AdvanceResult::Finished { .. } => {
                self.flush_pending_states();
                self.workflow = None;
                Next::Nothing
            },
        }
    }

    /// Whether the block has to execute.
    fn should_execute(&self, id: CodeId) -> (yes: bool)
        ensures
            yes == self.flow().executes(id, self.succeeded(id)),
    {
        let succeeded = match self.tasks.get(id) {
            Some(output) => output.task.exit_code == Some(0),
            None => false,
        };
        match &self.workflow {
            Some(workflow) => workflow.should_execute(id, succeeded),
            None => true,
        }
    }

    /// The blocks of a batch that the caller has to start.
    pub fn blocks_to_start(&self, batch: &Vec<CodeId>) -> (ids: Vec<CodeId>)
        ensures
            ids@ == batch@.filter(|id: CodeId| self.flow().executes(id, self.succeeded(id))),
    {
        let mut ids: Vec<CodeId> = Vec::new();
        let ghost keep = |id: CodeId| self.flow().executes(id, self.succeeded(id));
        let mut i: usize = 0;
        while i < batch.len()
            invariant
                i <= batch@.len(),
                keep == (|id: CodeId| self.flow().executes(id, self.succeeded(id))),
                ids@ == batch@.take(i as int).filter(keep),
            decreases batch@.len() - i,
        {
            proof {
                crate::seqs::lemma_take_contains(batch@, i as int);
                crate::seqs::lemma_filter_push(batch@.take(i as int), batch@[i as int], keep);
            }
            if self.should_execute(batch[i]) {
                ids.push(batch[i]);
            }
            i += 1;
        }
        assert(batch@.take(i as int) =~= batch@);
        ids
    }

    /// Decides what follows once the caller has started the blocks of a batch.
    /// Blocks that need not execute count as successful, those in `not_started` as
    /// failed.
    pub fn launch_batch(&mut self, batch: &Vec<CodeId>, not_started: &Vec<CodeId>, now: u64) -> (next:
        Next)
        requires
            old(self).wf(),
            now + DEFAULT_DURATION <= u64::MAX,
        ensures
            final(self).wf(),
            ({
                let (flow, done) = old(self).flow().launched(
                    batch@,
                    |id: CodeId| old(self).succeeded(id),
                    not_started@,
                );
                let outcome = match done {
                    Some(result) => flow.handled(result),
                    None => (flow, only(NextView::Nothing)),
                };
                final(self).ran(old(self), outcome, now) && next@ == outcome.1.next
            }),
    {
        proof {
            reveal(App::wf);
        }
        let ghost succeeded = |id: CodeId| old(self).succeeded(id);
        let mut completed: Option<AdvanceResult> = None;
        let mut i: usize = 0;
        assert(batch@.take(0) =~= Seq::empty());
        while i < batch.len()
            invariant
                i <= batch@.len(),
                self.wf(),
                *self == (App { workflow: self.workflow, ..*old(self) }),
                succeeded == (|id: CodeId| old(self).succeeded(id)),
                self.flow() == old(self).flow().launched(
                    batch@.take(i as int),
                    succeeded,
                    not_started@,
                ).0,
                old(self).flow().launched(batch@.take(i as int), succeeded, not_started@).1 == (
                match completed {
                    Some(result) => Some(result@),
                    None => None,
                }),
            decreases batch@.len() - i,
        {
            let id = batch[i];
            proof {
                let longer = batch@.take(i + 1);
                assert(longer.drop_last() =~= batch@.take(i as int));
                assert(longer.last() == id);
                assert(succeeded(id) == self.succeeded(id));
            }
            if !self.should_execute(id) {
                completed = self.advance_workflow(id, Some(0));
            } else if crate::cli::output::holds(not_started, id) {
                completed = self.advance_workflow(id, Some(1));
            }
            i += 1;
        }
        assert(batch@.take(i as int) =~= batch@);
        match completed {
            Some(result) => self.handle_advance(result, now),
            None => Next::Nothing,
        }
    }

    /// Notes that a block of the running batch could not be started.
    pub fn start_failed(&mut self, id: CodeId, now: u64) -> (next: Next)
        requires
            old(self).wf(),
            now + DEFAULT_DURATION <= u64::MAX,
        ensures
            final(self).wf(),
            final(self).ran(old(self), old(self).flow().ended(id, Some(1)), now),
            next@ == old(self).flow().ended(id, Some(1)).1.next,
    {
        proof {
            reveal(App::wf);
        }
        match self.advance_workflow(id, Some(1)) {
            Some(result) => self.handle_advance(result, now),
            None => Next::Nothing,
        }
    }

    /// A plan begins, and its graph is drawn from then on; or the reason why there
    /// is none is reported.
    pub open spec fn plan_begun(
        &self,
        before: &App,
        plan: Result<Scheduler, String>,
        graph: Result<DependencyGraph, String>,
        now: u64,
    ) -> bool {
        &&& (App { graph: before.graph, ..*self }).ran(before, before.flow().planned(plan), now)
        &&& if plan is Ok && plan->Ok_0@.start().1 is Some {
            &&& self.graph is Some
            &&& self.graph->0.opened(
                "Workflow"@,
                before.content.preview.codes@,
                Some(graph),
                "No active workflow"@,
                statuses_of(before.tasks.outputs@),
            )
        } else {
            self.graph == before.graph
        }
    }

    /// Begins a plan, or reports why there is none.
    fn start_plan(
        &mut self,
        plan: Result<Scheduler, String>,
        graph: Result<DependencyGraph, String>,
        now: u64,
    ) -> (next: Next)
        requires
            old(self).wf(),
            plan matches Ok(workflow) ==> workflow.wf(),
            now + DEFAULT_DURATION <= u64::MAX,
        ensures
            final(self).wf(),
            final(self).plan_begun(old(self), plan, graph, now),
            next@ == old(self).flow().planned(plan).1.next,
    {
        proof {
            reveal(App::wf);
        }
        match plan {
            Ok(workflow) => {
                let mut workflow = workflow;
                match workflow.start() {
                    None => Next::Nothing,
                    Some(batch) => {
                        let auto_run = workflow.auto_run();
                        let drawn = Dependencies::new(
                            "Workflow",
                            self.content.codes().as_slice(),
                            Some(graph),
                            "No active workflow",
                            self.tasks.task_statuses(),
                        );
                        self.workflow = Some(workflow);
                        self.select_batch(&batch);
                        let ghost selected = *self;
                        self.graph = Some(drawn);
                        assert((App { graph: old(self).graph, ..*self }) == selected);
                        if auto_run {
                            Next::Launch(batch)
                        } else {
                            Next::Nothing
                        }
                    },
                }
            },
            Err(error) => {
                self.notify_error(error.as_str(), now);
                Next::Nothing
            },
        }
    }

    /// All blocks were asked to run.
    pub open spec fn all_begun(&self, before: &App, next: NextView, now: u64) -> bool {
        let codes = before.content.preview.codes@;
        exists|plan: Result<Scheduler, String>, graph: Result<DependencyGraph, String>|
            {
                &&& #[trigger] Scheduler::built_all(codes, before.options.yes, plan)
                &&& #[trigger] planned(codes, block_ids(codes).to_set(), None, graph)
                &&& self.plan_begun(before, plan, graph, now)
                &&& next == before.flow().planned(plan).1.next
            }
    }

    /// Runs every block.
    pub fn start_all(&mut self, now: u64) -> (next: Next)
        requires
            old(self).wf(),
            now + DEFAULT_DURATION <= u64::MAX,
        ensures
            final(self).wf(),
            final(self).all_begun(old(self), next@, now),
    {
        proof {
            reveal(App::wf);
        }
        let plan = Scheduler::for_all(self.content.codes().as_slice(), self.options.yes);
        let graph = DependencyGraph::for_all(self.content.codes().as_slice());
        self.start_plan(plan, graph, now)
    }

    /// A block and what it depends on were asked to run.
    #[verifier::opaque]
    pub open spec fn targeted(
        &self,
        before: &App,
        id: CodeId,
        skip_succeeded: bool,
        next: NextView,
        now: u64,
    ) -> bool {
        let codes = before.content.preview.codes@;
        exists|plan: Result<Scheduler, String>, graph: Result<DependencyGraph, String>|
            {
                &&& #[trigger] Scheduler::built_for(codes, id, skip_succeeded, plan)
                &&& #[trigger] graph_of(codes, id, graph)
                &&& self.plan_begun(before, plan, graph, now)
                &&& next == before.flow().planned(plan).1.next
            }
    }

    /// Runs a block and what it depends on; what succeeded before is not run
    /// again.
    pub fn start_target(&mut self, id: CodeId, now: u64) -> (next: Next)
        requires
            old(self).wf(),
            now + DEFAULT_DURATION <= u64::MAX,
        ensures
            final(self).wf(),
            final(self).targeted(old(self), id, true, next@, now),
    {
        proof {
            reveal(App::wf);
            reveal(App::targeted);
        }
        let plan = Scheduler::for_target(self.content.codes().as_slice(), id);
        let graph = DependencyGraph::for_target(self.content.codes().as_slice(), id);
        assert(graph_of(self.content.preview.codes@, id, graph));
        self.start_plan(plan, graph, now)
    }

    /// Runs a block and all that it depends on.
    pub fn rerun_target(&mut self, id: CodeId, now: u64) -> (next: Next)
        requires
            old(self).wf(),
            now + DEFAULT_DURATION <= u64::MAX,
        ensures
            final(self).wf(),
            final(self).targeted(old(self), id, false, next@, now),
    {
        proof {
            reveal(App::wf);
            reveal(App::targeted);
        }
        let plan = Scheduler::for_target_rerun(self.content.codes().as_slice(), id);
        let graph = DependencyGraph::for_target(self.content.codes().as_slice(), id);
        assert(graph_of(self.content.preview.codes@, id, graph));
        self.start_plan(plan, graph, now)
    }

    /// A block was asked to run: one of the running batch at once, no other while a
    /// plan runs, else with what it depends on.
    pub open spec fn executed(&self, before: &App, id: CodeId, next: NextView, now: u64) -> bool {
        match before.flow().workflow {
            Some(workflow) => *self == *before && next == (if workflow.running.contains(id) {
                NextView::Start(id)
            } else {
                NextView::Nothing
            }),
            None => self.targeted(before, id, true, next, now),
        }
    }

    /// Runs a block.
    pub fn execute(&mut self, id: CodeId, now: u64) -> (next: Next)
        requires
            old(self).wf(),
            now + DEFAULT_DURATION <= u64::MAX,
        ensures
            final(self).wf(),
            final(self).executed(old(self), id, next@, now),
    {
        proof {
            reveal(App::wf);
        }
        if let Some(workflow) = &self.workflow {
            return if workflow.is_running(id) {
                Next::Start(id)
            } else {
                Next::Nothing
            };
        }
        self.start_target(id, now)
    }

    /// Keeps what a block left behind, or takes it over.
    fn capture(&mut self, id: CodeId, envs: Option<Envs>, cwd: Option<String>)
        requires
            old(self).wf(),
            envs matches Some(captured) ==> captured.wf(),
        ensures
            final(self).wf(),
            final(self).same_but_flow(old(self)),
            final(self).workflow == old(self).workflow,
            final(self).flow() == old(self).flow().captured(
                id,
                match envs {
                    Some(captured) => Some(captured@),
                    None => None,
                },
                text_of(cwd),
            ),
    {
        proof {
            reveal(App::wf);
        }
        if self.workflow.is_none() {
            if let Some(captured) = envs {
                self.envs.merge_envs(&captured);
            }
            if let Some(captured) = cwd {
                self.last_cwd = Some(captured);
            }
            return ;
        }
        keep_captured(&mut self.captures, id, envs, cwd);
    }

    /// What a message of a block changes in the flow.
    pub open spec fn stream_flow(
        flow: Flow,
        known: bool,
        id: CodeId,
        stream: crate::exec::Stream,
        exit_code: Option<i32>,
    ) -> (Flow, StepView) {
        match stream {
            crate::exec::Stream::Env(envs) => (
                flow.captured(
                    id,
                    if known {
                        Some(envs@)
                    } else {
                        None
                    },
                    None,
                ),
                only(NextView::Nothing),
            ),
            crate::exec::Stream::Cwd(cwd) => (
                flow.captured(
                    id,
                    None,
                    if known {
                        Some(cwd@)
                    } else {
                        None
                    },
                ),
                only(NextView::Nothing),
            ),
            crate::exec::Stream::End => {
                let kept = if exit_code == Some(0i32) {
                    flow
                } else {
                    Flow { pending: captured_without(flow.pending, id), ..flow }
                };
                kept.ended(id, exit_code)
            },
            _ => (flow, only(NextView::Nothing)),
        }
    }

    /// Applies what a message of a block changes in the flow; `known` tells whether
    /// the block has a task, `exit_code` how it ended.
    #[verifier::spinoff_prover]
    #[verifier::rlimit(60)]
    pub(crate) fn stream_to_flow(
        &mut self,
        id: CodeId,
        stream: &crate::exec::Stream,
        known: bool,
        exit_code: Option<i32>,
        now: u64,
    ) -> (next: Next)
        requires
            old(self).wf(),
            stream matches crate::exec::Stream::Env(envs) ==> envs.wf(),
            now + DEFAULT_DURATION <= u64::MAX,
        ensures
            final(self).wf(),
            final(self).ran(
                old(self),
                App::stream_flow(old(self).flow(), known, id, *stream, exit_code),
                now,
            ),
            next@ == App::stream_flow(old(self).flow(), known, id, *stream, exit_code).1.next,
    {
        proof {
            reveal(App::wf);
        }
        match stream {
            crate::exec::Stream::Env(envs) => {
                let captured = if known {
                    Some(envs.copy())
                } else {
                    None
                };
                self.capture(id, captured, None);
                Next::Nothing
            },
            crate::exec::Stream::Cwd(cwd) => {
                let captured = if known {
                    Some(cwd.clone())
                } else {
                    None
                };
                self.capture(id, None, captured);
                Next::Nothing
            },
            crate::exec::Stream::End => {
                if exit_code != Some(0) {
                    forget_captured(&mut self.captures, id);
                }
                match self.advance_workflow(id, exit_code) {
                    Some(result) => self.handle_advance(result, now),
                    None => Next::Nothing,
                }
            },
            _ => Next::Nothing,
        }
    }
}

} // verus!
