//! Which block is selected, and which blocks are started.

use vstd::prelude::*;

use super::app::{
    first_among, first_listed, first_wanted, moved_to, next_focus, place_of, place_or, App, Flow, NextView,
    StepView,
};
use super::output::{first_place, is_first_place, lemma_has_first_place, BatchView};
use crate::code::{valid_codes, Code, CodeId};
use crate::navigation::Navigation;
use crate::scheduler::{AdvanceView, Scheduler, SchedulerView};

verus! {

/// `Next` and `Prev` go to the neighbours and stop at the ends; `First` and `Last` go to
/// the ends; a page is five blocks, or as many as there are. Going back undoes going on.
pub proof fn law_moves_go_where_they_say(selected: int, total: int, other: int)
    requires
        0 <= selected < total,
        0 <= other < total,
    ensures
        selected + 1 < total ==> moved_to(Navigation::Next, selected, total) == selected + 1,
        selected + 1 == total ==> moved_to(Navigation::Next, selected, total) == selected,
        selected > 0 ==> moved_to(Navigation::Prev, selected, total) == selected - 1,
        selected == 0 ==> moved_to(Navigation::Prev, selected, total) == 0,
        selected + 1 < total ==> moved_to(
            Navigation::Prev,
            moved_to(Navigation::Next, selected, total),
            total,
        ) == selected,
        moved_to(Navigation::First, selected, total) <= other,
        moved_to(Navigation::Last, selected, total) >= other,
        selected + 5 < total ==> moved_to(Navigation::PageDown, selected, total) - selected == 5,
        selected + 5 >= total ==> moved_to(Navigation::PageDown, selected, total) >= other,
        selected >= 5 ==> selected - moved_to(Navigation::PageUp, selected, total) == 5,
        selected < 5 ==> moved_to(Navigation::PageUp, selected, total) <= other,
        forall|nav: Navigation| 0 <= #[trigger] moved_to(nav, selected, total) < total,
{
}

/// The first block of the document that was asked for is selected; the first of all
/// where none was, or the document lacks them.
pub proof fn law_the_block_asked_for_is_selected(codes: Seq<Code>, wanted: Vec<CodeId>, k: int)
    requires
        0 <= k < codes.len(),
        wanted@.contains(codes[k].id),
    ensures
        ({
            let first = first_wanted(codes, Some(wanted));
            &&& 0 <= first <= k
            &&& wanted@.contains(codes[first].id)
            &&& forall|j: int| 0 <= j < first ==> !wanted@.contains((#[trigger] codes[j]).id)
        }),
        first_wanted(codes, None) == 0,
{
    lemma_first_among(codes, wanted@, k);
    let first = first_listed(codes, wanted@);
    assert(first_among(codes, wanted@, first));
    if first > k {
        assert(!wanted@.contains(codes[k].id));
    }
}

proof fn lemma_first_among(codes: Seq<Code>, ids: Seq<CodeId>, k: int)
    requires
        0 <= k < codes.len(),
        ids.contains(codes[k].id),
    ensures
        exists|i: int| first_among(codes, ids, i),
    decreases k,
{
    if exists|j: int| 0 <= j < k && ids.contains((#[trigger] codes[j]).id) {
        let j = choose|j: int| 0 <= j < k && ids.contains((#[trigger] codes[j]).id);
        lemma_first_among(codes, ids, j);
    } else {
        assert(first_among(codes, ids, k));
    }
}

proof fn lemma_place(codes: Seq<Code>, k: int)
    requires
        valid_codes(codes),
        0 <= k < codes.len(),
    ensures
        place_or(codes, codes[k].id, 0) == k,
        forall|otherwise: int| #[trigger] place_or(codes, codes[k].id, otherwise) == k,
{
    let id = codes[k].id;
    assert forall|j: int| 0 <= j < k implies (#[trigger] codes[j]).id != id by {
        assert(codes[j].id != codes[k].id);
    }
    assert(place_of(codes, id, k));
    let i = choose|i: int| place_of(codes, id, i);
    if i < k {
        assert(codes[i].id != id);
    }
    if i > k {
        assert(codes[k].id != id);
    }
}

/// The focus goes from each block that executes to the one after it, and from the last
/// back to the first. A block that does not execute keeps the focus.
pub proof fn law_the_focus_goes_round(codes: Seq<Code>, visible: Seq<CodeId>, i: int, at: int, to: int)
    requires
        valid_codes(codes),
        visible.no_duplicates(),
        0 <= i < visible.len(),
        0 <= at < codes.len(),
        codes[at].id == visible[i],
        0 <= to < codes.len(),
        codes[to].id == visible[if i + 1 < visible.len() {
            i + 1
        } else {
            0
        }],
    ensures
        next_focus(codes, visible, at) == to,
{
    lemma_has_first_place(visible, visible[i], i + 1);
    let first = first_place(visible, visible[i]);
    assert(is_first_place(visible, visible[i], first));
    assert(visible[first] == visible[i]);
    assert(first == i);
    let n = visible.len() as int;
    assert((i + 1) % n == (if i + 1 < n { i + 1 } else { 0 })) by (nonlinear_arith)
        requires
            0 <= i < n,
    ;
    assert(visible.contains(visible[i]));
    lemma_place(codes, to);
}

/// A block outside of what executes keeps the focus.
pub proof fn law_other_blocks_keep_the_focus(codes: Seq<Code>, visible: Seq<CodeId>, at: int)
    requires
        0 <= at < codes.len(),
        !visible.contains(codes[at].id),
    ensures
        next_focus(codes, visible, at) == at,
{
}

impl Flow {
    /// Once a batch is selected, its first block is the selected one, and nothing of it
    /// executes yet.
    pub proof fn law_the_first_block_of_a_batch_is_selected(
        self,
        codes: Seq<Code>,
        batch: Seq<CodeId>,
        k: int,
    )
        requires
            valid_codes(codes),
            batch.len() > 0,
            0 <= k < codes.len(),
            codes[k].id == batch[0],
        ensures
            self.batch_selected(codes, batch).selected == k,
            self.batch_selected(codes, batch).output.scheduled == batch,
            self.batch_selected(codes, batch).output.visible.len() == 0,
            self.batch_selected(codes, batch).envs == self.envs,
            self.batch_selected(codes, batch).workflow == self.workflow,
    {
        lemma_place(codes, k);
    }

    /// A plan that runs by itself launches its first batch at once; another one waits.
    /// One without work changes nothing, and quits where it would run by itself.
    pub proof fn law_plans_begin(self, codes: Seq<Code>, workflow: SchedulerView)
        ensures
            ({
                let (after, step) = self.begun(codes, workflow);
                &&& workflow.start().1 matches Some(batch) ==> after.workflow == Some(
                    workflow.start().0,
                ) && (step.next == NextView::Launch(batch) <==> workflow.auto_run) && (step.next
                    == NextView::Nothing <==> !workflow.auto_run)
                &&& workflow.start().1 is None ==> after == self && (step.next == NextView::Quit
                    <==> workflow.auto_run)
                &&& after.envs == self.envs
                &&& after.cwd == self.cwd
                &&& after.failed == self.failed
                &&& step.message is None
            }),
    {
    }

    /// Where there is no plan, the reason is reported; an unattended run has then failed
    /// and quits, and nothing runs.
    pub proof fn law_missing_plans_are_reported(self, yes: bool, error: Seq<char>)
        ensures
            self.plan_failed(yes, error).1.message == Some(error),
            yes ==> self.plan_failed(yes, error).0.failed,
            yes <==> self.plan_failed(yes, error).1.next == NextView::Quit,
            !yes ==> self.plan_failed(yes, error).0 == self,
            self.plan_failed(yes, error).0.workflow == self.workflow,
    {
    }
}

impl App {
    /// While a plan runs, a block is started only as one of its running batch. Else the
    /// plan that begins is the one for that block: it works toward it, and holds it.
    pub proof fn law_blocks_run_within_plans(
        flow: Flow,
        codes: Seq<Code>,
        yes: bool,
        id: CodeId,
        after: Flow,
        step: StepView,
    )
        requires
            App::asked_for(flow, codes, yes, id, after, step),
        ensures
            flow.workflow is Some ==> after == flow && (step.next == NextView::Start(id)
                <==> flow.workflow->0.running.contains(id)) && (step.next == NextView::Start(id)
                || step.next == NextView::Nothing),
            flow.workflow is None && after.workflow is Some
                ==> after.workflow->0.graph.target_view() == Some(id),
    {
        if flow.workflow is None {
            let plan = choose|plan: Result<Scheduler, String>|
                {
                    &&& #[trigger] Scheduler::built_for(codes, id, true, plan)
                    &&& (after, step) == flow.planned(codes, yes, plan)
                };
            if plan is Ok {
                let workflow = plan->Ok_0@;
                assert(workflow.start().0.graph == workflow.graph);
            }
        }
    }
}

impl BatchView {
    /// A block is shown once it executes, behind those that did before, once, and only
    /// where it belongs to the batch.
    pub proof fn law_executing_blocks_are_shown_once(self, id: CodeId, other: CodeId)
        ensures
            self.scheduled.contains(id) ==> self.tracking(id).visible.contains(id),
            self.tracking(id).tracking(id) == self.tracking(id),
            !self.scheduled.contains(id) ==> self.tracking(id) == self,
            self.scheduled.contains(id) && !self.visible.contains(id)
                ==> self.tracking(id).visible.last() == id && self.tracking(id).visible.len()
                == self.visible.len() + 1,
            self.visible.contains(other) ==> self.tracking(id).visible.contains(other),
            self.tracking(id).pending == self.pending,
    {
        let after = self.tracking(id).visible;
        if self.scheduled.contains(id) && !self.visible.contains(id) {
            assert(after[after.len() - 1] == id);
        }
        if self.visible.contains(other) {
            let k = self.visible.index_of(other);
            assert(after[k] == other);
        }
    }

    /// A batch that is over is kept for its transcript behind those before it, as far as
    /// its blocks executed; while it is not over nothing is.
    pub proof fn law_finished_batches_are_kept(self, result: AdvanceView)
        ensures
            result is Pending || result is Untracked ==> self.completed(result) == self,
            !(result is Pending) && !(result is Untracked) ==> {
                let after = self.completed(result);
                &&& after.visible.len() == 0
                &&& after.scheduled.len() == 0
                &&& self.visible.len() > 0 ==> after.pending.len() == self.pending.len() + 1
                    && after.pending.last() == self.visible && after.pending.drop_last()
                    == self.pending
                &&& self.visible.len() == 0 ==> after.pending == self.pending
            },
            self.completed(result).terminal == self.terminal,
            self.completed(result).previous_lines == self.previous_lines,
    {
        assert(self.pending.push(self.visible).drop_last() =~= self.pending);
    }
}

} // verus!
