//! What blocks hand on to the blocks after them.

use vstd::prelude::*;

use super::app::{App, Flow, NextView, StepView};
use crate::captures::{
    captured_list, captured_of, captured_set, captured_with, law_captures_are_handed_on,
    law_directories_are_handed_on, law_forgotten_captures_are_not_handed_on,
    law_forgotten_directories_are_not_handed_on, lemma_set_entries, no_other_moves, no_other_sets,
    none_behind_moves, none_behind_sets, numbers_ascend, sets,
};
use crate::code::CodeId;
use crate::exec::{Envs, Stream};
use crate::scheduler::AdvanceView;

verus! {

/// A block ended its batch.
pub open spec fn ends_batch(result: AdvanceView) -> bool {
    !(result is Pending) && !(result is Untracked)
}

/// A variable is set as before, or missing as before.
pub open spec fn same_variable(
    after: Map<Seq<char>, Seq<char>>,
    before: Map<Seq<char>, Seq<char>>,
    name: Seq<char>,
) -> bool {
    &&& after.contains_key(name) <==> before.contains_key(name)
    &&& before.contains_key(name) ==> after[name] == before[name]
}

impl App {
    proof fn lemma_pending_ascends(self)
        requires
            self.wf(),
        ensures
            numbers_ascend(self.flow().pending),
    {
        let list = captured_list(self.pending_states@);
        assert forall|i: int, j: int| 0 <= i < j < list.len() implies (#[trigger] list[i]).0 < (
        #[trigger] list[j]).0 by {
            assert(self.pending_states@[i].0 < self.pending_states@[j].0);
        }
    }

    /// A block of a plan exports variables and ends its batch. Where it succeeded, they
    /// are set from then on, unless a block of the batch with a higher number set the
    /// same, and the next blocks are launched with them. Where it failed, nothing
    /// changes on its account.
    pub proof fn law_exports_reach_the_next_blocks(
        start: App,
        exported: App,
        exited: App,
        ended: App,
        id: CodeId,
        envs: Envs,
        code: i32,
        steps: (StepView, StepView, StepView),
        name: Seq<char>,
    )
        requires
            start.wf(),
            start.workflow is Some,
            start.outputs@.contains_key(id),
            exported.took(&start, id, Stream::Env(envs), steps.0),
            exited.took(&exported, id, Stream::Exit(code), steps.1),
            ended.took(&exited, id, Stream::End, steps.2),
            ends_batch(start.workflow->0@.advance(id, Some(code)).1),
        ensures
            code == 0 && envs@.contains_key(name) && none_behind_sets(
                start.flow().pending,
                id,
                name,
            ) ==> ended.envs@.contains_key(name) && ended.envs@[name] == envs@[name],
            code == 0 && !envs@.contains_key(name) && no_other_sets(start.flow().pending, id, name)
                ==> same_variable(ended.envs@, start.envs@, name),
            code != 0 && no_other_sets(start.flow().pending, id, name) ==> same_variable(
                ended.envs@,
                start.envs@,
                name,
            ),
            start.workflow->0@.auto_run ==> (start.workflow->0@.advance(
                id,
                Some(code),
            ).1 matches AdvanceView::NextBatch(batch) ==> steps.2.next == NextView::Launch(batch)),
    {
        start.lemma_pending_ascends();
        let pending = start.flow().pending;
        let captured = captured_with(captured_of(pending, id), Some(envs@), None);
        lemma_set_entries(pending, id, captured);
        let kept = captured_set(pending, id, captured);
        assert(exported.flow().pending == kept);
        assert(exited.flow() == exported.flow());
        assert(exited.outputs@[id].task.exit_code == Some(code));
        if code == 0 {
            law_captures_are_handed_on(start.envs@, pending, id, envs@, name);
        } else {
            if no_other_sets(pending, id, name) {
                assert forall|i: int|
                    0 <= i < kept.len() && (#[trigger] kept[i]).0 != id implies !sets(
                    kept[i].1,
                    name,
                ) by {
                    let k = pending.index_of(kept[i]);
                    assert(pending[k] == kept[i]);
                }
                law_forgotten_captures_are_not_handed_on(start.envs@, kept, id, name, 0);
            }
        }
    }

    /// A block of a plan leaves a working directory behind and ends its batch: where it
    /// succeeded, that is the working directory from then on, unless a block of the
    /// batch with a higher number left another; where it failed, nothing changes on its
    /// account.
    pub proof fn law_directories_reach_the_next_blocks(
        start: App,
        moved: App,
        exited: App,
        ended: App,
        id: CodeId,
        cwd: String,
        code: i32,
        steps: (StepView, StepView, StepView),
    )
        requires
            start.wf(),
            start.workflow is Some,
            start.outputs@.contains_key(id),
            moved.took(&start, id, Stream::Cwd(cwd), steps.0),
            exited.took(&moved, id, Stream::Exit(code), steps.1),
            ended.took(&exited, id, Stream::End, steps.2),
            ends_batch(start.workflow->0@.advance(id, Some(code)).1),
        ensures
            code == 0 && none_behind_moves(start.flow().pending, id) ==> ended.cwd@ == cwd@,
            code != 0 && no_other_moves(start.flow().pending, id) ==> ended.cwd@ == start.cwd@,
    {
        start.lemma_pending_ascends();
        let pending = start.flow().pending;
        let captured = captured_with(captured_of(pending, id), None, Some(cwd@));
        lemma_set_entries(pending, id, captured);
        let kept = captured_set(pending, id, captured);
        assert(moved.flow().pending == kept);
        assert(exited.flow() == moved.flow());
        assert(exited.outputs@[id].task.exit_code == Some(code));
        if code == 0 {
            if none_behind_moves(pending, id) {
                law_directories_are_handed_on(start.cwd@, pending, id, cwd@);
            }
        } else if no_other_moves(pending, id) {
            assert forall|i: int|
                0 <= i < kept.len() && (#[trigger] kept[i]).0 != id implies kept[i].1.cwd is None by {
                let k = pending.index_of(kept[i]);
                assert(pending[k] == kept[i]);
            }
            law_forgotten_directories_are_not_handed_on(start.cwd@, kept, id);
        }
    }

    /// Outside of a plan, what a block exports counts at once.
    pub proof fn law_exports_count_at_once_without_a_plan(
        start: App,
        exported: App,
        id: CodeId,
        envs: Envs,
        step: StepView,
        name: Seq<char>,
    )
        requires
            start.workflow is None,
            start.outputs@.contains_key(id),
            exported.took(&start, id, Stream::Env(envs), step),
        ensures
            envs@.contains_key(name) ==> exported.envs@.contains_key(name) && exported.envs@[name]
                == envs@[name],
            !envs@.contains_key(name) ==> same_variable(exported.envs@, start.envs@, name),
            exported.cwd@ == start.cwd@,
    {
    }
}

/// While a plan runs, what a block leaves behind is not seen by others until its batch
/// is over.
pub proof fn law_captures_wait_for_the_batch(
    flow: Flow,
    id: CodeId,
    envs: Option<Map<Seq<char>, Seq<char>>>,
    cwd: Option<Seq<char>>,
)
    requires
        flow.workflow is Some,
    ensures
        flow.captured(id, envs, cwd).envs == flow.envs,
        flow.captured(id, envs, cwd).cwd == flow.cwd,
        flow.captured(id, envs, cwd).workflow == flow.workflow,
{
}

} // verus!
