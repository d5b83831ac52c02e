//! What blocks hand on to the blocks after them.

use vstd::prelude::*;

use super::flow::{latest_cwd, App, Flow, NextView};
use crate::captures::{
    captured_of, captured_set, captured_with, captured_without, law_captures_are_handed_on,
    law_forgotten_captures_are_not_handed_on, lemma_set_entries, lemma_without_entries,
    no_other_moves, no_other_sets, none_behind_moves, none_behind_sets, numbers_ascend, sets,
    CapturedView,
};
use crate::cli::handover::{ends_batch, same_variable};
use crate::code::CodeId;
use crate::exec::{Envs, Stream};
use crate::scheduler::AdvanceView;

verus! {

/// The last working directory that was left behind counts.
pub proof fn law_last_directory_counts(
    cwd: Option<Seq<char>>,
    pending: Seq<(CodeId, CapturedView)>,
    i: int,
)
    requires
        0 <= i < pending.len() ==> pending[i].1.cwd is Some,
        -1 <= i < pending.len(),
        forall|k: int| i < k < pending.len() ==> (#[trigger] pending[k]).1.cwd is None,
    ensures
        latest_cwd(cwd, pending) == (if i < 0 {
            cwd
        } else {
            pending[i].1.cwd
        }),
    decreases pending.len(),
{
    if pending.len() > 0 && i < pending.len() - 1 {
        let before = pending.drop_last();
        assert(pending[pending.len() - 1].1.cwd is None);
        assert forall|k: int| i < k < before.len() implies (#[trigger] before[k]).1.cwd is None by {
            assert(before[k] == pending[k]);
        }
        law_last_directory_counts(cwd, before, i);
    }
}

/// A block of a plan exports variables and ends its batch. Where it succeeded, they are
/// set from then on, unless a block of the batch with a higher number set the same, and
/// the next blocks are launched with them. Where it failed, nothing changes on its
/// account.
pub proof fn law_exports_reach_the_next_blocks(
    start: Flow,
    id: CodeId,
    envs: Envs,
    exit_code: Option<i32>,
    name: Seq<char>,
)
    requires
        numbers_ascend(start.pending),
        start.workflow is Some,
        ends_batch(start.workflow->0.advance(id, exit_code).1),
    ensures
        ({
            let exported = App::stream_flow(start, true, id, Stream::Env(envs), None).0;
            let (ended, step) = App::stream_flow(exported, true, id, Stream::End, exit_code);
            &&& exit_code == Some(0i32) && envs@.contains_key(name) && none_behind_sets(
                start.pending,
                id,
                name,
            ) ==> ended.envs.contains_key(name) && ended.envs[name] == envs@[name]
            &&& exit_code == Some(0i32) && !envs@.contains_key(name) && no_other_sets(
                start.pending,
                id,
                name,
            ) ==> same_variable(ended.envs, start.envs, name)
            &&& exit_code != Some(0i32) && no_other_sets(start.pending, id, name) ==> same_variable(
                ended.envs,
                start.envs,
                name,
            )
            &&& start.workflow->0.auto_run ==> (start.workflow->0.advance(
                id,
                exit_code,
            ).1 matches AdvanceView::NextBatch(batch) ==> step.next == NextView::Launch(batch))
        }),
{
    let pending = start.pending;
    let captured = captured_with(captured_of(pending, id), Some(envs@), None);
    lemma_set_entries(pending, id, captured);
    let kept = captured_set(pending, id, captured);
    if exit_code == Some(0i32) {
        law_captures_are_handed_on(start.envs, pending, id, envs@, name);
    } else if no_other_sets(pending, id, name) {
        assert forall|i: int| 0 <= i < kept.len() && (#[trigger] kept[i]).0 != id implies !sets(
            kept[i].1,
            name,
        ) by {
            let k = pending.index_of(kept[i]);
            assert(pending[k] == kept[i]);
        }
        law_forgotten_captures_are_not_handed_on(start.envs, kept, id, name, 0);
    }
}

/// A block of a plan leaves a working directory behind and ends its batch: where it
/// succeeded, that is the working directory from then on, unless a block of the batch
/// with a higher number left another; where it failed, nothing changes on its account.
pub proof fn law_directories_reach_the_next_blocks(
    start: Flow,
    id: CodeId,
    cwd: String,
    exit_code: Option<i32>,
)
    requires
        numbers_ascend(start.pending),
        start.workflow is Some,
        ends_batch(start.workflow->0.advance(id, exit_code).1),
    ensures
        ({
            let moved = App::stream_flow(start, true, id, Stream::Cwd(cwd), None).0;
            let ended = App::stream_flow(moved, true, id, Stream::End, exit_code).0;
            &&& exit_code == Some(0i32) && none_behind_moves(start.pending, id) ==> ended.cwd
                == Some(cwd@)
            &&& exit_code != Some(0i32) && no_other_moves(start.pending, id) ==> ended.cwd
                == start.cwd
        }),
{
    let pending = start.pending;
    let captured = captured_with(captured_of(pending, id), None, Some(cwd@));
    lemma_set_entries(pending, id, captured);
    let kept = captured_set(pending, id, captured);
    if exit_code == Some(0i32) {
        if none_behind_moves(pending, id) {
            let at = kept.index_of((id, captured));
            assert(kept[at] == (id, captured));
            assert forall|k: int| at < k < kept.len() implies (
            #[trigger] kept[k]).1.cwd is None by {
                assert(kept[at].0 < kept[k].0);
                let n = pending.index_of(kept[k]);
                assert(pending[n] == kept[k]);
            }
            law_last_directory_counts(start.cwd, kept, at);
        }
    } else if no_other_moves(pending, id) {
        lemma_without_entries(kept, id);
        let rest = captured_without(kept, id);
        assert forall|k: int| -1 < k < rest.len() implies (#[trigger] rest[k]).1.cwd is None by {
            let n = kept.index_of(rest[k]);
            assert(kept[n] == rest[k]);
            let m = pending.index_of(kept[n]);
            assert(pending[m] == rest[k]);
        }
        law_last_directory_counts(start.cwd, rest, -1);
    }
}

/// Outside of a plan, what a block exports counts at once.
pub proof fn law_exports_count_at_once_without_a_plan(
    start: Flow,
    id: CodeId,
    envs: Envs,
    name: Seq<char>,
)
    requires
        start.workflow is None,
    ensures
        ({
            let after = App::stream_flow(start, true, id, Stream::Env(envs), None).0;
            &&& envs@.contains_key(name) ==> after.envs.contains_key(name) && after.envs[name]
                == envs@[name]
            &&& !envs@.contains_key(name) ==> same_variable(after.envs, start.envs, name)
            &&& after.cwd == start.cwd
        }),
{
}

} // verus!
