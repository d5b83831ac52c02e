//! Whole runs of a plan, one block at a time.

use vstd::prelude::*;

use super::plan::{
    dependents_in, edge, joined, law_dependencies_come_first, law_layers_hold_each_block_once,
    selected_ids, DependencyGraph,
};
use super::{
    all_waiting_for, next_batch, one_by_one, open_part, waiting_chain, waits_for, AdvanceView,
    FailurePolicy, SchedulerView,
};
use crate::code::{block_ids, valid_codes, Code, CodeId};
use crate::seqs::{lemma_add_contains, lemma_filter_contains, lemma_filter_distinct};

verus! {

/// What comes of a run from the moment that one block is running, each block ending
/// with its exit code: the blocks that ran, in order, and how it ended.
pub open spec fn run_on(s: SchedulerView, block: CodeId, exit: spec_fn(CodeId) -> Option<i32>) -> (
    Seq<CodeId>,
    AdvanceView,
)
    decreases s.pending.len(),
{
    let (after, result) = s.advance(block, exit(block));
    match result {
        AdvanceView::NextBatch(ids) => if ids.len() == 1 && after.pending.len() < s.pending.len() {
            let (more, end) = run_on(after, ids[0], exit);
            (seq![block] + more, end)
        } else {
            (seq![block], result)
        },
        _ => (seq![block], result),
    }
}

/// What comes of a whole run: the blocks that ran, in order, and how it ended; nothing
/// where there is no work.
pub open spec fn whole_run(s: SchedulerView, exit: spec_fn(CodeId) -> Option<i32>) -> (
    Seq<CodeId>,
    Option<AdvanceView>,
) {
    let (begun, batch) = s.start();
    match batch {
        Some(ids) => if ids.len() == 1 {
            let (run, end) = run_on(begun, ids[0], exit);
            (run, Some(end))
        } else {
            (ids, None)
        },
        None => (Seq::empty(), None),
    }
}

/// A block failed.
pub open spec fn failed(exit: spec_fn(CodeId) -> Option<i32>, id: CodeId) -> bool {
    exit(id) != Some(0i32)
}

/// Some block failed.
pub open spec fn some_failed(run: Seq<CodeId>, exit: spec_fn(CodeId) -> Option<i32>) -> bool {
    exists|i: int| 0 <= i < run.len() && failed(exit, #[trigger] run[i])
}

/// The blocks of a list that run: each in turn, unless it is blocked. A block that
/// fails blocks what waits for it.
pub open spec fn runnable(
    graph: DependencyGraph,
    ids: Seq<CodeId>,
    exit: spec_fn(CodeId) -> Option<i32>,
    blocked: Set<CodeId>,
) -> Seq<CodeId>
    decreases ids.len(),
{
    if ids.len() == 0 {
        Seq::empty()
    } else if blocked.contains(ids[0]) {
        runnable(graph, ids.drop_first(), exit, blocked)
    } else {
        seq![ids[0]] + runnable(
            graph,
            ids.drop_first(),
            exit,
            if failed(exit, ids[0]) {
                blocked.union(all_waiting_for(graph, ids[0]))
            } else {
                blocked
            },
        )
    }
}

proof fn lemma_next_one(ids: Seq<CodeId>, blocked: Set<CodeId>)
    requires
        ids.len() > 0,
    ensures
        next_batch(one_by_one(ids), blocked) == (if blocked.contains(ids[0]) {
            next_batch(one_by_one(ids.drop_first()), blocked)
        } else {
            (Some(seq![ids[0]]), one_by_one(ids.drop_first()))
        }),
{
    let pending = one_by_one(ids);
    assert(pending.drop_first() =~= one_by_one(ids.drop_first()));
    let keep = |id: CodeId| !blocked.contains(id);
    let one = seq![ids[0]];
    assert(pending[0] == one);
    reveal(Seq::filter);
    assert(one.drop_last() =~= Seq::empty());
    assert(one.drop_last().filter(keep) =~= Seq::empty());
    if !blocked.contains(ids[0]) {
        assert(open_part(one, blocked) =~= one);
    } else {
        assert(open_part(one, blocked) =~= Seq::empty());
    }
}

proof fn lemma_failed_first(block: CodeId, more: Seq<CodeId>, exit: spec_fn(CodeId) -> Option<i32>)
    ensures
        some_failed(seq![block] + more, exit) == (failed(exit, block) || some_failed(more, exit)),
{
    let run = seq![block] + more;
    assert(run[0] == block);
    if some_failed(more, exit) {
        let k = choose|k: int| 0 <= k < more.len() && failed(exit, #[trigger] more[k]);
        assert(run[k + 1] == more[k]);
    }
    if some_failed(run, exit) {
        let k = choose|k: int| 0 <= k < run.len() && failed(exit, #[trigger] run[k]);
        if k > 0 {
            assert(more[k - 1] == run[k]);
        }
    }
}

proof fn lemma_run_on(
    s: SchedulerView,
    block: CodeId,
    ids: Seq<CodeId>,
    exit: spec_fn(CodeId) -> Option<i32>,
)
    requires
        s.running == Set::<CodeId>::empty().insert(block),
        s.policy == FailurePolicy::Continue,
        s.pending == one_by_one(ids),
    ensures
        ({
            let blocked = s.end_block(block, exit(block)).blocked;
            let run = seq![block] + runnable(s.graph, ids, exit, blocked);
            &&& run_on(s, block, exit).0 == run
            &&& run_on(s, block, exit).1 == AdvanceView::Finished(
                s.failure is Some || some_failed(run, exit),
            )
        }),
    decreases ids.len(),
{
    let ended = s.end_block(block, exit(block));
    assert(ended.running =~= Set::<CodeId>::empty());
    let blocked = ended.blocked;
    let rest = runnable(s.graph, ids, exit, blocked);
    lemma_failed_first(block, rest, exit);
    if ids.len() == 0 {
        assert(next_batch(s.pending, blocked).0 is None);
        assert(seq![block] + rest =~= seq![block]);
    } else {
        lemma_next_one(ids, blocked);
        let tail = ids.drop_first();
        if blocked.contains(ids[0]) {
            let other = SchedulerView { pending: one_by_one(tail), ..s };
            lemma_run_on(other, block, tail, exit);
            assert(other.end_block(block, exit(block)) == (SchedulerView {
                pending: one_by_one(tail),
                ..ended
            }));
            assert(s.advance(block, exit(block)) == other.advance(block, exit(block)));
            crate::scheduler::law_batches_use_up_the_queue(other, block, exit(block));
            assert(run_on(s, block, exit) == run_on(other, block, exit));
        } else {
            let (after, result) = s.advance(block, exit(block));
            assert(result == AdvanceView::NextBatch(seq![ids[0]]));
            assert(after.running =~= Set::<CodeId>::empty().insert(ids[0])) by {
                assert(seq![ids[0]].to_set() =~= Set::<CodeId>::empty().insert(ids[0])) by {
                    assert(seq![ids[0]][0] == ids[0]);
                }
            }
            assert(after.pending.len() < s.pending.len());
            lemma_run_on(after, ids[0], tail, exit);
            let later = after.end_block(ids[0], exit(ids[0])).blocked;
            assert(rest == seq![ids[0]] + runnable(s.graph, tail, exit, later));
            assert(run_on(s, block, exit).0 == seq![block] + run_on(after, ids[0], exit).0);
        }
    }
}

/// A run of a plan that goes on after failures: each block of the list runs in turn,
/// one at a time, unless it waits for one that failed; the run is never stopped, and
/// counts as failed exactly where some block failed.
pub proof fn law_whole_run(
    s: SchedulerView,
    graph: DependencyGraph,
    ids: Seq<CodeId>,
    auto_run: bool,
    skip_succeeded: bool,
    exit: spec_fn(CodeId) -> Option<i32>,
)
    requires
        s == SchedulerView::fresh(
            graph,
            one_by_one(ids),
            FailurePolicy::Continue,
            auto_run,
            skip_succeeded,
        ),
    ensures
        whole_run(s, exit).0 == runnable(graph, ids, exit, Set::empty()),
        whole_run(s, exit).1 == (if ids.len() == 0 {
            None
        } else {
            Some(AdvanceView::Finished(some_failed(runnable(graph, ids, exit, Set::empty()), exit)))
        }),
{
    assert(s.running.is_empty());
    if ids.len() > 0 {
        lemma_next_one(ids, Set::empty());
        let (begun, batch) = s.start();
        assert(batch == Some(seq![ids[0]]));
        assert(begun.running =~= Set::<CodeId>::empty().insert(ids[0])) by {
            assert(seq![ids[0]].to_set() =~= Set::<CodeId>::empty().insert(ids[0])) by {
                assert(seq![ids[0]][0] == ids[0]);
            }
        }
        lemma_run_on(begun, ids[0], ids.drop_first(), exit);
    }
}

/// No block of a list waits for one that comes later, nor for itself.
pub open spec fn in_order(graph: DependencyGraph, ids: Seq<CodeId>) -> bool {
    forall|i: int, j: int|
        0 <= i <= j < ids.len() ==> !waits_for(graph, #[trigger] ids[i], #[trigger] ids[j])
}

/// Which blocks run: those of the list that are not blocked and do not wait for a
/// block that ran and failed.
pub proof fn law_run_leaves_out_what_waits_for_failures(
    graph: DependencyGraph,
    ids: Seq<CodeId>,
    exit: spec_fn(CodeId) -> Option<i32>,
    blocked: Set<CodeId>,
    id: CodeId,
)
    requires
        ids.no_duplicates(),
        in_order(graph, ids),
    ensures
        runnable(graph, ids, exit, blocked).contains(id) <==> {
            &&& ids.contains(id)
            &&& !blocked.contains(id)
            &&& forall|y: CodeId|
                #[trigger] runnable(graph, ids, exit, blocked).contains(y) && failed(exit, y)
                    ==> !waits_for(graph, id, y)
        },
        forall|y: CodeId| #[trigger]
            runnable(graph, ids, exit, blocked).contains(y) ==> ids.contains(y),
        runnable(graph, ids, exit, blocked).no_duplicates(),
    decreases ids.len(),
{
    if ids.len() > 0 {
        let head = ids[0];
        let tail = ids.drop_first();
        assert(ids =~= seq![head] + tail);
        lemma_add_contains(seq![head], tail);
        assert(seq![head].contains(id) <==> id == head) by {
            if id == head {
                assert(seq![head][0] == id);
            }
        }
        assert forall|i: int, j: int| 0 <= i <= j < tail.len() implies !waits_for(
            graph,
            #[trigger] tail[i],
            #[trigger] tail[j],
        ) by {
            assert(tail[i] == ids[i + 1] && tail[j] == ids[j + 1]);
        }
        assert(tail.no_duplicates());
        assert(!tail.contains(head)) by {
            if tail.contains(head) {
                let k = tail.index_of(head);
                assert(ids[k + 1] == head);
            }
        }
        let run = runnable(graph, ids, exit, blocked);
        if blocked.contains(head) {
            law_run_leaves_out_what_waits_for_failures(graph, tail, exit, blocked, id);
        } else {
            let later = if failed(exit, head) {
                blocked.union(all_waiting_for(graph, head))
            } else {
                blocked
            };
            law_run_leaves_out_what_waits_for_failures(graph, tail, exit, later, id);
            let more = runnable(graph, tail, exit, later);
            lemma_add_contains(seq![head], more);
            assert(run == seq![head] + more);
            assert(run[0] == head);
            assert forall|y: CodeId| #[trigger] run.contains(y) <==> y == head || more.contains(y) by {
                if seq![head].contains(y) {
                    assert(y == head);
                }
            }
            if id == head {
                assert forall|y: CodeId| #[trigger] run.contains(y) && failed(exit, y) implies !waits_for(
                    graph,
                    id,
                    y,
                ) by {
                    if y == head {
                        assert(!waits_for(graph, ids[0], ids[0]));
                    } else {
                        assert(tail.contains(y));
                        let k = tail.index_of(y);
                        assert(ids[k + 1] == y);
                        assert(!waits_for(graph, ids[0], ids[k + 1]));
                    }
                }
            } else {
                if run.contains(id) {
                    assert forall|y: CodeId|
                        #[trigger] run.contains(y) && failed(exit, y) implies !waits_for(
                        graph,
                        id,
                        y,
                    ) by {
                        if y == head {
                            assert(!later.contains(id));
                        } else {
                            assert(more.contains(y));
                        }
                    }
                }
                if ids.contains(id) && !blocked.contains(id) && (forall|y: CodeId|
                    #[trigger] run.contains(y) && failed(exit, y) ==> !waits_for(graph, id, y)) {
                    assert(run.contains(head));
                    assert(!later.contains(id));
                    assert forall|y: CodeId|
                        #[trigger] more.contains(y) && failed(exit, y) implies !waits_for(
                        graph,
                        id,
                        y,
                    ) by {
                        assert(run.contains(y));
                    }
                }
            }
            assert(run.no_duplicates()) by {
                assert forall|i: int, j: int| 0 <= i < j < run.len() implies run[i] != run[j] by {
                    if i == 0 {
                        assert(run[j] == more[j - 1]);
                        assert(more.contains(more[j - 1]));
                    } else {
                        assert(run[i] == more[i - 1] && run[j] == more[j - 1]);
                    }
                }
            }
        }
    }
}

proof fn lemma_run_is_in_order(
    graph: DependencyGraph,
    ids: Seq<CodeId>,
    exit: spec_fn(CodeId) -> Option<i32>,
    blocked: Set<CodeId>,
    keep: spec_fn(CodeId) -> bool,
)
    requires
        ids.no_duplicates(),
        in_order(graph, ids),
        forall|id: CodeId| #[trigger]
            ids.contains(id) ==> keep(id) == runnable(graph, ids, exit, blocked).contains(id),
    ensures
        runnable(graph, ids, exit, blocked) == ids.filter(keep),
    decreases ids.len(),
{
    reveal(Seq::filter);
    if ids.len() > 0 {
        let head = ids[0];
        let tail = ids.drop_first();
        let one = seq![head];
        assert(ids =~= one + tail);
        Seq::filter_distributes_over_add(one, tail, keep);
        assert(one.drop_last() =~= Seq::empty());
        assert(one.drop_last().filter(keep) =~= Seq::empty());
        assert(one.last() == head);
        assert(one.filter(keep) =~= if keep(head) { one } else { Seq::empty() });
        assert(ids.contains(head));
        assert forall|i: int, j: int| 0 <= i <= j < tail.len() implies !waits_for(
            graph,
            #[trigger] tail[i],
            #[trigger] tail[j],
        ) by {
            assert(tail[i] == ids[i + 1] && tail[j] == ids[j + 1]);
        }
        let run = runnable(graph, ids, exit, blocked);
        let later = if !blocked.contains(head) && failed(exit, head) {
            blocked.union(all_waiting_for(graph, head))
        } else {
            blocked
        };
        let more = runnable(graph, tail, exit, later);
        law_run_leaves_out_what_waits_for_failures(graph, tail, exit, later, head);
        assert(!tail.contains(head)) by {
            if tail.contains(head) {
                let k = tail.index_of(head);
                assert(ids[k + 1] == head);
            }
        }
        lemma_add_contains(one, more);
        assert forall|id: CodeId| #[trigger] tail.contains(id) implies keep(id) == more.contains(
            id,
        ) by {
            let k = tail.index_of(id);
            assert(ids[k + 1] == id);
            assert(ids.contains(id));
            assert(one.contains(id) ==> id == head);
        }
        lemma_run_is_in_order(graph, tail, exit, later, keep);
        if blocked.contains(head) {
            assert(!run.contains(head));
            assert(Seq::<CodeId>::empty() + tail.filter(keep) =~= tail.filter(keep));
        } else {
            assert(run[0] == head);
            assert(run.contains(head));
        }
    }
}

/// Whatever waits directly for a block of the list is in the list behind it.
pub open spec fn respects(graph: DependencyGraph, ids: Seq<CodeId>) -> bool {
    forall|i: int, b: CodeId|
        0 <= i < ids.len() && #[trigger] graph.dependents_of(ids[i]).contains(b) ==> exists|j: int|
            i < j < ids.len() && #[trigger] ids[j] == b
}

proof fn lemma_chain_ascends(graph: DependencyGraph, ids: Seq<CodeId>, chain: Seq<CodeId>, i: int)
    requires
        respects(graph, ids),
        waiting_chain(graph, chain),
        chain.len() >= 2,
        0 <= i < ids.len(),
        ids[i] == chain[0],
    ensures
        exists|j: int| i < j < ids.len() && #[trigger] ids[j] == chain.last(),
    decreases chain.len(),
{
    assert(graph.dependents_of(chain[0]).contains(chain[1]));
    assert(graph.dependents_of(ids[i]).contains(chain[1]));
    let k = choose|k: int| i < k < ids.len() && #[trigger] ids[k] == chain[1];
    if chain.len() > 2 {
        let rest = chain.drop_first();
        assert forall|n: int| 0 <= n < rest.len() - 1 implies graph.dependents_of(
            #[trigger] rest[n],
        ).contains(rest[n + 1]) by {
            assert(graph.dependents_of(chain[n + 1]).contains(chain[n + 2]));
        }
        lemma_chain_ascends(graph, ids, rest, k);
        assert(rest.last() == chain.last());
    }
}

proof fn lemma_respecting_is_in_order(graph: DependencyGraph, ids: Seq<CodeId>)
    requires
        respects(graph, ids),
        ids.no_duplicates(),
    ensures
        in_order(graph, ids),
{
    assert forall|i: int, j: int| 0 <= i <= j < ids.len() implies !waits_for(
        graph,
        #[trigger] ids[i],
        #[trigger] ids[j],
    ) by {
        if waits_for(graph, ids[i], ids[j]) {
            let chain = choose|chain: Seq<CodeId>| #[trigger]
                waiting_chain(graph, chain) && chain.len() >= 2 && chain[0] == ids[j]
                    && chain.last() == ids[i];
            lemma_chain_ascends(graph, ids, chain, j);
            let k = choose|k: int| j < k < ids.len() && #[trigger] ids[k] == ids[i];
            assert(ids[k] != ids[i]);
        }
    }
}

/// Where a member of a layer stands in the joined layers.
proof fn lemma_place_in_joined(layers: Seq<Seq<CodeId>>, id: CodeId) -> (at: (int, int))
    requires
        joined(layers).contains(id),
    ensures
        0 <= at.0 < layers.len(),
        0 <= at.1 < layers[at.0].len(),
        layers[at.0][at.1] == id,
    decreases layers.len(),
{
    let before = layers.drop_last();
    lemma_add_contains(joined(before), layers.last());
    if joined(before).contains(id) {
        let at = lemma_place_in_joined(before, id);
        assert(before[at.0] == layers[at.0]);
        at
    } else {
        let k = layers.last().index_of(id);
        (layers.len() - 1, k)
    }
}

/// A member of a layer stands in the joined layers behind all earlier layers.
proof fn lemma_joined_place(layers: Seq<Seq<CodeId>>, i: int, k: int)
    requires
        0 <= i < layers.len(),
        0 <= k < layers[i].len(),
    ensures
        joined(layers.take(i)).len() + k < joined(layers.take(i + 1)).len() <= joined(layers).len(),
        joined(layers)[joined(layers.take(i)).len() + k] == layers[i][k],
{
    lemma_joined_take(layers, i + 1);
    assert(layers.take(i + 1).drop_last() =~= layers.take(i));
    assert(layers.take(i + 1).last() == layers[i]);
    let upto = joined(layers.take(i + 1));
    let at = joined(layers.take(i)).len() + k;
    assert(upto[at] == layers[i][k]);
    assert(joined(layers).take(upto.len() as int)[at] == joined(layers)[at]);
}

proof fn lemma_joined_take(layers: Seq<Seq<CodeId>>, i: int)
    requires
        0 <= i <= layers.len(),
    ensures
        joined(layers.take(i)).len() <= joined(layers).len(),
        joined(layers).take(joined(layers.take(i)).len() as int) == joined(layers.take(i)),
    decreases layers.len() - i,
{
    if i == layers.len() {
        assert(layers.take(i) =~= layers);
        assert(joined(layers).take(joined(layers).len() as int) =~= joined(layers));
    } else {
        lemma_joined_take(layers, i + 1);
        assert(layers.take(i + 1).drop_last() =~= layers.take(i));
        let longer = joined(layers.take(i + 1));
        let shorter = joined(layers.take(i));
        assert(longer == shorter + layers[i]);
        assert(joined(layers).take(shorter.len() as int) =~= longer.take(shorter.len() as int));
        assert(longer.take(shorter.len() as int) =~= shorter);
    }
}

proof fn lemma_layers_ascend(layers: Seq<Seq<CodeId>>, i: int, j: int)
    requires
        0 <= i <= j <= layers.len(),
    ensures
        joined(layers.take(i)).len() <= joined(layers.take(j)).len(),
    decreases j - i,
{
    if i < j {
        lemma_layers_ascend(layers, i, j - 1);
        assert(layers.take(j).drop_last() =~= layers.take(j - 1));
    }
}

proof fn lemma_plan_respects(codes: Seq<Code>, graph: DependencyGraph)
    requires
        valid_codes(codes),
        graph.plans(codes, block_ids(codes).to_set(), None),
    ensures
        respects(graph, joined(graph.layers_view())),
        joined(graph.layers_view()).no_duplicates(),
        forall|id: CodeId| #[trigger]
            joined(graph.layers_view()).contains(id) <==> block_ids(codes).contains(id),
{
    let selected = block_ids(codes).to_set();
    let remaining = selected_ids(codes, selected);
    let layers = graph.layers_view();
    let ids = joined(layers);
    let listed = block_ids(codes);
    assert(listed.no_duplicates()) by {
        assert forall|i: int, j: int| 0 <= i < j < listed.len() implies listed[i] != listed[j] by {
            assert(listed[i] == codes[i].id && listed[j] == codes[j].id);
        }
    }
    let keep = |id: CodeId| selected.contains(id);
    lemma_filter_distinct(listed, keep);
    lemma_filter_contains(listed, keep);
    law_layers_hold_each_block_once(codes, selected, remaining, layers);
    assert forall|i: int, b: CodeId|
        0 <= i < ids.len() && #[trigger] graph.dependents_of(ids[i]).contains(b) implies exists|j: int|
        i < j < ids.len() && #[trigger] ids[j] == b by {
        let a = ids[i];
        assert(ids.contains(a));
        assert(graph.dependents_of(a) == dependents_in(codes, selected, a));
        lemma_filter_contains(listed, |x: CodeId| edge(codes, selected, a, x));
        assert(listed.contains(b) && edge(codes, selected, a, b));
        assert(remaining.contains(b));
        assert(ids.contains(b));
        let p = lemma_place_in_joined(layers, a);
        let q = lemma_place_in_joined(layers, b);
        assert(layers[p.0].contains(a) && layers[q.0].contains(b));
        law_dependencies_come_first(codes, selected, remaining, layers, a, b, p.0, q.0);
        lemma_joined_place(layers, p.0, p.1);
        lemma_joined_place(layers, q.0, q.1);
        lemma_layers_ascend(layers, p.0 + 1, q.0);
        let x = joined(layers.take(p.0)).len() + p.1;
        let y = joined(layers.take(q.0)).len() + q.1;
        assert(ids[x] == a && ids[y] == b);
        assert(x == i);
        assert(i < y < ids.len());
    }
}

/// A whole run of all blocks of a document: the blocks run one at a time, each once and
/// in the order of the plan's layers, but for those that wait for a block that failed;
/// the run counts as failed exactly where some block failed.
pub proof fn law_run_of_all_blocks(
    codes: Seq<Code>,
    s: SchedulerView,
    auto_run: bool,
    exit: spec_fn(CodeId) -> Option<i32>,
    id: CodeId,
)
    requires
        valid_codes(codes),
        s.graph.plans(codes, block_ids(codes).to_set(), None),
        s == SchedulerView::fresh(
            s.graph,
            one_by_one(joined(s.graph.layers_view())),
            FailurePolicy::Continue,
            auto_run,
            true,
        ),
    ensures
        ({
            let run = whole_run(s, exit).0;
            &&& run == runnable(s.graph, joined(s.graph.layers_view()), exit, Set::empty())
            &&& run == joined(s.graph.layers_view()).filter(|x: CodeId| run.contains(x))
            &&& run.no_duplicates()
            &&& run.contains(id) <==> block_ids(codes).contains(id) && forall|y: CodeId|
                #[trigger] run.contains(y) && failed(exit, y) ==> !waits_for(s.graph, id, y)
            &&& codes.len() > 0 ==> whole_run(s, exit).1 == Some(
                AdvanceView::Finished(some_failed(run, exit)),
            )
        }),
{
    let ids = joined(s.graph.layers_view());
    lemma_plan_respects(codes, s.graph);
    lemma_respecting_is_in_order(s.graph, ids);
    law_whole_run(s, s.graph, ids, auto_run, true, exit);
    law_run_leaves_out_what_waits_for_failures(s.graph, ids, exit, Set::empty(), id);
    let run = whole_run(s, exit).0;
    lemma_run_is_in_order(s.graph, ids, exit, Set::empty(), |x: CodeId| run.contains(x));
    if codes.len() > 0 {
        assert(block_ids(codes)[0] == codes[0].id);
        assert(block_ids(codes).contains(codes[0].id));
        assert(ids.contains(codes[0].id));
    }
}

} // verus!
