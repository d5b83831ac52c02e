//! Dependency-ordered execution of code blocks.

use std::collections::{HashSet, VecDeque};

use vstd::prelude::*;

use crate::code::{block_ids, valid_codes, Code, CodeId};
use crate::seqs::{
    lemma_add_contains, lemma_filter_contains, lemma_filter_distinct, lemma_push_contains,
    lemma_take_contains,
};

pub mod plan;
pub mod run;

use plan::{filter_ids, lemma_joined_first};
pub use plan::{joined, needed_blocks, nested, planned, DependencyGraph};

verus! {

broadcast use vstd::std_specs::hash::group_hash_axioms;

/// A block that failed during execution.
#[derive(Clone, Copy, Debug, PartialEq, Eq, Structural)]
pub struct BlockFailure {
    pub block: CodeId,
    pub exit_code: Option<i32>,
}

/// Result of advancing the scheduler past a completed block.
#[derive(Debug, PartialEq, Eq)]
pub enum AdvanceResult {
    /// The next batch of blocks to run concurrently.
    NextBatch(Vec<CodeId>),
    /// Blocks are still running in the current batch.
    Pending,
    /// All blocks have finished.
    Finished { failed: bool },
    /// A failure occurred and the plan stops on failure; no more batches.
    Stopped(BlockFailure),
    /// The given block was not being tracked by the scheduler.
    Untracked,
}

/// Whether the scheduler stops or continues after a failure.
#[derive(Clone, Copy, Debug, PartialEq, Eq, Structural)]
pub enum FailurePolicy {
    Continue,
    Stop,
}

/// Drives block execution in dependency order.
///
/// Produces batches of concurrent blocks. A batch is a group of blocks whose
/// dependencies are all satisfied and that have no dependency on each other.
pub struct Scheduler {
    pending: VecDeque<Vec<CodeId>>,
    running: HashSet<CodeId>,
    blocked: HashSet<CodeId>,
    graph: DependencyGraph,
    failure: Option<BlockFailure>,
    failure_policy: FailurePolicy,
    auto_run: bool,
    skip_succeeded: bool,
}

/// A chain of blocks in which each waits for the one before it.
pub open spec fn waiting_chain(graph: DependencyGraph, chain: Seq<CodeId>) -> bool {
    forall|i: int|
        0 <= i < chain.len() - 1 ==> graph.dependents_of(#[trigger] chain[i]).contains(chain[i + 1])
}

/// `id` waits for `failed`, directly or through other blocks.
pub open spec fn waits_for(graph: DependencyGraph, id: CodeId, failed: CodeId) -> bool {
    exists|chain: Seq<CodeId>| #[trigger]
        waiting_chain(graph, chain) && chain.len() >= 2 && chain[0] == failed && chain.last() == id
}

/// The blocks that wait for `failed`.
pub open spec fn all_waiting_for(graph: DependencyGraph, failed: CodeId) -> Set<CodeId> {
    Set::new(|id: CodeId| waits_for(graph, id, failed))
}

/// What is left of a batch once blocked members are dropped.
pub open spec fn open_part(batch: Seq<CodeId>, blocked: Set<CodeId>) -> Seq<CodeId> {
    batch.filter(|id: CodeId| !blocked.contains(id))
}

/// The first batch with an unblocked member, reduced to those, and the batches
/// after it.
pub open spec fn next_batch(pending: Seq<Seq<CodeId>>, blocked: Set<CodeId>) -> (
    Option<Seq<CodeId>>,
    Seq<Seq<CodeId>>,
)
    decreases pending.len(),
{
    if pending.len() == 0 {
        (None, pending)
    } else if open_part(pending[0], blocked).len() > 0 {
        (Some(open_part(pending[0], blocked)), pending.drop_first())
    } else {
        next_batch(pending.drop_first(), blocked)
    }
}

/// One batch for each block.
pub open spec fn one_by_one(ids: Seq<CodeId>) -> Seq<Seq<CodeId>> {
    ids.map_values(|id: CodeId| seq![id])
}

/// Any set of block numbers is bounded by the number range.
proof fn lemma_id_set_bound(s: Set<CodeId>)
    requires
        s.finite(),
    ensures
        s.len() <= 0x1_0000_0000,
{
    let f = |id: CodeId| id as int;
    let range = vstd::set_lib::set_int_range(0, 0x1_0000_0000);
    vstd::set_lib::lemma_int_range(0, 0x1_0000_0000);
    assert(vstd::relations::injective_on(f, s));
    vstd::set_lib::lemma_map_size(s, s.map(f), f);
    assert forall|x: int| #[trigger] s.map(f).contains(x) implies range.contains(x) by {}
    vstd::set_lib::lemma_len_subset(s.map(f), range);
}

/// A longer chain of waiting blocks.
proof fn lemma_chain_push(graph: DependencyGraph, chain: Seq<CodeId>, id: CodeId)
    requires
        waiting_chain(graph, chain),
        chain.len() > 0,
        graph.dependents_of(chain.last()).contains(id),
    ensures
        waiting_chain(graph, chain.push(id)),
{
    let longer = chain.push(id);
    assert forall|i: int| 0 <= i < longer.len() - 1 implies graph.dependents_of(
        #[trigger] longer[i],
    ).contains(longer[i + 1]) by {
        if i < chain.len() - 1 {
            assert(graph.dependents_of(chain[i]).contains(chain[i + 1]));
        }
    }
}

/// A block set that holds the dependents of its members and of `failed` holds
/// whatever waits for `failed`.
proof fn lemma_chain_inside(
    graph: DependencyGraph,
    blocked: Set<CodeId>,
    failed: CodeId,
    chain: Seq<CodeId>,
)
    requires
        waiting_chain(graph, chain),
        chain.len() >= 2,
        chain[0] == failed,
        forall|y: CodeId, d: CodeId|
            (blocked.contains(y) || y == failed) && #[trigger] graph.dependents_of(y).contains(d)
                ==> blocked.contains(d),
    ensures
        blocked.contains(chain.last()),
    decreases chain.len(),
{
    let n = chain.len() - 2;
    assert(graph.dependents_of(chain[n]).contains(chain[n + 1]));
    if n > 0 {
        let shorter = chain.drop_last();
        assert forall|i: int| 0 <= i < shorter.len() - 1 implies graph.dependents_of(
            #[trigger] shorter[i],
        ).contains(shorter[i + 1]) by {
            assert(graph.dependents_of(chain[i]).contains(chain[i + 1]));
        }
        lemma_chain_inside(graph, blocked, failed, shorter);
    }
}

/// The state of a scheduler.
pub struct SchedulerView {
    /// The batches still to run.
    pub pending: Seq<Seq<CodeId>>,
    /// The blocks that are executing.
    pub running: Set<CodeId>,
    /// The blocks that a failure keeps from running.
    pub blocked: Set<CodeId>,
    /// The plan.
    pub graph: DependencyGraph,
    /// The first failure.
    pub failure: Option<BlockFailure>,
    /// What happens after a failure.
    pub policy: FailurePolicy,
    /// Execution starts right away.
    pub auto_run: bool,
    /// Successful prerequisites are reused.
    pub skip_succeeded: bool,
}

impl View for Scheduler {
    type V = SchedulerView;

    closed spec fn view(&self) -> SchedulerView {
        SchedulerView {
            pending: nested(self.pending@),
            running: self.running@,
            blocked: self.blocked@,
            graph: self.graph,
            failure: self.failure,
            policy: self.failure_policy,
            auto_run: self.auto_run,
            skip_succeeded: self.skip_succeeded,
        }
    }
}

/// The result of advancing the scheduler.
pub enum AdvanceView {
    NextBatch(Seq<CodeId>),
    Pending,
    Finished(bool),
    Stopped(BlockFailure),
    Untracked,
}

impl View for AdvanceResult {
    type V = AdvanceView;

    open spec fn view(&self) -> AdvanceView {
        match *self {
            AdvanceResult::NextBatch(ids) => AdvanceView::NextBatch(ids@),
            AdvanceResult::Pending => AdvanceView::Pending,
            AdvanceResult::Finished { failed } => AdvanceView::Finished(failed),
            AdvanceResult::Stopped(failure) => AdvanceView::Stopped(failure),
            AdvanceResult::Untracked => AdvanceView::Untracked,
        }
    }
}

impl SchedulerView {
    /// What waits for a blocked block is blocked too.
    pub open spec fn wf(self) -> bool {
        &&& self.running.finite()
        &&& self.blocked.finite()
        &&& forall|y: CodeId, d: CodeId|
            self.blocked.contains(y) && #[trigger] self.graph.dependents_of(y).contains(d)
                ==> self.blocked.contains(d)
    }

    /// A scheduler that has not started.
    pub open spec fn fresh(
        graph: DependencyGraph,
        pending: Seq<Seq<CodeId>>,
        policy: FailurePolicy,
        auto_run: bool,
        skip_succeeded: bool,
    ) -> SchedulerView {
        SchedulerView {
            pending,
            running: Set::empty(),
            blocked: Set::empty(),
            graph,
            failure: None,
            policy,
            auto_run,
            skip_succeeded,
        }
    }

    /// The next unblocked batch is taken and runs.
    pub open spec fn take_next(self) -> (SchedulerView, Option<Seq<CodeId>>) {
        let (next, rest) = next_batch(self.pending, self.blocked);
        (
            SchedulerView {
                pending: rest,
                running: match next {
                    Some(ids) => self.running.union(ids.to_set()),
                    None => self.running,
                },
                ..self
            },
            next,
        )
    }

    /// The first batch is taken, unless blocks are running.
    pub open spec fn start(self) -> (SchedulerView, Option<Seq<CodeId>>) {
        if self.running.is_empty() {
            self.take_next()
        } else {
            (self, None)
        }
    }

    /// `block` is no longer running; a failure is remembered, and what waits for
    /// it is blocked where the plan goes on after a failure.
    pub open spec fn end_block(self, block: CodeId, exit_code: Option<i32>) -> SchedulerView {
        let failed = exit_code != Some(0i32);
        SchedulerView {
            running: self.running.remove(block),
            failure: if failed && self.failure is None {
                Some(BlockFailure { block, exit_code })
            } else {
                self.failure
            },
            blocked: if failed && self.policy == FailurePolicy::Continue {
                self.blocked.union(all_waiting_for(self.graph, block))
            } else {
                self.blocked
            },
            ..self
        }
    }

    /// `block` has ended: once the batch is over, the next one starts, or the
    /// plan stops or is finished.
    pub open spec fn advance(self, block: CodeId, exit_code: Option<i32>) -> (
        SchedulerView,
        AdvanceView,
    ) {
        let ended = self.end_block(block, exit_code);
        if !self.running.contains(block) {
            (self, AdvanceView::Untracked)
        } else if !ended.running.is_empty() {
            (ended, AdvanceView::Pending)
        } else if self.policy == FailurePolicy::Stop && ended.failure is Some {
            (
                SchedulerView { pending: Seq::empty(), ..ended },
                AdvanceView::Stopped(ended.failure->0),
            )
        } else {
            let (after, next) = ended.take_next();
            (
                after,
                match next {
                    Some(ids) => AdvanceView::NextBatch(ids),
                    None => AdvanceView::Finished(ended.failure is Some),
                },
            )
        }
    }

    /// A block that succeeded before runs again only as the target, or where the
    /// plan reuses nothing.
    pub open spec fn executes(self, block: CodeId, succeeded: bool) -> bool {
        !self.skip_succeeded || !succeeded || self.graph.target_view() == Some(block)
    }
}

impl Scheduler {
    /// What waits for a blocked block is blocked too.
    pub open spec fn wf(&self) -> bool {
        self@.wf()
    }

    /// Creates a scheduler that runs _all_ blocks in order.
    ///
    /// Blocks run one at a time, in the order of the layers. Failed blocks skip
    /// their dependents but do not stop other blocks.
    pub fn for_all(codes: &[Code], auto_run: bool) -> (result: Result<Self, String>)
        requires
            valid_codes(codes@),
        ensures
            Self::built_all(codes@, auto_run, result),
    {
        let graph = match DependencyGraph::for_all(codes) {
            Ok(graph) => graph,
            Err(message) => {
                return Err(message);
            },
        };
        let layers = graph.layers();
        let mut pending: VecDeque<Vec<CodeId>> = VecDeque::new();
        let mut l: usize = 0;
        assert(nested(pending@) =~= one_by_one(joined(nested(layers@).take(0))));
        while l < layers.len()
            invariant
                l <= layers.len(),
                nested(pending@) == one_by_one(joined(nested(layers@).take(l as int))),
            decreases layers.len() - l,
        {
            let layer = &layers[l];
            let ghost before = joined(nested(layers@).take(l as int));
            let mut i: usize = 0;
            assert(before + layer@.take(0) =~= before);
            while i < layer.len()
                invariant
                    i <= layer@.len(),
                    nested(pending@) == one_by_one(before + layer@.take(i as int)),
                decreases layer@.len() - i,
            {
                let mut batch: Vec<CodeId> = Vec::new();
                batch.push(layer[i]);
                let ghost queue = nested(pending@);
                pending.push_back(batch);
                proof {
                    assert(batch@ =~= seq![layer@[i as int]]);
                    assert(nested(pending@) =~= queue.push(batch@));
                    assert(before + layer@.take(i + 1) =~= (before + layer@.take(i as int)).push(
                        layer@[i as int],
                    ));
                    assert(one_by_one(before + layer@.take(i + 1)) =~= one_by_one(
                        before + layer@.take(i as int),
                    ).push(seq![layer@[i as int]]));
                }
                i += 1;
            }
            proof {
                assert(layer@.take(i as int) =~= layer@);
                let longer = nested(layers@).take(l + 1);
                assert(longer.drop_last() =~= nested(layers@).take(l as int));
                assert(longer.last() == layer@);
            }
            l += 1;
        }
        assert(nested(layers@).take(l as int) =~= nested(layers@));
        Ok(Self::new(pending, graph, FailurePolicy::Continue, auto_run, true))
    }

    /// Creates a scheduler that runs only the dependency chain of `target`.
    ///
    /// Blocks of one layer run concurrently, layers run one after the other. On
    /// failure the remaining batches are cancelled.
    pub fn for_target(codes: &[Code], target: CodeId) -> (result: Result<Self, String>)
        requires
            valid_codes(codes@),
        ensures
            Self::built_for(codes@, target, true, result),
    {
        Self::build_target(codes, target, true)
    }

    /// Creates a target scheduler that re-executes previously successful
    /// dependencies.
    pub fn for_target_rerun(codes: &[Code], target: CodeId) -> (result: Result<Self, String>)
        requires
            valid_codes(codes@),
        ensures
            Self::built_for(codes@, target, false, result),
    {
        Self::build_target(codes, target, false)
    }

    /// The outcome of creating a scheduler for all blocks.
    pub open spec fn built_all(
        codes: Seq<Code>,
        auto_run: bool,
        result: Result<Self, String>,
    ) -> bool {
        match result {
            Ok(scheduler) => {
                let graph = scheduler@.graph;
                &&& graph.plans(codes, block_ids(codes).to_set(), None)
                &&& scheduler@ == SchedulerView::fresh(
                    graph,
                    one_by_one(joined(graph.layers_view())),
                    FailurePolicy::Continue,
                    auto_run,
                    true,
                )
                &&& scheduler.wf()
            },
            Err(message) => planned(
                codes,
                block_ids(codes).to_set(),
                None,
                Err::<DependencyGraph, String>(message),
            ),
        }
    }

    /// The outcome of creating a scheduler for one block.
    pub open spec fn built_for(
        codes: Seq<Code>,
        target: CodeId,
        skip_succeeded: bool,
        result: Result<Self, String>,
    ) -> bool {
        match needed_blocks(codes, target) {
            Err(message) => result is Err && result->Err_0@ == message,
            Ok(selected) => match result {
                Ok(scheduler) => {
                    let graph = scheduler@.graph;
                    &&& graph.plans(codes, selected, Some(target))
                    &&& scheduler@ == SchedulerView::fresh(
                        graph,
                        graph.layers_view(),
                        FailurePolicy::Stop,
                        true,
                        skip_succeeded,
                    )
                    &&& scheduler.wf()
                },
                Err(message) => planned(
                    codes,
                    selected,
                    Some(target),
                    Err::<DependencyGraph, String>(message),
                ),
            },
        }
    }

    fn build_target(codes: &[Code], target: CodeId, skip_succeeded: bool) -> (result: Result<
        Self,
        String,
    >)
        requires
            valid_codes(codes@),
        ensures
            Self::built_for(codes@, target, skip_succeeded, result),
    {
        let graph = match DependencyGraph::for_target(codes, target) {
            Ok(graph) => graph,
            Err(message) => {
                return Err(message);
            },
        };
        let layers = graph.layers();
        let mut pending: VecDeque<Vec<CodeId>> = VecDeque::new();
        let mut l: usize = 0;
        assert(nested(pending@) =~= nested(layers@).take(0));
        while l < layers.len()
            invariant
                l <= layers.len(),
                nested(pending@) == nested(layers@).take(l as int),
            decreases layers.len() - l,
        {
            let ghost queue = nested(pending@);
            let mut batch: Vec<CodeId> = Vec::new();
            batch.extend_from_slice(layers[l].as_slice());
            pending.push_back(batch);
            proof {
                assert(batch@ =~= layers@[l as int]@);
                assert(nested(pending@) =~= queue.push(batch@));
                assert(nested(layers@).take(l + 1) =~= nested(layers@).take(
                    l as int,
                ).push(batch@));
            }
            l += 1;
        }
        assert(nested(layers@).take(l as int) =~= nested(layers@));
        Ok(Self::new(pending, graph, FailurePolicy::Stop, true, skip_succeeded))
    }

    fn new(
        pending: VecDeque<Vec<CodeId>>,
        graph: DependencyGraph,
        failure_policy: FailurePolicy,
        auto_run: bool,
        skip_succeeded: bool,
    ) -> (scheduler: Self)
        ensures
            scheduler.wf(),
            scheduler@ == SchedulerView::fresh(
                graph,
                nested(pending@),
                failure_policy,
                auto_run,
                skip_succeeded,
            ),
    {
        Scheduler {
            pending,
            running: HashSet::new(),
            blocked: HashSet::new(),
            graph,
            failure: None,
            failure_policy,
            auto_run,
            skip_succeeded,
        }
    }

    /// Returns the first batch and marks it running.
    ///
    /// Returns `None` if already started or no work remains.
    pub fn start(&mut self) -> (batch: Option<Vec<CodeId>>)
        requires
            old(self).wf(),
        ensures
            final(self).wf(),
            final(self)@ == old(self)@.start().0,
            match batch {
                Some(ids) => old(self)@.start().1 == Some(ids@),
                None => old(self)@.start().1 is None,
            },
    {
        if self.running.is_empty() {
            self.take_next_batch()
        } else {
            None
        }
    }

    /// Pops the next non-empty batch that hasn't been blocked.
    fn take_next_batch(&mut self) -> (batch: Option<Vec<CodeId>>)
        requires
            old(self).wf(),
        ensures
            final(self).wf(),
            final(self)@ == old(self)@.take_next().0,
            match batch {
                Some(ids) => old(self)@.take_next().1 == Some(ids@),
                None => old(self)@.take_next().1 is None,
            },
    {
        loop
            invariant
                old(self).wf(),
                self@ == (SchedulerView { pending: self@.pending, ..old(self)@ }),
                next_batch(self@.pending, self@.blocked) == next_batch(
                    old(self)@.pending,
                    old(self)@.blocked,
                ),
            decreases self.pending@.len(),
        {
            let ghost queue = self@.pending;
            match self.pending.pop_front() {
                None => {
                    return None;
                },
                Some(batch) => {
                    proof {
                        assert(self@.pending =~= queue.drop_first());
                        assert(queue[0] == batch@);
                    }
                    let kept = filter_ids(&batch, &self.blocked, false);
                    assert((|id: CodeId| self.blocked@.contains(id) == false) =~= (|id: CodeId|
                        !self.blocked@.contains(id)));
                    if kept.len() > 0 {
                        self.mark_running(&kept);
                        return Some(kept);
                    }
                },
            }
        }
    }

    /// Marks blocks as running.
    fn mark_running(&mut self, ids: &Vec<CodeId>)
        requires
            old(self).wf(),
        ensures
            final(self)@ == (SchedulerView {
                running: old(self)@.running.union(ids@.to_set()),
                ..old(self)@
            }),
            final(self).wf(),
    {
        let ghost running = self.running@;
        let mut i: usize = 0;
        while i < ids.len()
            invariant
                i <= ids@.len(),
                old(self).wf(),
                self.running@.finite(),
                self@ == (SchedulerView { running: self.running@, ..old(self)@ }),
                running == old(self)@.running,
                forall|id: CodeId| #[trigger]
                    self.running@.contains(id) <==> running.contains(id) || ids@.take(
                        i as int,
                    ).contains(id),
            decreases ids@.len() - i,
        {
            proof {
                lemma_take_contains(ids@, i as int);
            }
            self.running.insert(ids[i]);
            i += 1;
        }
        assert(ids@.take(i as int) =~= ids@);
        assert(self.running@ =~= running.union(ids@.to_set()));
    }

    /// Marks all transitive dependents of `failed` as blocked.
    fn block_dependents(&mut self, failed: CodeId)
        requires
            old(self).wf(),
        ensures
            final(self).wf(),
            final(self)@ == (SchedulerView {
                blocked: old(self)@.blocked.union(all_waiting_for(old(self)@.graph, failed)),
                ..old(self)@
            }),
    {
        let mut stack: Vec<CodeId> = Vec::new();
        stack.push(failed);
        assert(stack@[0] == failed && stack@.contains(failed));
        let ghost graph = self.graph;
        while stack.len() > 0
            invariant
                self.graph == graph,
                graph == old(self).graph,
                self@ == (SchedulerView { blocked: self.blocked@, ..old(self)@ }),
                self.blocked@.finite(),
                old(self).wf(),
                forall|id: CodeId| old(self).blocked@.contains(id) ==> self.blocked@.contains(id),
                forall|id: CodeId| #[trigger]
                    self.blocked@.contains(id) ==> old(self).blocked@.contains(id) || waits_for(
                        graph,
                        id,
                        failed,
                    ),
                forall|i: int|
                    0 <= i < stack@.len() ==> #[trigger] stack@[i] == failed || waits_for(
                        graph,
                        stack@[i],
                        failed,
                    ),
                forall|y: CodeId, d: CodeId|
                    (self.blocked@.contains(y) || y == failed) && !stack@.contains(y)
                        && #[trigger] graph.dependents_of(y).contains(d) ==> self.blocked@.contains(
                        d,
                    ),
            decreases 0x1_0000_0000 - self.blocked@.len() + stack@.len(),
        {
            let ghost stack_before = stack@;
            let block = stack[stack.len() - 1];
            stack.pop();
            let ghost rest = stack@;
            proof {
                lemma_id_set_bound(self.blocked@);
                assert(stack_before == rest.push(block));
                lemma_push_contains(rest, block);
                assert(stack_before[stack_before.len() - 1] == block);
            }
            let ghost blocked_before = self.blocked@;
            if let Some(dependents) = self.graph.dependents(block) {
                assert(graph.dependents_of(block) == dependents@);
                let mut i: usize = 0;
                while i < dependents.len()
                    invariant
                        i <= dependents.len(),
                        self.graph == graph,
                        graph == old(self).graph,
                        graph.dependents_of(block) == dependents@,
                        self@ == (SchedulerView { blocked: self.blocked@, ..old(self)@ }),
                        self.blocked@.finite(),
                        block == failed || waits_for(graph, block, failed),
                        forall|id: CodeId| blocked_before.contains(id) ==> self.blocked@.contains(
                            id,
                        ),
                        forall|id: CodeId| #[trigger]
                            self.blocked@.contains(id) ==> old(self).blocked@.contains(id)
                                || waits_for(graph, id, failed),
                        forall|j: int|
                            0 <= j < stack@.len() ==> #[trigger] stack@[j] == failed || waits_for(
                                graph,
                                stack@[j],
                                failed,
                            ),
                        forall|id: CodeId| #[trigger]
                            self.blocked@.contains(id) && !blocked_before.contains(id)
                                ==> stack@.contains(id),
                        forall|id: CodeId| rest.contains(id) ==> stack@.contains(id),
                        forall|id: CodeId|
                            dependents@.take(i as int).contains(id) ==> self.blocked@.contains(id),
                        stack@.len() - self.blocked@.len() == rest.len() - blocked_before.len(),
                    decreases dependents.len() - i,
                {
                    let dependent = dependents[i];
                    proof {
                        lemma_take_contains(dependents@, i as int);
                        lemma_push_contains(stack@, dependent);
                        assert(dependents@.contains(dependent));
                        if block == failed {
                            let chain = seq![failed, dependent];
                            assert(waiting_chain(graph, chain));
                            assert(chain[0] == failed && chain.last() == dependent);
                        } else {
                            let chain = choose|chain: Seq<CodeId>| #[trigger]
                                waiting_chain(graph, chain) && chain.len() >= 2 && chain[0]
                                    == failed && chain.last() == block;
                            lemma_chain_push(graph, chain, dependent);
                            let longer = chain.push(dependent);
                            assert(longer[0] == failed && longer.last() == dependent);
                        }
                        assert(waits_for(graph, dependent, failed));
                    }
                    if self.blocked.insert(dependent) {
                        stack.push(dependent);
                    } else {
                        assert(self.blocked@ =~= self.blocked@.insert(dependent));
                    }
                    i += 1;
                }
                assert(dependents@.take(i as int) =~= dependents@);
            }
            proof {
                assert forall|y: CodeId, d: CodeId|
                    (self.blocked@.contains(y) || y == failed) && !stack@.contains(y)
                        && #[trigger] graph.dependents_of(y).contains(d) implies self.blocked@.contains(d) by {
                    if y != block {
                        if y == failed || blocked_before.contains(y) {
                            assert(!stack_before.contains(y));
                            assert(blocked_before.contains(d));
                        }
                    }
                }
            }
        }
        proof {
            assert forall|id: CodeId| self.blocked@.contains(id) <==> (old(self).blocked@.contains(id)
                || waits_for(graph, id, failed)) by {
                if waits_for(graph, id, failed) {
                    let chain = choose|chain: Seq<CodeId>| #[trigger]
                        waiting_chain(graph, chain) && chain.len() >= 2 && chain[0] == failed
                            && chain.last() == id;
                    lemma_chain_inside(graph, self.blocked@, failed, chain);
                }
            }
            assert(self.blocked@ =~= old(self).blocked@.union(all_waiting_for(graph, failed)));
        }
    }

    /// Records completion of `block` and returns the next action.
    ///
    /// Call once per block when it finishes. `exit_code` is `Some(0)` for
    /// success, `Some(n)` for failure, or `None` if the process was killed.
    pub fn advance(&mut self, block: CodeId, exit_code: Option<i32>) -> (result: AdvanceResult)
        requires
            old(self).wf(),
        ensures
            final(self).wf(),
            (final(self)@, result@) == old(self)@.advance(block, exit_code),
    {
        if !self.running.remove(&block) {
            assert(self.running@ =~= old(self).running@);
            return AdvanceResult::Untracked;
        }
        assert(self.running@ =~= old(self).running@.remove(block));
        assert(self@ == (SchedulerView { running: self.running@, ..old(self)@ }));
        let succeeded = match exit_code {
            Some(code) => code == 0,
            None => false,
        };
        if !succeeded {
            if self.failure.is_none() {
                self.failure = Some(BlockFailure { block, exit_code });
            }
            if self.failure_policy == FailurePolicy::Continue {
                self.block_dependents(block);
            }
        }
        if !self.running.is_empty() {
            return AdvanceResult::Pending;
        }
        if self.failure_policy == FailurePolicy::Stop {
            if let Some(failure) = self.failure {
                self.pending.clear();
                assert(self@.pending =~= Seq::empty());
                return AdvanceResult::Stopped(failure);
            }
        }
        match self.take_next_batch() {
            Some(batch) => AdvanceResult::NextBatch(batch),
            None => AdvanceResult::Finished { failed: self.failure.is_some() },
        }
    }

    /// The target block this schedule is working toward, if any.
    pub fn target(&self) -> (target: Option<CodeId>)
        ensures
            target == self@.graph.target_view(),
    {
        self.graph.target()
    }

    /// The plan.
    pub fn graph(&self) -> (graph: &DependencyGraph)
        ensures
            *graph == self@.graph,
    {
        &self.graph
    }

    /// Whether the scheduler should start running immediately.
    pub fn auto_run(&self) -> (auto_run: bool)
        ensures
            auto_run == self@.auto_run,
    {
        self.auto_run
    }

    /// Whether `block` should execute given its previous result.
    ///
    /// Normal plans reuse successful prerequisites while always executing the
    /// target. Explicit rerun plans execute the entire dependency chain.
    pub fn should_execute(&self, block: CodeId, succeeded: bool) -> (execute: bool)
        ensures
            execute == self@.executes(block, succeeded),
    {
        if !self.skip_succeeded || !succeeded {
            return true;
        }
        match self.graph.target() {
            Some(target) => target == block,
            None => false,
        }
    }

    /// Whether `block` is currently executing.
    pub fn is_running(&self, block: CodeId) -> (running: bool)
        ensures
            running == self@.running.contains(block),
    {
        self.running.contains(&block)
    }
}

/// A batch that is handed out holds no blocked block.
pub proof fn law_blocked_never_run(pending: Seq<Seq<CodeId>>, blocked: Set<CodeId>)
    ensures
        next_batch(pending, blocked).0 matches Some(ids) ==> ids.len() > 0 && forall|id: CodeId| #[trigger]
            ids.contains(id) ==> !blocked.contains(id),
        next_batch(pending, blocked).1.len() <= pending.len(),
        next_batch(pending, blocked).0 is Some ==> next_batch(pending, blocked).1.len()
            < pending.len(),
        next_batch(pending, blocked).0 is None ==> next_batch(pending, blocked).1.len() == 0,
    decreases pending.len(),
{
    if pending.len() > 0 {
        lemma_filter_contains(pending[0], |id: CodeId| !blocked.contains(id));
        if open_part(pending[0], blocked).len() == 0 {
            law_blocked_never_run(pending.drop_first(), blocked);
        }
    }
}

/// What is handed out leaves the queue: where every block is queued at most
/// once, no block of a batch is still queued, and nothing new is.
pub proof fn law_each_block_runs_once(pending: Seq<Seq<CodeId>>, blocked: Set<CodeId>)
    requires
        joined(pending).no_duplicates(),
    ensures
        joined(next_batch(pending, blocked).1).no_duplicates(),
        forall|id: CodeId| #[trigger]
            joined(next_batch(pending, blocked).1).contains(id) ==> joined(pending).contains(id),
        next_batch(pending, blocked).0 matches Some(ids) ==> ids.no_duplicates() && forall|
            id: CodeId,
        | #[trigger]
            ids.contains(id) ==> joined(pending).contains(id) && !joined(
                next_batch(pending, blocked).1,
            ).contains(id),
    decreases pending.len(),
{
    if pending.len() > 0 {
        let first = pending[0];
        let tail = joined(pending.drop_first());
        lemma_joined_first(pending);
        lemma_add_contains(first, tail);
        let keep = |id: CodeId| !blocked.contains(id);
        lemma_filter_contains(first, keep);
        assert(first.no_duplicates()) by {
            assert forall|i: int, j: int| 0 <= i < j < first.len() implies first[i] != first[j] by {
                assert(joined(pending)[i] == first[i] && joined(pending)[j] == first[j]);
            }
        }
        assert(tail.no_duplicates()) by {
            assert forall|i: int, j: int| 0 <= i < j < tail.len() implies tail[i] != tail[j] by {
                assert(joined(pending)[first.len() + i] == tail[i]);
                assert(joined(pending)[first.len() + j] == tail[j]);
            }
        }
        lemma_filter_distinct(first, keep);
        assert forall|id: CodeId| first.contains(id) implies !tail.contains(id) by {
            if tail.contains(id) {
                let i = first.index_of(id);
                let j = tail.index_of(id);
                assert(joined(pending)[i] == joined(pending)[first.len() + j]);
            }
        }
        if open_part(first, blocked).len() == 0 {
            law_each_block_runs_once(pending.drop_first(), blocked);
        }
    }
}

/// A failed block keeps whatever waits for it from running, where the plan goes
/// on after a failure.
pub proof fn law_failure_skips_dependents(
    state: SchedulerView,
    block: CodeId,
    exit_code: Option<i32>,
    id: CodeId,
)
    requires
        state.running.contains(block),
        exit_code != Some(0i32),
        state.policy == FailurePolicy::Continue,
        waits_for(state.graph, id, block),
    ensures
        state.advance(block, exit_code).0.blocked.contains(id),
        state.advance(block, exit_code).1 matches AdvanceView::NextBatch(ids) ==> !ids.contains(id),
{
    let ended = state.end_block(block, exit_code);
    law_blocked_never_run(ended.pending, ended.blocked);
}

/// Blocks stay blocked, and no later batch holds them.
pub proof fn law_blocked_stay_blocked(
    state: SchedulerView,
    block: CodeId,
    exit_code: Option<i32>,
    id: CodeId,
)
    requires
        state.blocked.contains(id),
    ensures
        state.advance(block, exit_code).0.blocked.contains(id),
        state.advance(block, exit_code).1 matches AdvanceView::NextBatch(ids) ==> !ids.contains(id),
{
    let ended = state.end_block(block, exit_code);
    law_blocked_never_run(ended.pending, ended.blocked);
}

/// Nothing runs any more once the plan has stopped or is finished.
pub proof fn law_nothing_follows_the_end(
    state: SchedulerView,
    block: CodeId,
    exit_code: Option<i32>,
)
    requires
        state.advance(block, exit_code).1 is Stopped || state.advance(block, exit_code).1
            is Finished,
    ensures
        state.advance(block, exit_code).0.start().1 is None,
        state.advance(block, exit_code).0.running.is_empty(),
{
    let ended = state.end_block(block, exit_code);
    law_blocked_never_run(ended.pending, ended.blocked);
}

/// Every batch that is handed out shortens the queue, so a plan comes to an
/// end.
pub proof fn law_batches_use_up_the_queue(
    state: SchedulerView,
    block: CodeId,
    exit_code: Option<i32>,
)
    ensures
        state.advance(block, exit_code).1 is NextBatch ==> state.advance(
            block,
            exit_code,
        ).0.pending.len() < state.pending.len(),
        state.advance(block, exit_code).0.pending.len() <= state.pending.len(),
{
    let ended = state.end_block(block, exit_code);
    law_blocked_never_run(ended.pending, ended.blocked);
}

/// Where a plan stops on a failure, the last block of a batch that held one stops it:
/// nothing of it is left to run, and the first block that failed is reported.
pub proof fn law_failure_stops_the_plan(
    state: SchedulerView,
    block: CodeId,
    exit_code: Option<i32>,
)
    requires
        state.policy == FailurePolicy::Stop,
        state.running.contains(block),
    ensures
        ({
            let (after, result) = state.advance(block, exit_code);
            let over = forall|id: CodeId| #[trigger] state.running.contains(id) ==> id == block;
            &&& over && exit_code != Some(0i32) && state.failure is None ==> (result
                matches AdvanceView::Stopped(failure) && failure.block == block
                && failure.exit_code == exit_code)
            &&& over && state.failure is Some ==> (result matches AdvanceView::Stopped(failure)
                && failure == state.failure->0)
            &&& result is Stopped ==> after.pending.len() == 0 && after.start().1 is None
            &&& over && exit_code == Some(0i32) && state.failure is None ==> result is NextBatch
                || result == AdvanceView::Finished(false)
            &&& !over ==> result is Pending
            &&& !after.running.contains(block) || result is NextBatch
        }),
{
    let ended = state.end_block(block, exit_code);
    if forall|id: CodeId| #[trigger] state.running.contains(id) ==> id == block {
        assert(ended.running =~= Set::<CodeId>::empty());
    } else {
        let other = choose|id: CodeId| #[trigger] state.running.contains(id) && id != block;
        assert(ended.running.contains(other));
    }
}

/// A block that is not running does not end, and ends nothing.
pub proof fn law_strangers_change_nothing(
    state: SchedulerView,
    block: CodeId,
    exit_code: Option<i32>,
)
    requires
        !state.running.contains(block),
    ensures
        state.advance(block, exit_code) == (state, AdvanceView::Untracked),
{
}

/// A block that succeeded before is reused rather than run again, unless it is the one
/// that was asked for, or everything is to run again; a block that did not is run.
pub proof fn law_successes_are_reused(state: SchedulerView, block: CodeId)
    ensures
        state.executes(block, false),
        state.graph.target_view() == Some(block) ==> state.executes(block, true),
        !state.skip_succeeded ==> state.executes(block, true),
        state.skip_succeeded && state.graph.target_view() != Some(block) ==> !state.executes(
            block,
            true,
        ),
{
}

/// A plan starts with the first batch of its queue, whose blocks all run then, and does
/// not start again while blocks are running.
pub proof fn law_plans_start_with_the_first_batch(
    graph: DependencyGraph,
    pending: Seq<Seq<CodeId>>,
    policy: FailurePolicy,
    auto_run: bool,
    skip_succeeded: bool,
    id: CodeId,
)
    requires
        pending.len() > 0,
        pending[0].len() > 0,
    ensures
        ({
            let fresh = SchedulerView::fresh(graph, pending, policy, auto_run, skip_succeeded);
            let (begun, batch) = fresh.start();
            &&& batch == Some(pending[0])
            &&& begun.pending == pending.drop_first()
            &&& begun.running.contains(id) <==> pending[0].contains(id)
            &&& begun.start() == (begun, None::<Seq<CodeId>>)
        }),
{
    let fresh = SchedulerView::fresh(graph, pending, policy, auto_run, skip_succeeded);
    let keep = |x: CodeId| !Set::<CodeId>::empty().contains(x);
    crate::seqs::lemma_filter_contains(pending[0], keep);
    lemma_keeps_all(pending[0], keep);
    let (begun, batch) = fresh.start();
    assert(pending[0].contains(pending[0][0]));
    assert(begun.running.contains(pending[0][0]));
}

proof fn lemma_keeps_all(s: Seq<CodeId>, keep: spec_fn(CodeId) -> bool)
    requires
        forall|x: CodeId| #[trigger] keep(x),
    ensures
        s.filter(keep) == s,
    decreases s.len(),
{
    reveal(Seq::filter);
    if s.len() > 0 {
        lemma_keeps_all(s.drop_last(), keep);
        assert(keep(s.last()));
        assert(s.drop_last().push(s.last()) =~= s);
    } else {
        assert(s.filter(keep) =~= s);
    }
}

} // verus!
