//! Runs that nobody watches: when they quit, and with which result.

use vstd::prelude::*;

use super::app::{quietly, Flow, NextView, StepView};
use crate::code::{Code, CodeId};
use crate::scheduler::AdvanceView;

verus! {

/// A block that ended, with its exit code where it has one.
pub type Ended = (CodeId, Option<i32>);

/// Some of these blocks failed.
pub open spec fn some_failed(ends: Seq<Ended>) -> bool {
    exists|k: int| 0 <= k < ends.len() && (#[trigger] ends[k]).1 != Some(0i32)
}

impl Flow {
    /// Blocks ended, one after the other.
    pub open spec fn after_ends(self, codes: Seq<Code>, yes: bool, ends: Seq<Ended>) -> (
        Flow,
        StepView,
    )
        decreases ends.len(),
    {
        if ends.len() == 0 {
            (self, quietly(NextView::Nothing))
        } else {
            let before = self.after_ends(codes, yes, ends.drop_last()).0;
            before.ended(codes, yes, ends.last().0, ends.last().1)
        }
    }

    /// A block of the plan that is running.
    pub open spec fn runs(self, id: CodeId) -> bool {
        self.workflow is Some && self.workflow->0.running.contains(id)
    }

    /// Each of these blocks was running when it ended.
    pub open spec fn all_ran(self, codes: Seq<Code>, yes: bool, ends: Seq<Ended>) -> bool {
        forall|k: int|
            0 <= k < ends.len() ==> self.after_ends(codes, yes, ends.take(k)).0.runs(
                (#[trigger] ends[k]).0,
            )
    }

    proof fn lemma_failures_are_remembered(self, codes: Seq<Code>, yes: bool, ends: Seq<Ended>)
        requires
            self.workflow is Some,
            self.workflow->0.failure is None,
            self.all_ran(codes, yes, ends),
        ensures
            ({
                let after = self.after_ends(codes, yes, ends).0;
                after.workflow is Some ==> (after.workflow->0.failure is Some <==> some_failed(ends))
            }),
        decreases ends.len(),
    {
        if ends.len() > 0 {
            let less = ends.drop_last();
            self.lemma_less_ran(codes, yes, ends);
            self.lemma_failures_are_remembered(codes, yes, less);
            let last = ends.len() - 1;
            assert(ends.take(last) =~= less);
            assert(self.after_ends(codes, yes, ends.take(last)).0.runs(ends[last].0));
            lemma_one_more_end(ends);
        }
    }

    proof fn lemma_less_ran(self, codes: Seq<Code>, yes: bool, ends: Seq<Ended>)
        requires
            ends.len() > 0,
            self.all_ran(codes, yes, ends),
        ensures
            self.all_ran(codes, yes, ends.drop_last()),
    {
        let less = ends.drop_last();
        assert forall|k: int| 0 <= k < less.len() implies self.after_ends(
            codes,
            yes,
            less.take(k),
        ).0.runs((#[trigger] less[k]).0) by {
            assert(less.take(k) =~= ends.take(k));
            assert(less[k] == ends[k]);
        }
    }

    /// An unattended plan quits exactly once it is over, and counts as failed exactly
    /// where some block of it ended with another exit code than zero, or without one.
    pub proof fn law_failures_decide_the_result(self, codes: Seq<Code>, ends: Seq<Ended>)
        requires
            self.workflow is Some,
            self.workflow->0.failure is None,
            self.all_ran(codes, true, ends),
        ensures
            ({
                let (after, step) = self.after_ends(codes, true, ends);
                &&& step.next is Quit <==> after.workflow is None
                &&& step.next is Quit ==> (after.failed <==> some_failed(ends))
                &&& step.next is Quit ==> after.pending.len() == 0
            }),
    {
        if ends.len() > 0 {
            let less = ends.drop_last();
            let last = ends.len() - 1;
            self.lemma_less_ran(codes, true, ends);
            self.lemma_failures_are_remembered(codes, true, less);
            assert(ends.take(last) =~= less);
            let before = self.after_ends(codes, true, less).0;
            assert(self.after_ends(codes, true, ends.take(last)).0.runs(ends[last].0));
            lemma_one_more_end(ends);
            let ended = before.workflow->0.end_block(ends[last].0, ends[last].1);
            assert(ended.failure is Some <==> some_failed(ends));
        }
    }

    /// A plan that the user watches never quits, nor changes the result.
    pub proof fn law_attended_runs_stay(self, codes: Seq<Code>, ends: Seq<Ended>)
        ensures
            !(self.after_ends(codes, false, ends).1.next is Quit),
            self.after_ends(codes, false, ends).0.failed == self.failed,
        decreases ends.len(),
    {
        if ends.len() > 0 {
            self.law_attended_runs_stay(codes, ends.drop_last());
        }
    }

    /// However a plan ended before, an unattended one that is finished counts as failed
    /// as the plan says, and one that is stopped always does.
    pub proof fn law_the_end_decides(self, codes: Seq<Code>, result: AdvanceView)
        ensures
            result matches AdvanceView::Finished(failed) ==> self.handled(
                codes,
                true,
                result,
            ).0.failed == failed,
            result is Stopped ==> self.handled(codes, true, result).0.failed,
            result is Finished || result is Stopped ==> self.handled(codes, true, result).1.next
                is Quit,
            result is Stopped <==> self.handled(codes, true, result).1.message is Some,
    {
    }

    /// What is left of a batch while its blocks are started.
    spec fn still_runs(self, batch: Seq<CodeId>, from: int) -> bool {
        &&& self.workflow is Some
        &&& forall|k: int|
            from <= k < batch.len() ==> self.workflow->0.running.contains(#[trigger] batch[k])
    }

    proof fn lemma_launched(
        self,
        batch: Seq<CodeId>,
        succeeded: spec_fn(CodeId) -> bool,
        not_started: Seq<CodeId>,
        n: int,
    )
        requires
            0 <= n <= batch.len(),
            batch.no_duplicates(),
            self.still_runs(batch, 0),
        ensures
            ({
                let after = self.launched(batch.take(n), succeeded, not_started).0;
                &&& after.still_runs(batch, n)
                &&& after.workflow->0.skip_succeeded == self.workflow->0.skip_succeeded
                &&& after.workflow->0.graph == self.workflow->0.graph
                &&& after.workflow->0.failure is Some <==> (self.workflow->0.failure is Some
                    || exists|k: int|
                    0 <= k < n && self.executes(#[trigger] batch[k], succeeded(batch[k]))
                        && not_started.contains(batch[k]))
            }),
        decreases n,
    {
        if n > 0 {
            let less = batch.take(n - 1);
            self.lemma_launched(batch, succeeded, not_started, n - 1);
            assert(batch.take(n).drop_last() =~= less);
            let before = self.launched(less, succeeded, not_started).0;
            let id = batch[n - 1];
            assert(batch.take(n).last() == id);
            let after = self.launched(batch.take(n), succeeded, not_started).0;
            assert(before.workflow->0.running.contains(batch[n - 1]));
            assert(before.executes(id, succeeded(id)) == self.executes(id, succeeded(id)));
            assert forall|k: int|
                n <= k < batch.len() implies after.workflow->0.running.contains(
                #[trigger] batch[k],
            ) by {
                assert(batch[k] != id);
                assert(before.workflow->0.running.contains(batch[k]));
                let ended0 = before.workflow->0.end_block(id, Some(0));
                let ended1 = before.workflow->0.end_block(id, Some(1));
                assert(ended0.running.contains(batch[k]));
                assert(ended1.running.contains(batch[k]));
            }
            if exists|k: int|
                0 <= k < n && self.executes(#[trigger] batch[k], succeeded(batch[k]))
                    && not_started.contains(batch[k]) {
                let k = choose|k: int|
                    0 <= k < n && self.executes(#[trigger] batch[k], succeeded(batch[k]))
                        && not_started.contains(batch[k]);
                if k < n - 1 {
                    assert(before.workflow->0.failure is Some);
                }
            }
        }
    }

    /// A block that has to execute and cannot be started counts as failed, whatever
    /// comes of the others; one that need not execute counts as successful.
    pub proof fn law_blocks_that_cannot_start_fail(
        self,
        batch: Seq<CodeId>,
        succeeded: spec_fn(CodeId) -> bool,
        not_started: Seq<CodeId>,
    )
        requires
            self.workflow is Some,
            self.workflow->0.failure is None,
            batch.no_duplicates(),
            forall|k: int|
                0 <= k < batch.len() ==> self.workflow->0.running.contains(#[trigger] batch[k]),
        ensures
            self.launched(batch, succeeded, not_started).0.workflow is Some,
            self.launched(batch, succeeded, not_started).0.workflow->0.failure is Some <==> exists|
                k: int,
            |
                0 <= k < batch.len() && self.executes(#[trigger] batch[k], succeeded(batch[k]))
                    && not_started.contains(batch[k]),
    {
        assert(batch.take(batch.len() as int) =~= batch);
        self.lemma_launched(batch, succeeded, not_started, batch.len() as int);
    }
}

proof fn lemma_one_more_end(ends: Seq<Ended>)
    requires
        ends.len() > 0,
    ensures
        some_failed(ends) <==> some_failed(ends.drop_last()) || ends.last().1 != Some(0i32),
{
    let less = ends.drop_last();
    if some_failed(less) {
        let k = choose|k: int| 0 <= k < less.len() && (#[trigger] less[k]).1 != Some(0i32);
        assert(ends[k] == less[k]);
    }
    if some_failed(ends) {
        let k = choose|k: int| 0 <= k < ends.len() && (#[trigger] ends[k]).1 != Some(0i32);
        if k < less.len() {
            assert(less[k] == ends[k]);
        }
    }
}

} // verus!
