//! What code blocks leave behind for the blocks that follow.

use vstd::prelude::*;

use crate::code::CodeId;
use crate::exec::Envs;

verus! {

/// What a block left behind, kept until its batch is over.
pub struct Captured {
    pub envs: Option<Envs>,
    pub cwd: Option<String>,
}

/// The contents of what a block left behind.
pub struct CapturedView {
    pub envs: Option<Map<Seq<char>, Seq<char>>>,
    pub cwd: Option<Seq<char>>,
}

impl View for Captured {
    type V = CapturedView;

    open spec fn view(&self) -> CapturedView {
        CapturedView {
            envs: match self.envs {
                Some(envs) => Some(envs@),
                None => None,
            },
            cwd: match self.cwd {
                Some(cwd) => Some(cwd@),
                None => None,
            },
        }
    }
}

/// The contents of what blocks left behind.
pub open spec fn captured_list(pending: Seq<(CodeId, Captured)>) -> Seq<(CodeId, CapturedView)> {
    pending.map_values(|entry: (CodeId, Captured)| (entry.0, entry.1@))
}

/// Block numbers strictly ascend, and the variables are in order.
pub open spec fn captured_wf(pending: Seq<(CodeId, Captured)>) -> bool {
    &&& forall|i: int, j: int|
        0 <= i < j < pending.len() ==> (#[trigger] pending[i]).0 < (#[trigger] pending[j]).0
    &&& forall|i: int|
        0 <= i < pending.len() ==> ((#[trigger] pending[i]).1.envs matches Some(envs)
            ==> envs.wf())
}

/// The variables after those of each block have been merged in, in the order of
/// the list.
pub open spec fn merged_envs(
    envs: Map<Seq<char>, Seq<char>>,
    pending: Seq<(CodeId, CapturedView)>,
) -> Map<Seq<char>, Seq<char>>
    decreases pending.len(),
{
    if pending.len() == 0 {
        envs
    } else {
        let before = merged_envs(envs, pending.drop_last());
        match pending.last().1.envs {
            Some(captured) => before.union_prefer_right(captured),
            None => before,
        }
    }
}

/// The last working directory that a block left behind, or `cwd`.
pub open spec fn merged_cwd(cwd: Seq<char>, pending: Seq<(CodeId, CapturedView)>) -> Seq<char>
    decreases pending.len(),
{
    if pending.len() == 0 {
        cwd
    } else {
        match pending.last().1.cwd {
            Some(captured) => captured,
            None => merged_cwd(cwd, pending.drop_last()),
        }
    }
}

/// Nothing left behind.
pub open spec fn nothing_captured() -> CapturedView {
    CapturedView { envs: None, cwd: None }
}

/// What a block has left behind so far.
pub open spec fn captured_of(pending: Seq<(CodeId, CapturedView)>, id: CodeId) -> CapturedView
    decreases pending.len(),
{
    if pending.len() == 0 {
        nothing_captured()
    } else if pending[0].0 == id {
        pending[0].1
    } else {
        captured_of(pending.drop_first(), id)
    }
}

/// The list with what one block left behind set, in the order of block numbers.
pub open spec fn captured_set(
    pending: Seq<(CodeId, CapturedView)>,
    id: CodeId,
    captured: CapturedView,
) -> Seq<(CodeId, CapturedView)>
    decreases pending.len(),
{
    if pending.len() == 0 {
        seq![(id, captured)]
    } else if pending[0].0 < id {
        seq![pending[0]] + captured_set(pending.drop_first(), id, captured)
    } else if pending[0].0 == id {
        seq![(id, captured)] + pending.drop_first()
    } else {
        seq![(id, captured)] + pending
    }
}

/// The list without what one block left behind.
pub open spec fn captured_without(pending: Seq<(CodeId, CapturedView)>, id: CodeId) -> Seq<
    (CodeId, CapturedView),
>
    decreases pending.len(),
{
    if pending.len() == 0 {
        pending
    } else if pending[0].0 == id {
        pending.drop_first()
    } else {
        seq![pending[0]] + captured_without(pending.drop_first(), id)
    }
}

/// What the list functions do at the place of a block.
proof fn lemma_captured_at(
    pending: Seq<(CodeId, CapturedView)>,
    id: CodeId,
    captured: CapturedView,
    at: int,
)
    requires
        0 <= at <= pending.len(),
        forall|k: int| 0 <= k < at ==> (#[trigger] pending[k]).0 < id,
        at < pending.len() ==> pending[at].0 >= id,
        forall|j: int, k: int|
            0 <= j < k < pending.len() ==> (#[trigger] pending[j]).0 < (#[trigger] pending[k]).0,
    ensures
        at < pending.len() && pending[at].0 == id ==> {
            &&& captured_of(pending, id) == pending[at].1
            &&& captured_set(pending, id, captured) == pending.update(at, (id, captured))
            &&& captured_without(pending, id) == pending.remove(at)
        },
        !(at < pending.len() && pending[at].0 == id) ==> {
            &&& captured_of(pending, id) == nothing_captured()
            &&& captured_set(pending, id, captured) == pending.insert(at, (id, captured))
            &&& captured_without(pending, id) == pending
        },
    decreases pending.len(),
{
    if pending.len() == 0 {
        assert(captured_set(pending, id, captured) =~= pending.insert(at, (id, captured)));
    } else {
        let rest = pending.drop_first();
        assert forall|j: int, k: int| 0 <= j < k < rest.len() implies (#[trigger] rest[j]).0 < (
        #[trigger] rest[k]).0 by {
            assert(pending[j + 1].0 < pending[k + 1].0);
        }
        if at > 0 {
            assert(pending[0].0 < id);
            assert forall|k: int| 0 <= k < at - 1 implies (#[trigger] rest[k]).0 < id by {
                assert(pending[k + 1].0 < id);
            }
            lemma_captured_at(rest, id, captured, at - 1);
            if at < pending.len() {
                assert(seq![pending[0]] + rest.update(at - 1, (id, captured)) =~= pending.update(
                    at,
                    (id, captured),
                ));
                assert(seq![pending[0]] + rest.remove(at - 1) =~= pending.remove(at));
            }
            assert(seq![pending[0]] + rest.insert(at - 1, (id, captured)) =~= pending.insert(
                at,
                (id, captured),
            ));
            assert(seq![pending[0]] + rest =~= pending);
        } else {
            if pending[0].0 == id {
                assert(seq![(id, captured)] + rest =~= pending.update(0, (id, captured)));
                assert(rest =~= pending.remove(0));
            } else {
                assert forall|k: int| 0 <= k < 0 implies (#[trigger] rest[k]).0 < id by {}
                if rest.len() > 0 {
                    assert(pending[0].0 < pending[1].0);
                }
                lemma_captured_at(rest, id, captured, 0);
                assert(rest.len() > 0 ==> rest[0].0 != id);
                assert(seq![pending[0]] + rest =~= pending);
                assert(seq![(id, captured)] + pending =~= pending.insert(0, (id, captured)));
            }
        }
    }
}

/// What a block has left behind, with more of it.
pub open spec fn captured_with(
    before: CapturedView,
    envs: Option<Map<Seq<char>, Seq<char>>>,
    cwd: Option<Seq<char>>,
) -> CapturedView {
    CapturedView {
        envs: if envs is Some {
            envs
        } else {
            before.envs
        },
        cwd: if cwd is Some {
            cwd
        } else {
            before.cwd
        },
    }
}

/// The place in the list of what blocks left behind.
fn captured_place(pending: &Vec<(CodeId, Captured)>, id: CodeId) -> (at: usize)
    requires
        captured_wf(pending@),
    ensures
        at <= pending@.len(),
        forall|k: int| 0 <= k < at ==> (#[trigger] pending@[k]).0 < id,
        at < pending@.len() ==> pending@[at as int].0 >= id,
{
    let mut at: usize = 0;
    while at < pending.len()
        invariant
            at <= pending@.len(),
            forall|k: int| 0 <= k < at ==> (#[trigger] pending@[k]).0 < id,
        decreases pending@.len() - at,
    {
        if pending[at].0 >= id {
            return at;
        }
        at += 1;
    }
    at
}

/// Forgets what a block left behind.
pub fn forget_captured(pending: &mut Vec<(CodeId, Captured)>, id: CodeId)
    requires
        captured_wf(old(pending)@),
    ensures
        captured_wf(final(pending)@),
        captured_list(final(pending)@) == captured_without(captured_list(old(pending)@), id),
{
    let at = captured_place(pending, id);
    let ghost before = captured_list(pending@);
    proof {
        lemma_captured_at(before, id, nothing_captured(), at as int);
    }
    if at < pending.len() && pending[at].0 == id {
        pending.remove(at);
        assert(captured_list(pending@) =~= before.remove(at as int));
    }
}

/// Keeps what a block left behind.
pub fn keep_captured(
    pending: &mut Vec<(CodeId, Captured)>,
    id: CodeId,
    envs: Option<Envs>,
    cwd: Option<String>,
)
    requires
        captured_wf(old(pending)@),
        envs matches Some(captured) ==> captured.wf(),
    ensures
        captured_wf(final(pending)@),
        ({
            let before = captured_list(old(pending)@);
            captured_list(final(pending)@) == captured_set(
                before,
                id,
                captured_with(
                    captured_of(before, id),
                    match envs {
                        Some(captured) => Some(captured@),
                        None => None,
                    },
                    match cwd {
                        Some(captured) => Some(captured@),
                        None => None,
                    },
                ),
            )
        }),
{
    let at = captured_place(pending, id);
    let ghost before = captured_list(pending@);
    let mut entry = Captured { envs: None, cwd: None };
    let known = at < pending.len() && pending[at].0 == id;
    let ghost whole = pending@;
    if known {
        assert(before[at as int] == (whole[at as int].0, whole[at as int].1@));
        let (_, found) = pending.remove(at);
        entry = found;
    }
    let ghost kept = entry@;
    if let Some(captured) = envs {
        entry.envs = Some(captured);
    }
    if let Some(captured) = cwd {
        entry.cwd = Some(captured);
    }
    let ghost after = entry@;
    pending.insert(at, (id, entry));
    proof {
        lemma_captured_at(before, id, after, at as int);
        if known {
            assert(captured_list(pending@) =~= before.update(at as int, (id, after)));
        } else {
            assert(captured_list(pending@) =~= before.insert(at as int, (id, after)));
        }
        assert forall|i: int, j: int| 0 <= i < j < pending@.len() implies (
        #[trigger] pending@[i]).0 < (#[trigger] pending@[j]).0 by {
            let shift = if known { 0int } else { 1int };
            if i < at {
                assert(pending@[i] == whole[i]);
            }
            if j < at {
                assert(pending@[j] == whole[j]);
            }
            if i > at {
                assert(pending@[i] == whole[i - shift]);
            }
            if j > at {
                assert(pending@[j] == whole[j - shift]);
                if shift == 1 && i == at {
                    if j - 1 > at {
                        assert(whole[at as int].0 < whole[j - 1].0);
                    }
                    assert(whole[at as int].0 > id);
                }
            }
        }
        assert forall|i: int| 0 <= i < pending@.len() implies ((
        #[trigger] pending@[i]).1.envs matches Some(e) ==> e.wf()) by {
            let shift = if known { 0int } else { 1int };
            if i < at {
                assert(pending@[i] == whole[i]);
            } else if i > at {
                assert(pending@[i] == whole[i - shift]);
            } else if known {
                assert(whole[at as int].1.envs matches Some(e) ==> e.wf());
            }
        }
    }
}

/// What blocks left behind, with what one of them has left now.
pub open spec fn captured_kept(
    pending: Seq<(CodeId, CapturedView)>,
    id: CodeId,
    envs: Option<Map<Seq<char>, Seq<char>>>,
    cwd: Option<Seq<char>>,
) -> Seq<(CodeId, CapturedView)> {
    captured_set(pending, id, captured_with(captured_of(pending, id), envs, cwd))
}

proof fn lemma_set_behind(
    head: (CodeId, CapturedView),
    tail: Seq<(CodeId, CapturedView)>,
    id: CodeId,
    captured: CapturedView,
)
    ensures
        captured_set(seq![head] + tail, id, captured) == (if head.0 < id {
            seq![head] + captured_set(tail, id, captured)
        } else if head.0 == id {
            seq![(id, captured)] + tail
        } else {
            seq![(id, captured)] + (seq![head] + tail)
        }),
{
    assert((seq![head] + tail).drop_first() =~= tail);
    assert((seq![head] + tail)[0] == head);
}

proof fn lemma_of_behind(head: (CodeId, CapturedView), tail: Seq<(CodeId, CapturedView)>, id: CodeId)
    ensures
        captured_of(seq![head] + tail, id) == (if head.0 == id {
            head.1
        } else {
            captured_of(tail, id)
        }),
{
    assert((seq![head] + tail).drop_first() =~= tail);
    assert((seq![head] + tail)[0] == head);
}

proof fn lemma_set_keeps_others(
    pending: Seq<(CodeId, CapturedView)>,
    a: CodeId,
    captured: CapturedView,
    b: CodeId,
)
    requires
        a != b,
    ensures
        captured_of(captured_set(pending, a, captured), b) == captured_of(pending, b),
    decreases pending.len(),
{
    let none = Seq::<(CodeId, CapturedView)>::empty();
    if pending.len() == 0 {
        lemma_of_behind((a, captured), none, b);
        assert(seq![(a, captured)] + none =~= seq![(a, captured)]);
    } else {
        let head = pending[0];
        let tail = pending.drop_first();
        assert(seq![head] + tail =~= pending);
        lemma_of_behind(head, tail, b);
        if head.0 < a {
            lemma_set_keeps_others(tail, a, captured, b);
            lemma_of_behind(head, captured_set(tail, a, captured), b);
        } else if head.0 == a {
            lemma_of_behind((a, captured), tail, b);
        } else {
            lemma_of_behind((a, captured), pending, b);
        }
    }
}

proof fn lemma_sets_commute(
    pending: Seq<(CodeId, CapturedView)>,
    a: CodeId,
    x: CapturedView,
    b: CodeId,
    y: CapturedView,
)
    requires
        a < b,
    ensures
        captured_set(captured_set(pending, a, x), b, y) == captured_set(
            captured_set(pending, b, y),
            a,
            x,
        ),
    decreases pending.len(),
{
    let none = Seq::<(CodeId, CapturedView)>::empty();
    if pending.len() == 0 {
        lemma_set_behind((a, x), none, b, y);
        lemma_set_behind((b, y), none, a, x);
        assert(seq![(a, x)] + none =~= seq![(a, x)]);
        assert(seq![(b, y)] + none =~= seq![(b, y)]);
    } else {
        let head = pending[0];
        let tail = pending.drop_first();
        assert(seq![head] + tail =~= pending);
        lemma_set_behind(head, tail, a, x);
        lemma_set_behind(head, tail, b, y);
        if head.0 < a {
            lemma_sets_commute(tail, a, x, b, y);
            lemma_set_behind(head, captured_set(tail, a, x), b, y);
            lemma_set_behind(head, captured_set(tail, b, y), a, x);
        } else if head.0 == a {
            lemma_set_behind((a, x), tail, b, y);
            lemma_set_behind(head, captured_set(tail, b, y), a, x);
        } else {
            lemma_set_behind((a, x), pending, b, y);
            if head.0 < b {
                lemma_set_behind(head, captured_set(tail, b, y), a, x);
            } else if head.0 == b {
                lemma_set_behind((b, y), tail, a, x);
            } else {
                lemma_set_behind((b, y), pending, a, x);
            }
        }
    }
}

/// It does not matter which of two blocks left something behind first.
pub proof fn law_order_of_arrival_does_not_matter(
    pending: Seq<(CodeId, CapturedView)>,
    a: CodeId,
    a_envs: Option<Map<Seq<char>, Seq<char>>>,
    a_cwd: Option<Seq<char>>,
    b: CodeId,
    b_envs: Option<Map<Seq<char>, Seq<char>>>,
    b_cwd: Option<Seq<char>>,
)
    requires
        a != b,
    ensures
        captured_kept(captured_kept(pending, a, a_envs, a_cwd), b, b_envs, b_cwd)
            == captured_kept(captured_kept(pending, b, b_envs, b_cwd), a, a_envs, a_cwd),
{
    let x = captured_with(captured_of(pending, a), a_envs, a_cwd);
    let y = captured_with(captured_of(pending, b), b_envs, b_cwd);
    lemma_set_keeps_others(pending, a, x, b);
    lemma_set_keeps_others(pending, b, y, a);
    if a < b {
        lemma_sets_commute(pending, a, x, b, y);
    } else {
        lemma_sets_commute(pending, b, y, a, x);
    }
}

/// A block left a value for a variable behind.
pub open spec fn sets(captured: CapturedView, name: Seq<char>) -> bool {
    captured.envs is Some && captured.envs->0.contains_key(name)
}

/// No block from a place on left a value for a variable behind.
pub open spec fn none_sets(pending: Seq<(CodeId, CapturedView)>, from: int, name: Seq<char>) -> bool {
    forall|i: int| from <= i < pending.len() ==> !sets((#[trigger] pending[i]).1, name)
}

/// Of the blocks that set a variable, the one with the highest number wins.
pub proof fn law_last_block_wins(
    envs: Map<Seq<char>, Seq<char>>,
    pending: Seq<(CodeId, CapturedView)>,
    name: Seq<char>,
    i: int,
)
    requires
        0 <= i < pending.len(),
        sets(pending[i].1, name),
        none_sets(pending, i + 1, name),
    ensures
        merged_envs(envs, pending).contains_key(name),
        merged_envs(envs, pending)[name] == pending[i].1.envs->0[name],
    decreases pending.len(),
{
    let before = pending.drop_last();
    if i < before.len() {
        assert(before[i] == pending[i]);
        assert forall|k: int| i + 1 <= k < before.len() implies !sets(
            (#[trigger] before[k]).1,
            name,
        ) by {
            assert(before[k] == pending[k]);
        }
        law_last_block_wins(envs, before, name, i);
        assert(!sets(pending[pending.len() - 1].1, name));
    }
}

/// A variable that no block sets stays as it was.
pub proof fn law_unset_variables_stay(
    envs: Map<Seq<char>, Seq<char>>,
    pending: Seq<(CodeId, CapturedView)>,
    name: Seq<char>,
)
    requires
        none_sets(pending, 0, name),
    ensures
        merged_envs(envs, pending).contains_key(name) <==> envs.contains_key(name),
        envs.contains_key(name) ==> merged_envs(envs, pending)[name] == envs[name],
    decreases pending.len(),
{
    if pending.len() > 0 {
        let before = pending.drop_last();
        assert forall|k: int| 0 <= k < before.len() implies !sets(
            (#[trigger] before[k]).1,
            name,
        ) by {
            assert(before[k] == pending[k]);
        }
        law_unset_variables_stay(envs, before, name);
        assert(!sets(pending[pending.len() - 1].1, name));
    }
}

/// Block numbers strictly ascend.
pub open spec fn numbers_ascend(pending: Seq<(CodeId, CapturedView)>) -> bool {
    forall|i: int, j: int|
        0 <= i < j < pending.len() ==> (#[trigger] pending[i]).0 < (#[trigger] pending[j]).0
}

/// Setting what one block left behind leaves the others alone.
pub proof fn lemma_set_entries(
    pending: Seq<(CodeId, CapturedView)>,
    id: CodeId,
    captured: CapturedView,
)
    requires
        numbers_ascend(pending),
    ensures
        ({
            let out = captured_set(pending, id, captured);
            &&& numbers_ascend(out)
            &&& out.contains((id, captured))
            &&& forall|i: int|
                0 <= i < out.len() ==> (#[trigger] out[i]) == (id, captured) || (out[i].0 != id
                    && pending.contains(out[i]))
            &&& forall|i: int|
                0 <= i < pending.len() && (#[trigger] pending[i]).0 != id ==> out.contains(
                    pending[i],
                )
        }),
    decreases pending.len(),
{
    let out = captured_set(pending, id, captured);
    if pending.len() == 0 {
        assert(out[0] == (id, captured));
    } else {
        let head = pending[0];
        let rest = pending.drop_first();
        assert forall|i: int, j: int| 0 <= i < j < rest.len() implies (#[trigger] rest[i]).0 < (
        #[trigger] rest[j]).0 by {
            assert(pending[i + 1].0 < pending[j + 1].0);
        }
        assert forall|i: int| 0 <= i < rest.len() implies head.0 < (#[trigger] rest[i]).0 by {
            assert(pending[0].0 < pending[i + 1].0);
        }
        if head.0 < id {
            lemma_set_entries(rest, id, captured);
            let tail = captured_set(rest, id, captured);
            assert(out =~= seq![head] + tail);
            assert forall|i: int| 0 <= i < out.len() implies (#[trigger] out[i]) == (id, captured)
                || (out[i].0 != id && pending.contains(out[i])) by {
                if i == 0 {
                    assert(pending[0] == head);
                } else {
                    assert(out[i] == tail[i - 1]);
                    if tail[i - 1] != (id, captured) {
                        let k = rest.index_of(tail[i - 1]);
                        assert(pending[k + 1] == tail[i - 1]);
                    }
                }
            }
            assert forall|i: int, j: int| 0 <= i < j < out.len() implies (#[trigger] out[i]).0 < (
            #[trigger] out[j]).0 by {
                assert(out[j] == tail[j - 1]);
                if i == 0 {
                    if tail[j - 1] != (id, captured) {
                        let k = rest.index_of(tail[j - 1]);
                        assert(rest[k] == tail[j - 1]);
                    }
                } else {
                    assert(out[i] == tail[i - 1]);
                }
            }
            let at = tail.index_of((id, captured));
            assert(out[at + 1] == (id, captured));
            assert forall|i: int|
                0 <= i < pending.len() && (#[trigger] pending[i]).0 != id implies out.contains(
                pending[i],
            ) by {
                if i == 0 {
                    assert(out[0] == pending[0]);
                } else {
                    assert(rest[i - 1] == pending[i]);
                    let k = tail.index_of(rest[i - 1]);
                    assert(out[k + 1] == pending[i]);
                }
            }
        } else if head.0 == id {
            assert(out =~= seq![(id, captured)] + rest);
            assert(out[0] == (id, captured));
            assert forall|i: int| 0 <= i < out.len() implies (#[trigger] out[i]) == (id, captured)
                || (out[i].0 != id && pending.contains(out[i])) by {
                if i > 0 {
                    assert(out[i] == rest[i - 1]);
                    assert(pending[i] == out[i]);
                }
            }
            assert forall|i: int, j: int| 0 <= i < j < out.len() implies (#[trigger] out[i]).0 < (
            #[trigger] out[j]).0 by {
                assert(out[j] == rest[j - 1]);
                if i > 0 {
                    assert(out[i] == rest[i - 1]);
                }
            }
            assert forall|i: int|
                0 <= i < pending.len() && (#[trigger] pending[i]).0 != id implies out.contains(
                pending[i],
            ) by {
                assert(out[i] == pending[i]);
            }
        } else {
            assert(out =~= seq![(id, captured)] + pending);
            assert(out[0] == (id, captured));
            assert forall|i: int| 0 <= i < out.len() implies (#[trigger] out[i]) == (id, captured)
                || (out[i].0 != id && pending.contains(out[i])) by {
                if i > 0 {
                    assert(out[i] == pending[i - 1]);
                    if i > 1 {
                        assert(pending[0].0 < pending[i - 1].0);
                    }
                }
            }
            assert forall|i: int, j: int| 0 <= i < j < out.len() implies (#[trigger] out[i]).0 < (
            #[trigger] out[j]).0 by {
                assert(out[j] == pending[j - 1]);
                if i > 0 {
                    assert(out[i] == pending[i - 1]);
                } else if j > 1 {
                    assert(pending[0].0 < pending[j - 1].0);
                }
            }
            assert forall|i: int|
                0 <= i < pending.len() && (#[trigger] pending[i]).0 != id implies out.contains(
                pending[i],
            ) by {
                assert(out[i + 1] == pending[i]);
            }
        }
    }
}

/// Forgetting what one block left behind leaves the others alone.
pub proof fn lemma_without_entries(pending: Seq<(CodeId, CapturedView)>, id: CodeId)
    requires
        numbers_ascend(pending),
    ensures
        ({
            let out = captured_without(pending, id);
            &&& numbers_ascend(out)
            &&& forall|i: int|
                0 <= i < out.len() ==> (#[trigger] out[i]).0 != id && pending.contains(out[i])
            &&& forall|i: int|
                0 <= i < pending.len() && (#[trigger] pending[i]).0 != id ==> out.contains(
                    pending[i],
                )
        }),
    decreases pending.len(),
{
    let out = captured_without(pending, id);
    if pending.len() > 0 {
        let head = pending[0];
        let rest = pending.drop_first();
        assert forall|i: int, j: int| 0 <= i < j < rest.len() implies (#[trigger] rest[i]).0 < (
        #[trigger] rest[j]).0 by {
            assert(pending[i + 1].0 < pending[j + 1].0);
        }
        assert forall|i: int| 0 <= i < rest.len() implies head.0 < (#[trigger] rest[i]).0 by {
            assert(pending[0].0 < pending[i + 1].0);
        }
        if head.0 == id {
            assert(out =~= rest);
            assert forall|i: int| 0 <= i < out.len() implies (#[trigger] out[i]).0 != id
                && pending.contains(out[i]) by {
                assert(out[i] == rest[i] && pending[i + 1] == out[i]);
            }
            assert forall|i: int|
                0 <= i < pending.len() && (#[trigger] pending[i]).0 != id implies out.contains(
                pending[i],
            ) by {
                assert(out[i - 1] == pending[i]);
            }
        } else {
            lemma_without_entries(rest, id);
            let tail = captured_without(rest, id);
            assert(out =~= seq![head] + tail);
            assert forall|i: int| 0 <= i < out.len() implies (#[trigger] out[i]).0 != id
                && pending.contains(out[i]) by {
                if i == 0 {
                    assert(pending[0] == out[0]);
                } else {
                    assert(out[i] == tail[i - 1]);
                    let k = rest.index_of(tail[i - 1]);
                    assert(pending[k + 1] == out[i]);
                }
            }
            assert forall|i: int, j: int| 0 <= i < j < out.len() implies (#[trigger] out[i]).0 < (
            #[trigger] out[j]).0 by {
                assert(out[j] == tail[j - 1]);
                if i == 0 {
                    let k = rest.index_of(tail[j - 1]);
                    assert(rest[k] == tail[j - 1]);
                } else {
                    assert(out[i] == tail[i - 1]);
                }
            }
            assert forall|i: int|
                0 <= i < pending.len() && (#[trigger] pending[i]).0 != id implies out.contains(
                pending[i],
            ) by {
                if i == 0 {
                    assert(out[0] == pending[0]);
                } else {
                    assert(rest[i - 1] == pending[i]);
                    let k = tail.index_of(rest[i - 1]);
                    assert(out[k + 1] == pending[i]);
                }
            }
        }
    }
}

/// The blocks behind a number left no value for a variable.
pub open spec fn none_behind_sets(
    pending: Seq<(CodeId, CapturedView)>,
    id: CodeId,
    name: Seq<char>,
) -> bool {
    forall|i: int|
        0 <= i < pending.len() && (#[trigger] pending[i]).0 > id ==> !sets(pending[i].1, name)
}

/// The blocks but one left no value for a variable.
pub open spec fn no_other_sets(
    pending: Seq<(CodeId, CapturedView)>,
    id: CodeId,
    name: Seq<char>,
) -> bool {
    forall|i: int|
        0 <= i < pending.len() && (#[trigger] pending[i]).0 != id ==> !sets(pending[i].1, name)
}

/// The blocks behind a number left no working directory.
pub open spec fn none_behind_moves(pending: Seq<(CodeId, CapturedView)>, id: CodeId) -> bool {
    forall|i: int|
        0 <= i < pending.len() && (#[trigger] pending[i]).0 > id ==> pending[i].1.cwd is None
}

/// The blocks but one left no working directory.
pub open spec fn no_other_moves(pending: Seq<(CodeId, CapturedView)>, id: CodeId) -> bool {
    forall|i: int|
        0 <= i < pending.len() && (#[trigger] pending[i]).0 != id ==> pending[i].1.cwd is None
}

/// What a block left behind is handed on, unless a block behind it set the same; what
/// no block set stays.
pub proof fn law_captures_are_handed_on(
    envs: Map<Seq<char>, Seq<char>>,
    pending: Seq<(CodeId, CapturedView)>,
    id: CodeId,
    left: Map<Seq<char>, Seq<char>>,
    name: Seq<char>,
)
    requires
        numbers_ascend(pending),
    ensures
        ({
            let after = merged_envs(envs, captured_kept(pending, id, Some(left), None));
            &&& left.contains_key(name) && none_behind_sets(pending, id, name)
                ==> after.contains_key(name) && after[name] == left[name]
            &&& !left.contains_key(name) && no_other_sets(pending, id, name) ==> (
            after.contains_key(name) <==> envs.contains_key(name)) && (envs.contains_key(name)
                ==> after[name] == envs[name])
        }),
{
    let captured = captured_with(captured_of(pending, id), Some(left), None);
    let out = captured_set(pending, id, captured);
    lemma_set_entries(pending, id, captured);
    if left.contains_key(name) && none_behind_sets(pending, id, name) {
        let at = out.index_of((id, captured));
        assert(out[at] == (id, captured));
        assert forall|i: int| at + 1 <= i < out.len() implies !sets(
            (#[trigger] out[i]).1,
            name,
        ) by {
            assert(out[at].0 < out[i].0);
            let k = pending.index_of(out[i]);
            assert(pending[k] == out[i]);
        }
        law_last_block_wins(envs, out, name, at);
    }
    if !left.contains_key(name) && no_other_sets(pending, id, name) {
        assert forall|i: int| 0 <= i < out.len() implies !sets((#[trigger] out[i]).1, name) by {
            if out[i] != (id, captured) {
                let k = pending.index_of(out[i]);
                assert(pending[k] == out[i]);
            }
        }
        law_unset_variables_stay(envs, out, name);
    }
}

/// What is forgotten is not handed on; what the other blocks left behind is.
pub proof fn law_forgotten_captures_are_not_handed_on(
    envs: Map<Seq<char>, Seq<char>>,
    pending: Seq<(CodeId, CapturedView)>,
    id: CodeId,
    name: Seq<char>,
    other: int,
)
    requires
        numbers_ascend(pending),
    ensures
        ({
            let after = merged_envs(envs, captured_without(pending, id));
            &&& no_other_sets(pending, id, name) ==> (after.contains_key(name)
                <==> envs.contains_key(name)) && (envs.contains_key(name) ==> after[name]
                == envs[name])
            &&& 0 <= other < pending.len() && pending[other].0 != id && sets(pending[other].1, name)
                && (forall|i: int|
                0 <= i < pending.len() && (#[trigger] pending[i]).0 > pending[other].0
                    && pending[i].0 != id ==> !sets(pending[i].1, name)) ==> after.contains_key(
                name,
            ) && after[name] == pending[other].1.envs->0[name]
        }),
{
    let out = captured_without(pending, id);
    lemma_without_entries(pending, id);
    if no_other_sets(pending, id, name) {
        assert forall|i: int| 0 <= i < out.len() implies !sets((#[trigger] out[i]).1, name) by {
            let k = pending.index_of(out[i]);
            assert(pending[k] == out[i]);
        }
        law_unset_variables_stay(envs, out, name);
    }
    if 0 <= other < pending.len() && pending[other].0 != id && sets(pending[other].1, name) && (
    forall|i: int|
        0 <= i < pending.len() && (#[trigger] pending[i]).0 > pending[other].0 && pending[i].0 != id
            ==> !sets(pending[i].1, name)) {
        let at = out.index_of(pending[other]);
        assert(out.contains(pending[other]));
        assert(out[at] == pending[other]);
        assert forall|i: int| at + 1 <= i < out.len() implies !sets(
            (#[trigger] out[i]).1,
            name,
        ) by {
            assert(out[at].0 < out[i].0);
            let k = pending.index_of(out[i]);
            assert(pending[k] == out[i]);
        }
        law_last_block_wins(envs, out, name, at);
    }
}

/// The last working directory that was left behind counts.
pub proof fn law_last_directory_counts(
    cwd: Seq<char>,
    pending: Seq<(CodeId, CapturedView)>,
    i: int,
)
    requires
        0 <= i < pending.len() ==> pending[i].1.cwd is Some,
        -1 <= i < pending.len(),
        forall|k: int| i < k < pending.len() ==> (#[trigger] pending[k]).1.cwd is None,
    ensures
        merged_cwd(cwd, pending) == (if i < 0 {
            cwd
        } else {
            pending[i].1.cwd->0
        }),
    decreases pending.len(),
{
    if pending.len() > 0 && i < pending.len() - 1 {
        let before = pending.drop_last();
        assert(pending[pending.len() - 1].1.cwd is None);
        assert forall|k: int| i < k < before.len() implies (#[trigger] before[k]).1.cwd is None by {
            assert(before[k] == pending[k]);
        }
        law_last_directory_counts(cwd, before, i);
    }
}

/// The working directory that a block left behind is handed on, unless a block behind
/// it left another.
pub proof fn law_directories_are_handed_on(
    cwd: Seq<char>,
    pending: Seq<(CodeId, CapturedView)>,
    id: CodeId,
    left: Seq<char>,
)
    requires
        numbers_ascend(pending),
        none_behind_moves(pending, id),
    ensures
        merged_cwd(cwd, captured_kept(pending, id, None, Some(left))) == left,
{
    let captured = captured_with(captured_of(pending, id), None, Some(left));
    let out = captured_set(pending, id, captured);
    lemma_set_entries(pending, id, captured);
    let at = out.index_of((id, captured));
    assert(out[at] == (id, captured));
    assert forall|k: int| at < k < out.len() implies (#[trigger] out[k]).1.cwd is None by {
        assert(out[at].0 < out[k].0);
        let n = pending.index_of(out[k]);
        assert(pending[n] == out[k]);
    }
    law_last_directory_counts(cwd, out, at);
}

/// A working directory that is forgotten is not handed on.
pub proof fn law_forgotten_directories_are_not_handed_on(
    cwd: Seq<char>,
    pending: Seq<(CodeId, CapturedView)>,
    id: CodeId,
)
    requires
        numbers_ascend(pending),
        no_other_moves(pending, id),
    ensures
        merged_cwd(cwd, captured_without(pending, id)) == cwd,
{
    let out = captured_without(pending, id);
    lemma_without_entries(pending, id);
    assert forall|k: int| -1 < k < out.len() implies (#[trigger] out[k]).1.cwd is None by {
        let n = pending.index_of(out[k]);
        assert(pending[n] == out[k]);
    }
    law_last_directory_counts(cwd, out, -1);
}

/// A block that leaves something behind keeps what it left before, but for the same;
/// what other blocks left behind stays.
pub proof fn law_captures_add_up(
    pending: Seq<(CodeId, CapturedView)>,
    id: CodeId,
    envs: Option<Map<Seq<char>, Seq<char>>>,
    cwd: Option<Seq<char>>,
    other: CodeId,
)
    requires
        numbers_ascend(pending),
    ensures
        ({
            let before = captured_of(pending, id);
            let after = captured_of(captured_kept(pending, id, envs, cwd), id);
            &&& numbers_ascend(captured_kept(pending, id, envs, cwd))
            &&& envs is Some ==> after.envs == envs
            &&& envs is None ==> after.envs == before.envs
            &&& cwd is Some ==> after.cwd == cwd
            &&& cwd is None ==> after.cwd == before.cwd
            &&& other != id ==> captured_of(captured_kept(pending, id, envs, cwd), other)
                == captured_of(pending, other)
        }),
{
    let captured = captured_with(captured_of(pending, id), envs, cwd);
    lemma_set_entries(pending, id, captured);
    lemma_of_set(pending, id, captured);
    if other != id {
        lemma_set_keeps_others(pending, id, captured, other);
    }
}

proof fn lemma_of_set(pending: Seq<(CodeId, CapturedView)>, id: CodeId, captured: CapturedView)
    ensures
        captured_of(captured_set(pending, id, captured), id) == captured,
    decreases pending.len(),
{
    let none = Seq::<(CodeId, CapturedView)>::empty();
    if pending.len() == 0 {
        lemma_of_behind((id, captured), none, id);
        assert(seq![(id, captured)] + none =~= seq![(id, captured)]);
    } else {
        let head = pending[0];
        let tail = pending.drop_first();
        if head.0 < id {
            lemma_of_set(tail, id, captured);
            lemma_of_behind(head, captured_set(tail, id, captured), id);
        } else if head.0 == id {
            lemma_of_behind((id, captured), tail, id);
        } else {
            lemma_of_behind((id, captured), pending, id);
        }
    }
}

} // verus!
