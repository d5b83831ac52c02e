//! Dependency plans: which blocks run, and in which order.

use std::collections::{HashMap, HashSet};

use vstd::prelude::*;

use crate::code::{block_ids, find_block, flat_groups, flatten, has_block, valid_codes, Code, CodeId};
use crate::seqs::{
    lemma_add_contains, lemma_filter_contains, lemma_filter_distinct, lemma_filter_push,
    lemma_filter_split, lemma_push_contains, lemma_take_contains,
};
use crate::text::{decimal, decimal_text};

verus! {

broadcast use vstd::std_specs::hash::group_hash_axioms;

/// `before` has to finish ahead of `after` because of the block `code`: either
/// `after` is that block and `before` one of its dependencies, or both are
/// dependencies of it in adjacent groups.
pub open spec fn code_edge(code: Code, before: CodeId, after: CodeId) -> bool {
    ||| (after == code.id && code.depends_on(before))
    ||| (code.dependencies is Ok && exists|g: int|
        0 <= g < code.groups().len() - 1 && (#[trigger] code.groups()[g])@.contains(before)
            && code.groups()[g + 1]@.contains(after))
}

/// `before` has to finish ahead of `after` within the selected blocks.
pub open spec fn edge(
    codes: Seq<Code>,
    selected: Set<CodeId>,
    before: CodeId,
    after: CodeId,
) -> bool {
    exists|i: int|
        0 <= i < codes.len() && selected.contains((#[trigger] codes[i]).id) && code_edge(
            codes[i],
            before,
            after,
        )
}

/// Some block that is still to run has to finish ahead of `id`.
pub open spec fn held(
    codes: Seq<Code>,
    selected: Set<CodeId>,
    remaining: Seq<CodeId>,
    id: CodeId,
) -> bool {
    exists|p: CodeId| remaining.contains(p) && #[trigger] edge(codes, selected, p, id)
}

/// The blocks of `remaining` that nothing in `remaining` holds back.
pub open spec fn ready_part(
    codes: Seq<Code>,
    selected: Set<CodeId>,
    remaining: Seq<CodeId>,
) -> Seq<CodeId> {
    remaining.filter(|id: CodeId| !held(codes, selected, remaining, id))
}

/// The blocks of `remaining` that something in `remaining` holds back.
pub open spec fn held_part(
    codes: Seq<Code>,
    selected: Set<CodeId>,
    remaining: Seq<CodeId>,
) -> Seq<CodeId> {
    remaining.filter(|id: CodeId| held(codes, selected, remaining, id))
}

/// The layers in which `remaining` runs: first the blocks that nothing holds
/// back, then those that only the first layer held back, and so on. Where
/// every block left is held back by another, those blocks are the error.
pub open spec fn plan_layers(
    codes: Seq<Code>,
    selected: Set<CodeId>,
    remaining: Seq<CodeId>,
) -> Result<Seq<Seq<CodeId>>, Seq<CodeId>>
    decreases remaining.len(),
{
    if remaining.len() == 0 {
        Ok(Seq::empty())
    } else if ready_part(codes, selected, remaining).len() == 0 {
        Err(remaining)
    } else {
        proof {
            lemma_filter_split(
                remaining,
                |id: CodeId| held(codes, selected, remaining, id),
                |id: CodeId| !held(codes, selected, remaining, id),
            );
        }
        match plan_layers(codes, selected, held_part(codes, selected, remaining)) {
            Ok(rest) => Ok(seq![ready_part(codes, selected, remaining)] + rest),
            Err(stuck) => Err(stuck),
        }
    }
}

/// A list of edges holds exactly those of a condition.
spec fn lists(edges: Seq<(CodeId, CodeId)>, cond: spec_fn(CodeId, CodeId) -> bool) -> bool {
    forall|b: CodeId, a: CodeId| #[trigger] edges.contains((b, a)) <==> cond(b, a)
}

/// Adds an edge from `before` to each of `after`.
fn add_edges_from(before: CodeId, after: &Vec<CodeId>, edges: &mut Vec<(CodeId, CodeId)>)
    ensures
        lists(
            final(edges)@,
            |b: CodeId, a: CodeId|
                old(edges)@.contains((b, a)) || (b == before && after@.contains(a)),
        ),
{
    let mut i: usize = 0;
    while i < after.len()
        invariant
            i <= after.len(),
            lists(
                edges@,
                |b: CodeId, a: CodeId|
                    old(edges)@.contains((b, a)) || (b == before && after@.take(
                        i as int,
                    ).contains(a)),
            ),
        decreases after.len() - i,
    {
        proof {
            lemma_push_contains(edges@, (before, after@[i as int]));
            lemma_take_contains(after@, i as int);
        }
        edges.push((before, after[i]));
        i += 1;
    }
    assert(after@.take(i as int) =~= after@);
}

/// Adds an edge from each of `before` to `after`.
fn add_edges_to(before: &Vec<CodeId>, after: CodeId, edges: &mut Vec<(CodeId, CodeId)>)
    ensures
        lists(
            final(edges)@,
            |b: CodeId, a: CodeId|
                old(edges)@.contains((b, a)) || (a == after && before@.contains(b)),
        ),
{
    let mut i: usize = 0;
    while i < before.len()
        invariant
            i <= before.len(),
            lists(
                edges@,
                |b: CodeId, a: CodeId|
                    old(edges)@.contains((b, a)) || (a == after && before@.take(
                        i as int,
                    ).contains(b)),
            ),
        decreases before.len() - i,
    {
        proof {
            lemma_push_contains(edges@, (before@[i as int], after));
            lemma_take_contains(before@, i as int);
        }
        edges.push((before[i], after));
        i += 1;
    }
    assert(before@.take(i as int) =~= before@);
}

/// Adds an edge from each of `before` to each of `after`.
fn add_edges_across(before: &Vec<CodeId>, after: &Vec<CodeId>, edges: &mut Vec<(CodeId, CodeId)>)
    ensures
        lists(
            final(edges)@,
            |b: CodeId, a: CodeId|
                old(edges)@.contains((b, a)) || (before@.contains(b) && after@.contains(a)),
        ),
{
    let mut i: usize = 0;
    while i < before.len()
        invariant
            i <= before.len(),
            lists(
                edges@,
                |b: CodeId, a: CodeId|
                    old(edges)@.contains((b, a)) || (before@.take(i as int).contains(b)
                        && after@.contains(a)),
            ),
        decreases before.len() - i,
    {
        proof {
            lemma_take_contains(before@, i as int);
        }
        add_edges_from(before[i], after, edges);
        i += 1;
    }
    assert(before@.take(i as int) =~= before@);
}

/// Adds the edges that one block with resolved dependencies brings.
fn add_code_edges(code: &Code, groups: &Vec<Vec<CodeId>>, edges: &mut Vec<(CodeId, CodeId)>)
    requires
        code.dependencies == Ok::<Vec<Vec<CodeId>>, String>(*groups),
    ensures
        lists(
            final(edges)@,
            |b: CodeId, a: CodeId| old(edges)@.contains((b, a)) || code_edge(*code, b, a),
        ),
{
    let flat = flatten(groups);
    add_edges_to(&flat, code.id, edges);
    let ghost start = edges@;
    let mut g: usize = 1;
    while g < groups.len()
        invariant
            1 <= g,
            g <= groups.len() || g == 1,
            lists(
                edges@,
                |b: CodeId, a: CodeId|
                    start.contains((b, a)) || exists|h: int|
                        0 <= h < g - 1 && h < groups@.len() - 1 && (
                        #[trigger] groups@[h])@.contains(b) && groups@[h + 1]@.contains(a),
            ),
        decreases groups.len() - g,
    {
        let ghost before = edges@;
        add_edges_across(&groups[g - 1], &groups[g], edges);
        proof {
            let later = g as int;
            assert forall|b: CodeId, a: CodeId| #[trigger] edges@.contains((b, a)) <==> (
            start.contains((b, a)) || exists|h: int|
                0 <= h < later && h < groups@.len() - 1 && (#[trigger] groups@[h])@.contains(b)
                    && groups@[h + 1]@.contains(a)) by {
                assert(before.contains((b, a)) <==> (start.contains((b, a)) || exists|h: int|
                    0 <= h < later - 1 && h < groups@.len() - 1 && (
                    #[trigger] groups@[h])@.contains(b) && groups@[h + 1]@.contains(a)));
                if groups@[later - 1]@.contains(b) && groups@[later]@.contains(a) {
                    assert(groups@[later - 1 + 1]@.contains(a));
                }
            }
        }
        g += 1;
    }
    assert forall|b: CodeId, a: CodeId| #[trigger] edges@.contains((b, a)) <==> (old(
        edges,
    )@.contains((b, a)) || code_edge(*code, b, a)) by {
        assert(start.contains((b, a)) <==> (old(edges)@.contains((b, a)) || (a == code.id
            && code.depends_on(b))));
        assert(code.groups() == groups@);
        assert(edges@.contains((b, a)) <==> (start.contains((b, a)) || exists|h: int|
            0 <= h < g - 1 && h < groups@.len() - 1 && (#[trigger] groups@[h])@.contains(b)
                && groups@[h + 1]@.contains(a)));
    }
}

/// What is reported of a block whose dependency names do not resolve.
pub open spec fn unresolved_text(code: Code) -> Seq<char> {
    "block "@ + decimal_text(code.id as nat) + ": "@ + code.dependencies->Err_0@
}

fn unresolved_message(id: CodeId, error: &String) -> (message: String)
    ensures
        message@ == "block "@ + decimal_text(id as nat) + ": "@ + error@,
{
    let mut message = "block ".to_owned();
    message.append(decimal(id as u64).as_str());
    message.append(": ");
    message.append(error.as_str());
    message
}

/// `i` is the first selected block whose dependency names do not resolve.
pub open spec fn first_unresolved(codes: Seq<Code>, selected: Set<CodeId>, i: int) -> bool {
    &&& 0 <= i < codes.len()
    &&& selected.contains(codes[i].id)
    &&& codes[i].dependencies is Err
    &&& forall|j: int|
        0 <= j < i && selected.contains((#[trigger] codes[j]).id) ==> codes[j].dependencies is Ok
}

/// Every selected block has resolved dependencies.
pub open spec fn all_resolved(codes: Seq<Code>, selected: Set<CodeId>) -> bool {
    forall|i: int|
        0 <= i < codes.len() && selected.contains((#[trigger] codes[i]).id)
            ==> codes[i].dependencies is Ok
}

/// The edges among the selected blocks.
fn collect_edges(codes: &[Code], selected: &HashSet<CodeId>) -> (result: Result<
    Vec<(CodeId, CodeId)>,
    String,
>)
    ensures
        match result {
            Ok(edges) => all_resolved(codes@, selected@) && lists(
                edges@,
                |b: CodeId, a: CodeId| edge(codes@, selected@, b, a),
            ),
            Err(message) => exists|i: int|
                first_unresolved(codes@, selected@, i) && message@ == unresolved_text(
                    #[trigger] codes@[i],
                ),
        },
{
    let mut edges: Vec<(CodeId, CodeId)> = Vec::new();
    let mut i: usize = 0;
    while i < codes.len()
        invariant
            i <= codes.len(),
            forall|j: int|
                0 <= j < i && selected@.contains((#[trigger] codes@[j]).id)
                    ==> codes@[j].dependencies is Ok,
            lists(edges@, |b: CodeId, a: CodeId| edge(codes@.take(i as int), selected@, b, a)),
        decreases codes.len() - i,
    {
        let ghost before = edges@;
        let code = &codes[i];
        if selected.contains(&code.id) {
            match &code.dependencies {
                Ok(groups) => {
                    add_code_edges(code, groups, &mut edges);
                },
                Err(error) => {
                    let message = unresolved_message(code.id, error);
                    assert(first_unresolved(codes@, selected@, i as int));
                    return Err(message);
                },
            }
        }
        proof {
            let shorter = codes@.take(i as int);
            let longer = codes@.take(i + 1);
            assert forall|b: CodeId, a: CodeId| #[trigger] edges@.contains((b, a)) <==> edge(
                longer,
                selected@,
                b,
                a,
            ) by {
                assert(before.contains((b, a)) <==> edge(shorter, selected@, b, a));
                if edge(shorter, selected@, b, a) {
                    let k = choose|k: int|
                        0 <= k < shorter.len() && selected@.contains((#[trigger] shorter[k]).id)
                            && code_edge(shorter[k], b, a);
                    assert(longer[k] == shorter[k]);
                }
                if edge(longer, selected@, b, a) {
                    let k = choose|k: int|
                        0 <= k < longer.len() && selected@.contains((#[trigger] longer[k]).id)
                            && code_edge(longer[k], b, a);
                    if k < i {
                        assert(longer[k] == shorter[k]);
                    }
                }
                if selected@.contains(code.id) && code_edge(*code, b, a) {
                    assert(longer[i as int] == *code);
                }
            }
        }
        i += 1;
    }
    assert(codes@.take(i as int) =~= codes@);
    Ok(edges)
}

/// Block numbers as `1, 2, 3`.
pub open spec fn id_list_text(ids: Seq<CodeId>) -> Seq<char>
    decreases ids.len(),
{
    if ids.len() == 0 {
        Seq::empty()
    } else if ids.len() == 1 {
        decimal_text(ids[0] as nat)
    } else {
        id_list_text(ids.drop_last()) + ", "@ + decimal_text(ids.last() as nat)
    }
}

/// What is reported of blocks that hold each other back.
pub open spec fn cycle_text(ids: Seq<CodeId>) -> Seq<char> {
    "dependency cycle involving blocks "@ + id_list_text(ids)
}

fn cycle_message(ids: &Vec<CodeId>) -> (message: String)
    ensures
        message@ == cycle_text(ids@),
{
    let mut message = "dependency cycle involving blocks ".to_owned();
    let mut i: usize = 0;
    while i < ids.len()
        invariant
            i <= ids.len(),
            message@ == "dependency cycle involving blocks "@ + id_list_text(ids@.take(i as int)),
        decreases ids.len() - i,
    {
        if i > 0 {
            message.append(", ");
        }
        message.append(decimal(ids[i] as u64).as_str());
        proof {
            let longer = ids@.take(i + 1);
            assert(longer.drop_last() =~= ids@.take(i as int));
            assert(message@ =~= "dependency cycle involving blocks "@ + id_list_text(longer));
        }
        i += 1;
    }
    assert(ids@.take(i as int) =~= ids@);
    message
}

/// The elements of `ids` that are in `set` (or, with `inside` false, that are
/// not).
pub(crate) fn filter_ids(ids: &Vec<CodeId>, set: &HashSet<CodeId>, inside: bool) -> (kept: Vec<CodeId>)
    ensures
        kept@ == ids@.filter(|id: CodeId| set@.contains(id) == inside),
{
    let mut kept: Vec<CodeId> = Vec::new();
    let ghost keep = |id: CodeId| set@.contains(id) == inside;
    let mut i: usize = 0;
    while i < ids.len()
        invariant
            i <= ids.len(),
            keep == (|id: CodeId| set@.contains(id) == inside),
            kept@ == ids@.take(i as int).filter(keep),
        decreases ids.len() - i,
    {
        proof {
            lemma_take_contains(ids@, i as int);
            lemma_filter_push(ids@.take(i as int), ids@[i as int], keep);
        }
        if set.contains(&ids[i]) == inside {
            kept.push(ids[i]);
        }
        i += 1;
    }
    assert(ids@.take(i as int) =~= ids@);
    kept
}

/// The block numbers of a document, in document order.
fn ids_of(codes: &[Code]) -> (ids: Vec<CodeId>)
    ensures
        ids@ == block_ids(codes@),
{
    let mut ids: Vec<CodeId> = Vec::new();
    let mut i: usize = 0;
    while i < codes.len()
        invariant
            i <= codes.len(),
            ids@ == block_ids(codes@).take(i as int),
        decreases codes.len() - i,
    {
        ids.push(codes[i].id);
        i += 1;
    }
    assert(block_ids(codes@).take(i as int) =~= block_ids(codes@));
    ids
}

/// The elements of a list as a set.
fn set_of(ids: &Vec<CodeId>) -> (set: HashSet<CodeId>)
    ensures
        set@ == ids@.to_set(),
{
    let mut set: HashSet<CodeId> = HashSet::new();
    let mut i: usize = 0;
    while i < ids.len()
        invariant
            i <= ids.len(),
            forall|id: CodeId| #[trigger] set@.contains(id) <==> ids@.take(i as int).contains(id),
        decreases ids.len() - i,
    {
        proof {
            lemma_take_contains(ids@, i as int);
        }
        set.insert(ids[i]);
        i += 1;
    }
    assert(ids@.take(i as int) =~= ids@);
    assert(set@ =~= ids@.to_set());
    set
}

/// The blocks that an edge leads to from a block in `sources`.
fn targets_of(edges: &Vec<(CodeId, CodeId)>, sources: &HashSet<CodeId>) -> (set: HashSet<CodeId>)
    ensures
        forall|a: CodeId| #[trigger]
            set@.contains(a) <==> exists|b: CodeId|
                sources@.contains(b) && #[trigger] edges@.contains((b, a)),
{
    let mut set: HashSet<CodeId> = HashSet::new();
    let mut i: usize = 0;
    while i < edges.len()
        invariant
            i <= edges.len(),
            forall|a: CodeId| #[trigger]
                set@.contains(a) <==> exists|b: CodeId|
                    sources@.contains(b) && #[trigger] edges@.take(i as int).contains((b, a)),
        decreases edges.len() - i,
    {
        let ghost before = set@;
        let (b, a) = edges[i];
        if sources.contains(&b) {
            set.insert(a);
        }
        proof {
            lemma_take_contains(edges@, i as int);
            let shorter = edges@.take(i as int);
            let longer = edges@.take(i + 1);
            assert forall|x: CodeId| #[trigger]
                set@.contains(x) <==> exists|y: CodeId|
                    sources@.contains(y) && #[trigger] longer.contains((y, x)) by {
                if before.contains(x) {
                    let y = choose|y: CodeId|
                        sources@.contains(y) && #[trigger] shorter.contains((y, x));
                    assert(longer.contains((y, x)));
                }
                if x == a && sources@.contains(b) {
                    assert(longer.contains((b, x)));
                }
                if exists|y: CodeId| sources@.contains(y) && #[trigger] longer.contains((y, x)) {
                    let y = choose|y: CodeId|
                        sources@.contains(y) && #[trigger] longer.contains((y, x));
                    assert(shorter.contains((y, x)) || (y, x) == (b, a));
                }
            }
        }
        i += 1;
    }
    assert(edges@.take(i as int) =~= edges@);
    set
}

/// Contents of a list of lists.
pub open spec fn nested(v: Seq<Vec<CodeId>>) -> Seq<Seq<CodeId>> {
    v.map_values(|inner: Vec<CodeId>| inner@)
}

/// Orders the blocks of `ids` in layers.
fn layer_ids(
    Ghost(codes): Ghost<Seq<Code>>,
    Ghost(selected): Ghost<Set<CodeId>>,
    edges: &Vec<(CodeId, CodeId)>,
    ids: Vec<CodeId>,
) -> (result: Result<Vec<Vec<CodeId>>, Vec<CodeId>>)
    requires
        lists(edges@, |b: CodeId, a: CodeId| edge(codes, selected, b, a)),
    ensures
        match result {
            Ok(layers) => plan_layers(codes, selected, ids@) == Ok::<_, Seq<CodeId>>(
                nested(layers@),
            ),
            Err(stuck) => plan_layers(codes, selected, ids@) == Err::<Seq<Seq<CodeId>>, _>(stuck@),
        },
{
    let mut layers: Vec<Vec<CodeId>> = Vec::new();
    let mut remaining = ids;
    while remaining.len() > 0
        invariant
            lists(edges@, |b: CodeId, a: CodeId| edge(codes, selected, b, a)),
            plan_layers(codes, selected, ids@) == (match plan_layers(codes, selected, remaining@) {
                Ok(rest) => Ok::<_, Seq<CodeId>>(nested(layers@) + rest),
                Err(stuck) => Err::<Seq<Seq<CodeId>>, _>(stuck),
            }),
        decreases remaining@.len(),
    {
        let sources = set_of(&remaining);
        let targets = targets_of(edges, &sources);
        let ready = filter_ids(&remaining, &targets, false);
        let rest = filter_ids(&remaining, &targets, true);
        proof {
            assert forall|id: CodeId| #[trigger]
                targets@.contains(id) == held(codes, selected, remaining@, id) by {
                if targets@.contains(id) {
                    let p = choose|p: CodeId|
                        sources@.contains(p) && #[trigger] edges@.contains((p, id));
                    assert(edge(codes, selected, p, id));
                }
                if held(codes, selected, remaining@, id) {
                    let p = choose|p: CodeId|
                        remaining@.contains(p) && #[trigger] edge(codes, selected, p, id);
                    assert(edges@.contains((p, id)));
                }
            }
            assert((|id: CodeId| targets@.contains(id) == false) =~= (|id: CodeId|
                !held(codes, selected, remaining@, id)));
            assert((|id: CodeId| targets@.contains(id) == true) =~= (|id: CodeId|
                held(codes, selected, remaining@, id)));
            assert(ready@ == ready_part(codes, selected, remaining@));
            assert(rest@ == held_part(codes, selected, remaining@));
            lemma_filter_split(
                remaining@,
                |id: CodeId| held(codes, selected, remaining@, id),
                |id: CodeId| !held(codes, selected, remaining@, id),
            );
        }
        if ready.len() == 0 {
            return Err(remaining);
        }
        let ghost before = nested(layers@);
        layers.push(ready);
        proof {
            assert(nested(layers@) =~= before.push(ready@));
            match plan_layers(codes, selected, rest@) {
                Ok(tail) => {
                    assert(before.push(ready@) + tail =~= before + (seq![ready@] + tail));
                },
                Err(_) => {},
            }
        }
        remaining = rest;
    }
    assert(nested(layers@) + Seq::<Seq<CodeId>>::empty() =~= nested(layers@));
    Ok(layers)
}

/// Dependency plan of a document or of one target block.
pub struct DependencyGraph {
    layers: Vec<Vec<CodeId>>,
    dependents: HashMap<CodeId, Vec<CodeId>>,
    target: Option<CodeId>,
}

/// The selected blocks, in document order.
pub open spec fn selected_ids(codes: Seq<Code>, selected: Set<CodeId>) -> Seq<CodeId> {
    block_ids(codes).filter(|id: CodeId| selected.contains(id))
}

/// The blocks that wait for `id`, in document order.
pub open spec fn dependents_in(codes: Seq<Code>, selected: Set<CodeId>, id: CodeId) -> Seq<CodeId> {
    block_ids(codes).filter(|a: CodeId| edge(codes, selected, id, a))
}

impl DependencyGraph {
    /// The layers: the blocks of one layer do not wait for each other.
    pub closed spec fn layers_view(&self) -> Seq<Seq<CodeId>> {
        nested(self.layers@)
    }

    /// The blocks that wait for `id`.
    pub closed spec fn dependents_of(&self, id: CodeId) -> Seq<CodeId> {
        if self.dependents@.contains_key(id) {
            self.dependents@[id]@
        } else {
            Seq::empty()
        }
    }

    /// The block the plan works toward.
    pub closed spec fn target_view(&self) -> Option<CodeId> {
        self.target
    }

    /// The graph is the plan of the selected blocks.
    pub open spec fn plans(
        &self,
        codes: Seq<Code>,
        selected: Set<CodeId>,
        target: Option<CodeId>,
    ) -> bool {
        &&& all_resolved(codes, selected)
        &&& plan_layers(codes, selected, selected_ids(codes, selected)) == Ok::<_, Seq<CodeId>>(
            self.layers_view(),
        )
        &&& forall|id: CodeId| #[trigger]
            self.dependents_of(id) == dependents_in(codes, selected, id)
        &&& self.target_view() == target
    }
}

/// The outcome of planning the selected blocks: the first block whose
/// dependencies do not resolve is reported, then blocks that hold each other
/// back.
pub open spec fn planned(
    codes: Seq<Code>,
    selected: Set<CodeId>,
    target: Option<CodeId>,
    result: Result<DependencyGraph, String>,
) -> bool {
    match result {
        Ok(graph) => graph.plans(codes, selected, target),
        Err(message) => {
            ||| exists|i: int|
                first_unresolved(codes, selected, i) && message@ == unresolved_text(
                    #[trigger] codes[i],
                )
            ||| (all_resolved(codes, selected) && (plan_layers(
                codes,
                selected,
                selected_ids(codes, selected),
            ) matches Err(stuck) && message@ == cycle_text(stuck)))
        },
    }
}

/// The edges from one block, grouped by their source.
fn group_dependents(
    Ghost(codes): Ghost<Seq<Code>>,
    Ghost(selected): Ghost<Set<CodeId>>,
    edges: &Vec<(CodeId, CodeId)>,
    ids: &Vec<CodeId>,
) -> (map: HashMap<CodeId, Vec<CodeId>>)
    requires
        ids@ == block_ids(codes),
        valid_codes(codes),
        lists(edges@, |b: CodeId, a: CodeId| edge(codes, selected, b, a)),
    ensures
        forall|id: CodeId|
            (if #[trigger] map@.contains_key(id) {
                map@[id]@
            } else {
                Seq::<CodeId>::empty()
            }) == dependents_in(codes, selected, id),
{
    let mut map: HashMap<CodeId, Vec<CodeId>> = HashMap::new();
    let mut i: usize = 0;
    while i < ids.len()
        invariant
            i <= ids.len(),
            ids@ == block_ids(codes),
            lists(edges@, |b: CodeId, a: CodeId| edge(codes, selected, b, a)),
            forall|id: CodeId| #[trigger]
                map@.contains_key(id) ==> map@[id]@ == dependents_in(codes, selected, id),
            forall|id: CodeId|
                ids@.take(i as int).contains(id) && !#[trigger] map@.contains_key(id)
                    ==> dependents_in(codes, selected, id).len() == 0,
        decreases ids.len() - i,
    {
        let id = ids[i];
        let mut source: HashSet<CodeId> = HashSet::new();
        source.insert(id);
        let targets = targets_of(edges, &source);
        let after = filter_ids(ids, &targets, true);
        proof {
            assert forall|a: CodeId| #[trigger]
                targets@.contains(a) == edge(codes, selected, id, a) by {
                if edge(codes, selected, id, a) {
                    assert(edges@.contains((id, a)) && source@.contains(id));
                }
                if targets@.contains(a) {
                    let b = choose|b: CodeId|
                        source@.contains(b) && #[trigger] edges@.contains((b, a));
                    assert(b == id);
                }
            }
            assert((|a: CodeId| targets@.contains(a) == true) =~= (|a: CodeId|
                edge(codes, selected, id, a)));
            assert(after@ == dependents_in(codes, selected, id));
            lemma_take_contains(ids@, i as int);
        }
        if after.len() > 0 {
            map.insert(id, after);
        }
        i += 1;
    }
    proof {
        assert(ids@.take(i as int) =~= ids@);
        assert forall|id: CodeId|
            (if #[trigger] map@.contains_key(id) {
                map@[id]@
            } else {
                Seq::<CodeId>::empty()
            }) == dependents_in(codes, selected, id) by {
            if !map@.contains_key(id) {
                if !ids@.contains(id) {
                    lemma_no_edges_outside(codes, selected, id);
                }
                assert(dependents_in(codes, selected, id) =~= Seq::empty());
            }
        }
    }
    map
}

/// A number that no block has stands in no edge as a source.
proof fn lemma_no_edges_outside(codes: Seq<Code>, selected: Set<CodeId>, id: CodeId)
    requires
        valid_codes(codes),
        !block_ids(codes).contains(id),
    ensures
        dependents_in(codes, selected, id).len() == 0,
{
    assert(!has_block(codes, id)) by {
        if has_block(codes, id) {
            let i = choose|i: int| 0 <= i < codes.len() && (#[trigger] codes[i]).id == id;
            assert(block_ids(codes)[i] == id);
        }
    }
    assert forall|a: CodeId| !edge(codes, selected, id, a) by {
        if edge(codes, selected, id, a) {
            let i = choose|i: int|
                0 <= i < codes.len() && selected.contains((#[trigger] codes[i]).id) && code_edge(
                    codes[i],
                    id,
                    a,
                );
            lemma_edge_ends(codes[i], id, a);
            assert(has_block(codes, id));
        }
    }
    let keep = |a: CodeId| edge(codes, selected, id, a);
    lemma_filter_contains(block_ids(codes), keep);
    if dependents_in(codes, selected, id).len() > 0 {
        assert(keep(dependents_in(codes, selected, id)[0]));
    }
}

/// Members of a group are members of the flattened groups.
proof fn lemma_flat_contains(groups: Seq<Vec<CodeId>>, g: int, id: CodeId)
    requires
        0 <= g < groups.len(),
        groups[g]@.contains(id),
    ensures
        flat_groups(groups).contains(id),
    decreases groups.len(),
{
    lemma_add_contains(flat_groups(groups.drop_last()), groups.last()@);
    if g < groups.len() - 1 {
        lemma_flat_contains(groups.drop_last(), g, id);
    }
}

/// Both ends of an edge are the block itself or its dependencies.
proof fn lemma_edge_ends(code: Code, before: CodeId, after: CodeId)
    requires
        code_edge(code, before, after),
    ensures
        code.depends_on(before),
        after == code.id || code.depends_on(after),
{
    if !(after == code.id && code.depends_on(before)) {
        let g = choose|g: int|
            0 <= g < code.groups().len() - 1 && (#[trigger] code.groups()[g])@.contains(before)
                && code.groups()[g + 1]@.contains(after);
        lemma_flat_contains(code.groups(), g, before);
        lemma_flat_contains(code.groups(), g + 1, after);
    }
}

/// Builds a topological layer plan from a selected subset of blocks.
fn build_plan(codes: &[Code], selected: &HashSet<CodeId>, target: Option<CodeId>) -> (result:
    Result<DependencyGraph, String>)
    requires
        valid_codes(codes@),
    ensures
        planned(codes@, selected@, target, result),
{
    let edges = match collect_edges(codes, selected) {
        Ok(edges) => edges,
        Err(message) => {
            return Err(message);
        },
    };
    let ids = ids_of(codes);
    let chosen = filter_ids(&ids, selected, true);
    assert((|id: CodeId| selected@.contains(id) == true) =~= (|id: CodeId| selected@.contains(id)));
    let dependents = group_dependents(Ghost(codes@), Ghost(selected@), &edges, &ids);
    match layer_ids(Ghost(codes@), Ghost(selected@), &edges, chosen) {
        Ok(layers) => {
            let graph = DependencyGraph { layers, dependents, target };
            assert forall|id: CodeId| #[trigger]
                graph.dependents_of(id) == dependents_in(codes@, selected@, id) by {
                assert(graph.dependents@.contains_key(id) || !graph.dependents@.contains_key(id));
            }
            Ok(graph)
        },
        Err(stuck) => Err(cycle_message(&stuck)),
    }
}

/// The block with a number of the document.
pub open spec fn block(codes: Seq<Code>, id: CodeId) -> Code {
    codes[choose|i: int| 0 <= i < codes.len() && (#[trigger] codes[i]).id == id]
}

/// Selects those of `deps` that are not selected yet and puts them on the
/// stack, from the first to the last.
pub open spec fn take_in(selected: Set<CodeId>, stack: Seq<CodeId>, deps: Seq<CodeId>) -> (
    Set<CodeId>,
    Seq<CodeId>,
)
    decreases deps.len(),
{
    if deps.len() == 0 {
        (selected, stack)
    } else {
        let (s, st) = take_in(selected, stack, deps.drop_last());
        if s.contains(deps.last()) {
            (s, st)
        } else {
            (s.insert(deps.last()), st.push(deps.last()))
        }
    }
}

/// Visits the block on top of the stack and takes in its dependencies, until
/// the stack is empty. A block is put on the stack at most once, so as many
/// steps as there are blocks are enough.
pub open spec fn walk(
    codes: Seq<Code>,
    selected: Set<CodeId>,
    stack: Seq<CodeId>,
    steps: nat,
) -> Result<Set<CodeId>, Seq<char>>
    decreases steps,
{
    if stack.len() == 0 || steps == 0 {
        Ok(selected)
    } else {
        let code = block(codes, stack.last());
        if code.dependencies is Err {
            Err(unresolved_text(code))
        } else {
            let (s, st) = take_in(selected, stack.drop_last(), flat_groups(code.groups()));
            walk(codes, s, st, (steps - 1) as nat)
        }
    }
}

/// The blocks that running `target` takes, or why they cannot be told.
pub open spec fn needed_blocks(codes: Seq<Code>, target: CodeId) -> Result<Set<CodeId>, Seq<char>> {
    if !has_block(codes, target) {
        Err("target block "@ + decimal_text(target as nat) + " not found"@)
    } else {
        walk(codes, set![target], seq![target], codes.len())
    }
}

/// Blocks of a document are no more than its length.
proof fn lemma_selected_len(codes: Seq<Code>, selected: Set<CodeId>)
    requires
        selected.finite(),
        forall|id: CodeId| #[trigger] selected.contains(id) ==> has_block(codes, id),
    ensures
        selected.len() <= codes.len(),
{
    let all = block_ids(codes).to_set();
    assert forall|id: CodeId| #[trigger] selected.contains(id) implies all.contains(id) by {
        let i = choose|i: int| 0 <= i < codes.len() && (#[trigger] codes[i]).id == id;
        assert(block_ids(codes)[i] == id);
    }
    vstd::seq_lib::seq_to_set_is_finite(block_ids(codes));
    block_ids(codes).lemma_cardinality_of_set();
    vstd::set_lib::lemma_len_subset(selected, all);
}

/// Walks the dependency tree of `target` and returns all reachable blocks.
fn collect_dependencies(codes: &[Code], target: CodeId) -> (result: Result<
    HashSet<CodeId>,
    String,
>)
    requires
        valid_codes(codes@),
    ensures
        match result {
            Ok(selected) => needed_blocks(codes@, target) == Ok::<_, Seq<char>>(selected@),
            Err(message) => needed_blocks(codes@, target) == Err::<Set<CodeId>, _>(message@),
        },
{
    if find_block(codes, target).is_none() {
        let mut message = "target block ".to_owned();
        message.append(decimal(target as u64).as_str());
        message.append(" not found");
        return Err(message);
    }
    let mut selected: HashSet<CodeId> = HashSet::new();
    selected.insert(target);
    let mut stack: Vec<CodeId> = Vec::new();
    stack.push(target);
    let ghost mut steps: nat = codes@.len();
    assert(selected@ =~= set![target]);
    assert(stack@ =~= seq![target]);
    while stack.len() > 0
        invariant
            valid_codes(codes@),
            has_block(codes@, target),
            selected@.finite(),
            stack@.len() + codes@.len() == steps + selected@.len(),
            forall|id: CodeId| #[trigger] selected@.contains(id) ==> has_block(codes@, id),
            forall|i: int|
                0 <= i < stack@.len() ==> selected@.contains(#[trigger] stack@[i]),
            needed_blocks(codes@, target) == walk(codes@, selected@, stack@, steps),
        decreases steps,
    {
        proof {
            lemma_selected_len(codes@, selected@);
        }
        let ghost stack_before = stack@;
        let ghost selected_before = selected@;
        let id = stack[stack.len() - 1];
        stack.pop();
        let ghost rest = stack@;
        assert(rest == stack_before.drop_last());
        assert(selected@.contains(stack_before[stack_before.len() - 1]));
        let at = match find_block(codes, id) {
            Some(at) => at,
            None => {
                return Ok(selected);
            },
        };
        let code = &codes[at];
        assert(block(codes@, id) == *code);
        match &code.dependencies {
            Ok(groups) => {
                let flat = flatten(groups);
                let mut i: usize = 0;
                assert(flat@.take(0) =~= Seq::<CodeId>::empty());
                while i < flat.len()
                    invariant
                        i <= flat.len(),
                        valid_codes(codes@),
                        at < codes@.len(),
                        codes@[at as int] == *code,
                        code.dependencies is Ok,
                        flat@ == flat_groups(code.groups()),
                        selected@.finite(),
                        stack@.len() + codes@.len() == steps + selected@.len() - 1,
                        forall|d: CodeId| #[trigger]
                            selected@.contains(d) ==> has_block(codes@, d),
                        forall|j: int|
                            0 <= j < stack@.len() ==> selected@.contains(#[trigger] stack@[j]),
                        (selected@, stack@) == take_in(
                            selected_before,
                            rest,
                            flat@.take(i as int),
                        ),
                    decreases flat.len() - i,
                {
                    let dependency = flat[i];
                    proof {
                        assert(flat@.take(i + 1).drop_last() =~= flat@.take(i as int));
                        assert(codes@[at as int].depends_on(dependency));
                    }
                    if selected.insert(dependency) {
                        stack.push(dependency);
                    } else {
                        assert(selected@ =~= selected@.insert(dependency));
                    }
                    i += 1;
                }
                assert(flat@.take(i as int) =~= flat@);
                proof {
                    steps = (steps - 1) as nat;
                }
            },
            Err(error) => {
                return Err(unresolved_message(code.id, error));
            },
        }
    }
    Ok(selected)
}

impl DependencyGraph {
    /// Plans every block of the document.
    pub fn for_all(codes: &[Code]) -> (result: Result<Self, String>)
        requires
            valid_codes(codes@),
        ensures
            planned(codes@, block_ids(codes@).to_set(), None, result),
    {
        let ids = ids_of(codes);
        let selected = set_of(&ids);
        build_plan(codes, &selected, None)
    }

    /// Plans the dependency chain of one block.
    pub fn for_target(codes: &[Code], target: CodeId) -> (result: Result<Self, String>)
        requires
            valid_codes(codes@),
        ensures
            match needed_blocks(codes@, target) {
                Ok(selected) => planned(codes@, selected, Some(target), result),
                Err(message) => result is Err && result->Err_0@ == message,
            },
    {
        match collect_dependencies(codes, target) {
            Ok(selected) => build_plan(codes, &selected, Some(target)),
            Err(message) => Err(message),
        }
    }

    /// The layers in the order they run.
    pub fn layers(&self) -> (layers: &[Vec<CodeId>])
        ensures
            nested(layers@) == self.layers_view(),
    {
        self.layers.as_slice()
    }

    /// The blocks that wait for `id`, where there are any.
    pub fn dependents(&self, id: CodeId) -> (dependents: Option<&Vec<CodeId>>)
        ensures
            match dependents {
                Some(ids) => ids@ == self.dependents_of(id),
                None => self.dependents_of(id).len() == 0,
            },
    {
        self.dependents.get(&id)
    }

    /// The block the plan works toward, if any.
    pub fn target(&self) -> (target: Option<CodeId>)
        ensures
            target == self.target_view(),
    {
        self.target
    }
}

/// The members of all layers, one layer after the other.
pub open spec fn joined(layers: Seq<Seq<CodeId>>) -> Seq<CodeId>
    decreases layers.len(),
{
    if layers.len() == 0 {
        Seq::empty()
    } else {
        joined(layers.drop_last()) + layers.last()
    }
}

/// Every selected block is in exactly one place of the plan's layers.
pub proof fn law_layers_hold_each_block_once(
    codes: Seq<Code>,
    selected: Set<CodeId>,
    remaining: Seq<CodeId>,
    layers: Seq<Seq<CodeId>>,
)
    requires
        remaining.no_duplicates(),
        plan_layers(codes, selected, remaining) == Ok::<_, Seq<CodeId>>(layers),
    ensures
        joined(layers).no_duplicates(),
        forall|id: CodeId| #[trigger] joined(layers).contains(id) <==> remaining.contains(id),
    decreases remaining.len(),
{
    if remaining.len() > 0 {
        let keep = |id: CodeId| held(codes, selected, remaining, id);
        let open = |id: CodeId| !held(codes, selected, remaining, id);
        let ready = ready_part(codes, selected, remaining);
        let rest = held_part(codes, selected, remaining);
        lemma_filter_split(remaining, keep, open);
        lemma_filter_contains(remaining, keep);
        lemma_filter_contains(remaining, open);
        lemma_filter_distinct(remaining, keep);
        lemma_filter_distinct(remaining, open);
        let tail = layers.drop_first();
        assert(layers =~= seq![ready] + tail);
        assert(plan_layers(codes, selected, rest) == Ok::<_, Seq<CodeId>>(tail)) by {
            let planned_rest = plan_layers(codes, selected, rest);
            assert(planned_rest is Ok);
            assert((seq![ready] + planned_rest->Ok_0).drop_first() =~= planned_rest->Ok_0);
        }
        law_layers_hold_each_block_once(codes, selected, rest, tail);
        lemma_joined_first(layers);
        lemma_add_contains(ready, joined(tail));
        assert forall|i: int, j: int|
            0 <= i < j < joined(layers).len() implies joined(layers)[i] != joined(layers)[j] by {
            let n = ready.len();
            if i < n && n <= j {
                assert(ready.contains(ready[i]));
                assert(joined(tail).contains(joined(tail)[j - n]));
                assert(rest.contains(joined(tail)[j - n]));
            } else if n <= i {
                assert(joined(tail)[i - n] != joined(tail)[j - n]);
            } else {
                assert(ready[i] != ready[j]);
            }
        }
    }
}

/// Joining layers from the front.
pub proof fn lemma_joined_first(layers: Seq<Seq<CodeId>>)
    requires
        layers.len() > 0,
    ensures
        joined(layers) == layers[0] + joined(layers.drop_first()),
    decreases layers.len(),
{
    if layers.len() == 1 {
        assert(layers.drop_last() =~= Seq::empty());
        assert(layers.drop_first() =~= Seq::empty());
        assert(joined(layers) =~= layers[0] + joined(layers.drop_first()));
    } else {
        lemma_joined_first(layers.drop_last());
        assert(layers.drop_last().drop_first() =~= layers.drop_first().drop_last());
        assert(joined(layers) =~= layers[0] + joined(layers.drop_first()));
    }
}

/// A block that has to finish ahead of another is in an earlier layer.
pub proof fn law_dependencies_come_first(
    codes: Seq<Code>,
    selected: Set<CodeId>,
    remaining: Seq<CodeId>,
    layers: Seq<Seq<CodeId>>,
    before: CodeId,
    after: CodeId,
    i: int,
    j: int,
)
    requires
        remaining.no_duplicates(),
        plan_layers(codes, selected, remaining) == Ok::<_, Seq<CodeId>>(layers),
        edge(codes, selected, before, after),
        0 <= i < layers.len(),
        0 <= j < layers.len(),
        layers[i].contains(before),
        layers[j].contains(after),
    ensures
        i < j,
    decreases remaining.len(),
{
    let keep = |id: CodeId| held(codes, selected, remaining, id);
    let open = |id: CodeId| !held(codes, selected, remaining, id);
    let ready = ready_part(codes, selected, remaining);
    let rest = held_part(codes, selected, remaining);
    lemma_filter_split(remaining, keep, open);
    lemma_filter_contains(remaining, keep);
    lemma_filter_contains(remaining, open);
    lemma_filter_distinct(remaining, keep);
    let tail = layers.drop_first();
    assert(layers =~= seq![ready] + tail);
    assert(plan_layers(codes, selected, rest) == Ok::<_, Seq<CodeId>>(tail)) by {
        let planned_rest = plan_layers(codes, selected, rest);
        assert(planned_rest is Ok);
        assert((seq![ready] + planned_rest->Ok_0).drop_first() =~= planned_rest->Ok_0);
    }
    law_layers_hold_each_block_once(codes, selected, rest, tail);
    law_layers_hold_each_block_once(codes, selected, remaining, layers);
    lemma_joined_contains(layers, i, before);
    if j == 0 {
        assert(remaining.contains(before));
        assert(held(codes, selected, remaining, after));
        assert(false);
    } else if i > 0 {
        assert(tail[i - 1] == layers[i] && tail[j - 1] == layers[j]);
        law_dependencies_come_first(codes, selected, rest, tail, before, after, i - 1, j - 1);
    }
}

/// Members of a layer are members of the joined layers.
proof fn lemma_joined_contains(layers: Seq<Seq<CodeId>>, i: int, id: CodeId)
    requires
        0 <= i < layers.len(),
        layers[i].contains(id),
    ensures
        joined(layers).contains(id),
    decreases layers.len(),
{
    lemma_add_contains(joined(layers.drop_last()), layers.last());
    if i < layers.len() - 1 {
        lemma_joined_contains(layers.drop_last(), i, id);
    }
}

/// A plan fails exactly where some selected blocks hold each other back: each
/// block of the error is held back by another block of the error.
pub proof fn law_cycle_holds_itself(codes: Seq<Code>, selected: Set<CodeId>, remaining: Seq<CodeId>)
    requires
        plan_layers(codes, selected, remaining) is Err,
    ensures
        ({
            let stuck = plan_layers(codes, selected, remaining)->Err_0;
            &&& stuck.len() > 0
            &&& forall|id: CodeId| #[trigger]
                stuck.contains(id) ==> remaining.contains(id) && held(codes, selected, stuck, id)
        }),
    decreases remaining.len(),
{
    let keep = |id: CodeId| held(codes, selected, remaining, id);
    let open = |id: CodeId| !held(codes, selected, remaining, id);
    lemma_filter_split(remaining, keep, open);
    lemma_filter_contains(remaining, keep);
    lemma_filter_contains(remaining, open);
    if ready_part(codes, selected, remaining).len() == 0 {
        assert forall|id: CodeId| #[trigger] remaining.contains(id) implies held(
            codes,
            selected,
            remaining,
            id,
        ) by {
            assert(!remaining.filter(open).contains(id));
        }
    } else {
        law_cycle_holds_itself(codes, selected, held_part(codes, selected, remaining));
    }
}

/// Blocks that hold each other back cannot be planned.
pub proof fn law_cycle_is_rejected(
    codes: Seq<Code>,
    selected: Set<CodeId>,
    remaining: Seq<CodeId>,
    cycle: Seq<CodeId>,
)
    requires
        cycle.len() > 0,
        forall|id: CodeId| #[trigger] cycle.contains(id) ==> remaining.contains(id) && held(
            codes,
            selected,
            cycle,
            id,
        ),
    ensures
        plan_layers(codes, selected, remaining) is Err,
    decreases remaining.len(),
{
    let keep = |id: CodeId| held(codes, selected, remaining, id);
    let open = |id: CodeId| !held(codes, selected, remaining, id);
    lemma_filter_split(remaining, keep, open);
    lemma_filter_contains(remaining, keep);
    assert(cycle.contains(cycle[0]));
    assert(remaining.len() > 0);
    if ready_part(codes, selected, remaining).len() > 0 {
        let rest = held_part(codes, selected, remaining);
        assert forall|id: CodeId| #[trigger] cycle.contains(id) implies rest.contains(id) && held(
            codes,
            selected,
            cycle,
            id,
        ) by {
            let p = choose|p: CodeId| cycle.contains(p) && #[trigger] edge(codes, selected, p, id);
            assert(remaining.contains(p));
            assert(held(codes, selected, remaining, id));
            assert(remaining.filter(keep).contains(id));
        }
        law_cycle_is_rejected(codes, selected, rest, cycle);
    }
}

/// A chain of blocks in which each depends on the next.
pub open spec fn dependency_chain(codes: Seq<Code>, chain: Seq<CodeId>) -> bool {
    forall|i: int|
        0 <= i < chain.len() - 1 ==> block(codes, #[trigger] chain[i]).depends_on(chain[i + 1])
}

/// `id` is `target` itself or a dependency of it, directly or through other
/// blocks.
pub open spec fn needs(codes: Seq<Code>, target: CodeId, id: CodeId) -> bool {
    exists|chain: Seq<CodeId>| #[trigger]
        dependency_chain(codes, chain) && chain.len() > 0 && chain[0] == target && chain.last() == id
}

/// What taking in a list of dependencies changes.
proof fn lemma_take_in(selected: Set<CodeId>, stack: Seq<CodeId>, deps: Seq<CodeId>)
    requires
        selected.finite(),
    ensures
        ({
            let (s, st) = take_in(selected, stack, deps);
            &&& s.finite()
            &&& st.len() + selected.len() == stack.len() + s.len()
            &&& forall|id: CodeId| #[trigger]
                s.contains(id) <==> selected.contains(id) || deps.contains(id)
            &&& forall|id: CodeId| #[trigger]
                st.contains(id) <==> stack.contains(id) || (s.contains(id) && !selected.contains(
                    id,
                ))
        }),
    decreases deps.len(),
{
    if deps.len() > 0 {
        let d = deps.last();
        lemma_take_in(selected, stack, deps.drop_last());
        let (s, st) = take_in(selected, stack, deps.drop_last());
        assert(deps =~= deps.drop_last().push(d));
        lemma_push_contains(deps.drop_last(), d);
        lemma_push_contains(st, d);
    }
}

/// Walking on keeps what was selected, closes it under dependencies and adds
/// only blocks that the target needs.
proof fn lemma_walk(
    codes: Seq<Code>,
    target: CodeId,
    selected: Set<CodeId>,
    stack: Seq<CodeId>,
    steps: nat,
)
    requires
        valid_codes(codes),
        selected.finite(),
        stack.len() + codes.len() == steps + selected.len(),
        forall|id: CodeId| #[trigger] selected.contains(id) ==> has_block(codes, id),
        forall|id: CodeId| #[trigger] selected.contains(id) ==> needs(codes, target, id),
        forall|id: CodeId| #[trigger] stack.contains(id) ==> selected.contains(id),
        forall|y: CodeId, d: CodeId|
            selected.contains(y) && !stack.contains(y) && #[trigger] block(codes, y).depends_on(d)
                ==> selected.contains(d),
        walk(codes, selected, stack, steps) is Ok,
    ensures
        ({
            let all = walk(codes, selected, stack, steps)->Ok_0;
            &&& forall|id: CodeId| #[trigger] selected.contains(id) ==> all.contains(id)
            &&& forall|id: CodeId| #[trigger] all.contains(id) ==> needs(codes, target, id)
            &&& forall|y: CodeId, d: CodeId|
                all.contains(y) && #[trigger] block(codes, y).depends_on(d) ==> all.contains(d)
        }),
    decreases steps,
{
    lemma_selected_len(codes, selected);
    if stack.len() > 0 {
        assert(steps > 0);
        let id = stack.last();
        let rest = stack.drop_last();
        assert(stack =~= rest.push(id));
        lemma_push_contains(rest, id);
        assert(stack.contains(id));
        assert(has_block(codes, id));
        let code = block(codes, id);
        let deps = flat_groups(code.groups());
        lemma_take_in(selected, rest, deps);
        let (s, st) = take_in(selected, rest, deps);
        assert forall|x: CodeId| #[trigger] s.contains(x) implies has_block(codes, x) && needs(
            codes,
            target,
            x,
        ) by {
            if !selected.contains(x) {
                assert(code.depends_on(x));
                let at = choose|i: int| 0 <= i < codes.len() && (#[trigger] codes[i]).id == id;
                assert(codes[at].depends_on(x));
                let chain = choose|chain: Seq<CodeId>| #[trigger]
                    dependency_chain(codes, chain) && chain.len() > 0 && chain[0] == target
                        && chain.last() == id;
                let longer = chain.push(x);
                assert forall|i: int| 0 <= i < longer.len() - 1 implies block(
                    codes,
                    #[trigger] longer[i],
                ).depends_on(longer[i + 1]) by {
                    if i < chain.len() - 1 {
                        assert(block(codes, chain[i]).depends_on(chain[i + 1]));
                    }
                }
                assert(dependency_chain(codes, longer) && longer[0] == target && longer.last()
                    == x);
            }
        }
        assert forall|y: CodeId, d: CodeId|
            s.contains(y) && !st.contains(y) && #[trigger] block(codes, y).depends_on(d) implies s.contains(d) by {
            if y == id {
                assert(deps.contains(d));
            } else {
                assert(selected.contains(y));
                assert(!stack.contains(y));
            }
        }
        assert forall|x: CodeId| #[trigger] st.contains(x) implies s.contains(x) by {
            if rest.contains(x) {
                assert(stack.contains(x));
            }
        }
        lemma_walk(codes, target, s, st, (steps - 1) as nat);
        let all = walk(codes, selected, stack, steps)->Ok_0;
        assert forall|x: CodeId| #[trigger] selected.contains(x) implies all.contains(x) by {
            assert(s.contains(x));
        }
    }
}

/// A block set that is closed under dependencies holds every chain that starts
/// in it.
proof fn lemma_needed_inside(codes: Seq<Code>, all: Set<CodeId>, chain: Seq<CodeId>)
    requires
        dependency_chain(codes, chain),
        chain.len() > 0,
        all.contains(chain[0]),
        forall|y: CodeId, d: CodeId|
            all.contains(y) && #[trigger] block(codes, y).depends_on(d) ==> all.contains(d),
    ensures
        all.contains(chain.last()),
    decreases chain.len(),
{
    if chain.len() > 1 {
        let shorter = chain.drop_last();
        assert forall|i: int| 0 <= i < shorter.len() - 1 implies block(
            codes,
            #[trigger] shorter[i],
        ).depends_on(shorter[i + 1]) by {
            assert(block(codes, chain[i]).depends_on(chain[i + 1]));
        }
        lemma_needed_inside(codes, all, shorter);
        let n = chain.len() - 2;
        assert(block(codes, chain[n]).depends_on(chain[n + 1]));
    }
}

/// A target's plan takes the target and every block it depends on, directly or
/// through other blocks, and nothing else.
pub proof fn law_target_takes_what_it_needs(codes: Seq<Code>, target: CodeId)
    requires
        valid_codes(codes),
        needed_blocks(codes, target) is Ok,
    ensures
        forall|id: CodeId| #[trigger]
            needed_blocks(codes, target)->Ok_0.contains(id) <==> needs(codes, target, id),
{
    let start = set![target];
    let stack = seq![target];
    let chain = seq![target];
    assert(dependency_chain(codes, chain) && chain[0] == target && chain.last() == target);
    assert(stack[0] == target);
    lemma_walk(codes, target, start, stack, codes.len());
    let all = needed_blocks(codes, target)->Ok_0;
    assert(start.contains(target));
    assert forall|id: CodeId| needs(codes, target, id) implies #[trigger] all.contains(id) by {
        let chain = choose|chain: Seq<CodeId>| #[trigger]
            dependency_chain(codes, chain) && chain.len() > 0 && chain[0] == target && chain.last()
                == id;
        lemma_needed_inside(codes, all, chain);
    }
}

/// No block waits longer than it must: a block that is not in the first layer waits for
/// one in the layer just before its own, and those in the first layer wait for none.
pub proof fn law_blocks_run_as_early_as_they_can(
    codes: Seq<Code>,
    selected: Set<CodeId>,
    remaining: Seq<CodeId>,
    layers: Seq<Seq<CodeId>>,
    id: CodeId,
    j: int,
)
    requires
        remaining.no_duplicates(),
        plan_layers(codes, selected, remaining) == Ok::<_, Seq<CodeId>>(layers),
        0 <= j < layers.len(),
        layers[j].contains(id),
    ensures
        j > 0 ==> exists|before: CodeId| #[trigger]
            layers[j - 1].contains(before) && edge(codes, selected, before, id),
        j == 0 ==> forall|before: CodeId| #[trigger]
            remaining.contains(before) ==> !edge(codes, selected, before, id),
        layers[j].len() > 0,
    decreases remaining.len(),
{
    let keep = |x: CodeId| held(codes, selected, remaining, x);
    let open = |x: CodeId| !held(codes, selected, remaining, x);
    let ready = ready_part(codes, selected, remaining);
    let rest = held_part(codes, selected, remaining);
    lemma_filter_split(remaining, keep, open);
    lemma_filter_contains(remaining, keep);
    lemma_filter_contains(remaining, open);
    lemma_filter_distinct(remaining, keep);
    let tail = layers.drop_first();
    assert(layers =~= seq![ready] + tail);
    assert(plan_layers(codes, selected, rest) == Ok::<_, Seq<CodeId>>(tail)) by {
        let planned_rest = plan_layers(codes, selected, rest);
        assert(planned_rest is Ok);
        assert((seq![ready] + planned_rest->Ok_0).drop_first() =~= planned_rest->Ok_0);
    }
    if j == 0 {
        assert(ready.contains(id));
    } else {
        assert(tail[j - 1] == layers[j]);
        law_blocks_run_as_early_as_they_can(codes, selected, rest, tail, id, j - 1);
        if j == 1 {
            law_layers_hold_each_block_once(codes, selected, rest, tail);
            lemma_joined_contains(tail, 0, id);
            assert(rest.contains(id));
            assert(held(codes, selected, remaining, id));
            let before = choose|p: CodeId|
                remaining.contains(p) && #[trigger] edge(codes, selected, p, id);
            assert(!rest.contains(before));
            assert(ready.contains(before));
            assert(layers[0].contains(before));
        } else {
            let before = choose|before: CodeId| #[trigger]
                tail[j - 2].contains(before) && edge(codes, selected, before, id);
            assert(layers[j - 1].contains(before));
        }
    }
}

/// The message about a cycle names every block of it.
pub proof fn law_cycles_name_their_blocks(ids: Seq<CodeId>, i: int)
    requires
        0 <= i < ids.len(),
    ensures
        crate::text::contains_text(id_list_text(ids), decimal_text(ids[i] as nat)),
        crate::text::contains_text(cycle_text(ids), decimal_text(ids[i] as nat)),
    decreases ids.len(),
{
    let number = decimal_text(ids[i] as nat);
    if ids.len() == 1 {
        crate::text::law_contained_texts_stand_somewhere(number, number);
    } else if i == ids.len() - 1 {
        crate::text::law_contained_texts_stand_somewhere(number, number);
        crate::text::lemma_contained_in_more(
            number,
            id_list_text(ids.drop_last()) + ", "@,
            number,
        );
    } else {
        let less = ids.drop_last();
        law_cycles_name_their_blocks(less, i);
        crate::text::lemma_contained_in_more(id_list_text(less), ", "@, number);
        crate::text::lemma_contained_in_more(
            id_list_text(less) + ", "@,
            decimal_text(ids.last() as nat),
            number,
        );
    }
    crate::text::lemma_contained_in_more(
        id_list_text(ids),
        "dependency cycle involving blocks "@,
        number,
    );
}

/// The message about a block whose dependencies make no sense names the block and tells
/// what is wrong.
pub proof fn law_unresolved_blocks_are_named(code: Code)
    ensures
        crate::text::contains_text(unresolved_text(code), decimal_text(code.id as nat)),
        crate::text::contains_text(unresolved_text(code), code.dependencies->Err_0@),
{
    let number = decimal_text(code.id as nat);
    let error = code.dependencies->Err_0@;
    assert(unresolved_text(code) =~= "block "@ + number + (": "@ + error));
    crate::text::lemma_stands_between("block "@, number, ": "@ + error);
    let before = "block "@ + number + ": "@;
    assert(unresolved_text(code) =~= before + error + Seq::empty());
    crate::text::lemma_stands_between(before, error, Seq::empty());
}

} // verus!
