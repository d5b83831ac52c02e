//! Code blocks of a document.

use vstd::prelude::*;

verus! {

/// One-based number of a code block within its document.
pub type CodeId = u32;

/// A part of a dependency list as it is shown.
pub struct DepsToken {
    pub text: String,
    /// Whether this is punctuation and no name.
    pub punct: bool,
}

/// A code block with its dependency names resolved to block numbers.
///
/// `dependencies` holds the groups of a block's dependency list in the order
/// they run; the blocks of one group run concurrently. A name that does not
/// resolve to exactly one block leaves the reason instead.
pub struct Code {
    pub id: CodeId,
    /// Empty for a block without a name.
    pub name: String,
    pub language: String,
    /// The language as it is shown.
    pub language_name: String,
    pub content: String,
    /// The dependency list as it is shown; empty for a block without one.
    pub deps_text: String,
    /// The parts of the dependency list; `None` where it is malformed.
    pub deps_tokens: Option<Vec<DepsToken>>,
    pub dependencies: Result<Vec<Vec<CodeId>>, String>,
}

impl Code {
    /// The dependency groups, where every name resolved.
    pub open spec fn groups(&self) -> Seq<Vec<CodeId>> {
        self.dependencies->Ok_0@
    }

    /// `id` is a direct dependency of this block.
    pub open spec fn depends_on(&self, id: CodeId) -> bool {
        &&& self.dependencies is Ok
        &&& flat_groups(self.groups()).contains(id)
    }
}

/// The members of all groups, one group after the other.
pub open spec fn flat_groups(groups: Seq<Vec<CodeId>>) -> Seq<CodeId>
    decreases groups.len(),
{
    if groups.len() == 0 {
        Seq::empty()
    } else {
        flat_groups(groups.drop_last()) + groups.last()@
    }
}

/// The members of all groups, one group after the other.
pub fn flatten(groups: &Vec<Vec<CodeId>>) -> (flat: Vec<CodeId>)
    ensures
        flat@ == flat_groups(groups@),
{
    let mut flat: Vec<CodeId> = Vec::new();
    let mut g: usize = 0;
    while g < groups.len()
        invariant
            g <= groups.len(),
            flat@ == flat_groups(groups@.take(g as int)),
        decreases groups.len() - g,
    {
        let ghost before = flat@;
        let mut i: usize = 0;
        while i < groups[g].len()
            invariant
                g < groups.len(),
                i <= groups@[g as int]@.len(),
                flat@ == before + groups@[g as int]@.take(i as int),
            decreases groups@[g as int]@.len() - i,
        {
            flat.push(groups[g][i]);
            i += 1;
        }
        proof {
            assert(groups@.take(g + 1).drop_last() =~= groups@.take(g as int));
            assert(groups@[g as int]@.take(i as int) =~= groups@[g as int]@);
        }
        g += 1;
    }
    assert(groups@.take(g as int) =~= groups@);
    flat
}

/// The block numbers of a document, in document order.
pub open spec fn block_ids(codes: Seq<Code>) -> Seq<CodeId> {
    codes.map_values(|code: Code| code.id)
}

/// The document holds a block with this number.
pub open spec fn has_block(codes: Seq<Code>, id: CodeId) -> bool {
    exists|i: int| 0 <= i < codes.len() && (#[trigger] codes[i]).id == id
}

/// A well-formed document: block numbers are distinct, and a resolved
/// dependency is a block of the document.
pub open spec fn valid_codes(codes: Seq<Code>) -> bool {
    &&& forall|i: int, j: int|
        0 <= i < codes.len() && 0 <= j < codes.len() && (#[trigger] codes[i]).id == (
        #[trigger] codes[j]).id ==> i == j
    &&& forall|i: int, d: CodeId|
        0 <= i < codes.len() && #[trigger] codes[i].depends_on(d) ==> has_block(codes, d)
}

/// Position of the block with this number.
pub fn find_block(codes: &[Code], id: CodeId) -> (found: Option<usize>)
    ensures
        found is Some <==> has_block(codes@, id),
        found matches Some(i) ==> i < codes@.len() && codes@[i as int].id == id && (forall|j: int|
            0 <= j < i ==> (#[trigger] codes@[j]).id != id),
{
    let mut i: usize = 0;
    while i < codes.len()
        invariant
            i <= codes.len(),
            forall|j: int| 0 <= j < i ==> (#[trigger] codes@[j]).id != id,
        decreases codes.len() - i,
    {
        if codes[i].id == id {
            return Some(i);
        }
        i += 1;
    }
    None
}

/// The block with a number of the document.
pub open spec fn code_of(codes: Seq<Code>, id: CodeId) -> Code
    recommends
        has_block(codes, id),
    decreases codes.len(),
{
    if codes.len() == 0 || codes[0].id == id {
        codes[0]
    } else {
        code_of(codes.drop_first(), id)
    }
}

/// The block with a number has that number.
pub proof fn lemma_code_of_id(codes: Seq<Code>, id: CodeId)
    requires
        has_block(codes, id),
    ensures
        code_of(codes, id).id == id,
    decreases codes.len(),
{
    if codes[0].id != id {
        let k = choose|k: int| 0 <= k < codes.len() && (#[trigger] codes[k]).id == id;
        assert(codes.drop_first()[k - 1].id == id);
        lemma_code_of_id(codes.drop_first(), id);
    }
}

/// The first block with a number is the block with that number.
pub proof fn lemma_code_of(codes: Seq<Code>, id: CodeId, i: int)
    requires
        0 <= i < codes.len(),
        codes[i].id == id,
        forall|j: int| 0 <= j < i ==> (#[trigger] codes[j]).id != id,
    ensures
        code_of(codes, id) == codes[i],
    decreases codes.len(),
{
    if i > 0 {
        let rest = codes.drop_first();
        assert forall|j: int| 0 <= j < i - 1 implies (#[trigger] rest[j]).id != id by {
            assert(rest[j] == codes[j + 1]);
        }
        lemma_code_of(rest, id, i - 1);
    }
}

/// The block with a number of the document.
pub fn code_by_id(codes: &[Code], id: CodeId) -> (code: Option<&Code>)
    ensures
        code is Some <==> has_block(codes@, id),
        code matches Some(c) ==> *c == code_of(codes@, id) && c.id == id,
{
    match find_block(codes, id) {
        Some(i) => {
            proof {
                lemma_code_of(codes@, id, i as int);
            }
            Some(&codes[i])
        },
        None => None,
    }
}

/// Whether block numbers are distinct and resolved dependencies are blocks of the
/// document.
pub fn check_codes(codes: &[Code]) -> (ok: bool)
    ensures
        ok == valid_codes(codes@),
{
    let mut i: usize = 0;
    while i < codes.len()
        invariant
            i <= codes.len(),
            forall|a: int, b: int|
                0 <= a < i && 0 <= b < codes@.len() && (#[trigger] codes@[a]).id == (
                #[trigger] codes@[b]).id ==> a <= b,
            forall|a: int, d: CodeId|
                0 <= a < i && #[trigger] codes@[a].depends_on(d) ==> has_block(codes@, d),
        decreases codes.len() - i,
    {
        match find_block(codes, codes[i].id) {
            Some(at) => {
                if at != i {
                    assert(codes@[at as int].id == codes@[i as int].id);
                    return false;
                }
            },
            None => {
                assert(has_block(codes@, codes@[i as int].id));
            },
        }
        if let Ok(groups) = &codes[i].dependencies {
            let flat = flatten(groups);
            let mut k: usize = 0;
            while k < flat.len()
                invariant
                    i < codes.len(),
                    codes@[i as int].dependencies is Ok,
                    flat@ == flat_groups(codes@[i as int].groups()),
                    k <= flat.len(),
                    forall|j: int| 0 <= j < k ==> has_block(codes@, #[trigger] flat@[j]),
                decreases flat.len() - k,
            {
                if find_block(codes, flat[k]).is_none() {
                    assert(codes@[i as int].depends_on(flat@[k as int]));
                    return false;
                }
                k += 1;
            }
        }
        i += 1;
    }
    true
}

/// A block is found by its number, and the first with that number counts.
pub proof fn law_blocks_are_found_by_number(codes: Seq<Code>, id: CodeId)
    requires
        has_block(codes, id),
    ensures
        code_of(codes, id).id == id,
        codes.contains(code_of(codes, id)),
        exists|i: int|
            0 <= i < codes.len() && #[trigger] codes[i] == code_of(codes, id) && forall|j: int|
                0 <= j < i ==> (#[trigger] codes[j]).id != id,
    decreases codes.len(),
{
    if codes[0].id == id {
        assert(codes[0] == code_of(codes, id));
    } else {
        let rest = codes.drop_first();
        let k = choose|k: int| 0 <= k < codes.len() && (#[trigger] codes[k]).id == id;
        assert(rest[k - 1].id == id);
        law_blocks_are_found_by_number(rest, id);
        let i = choose|i: int|
            0 <= i < rest.len() && #[trigger] rest[i] == code_of(rest, id) && forall|j: int|
                0 <= j < i ==> (#[trigger] rest[j]).id != id;
        assert(codes[i + 1] == code_of(codes, id));
        assert forall|j: int| 0 <= j < i + 1 implies (#[trigger] codes[j]).id != id by {
            if j > 0 {
                assert(rest[j - 1] == codes[j]);
            }
        }
    }
}

/// A block depends on the members of its groups, and on no other block.
pub proof fn law_groups_list_the_dependencies(groups: Seq<Vec<CodeId>>, id: CodeId)
    ensures
        flat_groups(groups).contains(id) <==> exists|i: int|
            0 <= i < groups.len() && (#[trigger] groups[i])@.contains(id),
    decreases groups.len(),
{
    if groups.len() > 0 {
        let less = groups.drop_last();
        law_groups_list_the_dependencies(less, id);
        let before = flat_groups(less);
        let last = groups.last()@;
        if flat_groups(groups).contains(id) {
            let k = flat_groups(groups).index_of(id);
            if k < before.len() {
                assert(before[k] == id);
                let i = choose|i: int| 0 <= i < less.len() && (#[trigger] less[i])@.contains(id);
                assert(groups[i]@.contains(id));
            } else {
                assert(last[k - before.len()] == id);
                assert(groups[groups.len() - 1]@.contains(id));
            }
        }
        if exists|i: int| 0 <= i < groups.len() && (#[trigger] groups[i])@.contains(id) {
            let i = choose|i: int| 0 <= i < groups.len() && (#[trigger] groups[i])@.contains(id);
            if i < less.len() {
                assert(less[i]@.contains(id));
                let k = before.index_of(id);
                assert(flat_groups(groups)[k] == id);
            } else {
                let k = last.index_of(id);
                assert(flat_groups(groups)[before.len() + k] == id);
            }
        }
    }
}

} // verus!
