//! Facts about filtered sequences.

use vstd::prelude::*;

verus! {

/// Filtering one more element.
pub proof fn lemma_filter_push<T>(s: Seq<T>, x: T, keep: spec_fn(T) -> bool)
    ensures
        s.push(x).filter(keep) == if keep(x) {
            s.filter(keep).push(x)
        } else {
            s.filter(keep)
        },
{
    reveal(Seq::filter);
    assert(s.push(x).drop_last() =~= s);
}

/// A filter and its opposite share out the elements.
pub proof fn lemma_filter_split<T>(s: Seq<T>, keep: spec_fn(T) -> bool, drop: spec_fn(T) -> bool)
    requires
        forall|x: T| #[trigger] keep(x) != drop(x),
    ensures
        s.filter(keep).len() + s.filter(drop).len() == s.len(),
    decreases s.len(),
{
    reveal(Seq::filter);
    if s.len() > 0 {
        lemma_filter_split(s.drop_last(), keep, drop);
    }
}

/// A filtered sequence holds exactly the elements that pass.
pub proof fn lemma_filter_contains<T>(s: Seq<T>, keep: spec_fn(T) -> bool)
    ensures
        forall|x: T| #[trigger] s.filter(keep).contains(x) <==> s.contains(x) && keep(x),
        forall|i: int| 0 <= i < s.filter(keep).len() ==> keep(#[trigger] s.filter(keep)[i]),
        s.filter(keep).len() <= s.len(),
    decreases s.len(),
{
    reveal(Seq::filter);
    if s.len() > 0 {
        let rest = s.drop_last();
        lemma_filter_contains(rest, keep);
        assert forall|x: T| #[trigger] s.filter(keep).contains(x) <==> s.contains(x) && keep(x) by {
            if s.filter(keep).contains(x) {
                let i = s.filter(keep).index_of(x);
                if i < rest.filter(keep).len() {
                    assert(rest.filter(keep)[i] == x);
                    assert(rest.filter(keep).contains(x));
                    let j = rest.index_of(x);
                    assert(s[j] == x);
                } else {
                    assert(s[s.len() - 1] == x);
                }
            }
            if s.contains(x) && keep(x) {
                let j = s.index_of(x);
                if j < rest.len() {
                    assert(rest[j] == x);
                    assert(rest.filter(keep).contains(x));
                    let i = rest.filter(keep).index_of(x);
                    assert(s.filter(keep)[i] == x);
                } else {
                    assert(s.filter(keep)[s.filter(keep).len() - 1] == x);
                }
            }
        }
    }
}

/// The indices below `n` that pass a test, ascending.
pub open spec fn indices_where(n: nat, keep: spec_fn(int) -> bool) -> Seq<usize>
    decreases n,
{
    if n == 0 {
        Seq::empty()
    } else {
        let rest = indices_where((n - 1) as nat, keep);
        if keep(n - 1) {
            rest.push((n - 1) as usize)
        } else {
            rest
        }
    }
}

/// The listed indices are below `n`, pass the test and ascend; every index that
/// passes is listed.
pub proof fn lemma_indices_where(n: nat, keep: spec_fn(int) -> bool)
    requires
        n <= usize::MAX,
    ensures
        indices_where(n, keep).len() <= n,
        forall|k: int|
            0 <= k < indices_where(n, keep).len() ==> (#[trigger] indices_where(n, keep)[k]) < n
                && keep(indices_where(n, keep)[k] as int),
        forall|j: int, k: int|
            0 <= j < k < indices_where(n, keep).len() ==> (#[trigger] indices_where(n, keep)[j]) < (
            #[trigger] indices_where(n, keep)[k]),
        forall|i: int| 0 <= i < n && keep(i) ==> #[trigger] indices_where(n, keep).contains(i as usize),
    decreases n,
{
    if n > 0 {
        let m = (n - 1) as nat;
        lemma_indices_where(m, keep);
        let rest = indices_where(m, keep);
        lemma_push_contains(rest, m as usize);
        assert forall|i: int| 0 <= i < n && keep(i) implies #[trigger] indices_where(
            n,
            keep,
        ).contains(i as usize) by {
            if i < m {
                assert(rest.contains(i as usize));
            }
        }
    }
}

/// What one more element adds to a prefix.
pub proof fn lemma_take_contains<T>(s: Seq<T>, n: int)
    requires
        0 <= n < s.len(),
    ensures
        s.take(n + 1) == s.take(n).push(s[n]),
        forall|x: T| #[trigger] s.take(n + 1).contains(x) <==> s.take(n).contains(x) || x == s[n],
{
    assert(s.take(n + 1) =~= s.take(n).push(s[n]));
    lemma_push_contains(s.take(n), s[n]);
}

/// What appending one element adds.
pub proof fn lemma_push_contains<T>(s: Seq<T>, a: T)
    ensures
        forall|x: T| #[trigger] s.push(a).contains(x) <==> s.contains(x) || x == a,
{
    assert forall|x: T| #[trigger] s.push(a).contains(x) <==> s.contains(x) || x == a by {
        if s.contains(x) {
            assert(s.push(a)[s.index_of(x)] == x);
        }
        if x == a {
            assert(s.push(a)[s.len() as int] == x);
        }
        if s.push(a).contains(x) {
            let i = s.push(a).index_of(x);
            if i < s.len() {
                assert(s[i] == x);
            }
        }
    }
}

/// What joining two sequences holds.
pub proof fn lemma_add_contains<T>(s: Seq<T>, t: Seq<T>)
    ensures
        forall|x: T| #[trigger] (s + t).contains(x) <==> s.contains(x) || t.contains(x),
{
    assert forall|x: T| #[trigger] (s + t).contains(x) <==> s.contains(x) || t.contains(x) by {
        if s.contains(x) {
            assert((s + t)[s.index_of(x)] == x);
        }
        if t.contains(x) {
            assert((s + t)[s.len() + t.index_of(x)] == x);
        }
        if (s + t).contains(x) {
            let i = (s + t).index_of(x);
            if i < s.len() {
                assert(s[i] == x);
            } else {
                assert(t[i - s.len()] == x);
            }
        }
    }
}

/// Filtering keeps distinct elements distinct.
pub proof fn lemma_filter_distinct<T>(s: Seq<T>, keep: spec_fn(T) -> bool)
    requires
        s.no_duplicates(),
    ensures
        s.filter(keep).no_duplicates(),
    decreases s.len(),
{
    reveal(Seq::filter);
    if s.len() > 0 {
        let rest = s.drop_last();
        assert(rest.no_duplicates());
        lemma_filter_distinct(rest, keep);
        lemma_filter_contains(rest, keep);
        if keep(s.last()) {
            assert(!rest.contains(s.last())) by {
                if rest.contains(s.last()) {
                    let j = rest.index_of(s.last());
                    assert(s[j] == s[s.len() - 1]);
                }
            }
            assert forall|i: int, j: int|
                0 <= i < j < s.filter(keep).len() implies s.filter(keep)[i] != s.filter(keep)[j] by {
                if j == rest.filter(keep).len() {
                    assert(rest.filter(keep)[i] == s.filter(keep)[i]);
                    assert(rest.filter(keep).contains(s.filter(keep)[i]));
                } else {
                    assert(rest.filter(keep)[i] != rest.filter(keep)[j]);
                }
            }
        }
    }
}

} // verus!
