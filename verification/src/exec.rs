//! Shared execution rules of both front ends.

use vstd::prelude::*;

use crate::task::Task;
use crate::text::chars_of;

verus! {

/// `a` comes before `b` in the order of their characters.
pub open spec fn text_less(a: Seq<char>, b: Seq<char>) -> bool
    decreases a.len(),
{
    if b.len() == 0 {
        false
    } else if a.len() == 0 {
        true
    } else if a[0] != b[0] {
        (a[0] as int) < (b[0] as int)
    } else {
        text_less(a.drop_first(), b.drop_first())
    }
}

/// The order of texts is strict and leaves no two different texts unordered.
pub proof fn lemma_text_order(a: Seq<char>, b: Seq<char>)
    ensures
        !(text_less(a, b) && text_less(b, a)),
        text_less(a, b) || text_less(b, a) <==> a != b,
    decreases a.len(),
{
    if a.len() > 0 && b.len() > 0 {
        if a[0] == b[0] {
            lemma_text_order(a.drop_first(), b.drop_first());
            if a.drop_first() == b.drop_first() {
                assert(a =~= seq![a[0]] + a.drop_first());
                assert(b =~= seq![b[0]] + b.drop_first());
            }
        }
    } else {
        if a.len() == 0 && b.len() == 0 {
            assert(a =~= b);
        }
    }
}

/// The order of texts is transitive.
pub proof fn lemma_text_transitive(a: Seq<char>, b: Seq<char>, c: Seq<char>)
    requires
        text_less(a, b),
        text_less(b, c),
    ensures
        text_less(a, c),
    decreases a.len(),
{
    if a.len() > 0 {
        if a[0] == b[0] && b[0] == c[0] {
            lemma_text_transitive(a.drop_first(), b.drop_first(), c.drop_first());
        }
    }
}

/// The number of a character.
fn code_point(c: char) -> (n: u32)
    ensures
        n == c as int,
{
    c as u32
}

/// Whether `a` comes before `b` in the order of their characters.
pub fn text_before(a: &str, b: &str) -> (before: bool)
    ensures
        before == text_less(a@, b@),
{
    let x = chars_of(a);
    let y = chars_of(b);
    let mut i: usize = 0;
    assert(x@.skip(0) =~= x@ && y@.skip(0) =~= y@);
    while i < x.len() && i < y.len()
        invariant
            i <= x@.len(),
            i <= y@.len(),
            x@ == a@,
            y@ == b@,
            text_less(x@, y@) == text_less(x@.skip(i as int), y@.skip(i as int)),
        decreases x@.len() - i,
    {
        assert(x@.skip(i as int)[0] == x@[i as int] && y@.skip(i as int)[0] == y@[i as int]);
        if x[i] != y[i] {
            return code_point(x[i]) < code_point(y[i]);
        }
        proof {
            assert(x@.skip(i as int).drop_first() =~= x@.skip(i + 1));
            assert(y@.skip(i as int).drop_first() =~= y@.skip(i + 1));
        }
        i += 1;
    }
    x.len() < y.len()
}

/// Environment variables, sorted by name, each name once.
pub struct Envs {
    entries: Vec<(String, String)>,
}

/// Names and values of a list of variables.
pub open spec fn pairs(entries: Seq<(String, String)>) -> Seq<(Seq<char>, Seq<char>)> {
    entries.map_values(|e: (String, String)| (e.0@, e.1@))
}

/// Names strictly ascend.
pub open spec fn ascending(entries: Seq<(Seq<char>, Seq<char>)>) -> bool {
    forall|i: int, j: int|
        0 <= i < j < entries.len() ==> text_less((#[trigger] entries[i]).0, (
        #[trigger] entries[j]).0)
}

/// Some entry has this name.
pub open spec fn has_name(entries: Seq<(Seq<char>, Seq<char>)>, name: Seq<char>) -> bool {
    exists|i: int| 0 <= i < entries.len() && (#[trigger] entries[i]).0 == name
}

/// An entry with this name.
pub open spec fn place_of(entries: Seq<(Seq<char>, Seq<char>)>, name: Seq<char>) -> int {
    choose|i: int| 0 <= i < entries.len() && (#[trigger] entries[i]).0 == name
}

/// The value under a name.
pub open spec fn value_of(entries: Seq<(Seq<char>, Seq<char>)>, name: Seq<char>) -> Seq<char> {
    entries[place_of(entries, name)].1
}

/// The variables as a map from names to values.
pub open spec fn env_map(entries: Seq<(Seq<char>, Seq<char>)>) -> Map<Seq<char>, Seq<char>> {
    Map::new(|name: Seq<char>| has_name(entries, name), |name: Seq<char>| value_of(entries, name))
}

/// With ascending names, the value under the name of an entry is that entry's.
proof fn lemma_value_at(entries: Seq<(Seq<char>, Seq<char>)>, i: int)
    requires
        ascending(entries),
        0 <= i < entries.len(),
    ensures
        has_name(entries, entries[i].0),
        value_of(entries, entries[i].0) == entries[i].1,
{
    let name = entries[i].0;
    assert(has_name(entries, name));
    let k = place_of(entries, name);
    if k != i {
        lemma_text_order(name, name);
        if k < i {
            assert(text_less(entries[k].0, entries[i].0));
        } else {
            assert(text_less(entries[i].0, entries[k].0));
        }
    }
}

impl View for Envs {
    type V = Map<Seq<char>, Seq<char>>;

    closed spec fn view(&self) -> Map<Seq<char>, Seq<char>> {
        env_map(pairs(self.entries@))
    }
}

/// Two ascending lists of the same variables are the same list.
pub proof fn lemma_listing_is_unique(a: Seq<(Seq<char>, Seq<char>)>, b: Seq<(Seq<char>, Seq<char>)>)
    requires
        ascending(a),
        ascending(b),
        env_map(a) == env_map(b),
    ensures
        a == b,
    decreases a.len(),
{
    if a.len() == 0 {
        if b.len() > 0 {
            assert(has_name(b, b[0].0));
            assert(env_map(b).contains_key(b[0].0));
            assert(env_map(a).contains_key(b[0].0));
        }
        assert(a =~= b);
    } else {
        let m = a.len() - 1;
        let last = a[m];
        lemma_value_at(a, m);
        assert(env_map(a).contains_key(last.0));
        assert(env_map(b).contains_key(last.0));
        let k = choose|k: int| 0 <= k < b.len() && (#[trigger] b[k]).0 == last.0;
        let n = b.len() - 1;
        lemma_value_at(b, n);
        assert(env_map(b).contains_key(b[n].0));
        assert(env_map(a).contains_key(b[n].0));
        let j = choose|j: int| 0 <= j < a.len() && (#[trigger] a[j]).0 == b[n].0;
        if k < n {
            assert(text_less(b[k].0, b[n].0));
            if j < m {
                assert(text_less(a[j].0, a[m].0));
                lemma_text_order(a[m].0, b[n].0);
            } else {
                lemma_text_order(a[m].0, a[m].0);
            }
        }
        assert(k == n);
        assert(env_map(a)[last.0] == last.1);
        assert(env_map(b)[last.0] == b[n].1);
        assert(b[n] == last);
        lemma_without_last(a);
        lemma_without_last(b);
        assert(env_map(a.drop_last()) =~= env_map(b.drop_last()));
        lemma_listing_is_unique(a.drop_last(), b.drop_last());
        assert(a =~= a.drop_last().push(last));
        assert(b =~= b.drop_last().push(last));
    }
}

proof fn lemma_without_last(a: Seq<(Seq<char>, Seq<char>)>)
    requires
        a.len() > 0,
        ascending(a),
    ensures
        ascending(a.drop_last()),
        env_map(a.drop_last()) == env_map(a).remove(a.last().0),
{
    let before = a.drop_last();
    let m = a.len() - 1;
    assert forall|i: int, j: int| 0 <= i < j < before.len() implies text_less(
        (#[trigger] before[i]).0,
        (#[trigger] before[j]).0,
    ) by {
        assert(before[i] == a[i] && before[j] == a[j]);
    }
    assert forall|name: Seq<char>| #[trigger]
        env_map(before).contains_key(name) <==> env_map(a).remove(a[m].0).contains_key(name) by {
        if has_name(before, name) {
            let k = choose|k: int| 0 <= k < before.len() && (#[trigger] before[k]).0 == name;
            assert(a[k] == before[k]);
            assert(text_less(a[k].0, a[m].0));
            lemma_text_order(a[k].0, a[m].0);
        }
        if has_name(a, name) && name != a[m].0 {
            let k = choose|k: int| 0 <= k < a.len() && (#[trigger] a[k]).0 == name;
            assert(before[k] == a[k]);
        }
    }
    assert forall|name: Seq<char>| #[trigger] env_map(before).contains_key(name) implies env_map(
        before,
    )[name] == env_map(a).remove(a[m].0)[name] by {
        let k = choose|k: int| 0 <= k < before.len() && (#[trigger] before[k]).0 == name;
        lemma_value_at(before, k);
        lemma_value_at(a, k);
        assert(a[k] == before[k]);
    }
    assert(env_map(before) =~= env_map(a).remove(a[m].0));
}

/// An entry stands in an ascending list exactly where the map has that value under
/// that name.
pub proof fn lemma_listed_is_mapped(list: Seq<(Seq<char>, Seq<char>)>, entry: (Seq<char>, Seq<char>))
    requires
        ascending(list),
    ensures
        list.contains(entry) <==> env_map(list).contains_key(entry.0) && env_map(list)[entry.0]
            == entry.1,
{
    if list.contains(entry) {
        let k = choose|k: int| 0 <= k < list.len() && list[k] == entry;
        lemma_value_at(list, k);
    }
    if env_map(list).contains_key(entry.0) && env_map(list)[entry.0] == entry.1 {
        let k = place_of(list, entry.0);
        assert(has_name(list, entry.0));
        assert(list[k] == entry);
    }
}

impl Envs {
    /// The listing has ascending names, and it is the listing of the map. With
    /// `lemma_listing_is_unique` the map fixes it.
    pub proof fn law_listing_is_the_map(&self)
        requires
            self.wf(),
        ensures
            ascending(self.list()),
            env_map(self.list()) == self@,
    {
    }

    /// The variables in the order of their names.
    pub closed spec fn list(&self) -> Seq<(Seq<char>, Seq<char>)> {
        pairs(self.entries@)
    }

    /// Names strictly ascend.
    pub closed spec fn wf(&self) -> bool {
        ascending(pairs(self.entries@))
    }

    /// No variables.
    pub fn new() -> (envs: Envs)
        ensures
            envs.wf(),
            envs@ == Map::<Seq<char>, Seq<char>>::empty(),
            envs.list().len() == 0,
    {
        let envs = Envs { entries: Vec::new() };
        assert(envs@ =~= Map::<Seq<char>, Seq<char>>::empty());
        envs
    }

    pub fn len(&self) -> (len: usize)
        ensures
            len == self.list().len(),
    {
        self.entries.len()
    }

    /// The variable at a place in the order of names.
    pub fn entry(&self, i: usize) -> (entry: (&str, &str))
        requires
            i < self.list().len(),
        ensures
            (entry.0@, entry.1@) == self.list()[i as int],
    {
        (self.entries[i].0.as_str(), self.entries[i].1.as_str())
    }

    /// The first place whose name does not come before `name`.
    fn place(&self, name: &str) -> (i: usize)
        requires
            self.wf(),
        ensures
            i <= self.list().len(),
            forall|k: int| 0 <= k < i ==> text_less((#[trigger] self.list()[k]).0, name@),
            i < self.list().len() ==> !text_less(self.list()[i as int].0, name@),
    {
        let mut i: usize = 0;
        while i < self.entries.len()
            invariant
                i <= self.entries@.len(),
                forall|k: int| 0 <= k < i ==> text_less((#[trigger] self.list()[k]).0, name@),
            decreases self.entries@.len() - i,
        {
            if !text_before(self.entries[i].0.as_str(), name) {
                return i;
            }
            i += 1;
        }
        i
    }

    /// The value of a variable.
    pub fn get(&self, name: &str) -> (value: Option<&str>)
        requires
            self.wf(),
        ensures
            match value {
                Some(v) => self@.contains_key(name@) && self@[name@] == v@,
                None => !self@.contains_key(name@),
            },
    {
        let i = self.place(name);
        let ghost list = self.list();
        if i < self.entries.len() && !text_before(name, self.entries[i].0.as_str()) {
            proof {
                lemma_text_order(list[i as int].0, name@);
                lemma_value_at(list, i as int);
            }
            return Some(self.entries[i].1.as_str());
        }
        proof {
            if has_name(list, name@) {
                let k = choose|k: int| 0 <= k < list.len() && (#[trigger] list[k]).0 == name@;
                lemma_text_order(name@, name@);
                if k >= i && k != i {
                    assert(text_less(list[i as int].0, list[k].0));
                    lemma_text_order(list[i as int].0, name@);
                }
            }
        }
        None
    }

    /// Sets a variable.
    pub fn insert(&mut self, name: String, value: String)
        requires
            old(self).wf(),
        ensures
            final(self).wf(),
            final(self)@ == old(self)@.insert(name@, value@),
    {
        let i = self.place(name.as_str());
        let ghost before = self.list();
        let ghost at = i as int;
        let ghost (n, v) = (name@, value@);
        if i < self.entries.len() && !text_before(name.as_str(), self.entries[i].0.as_str()) {
            proof {
                lemma_text_order(before[at].0, n);
            }
            self.entries.set(i, (name, value));
            proof {
                let after = self.list();
                assert(after =~= before.update(at, (n, v)));
                assert(before[at].0 == n);
                assert forall|a: int, b: int| 0 <= a < b < after.len() implies text_less(
                    (#[trigger] after[a]).0,
                    (#[trigger] after[b]).0,
                ) by {
                    assert(text_less(before[a].0, before[b].0));
                }
                lemma_insert_map(before, after, at, n, v);
            }
        } else {
            self.entries.insert(i, (name, value));
            proof {
                let after = self.list();
                assert(after =~= before.insert(at, (n, v)));
                assert forall|a: int, b: int| 0 <= a < b < after.len() implies text_less(
                    (#[trigger] after[a]).0,
                    (#[trigger] after[b]).0,
                ) by {
                    if b < at {
                        assert(text_less(before[a].0, before[b].0));
                    } else if b == at {
                        assert(text_less(before[a].0, n));
                    } else if a < at {
                        assert(text_less(before[a].0, before[b - 1].0));
                    } else if a == at {
                        lemma_text_order(before[at].0, n);
                        if b - 1 > at {
                            assert(text_less(before[at].0, before[b - 1].0));
                            lemma_text_transitive(n, before[at].0, before[b - 1].0);
                        }
                    } else {
                        assert(text_less(before[a - 1].0, before[b - 1].0));
                    }
                }
                lemma_insert_map(before, after, at, n, v);
            }
        }
    }
}

impl Envs {
    /// Removes a variable.
    pub fn remove(&mut self, name: &str)
        requires
            old(self).wf(),
        ensures
            final(self).wf(),
            final(self)@ == old(self)@.remove(name@),
    {
        let i = self.place(name);
        let ghost before = self.list();
        let ghost at = i as int;
        if i < self.entries.len() && !text_before(name, self.entries[i].0.as_str()) {
            proof {
                lemma_text_order(before[at].0, name@);
            }
            self.entries.remove(i);
            proof {
                let after = self.list();
                assert(after =~= before.remove(at));
                assert forall|a: int, b: int| 0 <= a < b < after.len() implies text_less(
                    (#[trigger] after[a]).0,
                    (#[trigger] after[b]).0,
                ) by {
                    let x = if a < at { a } else { a + 1 };
                    let y = if b < at { b } else { b + 1 };
                    assert(text_less(before[x].0, before[y].0));
                }
                lemma_remove_map(before, after, at);
            }
        } else {
            proof {
                if has_name(before, name@) {
                    let k = place_of(before, name@);
                    lemma_text_order(name@, name@);
                    if k >= at && k != at {
                        assert(text_less(before[at].0, before[k].0));
                        lemma_text_order(before[at].0, name@);
                    }
                }
                assert(env_map(before) =~= env_map(before).remove(name@));
            }
        }
    }
}

/// Taking an entry out removes its name from the map.
proof fn lemma_remove_map(
    before: Seq<(Seq<char>, Seq<char>)>,
    after: Seq<(Seq<char>, Seq<char>)>,
    at: int,
)
    requires
        ascending(before),
        ascending(after),
        0 <= at < before.len(),
        after == before.remove(at),
    ensures
        env_map(after) == env_map(before).remove(before[at].0),
{
    let name = before[at].0;
    assert forall|k: Seq<char>| has_name(after, k) == (k != name && has_name(before, k)) by {
        if has_name(after, k) {
            let i = place_of(after, k);
            let j = if i < at {
                i
            } else {
                i + 1
            };
            assert(after[i] == before[j]);
            if k == name {
                lemma_text_order(name, name);
                if j < at {
                    assert(text_less(before[j].0, before[at].0));
                } else {
                    assert(text_less(before[at].0, before[j].0));
                }
            }
        }
        if has_name(before, k) && k != name {
            let i = place_of(before, k);
            let j = if i < at {
                i
            } else {
                i - 1
            };
            assert(after[j] == before[i]);
            assert(after[j].0 == k);
        }
    }
    assert forall|k: Seq<char>| k != name && has_name(before, k) implies value_of(after, k)
        == value_of(before, k) by {
        let i = place_of(before, k);
        lemma_value_at(before, i);
        let j = if i < at {
            i
        } else {
            i - 1
        };
        assert(after[j] == before[i]);
        lemma_value_at(after, j);
    }
    assert(env_map(after) =~= env_map(before).remove(name));
}

/// Replacing the entry of a name, or putting a new one in its place, inserts
/// into the map.
proof fn lemma_insert_map(
    before: Seq<(Seq<char>, Seq<char>)>,
    after: Seq<(Seq<char>, Seq<char>)>,
    at: int,
    name: Seq<char>,
    value: Seq<char>,
)
    requires
        ascending(before),
        ascending(after),
        0 <= at <= before.len(),
        (at < before.len() && before[at].0 == name && after == before.update(at, (name, value)))
            || after == before.insert(at, (name, value)),
    ensures
        env_map(after) == env_map(before).insert(name, value),
{
    let replaced = at < before.len() && before[at].0 == name && after == before.update(
        at,
        (name, value),
    );
    assert(after[at] == (name, value));
    lemma_value_at(after, at);
    assert forall|k: Seq<char>| has_name(after, k) == (k == name || has_name(before, k)) by {
        if has_name(before, k) {
            let i = choose|i: int| 0 <= i < before.len() && (#[trigger] before[i]).0 == k;
            if replaced {
                assert(after[i].0 == k);
            } else if i < at {
                assert(after[i].0 == k);
            } else {
                assert(after[i + 1].0 == k);
            }
        }
        if k == name {
            assert(after[at].0 == k);
        }
        if has_name(after, k) && k != name {
            let i = choose|i: int| 0 <= i < after.len() && (#[trigger] after[i]).0 == k;
            if replaced || i < at {
                assert(before[i].0 == k);
            } else {
                assert(before[i - 1].0 == k);
            }
        }
    }
    assert forall|k: Seq<char>| k != name && has_name(before, k) implies value_of(after, k)
        == value_of(before, k) by {
        let i = choose|i: int| 0 <= i < before.len() && (#[trigger] before[i]).0 == k;
        lemma_value_at(before, i);
        let j = if replaced || i < at {
            i
        } else {
            i + 1
        };
        assert(after[j] == before[i]);
        lemma_value_at(after, j);
    }
    assert(env_map(after) =~= env_map(before).insert(name, value));
}

/// Merges captured environment variables into a session-wide list: captured
/// values replace those under the same name, new names are added.
pub fn merge_envs(dest: &mut Envs, captured: &Envs)
    requires
        old(dest).wf(),
        captured.wf(),
    ensures
        final(dest).wf(),
        final(dest)@ == old(dest)@.union_prefer_right(captured@),
{
    let mut i: usize = 0;
    let ghost list = captured.list();
    proof {
        assert(old(dest)@.union_prefer_right(env_map(list.take(0))) =~= old(dest)@);
    }
    while i < captured.len()
        invariant
            i <= list.len(),
            list == captured.list(),
            captured.wf(),
            dest.wf(),
            dest@ == old(dest)@.union_prefer_right(env_map(list.take(i as int))),
        decreases list.len() - i,
    {
        let (name, value) = captured.entry(i);
        dest.insert(name.to_owned(), value.to_owned());
        proof {
            let shorter = list.take(i as int);
            let longer = list.take(i + 1);
            assert(ascending(shorter) && ascending(longer));
            assert(longer =~= shorter.insert(i as int, list[i as int]));
            lemma_insert_map(shorter, longer, i as int, name@, value@);
            assert(old(dest)@.union_prefer_right(env_map(shorter)).insert(name@, value@)
                =~= old(dest)@.union_prefer_right(env_map(longer)));
        }
        i += 1;
    }
    assert(list.take(i as int) =~= list);
}

/// One message from a running process.
pub enum Stream {
    /// Output text.
    Out(String),
    /// The environment at the end of the block.
    Env(Envs),
    /// The working directory at the end of the block.
    Cwd(String),
    /// The exit code.
    Exit(i32),
    /// Nothing more follows.
    End,
}

impl Envs {
    /// A copy of the variables.
    pub fn copy(&self) -> (envs: Envs)
        requires
            self.wf(),
        ensures
            envs.wf(),
            envs.list() == self.list(),
            envs@ == self@,
    {
        let mut entries: Vec<(String, String)> = Vec::new();
        let mut i: usize = 0;
        while i < self.entries.len()
            invariant
                i <= self.entries@.len(),
                pairs(entries@) == pairs(self.entries@).take(i as int),
            decreases self.entries@.len() - i,
        {
            let ghost before = pairs(entries@);
            let entry = (self.entries[i].0.clone(), self.entries[i].1.clone());
            entries.push(entry);
            assert(pairs(entries@) =~= before.push((entry.0@, entry.1@)));
            assert(pairs(self.entries@).take(i + 1) =~= pairs(self.entries@).take(i as int).push(
                pairs(self.entries@)[i as int],
            ));
            i += 1;
        }
        assert(pairs(self.entries@).take(i as int) =~= pairs(self.entries@));
        Envs { entries }
    }
}

/// A message makes a full rebuild of the view due: the exit, or an end that no
/// exit announced.
pub open spec fn forces_rebuild(before: Task, stream: Stream) -> bool {
    stream is Exit || (stream is End && !before.done)
}

/// The captured environment is in order.
pub open spec fn captures_wf(task: Task) -> bool {
    task.captured_envs matches Some(envs) ==> envs.wf()
}

/// What a message changes in a task.
pub open spec fn stream_applied(before: Task, stream: Stream, after: Task) -> bool {
    &&& after.done == (before.done || stream is Exit || stream is End)
    &&& after.exit_code == (match stream {
        Stream::Exit(code) => Some(code),
        _ => before.exit_code,
    })
    &&& match stream {
        Stream::Env(envs) => after.captured_envs is Some && after.captured_envs->0.wf()
            && after.captured_envs->0.list() == envs.list() && after.captured_envs->0@ == envs@,
        _ => after.captured_envs == before.captured_envs,
    }
    &&& match stream {
        Stream::Cwd(cwd) => after.captured_cwd is Some && after.captured_cwd->0@ == cwd@,
        _ => after.captured_cwd == before.captured_cwd,
    }
    &&& after.started == before.started
    &&& after.scroll == before.scroll
    &&& after.inline_scroll == before.inline_scroll
    &&& after.dirty == before.dirty
}

/// Processes one message for the given task; output text goes to the task's
/// screen, which the caller keeps.
///
/// Returns `true` if the full view should be rebuilt (exit or end).
pub fn handle_stream(output: &mut Task, stream: &Stream) -> (rebuild: bool)
    requires
        stream matches Stream::Env(envs) ==> envs.wf(),
    ensures
        rebuild == forces_rebuild(*old(output), *stream),
        stream_applied(*old(output), *stream, *final(output)),
{
    match stream {
        Stream::Out(_) => false,
        Stream::Env(envs) => {
            output.captured_envs = Some(envs.copy());
            false
        },
        Stream::Cwd(cwd) => {
            output.captured_cwd = Some(cwd.clone());
            false
        },
        Stream::Exit(code) => {
            output.exit_code = Some(*code);
            output.done = true;
            true
        },
        Stream::End => {
            let rebuild = !output.done;
            output.done = true;
            rebuild
        },
    }
}

/// A task is done once its exit is known or its messages end, and not before; it keeps
/// the exit code it got, and the variables and the directory it left behind last.
pub proof fn law_messages_leave_their_mark(before: Task, stream: Stream, after: Task)
    requires
        stream_applied(before, stream, after),
    ensures
        stream matches Stream::Exit(code) ==> after.exit_code == Some(code) && after.done,
        stream is End ==> after.done && after.exit_code == before.exit_code,
        stream matches Stream::Env(envs) ==> after.captured_envs is Some
            && after.captured_envs->0@ == envs@ && after.done == before.done,
        stream matches Stream::Cwd(cwd) ==> after.captured_cwd is Some && after.captured_cwd->0@
            == cwd@ && after.done == before.done,
        stream is Out ==> after.done == before.done && after.exit_code == before.exit_code,
        before.done ==> after.done,
        forces_rebuild(before, stream) ==> after.done,
        !before.done && after.done ==> forces_rebuild(before, stream),
{
}

/// The order of texts is strict and total.
pub proof fn law_texts_are_ordered(a: Seq<char>, b: Seq<char>)
    ensures
        !(text_less(a, b) && text_less(b, a)),
        a == b || text_less(a, b) || text_less(b, a),
        !text_less(a, a),
        a.len() < b.len() && b.take(a.len() as int) == a ==> text_less(a, b),
    decreases a.len(),
{
    if a.len() > 0 && b.len() > 0 {
        law_texts_are_ordered(a.drop_first(), b.drop_first());
        if a[0] == b[0] {
            assert(a =~= seq![a[0]] + a.drop_first());
            assert(b =~= seq![b[0]] + b.drop_first());
            if a.len() < b.len() && b.take(a.len() as int) == a {
                assert(b.drop_first().take(a.len() - 1) =~= a.drop_first()) by {
                    assert forall|i: int| 0 <= i < a.len() - 1 implies b.drop_first()[i]
                        == a.drop_first()[i] by {
                        assert(b.take(a.len() as int)[i + 1] == a[i + 1]);
                    }
                }
            }
        } else if a.len() < b.len() && b.take(a.len() as int) == a {
            assert(b.take(a.len() as int)[0] == a[0]);
        }
        law_texts_are_ordered(a.drop_first(), a.drop_first());
    } else if a.len() > 0 {
        law_texts_are_ordered(a.drop_first(), a.drop_first());
    } else if b.len() == 0 {
        assert(a =~= b);
    }
}

} // verus!
