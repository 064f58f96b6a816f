//! Tables with a text as the key.

use vstd::prelude::*;

use crate::text;

verus! {

/// Values by their keys.
#[derive(Debug)]
pub struct Keyed<V> {
    entries: Vec<(String, V)>,
}

spec fn has_entry<V: View>(entries: Seq<(String, V)>, id: Seq<char>, i: int) -> bool {
    0 <= i < entries.len() && entries[i].0@ == id
}

spec fn entry_map<V: View>(entries: Seq<(String, V)>) -> Map<Seq<char>, V::V> {
    Map::new(
        |id: Seq<char>| exists|i: int| has_entry(entries, id, i),
        |id: Seq<char>| entries[choose|i: int| has_entry(entries, id, i)].1@,
    )
}

spec fn unique_ids<V: View>(entries: Seq<(String, V)>) -> bool {
    forall|i: int, j: int|
        0 <= i < j < entries.len() ==> (#[trigger] entries[i]).0@ != (#[trigger] entries[j]).0@
}

proof fn lemma_entry<V: View>(entries: Seq<(String, V)>, i: int)
    requires
        unique_ids(entries),
        0 <= i < entries.len(),
    ensures
        entry_map(entries).contains_key(entries[i].0@),
        entry_map(entries)[entries[i].0@] == entries[i].1@,
{
    let id = entries[i].0@;
    assert(has_entry(entries, id, i));
    let k = choose|k: int| has_entry(entries, id, k);
    assert(has_entry(entries, id, k));
    if k < i {
        assert(entries[k].0@ != entries[i].0@);
    } else if i < k {
        assert(entries[i].0@ != entries[k].0@);
    }
}

proof fn lemma_no_entry<V: View>(entries: Seq<(String, V)>, id: Seq<char>)
    requires
        forall|i: int| 0 <= i < entries.len() ==> (#[trigger] entries[i]).0@ != id,
    ensures
        !entry_map(entries).contains_key(id),
{
}

impl<V: View> View for Keyed<V> {
    type V = Map<Seq<char>, V::V>;

    closed spec fn view(&self) -> Map<Seq<char>, V::V> {
        entry_map(self.entries@)
    }
}

/// The entries of a table that satisfy `keep`.
pub open spec fn restricted<T>(m: Map<Seq<char>, T>, keep: spec_fn(T) -> bool) -> Map<
    Seq<char>,
    T,
> {
    Map::new(|id: Seq<char>| m.contains_key(id) && keep(m[id]), |id: Seq<char>| m[id])
}

impl<V: View> Keyed<V> {
    /// No key stands twice.
    pub closed spec fn wf(&self) -> bool {
        unique_ids(self.entries@)
    }

    /// The number of keys.
    pub closed spec fn count(&self) -> nat {
        self.entries@.len()
    }

    pub fn new() -> (r: Keyed<V>)
        ensures
            r.wf(),
            r@ == Map::<Seq<char>, V::V>::empty(),
            r.count() == 0,
    {
        let r = Keyed { entries: Vec::new() };
        assert(r@ =~= Map::<Seq<char>, V::V>::empty());
        r
    }

    /// The number of keys.
    pub fn len(&self) -> (r: usize)
        ensures
            r == self.count(),
    {
        self.entries.len()
    }

    fn find(&self, id: &str) -> (r: Option<usize>)
        requires
            self.wf(),
        ensures
            match r {
                Some(i) => has_entry(self.entries@, id@, i as int) && self@.contains_key(id@)
                    && self@[id@] == self.entries@[i as int].1@,
                None => !self@.contains_key(id@) && forall|j: int|
                    0 <= j < self.entries@.len() ==> (#[trigger] self.entries@[j]).0@ != id@,
            },
    {
        let mut i: usize = 0;
        while i < self.entries.len()
            invariant
                i <= self.entries@.len(),
                self.wf(),
                forall|j: int| 0 <= j < i ==> (#[trigger] self.entries@[j]).0@ != id@,
            decreases self.entries@.len() - i,
        {
            if text::same(self.entries[i].0.as_str(), id) {
                proof {
                    lemma_entry(self.entries@, i as int);
                }
                return Some(i);
            }
            i = i + 1;
        }
        proof {
            lemma_no_entry(self.entries@, id@);
        }
        None
    }

    /// Gives the value under a key.
    pub fn get(&self, id: &str) -> (r: Option<&V>)
        requires
            self.wf(),
        ensures
            match r {
                Some(v) => self@.contains_key(id@) && self@[id@] == v@,
                None => !self@.contains_key(id@),
            },
    {
        match self.find(id) {
            Some(i) => Some(&self.entries[i].1),
            None => None,
        }
    }

    /// Keeps the entries of which `f` says so.
    pub(crate) fn retain<F: Fn(&V) -> bool>(&mut self, f: F, Ghost(keep): Ghost<spec_fn(V::V) -> bool>)
        requires
            old(self).wf(),
            forall|v: &V| #[trigger] f.requires((v,)),
            forall|v: &V, b: bool| #[trigger] f.ensures((v,), b) ==> b == keep(v@),
        ensures
            final(self).wf(),
            final(self)@ == restricted(old(self)@, keep),
    {
        let ghost all = self.entries@;
        let ghost mut seen: int = 0;
        let mut i: usize = 0;
        proof {
            assert(all.take(0) =~= self.entries@.take(0));
            assert(entry_map(self.entries@.take(0)) =~= restricted(entry_map(all.take(0)), keep));
            assert(self.entries@.skip(0) =~= all.skip(0));
        }
        while i < self.entries.len()
            invariant
                i <= self.entries@.len(),
                0 <= seen <= all.len(),
                all.len() - seen == self.entries@.len() - i,
                self.entries@.skip(i as int) == all.skip(seen),
                unique_ids(all),
                unique_ids(self.entries@.take(i as int)),
                entry_map(self.entries@.take(i as int)) == restricted(
                    entry_map(all.take(seen)),
                    keep,
                ),
                forall|v: &V| #[trigger] f.requires((v,)),
                forall|v: &V, b: bool| #[trigger] f.ensures((v,), b) ==> b == keep(v@),
            decreases self.entries@.len() - i,
        {
            let ghost before = self.entries@;
            let ghost entry = before[i as int];
            let ghost id = entry.0@;
            proof {
                assert(before.skip(i as int)[0] == all.skip(seen)[0]);
                assert(all[seen] == entry);
                assert(all.take(seen + 1) =~= all.take(seen).push(entry));
                lemma_no_entry(all.take(seen), id);
                lemma_push(all.take(seen), entry);
                assert(!entry_map(before.take(i as int)).contains_key(id));
                assert(before.skip(i + 1) =~= before.skip(i as int).drop_first());
                assert(all.skip(seen + 1) =~= all.skip(seen).drop_first());
            }
            if f(&self.entries[i].1) {
                proof {
                    lemma_push(before.take(i as int), entry);
                    assert(before.take(i + 1) =~= before.take(i as int).push(entry));
                    assert(restricted(entry_map(all.take(seen + 1)), keep) =~= entry_map(
                        before.take(i as int),
                    ).insert(id, entry.1@));
                }
                i = i + 1;
            } else {
                self.entries.remove(i);
                proof {
                    assert(self.entries@.take(i as int) =~= before.take(i as int));
                    assert(self.entries@.skip(i as int) =~= before.skip(i + 1));
                    assert(restricted(entry_map(all.take(seen + 1)), keep) =~= entry_map(
                        before.take(i as int),
                    ));
                }
            }
            proof {
                seen = seen + 1;
            }
        }
        assert(all.take(seen) =~= all);
        assert(self.entries@.take(i as int) =~= self.entries@);
    }

    /// Puts a value under a key, in place of one that stood there.
    pub fn insert(&mut self, id: String, value: V)
        requires
            old(self).wf(),
        ensures
            final(self).wf(),
            final(self)@ == old(self)@.insert(id@, value@),
            final(self).count() == old(self).count() + (if old(self)@.contains_key(id@) {
                0nat
            } else {
                1
            }),
    {
        let ghost before = self.entries@;
        match self.find(id.as_str()) {
            Some(i) => {
                self.entries.set(i, (id, value));
                proof {
                    lemma_set(before, self.entries@, i as int);
                }
            },
            None => {
                proof {
                    lemma_push(before, (id, value));
                }
                self.entries.push((id, value));
            },
        }
    }

    /// Takes a key out.
    pub fn remove(&mut self, id: &str)
        requires
            old(self).wf(),
        ensures
            final(self).wf(),
            final(self)@ == old(self)@.remove(id@),
    {
        let ghost before = self.entries@;
        match self.find(id) {
            Some(i) => {
                self.entries.remove(i);
                proof {
                    let after = self.entries@;
                    let m = entry_map(before).remove(id@);
                    let g = entry_map(after);
                    assert forall|a: int| 0 <= a < after.len() implies #[trigger] after[a]
                        == before[if a < i {
                        a
                    } else {
                        a + 1
                    }] by {}
                    assert(unique_ids(after));
                    assert forall|x: Seq<char>| #[trigger] m.contains_key(x) == g.contains_key(x)
                        && (m.contains_key(x) ==> m[x] == g[x]) by {
                        if m.contains_key(x) {
                            let j = choose|j: int| has_entry(before, x, j);
                            assert(has_entry(before, x, j));
                            lemma_entry(before, j);
                            let k = if j < i {
                                j
                            } else {
                                j - 1
                            };
                            assert(after[k] == before[j]);
                            lemma_entry(after, k);
                        }
                        if g.contains_key(x) {
                            let k = choose|k: int| has_entry(after, x, k);
                            assert(has_entry(after, x, k));
                            lemma_entry(after, k);
                            let j = if k < i {
                                k
                            } else {
                                k + 1
                            };
                            lemma_entry(before, j);
                            assert(before[j].0@ == x);
                            if j < i {
                                assert(before[j].0@ != before[i as int].0@);
                            } else {
                                assert(before[i as int].0@ != before[j].0@);
                            }
                        }
                    }
                    assert(m =~= g);
                }
            },
            None => {
                assert(self@.remove(id@) =~= self@);
            },
        }
    }
}

proof fn lemma_push<V: View>(entries: Seq<(String, V)>, entry: (String, V))
    requires
        unique_ids(entries),
        !entry_map(entries).contains_key(entry.0@),
    ensures
        unique_ids(entries.push(entry)),
        entry_map(entries.push(entry)) == entry_map(entries).insert(entry.0@, entry.1@),
{
    let after = entries.push(entry);
    let n = entries.len() as int;
    assert forall|a: int, b: int| 0 <= a < b < after.len() implies (#[trigger] after[a]).0@ != (
    #[trigger] after[b]).0@ by {
        assert(after[a] == entries[a]);
        if b == n {
            lemma_entry(entries, a);
        } else {
            assert(after[b] == entries[b]);
        }
    }
    let m = entry_map(entries).insert(entry.0@, entry.1@);
    let g = entry_map(after);
    lemma_entry(after, n);
    assert forall|x: Seq<char>| #[trigger] m.contains_key(x) == g.contains_key(x) && (
    m.contains_key(x) ==> m[x] == g[x]) by {
        if x != entry.0@ {
            if m.contains_key(x) {
                let j = choose|j: int| has_entry(entries, x, j);
                assert(has_entry(entries, x, j));
                lemma_entry(entries, j);
                assert(after[j] == entries[j]);
                lemma_entry(after, j);
            }
            if g.contains_key(x) {
                let j = choose|j: int| has_entry(after, x, j);
                assert(has_entry(after, x, j));
                assert(after[j] == entries[j]);
                assert(has_entry(entries, x, j));
            }
        }
    }
    assert(m =~= g);
}

proof fn lemma_set<V: View>(
    before: Seq<(String, V)>,
    after: Seq<(String, V)>,
    i: int,
)
    requires
        unique_ids(before),
        0 <= i < before.len(),
        after.len() == before.len(),
        forall|j: int| 0 <= j < before.len() && j != i ==> #[trigger] after[j] == before[j],
        after[i].0@ == before[i].0@,
    ensures
        unique_ids(after),
        entry_map(after) == entry_map(before).insert(after[i].0@, after[i].1@),
{
    assert forall|j: int| 0 <= j < before.len() implies (#[trigger] after[j]).0@
        == before[j].0@ by {
        if j != i {
            assert(after[j] == before[j]);
        }
    }
    assert(unique_ids(after));
    let m = entry_map(before).insert(after[i].0@, after[i].1@);
    let g = entry_map(after);
    lemma_entry(after, i);
    assert forall|x: Seq<char>| #[trigger] m.contains_key(x) == g.contains_key(x) && (
    m.contains_key(x) ==> m[x] == g[x]) by {
        if x != after[i].0@ {
            if m.contains_key(x) {
                let j = choose|j: int| has_entry(before, x, j);
                assert(has_entry(before, x, j));
                lemma_entry(before, j);
                assert(after[j] == before[j]);
                lemma_entry(after, j);
            }
            if g.contains_key(x) {
                let j = choose|j: int| has_entry(after, x, j);
                assert(has_entry(after, x, j));
                assert(after[j] == before[j]);
                assert(has_entry(before, x, j));
            }
        }
    }
    assert(m =~= g);
}

} // verus!
