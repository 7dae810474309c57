use vstd::prelude::*;

use crate::value::{same_text, Datum};

verus! {

/// The value a layer binds to `k`: that of its last entry with that key.
pub open spec fn entry_of(entries: Seq<(String, Datum)>, k: Seq<char>) -> Option<Datum>
    decreases entries.len(),
{
    if entries.len() == 0 {
        None
    } else if entries.last().0@ == k {
        Some(entries.last().1)
    } else {
        entry_of(entries.drop_last(), k)
    }
}

/// The layer's bindings as a map from key to value.
pub open spec fn bindings(entries: Seq<(String, Datum)>) -> Map<Seq<char>, Datum> {
    Map::new(|k: Seq<char>| entry_of(entries, k) is Some, |k: Seq<char>| entry_of(entries, k)->0)
}

/// The bindings of `m` after writing `pairs` into it in order, the last write
/// of a key winning.
pub open spec fn written(m: Map<Seq<char>, Datum>, pairs: Seq<(String, Datum)>) -> Map<
    Seq<char>,
    Datum,
>
    decreases pairs.len(),
{
    if pairs.len() == 0 {
        m
    } else {
        written(m, pairs.drop_last()).insert(pairs.last().0@, pairs.last().1)
    }
}

/// One source of key/value pairs of the environment.
pub struct Layer {
    pub entries: Vec<(String, Datum)>,
}

impl View for Layer {
    type V = Map<Seq<char>, Datum>;

    open spec fn view(&self) -> Map<Seq<char>, Datum> {
        bindings(self.entries@)
    }
}

proof fn lemma_entry_of_update(s: Seq<(String, Datum)>, i: int, v: Datum, k: Seq<char>)
    requires
        0 <= i < s.len(),
        forall|j: int| i < j < s.len() ==> s[j].0@ != s[i].0@,
    ensures
        entry_of(s.update(i, (s[i].0, v)), k) == if k == s[i].0@ {
            Some(v)
        } else {
            entry_of(s, k)
        },
    decreases s.len(),
{
    let t = s.update(i, (s[i].0, v));
    if i == s.len() - 1 {
        assert(t.drop_last() =~= s.drop_last());
    } else {
        assert(t.drop_last() =~= s.drop_last().update(i, (s[i].0, v)));
        lemma_entry_of_update(s.drop_last(), i, v, k);
    }
}

impl Layer {
    /// An empty layer.
    pub fn new() -> (r: Layer)
        ensures
            r@ == Map::<Seq<char>, Datum>::empty(),
    {
        let r = Layer { entries: Vec::new() };
        assert(r@ =~= Map::<Seq<char>, Datum>::empty());
        r
    }

    /// The index of the last entry with key `k`.
    fn position(&self, k: &str) -> (r: Option<usize>)
        ensures
            match r {
                Some(i) => {
                    &&& i < self.entries@.len()
                    &&& self.entries@[i as int].0@ == k@
                    &&& forall|j: int|
                        i < j < self.entries@.len() ==> self.entries@[j].0@ != k@
                },
                None => forall|j: int| 0 <= j < self.entries@.len() ==> self.entries@[j].0@ != k@,
            },
    {
        let mut i: usize = self.entries.len();
        while i > 0
            invariant
                i <= self.entries@.len(),
                forall|j: int| i <= j < self.entries@.len() ==> self.entries@[j].0@ != k@,
            decreases i,
        {
            if same_text(self.entries[i - 1].0.as_str(), k) {
                return Some(i - 1);
            }
            i = i - 1;
        }
        None
    }

    /// The value bound to `k` in this layer.
    pub fn get(&self, k: &str) -> (r: Option<&Datum>)
        ensures
            match r {
                Some(v) => self@.contains_key(k@) && self@[k@] == *v,
                None => !self@.contains_key(k@),
            },
    {
        proof {
            lemma_entry_of_index(self.entries@, k@);
        }
        match self.position(k) {
            Some(i) => {
                proof {
                    lemma_entry_of_last_index(self.entries@, i as int, k@);
                }
                Some(&self.entries[i].1)
            },
            None => None,
        }
    }

    /// Binds `k` to `v`, replacing an earlier binding of `k` in place.
    pub fn set(&mut self, k: String, v: Datum)
        ensures
            final(self)@ == old(self)@.insert(k@, v),
            final(self).entries@.len() <= old(self).entries@.len() + 1,
    {
        let ghost k0 = k@;
        match self.position(k.as_str()) {
            Some(i) => {
                let ghost s = self.entries@;
                let key = self.entries[i].0.clone();
                self.entries.set(i, (key, v));
                proof {
                    assert(self.entries@ == s.update(i as int, (s[i as int].0, v)));
                    assert forall|q: Seq<char>| #[trigger]
                        entry_of(self.entries@, q) == (if q == k0 {
                            Some(v)
                        } else {
                            entry_of(s, q)
                        }) by {
                        lemma_entry_of_update(s, i as int, v, q);
                    }
                    assert(self@ =~= old(self)@.insert(k0, v));
                }
            },
            None => {
                let ghost s = self.entries@;
                self.entries.push((k, v));
                proof {
                    assert(self.entries@.drop_last() =~= s);
                    assert(self@ =~= old(self)@.insert(k0, v));
                }
            },
        }
    }

    /// Writes each pair into this layer in order; the last write of a key wins.
    pub fn persist(&mut self, pairs: Vec<(String, Datum)>)
        ensures
            final(self)@ == written(old(self)@, pairs@),
    {
        let ghost all = pairs@;
        let mut rest = pairs;
        let ghost mut done: int = 0;
        assert(all.take(0) =~= Seq::<(String, Datum)>::empty());
        while rest.len() > 0
            invariant
                0 <= done <= all.len(),
                rest@ == all.skip(done),
                self@ == written(old(self)@, all.take(done)),
            decreases rest.len(),
        {
            let (k, v) = rest.remove(0);
            self.set(k, v);
            proof {
                assert(all.take(done + 1).drop_last() =~= all.take(done));
                assert(all[done] == (k, v));
                done = done + 1;
                assert(rest@ =~= all.skip(done));
            }
        }
        assert(all.take(done) =~= all);
    }
}

proof fn lemma_entry_of_index(s: Seq<(String, Datum)>, k: Seq<char>)
    ensures
        entry_of(s, k) is Some ==> exists|j: int| 0 <= j < s.len() && s[j].0@ == k,
    decreases s.len(),
{
    if s.len() > 0 && s.last().0@ != k {
        lemma_entry_of_index(s.drop_last(), k);
        if entry_of(s, k) is Some {
            let j = choose|j: int| 0 <= j < s.drop_last().len() && s.drop_last()[j].0@ == k;
            assert(s[j].0@ == k);
        }
    }
}

proof fn lemma_entry_of_last_index(s: Seq<(String, Datum)>, i: int, k: Seq<char>)
    requires
        0 <= i < s.len(),
        s[i].0@ == k,
        forall|j: int| i < j < s.len() ==> s[j].0@ != k,
    ensures
        entry_of(s, k) == Some(s[i].1),
    decreases s.len(),
{
    if i < s.len() - 1 {
        lemma_entry_of_last_index(s.drop_last(), i, k);
    }
}

/// `written` is `m` overridden by what the pairs alone write.
proof fn lemma_written_over(m: Map<Seq<char>, Datum>, pairs: Seq<(String, Datum)>)
    ensures
        written(m, pairs) == m.union_prefer_right(written(Map::empty(), pairs)),
    decreases pairs.len(),
{
    if pairs.len() > 0 {
        lemma_written_over(m, pairs.drop_last());
        assert(written(m, pairs) =~= m.union_prefer_right(written(Map::empty(), pairs)));
    } else {
        assert(written(m, pairs) =~= m.union_prefer_right(written(Map::empty(), pairs)));
    }
}

/// Persisting the same pairs a second time leaves the persisted layer as the
/// first time left it: each key keeps its last written value, nothing piles up.
pub proof fn lemma_persist_idempotent(m: Map<Seq<char>, Datum>, pairs: Seq<(String, Datum)>)
    ensures
        written(written(m, pairs), pairs) == written(m, pairs),
{
    lemma_written_over(m, pairs);
    lemma_written_over(written(m, pairs), pairs);
    let w = written(Map::<Seq<char>, Datum>::empty(), pairs);
    assert(m.union_prefer_right(w).union_prefer_right(w) =~= m.union_prefer_right(w));
}

/// After persisting pairs whose last write of `k` is `v`, the layer binds `k`
/// to `v`.
pub proof fn lemma_persist_last_write(
    m: Map<Seq<char>, Datum>,
    pairs: Seq<(String, Datum)>,
    k: Seq<char>,
    v: Datum,
)
    requires
        pairs.len() > 0,
        pairs.last().0@ == k,
        pairs.last().1 == v,
    ensures
        written(m, pairs).contains_key(k),
        written(m, pairs)[k] == v,
{
}

/// The layered environment. Lookups go through the layers from the highest
/// precedence down and take the whole value of the first layer that binds the
/// key: explicit overrides of the session, persisted data, the active target's
/// configuration, and the global configuration.
pub struct Environment {
    pub overrides: Layer,
    pub data: Layer,
    pub target: Layer,
    pub global: Layer,
}

impl Environment {
    /// The value `k` resolves to.
    pub open spec fn lookup(&self, k: Seq<char>) -> Option<Datum> {
        if self.overrides@.contains_key(k) {
            Some(self.overrides@[k])
        } else if self.data@.contains_key(k) {
            Some(self.data@[k])
        } else if self.target@.contains_key(k) {
            Some(self.target@[k])
        } else if self.global@.contains_key(k) {
            Some(self.global@[k])
        } else {
            None
        }
    }

    /// An environment built from the persisted data, the active target's
    /// configuration and the global configuration, with no override yet.
    pub fn new(data: Layer, target: Layer, global: Layer) -> (r: Environment)
        ensures
            r.overrides@ == Map::<Seq<char>, Datum>::empty(),
            r.data == data,
            r.target == target,
            r.global == global,
    {
        Environment { overrides: Layer::new(), data, target, global }
    }

    /// The value `k` resolves to.
    pub fn get(&self, k: &str) -> (r: Option<&Datum>)
        ensures
            match r {
                Some(v) => self.lookup(k@) == Some(*v),
                None => self.lookup(k@) is None,
            },
    {
        if let Some(v) = self.overrides.get(k) {
            return Some(v);
        }
        if let Some(v) = self.data.get(k) {
            return Some(v);
        }
        if let Some(v) = self.target.get(k) {
            return Some(v);
        }
        self.global.get(k)
    }

    /// Adds an explicit override of the session: `k` resolves to the text `v`.
    pub fn add_override(&mut self, k: String, v: String)
        ensures
            final(self).overrides@ == old(self).overrides@.insert(k@, Datum::Text(v)),
            final(self).data == old(self).data,
            final(self).target == old(self).target,
            final(self).global == old(self).global,
    {
        self.overrides.set(k, Datum::Text(v));
    }

    /// Writes extracted or supplied pairs into the persisted data layer, the
    /// last write of a key winning.
    pub fn persist(&mut self, pairs: Vec<(String, Datum)>)
        ensures
            final(self).data@ == written(old(self).data@, pairs@),
            final(self).overrides == old(self).overrides,
            final(self).target == old(self).target,
            final(self).global == old(self).global,
    {
        self.data.persist(pairs);
    }
}

/// An explicit override decides a key whatever the lower layers hold for it.
pub proof fn lemma_override_wins(env: Environment, k: Seq<char>)
    requires
        env.overrides@.contains_key(k),
    ensures
        env.lookup(k) == Some(env.overrides@[k]),
{
}

} // verus!
