use vstd::prelude::*;

use crate::json::{views, Json, JsonModel};
use crate::text::same_text;

verus! {

/// Resource documents grouped by resource type (`pods`, `nodes`,
/// `volumes.longhorn.io`, ...). A later entry for a type stands over an
/// earlier one.
#[derive(Debug)]
pub struct ResourceMap {
    pub entries: Vec<(String, Vec<Json>)>,
}

/// The model of the entries: each type with its documents.
pub open spec fn entry_views(v: Seq<(String, Vec<Json>)>) -> Seq<(Seq<char>, Seq<JsonModel>)> {
    Seq::new(v.len(), |i: int| (v[i].0@, views(v[i].1@)))
}

/// The map that a sequence of entries stands for.
pub open spec fn as_map(s: Seq<(Seq<char>, Seq<JsonModel>)>) -> Map<Seq<char>, Seq<JsonModel>>
    decreases s.len(),
{
    if s.len() == 0 {
        Map::empty()
    } else {
        as_map(s.drop_last()).insert(s.last().0, s.last().1)
    }
}

/// The documents of type `k`, or none where the type is absent.
pub open spec fn docs_of(m: Map<Seq<char>, Seq<JsonModel>>, k: Seq<char>) -> Seq<JsonModel> {
    if m.contains_key(k) {
        m[k]
    } else {
        Seq::empty()
    }
}

impl View for ResourceMap {
    type V = Map<Seq<char>, Seq<JsonModel>>;

    open spec fn view(&self) -> Map<Seq<char>, Seq<JsonModel>> {
        as_map(entry_views(self.entries@))
    }
}

proof fn lemma_as_map_update(s: Seq<(Seq<char>, Seq<JsonModel>)>, i: int, v: Seq<JsonModel>)
    requires
        0 <= i < s.len(),
        forall|j: int| i < j < s.len() ==> s[j].0 != s[i].0,
    ensures
        as_map(s.update(i, (s[i].0, v))) == as_map(s).insert(s[i].0, v),
    decreases s.len(),
{
    let k = s[i].0;
    let t = s.update(i, (k, v));
    if i == s.len() - 1 {
        assert(t.drop_last() =~= s.drop_last());
        assert(as_map(t) =~= as_map(s).insert(k, v));
    } else {
        assert(t.drop_last() =~= s.drop_last().update(i, (k, v)));
        lemma_as_map_update(s.drop_last(), i, v);
        assert(as_map(t) =~= as_map(s).insert(k, v));
    }
}

proof fn lemma_as_map_prefix(s: Seq<(Seq<char>, Seq<JsonModel>)>, n: int, k: Seq<char>)
    requires
        0 <= n <= s.len(),
        forall|j: int| n <= j < s.len() ==> s[j].0 != k,
    ensures
        as_map(s).contains_key(k) == as_map(s.subrange(0, n)).contains_key(k),
        as_map(s).contains_key(k) ==> as_map(s)[k] == as_map(s.subrange(0, n))[k],
    decreases s.len() - n,
{
    if n == s.len() {
        assert(s.subrange(0, n) =~= s);
    } else {
        lemma_as_map_prefix(s, n + 1, k);
        assert(s.subrange(0, n + 1).drop_last() =~= s.subrange(0, n));
    }
}

impl ResourceMap {
    pub fn new() -> (r: ResourceMap)
        ensures
            r@ == Map::<Seq<char>, Seq<JsonModel>>::empty(),
    {
        ResourceMap { entries: Vec::new() }
    }

    /// The index of the entry that holds type `k`.
    fn position(&self, k: &str) -> (r: Option<usize>)
        ensures
            r matches Some(i) ==> i < self.entries@.len() && self.entries@[i as int].0@ == k@
                && forall|j: int| i < j < self.entries@.len() ==> self.entries@[j].0@ != k@,
            r is None ==> forall|j: int| 0 <= j < self.entries@.len() ==> self.entries@[j].0@ != k@,
    {
        let mut i: usize = self.entries.len();
        while i > 0
            invariant
                i <= self.entries@.len(),
                forall|j: int| i <= j < self.entries@.len() ==> self.entries@[j].0@ != k@,
            decreases i,
        {
            i = i - 1;
            if same_text(self.entries[i].0.as_str(), k) {
                return Some(i);
            }
        }
        None
    }

    /// The documents of type `k`.
    pub fn get(&self, k: &str) -> (r: Option<&Vec<Json>>)
        ensures
            r matches Some(v) ==> self@.contains_key(k@) && self@[k@] == views(v@),
            r is None ==> !self@.contains_key(k@),
    {
        let ghost s = entry_views(self.entries@);
        match self.position(k) {
            Some(i) => {
                proof {
                    lemma_as_map_prefix(s, i + 1, k@);
                    assert(s.subrange(0, i + 1).drop_last() =~= s.subrange(0, i as int));
                }
                Some(&self.entries[i].1)
            },
            None => {
                proof {
                    lemma_as_map_prefix(s, 0, k@);
                    assert(s.subrange(0, 0) =~= Seq::<(Seq<char>, Seq<JsonModel>)>::empty());
                }
                None
            },
        }
    }

    /// Sets the documents of type `k` to `docs`.
    pub fn insert(&mut self, k: String, docs: Vec<Json>)
        ensures
            final(self)@ == old(self)@.insert(k@, views(docs@)),
    {
        let ghost s = entry_views(self.entries@);
        match self.position(k.as_str()) {
            Some(i) => {
                let ghost dv = views(docs@);
                self.entries.set(i, (k, docs));
                proof {
                    lemma_as_map_update(s, i as int, dv);
                    assert(entry_views(self.entries@) =~= s.update(i as int, (s[i as int].0, dv)));
                }
            },
            None => {
                let ghost kv = k@;
                let ghost dv = views(docs@);
                self.entries.push((k, docs));
                proof {
                    assert(entry_views(self.entries@) =~= s.push((kv, dv)));
                    assert(entry_views(self.entries@).drop_last() =~= s);
                }
            },
        }
    }
}

} // verus!
