use crate::pane::{
    lemma_pane_key_injective, pane_key, pane_of_key, is_pane_key, PaneId,
};
use indexmap::IndexMap;
use vstd::prelude::*;

verus! {

#[verifier::external_type_specification]
#[verifier::external_body]
#[verifier::reject_recursive_types(K)]
#[verifier::reject_recursive_types(V)]
#[verifier::reject_recursive_types(S)]
pub struct ExIndexMap<K, V, S>(IndexMap<K, V, S>);

/// The entries of an index map keyed by integers, in the map's order.
pub uninterp spec fn index_map_entries(m: IndexMap<u64, String>) -> Seq<(u64, Seq<char>)>;

pub open spec fn keys_unique(s: Seq<(u64, Seq<char>)>) -> bool {
    forall|i: int, j: int| 0 <= i < s.len() && 0 <= j < s.len() && s[i].0 == s[j].0 ==> i == j
}

pub open spec fn has_key(s: Seq<(u64, Seq<char>)>, k: u64) -> bool {
    exists|i: int| 0 <= i < s.len() && s[i].0 == k
}

/// Relies on `IndexMap::new`: the new map holds no entry.
#[verifier::external_body]
fn index_map_new() -> (r: IndexMap<u64, String>)
    ensures
        index_map_entries(r) == Seq::<(u64, Seq<char>)>::empty(),
{
    IndexMap::new()
}

/// Relies on `IndexMap::len`: the number of entries.
#[verifier::external_body]
fn index_map_len(m: &IndexMap<u64, String>) -> (r: usize)
    ensures
        r == index_map_entries(*m).len(),
{
    m.len()
}

/// Relies on `IndexMap::contains_key`: whether some entry has key `k`.
#[verifier::external_body]
fn index_map_contains_key(m: &IndexMap<u64, String>, k: u64) -> (r: bool)
    ensures
        r == has_key(index_map_entries(*m), k),
{
    m.contains_key(&k)
}

/// Relies on `IndexMap::get_index`: the entry at position `i`, if there is one.
#[verifier::external_body]
fn index_map_get_index(m: &IndexMap<u64, String>, i: usize) -> (r: Option<(u64, String)>)
    ensures
        r is Some <==> i < index_map_entries(*m).len(),
        r is Some ==> r.unwrap().0 == index_map_entries(*m)[i as int].0,
        r is Some ==> r.unwrap().1@ == index_map_entries(*m)[i as int].1,
{
    m.get_index(i).map(|(k, v)| (*k, v.clone()))
}

/// Relies on `IndexMap::insert`: an entry whose key is `k` keeps its place and
/// takes `v`; otherwise `(k, v)` is added last.
#[verifier::external_body]
fn index_map_insert(m: &mut IndexMap<u64, String>, k: u64, v: String)
    requires
        keys_unique(index_map_entries(*old(m))),
    ensures
        forall|i: int|
            0 <= i < index_map_entries(*old(m)).len() && index_map_entries(*old(m))[i].0 == k
                ==> index_map_entries(*final(m)) == index_map_entries(*old(m)).update(
                i,
                (k, v@),
            ),
        !has_key(index_map_entries(*old(m)), k) ==> index_map_entries(*final(m))
            == index_map_entries(*old(m)).push((k, v@)),
{
    m.insert(k, v);
}


pub open spec fn has_id(s: Seq<(PaneId, Seq<char>)>, id: PaneId) -> bool {
    exists|i: int| 0 <= i < s.len() && s[i].0 == id
}

/// Titles of panes, kept in the order in which each pane was first recorded.
pub struct PaneTitles {
    map: IndexMap<u64, String>,
}

impl View for PaneTitles {
    type V = Seq<(PaneId, Seq<char>)>;

    closed spec fn view(&self) -> Seq<(PaneId, Seq<char>)> {
        index_map_entries(self.map).map_values(|e: (u64, Seq<char>)| (pane_of_key(e.0), e.1))
    }
}

impl PaneTitles {
    pub closed spec fn wf(&self) -> bool {
        &&& keys_unique(index_map_entries(self.map))
        &&& forall|i: int|
            0 <= i < index_map_entries(self.map).len() ==> is_pane_key(
                #[trigger] index_map_entries(self.map)[i].0,
            )
    }

    proof fn lemma_key_matches(&self, i: int, id: PaneId)
        requires
            self.wf(),
            0 <= i < self@.len(),
        ensures
            (index_map_entries(self.map)[i].0 == pane_key(id)) == (self@[i].0 == id),
    {
        let k = index_map_entries(self.map)[i].0;
        assert(is_pane_key(k));
        assert(pane_key(pane_of_key(k)) == k);
        lemma_pane_key_injective(pane_of_key(k), id);
    }

    pub fn new() -> (r: PaneTitles)
        ensures
            r.wf(),
            r@ == Seq::<(PaneId, Seq<char>)>::empty(),
    {
        let r = PaneTitles { map: index_map_new() };
        assert(r@ =~= Seq::<(PaneId, Seq<char>)>::empty());
        r
    }

    pub fn len(&self) -> (r: usize)
        ensures
            r == self@.len(),
    {
        index_map_len(&self.map)
    }

    pub fn contains(&self, id: PaneId) -> (r: bool)
        requires
            self.wf(),
        ensures
            r == has_id(self@, id),
    {
        let r = index_map_contains_key(&self.map, id.key());
        proof {
            if r {
                let i = choose|i: int|
                    0 <= i < index_map_entries(self.map).len() && index_map_entries(self.map)[i].0
                        == pane_key(id);
                self.lemma_key_matches(i, id);
            }
            if has_id(self@, id) {
                let i = choose|i: int| 0 <= i < self@.len() && self@[i].0 == id;
                self.lemma_key_matches(i, id);
            }
        }
        r
    }

    /// The pane and title at position `i`, if there is one.
    pub fn get_index(&self, i: usize) -> (r: Option<(PaneId, String)>)
        requires
            self.wf(),
        ensures
            r is Some <==> i < self@.len(),
            r is Some ==> r.unwrap().0 == self@[i as int].0 && r.unwrap().1@ == self@[i as int].1,
    {
        match index_map_get_index(&self.map, i) {
            Some(e) => {
                proof {
                    assert(is_pane_key(index_map_entries(self.map)[i as int].0));
                }
                Some((PaneId::from_key(e.0), e.1))
            },
            None => None,
        }
    }

    /// Records `title` for `id`: a pane already present keeps its place and
    /// takes the new title, a new pane goes last.
    pub fn upsert(&mut self, id: PaneId, title: String)
        requires
            old(self).wf(),
        ensures
            final(self).wf(),
            forall|i: int|
                0 <= i < old(self)@.len() && old(self)@[i].0 == id ==> final(self)@ == old(
                    self,
                )@.update(i, (id, title@)),
            !has_id(old(self)@, id) ==> final(self)@ == old(self)@.push((id, title@)),
    {
        let ghost pre = *self;
        let k = id.key();
        proof {
            lemma_pane_key_injective(id, id);
        }
        index_map_insert(&mut self.map, k, title);
        proof {
            let e0 = index_map_entries(pre.map);
            let e1 = index_map_entries(self.map);
            if has_key(e0, k) {
                let j = choose|j: int| 0 <= j < e0.len() && e0[j].0 == k;
                assert(e1 == e0.update(j, (k, title@)));
                pre.lemma_key_matches(j, id);
                assert forall|i: int| 0 <= i < pre@.len() && pre@[i].0 == id implies self@
                    == pre@.update(i, (id, title@)) by {
                    pre.lemma_key_matches(i, id);
                    assert(i == j);
                    assert(self@ =~= pre@.update(i, (id, title@)));
                }
                assert forall|a: int, b: int|
                    0 <= a < e1.len() && 0 <= b < e1.len() && e1[a].0 == e1[b].0 implies a
                    == b by {
                    assert(e1[a].0 == e0[a].0);
                    assert(e1[b].0 == e0[b].0);
                }
                assert forall|a: int| 0 <= a < e1.len() implies is_pane_key(#[trigger] e1[a].0) by {
                    assert(e1[a].0 == e0[a].0);
                }
            } else {
                assert(e1 == e0.push((k, title@)));
                assert forall|i: int| 0 <= i < pre@.len() implies pre@[i].0 != id by {
                    pre.lemma_key_matches(i, id);
                }
                assert(!has_id(pre@, id));
                assert(self@ =~= pre@.push((id, title@)));
                assert forall|a: int, b: int|
                    0 <= a < e1.len() && 0 <= b < e1.len() && e1[a].0 == e1[b].0 implies a
                    == b by {
                    if a < e0.len() && b < e0.len() {
                        assert(e1[a] == e0[a]);
                        assert(e1[b] == e0[b]);
                    } else if a < e0.len() {
                        assert(e1[a] == e0[a]);
                        assert(e0[a].0 != k);
                    } else if b < e0.len() {
                        assert(e1[b] == e0[b]);
                        assert(e0[b].0 != k);
                    }
                }
                assert forall|a: int| 0 <= a < e1.len() implies is_pane_key(#[trigger] e1[a].0) by {
                    if a < e0.len() {
                        assert(e1[a] == e0[a]);
                    }
                }
            }
            if !has_id(pre@, id) {
                if has_key(e0, k) {
                    let j = choose|j: int| 0 <= j < e0.len() && e0[j].0 == k;
                    pre.lemma_key_matches(j, id);
                }
            }
        }
    }

    /// Records `title` for `id` unless `id` is present already.
    pub fn insert_if_absent(&mut self, id: PaneId, title: String)
        requires
            old(self).wf(),
        ensures
            final(self).wf(),
            has_id(old(self)@, id) ==> final(self)@ == old(self)@,
            !has_id(old(self)@, id) ==> final(self)@ == old(self)@.push((id, title@)),
    {
        if !self.contains(id) {
            self.upsert(id, title);
        }
    }

    /// All titles, in order.
    pub fn titles(&self) -> (r: Vec<String>)
        requires
            self.wf(),
        ensures
            r@.len() == self@.len(),
            forall|i: int| 0 <= i < r@.len() ==> #[trigger] r@[i]@ == self@[i].1,
    {
        let mut r: Vec<String> = Vec::new();
        let n = self.len();
        let mut i: usize = 0;
        while i < n
            invariant
                n == self@.len(),
                i <= n,
                self.wf(),
                r@.len() == i,
                forall|j: int| 0 <= j < i ==> #[trigger] r@[j]@ == self@[j].1,
            decreases n - i,
        {
            let e = self.get_index(i);
            match e {
                Some(e) => {
                    r.push(e.1);
                },
                None => {},
            }
            i = i + 1;
        }
        r
    }
}

} // verus!
