//! A store of items by identifier, held in memory.

use crate::db::Document;
use crate::pre_trade::same_text;
use std::collections::HashMap;
use std::hash::Hash;
use vstd::prelude::*;
use vstd::std_specs::hash::obeys_key_model;
use vstd::std_specs::iter::IteratorSpec;
use vstd::string::StringExecFns;

verus! {

broadcast use vstd::std_specs::hash::group_hash_axioms;

/// Items by identifier. An identifier maps to at most one item.
#[derive(Debug)]
pub struct InMemoryRepo<T, Id> {
    storage: HashMap<Id, T>,
}

impl<T, Id> View for InMemoryRepo<T, Id> {
    type V = Map<Id, T>;

    closed spec fn view(&self) -> Map<Id, T> {
        self.storage@
    }
}

/// Whether `pairs` lists exactly the pairs of `rows`, each once.
pub open spec fn spec_lists_rows<T, Id>(pairs: Seq<(&Id, &T)>, rows: Map<Id, T>) -> bool {
    &&& forall|i: int|
        0 <= i < pairs.len() ==> rows.contains_key(*(#[trigger] pairs[i]).0) && rows[*pairs[i].0]
            == *pairs[i].1
    &&& forall|i: int, j: int|
        0 <= i < pairs.len() && 0 <= j < pairs.len() && *(#[trigger] pairs[i]).0 == *(
        #[trigger] pairs[j]).0 ==> i == j
    &&& forall|id: Id| #[trigger]
        rows.contains_key(id) ==> exists|i: int|
            0 <= i < pairs.len() && *(#[trigger] pairs[i]).0 == id
}

impl<T, Id> InMemoryRepo<T, Id> where Id: Clone + Eq + Hash {
    /// An empty store.
    pub fn new() -> (r: Self)
        ensures
            r@ == Map::<Id, T>::empty(),
    {
        Self { storage: HashMap::new() }
    }

    /// Stores `item` under `id`, in place of what was there.
    pub fn insert(&mut self, id: Id, item: T)
        requires
            obeys_key_model::<Id>(),
        ensures
            final(self)@ == old(self)@.insert(id, item),
    {
        self.storage.insert(id, item);
    }

    /// Stores `item` under `id`, in place of what was there.
    pub fn update(&mut self, id: Id, item: T)
        requires
            obeys_key_model::<Id>(),
        ensures
            final(self)@ == old(self)@.insert(id, item),
    {
        self.storage.insert(id, item);
    }

    /// Takes the item under `id` out of the store.
    pub fn remove(&mut self, id: &Id) -> (r: Option<T>)
        requires
            obeys_key_model::<Id>(),
        ensures
            final(self)@ == old(self)@.remove(*id),
            match r {
                Some(item) => old(self)@.contains_key(*id) && old(self)@[*id] == item,
                None => !old(self)@.contains_key(*id),
            },
    {
        self.storage.remove(id)
    }

    /// The item under `id`.
    pub fn get(&self, id: &Id) -> (r: Option<&T>)
        requires
            obeys_key_model::<Id>(),
        ensures
            match r {
                Some(item) => self@.contains_key(*id) && self@[*id] == *item,
                None => !self@.contains_key(*id),
            },
    {
        self.storage.get(id)
    }

    /// The item under `id`, for changing in place (`HashMap::get_mut`):
    /// the store afterwards holds under `id` what the caller left there, and
    /// is otherwise as before.
    #[verifier::external_body]
    pub fn get_mut(&mut self, id: &Id) -> (r: Option<&mut T>)
        requires
            obeys_key_model::<Id>(),
        ensures
            match r {
                Some(item) => {
                    &&& old(self)@.contains_key(*id)
                    &&& *item == old(self)@[*id]
                    &&& final(self)@ == old(self)@.insert(*id, *final(item))
                },
                None => !old(self)@.contains_key(*id) && final(self)@ == old(self)@,
            },
    {
        self.storage.get_mut(id)
    }

    /// The number of items.
    pub fn len(&self) -> (n: usize)
        requires
            obeys_key_model::<Id>(),
        ensures
            n == self@.len(),
            self@.dom().finite(),
    {
        self.storage.len()
    }

    /// Whether the store holds nothing.
    pub fn is_empty(&self) -> (b: bool)
        requires
            obeys_key_model::<Id>(),
        ensures
            b == (self@.len() == 0),
            self@.dom().finite(),
    {
        self.storage.len() == 0
    }

    /// All identifiers with their items, in no particular order: each
    /// stored pair once.
    pub fn iter(&self) -> (r: Vec<(&Id, &T)>)
        requires
            obeys_key_model::<Id>(),
        ensures
            r@.len() == self@.len(),
            spec_lists_rows(r@, self@),
    {
        let mut out: Vec<(&Id, &T)> = Vec::new();
        for pair in it: self.storage.iter()
            invariant
                out@.len() == it.index(),
                forall|j: int| 0 <= j < out@.len() ==> out@[j] == it.seq()[j],
                it.seq().no_duplicates(),
        {
            out.push(pair);
        }
        assert forall|id: Id| #[trigger] self@.contains_key(id) implies exists|i: int|
            0 <= i < out@.len() && *(#[trigger] out@[i]).0 == id by {
            let all = self.storage.iter().remaining();
            assert(all.contains((&id, &self@[id])));
            let k = choose|k: int| 0 <= k < all.len() && all[k] == (&id, &self@[id]);
            assert(*out@[k].0 == id);
        }
        assert forall|i: int, j: int|
            0 <= i < out@.len() && 0 <= j < out@.len() && *(#[trigger] out@[i]).0 == *(
            #[trigger] out@[j]).0 implies i == j by {
            assert(self@.contains_key(*out@[i].0) && self@[*out@[i].0] == *out@[i].1);
            assert(self@.contains_key(*out@[j].0) && self@[*out@[j].0] == *out@[j].1);
            assert(out@[i] == out@[j]);
        }
        out
    }
}

/// Whether `pairs` lists exactly the pairs of `rows` whose field `field`
/// reads `value`, each once.
pub open spec fn spec_lists_matching<T: Document, Id>(
    pairs: Seq<(&Id, &T)>,
    rows: Map<Id, T>,
    field: Seq<char>,
    value: Seq<char>,
) -> bool {
    &&& forall|i: int|
        0 <= i < pairs.len() ==> {
            &&& rows.contains_key(*(#[trigger] pairs[i]).0)
            &&& rows[*pairs[i].0] == *pairs[i].1
            &&& (*pairs[i].1).spec_field(field) == Some(value)
        }
    &&& forall|i: int, j: int|
        0 <= i < pairs.len() && 0 <= j < pairs.len() && *(#[trigger] pairs[i]).0 == *(
        #[trigger] pairs[j]).0 ==> i == j
    &&& forall|id: Id| #[trigger]
        rows.contains_key(id) && rows[id].spec_field(field) == Some(value) ==> exists|i: int|
            0 <= i < pairs.len() && *(#[trigger] pairs[i]).0 == id
}

impl<T, Id> InMemoryRepo<T, Id> where T: Document, Id: Clone + Eq + Hash {
    /// Some item whose field `field` reads `value`, if there is one.
    pub fn find_by_field(&self, field: &str, value: &str) -> (r: Option<&T>)
        requires
            obeys_key_model::<Id>(),
        ensures
            match r {
                Some(item) => item.spec_field(field@) == Some(value@) && exists|id: Id|
                    #[trigger] self@.contains_key(id) && self@[id] == *item,
                None => forall|id: Id| #[trigger]
                    self@.contains_key(id) ==> self@[id].spec_field(field@) != Some(value@),
            },
    {
        let wanted = String::from_str(value);
        let all = self.iter();
        let mut i: usize = 0;
        while i < all.len()
            invariant
                i <= all@.len(),
                wanted@ == value@,
                spec_lists_rows(all@, self@),
                forall|j: int|
                    0 <= j < i ==> (*(#[trigger] all@[j]).1).spec_field(field@) != Some(value@),
            decreases all.len() - i,
        {
            let item: &T = all[i].1;
            match item.field(field) {
                Some(text) => {
                    if same_text(&text, &wanted) {
                        assert(self@.contains_key(*all@[i as int].0));
                        return Some(item);
                    }
                },
                None => {},
            }
            i += 1;
        }
        assert forall|id: Id| #[trigger] self@.contains_key(id) implies self@[id].spec_field(
            field@,
        ) != Some(value@) by {
            let k = choose|k: int| 0 <= k < all@.len() && *(#[trigger] all@[k]).0 == id;
            assert(self@[*all@[k].0] == *all@[k].1);
        }
        None
    }

    /// Every item whose field `field` reads `value`, with its identifier,
    /// in no particular order: each such pair once.
    pub fn find_all_by_field(&self, field: &str, value: &str) -> (r: Vec<(&Id, &T)>)
        requires
            obeys_key_model::<Id>(),
        ensures
            spec_lists_matching(r@, self@, field@, value@),
    {
        let wanted = String::from_str(value);
        let all = self.iter();
        let mut out: Vec<(&Id, &T)> = Vec::new();
        let ghost mut picked: Seq<int> = Seq::empty();
        let mut i: usize = 0;
        while i < all.len()
            invariant
                i <= all@.len(),
                wanted@ == value@,
                spec_lists_rows(all@, self@),
                picked.len() == out@.len(),
                forall|k: int|
                    0 <= k < out@.len() ==> 0 <= #[trigger] picked[k] < i && out@[k]
                        == all@[picked[k]] && (*out@[k].1).spec_field(field@) == Some(value@),
                forall|a: int, b: int| 0 <= a < b < picked.len() ==> picked[a] < picked[b],
                forall|j: int|
                    0 <= j < i && (*(#[trigger] all@[j]).1).spec_field(field@) == Some(value@)
                        ==> exists|k: int| 0 <= k < out@.len() && #[trigger] picked[k] == j,
            decreases all.len() - i,
        {
            let item: &T = all[i].1;
            let hit = match item.field(field) {
                Some(text) => same_text(&text, &wanted),
                None => false,
            };
            if hit {
                out.push(all[i]);
                proof {
                    let ghost before = picked;
                    picked = picked.push(i as int);
                    assert forall|j: int|
                        0 <= j < i + 1 && (*(#[trigger] all@[j]).1).spec_field(field@) == Some(
                            value@,
                        ) implies exists|k: int| 0 <= k < out@.len() && #[trigger] picked[k]
                        == j by {
                        if j < i {
                            let k = choose|k: int|
                                0 <= k < before.len() && #[trigger] before[k] == j;
                            assert(picked[k] == j);
                        } else {
                            assert(picked[before.len() as int] == j);
                        }
                    }
                }
            }
            i += 1;
        }
        assert forall|a: int, b: int|
            0 <= a < out@.len() && 0 <= b < out@.len() && *(#[trigger] out@[a]).0 == *(
            #[trigger] out@[b]).0 implies a == b by {
            assert(all@[picked[a]] == out@[a]);
            assert(all@[picked[b]] == out@[b]);
            assert(picked[a] == picked[b]);
            if a < b {
                assert(picked[a] < picked[b]);
            }
            if b < a {
                assert(picked[b] < picked[a]);
            }
        }
        assert forall|id: Id| #[trigger]
            self@.contains_key(id) && self@[id].spec_field(field@) == Some(
                value@,
            ) implies exists|n: int| 0 <= n < out@.len() && *(#[trigger] out@[n]).0 == id by {
            let j = choose|j: int| 0 <= j < all@.len() && *(#[trigger] all@[j]).0 == id;
            assert(self@[*all@[j].0] == *all@[j].1);
            let k = choose|k: int| 0 <= k < out@.len() && #[trigger] picked[k] == j;
            assert(out@[k] == all@[j]);
        }
        assert forall|n: int| 0 <= n < out@.len() implies {
            &&& self@.contains_key(*(#[trigger] out@[n]).0)
            &&& self@[*out@[n].0] == *out@[n].1
            &&& (*out@[n].1).spec_field(field@) == Some(value@)
        } by {
            assert(out@[n] == all@[picked[n]]);
        }
        out
    }
}

} // verus!
