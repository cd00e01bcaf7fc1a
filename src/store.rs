//! The user collection: records keyed by identifier, listed in name order.
use crate::model::User;
use crate::text::{
    lemma_text_lt_asymmetric, lemma_text_lt_irreflexive, lemma_text_lt_total,
    lemma_text_lt_transitive, text_less, text_lt,
};
use std::collections::HashMap;
use vstd::prelude::*;

verus! {

/// `a` lists before `b`: by name, then by identifier.
pub open spec fn user_lt(a: User, b: User) -> bool {
    text_lt(a.name@, b.name@) || (a.name@ == b.name@ && a.id < b.id)
}

/// Each record of `s` lists strictly before the ones after it.
pub open spec fn listed_in_order(s: Seq<User>) -> bool {
    forall|i: int, j: int| 0 <= i < j < s.len() ==> user_lt(#[trigger] s[i], #[trigger] s[j])
}

proof fn lemma_user_lt_transitive(a: User, b: User, c: User)
    requires
        user_lt(a, b),
        user_lt(b, c),
    ensures
        user_lt(a, c),
{
    if text_lt(a.name@, b.name@) && text_lt(b.name@, c.name@) {
        lemma_text_lt_transitive(a.name@, b.name@, c.name@);
    }
}

proof fn lemma_user_lt_total(a: User, b: User)
    requires
        a.id != b.id,
    ensures
        user_lt(a, b) || user_lt(b, a),
{
    lemma_text_lt_total(a.name@, b.name@);
}

pub proof fn lemma_user_lt_name_order(a: User, b: User)
    requires
        user_lt(a, b),
    ensures
        !text_lt(b.name@, a.name@),
{
    lemma_text_lt_asymmetric(a.name@, b.name@);
    lemma_text_lt_irreflexive(a.name@);
}

fn user_less(a: &User, b: &User) -> (r: bool)
    ensures
        r == user_lt(*a, *b),
{
    if text_less(a.name.as_str(), b.name.as_str()) {
        true
    } else {
        a.name == b.name && a.id < b.id
    }
}

/// The store: records keyed by identifier, and the identifiers once each, in
/// the order they were first stored.
pub struct UserStore {
    users: HashMap<u128, User>,
    order: Vec<u128>,
}

impl View for UserStore {
    type V = Map<u128, User>;

    closed spec fn view(&self) -> Map<u128, User> {
        self.users@
    }
}

impl UserStore {
    pub closed spec fn wf(&self) -> bool {
        &&& forall|k: u128| #[trigger] self.users@.contains_key(k) ==> self.users@[k].id == k
        &&& self.order@.no_duplicates()
        &&& forall|k: u128| #[trigger] self.users@.contains_key(k) <==> self.order@.contains(k)
    }

    /// Each record is stored under its own identifier.
    pub proof fn lemma_keys_are_ids(&self)
        requires
            self.wf(),
        ensures
            forall|k: u128| #[trigger] self@.contains_key(k) ==> self@[k].id == k,
    {
    }

    proof fn lemma_len(&self)
        requires
            self.wf(),
        ensures
            self@.len() == self.order@.len(),
    {
        broadcast use vstd::std_specs::hash::group_hash_axioms;

        assert(self@.dom() =~= self.order@.to_set());
        self.order@.unique_seq_to_set();
    }

    /// An empty store.
    pub fn new() -> (r: Self)
        ensures
            r.wf(),
            r@ == Map::<u128, User>::empty(),
    {
        UserStore { users: HashMap::new(), order: Vec::new() }
    }

    /// The number of records.
    pub fn len(&self) -> (r: usize)
        requires
            self.wf(),
        ensures
            r == self@.len(),
    {
        broadcast use vstd::std_specs::hash::group_hash_axioms;

        self.users.len()
    }

    /// A copy of the record stored under `id`, if any.
    pub fn get(&self, id: u128) -> (r: Option<User>)
        requires
            self.wf(),
        ensures
            r == (if self@.contains_key(id) { Some(self@[id]) } else { None::<User> }),
            r matches Some(u) ==> u.id == id,
    {
        broadcast use vstd::std_specs::hash::group_hash_axioms;

        match self.users.get(&id) {
            Some(u) => Some(u.clone()),
            None => None,
        }
    }

    /// Stores `user` under its identifier, in place of any record there.
    pub fn insert(&mut self, user: User)
        requires
            old(self).wf(),
        ensures
            final(self).wf(),
            final(self)@ == old(self)@.insert(user.id, user),
    {
        broadcast use vstd::std_specs::hash::group_hash_axioms;

        let id = user.id;
        if !self.users.contains_key(&id) {
            self.order.push(id);
            assert forall|k: u128| self.order@.contains(k) <==> old(self).order@.contains(k) || k
                == id by {
                if old(self).order@.contains(k) {
                    let j = choose|j: int| 0 <= j < old(self).order@.len() && old(self).order@[j] == k;
                    assert(self.order@[j] == k);
                }
                if k == id {
                    assert(self.order@[self.order@.len() - 1] == k);
                }
            }
        }
        self.users.insert(id, user);
    }

    /// Copies of all records, in name order, equal names by identifier.
    pub fn list(&self) -> (r: Vec<User>)
        requires
            self.wf(),
        ensures
            listed_in_order(r@),
            r@.len() == self@.len(),
            forall|j: int|
                0 <= j < r@.len() ==> self@.contains_key(#[trigger] r@[j].id) && self@[r@[j].id]
                    == r@[j],
    {
        broadcast use vstd::std_specs::hash::group_hash_axioms;

        let mut out: Vec<User> = Vec::new();
        let ghost mut src: Seq<int> = Seq::empty();
        let mut i: usize = 0;
        while i < self.order.len()
            invariant
                self.wf(),
                i <= self.order@.len(),
                out@.len() == i,
                listed_in_order(out@),
                src.len() == out@.len(),
                forall|j: int|
                    0 <= j < out@.len() ==> 0 <= #[trigger] src[j] < i && self@[self.order@[src[j]]]
                        == out@[j],
            decreases self.order@.len() - i,
        {
            let key = self.order[i];
            assert(self.order@.contains(key));
            let u = self.users.get(&key).unwrap().clone();
            assert(u == self@[key] && u.id == key);
            let mut p: usize = 0;
            while p < out.len() && !user_less(&u, &out[p])
                invariant
                    p <= out@.len(),
                    forall|j: int| 0 <= j < p ==> !user_lt(u, #[trigger] out@[j]),
                decreases out@.len() - p,
            {
                p = p + 1;
            }
            proof {
                assert forall|j: int| 0 <= j < p implies user_lt(#[trigger] out@[j], u) by {
                    let k = src[j];
                    assert(self.order@.contains(self.order@[k]));
                    assert(self.users@.contains_key(self.order@[k]));
                    assert(out@[j].id == self.order@[k]);
                    assert(self.order@[k] != self.order@[i as int]);
                    lemma_user_lt_total(out@[j], u);
                }
                assert forall|j: int| p <= j < out@.len() implies user_lt(u, #[trigger] out@[j]) by {
                    if j > p {
                        assert(user_lt(out@[p as int], out@[j]));
                        lemma_user_lt_transitive(u, out@[p as int], out@[j]);
                    }
                }
            }
            let ghost before = out@;
            let ghost src_before = src;
            out.insert(p, u);
            proof {
                src = src.insert(p as int, i as int);
            }
            proof {
                assert forall|a: int, b: int| 0 <= a < b < out@.len() implies user_lt(
                    #[trigger] out@[a],
                    #[trigger] out@[b],
                ) by {
                    if b < p {
                        assert(user_lt(before[a], before[b]));
                    } else if a > p {
                        assert(user_lt(before[a - 1], before[b - 1]));
                    } else if a < p && b > p {
                        lemma_user_lt_transitive(before[a], u, before[b - 1]);
                    } else if a == p {
                        assert(user_lt(u, before[b - 1]));
                    } else {
                        assert(user_lt(before[a], u));
                    }
                }
                assert forall|j: int| 0 <= j < out@.len() implies 0 <= #[trigger] src[j] < i + 1
                    && self@[self.order@[src[j]]] == out@[j] by {
                    if j < p {
                        assert(out@[j] == before[j] && src[j] == src_before[j]);
                    } else if j > p {
                        assert(out@[j] == before[j - 1] && src[j] == src_before[j - 1]);
                    }
                }
            }
            i = i + 1;
        }
        proof {
            self.lemma_len();
            assert(i == self.order@.len());
            assert forall|j: int| 0 <= j < out@.len() implies self@.contains_key(
                #[trigger] out@[j].id,
            ) && self@[out@[j].id] == out@[j] by {
                let k = src[j];
                assert(self.order@.contains(self.order@[k]));
                assert(self.users@.contains_key(self.order@[k]));
            }
        }
        out
    }
}

} // verus!
