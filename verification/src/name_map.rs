//! A map from names to values that hands out its entries in insertion order.
use vstd::prelude::*;
use vstd::string::*;

use crate::text::same_text;

verus! {

/// The position of the first pair with a given name.
pub open spec fn pair_index<A>(pairs: Seq<(Seq<char>, A)>, name: Seq<char>) -> Option<int>
    decreases pairs.len(),
{
    if pairs.len() == 0 {
        None
    } else if pairs[0].0 == name {
        Some(0)
    } else {
        match pair_index(pairs.drop_first(), name) {
            Some(i) => Some(i + 1),
            None => None,
        }
    }
}

/// No name stands in two pairs.
pub open spec fn distinct_names<A>(pairs: Seq<(Seq<char>, A)>) -> bool {
    forall|i: int, j: int|
        0 <= i < pairs.len() && 0 <= j < pairs.len() && #[trigger] pairs[i].0
            == #[trigger] pairs[j].0 ==> i == j
}

/// What a list of pairs maps each name to.
pub open spec fn pairs_map<A>(pairs: Seq<(Seq<char>, A)>) -> Map<Seq<char>, A> {
    Map::new(
        |name: Seq<char>| pair_index(pairs, name) is Some,
        |name: Seq<char>| pairs[pair_index(pairs, name)->0].1,
    )
}

pub proof fn pair_index_is_first<A>(pairs: Seq<(Seq<char>, A)>, name: Seq<char>)
    ensures
        match pair_index(pairs, name) {
            Some(i) => 0 <= i < pairs.len() && pairs[i].0 == name && forall|k: int|
                0 <= k < i ==> (#[trigger] pairs[k]).0 != name,
            None => forall|k: int| 0 <= k < pairs.len() ==> (#[trigger] pairs[k]).0 != name,
        },
    decreases pairs.len(),
{
    if pairs.len() > 0 && pairs[0].0 != name {
        let rest = pairs.drop_first();
        pair_index_is_first(rest, name);
        assert(forall|k: int| 0 < k < pairs.len() ==> #[trigger] pairs[k] == rest[k - 1]);
    }
}

/// Lists with the same names in the same order have a name at the same position.
pub proof fn same_names_same_index<A>(a: Seq<(Seq<char>, A)>, b: Seq<(Seq<char>, A)>)
    requires
        a.len() == b.len(),
        forall|i: int| 0 <= i < a.len() ==> #[trigger] a[i].0 == b[i].0,
    ensures
        forall|name: Seq<char>| #[trigger] pair_index(a, name) == pair_index(b, name),
    decreases a.len(),
{
    if a.len() > 0 {
        let x = a.drop_first();
        let y = b.drop_first();
        assert forall|i: int| 0 <= i < x.len() implies #[trigger] x[i].0 == y[i].0 by {
            assert(a[i + 1].0 == b[i + 1].0);
        }
        same_names_same_index(x, y);
        assert(a[0].0 == b[0].0);
        assert forall|name: Seq<char>| #[trigger] pair_index(a, name) == pair_index(b, name) by {
            assert(pair_index(x, name) == pair_index(y, name));
        }
    }
}

/// A map from names to values.
pub struct NameMap<V: View> {
    entries: Vec<(String, V)>,
}

impl<V: View> NameMap<V> {
    /// The entries in insertion order.
    pub closed spec fn pairs(self) -> Seq<(Seq<char>, V::V)> {
        Seq::new(
            self.entries@.len(),
            |i: int| (self.entries@[i].0@, self.entries@[i].1@),
        )
    }

    /// The names in insertion order.
    pub open spec fn names(self) -> Seq<Seq<char>> {
        Seq::new(self.pairs().len(), |i: int| self.pairs()[i].0)
    }

    #[verifier::type_invariant]
    spec fn distinct(self) -> bool {
        distinct_names(self.pairs())
    }

    pub fn new() -> (r: NameMap<V>)
        ensures
            r@ == Map::<Seq<char>, V::V>::empty(),
            r.pairs() == Seq::<(Seq<char>, V::V)>::empty(),
    {
        let r = NameMap { entries: Vec::new() };
        proof {
            assert(r.pairs() =~= Seq::<(Seq<char>, V::V)>::empty());
            assert(r@ =~= Map::<Seq<char>, V::V>::empty());
        }
        r
    }

    fn find(&self, name: &str) -> (r: Option<usize>)
        ensures
            match r {
                Some(i) => i < self.entries@.len() && pair_index(self.pairs(), name@) == Some(
                    i as int,
                ),
                None => pair_index(self.pairs(), name@) is None,
            },
    {
        let ghost all = self.pairs();
        let mut i: usize = 0;
        assert(all.skip(0) =~= all);
        while i < self.entries.len()
            invariant
                i <= self.entries@.len(),
                all == self.pairs(),
                all.len() == self.entries@.len(),
                forall|k: int|
                    0 <= k < all.len() ==> (#[trigger] all[k]).0 == self.entries@[k].0@,
                pair_index(all, name@) == (match pair_index(all.skip(i as int), name@) {
                    Some(k) => Some(k + i as int),
                    None => None::<int>,
                }),
            decreases self.entries@.len() - i,
        {
            assert(all.skip(i as int)[0] == all[i as int]);
            if same_text(self.entries[i].0.as_str(), name) {
                return Some(i);
            }
            assert(all.skip(i as int).drop_first() =~= all.skip(i + 1));
            i += 1;
        }
        None
    }

    pub fn get(&self, name: &str) -> (r: Option<&V>)
        ensures
            match r {
                Some(v) => self@.contains_key(name@) && self@[name@] == v@,
                None => !self@.contains_key(name@),
            },
    {
        match self.find(name) {
            Some(i) => Some(&self.entries[i].1),
            None => None,
        }
    }

    pub fn contains(&self, name: &str) -> (r: bool)
        ensures
            r == self@.contains_key(name@),
    {
        match self.find(name) {
            Some(_) => true,
            None => false,
        }
    }

    pub fn len(&self) -> (r: usize)
        ensures
            r == self.pairs().len(),
    {
        self.entries.len()
    }

    pub fn is_empty(&self) -> (r: bool)
        ensures
            r == (self.pairs().len() == 0),
    {
        self.entries.len() == 0
    }

    /// The name of the entry at a position.
    pub fn name_at(&self, i: usize) -> (r: &str)
        requires
            i < self.pairs().len(),
        ensures
            r@ == self.pairs()[i as int].0,
            pair_index(self.pairs(), r@) == Some(i as int),
    {
        proof {
            use_type_invariant(self);
            pair_index_is_first(self.pairs(), self.pairs()[i as int].0);
        }
        self.entries[i].0.as_str()
    }

    /// The value of the entry at a position, which is what its name is mapped to.
    pub fn value_at(&self, i: usize) -> (r: &V)
        requires
            i < self.pairs().len(),
        ensures
            r@ == self.pairs()[i as int].1,
            self@.contains_key(self.pairs()[i as int].0),
            self@[self.pairs()[i as int].0] == r@,
    {
        proof {
            use_type_invariant(self);
            pair_index_is_first(self.pairs(), self.pairs()[i as int].0);
        }
        &self.entries[i].1
    }

    /// Maps a name to a value; a name that is there keeps its position.
    pub fn insert(&mut self, name: &str, value: V)
        ensures
            final(self)@ == old(self)@.insert(name@, value@),
            match pair_index(old(self).pairs(), name@) {
                Some(i) => final(self).pairs() == old(self).pairs().update(i, (name@, value@)),
                None => final(self).pairs() == old(self).pairs().push((name@, value@)),
            },
    {
        proof {
            use_type_invariant(&*self);
        }
        let ghost before = self.pairs();
        let found = self.find(name);
        let mut entries: Vec<(String, V)> = Vec::new();
        std::mem::swap(&mut entries, &mut self.entries);
        proof {
            pair_index_is_first(before, name@);
        }
        match found {
            Some(i) => {
                entries.set(i, (name.to_string(), value));
            },
            None => {
                entries.push((name.to_string(), value));
            },
        }
        let ghost after: Seq<(Seq<char>, V::V)> = Seq::new(
            entries@.len(),
            |i: int| (entries@[i].0@, entries@[i].1@),
        );
        proof {
            match found {
                Some(i) => {
                    assert(after =~= before.update(i as int, (name@, value@)));
                },
                None => {
                    assert(after =~= before.push((name@, value@)));
                },
            }
            assert forall|i: int, j: int|
                0 <= i < after.len() && 0 <= j < after.len() && #[trigger] after[i].0
                    == #[trigger] after[j].0 implies i == j by {
                if i < before.len() && j < before.len() {
                    assert(after[i].0 == before[i].0);
                    assert(after[j].0 == before[j].0);
                }
            }
        }
        self.entries = entries;
        proof {
            assert(self.pairs() =~= after);
            insert_maps(before, after, name@, value@);
        }
    }

    /// Takes a name out.
    pub fn remove(&mut self, name: &str) -> (r: bool)
        ensures
            r == old(self)@.contains_key(name@),
            final(self)@ == old(self)@.remove(name@),
            match pair_index(old(self).pairs(), name@) {
                Some(i) => final(self).pairs() == old(self).pairs().remove(i),
                None => final(self).pairs() == old(self).pairs(),
            },
    {
        proof {
            use_type_invariant(&*self);
        }
        let ghost before = self.pairs();
        let found = self.find(name);
        proof {
            pair_index_is_first(before, name@);
        }
        match found {
            Some(i) => {
                let mut entries: Vec<(String, V)> = Vec::new();
                std::mem::swap(&mut entries, &mut self.entries);
                let _ = entries.remove(i);
                let ghost after: Seq<(Seq<char>, V::V)> = Seq::new(
                    entries@.len(),
                    |k: int| (entries@[k].0@, entries@[k].1@),
                );
                proof {
                    assert(after =~= before.remove(i as int));
                    assert forall|a: int, b: int|
                        0 <= a < after.len() && 0 <= b < after.len() && #[trigger] after[a].0
                            == #[trigger] after[b].0 implies a == b by {
                        let x = if a < i {
                            a
                        } else {
                            a + 1
                        };
                        let y = if b < i {
                            b
                        } else {
                            b + 1
                        };
                        assert(after[a].0 == before[x].0);
                        assert(after[b].0 == before[y].0);
                    }
                }
                self.entries = entries;
                proof {
                    assert(self.pairs() =~= after);
                    remove_maps(before, name@, i as int);
                }
                true
            },
            None => {
                assert(self@ =~= old(self)@.remove(name@));
                false
            },
        }
    }
}

impl<V: View> View for NameMap<V> {
    type V = Map<Seq<char>, V::V>;

    open spec fn view(&self) -> Map<Seq<char>, V::V> {
        pairs_map(self.pairs())
    }
}

proof fn insert_maps<A>(
    before: Seq<(Seq<char>, A)>,
    after: Seq<(Seq<char>, A)>,
    name: Seq<char>,
    value: A,
)
    requires
        distinct_names(before),
        match pair_index(before, name) {
            Some(i) => after == before.update(i, (name, value)),
            None => after == before.push((name, value)),
        },
    ensures
        pairs_map(after) == pairs_map(before).insert(name, value),
{
    pair_index_is_first(before, name);
    assert forall|other: Seq<char>|
        #![trigger pair_index(after, other)]
        {
            &&& other != name ==> (pair_index(after, other) is Some <==> pair_index(
                before,
                other,
            ) is Some)
            &&& other != name && pair_index(after, other) is Some ==> after[pair_index(
                after,
                other,
            )->0].1 == before[pair_index(before, other)->0].1
            &&& other == name ==> pair_index(after, other) is Some && after[pair_index(
                after,
                other,
            )->0].1 == value
        } by {
        pair_index_is_first(before, other);
        pair_index_is_first(after, other);
        let at = match pair_index(before, name) {
            Some(i) => i,
            None => before.len() as int,
        };
        assert(after[at] == (name, value));
        assert(forall|k: int| 0 <= k < before.len() && k != at ==> #[trigger] after[k] == before[k]);
        if other != name {
            if pair_index(before, other) is Some {
                let b = pair_index(before, other)->0;
                assert(after[b] == before[b]);
                assert(after[b].0 == other);
                let a = pair_index(after, other)->0;
                assert(after[a].0 == other);
                assert(before[a].0 == other);
            }
            if pair_index(after, other) is Some {
                let a = pair_index(after, other)->0;
                assert(before[a] == after[a]);
                assert(before[a].0 == other);
            }
        } else {
            let a = pair_index(after, other)->0;
            assert(after[a].0 == name);
            if a != at {
                assert(before[a].0 == name);
            }
        }
    }
    assert(pairs_map(after) =~= pairs_map(before).insert(name, value));
}

proof fn remove_maps<A>(before: Seq<(Seq<char>, A)>, name: Seq<char>, at: int)
    requires
        distinct_names(before),
        pair_index(before, name) == Some(at),
    ensures
        pairs_map(before.remove(at)) == pairs_map(before).remove(name),
{
    let after = before.remove(at);
    pair_index_is_first(before, name);
    assert forall|other: Seq<char>|
        #![trigger pair_index(after, other)]
        {
            &&& other != name ==> (pair_index(after, other) is Some <==> pair_index(
                before,
                other,
            ) is Some)
            &&& other != name && pair_index(after, other) is Some ==> after[pair_index(
                after,
                other,
            )->0].1 == before[pair_index(before, other)->0].1
            &&& other == name ==> pair_index(after, other) is None
        } by {
        pair_index_is_first(before, other);
        pair_index_is_first(after, other);
        assert(forall|k: int| 0 <= k < at ==> #[trigger] after[k] == before[k]);
        assert(forall|k: int| at <= k < after.len() ==> #[trigger] after[k] == before[k + 1]);
        if pair_index(before, other) is Some && other != name {
            let b = pair_index(before, other)->0;
            let moved = if b < at {
                b
            } else {
                b - 1
            };
            assert(after[moved] == before[b]);
            assert(after[moved].0 == other);
        }
        if pair_index(after, other) is Some {
            let a = pair_index(after, other)->0;
            let back = if a < at {
                a
            } else {
                a + 1
            };
            assert(before[back] == after[a]);
            assert(before[back].0 == other);
        }
    }
    assert(pairs_map(after) =~= pairs_map(before).remove(name));
}

} // verus!
