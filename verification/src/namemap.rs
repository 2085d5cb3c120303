//! A map from file names to values, kept as a vector of pairs sorted by
//! name, so that a lookup is a binary search.

use vstd::prelude::*;
use crate::names::chars_of;
use crate::scan::{lex_less, lex_compare, lemma_lex_irreflexive, lemma_lex_less_trans};

verus! {

/// No two pairs share a name.
pub open spec fn names_distinct<V>(items: Seq<(String, V)>) -> bool {
    forall|i: int, j: int|
        0 <= i < items.len() && 0 <= j < items.len() && i != j ==> #[trigger] items[i].0@
            != #[trigger] items[j].0@
}

/// The names come in strictly increasing lexicographic order.
pub open spec fn names_sorted<V>(items: Seq<(String, V)>) -> bool {
    forall|i: int, j: int|
        0 <= i < j < items.len() ==> lex_less(#[trigger] items[i].0@, #[trigger] items[j].0@)
}

/// Does some pair carry the name `k`?
pub open spec fn has_name<V>(items: Seq<(String, V)>, k: Seq<char>) -> bool {
    exists|i: int| 0 <= i < items.len() && #[trigger] items[i].0@ == k
}

/// The position of a pair that carries the name `k` (meaningful when one does).
pub open spec fn index_of_name<V>(items: Seq<(String, V)>, k: Seq<char>) -> int {
    choose|i: int| 0 <= i < items.len() && #[trigger] items[i].0@ == k
}

/// The map that a vector of pairs with distinct names stands for.
pub open spec fn map_of_pairs<V>(items: Seq<(String, V)>) -> Map<Seq<char>, V> {
    Map::new(|k: Seq<char>| has_name(items, k), |k: Seq<char>| items[index_of_name(items, k)].1)
}

/// The map built by inserting the pairs one after the other (a later pair
/// replaces an earlier one of the same name).
pub open spec fn insert_all<V>(items: Seq<(String, V)>) -> Map<Seq<char>, V>
    decreases items.len(),
{
    if items.len() == 0 {
        Map::empty()
    } else {
        insert_all(items.drop_last()).insert(items.last().0@, items.last().1)
    }
}

/// With distinct names, the pair found at `i` is the one the map reads.
pub proof fn lemma_map_of_pairs_at<V>(items: Seq<(String, V)>, i: int)
    requires
        names_distinct(items),
        0 <= i < items.len(),
    ensures
        map_of_pairs(items).contains_key(items[i].0@),
        map_of_pairs(items)[items[i].0@] == items[i].1,
{
    let k = items[i].0@;
    assert(has_name(items, k));
    let j = index_of_name(items, k);
    assert(items[j].0@ == k);
}

/// A map from file names to values.
pub struct NameMap<V> {
    items: Vec<(String, V)>,
}

impl<V> View for NameMap<V> {
    type V = Map<Seq<char>, V>;

    closed spec fn view(&self) -> Map<Seq<char>, V> {
        map_of_pairs(self.items@)
    }
}

impl<V> NameMap<V> {
    #[verifier::type_invariant]
    spec fn inv(self) -> bool {
        &&& names_distinct(self.items@)
        &&& names_sorted(self.items@)
    }

    /// The pairs, in name order.
    pub closed spec fn pairs_spec(&self) -> Seq<(String, V)> {
        self.items@
    }

    /// An empty map.
    pub fn new() -> (m: Self)
        ensures
            m@ == Map::<Seq<char>, V>::empty(),
    {
        let m = NameMap { items: Vec::new() };
        assert(m@ =~= Map::<Seq<char>, V>::empty());
        m
    }

    /// Number of names held.
    pub fn len(&self) -> (n: usize)
        ensures
            n == self@.dom().len(),
    {
        proof {
            use_type_invariant(self);
            lemma_dom_len(self.items@);
        }
        self.items.len()
    }

    /// The pairs, in name order.
    pub fn pairs(&self) -> (res: &Vec<(String, V)>)
        ensures
            res@ == self.pairs_spec(),
            names_distinct(res@),
            map_of_pairs(res@) == self@,
    {
        proof {
            use_type_invariant(self);
        }
        &self.items
    }

    /// Where the pair named `name` is (`Ok`), or where a pair with that name
    /// would go to keep the names in order (`Err`): a binary search.
    fn find(&self, name: &String) -> (res: Result<usize, usize>)
        ensures
            match res {
                Ok(i) => i < self.items@.len() && self.items@[i as int].0@ == name@,
                Err(p) => {
                    &&& p <= self.items@.len()
                    &&& !has_name(self.items@, name@)
                    &&& forall|j: int| 0 <= j < p ==> lex_less(#[trigger] self.items@[j].0@, name@)
                    &&& forall|j: int|
                        p <= j < self.items@.len() ==> lex_less(name@, #[trigger] self.items@[j].0@)
                },
            },
    {
        proof {
            use_type_invariant(self);
        }
        let key = chars_of(name.as_str());
        let n = self.items.len();
        let mut lo: usize = 0;
        let mut hi: usize = n;
        while lo < hi
            invariant
                n == self.items@.len(),
                names_sorted(self.items@),
                key@ == name@,
                0 <= lo <= hi <= n,
                forall|j: int| 0 <= j < lo ==> lex_less(#[trigger] self.items@[j].0@, name@),
                forall|j: int| hi <= j < n ==> lex_less(name@, #[trigger] self.items@[j].0@),
            decreases hi - lo,
        {
            let mid = lo + (hi - lo) / 2;
            let c = lex_compare(&chars_of(self.items[mid].0.as_str()), &key);
            if c == 0 {
                return Ok(mid);
            }
            let ghost m = self.items@[mid as int].0@;
            if c < 0 {
                proof {
                    assert forall|j: int| 0 <= j < mid + 1 implies lex_less(
                        #[trigger] self.items@[j].0@,
                        name@,
                    ) by {
                        if j < mid {
                            lemma_lex_less_trans(self.items@[j].0@, m, name@);
                        }
                    }
                }
                lo = mid + 1;
            } else {
                proof {
                    assert forall|j: int| mid <= j < n implies lex_less(
                        name@,
                        #[trigger] self.items@[j].0@,
                    ) by {
                        if j > mid {
                            lemma_lex_less_trans(name@, m, self.items@[j].0@);
                        }
                    }
                }
                hi = mid;
            }
        }
        proof {
            assert(!has_name(self.items@, name@)) by {
                if has_name(self.items@, name@) {
                    let j = choose|j: int| 0 <= j < self.items@.len() && #[trigger] self.items@[j].0@ == name@;
                    lemma_lex_irreflexive(name@);
                    if j < lo {
                        assert(lex_less(self.items@[j].0@, name@));
                    } else {
                        assert(lex_less(name@, self.items@[j].0@));
                    }
                }
            }
        }
        Err(lo)
    }

    /// The value held for `name`, if any.
    pub fn get(&self, name: &String) -> (res: Option<&V>)
        ensures
            match res {
                Some(v) => self@.contains_key(name@) && *v == self@[name@],
                None => !self@.contains_key(name@),
            },
    {
        proof {
            use_type_invariant(self);
        }
        match self.find(name) {
            Ok(i) => {
                proof {
                    lemma_map_of_pairs_at(self.items@, i as int);
                }
                Some(&self.items[i].1)
            },
            Err(_) => None,
        }
    }

    /// Set the value held for `name`, replacing any earlier one.
    pub fn insert(&mut self, name: String, value: V)
        ensures
            final(self)@ == old(self)@.insert(name@, value),
    {
        proof {
            use_type_invariant(&*self);
        }
        let ghost k = name@;
        let ghost old_items = self.items@;
        let found = self.find(&name);
        let mut items: Vec<(String, V)> = Vec::new();
        std::mem::swap(&mut items, &mut self.items);
        match found {
            Ok(i) => {
                items.set(i, (name, value));
                proof {
                    let new_items = items@;
                    assert(new_items == old_items.update(i as int, (new_items[i as int].0, value)));
                    assert(forall|j: int| 0 <= j < new_items.len() ==> #[trigger] new_items[j].0@ == old_items[j].0@);
                    assert(names_distinct(new_items)) by {
                        assert forall|a: int, b: int|
                            0 <= a < new_items.len() && 0 <= b < new_items.len() && a != b
                            implies #[trigger] new_items[a].0@ != #[trigger] new_items[b].0@ by {
                            assert(old_items[a].0@ != old_items[b].0@);
                        }
                    }
                    assert(names_sorted(new_items)) by {
                        assert forall|a: int, b: int| 0 <= a < b < new_items.len() implies lex_less(
                            #[trigger] new_items[a].0@,
                            #[trigger] new_items[b].0@,
                        ) by {
                            assert(lex_less(old_items[a].0@, old_items[b].0@));
                        }
                    }
                    lemma_insert_replace(old_items, new_items, i as int, k, value);
                }
            },
            Err(p) => {
                items.insert(p, (name, value));
                proof {
                    let new_items = items@;
                    assert(new_items == old_items.insert(p as int, new_items[p as int]));
                    assert forall|j: int| 0 <= j < new_items.len() implies #[trigger] new_items[j].0@ == (
                    if j < p {
                        old_items[j].0@
                    } else if j == p {
                        k
                    } else {
                        old_items[j - 1].0@
                    }) by {}
                    assert(names_sorted(new_items)) by {
                        assert forall|a: int, b: int| 0 <= a < b < new_items.len() implies lex_less(
                            #[trigger] new_items[a].0@,
                            #[trigger] new_items[b].0@,
                        ) by {
                            if b < p {
                                assert(lex_less(old_items[a].0@, old_items[b].0@));
                            } else if b == p {
                                assert(lex_less(old_items[a].0@, k));
                            } else if a < p {
                                assert(lex_less(old_items[a].0@, old_items[b - 1].0@));
                            } else if a == p {
                                assert(lex_less(k, old_items[b - 1].0@));
                            } else {
                                assert(lex_less(old_items[a - 1].0@, old_items[b - 1].0@));
                            }
                        }
                    }
                    assert(names_distinct(new_items)) by {
                        assert forall|a: int, b: int|
                            0 <= a < new_items.len() && 0 <= b < new_items.len() && a != b
                            implies #[trigger] new_items[a].0@ != #[trigger] new_items[b].0@ by {
                            lemma_lex_irreflexive(new_items[a].0@);
                            if a < b {
                                assert(lex_less(new_items[a].0@, new_items[b].0@));
                            } else {
                                assert(lex_less(new_items[b].0@, new_items[a].0@));
                            }
                        }
                    }
                    lemma_insert_at(old_items, new_items, p as int, k, value);
                }
            },
        }
        self.items = items;
    }

    /// Build a map by inserting the pairs one after the other; for a name that
    /// occurs more than once, the last pair wins.
    pub fn from_pairs(pairs: Vec<(String, V)>) -> (m: Self)
        ensures
            m@ == insert_all(pairs@),
    {
        let mut m = NameMap::new();
        let ghost all = pairs@;
        let mut pairs = pairs;
        let total = pairs.len();
        assert(m@ =~= insert_all(all.take(0)));
        let mut i: usize = 0;
        while pairs.len() > 0
            invariant
                total == all.len(),
                i + pairs@.len() == all.len(),
                pairs@ == all.skip(i as int),
                m@ == insert_all(all.take(i as int)),
            decreases pairs@.len(),
        {
            let (name, value) = pairs.remove(0);
            proof {
                assert(all.take(i + 1).drop_last() =~= all.take(i as int));
                assert(pairs@ =~= all.skip(i + 1));
            }
            m.insert(name, value);
            i += 1;
        }
        assert(all.take(all.len() as int) =~= all);
        m
    }
}

/// With distinct names, inserting the pairs one after the other builds the
/// map the pairs stand for.
pub proof fn lemma_insert_all_distinct<V>(items: Seq<(String, V)>)
    requires
        names_distinct(items),
    ensures
        insert_all(items) == map_of_pairs(items),
    decreases items.len(),
{
    if items.len() == 0 {
        assert(map_of_pairs(items) =~= Map::<Seq<char>, V>::empty());
    } else {
        let init = items.drop_last();
        assert(names_distinct(init)) by {
            assert forall|a: int, b: int|
                0 <= a < init.len() && 0 <= b < init.len() && a != b
                implies #[trigger] init[a].0@ != #[trigger] init[b].0@ by {
                assert(items[a].0@ != items[b].0@);
            }
        }
        lemma_insert_all_distinct(init);
        let k = items.last().0@;
        assert(!has_name(init, k)) by {
            if has_name(init, k) {
                let j = choose|j: int| 0 <= j < init.len() && #[trigger] init[j].0@ == k;
                assert(items[j].0@ == items[items.len() - 1].0@);
            }
        }
        lemma_insert_push(init, items, k, items.last().1);
    }
}

/// The number of names equals the number of pairs when names are distinct.
proof fn lemma_dom_len<V>(items: Seq<(String, V)>)
    requires
        names_distinct(items),
    ensures
        map_of_pairs(items).dom().len() == items.len(),
        map_of_pairs(items).dom().finite(),
    decreases items.len(),
{
    let m = map_of_pairs(items);
    if items.len() == 0 {
        assert(m.dom() =~= Set::empty());
    } else {
        let init = items.drop_last();
        assert(names_distinct(init)) by {
            assert forall|a: int, b: int|
                0 <= a < init.len() && 0 <= b < init.len() && a != b
                implies #[trigger] init[a].0@ != #[trigger] init[b].0@ by {
                assert(items[a].0@ != items[b].0@);
            }
        }
        lemma_dom_len(init);
        let k = items.last().0@;
        assert(m.dom() =~= map_of_pairs(init).dom().insert(k)) by {
            assert forall|x: Seq<char>| m.dom().contains(x) <==> map_of_pairs(init).dom().insert(
                k,
            ).contains(x) by {
                if has_name(items, x) && x != k {
                    let j = choose|j: int| 0 <= j < items.len() && #[trigger] items[j].0@ == x;
                    assert(j < init.len());
                    assert(init[j].0@ == x);
                }
                if has_name(init, x) {
                    let j = choose|j: int| 0 <= j < init.len() && #[trigger] init[j].0@ == x;
                    assert(items[j].0@ == x);
                }
                if x == k {
                    assert(items[items.len() - 1].0@ == k);
                }
            }
        }
        assert(!map_of_pairs(init).dom().contains(k)) by {
            if has_name(init, k) {
                let j = choose|j: int| 0 <= j < init.len() && #[trigger] init[j].0@ == k;
                assert(items[j].0@ == items[items.len() - 1].0@);
            }
        }
    }
}

/// Replacing the value of the pair at `i` (same name) updates the map there.
proof fn lemma_insert_replace<V>(
    old_items: Seq<(String, V)>,
    new_items: Seq<(String, V)>,
    i: int,
    k: Seq<char>,
    value: V,
)
    requires
        names_distinct(old_items),
        names_distinct(new_items),
        0 <= i < old_items.len(),
        old_items[i].0@ == k,
        new_items.len() == old_items.len(),
        new_items[i].0@ == k,
        new_items[i].1 == value,
        forall|j: int| 0 <= j < old_items.len() && j != i ==> new_items[j] == old_items[j],
    ensures
        map_of_pairs(new_items) == map_of_pairs(old_items).insert(k, value),
{
    let m0 = map_of_pairs(old_items);
    let m1 = map_of_pairs(new_items);
    assert forall|x: Seq<char>| #[trigger] m1.contains_key(x) <==> m0.insert(k, value).contains_key(x) by {
        if has_name(new_items, x) {
            let j = choose|j: int| 0 <= j < new_items.len() && #[trigger] new_items[j].0@ == x;
            if j != i {
                assert(old_items[j].0@ == x);
            }
        }
        if has_name(old_items, x) {
            let j = choose|j: int| 0 <= j < old_items.len() && #[trigger] old_items[j].0@ == x;
            if j != i {
                assert(new_items[j].0@ == x);
            } else {
                assert(new_items[i].0@ == x);
            }
        }
        if x == k {
            assert(new_items[i].0@ == x);
        }
    }
    assert forall|x: Seq<char>| #[trigger] m1.contains_key(x) implies m1[x] == m0.insert(k, value)[x] by {
        let j = choose|j: int| 0 <= j < new_items.len() && #[trigger] new_items[j].0@ == x;
        lemma_map_of_pairs_at(new_items, j);
        if j != i {
            lemma_map_of_pairs_at(old_items, j);
        }
    }
    assert(m1 =~= m0.insert(k, value));
}

/// Inserting a pair with a new name at position `p` adds that name to the map.
proof fn lemma_insert_at<V>(
    old_items: Seq<(String, V)>,
    new_items: Seq<(String, V)>,
    p: int,
    k: Seq<char>,
    value: V,
)
    requires
        names_distinct(old_items),
        names_distinct(new_items),
        !has_name(old_items, k),
        0 <= p <= old_items.len(),
        new_items.len() == old_items.len() + 1,
        new_items[p].0@ == k,
        new_items[p].1 == value,
        forall|j: int| 0 <= j < p ==> new_items[j] == old_items[j],
        forall|j: int| p < j < new_items.len() ==> new_items[j] == old_items[j - 1],
    ensures
        map_of_pairs(new_items) == map_of_pairs(old_items).insert(k, value),
{
    let m0 = map_of_pairs(old_items);
    let m1 = map_of_pairs(new_items);
    assert forall|x: Seq<char>| #[trigger] m1.contains_key(x) <==> m0.insert(k, value).contains_key(x) by {
        if has_name(new_items, x) {
            let j = choose|j: int| 0 <= j < new_items.len() && #[trigger] new_items[j].0@ == x;
            if j < p {
                assert(old_items[j].0@ == x);
            } else if j > p {
                assert(old_items[j - 1].0@ == x);
            }
        }
        if has_name(old_items, x) {
            let j = choose|j: int| 0 <= j < old_items.len() && #[trigger] old_items[j].0@ == x;
            if j < p {
                assert(new_items[j].0@ == x);
            } else {
                assert(new_items[j + 1].0@ == x);
            }
        }
        if x == k {
            assert(new_items[p].0@ == x);
        }
    }
    assert forall|x: Seq<char>| #[trigger] m1.contains_key(x) implies m1[x] == m0.insert(k, value)[x] by {
        let j = choose|j: int| 0 <= j < new_items.len() && #[trigger] new_items[j].0@ == x;
        lemma_map_of_pairs_at(new_items, j);
        if j < p {
            lemma_map_of_pairs_at(old_items, j);
        } else if j > p {
            lemma_map_of_pairs_at(old_items, j - 1);
        }
    }
    assert(m1 =~= m0.insert(k, value));
}

/// Appending a pair with a new name adds that name to the map.
proof fn lemma_insert_push<V>(
    old_items: Seq<(String, V)>,
    new_items: Seq<(String, V)>,
    k: Seq<char>,
    value: V,
)
    requires
        names_distinct(old_items),
        names_distinct(new_items),
        !has_name(old_items, k),
        new_items.len() == old_items.len() + 1,
        new_items.last().0@ == k,
        new_items.last().1 == value,
        forall|j: int| 0 <= j < old_items.len() ==> new_items[j] == old_items[j],
    ensures
        map_of_pairs(new_items) == map_of_pairs(old_items).insert(k, value),
{
    let m0 = map_of_pairs(old_items);
    let m1 = map_of_pairs(new_items);
    let last = old_items.len() as int;
    assert forall|x: Seq<char>| #[trigger] m1.contains_key(x) <==> m0.insert(k, value).contains_key(x) by {
        if has_name(new_items, x) {
            let j = choose|j: int| 0 <= j < new_items.len() && #[trigger] new_items[j].0@ == x;
            if j != last {
                assert(old_items[j].0@ == x);
            }
        }
        if has_name(old_items, x) {
            let j = choose|j: int| 0 <= j < old_items.len() && #[trigger] old_items[j].0@ == x;
            assert(new_items[j].0@ == x);
        }
        if x == k {
            assert(new_items[last].0@ == x);
        }
    }
    assert forall|x: Seq<char>| #[trigger] m1.contains_key(x) implies m1[x] == m0.insert(k, value)[x] by {
        let j = choose|j: int| 0 <= j < new_items.len() && #[trigger] new_items[j].0@ == x;
        lemma_map_of_pairs_at(new_items, j);
        if j != last {
            lemma_map_of_pairs_at(old_items, j);
        }
    }
    assert(m1 =~= m0.insert(k, value));
}

} // verus!
