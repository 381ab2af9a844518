//! A multiset of fruits.

use vstd::prelude::*;
use vstd::multiset::Multiset;
use vstd::std_specs::cmp::PartialEqSpecImpl;

use crate::fruit::{value_units_of, Fruit, FruitModel};

verus! {

broadcast use vstd::seq_lib::group_to_multiset_ensures, vstd::multiset::group_multiset_axioms;

/// The models of a sequence of fruits.
pub open spec fn models(s: Seq<Fruit>) -> Seq<FruitModel> {
    s.map_values(|f: Fruit| f@)
}

/// Total value (in units of 1/255) of the fruits in `m`, counted with multiplicity.
pub open spec fn multiset_value(m: Multiset<FruitModel>) -> nat
    decreases m.len(),
{
    if m.len() == 0 {
        0
    } else {
        let x = m.choose();
        value_units_of(x) + multiset_value(m.remove(x))
    }
}

/// Removing any element `y` of `m` lowers the value by exactly the value of `y`.
pub proof fn lemma_multiset_value_remove(m: Multiset<FruitModel>, y: FruitModel)
    requires
        m.count(y) > 0,
    ensures
        multiset_value(m) == value_units_of(y) + multiset_value(m.remove(y)),
    decreases m.len(),
{
    let c = m.choose();
    if c != y {
        assert(m.remove(c).count(y) > 0);
        assert(m.remove(y).count(c) > 0);
        lemma_multiset_value_remove(m.remove(c), y);
        lemma_multiset_value_remove(m.remove(y), c);
        assert(m.remove(c).remove(y) =~= m.remove(y).remove(c));
    }
}

/// Adding `x` to `m` raises the value by exactly the value of `x`.
pub proof fn lemma_multiset_value_insert(m: Multiset<FruitModel>, x: FruitModel)
    ensures
        multiset_value(m.insert(x)) == value_units_of(x) + multiset_value(m),
{
    lemma_multiset_value_remove(m.insert(x), x);
    assert(m.insert(x).remove(x) =~= m);
}

/// The empty multiset is worth nothing.
pub proof fn lemma_multiset_value_empty()
    ensures
        multiset_value(Multiset::<FruitModel>::empty()) == 0,
{
}

proof fn lemma_models_push(s: Seq<Fruit>, f: Fruit)
    ensures
        models(s.push(f)) == models(s).push(f@),
{
    assert(models(s.push(f)) =~= models(s).push(f@));
}

/// The sum of the counts of `entries`.
pub open spec fn listed_total(entries: Seq<(Fruit, usize)>) -> nat
    decreases entries.len(),
{
    if entries.len() == 0 {
        0
    } else {
        listed_total(entries.drop_last()) + entries.last().1 as nat
    }
}

/// Whether `entries` lists each fruit of `m` once, with its count.
pub open spec fn lists_counts(entries: Seq<(Fruit, usize)>, m: Multiset<FruitModel>) -> bool {
    &&& forall|i: int| 0 <= i < entries.len() ==> #[trigger] entries[i].1 == m.count(entries[i].0@)
    &&& forall|i: int, j: int| 0 <= i < j < entries.len() ==> entries[i].0@ != entries[j].0@
    &&& forall|v: FruitModel| m.count(v) > 0 ==> exists|i: int|
        0 <= i < entries.len() && #[trigger] entries[i].0@ == v
}

proof fn lemma_clear_len(m: Multiset<FruitModel>, f: FruitModel, n: nat)
    requires
        m.count(f) == n,
    ensures
        m.update(f, 0).len() + n == m.len(),
    decreases n,
{
    broadcast use vstd::multiset::lemma_update_same, vstd::multiset::lemma_update_different;

    if n == 0 {
        assert(m.update(f, 0) =~= m);
    } else {
        let m1 = m.remove(f);
        assert forall|v: FruitModel| Multiset::singleton(f).count(v) <= m.count(v) by {
            if v != f {
                assert(Multiset::singleton(f).count(v) == 0);
            }
        }
        assert(m1.len() == m.len() - 1);
        lemma_clear_len(m1, f, (n - 1) as nat);
        assert(m1.update(f, 0) =~= m.update(f, 0));
    }
}

/// A listing of each fruit of `m` once with its count adds up to the size of `m`.
pub proof fn lemma_listed_total(entries: Seq<(Fruit, usize)>, m: Multiset<FruitModel>)
    requires
        lists_counts(entries, m),
    ensures
        listed_total(entries) == m.len(),
    decreases entries.len(),
{
    broadcast use vstd::multiset::lemma_update_same, vstd::multiset::lemma_update_different;

    if entries.len() == 0 {
        assert(m =~= Multiset::empty()) by {
            assert forall|v: FruitModel| m.count(v) == 0 by {
                if m.count(v) > 0 {
                    let i = choose|i: int| 0 <= i < entries.len() && #[trigger] entries[i].0@ == v;
                }
            }
        }
    } else {
        let k = entries.len() - 1;
        let e = entries[k];
        let p = entries.drop_last();
        let m2 = m.update(e.0@, 0);
        assert(e.1 == m.count(e.0@));
        lemma_clear_len(m, e.0@, e.1 as nat);
        assert forall|i: int| 0 <= i < p.len() implies #[trigger] p[i].1 == m2.count(p[i].0@) by {
            assert(p[i] == entries[i]);
            assert(entries[i].0@ != entries[k].0@);
        }
        assert forall|v: FruitModel| m2.count(v) > 0 implies exists|i: int|
            0 <= i < p.len() && #[trigger] p[i].0@ == v by {
            assert(v != e.0@);
            let i = choose|i: int| 0 <= i < entries.len() && #[trigger] entries[i].0@ == v;
            assert(i != k);
            assert(p[i] == entries[i]);
        }
        assert forall|i: int, j: int| 0 <= i < j < p.len() implies p[i].0@ != p[j].0@ by {
            assert(p[i] == entries[i] && p[j] == entries[j]);
        }
        lemma_listed_total(p, m2);
    }
}

/// A multiset of [`Fruit`], tracking how many of each fruit are held.
#[derive(Debug)]
pub struct Bag {
    items: Vec<Fruit>,
}

impl View for Bag {
    type V = Multiset<FruitModel>;

    closed spec fn view(&self) -> Multiset<FruitModel> {
        models(self.items@).to_multiset()
    }
}

/// Whether some entry holds the fruit `f`.
fn entries_contain(entries: &Vec<(Fruit, usize)>, f: &Fruit) -> (found: bool)
    ensures
        found == exists|i: int| 0 <= i < entries@.len() && entries@[i].0@ == f@,
{
    let mut j: usize = 0;
    while j < entries.len()
        invariant
            j <= entries@.len(),
            forall|i: int| 0 <= i < j ==> entries@[i].0@ != f@,
        decreases entries@.len() - j,
    {
        if entries[j].0.same(f) {
            return true;
        }
        j = j + 1;
    }
    false
}

impl Bag {
    /// Creates an empty bag.
    pub fn new() -> (b: Bag)
        ensures
            b@ == Multiset::<FruitModel>::empty(),
    {
        let b = Bag { items: Vec::new() };
        assert(models(b.items@) =~= Seq::<FruitModel>::empty());
        assert(b@ =~= Multiset::<FruitModel>::empty());
        b
    }

    /// Adds one instance of `fruit` and returns the bag for chaining.
    pub fn insert(self, fruit: Fruit) -> (b: Bag)
        ensures
            b@ == self@.insert(fruit@),
    {
        let mut b = self;
        let ghost old_items = b.items@;
        b.items.push(fruit);
        proof {
            lemma_models_push(old_items, fruit);
        }
        b
    }

    /// Adds one instance of `fruit` in place.
    pub fn add(&mut self, fruit: Fruit)
        ensures
            final(self)@ == old(self)@.insert(fruit@),
    {
        let ghost old_items = self.items@;
        self.items.push(fruit);
        proof {
            lemma_models_push(old_items, fruit);
        }
    }

    /// Position of the first instance of `fruit`, if any.
    fn position(&self, fruit: &Fruit) -> (r: Option<usize>)
        ensures
            match r {
                Some(i) => i < self.items@.len() && self.items@[i as int]@ == fruit@,
                None => self@.count(fruit@) == 0,
            },
    {
        let mut i: usize = 0;
        while i < self.items.len()
            invariant
                i <= self.items@.len(),
                forall|k: int| 0 <= k < i ==> self.items@[k]@ != fruit@,
            decreases self.items@.len() - i,
        {
            if self.items[i].same(fruit) {
                return Some(i);
            }
            i = i + 1;
        }
        assert(!models(self.items@).contains(fruit@)) by {
            if models(self.items@).contains(fruit@) {
                let k = choose|k: int| 0 <= k < models(self.items@).len() && models(self.items@)[k] == fruit@;
                assert(self.items@[k]@ == fruit@);
            }
        }
        None
    }

    /// Removes one instance of `fruit`. Returns `false` if the fruit was not present.
    pub fn remove(&mut self, fruit: Fruit) -> (removed: bool)
        ensures
            removed == (old(self)@.count(fruit@) > 0),
            final(self)@ == old(self)@.remove(fruit@),
    {
        match self.position(&fruit) {
            None => {
                assert(self@ =~= self@.remove(fruit@));
                false
            },
            Some(i) => {
                let ghost old_items = self.items@;
                proof {
                    assert(models(old_items)[i as int] == fruit@);
                    assert(models(old_items).contains(fruit@));
                    assert(models(old_items.remove(i as int)) =~= models(old_items).remove(i as int));
                }
                self.items.remove(i);
                true
            },
        }
    }

    /// Returns the number of instances of `fruit` in the bag.
    pub fn count(&self, fruit: Fruit) -> (n: usize)
        ensures
            n == self@.count(fruit@),
    {
        let mut n: usize = 0;
        let mut i: usize = 0;
        while i < self.items.len()
            invariant
                i <= self.items@.len(),
                n <= i,
                n == models(self.items@.subrange(0, i as int)).to_multiset().count(fruit@),
            decreases self.items@.len() - i,
        {
            proof {
                assert(self.items@.subrange(0, i + 1) =~= self.items@.subrange(0, i as int).push(
                    self.items@[i as int],
                ));
                lemma_models_push(self.items@.subrange(0, i as int), self.items@[i as int]);
            }
            if self.items[i].same(&fruit) {
                n = n + 1;
            }
            i = i + 1;
        }
        assert(self.items@.subrange(0, i as int) =~= self.items@);
        n
    }

    /// Returns the total number of fruits in the bag (with multiplicity).
    pub fn total(&self) -> (n: usize)
        ensures
            n == self@.len(),
    {
        self.items.len()
    }

    /// Returns `true` if the bag contains no fruits.
    pub fn is_empty(&self) -> (r: bool)
        ensures
            r == (self@.len() == 0),
    {
        self.items.len() == 0
    }

    /// Each distinct fruit held, paired with its count.
    pub fn iter(&self) -> (entries: Vec<(Fruit, usize)>)
        ensures
            forall|i: int| 0 <= i < entries@.len() ==> #[trigger] entries@[i].1 > 0,
            forall|i: int|
                0 <= i < entries@.len() ==> #[trigger] entries@[i].1 == self@.count(entries@[i].0@),
            forall|i: int, j: int|
                0 <= i < j < entries@.len() ==> entries@[i].0@ != entries@[j].0@,
            forall|v: FruitModel| self@.count(v) > 0 ==> exists|i: int|
                0 <= i < entries@.len() && #[trigger] entries@[i].0@ == v,
            listed_total(entries@) == self@.len(),
    {
        let mut entries: Vec<(Fruit, usize)> = Vec::new();
        let mut k: usize = 0;
        while k < self.items.len()
            invariant
                k <= self.items@.len(),
                forall|i: int| 0 <= i < entries@.len() ==> #[trigger] entries@[i].1 > 0,
                forall|i: int|
                    0 <= i < entries@.len() ==> #[trigger] entries@[i].1 == self@.count(entries@[i].0@),
                forall|i: int, j: int|
                    0 <= i < j < entries@.len() ==> entries@[i].0@ != entries@[j].0@,
                forall|m: int|
                    #![trigger self.items@[m]]
                    0 <= m < k ==> exists|i: int|
                        #![trigger entries@[i]]
                        0 <= i < entries@.len() && entries@[i].0@ == self.items@[m]@,
            decreases self.items@.len() - k,
        {
            let f = self.items[k];
            let found = entries_contain(&entries, &f);
            let ghost old_entries = entries@;
            if !found {
                proof {
                    assert(models(self.items@)[k as int] == f@);
                }
                let c = self.count(f);
                entries.push((f, c));
                proof {
                    assert(entries@[old_entries.len() as int].0@ == f@);
                }
            }
            proof {
                assert forall|m: int|
                    #![trigger self.items@[m]]
                    0 <= m < k + 1 implies exists|i: int|
                        #![trigger entries@[i]]
                        0 <= i < entries@.len() && entries@[i].0@ == self.items@[m]@ by {
                    if m < k {
                        let i = choose|i: int|
                            #![trigger old_entries[i]]
                            0 <= i < old_entries.len() && old_entries[i].0@ == self.items@[m]@;
                        assert(entries@[i] == old_entries[i]);
                    } else if found {
                        let i = choose|i: int| 0 <= i < old_entries.len() && old_entries[i].0@ == f@;
                        assert(entries@[i] == old_entries[i]);
                    } else {
                        assert(entries@[old_entries.len() as int].0@ == f@);
                    }
                }
            }
            k = k + 1;
        }
        proof {
            assert forall|v: FruitModel| self@.count(v) > 0 implies exists|i: int|
                0 <= i < entries@.len() && #[trigger] entries@[i].0@ == v by {
                assert(models(self.items@).contains(v));
                let m = choose|m: int| 0 <= m < models(self.items@).len() && models(self.items@)[m] == v;
                assert(self.items@[m]@ == v);
            }
            lemma_listed_total(entries@, self@);
        }
        entries
    }

    /// Total value of the bag in units of 1/255 (each fruit's value times its count).
    pub fn value_units(&self) -> (v: u128)
        ensures
            v == multiset_value(self@),
            v <= 5100 * (usize::MAX as nat),
    {
        let mut v: u128 = 0;
        let mut i: usize = 0;
        while i < self.items.len()
            invariant
                i <= self.items@.len(),
                v <= 5100 * i,
                v == multiset_value(models(self.items@.subrange(0, i as int)).to_multiset()),
            decreases self.items@.len() - i,
        {
            proof {
                assert(self.items@.subrange(0, i + 1) =~= self.items@.subrange(0, i as int).push(
                    self.items@[i as int],
                ));
                lemma_models_push(self.items@.subrange(0, i as int), self.items@[i as int]);
                lemma_multiset_value_insert(
                    models(self.items@.subrange(0, i as int)).to_multiset(),
                    self.items@[i as int]@,
                );
            }
            v = v + self.items[i].value_units() as u128;
            i = i + 1;
        }
        assert(self.items@.subrange(0, i as int) =~= self.items@);
        v
    }
}

impl Default for Bag {
    /// An empty bag, as [`Bag::new`] gives.
    fn default() -> (b: Bag)
        ensures
            b@ == Multiset::<FruitModel>::empty(),
    {
        Bag::new()
    }
}

impl PartialEq for Bag {
    fn eq(&self, other: &Bag) -> (r: bool) {
        let mut i: usize = 0;
        while i < self.items.len()
            invariant
                i <= self.items@.len(),
                forall|k: int| 0 <= k < i ==> self@.count(#[trigger] self.items@[k]@) == other@.count(
                    self.items@[k]@,
                ),
            decreases self.items@.len() - i,
        {
            if self.count(self.items[i]) != other.count(self.items[i]) {
                return false;
            }
            i = i + 1;
        }
        let mut j: usize = 0;
        while j < other.items.len()
            invariant
                j <= other.items@.len(),
                forall|k: int| 0 <= k < j ==> other@.count(#[trigger] other.items@[k]@) == self@.count(
                    other.items@[k]@,
                ),
            decreases other.items@.len() - j,
        {
            if self.count(other.items[j]) != other.count(other.items[j]) {
                return false;
            }
            j = j + 1;
        }
        proof {
            assert forall|v: FruitModel| self@.count(v) == other@.count(v) by {
                if self@.count(v) > 0 {
                    assert(models(self.items@).contains(v));
                    let m = choose|m: int| 0 <= m < models(self.items@).len() && models(self.items@)[m] == v;
                    assert(self.items@[m]@ == v);
                } else if other@.count(v) > 0 {
                    assert(models(other.items@).contains(v));
                    let m = choose|m: int| 0 <= m < models(other.items@).len() && models(other.items@)[m] == v;
                    assert(other.items@[m]@ == v);
                }
            }
            assert(self@ =~= other@);
        }
        true
    }
}

impl PartialEqSpecImpl for Bag {
    open spec fn obeys_eq_spec() -> bool {
        true
    }

    open spec fn eq_spec(&self, other: &Bag) -> bool {
        self@ == other@
    }
}

impl Eq for Bag {
}

impl Clone for Bag {
    fn clone(&self) -> (b: Bag)
        ensures
            b@ == self@,
    {
        let items = self.items.clone();
        assert(items@ =~= self.items@);
        Bag { items }
    }
}

} // verus!
