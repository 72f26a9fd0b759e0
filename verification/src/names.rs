//! A map from names to values, held in the order of the names.

use vstd::prelude::*;

use crate::text::{chars_of, same_text};

verus! {

/// Lexicographic order by character, the order in which names are listed.
pub open spec fn before(a: Seq<char>, b: Seq<char>) -> bool
    decreases a.len(),
{
    if b.len() == 0 {
        false
    } else if a.len() == 0 {
        true
    } else if a[0] != b[0] {
        a[0] < b[0]
    } else {
        before(a.drop_first(), b.drop_first())
    }
}

/// No name stands before itself.
pub proof fn before_is_irreflexive(a: Seq<char>)
    ensures
        !before(a, a),
    decreases a.len(),
{
    if a.len() > 0 {
        before_is_irreflexive(a.drop_first());
    }
}

/// Where one name stands before a second and the second before a third, the
/// first stands before the third.
pub proof fn before_is_transitive(a: Seq<char>, b: Seq<char>, c: Seq<char>)
    requires
        before(a, b),
        before(b, c),
    ensures
        before(a, c),
    decreases a.len(),
{
    if a.len() > 0 && b.len() > 0 && c.len() > 0 && a[0] == b[0] && b[0] == c[0] {
        before_is_transitive(a.drop_first(), b.drop_first(), c.drop_first());
    }
}

/// Of two different names one stands before the other.
pub proof fn before_is_total(a: Seq<char>, b: Seq<char>)
    requires
        a != b,
    ensures
        before(a, b) || before(b, a),
    decreases a.len(),
{
    if a.len() > 0 && b.len() > 0 && a[0] == b[0] {
        if a.drop_first() == b.drop_first() {
            assert(a == seq![a[0]] + a.drop_first());
            assert(b == seq![b[0]] + b.drop_first());
        }
        before_is_total(a.drop_first(), b.drop_first());
    } else if a.len() == 0 && b.len() == 0 {
        assert(a == b);
    }
}

/// Whether `a` stands before `b`.
pub fn precedes(a: &str, b: &str) -> (r: bool)
    ensures
        r == before(a@, b@),
{
    let x = chars_of(a);
    let y = chars_of(b);
    let mut i: usize = 0;
    assert(x@.skip(0) == a@);
    assert(y@.skip(0) == b@);
    while i < x.len() && i < y.len()
        invariant
            i <= x@.len(),
            i <= y@.len(),
            before(a@, b@) == before(x@.skip(i as int), y@.skip(i as int)),
        decreases x@.len() - i,
    {
        if x[i] != y[i] {
            return x[i] < y[i];
        }
        assert(x@.skip(i as int).drop_first() == x@.skip(i + 1));
        assert(y@.skip(i as int).drop_first() == y@.skip(i + 1));
        i += 1;
    }
    i < y.len()
}

/// The names of a listing stand in strictly ascending order.
pub open spec fn ascending<V>(listing: Seq<(Seq<char>, V)>) -> bool {
    forall|i: int, j: int|
        0 <= i < j < listing.len() ==> before((#[trigger] listing[i]).0, (#[trigger] listing[j]).0)
}

/// A position at which `name` stands in a listing, where it stands in it.
pub open spec fn place<V>(listing: Seq<(Seq<char>, V)>, name: Seq<char>) -> int {
    choose|i: int| 0 <= i < listing.len() && (#[trigger] listing[i]).0 == name
}

/// The map that a listing stands for.
pub open spec fn listed<V>(listing: Seq<(Seq<char>, V)>) -> Map<Seq<char>, V> {
    Map::new(
        |name: Seq<char>| exists|i: int| 0 <= i < listing.len() && (#[trigger] listing[i]).0 == name,
        |name: Seq<char>| listing[place(listing, name)].1,
    )
}

/// In an ascending listing a name has one place.
proof fn listed_at<V>(listing: Seq<(Seq<char>, V)>, i: int)
    requires
        ascending(listing),
        0 <= i < listing.len(),
    ensures
        listed(listing).dom().contains(listing[i].0),
        listed(listing)[listing[i].0] == listing[i].1,
{
    let name = listing[i].0;
    let k = place(listing, name);
    if k != i {
        before_is_irreflexive(name);
        assert(before(listing[i].0, listing[k].0) || before(listing[k].0, listing[i].0));
    }
}

/// A map from names to values. The names are held in ascending order, and no
/// name occurs twice.
#[derive(Debug)]
pub struct NameMap<V> {
    entries: Vec<(String, V)>,
}

impl<V> NameMap<V> {
    /// The names with their values, in ascending order of the names.
    pub closed spec fn listing(self) -> Seq<(Seq<char>, V)> {
        self.entries@.map_values(|e: (String, V)| (e.0@, e.1))
    }

    /// The map that this stands for.
    pub open spec fn view(&self) -> Map<Seq<char>, V> {
        listed(self.listing())
    }

    #[verifier::type_invariant]
    spec fn well_formed(self) -> bool {
        ascending(self.listing())
    }

    /// The map without entries.
    pub fn new() -> (map: NameMap<V>)
        ensures
            map.listing() == Seq::<(Seq<char>, V)>::empty(),
            map@ == Map::<Seq<char>, V>::empty(),
    {
        let map = NameMap { entries: Vec::new() };
        assert(map.listing() =~= Seq::<(Seq<char>, V)>::empty());
        assert(map@ =~= Map::<Seq<char>, V>::empty());
        map
    }

    /// The number of names.
    pub fn len(&self) -> (n: usize)
        ensures
            n == self.listing().len(),
            ascending(self.listing()),
    {
        proof {
            use_type_invariant(self);
        }
        self.entries.len()
    }

    /// The name at position `i` of the listing.
    pub fn name(&self, i: usize) -> (name: &String)
        requires
            i < self.listing().len(),
        ensures
            name@ == self.listing()[i as int].0,
    {
        &self.entries[i].0
    }

    /// The value at position `i` of the listing.
    pub fn value(&self, i: usize) -> (value: &V)
        requires
            i < self.listing().len(),
        ensures
            *value == self.listing()[i as int].1,
    {
        &self.entries[i].1
    }

    /// The value under `name`, where there is one.
    pub fn get(&self, name: &str) -> (value: Option<&V>)
        ensures
            match value {
                Some(v) => self@.dom().contains(name@) && *v == self@[name@],
                None => !self@.dom().contains(name@),
            },
    {
        proof {
            use_type_invariant(self);
        }
        let mut i: usize = 0;
        while i < self.entries.len()
            invariant
                i <= self.entries@.len(),
                ascending(self.listing()),
                self.listing().len() == self.entries@.len(),
                forall|k: int| 0 <= k < i ==> (#[trigger] self.listing()[k]).0 != name@,
            decreases self.entries@.len() - i,
        {
            assert(self.listing()[i as int].0 == self.entries@[i as int].0@);
            if same_text(self.entries[i].0.as_str(), name) {
                proof {
                    listed_at(self.listing(), i as int);
                }
                return Some(&self.entries[i].1);
            }
            i += 1;
        }
        None
    }

    /// This map with `name` set to `value`.
    pub fn with(self, name: &str, value: V) -> (map: NameMap<V>)
        ensures
            map@ == self@.insert(name@, value),
    {
        proof {
            use_type_invariant(&self);
        }
        let ghost old = self.listing();
        let mut entries = self.entries;
        let mut i: usize = 0;
        while i < entries.len() && precedes(entries[i].0.as_str(), name)
            invariant
                i <= entries@.len(),
                entries == self.entries,
                old == self.listing(),
                forall|k: int| 0 <= k < i ==> before((#[trigger] old[k]).0, name@),
            decreases entries@.len() - i,
        {
            assert(old[i as int].0 == entries@[i as int].0@);
            i += 1;
        }
        if i < entries.len() && same_text(entries[i].0.as_str(), name) {
            assert(old[i as int].0 == name@);
            entries[i] = (name.to_owned(), value);
            proof {
                let new = (NameMap { entries }).listing();
                assert(new =~= old.update(i as int, (name@, value)));
                assert(ascending(new));
                assert(listed(new) =~= listed(old).insert(name@, value)) by {
                    set_in_place(old, i as int, value);
                }
            }
            NameMap { entries }
        } else {
            proof {
                if i < entries@.len() {
                    assert(old[i as int].0 == entries@[i as int].0@);
                    before_is_total(old[i as int].0, name@);
                    assert forall|k: int| i <= k < old.len() implies before(
                        name@,
                        (#[trigger] old[k]).0,
                    ) by {
                        if k > i {
                            before_is_transitive(name@, old[i as int].0, old[k].0);
                        }
                    }
                }
            }
            entries.insert(i, (name.to_owned(), value));
            proof {
                let new = (NameMap { entries }).listing();
                assert(new =~= old.insert(i as int, (name@, value)));
                set_in_between(old, i as int, name@, value);
            }
            NameMap { entries }
        }
    }
}

impl<V: Clone> Clone for NameMap<V> {
    fn clone(&self) -> (copy: NameMap<V>)
        ensures
            copy.listing().len() == self.listing().len(),
            forall|i: int|
                0 <= i < self.listing().len() ==> {
                    &&& (#[trigger] copy.listing()[i]).0 == self.listing()[i].0
                    &&& cloned(self.listing()[i].1, copy.listing()[i].1)
                },
    {
        proof {
            use_type_invariant(self);
        }
        let mut entries: Vec<(String, V)> = Vec::new();
        let mut i: usize = 0;
        while i < self.entries.len()
            invariant
                i <= self.entries@.len(),
                entries@.len() == i,
                forall|k: int|
                    0 <= k < i ==> {
                        &&& (#[trigger] entries@[k]).0@ == self.entries@[k].0@
                        &&& cloned(self.entries@[k].1, entries@[k].1)
                    },
            decreases self.entries@.len() - i,
        {
            let name = self.entries[i].0.clone();
            let value = self.entries[i].1.clone();
            entries.push((name, value));
            i += 1;
        }
        proof {
            let new = (NameMap { entries }).listing();
            assert forall|a: int, b: int| 0 <= a < b < new.len() implies before(
                (#[trigger] new[a]).0,
                (#[trigger] new[b]).0,
            ) by {
                assert(new[a].0 == self.listing()[a].0);
                assert(new[b].0 == self.listing()[b].0);
            }
        }
        NameMap { entries }
    }
}

/// Replacing the value at a position of an ascending listing sets that name.
proof fn set_in_place<V>(old: Seq<(Seq<char>, V)>, i: int, value: V)
    requires
        ascending(old),
        0 <= i < old.len(),
    ensures
        ascending(old.update(i, (old[i].0, value))),
        listed(old.update(i, (old[i].0, value))) == listed(old).insert(old[i].0, value),
{
    let new = old.update(i, (old[i].0, value));
    let name = old[i].0;
    let expected = listed(old).insert(name, value);
    assert forall|n: Seq<char>| listed(new).dom().contains(n) == expected.dom().contains(n) by {
        if listed(new).dom().contains(n) {
            let k = choose|k: int| 0 <= k < new.len() && (#[trigger] new[k]).0 == n;
            assert(old[k].0 == n);
        }
        if listed(old).dom().contains(n) {
            let k = choose|k: int| 0 <= k < old.len() && (#[trigger] old[k]).0 == n;
            assert(new[k].0 == n);
        }
        assert(new[i].0 == name);
    }
    assert forall|n: Seq<char>| listed(new).dom().contains(n) implies listed(new)[n]
        == expected[n] by {
        let k = choose|k: int| 0 <= k < new.len() && (#[trigger] new[k]).0 == n;
        listed_at(new, k);
        listed_at(old, k);
        if k != i && n == name {
            before_is_irreflexive(name);
            assert(before(old[i].0, old[k].0) || before(old[k].0, old[i].0));
        }
    }
    assert(listed(new) =~= expected);
}

/// Inserting a new name between its neighbours keeps the listing ascending and
/// sets that name.
proof fn set_in_between<V>(old: Seq<(Seq<char>, V)>, i: int, name: Seq<char>, value: V)
    requires
        ascending(old),
        0 <= i <= old.len(),
        forall|k: int| 0 <= k < i ==> before((#[trigger] old[k]).0, name),
        forall|k: int| i <= k < old.len() ==> before(name, (#[trigger] old[k]).0),
    ensures
        ascending(old.insert(i, (name, value))),
        listed(old.insert(i, (name, value))) == listed(old).insert(name, value),
{
    let new = old.insert(i, (name, value));
    assert forall|a: int, b: int| 0 <= a < b < new.len() implies before(
        (#[trigger] new[a]).0,
        (#[trigger] new[b]).0,
    ) by {
        let x = if a < i { a } else { a - 1 };
        let y = if b < i { b } else { b - 1 };
        if a != i && b != i {
            assert(new[a] == old[x]);
            assert(new[b] == old[y]);
        } else if a == i {
            assert(new[b] == old[y]);
        } else {
            assert(new[a] == old[x]);
        }
    }
    before_is_irreflexive(name);
    let expected = listed(old).insert(name, value);
    assert(new[i] == (name, value));
    assert forall|n: Seq<char>| listed(new).dom().contains(n) == expected.dom().contains(n) by {
        if listed(new).dom().contains(n) && n != name {
            let k = choose|k: int| 0 <= k < new.len() && (#[trigger] new[k]).0 == n;
            let x = if k < i { k } else { k - 1 };
            assert(old[x].0 == n);
        }
        if listed(old).dom().contains(n) {
            let k = choose|k: int| 0 <= k < old.len() && (#[trigger] old[k]).0 == n;
            let x = if k < i { k } else { k + 1 };
            assert(new[x].0 == n);
        }
    }
    assert forall|n: Seq<char>| listed(new).dom().contains(n) implies listed(new)[n]
        == expected[n] by {
        let k = choose|k: int| 0 <= k < new.len() && (#[trigger] new[k]).0 == n;
        listed_at(new, k);
        if k == i {
        } else {
            let x = if k < i { k } else { k - 1 };
            assert(new[k] == old[x]);
            listed_at(old, x);
            assert(n != name) by {
                if n == name {
                    assert(before(old[x].0, name) || before(name, old[x].0));
                }
            }
        }
    }
    assert(listed(new) =~= expected);
}

} // verus!
