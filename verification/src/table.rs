//! Small keyed tables that remember the order in which keys came.
use vstd::prelude::*;

use crate::bytes::Bytes;

verus! {

/// What a table can be keyed by: a value that stands for its identity.
pub trait Key: Sized {
    type Id;

    spec fn id(&self) -> Self::Id;

    fn matches(&self, other: &Self) -> (r: bool)
        ensures
            r == (self.id() == other.id()),
    ;
}

impl Key for String {
    type Id = Seq<char>;

    open spec fn id(&self) -> Seq<char> {
        self@
    }

    fn matches(&self, other: &Self) -> (r: bool) {
        *self == *other
    }
}

impl Key for Bytes {
    type Id = Seq<u8>;

    open spec fn id(&self) -> Seq<u8> {
        self@
    }

    fn matches(&self, other: &Self) -> (r: bool) {
        self.same(other)
    }
}

/// The value of the first entry with a key.
pub open spec fn lookup<K: Key, V>(entries: Seq<(K, V)>, id: K::Id) -> Option<V>
    decreases entries.len(),
{
    if entries.len() == 0 {
        None
    } else if entries[0].0.id() == id {
        Some(entries[0].1)
    } else {
        lookup(entries.drop_first(), id)
    }
}

/// Values, each once, in the order in which they first appear.
pub open spec fn distinct<T>(values: Seq<T>) -> Seq<T>
    decreases values.len(),
{
    if values.len() == 0 {
        seq![]
    } else {
        let before = distinct(values.drop_last());
        if before.contains(values.last()) {
            before
        } else {
            before.push(values.last())
        }
    }
}

/// Distinct values are the values, and none of them occurs twice.
pub proof fn distinct_values_are_distinct<T>(values: Seq<T>)
    ensures
        distinct(values).no_duplicates(),
        forall|v: T| #[trigger] distinct(values).contains(v) == values.contains(v),
    decreases values.len(),
{
    if values.len() > 0 {
        let front = values.drop_last();
        let before = distinct(front);
        let last = values.last();
        distinct_values_are_distinct(front);
        assert forall|v: T| #[trigger] distinct(values).contains(v) == values.contains(v) by {
            assert(before.contains(v) == front.contains(v));
            if values.contains(v) {
                let i = choose|i: int| 0 <= i < values.len() && values[i] == v;
                if i < front.len() {
                    assert(front[i] == v);
                    let k = choose|k: int| 0 <= k < before.len() && before[k] == v;
                    assert(distinct(values)[k] == v);
                } else if !before.contains(last) {
                    assert(distinct(values)[before.len() as int] == v);
                }
            }
            if distinct(values).contains(v) {
                let k = choose|k: int| 0 <= k < distinct(values).len() && distinct(values)[k] == v;
                if k < before.len() {
                    assert(before[k] == v);
                    let i = choose|i: int| 0 <= i < front.len() && front[i] == v;
                    assert(values[i] == v);
                } else {
                    assert(values[values.len() - 1] == v);
                }
            }
        }
    }
}

/// A table from keys to values.
#[derive(Debug)]
pub struct Table<K, V> {
    pub entries: Vec<(K, V)>,
}

impl<K: Key, V> View for Table<K, V> {
    type V = Map<K::Id, V>;

    open spec fn view(&self) -> Map<K::Id, V> {
        Map::new(
            |id: K::Id| lookup(self.entries@, id) is Some,
            |id: K::Id| lookup(self.entries@, id)->Some_0,
        )
    }
}

impl<K: Key, V> Table<K, V> {
    pub fn new() -> (r: Self)
        ensures
            r@ == Map::<K::Id, V>::empty(),
            r.entries@.len() == 0,
    {
        let r = Table { entries: Vec::new() };
        assert(r@ =~= Map::<K::Id, V>::empty());
        r
    }

    /// The position of the first entry with a key.
    fn position(&self, key: &K) -> (r: Option<usize>)
        ensures
            match r {
                Some(i) => i < self.entries@.len() && self.entries@[i as int].0.id() == key.id()
                    && forall|j: int| 0 <= j < i ==> self.entries@[j].0.id() != key.id(),
                None => forall|j: int|
                    0 <= j < self.entries@.len() ==> self.entries@[j].0.id() != key.id(),
            },
    {
        let mut i: usize = 0;
        while i < self.entries.len()
            invariant
                i <= self.entries@.len(),
                forall|j: int| 0 <= j < i ==> self.entries@[j].0.id() != key.id(),
            decreases self.entries@.len() - i,
        {
            if self.entries[i].0.matches(key) {
                return Some(i);
            }
            i += 1;
        }
        None
    }

    /// The value of a key.
    pub fn get(&self, key: &K) -> (r: Option<&V>)
        ensures
            match r {
                Some(value) => self@.dom().contains(key.id()) && *value == self@[key.id()],
                None => !self@.dom().contains(key.id()),
            },
    {
        match self.position(key) {
            Some(i) => {
                proof {
                    lookup_first(self.entries@, key.id(), i as int);
                }
                Some(&self.entries[i].1)
            },
            None => {
                proof {
                    lookup_absent(self.entries@, key.id());
                }
                None
            },
        }
    }

    pub fn contains(&self, key: &K) -> (r: bool)
        ensures
            r == self@.dom().contains(key.id()),
    {
        self.get(key).is_some()
    }

    /// Gives a key a value, in place of the one it had.
    pub fn insert(&mut self, key: K, value: V)
        ensures
            final(self)@ == old(self)@.insert(key.id(), value),
    {
        let ghost before = self.entries@;
        match self.position(&key) {
            Some(i) => {
                self.entries.set(i, (key, value));
                proof {
                    assert forall|id: K::Id| #[trigger]
                        lookup(self.entries@, id) == if id == key.id() {
                            Some(value)
                        } else {
                            lookup(before, id)
                        } by {
                        lookup_update(before, i as int, key, value, id);
                    }
                }
            },
            None => {
                self.entries.push((key, value));
                proof {
                    assert forall|id: K::Id| #[trigger]
                        lookup(self.entries@, id) == if id == key.id() {
                            Some(value)
                        } else {
                            lookup(before, id)
                        } by {
                        lookup_absent(before, key.id());
                        lookup_push(before, key, value, id);
                    }
                }
            },
        }
        assert(self@ =~= old(self)@.insert(key.id(), value));
    }

    /// Takes a key and its value out.
    pub fn remove(&mut self, key: &K)
        ensures
            final(self)@ == old(self)@.remove(key.id()),
    {
        let ghost before = self.entries@;
        let mut i: usize = 0;
        while i < self.entries.len()
            invariant
                i <= self.entries@.len(),
                forall|j: int| 0 <= j < i ==> self.entries@[j].0.id() != key.id(),
                forall|id: K::Id|
                    id != key.id() ==> #[trigger] lookup(self.entries@, id) == lookup(before, id),
            decreases self.entries@.len() - i,
        {
            if self.entries[i].0.matches(key) {
                let ghost current = self.entries@;
                let _ = self.entries.remove(i);
                proof {
                    assert forall|id: K::Id| id != key.id() implies #[trigger] lookup(
                        self.entries@,
                        id,
                    ) == lookup(before, id) by {
                        lookup_remove(current, i as int, id);
                    }
                }
            } else {
                i += 1;
            }
        }
        proof {
            lookup_absent(self.entries@, key.id());
            assert(self@ =~= old(self)@.remove(key.id()));
        }
    }
}

proof fn lookup_first<K: Key, V>(entries: Seq<(K, V)>, id: K::Id, i: int)
    requires
        0 <= i < entries.len(),
        entries[i].0.id() == id,
        forall|j: int| 0 <= j < i ==> entries[j].0.id() != id,
    ensures
        lookup(entries, id) == Some(entries[i].1),
    decreases i,
{
    if i > 0 {
        lookup_first(entries.drop_first(), id, i - 1);
    }
}

proof fn lookup_absent<K: Key, V>(entries: Seq<(K, V)>, id: K::Id)
    requires
        forall|j: int| 0 <= j < entries.len() ==> entries[j].0.id() != id,
    ensures
        lookup(entries, id) is None,
    decreases entries.len(),
{
    if entries.len() > 0 {
        lookup_absent(entries.drop_first(), id);
    }
}

proof fn lookup_update<K: Key, V>(entries: Seq<(K, V)>, i: int, key: K, value: V, id: K::Id)
    requires
        0 <= i < entries.len(),
        entries[i].0.id() == key.id(),
        forall|j: int| 0 <= j < i ==> entries[j].0.id() != key.id(),
    ensures
        lookup(entries.update(i, (key, value)), id) == if id == key.id() {
            Some(value)
        } else {
            lookup(entries, id)
        },
    decreases entries.len(),
{
    let after = entries.update(i, (key, value));
    if i > 0 {
        assert(after.drop_first() =~= entries.drop_first().update(i - 1, (key, value)));
        lookup_update(entries.drop_first(), i - 1, key, value, id);
    } else {
        assert(after.drop_first() =~= entries.drop_first());
    }
}

proof fn lookup_push<K: Key, V>(entries: Seq<(K, V)>, key: K, value: V, id: K::Id)
    ensures
        lookup(entries.push((key, value)), id) == match lookup(entries, id) {
            Some(v) => Some(v),
            None => if id == key.id() {
                Some(value)
            } else {
                None
            },
        },
    decreases entries.len(),
{
    let after = entries.push((key, value));
    if entries.len() > 0 {
        assert(after.drop_first() =~= entries.drop_first().push((key, value)));
        lookup_push(entries.drop_first(), key, value, id);
    } else {
        assert(lookup(after.drop_first(), id) is None);
    }
}

proof fn lookup_remove<K: Key, V>(entries: Seq<(K, V)>, i: int, id: K::Id)
    requires
        0 <= i < entries.len(),
        entries[i].0.id() != id,
    ensures
        lookup(entries.remove(i), id) == lookup(entries, id),
    decreases entries.len(),
{
    if i > 0 {
        assert(entries.remove(i).drop_first() =~= entries.drop_first().remove(i - 1));
        lookup_remove(entries.drop_first(), i - 1, id);
    } else {
        assert(entries.remove(i) =~= entries.drop_first());
    }
}

/// A table knows exactly the keys of its entries, and gives each the value of the first entry with it.
pub proof fn tables_answer_by_their_first_entry<K: Key, V>(table: Table<K, V>, id: K::Id)
    ensures
        table@.dom().contains(id) <==> exists|i: int|
            0 <= i < table.entries@.len() && (#[trigger] table.entries@[i]).0.id() == id,
        table@.dom().contains(id) ==> exists|i: int|
            0 <= i < table.entries@.len() && (#[trigger] table.entries@[i]).0.id() == id
                && table.entries@[i].1 == table@[id] && forall|j: int|
                0 <= j < i ==> (#[trigger] table.entries@[j]).0.id() != id,
{
    let entries = table.entries@;
    if exists|i: int| 0 <= i < entries.len() && (#[trigger] entries[i]).0.id() == id {
        let i = choose|i: int| 0 <= i < entries.len() && (#[trigger] entries[i]).0.id() == id;
        first_entry(entries, id, i);
        let k = choose|k: int|
            0 <= k < entries.len() && (#[trigger] entries[k]).0.id() == id && forall|j: int|
                0 <= j < k ==> (#[trigger] entries[j]).0.id() != id;
        lookup_first(entries, id, k);
        assert(entries[k].0.id() == id);
    } else {
        lookup_absent(entries, id);
    }
}

proof fn first_entry<K: Key, V>(entries: Seq<(K, V)>, id: K::Id, i: int)
    requires
        0 <= i < entries.len(),
        entries[i].0.id() == id,
    ensures
        exists|k: int|
            0 <= k < entries.len() && (#[trigger] entries[k]).0.id() == id && forall|j: int|
                0 <= j < k ==> (#[trigger] entries[j]).0.id() != id,
    decreases i,
{
    if exists|j: int| 0 <= j < i && (#[trigger] entries[j]).0.id() == id {
        let j = choose|j: int| 0 <= j < i && (#[trigger] entries[j]).0.id() == id;
        first_entry(entries, id, j);
    } else {
        assert(entries[i].0.id() == id);
    }
}

/// Distinct values come in the order in which they first appear.
pub proof fn distinct_values_keep_their_order<T>(values: Seq<T>, added: T)
    ensures
        distinct(Seq::<T>::empty()) == Seq::<T>::empty(),
        values.contains(added) ==> distinct(values.push(added)) == distinct(values),
        !values.contains(added) ==> distinct(values.push(added)) == distinct(values).push(added),
{
    assert(values.push(added).drop_last() =~= values);
    distinct_values_are_distinct(values);
    assert(distinct(values).contains(added) == values.contains(added));
}

} // verus!
