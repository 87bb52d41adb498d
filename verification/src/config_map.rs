//! The merged configuration: a map from string keys to structured values in
//! which no key occurs twice and a key keeps the place it first took.

use crate::json::{entries_json, json_of, Json};
use crate::source::str_eq;
use serde_json::Value;
use vstd::prelude::*;

verus! {

/// The key of the entry at a position.
spec fn key_at(entries: Seq<(String, Value)>, i: int) -> Seq<char> {
    entries[i].0@
}

/// Some entry has the key.
spec fn holds(entries: Seq<(String, Value)>, key: Seq<char>) -> bool {
    exists|i: int| 0 <= i < entries.len() && #[trigger] key_at(entries, i) == key
}

/// A position at which the key stands, where some entry has it.
spec fn slot(entries: Seq<(String, Value)>, key: Seq<char>) -> int {
    choose|i: int| 0 <= i < entries.len() && #[trigger] key_at(entries, i) == key
}

/// No key stands at two positions.
spec fn distinct(entries: Seq<(String, Value)>) -> bool {
    forall|i: int, j: int|
        0 <= i < j < entries.len() ==> #[trigger] key_at(entries, i) != #[trigger] key_at(
            entries,
            j,
        )
}

/// The map that a list of entries with distinct keys stands for.
spec fn map_of(entries: Seq<(String, Value)>) -> Map<Seq<char>, Json> {
    Map::new(
        |k: Seq<char>| holds(entries, k),
        |k: Seq<char>| json_of(entries[slot(entries, k)].1),
    )
}

/// The keys of a list of entries, in order.
spec fn order_of(entries: Seq<(String, Value)>) -> Seq<Seq<char>> {
    Seq::new(entries.len(), |i: int| key_at(entries, i))
}

/// A map after the entries of a list were put into it one by one, in order:
/// of two entries with one key, the later stays.
pub open spec fn merged(acc: Map<Seq<char>, Json>, entries: Seq<(Seq<char>, Json)>) -> Map<
    Seq<char>,
    Json,
>
    decreases entries.len(),
{
    if entries.len() == 0 {
        acc
    } else {
        merged(acc, entries.drop_last()).insert(entries.last().0, entries.last().1)
    }
}

/// An entry that no later entry of the list overrides is what the merged map
/// holds at its key.
pub proof fn lemma_merged_entry(
    acc: Map<Seq<char>, Json>,
    entries: Seq<(Seq<char>, Json)>,
    i: int,
)
    requires
        0 <= i < entries.len(),
        forall|j: int| i < j < entries.len() ==> entries[j].0 != entries[i].0,
    ensures
        merged(acc, entries).contains_key(entries[i].0),
        merged(acc, entries)[entries[i].0] == entries[i].1,
    decreases entries.len(),
{
    if i < entries.len() - 1 {
        let shorter = entries.drop_last();
        assert(shorter[i] == entries[i]);
        assert forall|j: int| i < j < shorter.len() implies shorter[j].0 != shorter[i].0 by {
            assert(shorter[j] == entries[j]);
        }
        lemma_merged_entry(acc, shorter, i);
        assert(entries.last().0 != entries[i].0);
    }
}

/// The merged map has the keys of the map it began with and the keys of the
/// entries, and no others; a key that no entry has keeps its value.
pub proof fn lemma_merged_keys(
    acc: Map<Seq<char>, Json>,
    entries: Seq<(Seq<char>, Json)>,
    key: Seq<char>,
)
    ensures
        merged(acc, entries).contains_key(key) <==> (acc.contains_key(key) || exists|i: int|
            0 <= i < entries.len() && (#[trigger] entries[i]).0 == key),
        !(exists|i: int| 0 <= i < entries.len() && (#[trigger] entries[i]).0 == key)
            && acc.contains_key(key) ==> merged(acc, entries)[key] == acc[key],
    decreases entries.len(),
{
    if entries.len() > 0 {
        let shorter = entries.drop_last();
        lemma_merged_keys(acc, shorter, key);
        if exists|i: int| 0 <= i < shorter.len() && (#[trigger] shorter[i]).0 == key {
            let i = choose|i: int| 0 <= i < shorter.len() && (#[trigger] shorter[i]).0 == key;
            assert(entries[i] == shorter[i]);
        }
        if exists|i: int| 0 <= i < entries.len() && (#[trigger] entries[i]).0 == key {
            let i = choose|i: int| 0 <= i < entries.len() && (#[trigger] entries[i]).0 == key;
            if i < shorter.len() {
                assert(shorter[i] == entries[i]);
            } else {
                assert(entries.last().0 == key);
            }
        }
        if entries.last().0 == key {
            assert(entries[entries.len() - 1].0 == key);
        }
    }
}

/// With distinct keys, a position that holds a key is the key's slot.
proof fn lemma_slot(entries: Seq<(String, Value)>, key: Seq<char>, i: int)
    requires
        distinct(entries),
        0 <= i < entries.len(),
        key_at(entries, i) == key,
    ensures
        holds(entries, key),
        slot(entries, key) == i,
{
    let j = slot(entries, key);
    assert(0 <= j < entries.len() && key_at(entries, j) == key);
    if j < i {
        assert(key_at(entries, j) != key_at(entries, i));
    } else if i < j {
        assert(key_at(entries, i) != key_at(entries, j));
    }
}

/// A flat store of configuration values by key.
#[derive(Debug, Clone)]
pub struct ConfigMap {
    entries: Vec<(String, Value)>,
}

impl View for ConfigMap {
    type V = Map<Seq<char>, Json>;

    closed spec fn view(&self) -> Map<Seq<char>, Json> {
        map_of(self.entries@)
    }
}

impl ConfigMap {
    /// No key occurs twice.
    pub closed spec fn wf(&self) -> bool {
        distinct(self.entries@)
    }

    /// The keys in the order in which they first came in.
    pub closed spec fn key_order(&self) -> Seq<Seq<char>> {
        order_of(self.entries@)
    }

    /// The order of the keys lists each key of the map once.
    pub proof fn lemma_key_order(&self)
        requires
            self.wf(),
        ensures
            self.key_order().no_duplicates(),
            forall|k: Seq<char>| self.key_order().contains(k) <==> self@.contains_key(k),
    {
        let order = self.key_order();
        assert forall|i: int, j: int| 0 <= i < order.len() && 0 <= j < order.len() && i != j implies order[i] != order[j] by {
            if i < j {
                assert(key_at(self.entries@, i) != key_at(self.entries@, j));
            } else {
                assert(key_at(self.entries@, j) != key_at(self.entries@, i));
            }
        }
        assert forall|k: Seq<char>| order.contains(k) <==> self@.contains_key(k) by {
            if order.contains(k) {
                let i = choose|i: int| 0 <= i < order.len() && order[i] == k;
                assert(key_at(self.entries@, i) == k);
            }
            if self@.contains_key(k) {
                let i = slot(self.entries@, k);
                assert(order[i] == k);
            }
        }
    }

    /// A map without entries.
    pub fn new() -> (r: ConfigMap)
        ensures
            r.wf(),
            r@ == Map::<Seq<char>, Json>::empty(),
            r.key_order() == Seq::<Seq<char>>::empty(),
    {
        let r = ConfigMap { entries: Vec::new() };
        assert(r@ =~= Map::<Seq<char>, Json>::empty());
        assert(r.key_order() =~= Seq::<Seq<char>>::empty());
        r
    }

    /// The number of keys.
    pub fn len(&self) -> (r: usize)
        ensures
            r == self.key_order().len(),
    {
        self.entries.len()
    }

    /// Whether the map has no key.
    pub fn is_empty(&self) -> (r: bool)
        ensures
            r == (self.key_order().len() == 0),
    {
        self.entries.len() == 0
    }

    /// The position of a key among the entries.
    fn position(&self, key: &str) -> (r: Option<usize>)
        ensures
            match r {
                Some(i) => i < self.entries@.len() && key_at(self.entries@, i as int) == key@,
                None => !holds(self.entries@, key@),
            },
    {
        let mut i: usize = 0;
        while i < self.entries.len()
            invariant
                i <= self.entries@.len(),
                forall|j: int| 0 <= j < i ==> key_at(self.entries@, j) != key@,
            decreases self.entries@.len() - i,
        {
            if str_eq(self.entries[i].0.as_str(), key) {
                return Some(i);
            }
            i = i + 1;
        }
        None
    }

    /// Whether a value stands at the key.
    pub fn contains_key(&self, key: &str) -> (r: bool)
        ensures
            r == self@.contains_key(key@),
    {
        self.position(key).is_some()
    }

    /// The value at a key, if there is one.
    pub fn get(&self, key: &str) -> (r: Option<&Value>)
        requires
            self.wf(),
        ensures
            match r {
                Some(v) => self@.contains_key(key@) && json_of(*v) == self@[key@],
                None => !self@.contains_key(key@),
            },
    {
        match self.position(key) {
            Some(i) => {
                proof {
                    lemma_slot(self.entries@, key@, i as int);
                }
                Some(&self.entries[i].1)
            },
            None => None,
        }
    }

    /// The key as it is stored together with the value at it, if there is one.
    pub fn get_key_value(&self, key: &str) -> (r: Option<(&String, &Value)>)
        requires
            self.wf(),
        ensures
            match r {
                Some((k, v)) => k@ == key@ && self@.contains_key(key@) && json_of(*v)
                    == self@[key@],
                None => !self@.contains_key(key@),
            },
    {
        match self.position(key) {
            Some(i) => {
                proof {
                    lemma_slot(self.entries@, key@, i as int);
                }
                Some((&self.entries[i].0, &self.entries[i].1))
            },
            None => None,
        }
    }

    /// Puts a value at a key. A value that stood there is replaced and the
    /// key keeps its place; a new key goes to the end.
    pub fn insert(&mut self, key: String, value: Value)
        requires
            old(self).wf(),
        ensures
            final(self).wf(),
            final(self)@ == old(self)@.insert(key@, json_of(value)),
            final(self).key_order() == if old(self)@.contains_key(key@) {
                old(self).key_order()
            } else {
                old(self).key_order().push(key@)
            },
    {
        let ghost before = self.entries@;
        let ghost k = key@;
        let ghost j = json_of(value);
        match self.position(key.as_str()) {
            Some(i) => {
                proof {
                    lemma_slot(before, k, i as int);
                }
                self.entries.set(i, (key, value));
                proof {
                    let after = self.entries@;
                    assert forall|a: int| 0 <= a < after.len() implies key_at(after, a) == key_at(
                        before,
                        a,
                    ) by {}
                    lemma_replaced(before, after, i as int);
                    assert(final(self)@ =~= old(self)@.insert(k, j));
                    assert(final(self).key_order() =~= old(self).key_order());
                }
            },
            None => {
                self.entries.push((key, value));
                proof {
                    let after = self.entries@;
                    lemma_pushed(before, after);
                    assert(final(self)@ =~= old(self)@.insert(k, j));
                    assert(final(self).key_order() =~= old(self).key_order().push(k));
                }
            },
        }
    }

    /// Puts the entries of a list into the map one by one, in order.
    pub fn merge_entries(&mut self, entries: &Vec<(String, Value)>)
        requires
            old(self).wf(),
        ensures
            final(self).wf(),
            final(self)@ == merged(old(self)@, entries_json(entries@)),
    {
        let ghost all = entries_json(entries@);
        let mut i: usize = 0;
        assert(all.take(0) =~= Seq::<(Seq<char>, Json)>::empty());
        while i < entries.len()
            invariant
                i <= entries@.len(),
                all == entries_json(entries@),
                self.wf(),
                self@ == merged(old(self)@, all.take(i as int)),
            decreases entries@.len() - i,
        {
            let key = entries[i].0.clone();
            let value = entries[i].1.clone();
            self.insert(key, value);
            proof {
                assert(all.take(i + 1).drop_last() =~= all.take(i as int));
                assert(all.take(i + 1).last() == all[i as int]);
            }
            i = i + 1;
        }
        assert(all.take(i as int) =~= all);
    }

    /// The values, in the order of the keys.
    pub fn values(&self) -> (r: Vec<&Value>)
        requires
            self.wf(),
        ensures
            r@.len() == self.key_order().len(),
            forall|i: int|
                0 <= i < r@.len() ==> json_of(*#[trigger] r@[i]) == self@[self.key_order()[i]],
    {
        let mut out: Vec<&Value> = Vec::new();
        let mut i: usize = 0;
        while i < self.entries.len()
            invariant
                i <= self.entries@.len(),
                out@.len() == i,
                forall|j: int| 0 <= j < i ==> *#[trigger] out@[j] == self.entries@[j].1,
            decreases self.entries@.len() - i,
        {
            out.push(&self.entries[i].1);
            i = i + 1;
        }
        proof {
            assert forall|j: int| 0 <= j < out@.len() implies json_of(*#[trigger] out@[j])
                == self@[self.key_order()[j]] by {
                lemma_slot(self.entries@, key_at(self.entries@, j), j);
            }
        }
        out
    }

    /// The whole map as one object value, made by collecting copies of the
    /// entries into a `serde_json::Map` and wrapping it in `Value::Object`:
    /// the object holds exactly what the map holds.
    #[verifier::external_body]
    pub(crate) fn to_value(&self) -> (r: Value)
        requires
            self.wf(),
        ensures
            json_of(r) == Json::Object(self@),
    {
        Value::Object(self.entries.iter().cloned().collect::<serde_json::Map<String, Value>>())
    }

    /// The position of a key that the map holds.
    fn position_of_held(&self, key: &str) -> (i: usize)
        requires
            holds(self.entries@, key@),
        ensures
            i < self.entries@.len(),
            key_at(self.entries@, i as int) == key@,
    {
        let mut i: usize = 0;
        while i < self.entries.len()
            invariant
                i <= self.entries@.len(),
                forall|j: int| 0 <= j < i ==> key_at(self.entries@, j) != key@,
            decreases self.entries@.len() - i,
        {
            if str_eq(self.entries[i].0.as_str(), key) {
                return i;
            }
            i = i + 1;
        }
        proof {
            let a = slot(self.entries@, key@);
            assert(key_at(self.entries@, a) == key@);
        }
        i
    }

    /// The value at a key, to be changed in place. What the caller leaves
    /// there is what the map holds at the key afterwards.
    pub fn get_mut(&mut self, key: &str) -> (r: Option<&mut Value>)
        requires
            old(self).wf(),
        ensures
            final(self).wf(),
            final(self).key_order() == old(self).key_order(),
            r is Some <==> old(self)@.contains_key(key@),
            r is Some ==> json_of(*r->Some_0) == old(self)@[key@],
            r is Some ==> final(self)@ == old(self)@.insert(key@, json_of(*final(r->Some_0))),
            r is None ==> final(self)@ == old(self)@,
    {
        let ghost before = self.entries@;
        match self.position(key) {
            Some(i) => {
                proof {
                    lemma_slot(before, key@, i as int);
                    assert forall|after: Seq<(String, Value)>|
                        #![trigger distinct(after)]
                        #![trigger map_of(after)]
                        #![trigger order_of(after)]
                        after.len() == before.len() && after[i as int].0 == before[i as int].0 && (
                        forall|a: int| 0 <= a < before.len() && a != i ==> after[a] == before[a])
                        implies distinct(after) && map_of(after) == map_of(before).insert(
                        key@,
                        json_of(after[i as int].1),
                    ) && order_of(after) == order_of(before) by {
                        assert forall|a: int| 0 <= a < after.len() implies key_at(after, a)
                            == key_at(before, a) by {}
                        lemma_replaced(before, after, i as int);
                        assert(map_of(after) =~= map_of(before).insert(
                            key@,
                            json_of(after[i as int].1),
                        ));
                        assert(order_of(after) =~= order_of(before));
                    }
                }
                let entry = &mut self.entries[i];
                let v = &mut entry.1;
                Some(v)
            },
            None => None,
        }
    }

    /// Takes the value at a key out and leaves `Null` in its place.
    pub fn take(&mut self, key: &str) -> (r: Value)
        requires
            old(self).wf(),
            old(self)@.contains_key(key@),
        ensures
            final(self).wf(),
            json_of(r) == old(self)@[key@],
            final(self)@ == old(self)@.insert(key@, Json::Null),
            final(self).key_order() == old(self).key_order(),
    {
        let ghost before = self.entries@;
        let i = self.position_of_held(key);
        proof {
            lemma_slot(before, key@, i as int);
        }
        let r = self.entries[i].1.take();
        proof {
            let after = self.entries@;
            assert forall|a: int| 0 <= a < after.len() implies key_at(after, a) == key_at(
                before,
                a,
            ) by {}
            lemma_replaced(before, after, i as int);
            assert(final(self)@ =~= old(self)@.insert(key@, Json::Null));
            assert(final(self).key_order() =~= old(self).key_order());
        }
        r
    }

    /// Puts every entry of another map into this one; where both have a key,
    /// the other map's value stays.
    pub fn extend(&mut self, other: &ConfigMap)
        requires
            old(self).wf(),
            other.wf(),
        ensures
            final(self).wf(),
            final(self)@ == old(self)@.union_prefer_right(other@),
    {
        let ghost theirs = other.entries@;
        let mut i: usize = 0;
        while i < other.entries.len()
            invariant
                i <= theirs.len(),
                theirs == other.entries@,
                distinct(theirs),
                self.wf(),
                forall|k: Seq<char>|
                    self@.contains_key(k) <==> (old(self)@.contains_key(k) || exists|a: int|
                        0 <= a < i && #[trigger] key_at(theirs, a) == k),
                forall|a: int|
                    0 <= a < i ==> self@[#[trigger] key_at(theirs, a)] == json_of(theirs[a].1),
                forall|k: Seq<char>|
                    old(self)@.contains_key(k) && !(exists|a: int|
                        0 <= a < i && #[trigger] key_at(theirs, a) == k) ==> self@[k] == old(
                        self,
                    )@[k],
            decreases theirs.len() - i,
        {
            let key = other.entries[i].0.clone();
            let value = other.entries[i].1.clone();
            let ghost prev = self@;
            self.insert(key, value);
            proof {
                let ki = key_at(theirs, i as int);
                assert(self@ == prev.insert(ki, json_of(theirs[i as int].1)));
                assert forall|a: int| 0 <= a < i + 1 implies self@[#[trigger] key_at(theirs, a)]
                    == json_of(theirs[a].1) by {
                    if a < i {
                        assert(key_at(theirs, a) != key_at(theirs, i as int));
                    }
                }
                assert forall|k: Seq<char>|
                    self@.contains_key(k) <==> (old(self)@.contains_key(k) || exists|a: int|
                        0 <= a < i + 1 && #[trigger] key_at(theirs, a) == k) by {
                    if k == ki {
                        assert(key_at(theirs, i as int) == k);
                    }
                }
            }
            i = i + 1;
        }
        proof {
            let goal = old(self)@.union_prefer_right(other@);
            assert forall|k: Seq<char>| self@.contains_key(k) <==> goal.contains_key(k) by {
                if other@.contains_key(k) {
                    let a = slot(theirs, k);
                    assert(key_at(theirs, a) == k);
                }
            }
            assert forall|k: Seq<char>| self@.contains_key(k) implies self@[k] == goal[k] by {
                if other@.contains_key(k) {
                    let a = slot(theirs, k);
                    assert(key_at(theirs, a) == k);
                } else {
                    assert(!holds(theirs, k));
                }
            }
            assert(self@ =~= goal);
        }
    }
}

/// Replacing the value at one position changes the map at that key alone.
proof fn lemma_replaced(before: Seq<(String, Value)>, after: Seq<(String, Value)>, i: int)
    requires
        distinct(before),
        0 <= i < before.len(),
        after.len() == before.len(),
        forall|a: int| 0 <= a < before.len() ==> key_at(after, a) == key_at(before, a),
        forall|a: int| 0 <= a < before.len() && a != i ==> after[a].1 == before[a].1,
    ensures
        distinct(after),
        forall|k: Seq<char>| holds(after, k) <==> holds(before, k),
        slot(after, key_at(before, i)) == i,
        forall|k: Seq<char>|
            holds(before, k) && k != key_at(before, i) ==> after[slot(after, k)].1
                == before[slot(before, k)].1,
{
    assert forall|a: int, b: int| 0 <= a < b < after.len() implies key_at(after, a) != key_at(
        after,
        b,
    ) by {
        assert(key_at(before, a) != key_at(before, b));
    }
    assert forall|k: Seq<char>| holds(after, k) <==> holds(before, k) by {
        if holds(after, k) {
            let a = slot(after, k);
            assert(key_at(before, a) == k);
        }
        if holds(before, k) {
            let a = slot(before, k);
            assert(key_at(after, a) == k);
        }
    }
    lemma_slot(after, key_at(before, i), i);
    assert forall|k: Seq<char>| holds(before, k) && k != key_at(before, i) implies after[slot(
        after,
        k,
    )].1 == before[slot(before, k)].1 by {
        let a = slot(before, k);
        assert(key_at(after, a) == k);
        lemma_slot(after, k, a);
    }
}

/// Adding an entry with a new key at the end adds that key to the map and
/// changes nothing else.
proof fn lemma_pushed(before: Seq<(String, Value)>, after: Seq<(String, Value)>)
    requires
        distinct(before),
        after.len() == before.len() + 1,
        forall|a: int| 0 <= a < before.len() ==> after[a] == before[a],
        !holds(before, key_at(after, before.len() as int)),
    ensures
        distinct(after),
        forall|k: Seq<char>|
            holds(after, k) <==> (holds(before, k) || k == key_at(after, before.len() as int)),
        slot(after, key_at(after, before.len() as int)) == before.len(),
        forall|k: Seq<char>| holds(before, k) ==> slot(after, k) == slot(before, k),
{
    let n = before.len() as int;
    assert forall|a: int| 0 <= a < n implies key_at(after, a) == key_at(before, a) by {}
    assert forall|a: int, b: int| 0 <= a < b < after.len() implies key_at(after, a) != key_at(
        after,
        b,
    ) by {
        if b < n {
            assert(key_at(before, a) != key_at(before, b));
        } else {
            assert(key_at(before, a) == key_at(after, a));
        }
    }
    assert forall|k: Seq<char>|
        holds(after, k) <==> (holds(before, k) || k == key_at(after, n)) by {
        if holds(after, k) {
            let a = slot(after, k);
            if a < n {
                assert(key_at(before, a) == k);
            }
        }
        if holds(before, k) {
            let a = slot(before, k);
            assert(key_at(after, a) == k);
        }
        if k == key_at(after, n) {
            assert(key_at(after, n) == k);
        }
    }
    lemma_slot(after, key_at(after, n), n);
    assert forall|k: Seq<char>| holds(before, k) implies slot(after, k) == slot(before, k) by {
        let a = slot(before, k);
        assert(key_at(after, a) == k);
        lemma_slot(after, k, a);
    }
}

} // verus!
