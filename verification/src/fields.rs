//! Maps from names to values, kept in the order of their keys: the fields of a
//! web form, and the records of a partial-page answer.

use crate::text::{before, before_total, before_transitive, is_before, same};
use vstd::prelude::*;

verus! {

/// The characters of a list of pairs.
pub open spec fn pair_texts(entries: Seq<(String, String)>) -> Seq<(Seq<char>, Seq<char>)> {
    entries.map_values(|entry: (String, String)| (entry.0@, entry.1@))
}

/// Whether keys rise strictly, so that none occurs twice.
pub open spec fn keys_rise(pairs: Seq<(Seq<char>, Seq<char>)>) -> bool {
    forall|i: int, j: int| 0 <= i < j < pairs.len() ==> before(#[trigger] pairs[i].0, #[trigger] pairs[j].0)
}

/// Whether some pair has this key.
pub open spec fn has_key(pairs: Seq<(Seq<char>, Seq<char>)>, key: Seq<char>) -> bool {
    exists|i: int| 0 <= i < pairs.len() && (#[trigger] pairs[i]).0 == key
}

/// The map that a list of pairs stands for.
pub open spec fn map_of(pairs: Seq<(Seq<char>, Seq<char>)>) -> Map<Seq<char>, Seq<char>> {
    Map::new(
        |key: Seq<char>| has_key(pairs, key),
        |key: Seq<char>|
            pairs[choose|i: int| 0 <= i < pairs.len() && (#[trigger] pairs[i]).0 == key].1,
    )
}

/// A map from field names to values, in the order of the names.
pub struct FormFields {
    pub(crate) entries: Vec<(String, String)>,
}

impl View for FormFields {
    type V = Map<Seq<char>, Seq<char>>;

    open(crate) spec fn view(&self) -> Map<Seq<char>, Seq<char>> {
        map_of(self.pairs())
    }
}

/// In a list with rising keys, a pair at a position is what the map holds.
pub proof fn pair_is_in_map(pairs: Seq<(Seq<char>, Seq<char>)>, at: int)
    requires
        keys_rise(pairs),
        0 <= at < pairs.len(),
    ensures
        map_of(pairs).dom().contains(pairs[at].0),
        map_of(pairs)[pairs[at].0] == pairs[at].1,
{
    let key = pairs[at].0;
    let found = choose|i: int| 0 <= i < pairs.len() && (#[trigger] pairs[i]).0 == key;
    assert(has_key(pairs, key));
    before_total(key, key);
    if found < at {
        assert(before(pairs[found].0, pairs[at].0));
    } else if at < found {
        assert(before(pairs[at].0, pairs[found].0));
    }
}

impl FormFields {
    /// The fields in their order.
    pub open(crate) spec fn pairs(&self) -> Seq<(Seq<char>, Seq<char>)> {
        pair_texts(self.entries@)
    }

    #[verifier::type_invariant]
    pub open(crate) spec fn holds(self) -> bool {
        keys_rise(self.pairs())
    }

    /// The map without fields.
    pub fn new() -> (fields: FormFields)
        ensures
            fields@ == Map::<Seq<char>, Seq<char>>::empty(),
            fields.pairs() == Seq::<(Seq<char>, Seq<char>)>::empty(),
    {
        let fields = FormFields { entries: Vec::new() };
        assert(fields.pairs() == Seq::<(Seq<char>, Seq<char>)>::empty());
        assert(fields@ == Map::<Seq<char>, Seq<char>>::empty());
        fields
    }

    /// The number of fields.
    pub fn len(&self) -> (count: usize)
        ensures
            count == self.pairs().len(),
    {
        self.entries.len()
    }

    /// The name at a position of the order.
    pub fn key_at(&self, at: usize) -> (key: &String)
        requires
            at < self.pairs().len(),
        ensures
            key@ == self.pairs()[at as int].0,
    {
        &self.entries[at].0
    }

    /// The value at a position of the order.
    pub fn value_at(&self, at: usize) -> (value: &String)
        requires
            at < self.pairs().len(),
        ensures
            value@ == self.pairs()[at as int].1,
            value@ == self@[self.pairs()[at as int].0],
    {
        proof {
            use_type_invariant(self);
            pair_is_in_map(self.pairs(), at as int);
        }
        &self.entries[at].1
    }

    /// The pairs are in the order of their keys, and are what the map holds.
    pub proof fn pairs_are_the_map(&self)
        requires
            self.holds(),
        ensures
            keys_rise(self.pairs()),
            forall|i: int|
                0 <= i < self.pairs().len() ==> self@.dom().contains(
                    #[trigger] self.pairs()[i].0,
                ) && self@[self.pairs()[i].0] == self.pairs()[i].1,
            forall|key: Seq<char>| #[trigger]
                self@.dom().contains(key) ==> has_key(self.pairs(), key),
    {
        assert forall|i: int| 0 <= i < self.pairs().len() implies self@.dom().contains(
            #[trigger] self.pairs()[i].0,
        ) && self@[self.pairs()[i].0] == self.pairs()[i].1 by {
            pair_is_in_map(self.pairs(), i);
        }
    }

    /// The first position whose key does not stand before `key`.
    fn position(&self, key: &str) -> (at: usize)
        ensures
            at <= self.entries.len(),
            forall|i: int| 0 <= i < at ==> before(#[trigger] self.pairs()[i].0, key@),
            at < self.entries.len() ==> !before(self.pairs()[at as int].0, key@),
    {
        let mut at: usize = 0;
        while at < self.entries.len()
            invariant
                at <= self.entries.len(),
                forall|i: int| 0 <= i < at ==> before(#[trigger] self.pairs()[i].0, key@),
            decreases self.entries.len() - at,
        {
            if !is_before(self.entries[at].0.as_str(), key) {
                assert(self.pairs()[at as int].0 == self.entries@[at as int].0@);
                return at;
            }
            assert(self.pairs()[at as int].0 == self.entries@[at as int].0@);
            at = at + 1;
        }
        at
    }

    /// The value of a field.
    pub fn get(&self, key: &str) -> (value: Option<&String>)
        ensures
            match value {
                Some(value) => self@.dom().contains(key@) && value@ == self@[key@],
                None => !self@.dom().contains(key@),
            },
    {
        proof {
            use_type_invariant(self);
        }
        let at: usize = self.position(key);
        if at < self.entries.len() && same(self.entries[at].0.as_str(), key) {
            proof {
                assert(self.pairs()[at as int].0 == self.entries@[at as int].0@);
                pair_is_in_map(self.pairs(), at as int);
            }
            return Some(&self.entries[at].1);
        }
        proof {
            if has_key(self.pairs(), key@) {
                let i = choose|i: int|
                    0 <= i < self.pairs().len() && (#[trigger] self.pairs()[i]).0 == key@;
                before_total(key@, key@);
                assert(at <= i);
                assert(self.pairs()[at as int].0 == self.entries@[at as int].0@);
                if at < i {
                    assert(before(self.pairs()[at as int].0, self.pairs()[i].0));
                }
            }
        }
        None
    }

    /// Whether there is a field of this name.
    pub fn contains_key(&self, key: &str) -> (answer: bool)
        ensures
            answer == self@.dom().contains(key@),
    {
        self.get(key).is_some()
    }

    /// Sets the value of a field.
    pub fn insert(&mut self, key: String, value: String)
        ensures
            final(self)@ == old(self)@.insert(key@, value@),
    {
        proof {
            use_type_invariant(&*self);
        }
        let at: usize = self.position(key.as_str());
        let ghost old_pairs = self.pairs();
        let ghost k = key@;
        let ghost v = value@;
        let mut entries: Vec<(String, String)> = Vec::new();
        std::mem::swap(&mut entries, &mut self.entries);
        let replace = at < entries.len() && same(entries[at].0.as_str(), key.as_str());
        let ghost new_pairs = if replace {
            old_pairs.update(at as int, (k, v))
        } else {
            old_pairs.insert(at as int, (k, v))
        };
        if replace {
            entries[at] = (key, value);
        } else {
            entries.insert(at, (key, value));
        }
        proof {
            assert(pair_texts(entries@) == new_pairs);
            insert_keeps_order(old_pairs, at as int, k, v, replace);
        }
        self.entries = entries;
    }

    /// Takes a field out.
    pub fn remove(&mut self, key: &str)
        ensures
            final(self)@ == old(self)@.remove(key@),
    {
        proof {
            use_type_invariant(&*self);
        }
        let at: usize = self.position(key);
        let ghost old_pairs = self.pairs();
        if at < self.entries.len() && same(self.entries[at].0.as_str(), key) {
            let mut entries: Vec<(String, String)> = Vec::new();
            std::mem::swap(&mut entries, &mut self.entries);
            let _gone = entries.remove(at);
            proof {
                let new_pairs = old_pairs.remove(at as int);
                assert(pair_texts(entries@) == new_pairs);
                assert(old_pairs[at as int].0 == key@);
                remove_keeps_order(old_pairs, at as int);
            }
            self.entries = entries;
        } else {
            proof {
                if has_key(old_pairs, key@) {
                    let i = choose|i: int|
                        0 <= i < old_pairs.len() && (#[trigger] old_pairs[i]).0 == key@;
                    before_total(key@, key@);
                    assert(old_pairs[at as int].0 == self.entries@[at as int].0@);
                    if at < i {
                        assert(before(old_pairs[at as int].0, old_pairs[i].0));
                    }
                }
                assert(self@ == self@.remove(key@));
            }
        }
    }

    /// A copy of the map.
    pub fn copy(&self) -> (copy: FormFields)
        ensures
            copy@ == self@,
            copy.pairs() == self.pairs(),
    {
        proof {
            use_type_invariant(self);
        }
        let mut entries: Vec<(String, String)> = Vec::new();
        let mut i: usize = 0;
        while i < self.entries.len()
            invariant
                i <= self.entries.len(),
                entries@ == self.entries@.take(i as int),
            decreases self.entries.len() - i,
        {
            entries.push((self.entries[i].0.clone(), self.entries[i].1.clone()));
            i = i + 1;
            assert(entries@ == self.entries@.take(i as int));
        }
        assert(entries@ == self.entries@);
        FormFields { entries }
    }
}

proof fn insert_keeps_order(
    pairs: Seq<(Seq<char>, Seq<char>)>,
    at: int,
    key: Seq<char>,
    value: Seq<char>,
    replace: bool,
)
    requires
        keys_rise(pairs),
        0 <= at <= pairs.len(),
        forall|i: int| 0 <= i < at ==> before(#[trigger] pairs[i].0, key),
        at < pairs.len() ==> !before(pairs[at].0, key),
        replace == (at < pairs.len() && pairs[at].0 == key),
    ensures
        ({
            let new_pairs = if replace {
                pairs.update(at, (key, value))
            } else {
                pairs.insert(at, (key, value))
            };
            keys_rise(new_pairs) && map_of(new_pairs) == map_of(pairs).insert(key, value)
        }),
{
    let new_pairs = if replace {
        pairs.update(at, (key, value))
    } else {
        pairs.insert(at, (key, value))
    };
    assert forall|i: int, j: int| 0 <= i < j < new_pairs.len() implies before(
        #[trigger] new_pairs[i].0,
        #[trigger] new_pairs[j].0,
    ) by {
        if replace {
            assert(new_pairs[i].0 == pairs[i].0 && new_pairs[j].0 == pairs[j].0);
        } else {
            let oi = if i < at { i } else { i - 1 };
            let oj = if j < at { j } else { j - 1 };
            if i == at {
                assert(new_pairs[j].0 == pairs[oj].0);
                before_total(pairs[at].0, key);
                if oj > at {
                    assert(before(pairs[at].0, pairs[oj].0));
                    before_transitive(key, pairs[at].0, pairs[oj].0);
                }
            } else if j == at {
                assert(new_pairs[i].0 == pairs[i].0);
            } else {
                assert(new_pairs[i].0 == pairs[oi].0 && new_pairs[j].0 == pairs[oj].0);
            }
        }
    }
    let after = map_of(new_pairs);
    let expected = map_of(pairs).insert(key, value);
    assert(new_pairs[at] == (key, value));
    assert forall|k: Seq<char>| after.dom().contains(k) == #[trigger] expected.dom().contains(
        k,
    ) && (after.dom().contains(k) ==> after[k] == expected[k]) by {
        if has_key(new_pairs, k) {
            let i = choose|i: int| 0 <= i < new_pairs.len() && (#[trigger] new_pairs[i]).0 == k;
            pair_is_in_map(new_pairs, i);
            pair_is_in_map(new_pairs, at);
            if i != at {
                let oi = if replace || i < at { i } else { i - 1 };
                assert(new_pairs[i] == pairs[oi]);
                pair_is_in_map(pairs, oi);
                before_total(key, key);
                if i < at {
                    assert(before(new_pairs[i].0, new_pairs[at].0));
                } else {
                    assert(before(new_pairs[at].0, new_pairs[i].0));
                }
            }
        }
        if has_key(pairs, k) {
            let i = choose|i: int| 0 <= i < pairs.len() && (#[trigger] pairs[i]).0 == k;
            let ni = if replace || i < at { i } else { i + 1 };
            if replace && i == at {
                assert(new_pairs[ni].0 == k);
            } else {
                assert(new_pairs[ni] == pairs[i]);
            }
        }
        if k == key {
            assert(new_pairs[at].0 == k);
        }
    }
    assert(after == expected);
}

proof fn remove_keeps_order(pairs: Seq<(Seq<char>, Seq<char>)>, at: int)
    requires
        keys_rise(pairs),
        0 <= at < pairs.len(),
    ensures
        keys_rise(pairs.remove(at)),
        map_of(pairs.remove(at)) == map_of(pairs).remove(pairs[at].0),
{
    let new_pairs = pairs.remove(at);
    let key = pairs[at].0;
    assert forall|i: int, j: int| 0 <= i < j < new_pairs.len() implies before(
        #[trigger] new_pairs[i].0,
        #[trigger] new_pairs[j].0,
    ) by {
        let oi = if i < at { i } else { i + 1 };
        let oj = if j < at { j } else { j + 1 };
        assert(new_pairs[i] == pairs[oi] && new_pairs[j] == pairs[oj]);
    }
    let after = map_of(new_pairs);
    let expected = map_of(pairs).remove(key);
    before_total(key, key);
    assert forall|k: Seq<char>| after.dom().contains(k) == #[trigger] expected.dom().contains(
        k,
    ) && (after.dom().contains(k) ==> after[k] == expected[k]) by {
        if has_key(new_pairs, k) {
            let i = choose|i: int| 0 <= i < new_pairs.len() && (#[trigger] new_pairs[i]).0 == k;
            let oi = if i < at { i } else { i + 1 };
            assert(new_pairs[i] == pairs[oi]);
            pair_is_in_map(new_pairs, i);
            pair_is_in_map(pairs, oi);
            if oi < at {
                assert(before(pairs[oi].0, pairs[at].0));
            } else {
                assert(before(pairs[at].0, pairs[oi].0));
            }
        }
        if has_key(pairs, k) && k != key {
            let i = choose|i: int| 0 <= i < pairs.len() && (#[trigger] pairs[i]).0 == k;
            let ni = if i < at { i } else { i - 1 };
            assert(new_pairs[ni] == pairs[i]);
        }
    }
    assert(after == expected);
}

/// A map has only one list of pairs with rising keys.
pub proof fn rising_pairs_are_unique(
    a: Seq<(Seq<char>, Seq<char>)>,
    b: Seq<(Seq<char>, Seq<char>)>,
)
    requires
        keys_rise(a),
        keys_rise(b),
        map_of(a) == map_of(b),
    ensures
        a == b,
    decreases a.len(),
{
    if a.len() == 0 {
        if b.len() > 0 {
            pair_is_in_map(b, 0);
            assert(has_key(a, b[0].0));
        }
        assert(a == b);
    } else {
        let last_a = a.len() - 1;
        let ka = a[last_a].0;
        pair_is_in_map(a, last_a);
        assert(has_key(b, ka));
        let j = choose|j: int| 0 <= j < b.len() && (#[trigger] b[j]).0 == ka;
        let last_b = b.len() - 1;
        let kb = b[last_b].0;
        pair_is_in_map(b, last_b);
        assert(has_key(a, kb));
        let i = choose|i: int| 0 <= i < a.len() && (#[trigger] a[i]).0 == kb;
        before_total(ka, kb);
        if j < last_b {
            assert(before(b[j].0, b[last_b].0));
            if i < last_a {
                assert(before(a[i].0, a[last_a].0));
            }
        }
        assert(ka == kb);
        assert(a[last_a] == b[last_b]);
        remove_keeps_order(a, last_a);
        remove_keeps_order(b, last_b);
        assert(a.remove(last_a) == a.drop_last());
        assert(b.remove(last_b) == b.drop_last());
        rising_pairs_are_unique(a.drop_last(), b.drop_last());
        assert(a == a.drop_last().push(a[last_a]));
        assert(b == b.drop_last().push(b[last_b]));
    }
}

/// The pairs of a map in the order of their keys.
pub open spec fn sorted_pairs(map: Map<Seq<char>, Seq<char>>) -> Seq<(Seq<char>, Seq<char>)> {
    choose|pairs: Seq<(Seq<char>, Seq<char>)>| keys_rise(pairs) && map_of(pairs) == map
}

impl FormFields {
    /// The pairs are those of the map in the order of their keys.
    pub proof fn pairs_are_sorted(&self)
        requires
            self.holds(),
        ensures
            self.pairs() == sorted_pairs(self@),
    {
        rising_pairs_are_unique(self.pairs(), sorted_pairs(self@));
    }

    /// The fields as pairs, in their order.
    pub fn to_pairs(&self) -> (list: Vec<(String, String)>)
        ensures
            pair_texts(list@) == sorted_pairs(self@),
    {
        proof {
            use_type_invariant(self);
            self.pairs_are_sorted();
        }
        let copy = self.copy();
        copy.entries
    }
}

} // verus!
