//! A map keyed by names that remembers the order in which the names came.

use crate::text::same_text;
use vstd::prelude::*;

verus! {

/// `names` with `name` behind them, unless it is among them already.
pub open spec fn noted(names: Seq<Seq<char>>, name: Seq<char>) -> Seq<Seq<char>> {
    if names.contains(name) {
        names
    } else {
        names.push(name)
    }
}

/// Values under names. `names[i]` is the name of `values[i]`; a name that
/// came first stays first, and no name occurs twice.
///
/// Two maps are equal under `==` when they hold the same names in the same
/// order, with equal values.
#[derive(Debug, Clone, PartialEq)]
pub struct NameMap<V> {
    pub names: Vec<String>,
    pub values: Vec<V>,
}

impl<V> NameMap<V> {
    /// The names in order, as text.
    pub open spec fn keys(&self) -> Seq<Seq<char>> {
        Seq::new(self.names@.len(), |i: int| self.names@[i]@)
    }

    /// Whether every name has its value and no name occurs twice.
    pub open spec fn wf(&self) -> bool {
        &&& self.names@.len() == self.values@.len()
        &&& self.keys().no_duplicates()
    }

    /// Whether `key` is one of the names.
    pub open spec fn has(&self, key: Seq<char>) -> bool {
        self.keys().contains(key)
    }

    /// The map from each name to its value.
    pub open spec fn entries(&self) -> Map<Seq<char>, V> {
        Map::new(
            |k: Seq<char>| self.keys().contains(k),
            |k: Seq<char>| self.values@[self.keys().index_of(k)],
        )
    }

    /// In a well-formed map the name at `i` is found at `i` and nowhere else.
    pub proof fn lemma_index_of(&self, i: int)
        requires
            self.wf(),
            0 <= i < self.names@.len(),
        ensures
            self.has(self.keys()[i]),
            self.keys().index_of(self.keys()[i]) == i,
            self.entries()[self.keys()[i]] == self.values@[i],
    {
        let keys = self.keys();
        assert(keys[i] == keys[i]);
        let j = keys.index_of(keys[i]);
        assert(0 <= j < keys.len() && keys[j] == keys[i]);
    }

    /// A map without names.
    pub fn new() -> (r: Self)
        ensures
            r.wf(),
            r.names@.len() == 0,
            r.entries() == Map::<Seq<char>, V>::empty(),
    {
        let r = NameMap { names: Vec::new(), values: Vec::new() };
        assert(r.entries() =~= Map::<Seq<char>, V>::empty());
        r
    }

    /// The number of names.
    pub fn len(&self) -> (n: usize)
        ensures
            n == self.names@.len(),
    {
        self.names.len()
    }

    /// Where `key` stands among the names.
    pub fn position(&self, key: &str) -> (r: Option<usize>)
        requires
            self.wf(),
        ensures
            match r {
                Some(i) => i < self.names@.len() && self.keys()[i as int] == key@
                    && self.keys().index_of(key@) == i,
                None => !self.has(key@),
            },
    {
        let mut i: usize = 0;
        while i < self.names.len()
            invariant
                self.wf(),
                i <= self.names@.len(),
                forall|j: int| 0 <= j < i ==> self.keys()[j] != key@,
            decreases self.names@.len() - i,
        {
            if same_text(self.names[i].as_str(), key) {
                proof {
                    self.lemma_index_of(i as int);
                }
                return Some(i);
            }
            i = i + 1;
        }
        None
    }

    /// The value under `key`.
    pub fn get(&self, key: &str) -> (r: Option<&V>)
        requires
            self.wf(),
        ensures
            match r {
                Some(v) => self.has(key@) && *v == self.entries()[key@],
                None => !self.has(key@),
            },
    {
        match self.position(key) {
            Some(i) => {
                proof {
                    self.lemma_index_of(i as int);
                }
                Some(&self.values[i])
            },
            None => None,
        }
    }

    /// Puts `value` under the new name `name`, behind all the others.
    pub fn insert_new(&mut self, name: String, value: V)
        requires
            old(self).wf(),
            !old(self).has(name@),
        ensures
            final(self).wf(),
            final(self).names@ == old(self).names@.push(name),
            final(self).values@ == old(self).values@.push(value),
            final(self).entries() == old(self).entries().insert(name@, value),
    {
        let ghost before = *self;
        self.names.push(name);
        self.values.push(value);
        proof {
            let keys = self.keys();
            let old_keys = before.keys();
            assert(keys =~= old_keys.push(name@));
            assert forall|i: int, j: int|
                0 <= i < keys.len() && 0 <= j < keys.len() && i != j implies keys[i]
                != keys[j] by {
                if i < old_keys.len() {
                    assert(old_keys[i] == keys[i]);
                }
                if j < old_keys.len() {
                    assert(old_keys[j] == keys[j]);
                }
            }
            let goal = before.entries().insert(name@, value);
            assert forall|k: Seq<char>| #[trigger]
                self.entries().contains_key(k) implies self.entries()[k] == goal[k] by {
                let i = keys.index_of(k);
                if i < old_keys.len() {
                    before.lemma_index_of(i);
                }
            }
            assert forall|k: Seq<char>| goal.contains_key(k) implies #[trigger] self.entries(
            ).contains_key(k) by {
                if k == name@ {
                    assert(keys[old_keys.len() as int] == k);
                } else {
                    let i = old_keys.index_of(k);
                    assert(keys[i] == k);
                }
            }
            assert(self.entries() =~= goal);
        }
    }

    /// Where `key` stands among the names, after it was put behind them
    /// with the value `default` if it was not among them.
    pub fn position_or_insert(&mut self, key: &str, default: V) -> (i: usize)
        requires
            old(self).wf(),
        ensures
            final(self).wf(),
            i < final(self).names@.len(),
            final(self).keys()[i as int] == key@,
            final(self).keys().index_of(key@) == i,
            final(self).keys() == noted(old(self).keys(), key@),
            old(self).has(key@) ==> final(self).names@ == old(self).names@ && final(self).values@
                == old(self).values@,
            !old(self).has(key@) ==> final(self).values@ == old(self).values@.push(default),
            final(self).entries() == if old(self).has(key@) {
                old(self).entries()
            } else {
                old(self).entries().insert(key@, default)
            },
    {
        match self.position(key) {
            Some(i) => i,
            None => {
                let ghost before = *self;
                let i: usize = self.names.len();
                self.insert_new(key.to_owned(), default);
                proof {
                    assert(self.keys() =~= before.keys().push(key@));
                    self.lemma_index_of(i as int);
                }
                i
            },
        }
    }
}

/// Replacing the value at `i` replaces the value under the name at `i` and
/// leaves the rest as it was.
pub proof fn lemma_value_replaced<V>(before: NameMap<V>, after: NameMap<V>, i: int)
    requires
        before.wf(),
        0 <= i < before.names@.len(),
        after.names@ == before.names@,
        after.values@ == before.values@.update(i, after.values@[i]),
    ensures
        after.wf(),
        after.keys() == before.keys(),
        after.entries() == before.entries().insert(before.keys()[i], after.values@[i]),
{
    assert(after.keys() =~= before.keys());
    let keys = before.keys();
    before.lemma_index_of(i);
    let goal = before.entries().insert(keys[i], after.values@[i]);
    assert forall|k: Seq<char>| #[trigger]
        after.entries().contains_key(k) implies after.entries()[k] == goal[k] by {
        let j = keys.index_of(k);
        if j != i {
            assert(keys[j] == k);
        }
    }
    assert(after.entries() =~= goal);
}

impl<V> Default for NameMap<V> {
    fn default() -> (r: Self)
        ensures
            r.wf(),
            r.names@.len() == 0,
            r.entries() == Map::<Seq<char>, V>::empty(),
    {
        NameMap::new()
    }
}

} // verus!
