//! A string-keyed table that remembers the order in which keys first appeared.

use vstd::prelude::*;
use vstd::hash_map::StringHashMap;

verus! {

/// Values keyed by name; the keys can also be walked in first-insertion order.
#[verifier::reject_recursive_types(V)]
pub struct KeyedTable<V> {
    values: StringHashMap<V>,
    keys: Vec<String>,
}

impl<V> View for KeyedTable<V> {
    type V = Map<Seq<char>, V>;

    closed spec fn view(&self) -> Map<Seq<char>, V> {
        self.values@
    }
}

impl<V: Copy> KeyedTable<V> {
    /// The keys in the order in which they were first inserted.
    pub closed spec fn key_seq(&self) -> Seq<Seq<char>> {
        self.keys@.map_values(|k: String| k@)
    }

    /// Internal consistency: every key is listed exactly once.
    pub closed spec fn wf(&self) -> bool {
        &&& self.key_seq().no_duplicates()
        &&& forall|k: Seq<char>| #[trigger] self.values@.contains_key(k) <==> self.key_seq().contains(k)
    }

    /// The listed keys are exactly the table's keys, each once.
    pub proof fn lemma_keys(&self)
        requires
            self.wf(),
        ensures
            self.key_seq().no_duplicates(),
            forall|k: Seq<char>| #[trigger] self@.contains_key(k) <==> self.key_seq().contains(k),
            self@.dom() == self.key_seq().to_set(),
            self@.dom().finite(),
            self@.len() == self.key_seq().len(),
    {
        assert(self@.dom() =~= self.key_seq().to_set());
        self.key_seq().unique_seq_to_set();
    }

    /// An empty table.
    pub fn new() -> (t: Self)
        ensures
            t.wf(),
            t@ == Map::<Seq<char>, V>::empty(),
            t.key_seq() == Seq::<Seq<char>>::empty(),
    {
        let t = KeyedTable { values: StringHashMap::new(), keys: Vec::new() };
        assert(t.key_seq() =~= Seq::<Seq<char>>::empty());
        t
    }

    /// The value stored under `k`, if any.
    pub fn get(&self, k: &str) -> (r: Option<V>)
        ensures
            r == (if self@.contains_key(k@) { Some(self@[k@]) } else { None::<V> }),
    {
        match self.values.get(k) {
            Some(v) => Some(*v),
            None => None,
        }
    }

    /// Whether `k` has a value.
    pub fn contains_key(&self, k: &str) -> (r: bool)
        ensures
            r == self@.contains_key(k@),
    {
        self.values.contains_key(k)
    }

    /// Stores `v` under `k`; a new key goes to the end of the key order.
    pub fn set(&mut self, k: &str, v: V)
        requires
            old(self).wf(),
        ensures
            final(self).wf(),
            final(self)@ == old(self)@.insert(k@, v),
            final(self).key_seq() == (if old(self)@.contains_key(k@) {
                old(self).key_seq()
            } else {
                old(self).key_seq().push(k@)
            }),
    {
        let ghost old_keys = self.key_seq();
        if !self.values.contains_key(k) {
            self.keys.push(k.to_owned());
            assert(self.key_seq() =~= old_keys.push(k@));
            assert(!old_keys.contains(k@));
            assert forall|i: int, j: int|
                0 <= i < self.key_seq().len() && 0 <= j < self.key_seq().len() && i != j
                implies self.key_seq()[i] != self.key_seq()[j] by {
                if i < old_keys.len() && j < old_keys.len() {
                } else if i == old_keys.len() {
                    assert(self.key_seq()[j] == old_keys[j]);
                } else {
                    assert(self.key_seq()[i] == old_keys[i]);
                }
            }
        } else {
            assert(self.key_seq() =~= old_keys);
        }
        self.values.insert(k.to_owned(), v);
        assert forall|q: Seq<char>| #[trigger] self.values@.contains_key(q) <==> self.key_seq().contains(q) by {
            if q == k@ {
                if !old(self)@.contains_key(k@) {
                    assert(self.key_seq()[old_keys.len() as int] == k@);
                }
            } else {
                if old_keys.contains(q) {
                    let i = choose|i: int| 0 <= i < old_keys.len() && old_keys[i] == q;
                    assert(self.key_seq()[i] == q);
                }
                if self.key_seq().contains(q) {
                    let i = choose|i: int| 0 <= i < self.key_seq().len() && self.key_seq()[i] == q;
                    assert(old_keys[i] == q);
                }
            }
        }
    }

    /// Whether the table holds no key.
    pub fn is_empty(&self) -> (r: bool)
        ensures
            r == (self@.dom() == Set::<Seq<char>>::empty()),
    {
        let r = self.values.is_empty();
        proof {
            if r {
                assert(self@.dom() =~= Set::<Seq<char>>::empty());
            }
        }
        r
    }

    /// Number of keys.
    pub fn len(&self) -> (r: usize)
        requires
            self.wf(),
        ensures
            r == self@.len(),
            r == self.key_seq().len(),
    {
        proof { self.lemma_keys(); }
        self.keys.len()
    }

    /// The `i`-th key in first-insertion order.
    pub fn key_at(&self, i: usize) -> (k: &String)
        requires
            i < self.key_seq().len(),
        ensures
            k@ == self.key_seq()[i as int],
    {
        &self.keys[i]
    }
}

} // verus!
