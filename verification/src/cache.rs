//! A small map from text keys to values, used to remember what a catalogue
//! already answered.

use vstd::prelude::*;

verus! {

/// No two entries share a key.
pub open spec fn keys_unique<V>(es: Seq<(String, V)>) -> bool {
    forall|i: int, j: int|
        0 <= i < j < es.len() ==> (#[trigger] es[i]).0@ != (#[trigger] es[j]).0@
}

/// The map that a list of entries denotes.
pub open spec fn map_of<V>(es: Seq<(String, V)>) -> Map<Seq<char>, V>
    decreases es.len(),
{
    if es.len() == 0 {
        Map::empty()
    } else {
        map_of(es.drop_last()).insert(es.last().0@, es.last().1)
    }
}

/// The keys of a list of entries are the keys of the map it denotes.
pub proof fn lemma_map_of_dom<V>(es: Seq<(String, V)>, k: Seq<char>)
    ensures
        map_of(es).dom().contains(k) <==> exists|i: int| 0 <= i < es.len() && (#[trigger] es[i]).0@
            == k,
    decreases es.len(),
{
    if es.len() > 0 {
        lemma_map_of_dom(es.drop_last(), k);
        if map_of(es.drop_last()).dom().contains(k) {
            let i = choose|i: int| 0 <= i < es.drop_last().len() && (#[trigger] es.drop_last()[i]).0@ == k;
            assert(es[i] == es.drop_last()[i]);
        }
        if exists|i: int| 0 <= i < es.len() && (#[trigger] es[i]).0@ == k {
            let i = choose|i: int| 0 <= i < es.len() && (#[trigger] es[i]).0@ == k;
            if i < es.len() - 1 {
                assert(es.drop_last()[i] == es[i]);
            }
        }
    }
}

/// With unique keys, the map holds at each entry's key that entry's value.
pub proof fn lemma_map_of_index<V>(es: Seq<(String, V)>, i: int)
    requires
        keys_unique(es),
        0 <= i < es.len(),
    ensures
        map_of(es).dom().contains(es[i].0@),
        map_of(es)[es[i].0@] == es[i].1,
    decreases es.len(),
{
    if i < es.len() - 1 {
        let d = es.drop_last();
        assert(d[i] == es[i]);
        assert(keys_unique(d)) by {
            assert forall|a: int, b: int| 0 <= a < b < d.len() implies (#[trigger] d[a]).0@ != (
            #[trigger] d[b]).0@ by {
                assert(d[a] == es[a] && d[b] == es[b]);
            }
        }
        lemma_map_of_index(d, i);
        assert(es[i].0@ != es[es.len() - 1].0@);
    }
}

/// Replacing the value of an entry updates the map at its key.
pub proof fn lemma_map_of_update<V>(es: Seq<(String, V)>, i: int, k: String, v: V)
    requires
        keys_unique(es),
        0 <= i < es.len(),
        es[i].0@ == k@,
    ensures
        map_of(es.update(i, (k, v))) =~= map_of(es).insert(k@, v),
        keys_unique(es.update(i, (k, v))),
    decreases es.len(),
{
    let u = es.update(i, (k, v));
    assert(keys_unique(u)) by {
        assert forall|a: int, b: int| 0 <= a < b < u.len() implies (#[trigger] u[a]).0@ != (
        #[trigger] u[b]).0@ by {
            if a == i {
                assert(es[b].0@ != es[i].0@);
            } else if b == i {
                assert(es[a].0@ != es[i].0@);
            } else {
                assert(u[a] == es[a] && u[b] == es[b]);
            }
        }
    }
    let d = es.drop_last();
    if i == es.len() - 1 {
        assert(u.drop_last() =~= d);
    } else {
        assert(u.drop_last() =~= d.update(i, (k, v)));
        assert(keys_unique(d)) by {
            assert forall|a: int, b: int| 0 <= a < b < d.len() implies (#[trigger] d[a]).0@ != (
            #[trigger] d[b]).0@ by {
                assert(d[a] == es[a] && d[b] == es[b]);
            }
        }
        assert(d[i] == es[i]);
        lemma_map_of_update(d, i, k, v);
        assert(es.last().0@ != k@);
        assert(u.last() == es.last());
    }
}

/// Appending an entry inserts it into the map.
pub proof fn lemma_map_of_push<V>(es: Seq<(String, V)>, k: String, v: V)
    requires
        keys_unique(es),
        !map_of(es).dom().contains(k@),
    ensures
        map_of(es.push((k, v))) == map_of(es).insert(k@, v),
        keys_unique(es.push((k, v))),
{
    let p = es.push((k, v));
    assert(p.drop_last() =~= es);
    lemma_map_of_dom(es, k@);
    assert(keys_unique(p)) by {
        assert forall|a: int, b: int| 0 <= a < b < p.len() implies (#[trigger] p[a]).0@ != (
        #[trigger] p[b]).0@ by {
            if b == es.len() {
                assert(p[a] == es[a]);
            } else {
                assert(p[a] == es[a] && p[b] == es[b]);
            }
        }
    }
}

/// A map from text keys to values, kept as a list of entries with distinct
/// keys so that its contents are an exact `Map` over the key text: vstd
/// states what a `HashMap` holds only for keys whose hashing it models,
/// which does not include `String`.
pub struct Cache<V> {
    entries: Vec<(String, V)>,
}

impl<V> View for Cache<V> {
    type V = Map<Seq<char>, V>;

    /// The map this cache holds.
    closed spec fn view(&self) -> Map<Seq<char>, V> {
        map_of(self.entries@)
    }
}

impl<V> Cache<V> {
    #[verifier::type_invariant]
    spec fn inv(self) -> bool {
        keys_unique(self.entries@)
    }

    /// An empty cache.
    pub fn new() -> (r: Cache<V>)
        ensures
            r@ == Map::<Seq<char>, V>::empty(),
    {
        Cache { entries: Vec::new() }
    }

    /// Whether the cache has an entry for `key`.
    pub fn contains_key(&self, key: &str) -> (b: bool)
        ensures
            b == self@.dom().contains(key@),
    {
        let k = key.to_owned();
        let r = position_of(&self.entries, &k);
        proof {
            lemma_map_of_dom(self.entries@, key@);
        }
        r.is_some()
    }

    /// The value stored for `key`.
    pub fn get(&self, key: &str) -> (r: Option<&V>)
        ensures
            match r {
                Some(v) => self@.dom().contains(key@) && self@[key@] == *v,
                None => !self@.dom().contains(key@),
            },
    {
        proof {
            use_type_invariant(self);
        }
        let k = key.to_owned();
        match position_of(&self.entries, &k) {
            Some(i) => {
                proof {
                    lemma_map_of_index(self.entries@, i as int);
                }
                Some(&self.entries[i].1)
            },
            None => {
                proof {
                    lemma_map_of_dom(self.entries@, key@);
                }
                None
            },
        }
    }

    /// Stores `value` under `key`, replacing what was stored there.
    pub fn insert(&mut self, key: String, value: V)
        ensures
            final(self)@ == old(self)@.insert(key@, value),
    {
        proof {
            use_type_invariant(&*self);
        }
        let mut entries: Vec<(String, V)> = Vec::new();
        std::mem::swap(&mut entries, &mut self.entries);
        let ghost es = entries@;
        match position_of(&entries, &key) {
            Some(i) => {
                proof {
                    lemma_map_of_update(es, i as int, key, value);
                }
                entries.set(i, (key, value));
            },
            None => {
                proof {
                    lemma_map_of_dom(es, key@);
                    lemma_map_of_push(es, key, value);
                }
                entries.push((key, value));
            },
        }
        self.entries = entries;
    }
}

/// The position of the entry with key `key`.
fn position_of<V>(entries: &Vec<(String, V)>, key: &String) -> (r: Option<usize>)
    ensures
        match r {
            Some(i) => i < entries@.len() && entries@[i as int].0@ == key@,
            None => forall|i: int| 0 <= i < entries@.len() ==> (#[trigger] entries@[i]).0@ != key@,
        },
{
    let n = entries.len();
    let mut i: usize = 0;
    while i < n
        invariant
            i <= n == entries@.len(),
            forall|j: int| 0 <= j < i ==> (#[trigger] entries@[j]).0@ != key@,
        decreases n - i,
    {
        if entries[i].0 == *key {
            return Some(i);
        }
        i = i + 1;
    }
    None
}

} // verus!
