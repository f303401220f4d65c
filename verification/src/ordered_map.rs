//! A map that keeps its entries in ascending order of their keys.

use vstd::prelude::*;
use crate::text::{is_text_less, text_less, text_less_irreflexive, text_less_total,
    text_less_transitive};

verus! {

/// A key with a strict total order on what it says.
pub trait OrderedKey: View + Sized {
    spec fn less(a: Self::V, b: Self::V) -> bool;

    proof fn less_irreflexive(a: Self::V)
        ensures
            !Self::less(a, a),
    ;

    proof fn less_transitive(a: Self::V, b: Self::V, c: Self::V)
        requires
            Self::less(a, b),
            Self::less(b, c),
        ensures
            Self::less(a, c),
    ;

    proof fn less_total(a: Self::V, b: Self::V)
        ensures
            Self::less(a, b) || a == b || Self::less(b, a),
    ;

    fn is_less(&self, other: &Self) -> (r: bool)
        ensures
            r == Self::less(self@, other@),
    ;
}

impl OrderedKey for String {
    open spec fn less(a: Seq<char>, b: Seq<char>) -> bool {
        text_less(a, b)
    }

    proof fn less_irreflexive(a: Seq<char>) {
        text_less_irreflexive(a);
    }

    proof fn less_transitive(a: Seq<char>, b: Seq<char>, c: Seq<char>) {
        text_less_transitive(a, b, c);
    }

    proof fn less_total(a: Seq<char>, b: Seq<char>) {
        text_less_total(a, b);
    }

    fn is_less(&self, other: &String) -> (r: bool) {
        is_text_less(self.as_str(), other.as_str())
    }
}

/// A name and a version; ordered by name, then by version.
pub struct VersionKey {
    pub name: String,
    pub version: u32,
}

impl View for VersionKey {
    type V = (Seq<char>, u32);

    open spec fn view(&self) -> (Seq<char>, u32) {
        (self.name@, self.version)
    }
}

impl OrderedKey for VersionKey {
    open spec fn less(a: (Seq<char>, u32), b: (Seq<char>, u32)) -> bool {
        text_less(a.0, b.0) || (a.0 == b.0 && a.1 < b.1)
    }

    proof fn less_irreflexive(a: (Seq<char>, u32)) {
        text_less_irreflexive(a.0);
    }

    proof fn less_transitive(a: (Seq<char>, u32), b: (Seq<char>, u32), c: (Seq<char>, u32)) {
        if text_less(a.0, b.0) && text_less(b.0, c.0) {
            text_less_transitive(a.0, b.0, c.0);
        }
    }

    proof fn less_total(a: (Seq<char>, u32), b: (Seq<char>, u32)) {
        text_less_total(a.0, b.0);
    }

    fn is_less(&self, other: &VersionKey) -> (r: bool) {
        if is_text_less(self.name.as_str(), other.name.as_str()) {
            return true;
        }
        if is_text_less(other.name.as_str(), self.name.as_str()) {
            proof {
                text_less_irreflexive(self.name@);
            }
            return false;
        }
        proof {
            text_less_total(self.name@, other.name@);
        }
        self.version < other.version
    }
}

/// True iff the keys ascend strictly.
pub open spec fn keys_ascend<K: OrderedKey>(keys: Seq<K::V>) -> bool {
    forall|i: int, j: int|
        #![trigger keys[i], keys[j]]
        0 <= i < j < keys.len() ==> K::less(keys[i], keys[j])
}

/// The map that binds the keys, in their order, to the values.
pub open spec fn bound<T, V>(keys: Seq<T>, values: Seq<V>) -> Map<T, V> {
    Map::new(|key: T| keys.contains(key), |key: T| values[keys.index_of(key)])
}

/// In ascending keys every key stands once, so the map gives the value beside it.
pub proof fn bound_at<K: OrderedKey, V>(keys: Seq<K::V>, values: Seq<V>, i: int)
    requires
        keys_ascend::<K>(keys),
        0 <= i < keys.len(),
    ensures
        keys.index_of(keys[i]) == i,
        bound(keys, values).contains_key(keys[i]),
        bound(keys, values)[keys[i]] == values[i],
{
    let j = keys.index_of(keys[i]);
    assert(keys.contains(keys[i]));
    assert(0 <= j < keys.len() && keys[j] == keys[i]);
    K::less_irreflexive(keys[i]);
    if i < j {
        assert(K::less(keys[i], keys[j]));
    } else if j < i {
        assert(K::less(keys[j], keys[i]));
    }
}

/// The number of keys below `key` is the place where it stands or belongs.
spec fn is_rank<K: OrderedKey>(keys: Seq<K::V>, key: K::V, rank: int) -> bool {
    &&& 0 <= rank <= keys.len()
    &&& forall|i: int| 0 <= i < rank ==> K::less(#[trigger] keys[i], key)
    &&& forall|i: int| rank <= i < keys.len() ==> !K::less(#[trigger] keys[i], key)
}

proof fn rank_finds<K: OrderedKey>(keys: Seq<K::V>, key: K::V, rank: int)
    requires
        keys_ascend::<K>(keys),
        is_rank::<K>(keys, key, rank),
    ensures
        keys.contains(key) == (rank < keys.len() && keys[rank] == key),
        rank < keys.len() && keys[rank] != key ==> K::less(key, keys[rank]),
{
    if keys.contains(key) {
        let i = choose|i: int| 0 <= i < keys.len() && keys[i] == key;
        K::less_irreflexive(key);
        if i > rank {
            assert(K::less(keys[rank], keys[i]));
        }
    }
    if rank < keys.len() {
        K::less_total(keys[rank], key);
    }
}

proof fn insert_binds<K: OrderedKey, V>(
    keys: Seq<K::V>,
    values: Seq<V>,
    key: K::V,
    value: V,
    rank: int,
)
    requires
        keys_ascend::<K>(keys),
        keys.len() == values.len(),
        is_rank::<K>(keys, key, rank),
        !keys.contains(key),
    ensures
        keys_ascend::<K>(keys.insert(rank, key)),
        bound(keys.insert(rank, key), values.insert(rank, value)) == bound(keys, values).insert(
            key,
            value,
        ),
{
    let after = keys.insert(rank, key);
    let held = values.insert(rank, value);
    assert forall|i: int, j: int|
        #![trigger after[i], after[j]]
        0 <= i < j < after.len() implies K::less(after[i], after[j]) by {
        let bi = if i < rank {
            i
        } else {
            i - 1
        };
        let bj = if j < rank {
            j
        } else {
            j - 1
        };
        if i == rank {
            rank_finds::<K>(keys, key, rank);
            assert(after[j] == keys[j - 1]);
            if j - 1 > rank {
                assert(K::less(keys[rank], keys[j - 1]));
                K::less_transitive(key, keys[rank], keys[j - 1]);
            }
        } else if j == rank {
            assert(after[i] == keys[i]);
        } else {
            assert(after[i] == keys[bi] && after[j] == keys[bj]);
        }
    }
    assert forall|k: K::V| #[trigger] after.contains(k) == (keys.contains(k) || k == key) by {
        if keys.contains(k) {
            let i = choose|i: int| 0 <= i < keys.len() && keys[i] == k;
            assert(after[if i < rank {
                i
            } else {
                i + 1
            }] == k);
        }
        if k == key {
            assert(after[rank] == k);
        }
        if after.contains(k) && k != key {
            let i = choose|i: int| 0 <= i < after.len() && after[i] == k;
            assert(keys[if i < rank {
                i
            } else {
                i - 1
            }] == k);
        }
    }
    assert forall|k: K::V| after.contains(k) implies #[trigger] bound(after, held)[k] == bound(
        keys,
        values,
    ).insert(key, value)[k] by {
        let i = choose|i: int| 0 <= i < after.len() && after[i] == k;
        bound_at::<K, V>(after, held, i);
        if k == key {
            bound_at::<K, V>(after, held, rank);
        } else {
            bound_at::<K, V>(
                keys,
                values,
                if i < rank {
                    i
                } else {
                    i - 1
                },
            );
        }
    }
    assert(bound(after, held) =~= bound(keys, values).insert(key, value));
}

proof fn update_binds<K: OrderedKey, V>(keys: Seq<K::V>, values: Seq<V>, value: V, rank: int)
    requires
        keys_ascend::<K>(keys),
        keys.len() == values.len(),
        0 <= rank < keys.len(),
    ensures
        bound(keys, values.update(rank, value)) == bound(keys, values).insert(keys[rank], value),
{
    let held = values.update(rank, value);
    assert forall|k: K::V| keys.contains(k) implies #[trigger] bound(keys, held)[k] == bound(
        keys,
        values,
    ).insert(keys[rank], value)[k] by {
        let i = choose|i: int| 0 <= i < keys.len() && keys[i] == k;
        bound_at::<K, V>(keys, held, i);
        bound_at::<K, V>(keys, values, i);
        bound_at::<K, V>(keys, held, rank);
    }
    assert(bound(keys, held) =~= bound(keys, values).insert(keys[rank], value));
}

proof fn remove_unbinds<K: OrderedKey, V>(keys: Seq<K::V>, values: Seq<V>, rank: int)
    requires
        keys_ascend::<K>(keys),
        keys.len() == values.len(),
        0 <= rank < keys.len(),
    ensures
        keys_ascend::<K>(keys.remove(rank)),
        bound(keys.remove(rank), values.remove(rank)) == bound(keys, values).remove(keys[rank]),
{
    let after = keys.remove(rank);
    let held = values.remove(rank);
    assert forall|i: int, j: int|
        #![trigger after[i], after[j]]
        0 <= i < j < after.len() implies K::less(after[i], after[j]) by {
        let bi = if i < rank {
            i
        } else {
            i + 1
        };
        let bj = if j < rank {
            j
        } else {
            j + 1
        };
        assert(after[i] == keys[bi] && after[j] == keys[bj]);
    }
    assert forall|k: K::V| #[trigger] after.contains(k) == (keys.contains(k) && k != keys[rank]) by {
        if keys.contains(k) && k != keys[rank] {
            let i = choose|i: int| 0 <= i < keys.len() && keys[i] == k;
            assert(after[if i < rank {
                i
            } else {
                i - 1
            }] == k);
        }
        if after.contains(k) {
            let i = choose|i: int| 0 <= i < after.len() && after[i] == k;
            let b = if i < rank {
                i
            } else {
                i + 1
            };
            assert(keys[b] == k);
            bound_at::<K, V>(keys, values, b);
            bound_at::<K, V>(keys, values, rank);
        }
    }
    assert forall|k: K::V| after.contains(k) implies #[trigger] bound(after, held)[k] == bound(
        keys,
        values,
    )[k] by {
        let i = choose|i: int| 0 <= i < after.len() && after[i] == k;
        let b = if i < rank {
            i
        } else {
            i + 1
        };
        bound_at::<K, V>(after, held, i);
        bound_at::<K, V>(keys, values, b);
        assert(keys[b] == k);
    }
    assert(bound(after, held) =~= bound(keys, values).remove(keys[rank]));
}

/// A map from keys to values, in ascending order of its keys.
pub struct OrderedMap<K: OrderedKey, V> {
    keys: Vec<K>,
    values: Vec<V>,
}

impl<K: OrderedKey, V> View for OrderedMap<K, V> {
    type V = Map<K::V, V>;

    closed spec fn view(&self) -> Map<K::V, V> {
        bound(self.spec_keys(), self.values@)
    }
}

impl<K: OrderedKey, V> OrderedMap<K, V> {
    /// What the keys say, in order.
    pub closed spec fn spec_keys(&self) -> Seq<K::V> {
        self.keys@.map_values(|key: K| key@)
    }

    /// The values, in the order of their keys.
    pub closed spec fn spec_values(&self) -> Seq<V> {
        self.values@
    }

    /// The invariant: the keys ascend strictly, and each has a value.
    pub closed spec fn wf(&self) -> bool {
        keys_ascend::<K>(self.spec_keys()) && self.keys@.len() == self.values@.len()
    }

    /// The map is its keys, ascending, bound to its values.
    pub proof fn is_bound(&self)
        requires
            self.wf(),
        ensures
            keys_ascend::<K>(self.spec_keys()),
            self.spec_keys().len() == self.spec_values().len(),
            self@ == bound(self.spec_keys(), self.spec_values()),
    {
    }

    pub fn new() -> (r: Self)
        ensures
            r.wf(),
            r@ == Map::<K::V, V>::empty(),
            r.spec_keys().len() == 0,
    {
        let r = OrderedMap { keys: Vec::new(), values: Vec::new() };
        proof {
            assert(r@ =~= Map::<K::V, V>::empty());
        }
        r
    }

    /// The number of keys below `key`.
    fn rank(&self, key: &K) -> (r: usize)
        requires
            self.wf(),
        ensures
            is_rank::<K>(self.spec_keys(), key@, r as int),
    {
        let ghost keys = self.spec_keys();
        let mut low: usize = 0;
        let mut high: usize = self.keys.len();
        while low < high
            invariant
                low <= high <= self.keys@.len(),
                keys == self.spec_keys(),
                keys_ascend::<K>(keys),
                forall|i: int| 0 <= i < low ==> K::less(#[trigger] keys[i], key@),
                forall|i: int| high <= i < keys.len() ==> !K::less(#[trigger] keys[i], key@),
            decreases high - low,
        {
            let mid: usize = low + (high - low) / 2;
            proof {
                assert(keys[mid as int] == self.keys@[mid as int]@);
            }
            if self.keys[mid].is_less(key) {
                proof {
                    assert forall|i: int| 0 <= i < mid + 1 implies K::less(
                        #[trigger] keys[i],
                        key@,
                    ) by {
                        if i < mid {
                            K::less_transitive(keys[i], keys[mid as int], key@);
                        }
                    }
                }
                low = mid + 1;
            } else {
                proof {
                    assert forall|i: int| mid <= i < keys.len() implies !K::less(
                        #[trigger] keys[i],
                        key@,
                    ) by {
                        if i > mid && K::less(keys[i], key@) {
                            K::less_transitive(keys[mid as int], keys[i], key@);
                        }
                    }
                }
                high = mid;
            }
        }
        low
    }

    /// The index at which `key` stands.
    fn find(&self, key: &K) -> (r: Option<usize>)
        requires
            self.wf(),
        ensures
            match r {
                Some(i) => i < self.keys@.len() && self.spec_keys()[i as int] == key@
                    && self@.contains_key(key@) && self@[key@] == self.values@[i as int],
                None => !self@.contains_key(key@),
            },
    {
        let rank = self.rank(key);
        proof {
            rank_finds::<K>(self.spec_keys(), key@, rank as int);
        }
        if rank < self.keys.len() && !key.is_less(&self.keys[rank]) {
            proof {
                assert(self.spec_keys()[rank as int] == self.keys@[rank as int]@);
                bound_at::<K, V>(self.spec_keys(), self.values@, rank as int);
            }
            Some(rank)
        } else {
            proof {
                if rank < self.keys@.len() {
                    K::less_irreflexive(key@);
                }
            }
            None
        }
    }

    /// The value that `key` is bound to.
    pub fn get(&self, key: &K) -> (r: Option<&V>)
        requires
            self.wf(),
        ensures
            match r {
                Some(value) => self@.contains_key(key@) && self@[key@] == *value,
                None => !self@.contains_key(key@),
            },
    {
        match self.find(key) {
            Some(i) => Some(&self.values[i]),
            None => None,
        }
    }

    /// Binds `key` to `value`, in place of an earlier value.
    pub fn insert(&mut self, key: K, value: V)
        requires
            old(self).wf(),
        ensures
            final(self).wf(),
            final(self)@ == old(self)@.insert(key@, value),
            final(self).spec_keys().len() == old(self).spec_keys().len() + if old(
                self,
            )@.contains_key(key@) {
                0int
            } else {
                1int
            },
    {
        match self.find(&key) {
            Some(i) => {
                proof {
                    update_binds::<K, V>(self.spec_keys(), self.values@, value, i as int);
                }
                self.values.set(i, value);
            },
            None => {
                let rank = self.rank(&key);
                let ghost keys = self.spec_keys();
                proof {
                    insert_binds::<K, V>(keys, self.values@, key@, value, rank as int);
                }
                self.keys.insert(rank, key);
                self.values.insert(rank, value);
                proof {
                    assert(self.spec_keys() =~= keys.insert(rank as int, key@));
                }
            },
        }
    }

    /// Forgets `key`, and hands out the value that it was bound to.
    pub fn take(&mut self, key: &K) -> (r: Option<V>)
        requires
            old(self).wf(),
        ensures
            final(self).wf(),
            final(self)@ == old(self)@.remove(key@),
            r == if old(self)@.contains_key(key@) {
                Some(old(self)@[key@])
            } else {
                None
            },
            final(self).spec_keys().len() == old(self).spec_keys().len() - if old(
                self,
            )@.contains_key(key@) {
                1int
            } else {
                0int
            },
    {
        match self.find(key) {
            Some(i) => {
                let ghost keys = self.spec_keys();
                proof {
                    remove_unbinds::<K, V>(keys, self.values@, i as int);
                }
                let _ = self.keys.remove(i);
                let value = self.values.remove(i);
                proof {
                    assert(self.spec_keys() =~= keys.remove(i as int));
                }
                Some(value)
            },
            None => {
                proof {
                    assert(self@.remove(key@) =~= self@);
                }
                None
            },
        }
    }

    /// Forgets `key`.
    pub fn remove(&mut self, key: &K)
        requires
            old(self).wf(),
        ensures
            final(self).wf(),
            final(self)@ == old(self)@.remove(key@),
            final(self).spec_keys().len() == old(self).spec_keys().len() - if old(
                self,
            )@.contains_key(key@) {
                1int
            } else {
                0int
            },
    {
        let _ = self.take(key);
    }

    /// The number of keys.
    pub fn len(&self) -> (r: usize)
        ensures
            r == self.spec_keys().len(),
    {
        self.keys.len()
    }

    /// The keys in ascending order.
    pub fn keys(&self) -> (r: &Vec<K>)
        ensures
            r@.map_values(|key: K| key@) == self.spec_keys(),
    {
        &self.keys
    }

    /// The values in ascending order of their keys.
    pub fn values(&self) -> (r: &Vec<V>)
        ensures
            r@ == self.spec_values(),
    {
        &self.values
    }
}

} // verus!
