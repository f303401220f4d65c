//! A map keyed by block positions that keeps its entries in ascending order of x, then y, then z.

use vstd::prelude::*;
use crate::block::BlockPos;

verus! {

/// The order of positions: by x, then by y, then by z.
pub open spec fn pos_less(a: BlockPos, b: BlockPos) -> bool {
    a.x < b.x || (a.x == b.x && (a.y < b.y || (a.y == b.y && a.z < b.z)))
}

/// True iff `a` comes before `b`.
pub fn is_pos_less(a: BlockPos, b: BlockPos) -> (r: bool)
    ensures
        r == pos_less(a, b),
{
    a.x < b.x || (a.x == b.x && (a.y < b.y || (a.y == b.y && a.z < b.z)))
}

/// True iff the keys ascend strictly, so that no position occurs twice.
pub open spec fn ascending<V>(entries: Seq<(BlockPos, V)>) -> bool {
    forall|i: int, j: int|
        #![trigger entries[i], entries[j]]
        0 <= i < j < entries.len() ==> pos_less(entries[i].0, entries[j].0)
}

/// True iff the key `position` stands at index `i`.
pub open spec fn stands_at<V>(entries: Seq<(BlockPos, V)>, position: BlockPos, i: int) -> bool {
    0 <= i < entries.len() && entries[i].0 == position
}

/// True iff `position` is among the keys.
pub open spec fn has_key<V>(entries: Seq<(BlockPos, V)>, position: BlockPos) -> bool {
    exists|i: int| #[trigger] stands_at(entries, position, i)
}

/// The map that the entries stand for.
pub open spec fn entry_map<V>(entries: Seq<(BlockPos, V)>) -> Map<BlockPos, V> {
    Map::new(
        |p: BlockPos| has_key(entries, p),
        |p: BlockPos| entries[choose|i: int| #[trigger] stands_at(entries, p, i)].1,
    )
}

/// In ascending entries a key stands at one index only, and the map gives what stands there.
pub proof fn entry_map_at<V>(entries: Seq<(BlockPos, V)>, i: int)
    requires
        ascending(entries),
        0 <= i < entries.len(),
    ensures
        entry_map(entries).contains_key(entries[i].0),
        entry_map(entries)[entries[i].0] == entries[i].1,
{
    let p = entries[i].0;
    assert(stands_at(entries, p, i));
    let j = choose|j: int| #[trigger] stands_at(entries, p, j);
    assert(stands_at(entries, p, j));
    assert(entries[i].0 == entries[j].0);
    assert(i == j) by {
        if i < j {
            assert(pos_less(entries[i].0, entries[j].0));
        } else if j < i {
            assert(pos_less(entries[j].0, entries[i].0));
        }
    }
}

/// Ascending entries are determined by the map that they stand for.
pub proof fn entries_determined_by_map<V>(a: Seq<(BlockPos, V)>, b: Seq<(BlockPos, V)>)
    requires
        ascending(a),
        ascending(b),
        entry_map(a) == entry_map(b),
    ensures
        a == b,
    decreases a.len(),
{
    if a.len() == 0 {
        if b.len() > 0 {
            entry_map_at(b, 0);
            assert(has_key(a, b[0].0));
        }
        assert(a =~= b);
    } else {
        entry_map_at(a, 0);
        assert(has_key(b, a[0].0));
        let j = choose|j: int| #[trigger] stands_at(b, a[0].0, j);
        entry_map_at(b, 0);
        assert(has_key(a, b[0].0));
        let i = choose|i: int| #[trigger] stands_at(a, b[0].0, i);
        assert(stands_at(a, b[0].0, i) && stands_at(b, a[0].0, j));
        assert(a[0].0 == b[0].0) by {
            if i != 0 {
                assert(pos_less(a[0].0, a[i].0));
            }
            if j != 0 {
                assert(pos_less(b[0].0, b[j].0));
            }
        }
        let x = a.skip(1);
        let y = b.skip(1);
        assert forall|p: BlockPos| #[trigger] has_key(x, p) == (has_key(a, p) && p != a[0].0) by {
            skip_one_key(a, p);
        }
        assert forall|p: BlockPos| #[trigger] has_key(y, p) == (has_key(b, p) && p != b[0].0) by {
            skip_one_key(b, p);
        }
        assert(entry_map(x) =~= entry_map(y)) by {
            assert forall|p: BlockPos| entry_map(x).contains_key(p) == entry_map(y).contains_key(p) by {
                assert(has_key(a, p) == entry_map(a).contains_key(p));
                assert(has_key(b, p) == entry_map(b).contains_key(p));
                assert(has_key(x, p) == entry_map(x).contains_key(p));
                assert(has_key(y, p) == entry_map(y).contains_key(p));
            }
            assert forall|p: BlockPos| #[trigger] entry_map(x).contains_key(p) implies entry_map(x)[p]
                == entry_map(y)[p] by {
                let s = choose|s: int| #[trigger] stands_at(x, p, s);
                let t = choose|t: int| #[trigger] stands_at(y, p, t);
                assert(has_key(x, p) && has_key(y, p));
                assert(stands_at(x, p, s) && stands_at(y, p, t));
                entry_map_at(a, s + 1);
                entry_map_at(b, t + 1);
                assert(x[s] == a[s + 1] && y[t] == b[t + 1]);
            }
        }
        assert(ascending(x)) by {
            assert forall|m: int, n: int|
                #![trigger x[m], x[n]]
                0 <= m < n < x.len() implies pos_less(x[m].0, x[n].0) by {
                assert(x[m] == a[m + 1] && x[n] == a[n + 1]);
            }
        }
        assert(ascending(y)) by {
            assert forall|m: int, n: int|
                #![trigger y[m], y[n]]
                0 <= m < n < y.len() implies pos_less(y[m].0, y[n].0) by {
                assert(y[m] == b[m + 1] && y[n] == b[n + 1]);
            }
        }
        entries_determined_by_map(x, y);
        assert(a =~= seq![a[0]] + x);
        assert(b =~= seq![b[0]] + y);
    }
}

proof fn skip_one_key<V>(a: Seq<(BlockPos, V)>, p: BlockPos)
    requires
        ascending(a),
        a.len() > 0,
    ensures
        has_key(a.skip(1), p) == (has_key(a, p) && p != a[0].0),
{
    let x = a.skip(1);
    if has_key(x, p) {
        let s = choose|s: int| #[trigger] stands_at(x, p, s);
        assert(stands_at(x, p, s));
        assert(x[s] == a[s + 1]);
        assert(stands_at(a, p, s + 1));
        assert(pos_less(a[0].0, a[s + 1].0));
    }
    if has_key(a, p) && p != a[0].0 {
        let s = choose|s: int| #[trigger] stands_at(a, p, s);
        assert(stands_at(a, p, s));
        assert(x[s - 1] == a[s]);
        assert(stands_at(x, p, s - 1));
    }
}

/// The entries with `position` bound to `value`; `rank` is the number of keys before it.
spec fn with_entry<V>(
    before: Seq<(BlockPos, V)>,
    rank: usize,
    found: bool,
    position: BlockPos,
    value: V,
) -> Seq<(BlockPos, V)> {
    if found {
        before.update(rank as int, (position, value))
    } else {
        before.insert(rank as int, (position, value))
    }
}

proof fn insert_keeps_order<V>(
    before: Seq<(BlockPos, V)>,
    rank: usize,
    found: bool,
    position: BlockPos,
    value: V,
)
    requires
        rank <= before.len(),
        ascending(before),
        forall|i: int| 0 <= i < rank ==> pos_less((#[trigger] before[i]).0, position),
        forall|i: int| rank <= i < before.len() ==> !pos_less((#[trigger] before[i]).0, position),
        found == (rank < before.len() && before[rank as int].0 == position),
        found == has_key(before, position),
    ensures
        ascending(with_entry(before, rank, found, position, value)),
        entry_map(with_entry(before, rank, found, position, value)) == entry_map(before).insert(
            position,
            value,
        ),
{
    let after = with_entry(before, rank, found, position, value);
    if found {
        assert(after =~= before.update(rank as int, (position, value)));
        assert(ascending(after)) by {
            assert forall|i: int, j: int|
                #![trigger after[i], after[j]]
                0 <= i < j < after.len() implies pos_less(after[i].0, after[j].0) by {
                assert(pos_less(before[i].0, before[j].0));
            }
        }
        assert forall|p: BlockPos| has_key(after, p) == #[trigger] has_key(before, p) by {
            if has_key(before, p) {
                let i = choose|i: int| #[trigger] stands_at(before, p, i);
                assert(stands_at(before, p, i));
                assert(stands_at(after, p, i));
            }
            if has_key(after, p) {
                let i = choose|i: int| #[trigger] stands_at(after, p, i);
                assert(stands_at(after, p, i));
                assert(stands_at(before, p, i));
            }
        }
        assert forall|p: BlockPos| has_key(before, p) implies #[trigger] entry_map(after)[p]
            == entry_map(before).insert(position, value)[p] by {
            let i = choose|i: int| #[trigger] stands_at(before, p, i);
            assert(stands_at(before, p, i));
            entry_map_at(after, i);
            entry_map_at(before, i);
            if p == position {
                assert(before[rank as int].0 == position);
                if i < rank {
                    assert(pos_less(before[i].0, before[rank as int].0));
                } else if i > rank {
                    assert(pos_less(before[rank as int].0, before[i].0));
                }
            }
        }
        assert(has_key(before, position));
    } else {
        assert(after =~= before.insert(rank as int, (position, value)));
        assert(ascending(after)) by {
            assert forall|i: int, j: int|
                #![trigger after[i], after[j]]
                0 <= i < j < after.len() implies pos_less(after[i].0, after[j].0) by {
                let bi = if i < rank { i } else { i - 1 };
                let bj = if j < rank { j } else { j - 1 };
                if i == rank {
                    assert(after[j] == before[j - 1]);
                    assert(!pos_less(before[j - 1].0, position));
                    assert(before[j - 1].0 != position) by {
                        if before[j - 1].0 == position {
                            assert(stands_at(before, position, j - 1));
                        }
                    }
                } else if j == rank {
                    assert(after[i] == before[i]);
                } else {
                    assert(after[i] == before[bi] && after[j] == before[bj]);
                }
            }
        }
        assert forall|p: BlockPos| #[trigger] has_key(after, p) == (has_key(before, p) || p
            == position) by {
            if has_key(before, p) {
                let i = choose|i: int| #[trigger] stands_at(before, p, i);
                assert(stands_at(before, p, i));
                assert(stands_at(after, p, if i < rank { i } else { i + 1 }));
            }
            if p == position {
                assert(stands_at(after, p, rank as int));
            }
            if has_key(after, p) && p != position {
                let i = choose|i: int| #[trigger] stands_at(after, p, i);
                assert(stands_at(after, p, i));
                assert(stands_at(before, p, if i < rank { i } else { i - 1 }));
            }
        }
        assert forall|p: BlockPos| has_key(after, p) implies #[trigger] entry_map(after)[p]
            == entry_map(before).insert(position, value)[p] by {
            let i = choose|i: int| #[trigger] stands_at(after, p, i);
            assert(stands_at(after, p, i));
            entry_map_at(after, i);
            if p != position {
                entry_map_at(before, if i < rank { i } else { i - 1 });
            } else {
                entry_map_at(after, rank as int);
            }
        }
    }
    assert(entry_map(after) =~= entry_map(before).insert(position, value));
}

proof fn remove_keeps_order<V>(before: Seq<(BlockPos, V)>, rank: usize, position: BlockPos)
    requires
        rank < before.len(),
        ascending(before),
        before[rank as int].0 == position,
    ensures
        ascending(before.remove(rank as int)),
        entry_map(before.remove(rank as int)) == entry_map(before).remove(position),
{
    let found = true;
    let after = before.remove(rank as int);
    if found {
        assert(after =~= before.remove(rank as int));
        assert(ascending(after)) by {
            assert forall|i: int, j: int|
                #![trigger after[i], after[j]]
                0 <= i < j < after.len() implies pos_less(after[i].0, after[j].0) by {
                let bi = if i < rank { i } else { i + 1 };
                let bj = if j < rank { j } else { j + 1 };
                assert(after[i] == before[bi] && after[j] == before[bj]);
            }
        }
        assert forall|p: BlockPos| #[trigger] has_key(after, p) == (has_key(before, p) && p
            != position) by {
            if has_key(before, p) && p != position {
                let i = choose|i: int| #[trigger] stands_at(before, p, i);
                assert(stands_at(before, p, i));
                assert(stands_at(after, p, if i < rank { i } else { i - 1 }));
            }
            if has_key(after, p) {
                let i = choose|i: int| #[trigger] stands_at(after, p, i);
                assert(stands_at(after, p, i));
                let b = if i < rank { i } else { i + 1 };
                assert(stands_at(before, p, b));
                if b < rank {
                    assert(pos_less(before[b].0, before[rank as int].0));
                } else {
                    assert(pos_less(before[rank as int].0, before[b].0));
                }
            }
        }
        assert forall|p: BlockPos| has_key(after, p) implies #[trigger] entry_map(after)[p]
            == entry_map(before)[p] by {
            let i = choose|i: int| #[trigger] stands_at(after, p, i);
            assert(stands_at(after, p, i));
            entry_map_at(after, i);
            entry_map_at(before, if i < rank { i } else { i + 1 });
        }
    }
    assert(entry_map(after) =~= entry_map(before).remove(position));
}

/// A map from block positions to values, in ascending order of its keys.
pub struct PositionMap<V> {
    entries: Vec<(BlockPos, V)>,
}

/// A set of block positions.
pub type PositionSet = PositionMap<()>;

impl<V> View for PositionMap<V> {
    type V = Map<BlockPos, V>;

    closed spec fn view(&self) -> Map<BlockPos, V> {
        entry_map(self.entries@)
    }
}

impl<V> PositionMap<V> {
    /// The entries in ascending order.
    pub closed spec fn spec_entries(&self) -> Seq<(BlockPos, V)> {
        self.entries@
    }

    /// The invariant: the keys ascend strictly.
    pub closed spec fn wf(&self) -> bool {
        ascending(self.entries@)
    }

    pub fn new() -> (r: Self)
        ensures
            r.wf(),
            r@ == Map::<BlockPos, V>::empty(),
    {
        let r = PositionMap { entries: Vec::new() };
        proof {
            assert forall|p: BlockPos| !#[trigger] has_key(r.entries@, p) by {}
            assert(r@ =~= Map::<BlockPos, V>::empty());
        }
        r
    }

    /// The number of keys before `position`.
    fn rank(&self, position: BlockPos) -> (r: usize)
        requires
            self.wf(),
        ensures
            r <= self.entries@.len(),
            forall|i: int| 0 <= i < r ==> pos_less((#[trigger] self.entries@[i]).0, position),
            forall|i: int|
                r <= i < self.entries@.len() ==> !pos_less(
                    (#[trigger] self.entries@[i]).0,
                    position,
                ),
    {
        let mut low: usize = 0;
        let mut high: usize = self.entries.len();
        while low < high
            invariant
                low <= high <= self.entries@.len(),
                ascending(self.entries@),
                forall|i: int| 0 <= i < low ==> pos_less((#[trigger] self.entries@[i]).0, position),
                forall|i: int|
                    high <= i < self.entries@.len() ==> !pos_less(
                        (#[trigger] self.entries@[i]).0,
                        position,
                    ),
            decreases high - low,
        {
            let mid: usize = low + (high - low) / 2;
            if is_pos_less(self.entries[mid].0, position) {
                low = mid + 1;
            } else {
                high = mid;
            }
        }
        low
    }

    fn found_at(&self, rank: usize, position: BlockPos) -> (r: bool)
        requires
            self.wf(),
            rank <= self.entries@.len(),
            forall|i: int| 0 <= i < rank ==> pos_less((#[trigger] self.entries@[i]).0, position),
            forall|i: int|
                rank <= i < self.entries@.len() ==> !pos_less(
                    (#[trigger] self.entries@[i]).0,
                    position,
                ),
        ensures
            r == (rank < self.entries@.len() && self.entries@[rank as int].0 == position),
            r == self@.contains_key(position),
            r ==> self@[position] == self.entries@[rank as int].1,
    {
        proof {
            if rank < self.entries@.len() && self.entries@[rank as int].0 == position {
                entry_map_at(self.entries@, rank as int);
            }
            if has_key(self.entries@, position) {
                let i = choose|i: int| #[trigger] stands_at(self.entries@, position, i);
                assert(stands_at(self.entries@, position, i));
                assert(self.entries@[i].0 == position);
                if i != rank {
                    assert(i > rank);
                    assert(pos_less(self.entries@[rank as int].0, self.entries@[i].0));
                }
            }
        }
        if rank < self.entries.len() {
            let key = self.entries[rank].0;
            key == position
        } else {
            false
        }
    }

    pub fn contains(&self, position: BlockPos) -> (r: bool)
        requires
            self.wf(),
        ensures
            r == self@.contains_key(position),
    {
        let rank = self.rank(position);
        self.found_at(rank, position)
    }

    /// Binds `position` to `value`, in place of an earlier value.
    pub fn insert(&mut self, position: BlockPos, value: V)
        requires
            old(self).wf(),
        ensures
            final(self).wf(),
            final(self)@ == old(self)@.insert(position, value),
    {
        let rank = self.rank(position);
        let found = self.found_at(rank, position);
        proof {
            insert_keeps_order(self.entries@, rank, found, position, value);
        }
        if found {
            self.entries.set(rank, (position, value));
        } else {
            self.entries.insert(rank, (position, value));
        }
    }

    /// Forgets `position`.
    pub fn remove(&mut self, position: BlockPos)
        requires
            old(self).wf(),
        ensures
            final(self).wf(),
            final(self)@ == old(self)@.remove(position),
    {
        let rank = self.rank(position);
        if self.found_at(rank, position) {
            proof {
                remove_keeps_order(self.entries@, rank, position);
            }
            let _ = self.entries.remove(rank);
        } else {
            proof {
                assert(self@.remove(position) =~= self@);
            }
        }
    }

    pub fn len(&self) -> (r: usize)
        ensures
            r == self.spec_entries().len(),
    {
        self.entries.len()
    }

    /// The entries in ascending order of their positions.
    pub fn into_entries(self) -> (r: Vec<(BlockPos, V)>)
        requires
            self.wf(),
        ensures
            ascending(r@),
            entry_map(r@) == self@,
    {
        self.entries
    }
}

impl<V: Copy> PositionMap<V> {
    /// The value that `position` is bound to.
    pub fn get(&self, position: BlockPos) -> (r: Option<V>)
        requires
            self.wf(),
        ensures
            r == if self@.contains_key(position) {
                Some(self@[position])
            } else {
                None
            },
    {
        let rank = self.rank(position);
        if self.found_at(rank, position) {
            Some(self.entries[rank].1)
        } else {
            None
        }
    }
}

} // verus!
