//! Keyed collection of partition buffers of one capture runtime.
use vstd::prelude::*;

use crate::buffer::PartitionBuffer;
use crate::text::{seq_lt, str_eq, str_lt, lemma_seq_lt_irreflexive, lemma_seq_lt_transitive};

verus! {

/// One buffered partition: its stable key and its rows.
#[derive(Debug)]
pub struct PartitionSlot<T> {
    pub key: String,
    pub buffer: PartitionBuffer<T>,
}

/// Sum of `f` over the slots.
pub open spec fn sum_by<T>(s: Seq<PartitionSlot<T>>, f: spec_fn(PartitionSlot<T>) -> nat) -> nat
    decreases s.len(),
{
    if s.len() == 0 {
        0
    } else {
        sum_by(s.drop_last(), f) + f(s.last())
    }
}

pub open spec fn rows_measure<T>() -> spec_fn(PartitionSlot<T>) -> nat {
    |x: PartitionSlot<T>| x.buffer.pending_rows as nat
}

pub open spec fn bytes_measure<T>() -> spec_fn(PartitionSlot<T>) -> nat {
    |x: PartitionSlot<T>| x.buffer.pending_bytes as nat
}

/// Removing slot `i` removes its share of the sum.
pub proof fn lemma_sum_remove<T>(s: Seq<PartitionSlot<T>>, i: int, f: spec_fn(PartitionSlot<T>) -> nat)
    requires
        0 <= i < s.len(),
    ensures
        sum_by(s.remove(i), f) + f(s[i]) == sum_by(s, f),
    decreases s.len(),
{
    if i == s.len() - 1 {
        assert(s.remove(i) =~= s.drop_last());
    } else {
        lemma_sum_remove(s.drop_last(), i, f);
        assert(s.remove(i).drop_last() =~= s.drop_last().remove(i));
        assert(s.remove(i).last() == s.last());
    }
}

/// Replacing slot `i` replaces its share of the sum.
pub proof fn lemma_sum_update<T>(
    s: Seq<PartitionSlot<T>>,
    i: int,
    v: PartitionSlot<T>,
    f: spec_fn(PartitionSlot<T>) -> nat,
)
    requires
        0 <= i < s.len(),
    ensures
        sum_by(s.update(i, v), f) + f(s[i]) == sum_by(s, f) + f(v),
    decreases s.len(),
{
    if i == s.len() - 1 {
        assert(s.update(i, v).drop_last() =~= s.drop_last());
    } else {
        lemma_sum_update(s.drop_last(), i, v, f);
        assert(s.update(i, v).drop_last() =~= s.drop_last().update(i, v));
    }
}

/// One slot's share never exceeds the sum.
pub proof fn lemma_sum_ge_elem<T>(s: Seq<PartitionSlot<T>>, i: int, f: spec_fn(PartitionSlot<T>) -> nat)
    requires
        0 <= i < s.len(),
    ensures
        f(s[i]) <= sum_by(s, f),
{
    lemma_sum_remove(s, i, f);
}

/// `(ts_a, key_a) < (ts_b, key_b)`: earlier first event, ties broken by key.
pub open spec fn older(ts_a: u64, key_a: Seq<char>, ts_b: u64, key_b: Seq<char>) -> bool {
    ts_a < ts_b || (ts_a == ts_b && seq_lt(key_a, key_b))
}

/// Age key of a buffer: its earliest event time, `u64::MAX` when unknown.
pub open spec fn age_of<T>(b: PartitionBuffer<T>) -> u64 {
    match b.min_ts_ns {
        Some(t) => t,
        None => u64::MAX,
    }
}

/// Number of slots holding rows.
pub open spec fn count_nonempty<T>(s: Seq<PartitionSlot<T>>) -> nat
    decreases s.len(),
{
    if s.len() == 0 {
        0
    } else {
        count_nonempty(s.drop_last()) + if s.last().buffer.items@.len() > 0 { 1nat } else { 0nat }
    }
}

proof fn lemma_count_nonempty_all<T>(s: Seq<PartitionSlot<T>>)
    requires
        forall|i: int| 0 <= i < s.len() ==> #[trigger] s[i].buffer.items@.len() > 0,
    ensures
        count_nonempty(s) == s.len(),
    decreases s.len(),
{
    if s.len() > 0 {
        lemma_count_nonempty_all(s.drop_last());
    }
}

/// Partition buffers keyed by stable partition key, in insertion order.
#[derive(Debug)]
pub struct PartitionMap<T> {
    pub entries: Vec<PartitionSlot<T>>,
}

impl<T> PartitionMap<T> {
    pub open spec fn len_spec(&self) -> nat {
        self.entries@.len()
    }

    pub open spec fn has_key(&self, k: Seq<char>) -> bool {
        exists|i: int| 0 <= i < self.entries@.len() && #[trigger] self.entries@[i].key@ == k
    }

    /// Position of key `k` (meaningful when `has_key(k)`).
    pub open spec fn index_of(&self, k: Seq<char>) -> int {
        choose|i: int| 0 <= i < self.entries@.len() && #[trigger] self.entries@[i].key@ == k
    }

    pub open spec fn total_rows(&self) -> nat {
        sum_by(self.entries@, rows_measure())
    }

    pub open spec fn total_bytes(&self) -> nat {
        sum_by(self.entries@, bytes_measure())
    }

    /// Keys are distinct, every buffer is consistent and holds at least one row.
    pub open spec fn wf(&self) -> bool {
        &&& forall|i: int, j: int|
            0 <= i < j < self.entries@.len() ==> #[trigger] self.entries@[i].key@
                != #[trigger] self.entries@[j].key@
        &&& forall|i: int|
            0 <= i < self.entries@.len() ==> (#[trigger] self.entries@[i]).buffer.wf()
                && self.entries@[i].buffer.items@.len() > 0
    }

    /// Every buffer is below the given flush thresholds.
    pub open spec fn all_below(&self, flush_rows: usize, max_buffer_bytes: usize) -> bool {
        forall|i: int|
            0 <= i < self.entries@.len() ==> (#[trigger] self.entries@[i]).buffer.pending_rows
                < flush_rows && self.entries@[i].buffer.pending_bytes < max_buffer_bytes
    }

    /// Every buffer holds a positive byte estimate.
    pub open spec fn all_positive_bytes(&self) -> bool {
        forall|i: int|
            0 <= i < self.entries@.len() ==> (#[trigger] self.entries@[i]).buffer.pending_bytes > 0
    }

    /// Slot `i` holds rows and is the oldest such slot: no other non-empty slot
    /// is strictly older by (earliest event time, key).
    pub open spec fn is_oldest_at(&self, i: int) -> bool {
        &&& 0 <= i < self.entries@.len()
        &&& self.entries@[i].buffer.items@.len() > 0
        &&& forall|j: int|
            0 <= j < self.entries@.len() && (#[trigger] self.entries@[j]).buffer.items@.len() > 0
                ==> !older(
                age_of(self.entries@[j].buffer),
                self.entries@[j].key@,
                age_of(self.entries@[i].buffer),
                self.entries@[i].key@,
            )
    }

    pub proof fn lemma_index_of(&self, k: Seq<char>)
        requires
            self.wf(),
            self.has_key(k),
        ensures
            0 <= self.index_of(k) < self.entries@.len(),
            self.entries@[self.index_of(k)].key@ == k,
            forall|i: int| 0 <= i < self.entries@.len() && self.entries@[i].key@ == k ==> i == self.index_of(k),
    {
        let i = self.index_of(k);
        assert forall|j: int| 0 <= j < self.entries@.len() && self.entries@[j].key@ == k implies j == i by {
            if j < i {
                assert(self.entries@[j].key@ != self.entries@[i].key@);
            } else if i < j {
                assert(self.entries@[i].key@ != self.entries@[j].key@);
            }
        }
    }

    pub fn new() -> (m: Self)
        ensures
            m.entries@.len() == 0,
            m.wf(),
            m.total_rows() == 0,
            m.total_bytes() == 0,
    {
        PartitionMap { entries: Vec::new() }
    }

    pub fn len(&self) -> (n: usize)
        ensures
            n == self.entries@.len(),
    {
        self.entries.len()
    }

    pub fn is_empty(&self) -> (r: bool)
        ensures
            r == (self.entries@.len() == 0),
    {
        self.entries.len() == 0
    }

    /// Position of `key`, if buffered.
    pub fn find(&self, key: &str) -> (r: Option<usize>)
        ensures
            r matches Some(i) ==> i < self.entries@.len() && self.entries@[i as int].key@ == key@,
            r is None ==> !self.has_key(key@),
    {
        let mut i: usize = 0;
        while i < self.entries.len()
            invariant
                i <= self.entries@.len(),
                forall|j: int| 0 <= j < i ==> self.entries@[j].key@ != key@,
            decreases self.entries@.len() - i,
        {
            if str_eq(self.entries[i].key.as_str(), key) {
                return Some(i);
            }
            i = i + 1;
        }
        None
    }

    /// True when `key` has a buffer.
    pub fn contains_key(&self, key: &str) -> (r: bool)
        ensures
            r == self.has_key(key@),
    {
        match self.find(key) {
            Some(i) => {
                assert(self.entries@[i as int].key@ == key@);
                true
            },
            None => false,
        }
    }

    /// The buffer of `key`, if any.
    pub fn get(&self, key: &str) -> (r: Option<&PartitionBuffer<T>>)
        requires
            self.wf(),
        ensures
            r is None ==> !self.has_key(key@),
            r matches Some(b) ==> self.has_key(key@) && *b == self.entries@[self.index_of(key@)].buffer,
    {
        match self.find(key) {
            Some(i) => {
                proof {
                    self.lemma_index_of(key@);
                }
                Some(&self.entries[i].buffer)
            },
            None => None,
        }
    }

    /// Removes and returns the buffer of `key`.
    pub fn remove(&mut self, key: &str) -> (r: Option<PartitionBuffer<T>>)
        requires
            old(self).wf(),
        ensures
            final(self).wf(),
            r is None ==> !old(self).has_key(key@) && final(self).entries@ == old(self).entries@,
            r matches Some(b) ==> {
                &&& old(self).has_key(key@)
                &&& b == old(self).entries@[old(self).index_of(key@)].buffer
                &&& final(self).entries@ == old(self).entries@.remove(old(self).index_of(key@))
            },
            !final(self).has_key(key@),
            final(self).total_rows() <= old(self).total_rows(),
            final(self).total_bytes() <= old(self).total_bytes(),
    {
        match self.find(key) {
            Some(i) => {
                proof {
                    old(self).lemma_index_of(key@);
                    lemma_sum_remove(self.entries@, i as int, rows_measure());
                    lemma_sum_remove(self.entries@, i as int, bytes_measure());
                }
                let ghost before = self.entries@;
                let slot = self.entries.remove(i);
                proof {
                    assert forall|a: int, b: int|
                        0 <= a < b < self.entries@.len() implies #[trigger] self.entries@[a].key@
                        != #[trigger] self.entries@[b].key@ by {
                        let a2 = if a < i { a } else { a + 1 };
                        let b2 = if b < i { b } else { b + 1 };
                        assert(self.entries@[a] == before[a2]);
                        assert(self.entries@[b] == before[b2]);
                    }
                    assert forall|a: int| 0 <= a < self.entries@.len() implies #[trigger] self.entries@[a].key@ != key@ by {
                        let a2 = if a < i { a } else { a + 1 };
                        assert(self.entries@[a] == before[a2]);
                        assert(a2 != i);
                    }
                }
                Some(slot.buffer)
            },
            None => None,
        }
    }

    /// Appends one row to the buffer of `key`, creating the buffer when absent.
    pub fn push_row(&mut self, key: String, item: T, event_ts_ns: u64, estimated_bytes: usize)
        requires
            old(self).wf(),
            old(self).total_rows() + 1 <= usize::MAX,
            old(self).total_bytes() + estimated_bytes <= usize::MAX,
        ensures
            final(self).wf(),
            final(self).has_key(key@),
            final(self).total_rows() == old(self).total_rows() + 1,
            final(self).total_bytes() == old(self).total_bytes() + estimated_bytes,
            old(self).has_key(key@) ==> {
                let i = old(self).index_of(key@);
                let b = final(self).entries@[i].buffer;
                let o = old(self).entries@[i].buffer;
                &&& final(self).entries@.len() == old(self).entries@.len()
                &&& final(self).entries@[i].key@ == key@
                &&& forall|j: int| 0 <= j < old(self).entries@.len() && j != i ==> final(self).entries@[j] == old(self).entries@[j]
                &&& b.items@ == o.items@.push(item)
                &&& b.pending_rows == o.pending_rows + 1
                &&& b.pending_bytes == o.pending_bytes + estimated_bytes
                &&& b.min_ts_ns == crate::buffer::lower_bound(o.min_ts_ns, event_ts_ns)
                &&& b.max_ts_ns == crate::buffer::upper_bound(o.max_ts_ns, event_ts_ns)
            },
            !old(self).has_key(key@) ==> {
                let n = old(self).entries@.len() as int;
                let b = final(self).entries@[n].buffer;
                &&& final(self).entries@.len() == n + 1
                &&& final(self).entries@.subrange(0, n) == old(self).entries@
                &&& final(self).entries@[n].key@ == key@
                &&& b.items@ == seq![item]
                &&& b.pending_rows == 1
                &&& b.pending_bytes == estimated_bytes
                &&& b.min_ts_ns == Some(event_ts_ns)
                &&& b.max_ts_ns == Some(event_ts_ns)
            },
    {
        match self.find(key.as_str()) {
            Some(i) => {
                proof {
                    old(self).lemma_index_of(key@);
                    lemma_sum_ge_elem(self.entries@, i as int, rows_measure());
                    lemma_sum_ge_elem(self.entries@, i as int, bytes_measure());
                }
                let ghost before = self.entries@;
                let mut slot = self.entries.remove(i);
                slot.buffer.push(item, event_ts_ns, estimated_bytes);
                let ghost new_slot = slot;
                self.entries.insert(i, slot);
                proof {
                    assert(self.entries@ =~= before.update(i as int, new_slot));
                    lemma_sum_update(before, i as int, new_slot, rows_measure());
                    lemma_sum_update(before, i as int, new_slot, bytes_measure());
                    assert(self.entries@[i as int].key@ == key@);
                }
            },
            None => {
                let mut buffer = PartitionBuffer::new();
                buffer.push(item, event_ts_ns, estimated_bytes);
                let ghost before = self.entries@;
                self.entries.push(PartitionSlot { key, buffer });
                proof {
                    assert(self.entries@.drop_last() =~= before);
                    assert(self.entries@.subrange(0, before.len() as int) =~= before);
                    let n = before.len() as int;
                    assert(self.entries@[n].key@ == key@);
                }
            },
        }
    }

    /// Summed pending bytes of all buffers.
    pub fn total_pending_bytes(&self) -> (r: usize)
        requires
            self.total_bytes() <= usize::MAX,
        ensures
            r == self.total_bytes(),
    {
        let mut total: usize = 0;
        let mut i: usize = 0;
        while i < self.entries.len()
            invariant
                i <= self.entries@.len(),
                total == sum_by(self.entries@.subrange(0, i as int), bytes_measure()),
                sum_by(self.entries@, bytes_measure()) <= usize::MAX,
            decreases self.entries@.len() - i,
        {
            proof {
                let s = self.entries@.subrange(0, i as int + 1);
                assert(s.drop_last() =~= self.entries@.subrange(0, i as int));
                lemma_sum_prefix_le(self.entries@, i as int + 1, bytes_measure());
            }
            total = total + self.entries[i].buffer.pending_bytes;
            i = i + 1;
        }
        assert(self.entries@.subrange(0, i as int) =~= self.entries@);
        total
    }

    /// Number of buffers holding rows.
    pub fn nonempty_count(&self) -> (r: usize)
        ensures
            r == count_nonempty(self.entries@),
    {
        let mut count: usize = 0;
        let mut i: usize = 0;
        while i < self.entries.len()
            invariant
                i <= self.entries@.len(),
                count == count_nonempty(self.entries@.subrange(0, i as int)),
                count <= i,
            decreases self.entries@.len() - i,
        {
            proof {
                let s = self.entries@.subrange(0, i as int + 1);
                assert(s.drop_last() =~= self.entries@.subrange(0, i as int));
            }
            if self.entries[i].buffer.items.len() > 0 {
                count = count + 1;
            }
            i = i + 1;
        }
        assert(self.entries@.subrange(0, i as int) =~= self.entries@);
        count
    }

    /// The keys, in slot order.
    pub fn keys(&self) -> (v: Vec<String>)
        ensures
            v@.len() == self.entries@.len(),
            forall|i: int| 0 <= i < v@.len() ==> #[trigger] v@[i]@ == self.entries@[i].key@,
    {
        let mut v: Vec<String> = Vec::new();
        let mut i: usize = 0;
        while i < self.entries.len()
            invariant
                i <= self.entries@.len(),
                v@.len() == i,
                forall|j: int| 0 <= j < i ==> #[trigger] v@[j]@ == self.entries@[j].key@,
            decreases self.entries@.len() - i,
        {
            v.push(self.entries[i].key.clone());
            i = i + 1;
        }
        v
    }

    /// Position of the oldest buffer holding rows: smallest earliest event
    /// time, ties broken by key.
    pub fn oldest_index(&self) -> (r: Option<usize>)
        ensures
            r matches Some(i) ==> self.is_oldest_at(i as int),
            r is None ==> forall|j: int| 0 <= j < self.entries@.len() ==> (#[trigger] self.entries@[j]).buffer.items@.len() == 0,
    {
        let mut best: Option<usize> = None;
        let mut i: usize = 0;
        while i < self.entries.len()
            invariant
                i <= self.entries@.len(),
                best is None ==> forall|j: int| 0 <= j < i ==> (#[trigger] self.entries@[j]).buffer.items@.len() == 0,
                best matches Some(b) ==> {
                    &&& b < i
                    &&& self.entries@[b as int].buffer.items@.len() > 0
                    &&& forall|j: int|
                        0 <= j < i && (#[trigger] self.entries@[j]).buffer.items@.len() > 0 ==> !older(
                        age_of(self.entries@[j].buffer),
                        self.entries@[j].key@,
                        age_of(self.entries@[b as int].buffer),
                        self.entries@[b as int].key@,
                    )
                },
            decreases self.entries@.len() - i,
        {
            let slot = &self.entries[i];
            if slot.buffer.items.len() > 0 {
                let ts = match slot.buffer.min_ts_ns {
                    Some(t) => t,
                    None => u64::MAX,
                };
                match best {
                    None => {
                        proof {
                            lemma_seq_lt_irreflexive(slot.key@);
                        }
                        best = Some(i);
                    },
                    Some(b) => {
                        let best_slot = &self.entries[b];
                        let best_ts = match best_slot.buffer.min_ts_ns {
                            Some(t) => t,
                            None => u64::MAX,
                        };
                        let is_older = ts < best_ts || (ts == best_ts && str_lt(
                            slot.key.as_str(),
                            best_slot.key.as_str(),
                        ));
                        if is_older {
                            proof {
                                lemma_seq_lt_irreflexive(slot.key@);
                                assert forall|j: int|
                                    0 <= j < i + 1 && (#[trigger] self.entries@[j]).buffer.items@.len() > 0 implies !older(
                                    age_of(self.entries@[j].buffer),
                                    self.entries@[j].key@,
                                    age_of(self.entries@[i as int].buffer),
                                    self.entries@[i as int].key@,
                                ) by {
                                    if j < i {
                                        if older(
                                            age_of(self.entries@[j].buffer),
                                            self.entries@[j].key@,
                                            age_of(self.entries@[i as int].buffer),
                                            self.entries@[i as int].key@,
                                        ) {
                                            if age_of(self.entries@[j].buffer) == age_of(self.entries@[i as int].buffer)
                                                && ts == best_ts {
                                                lemma_seq_lt_transitive(
                                                    self.entries@[j].key@,
                                                    self.entries@[i as int].key@,
                                                    self.entries@[b as int].key@,
                                                );
                                            }
                                        }
                                    }
                                }
                            }
                            best = Some(i);
                        }
                    },
                }
            }
            i = i + 1;
        }
        best
    }
}

/// Pending rows and bytes of each buffered partition, by key.
pub open spec fn load_of<T>(m: PartitionMap<T>) -> Map<Seq<char>, (int, int)> {
    Map::new(
        |k: Seq<char>| m.has_key(k),
        |k: Seq<char>| {
            let b = m.entries@[m.index_of(k)].buffer;
            (b.pending_rows as int, b.pending_bytes as int)
        },
    )
}

/// A load after one more row of `bytes` in partition `k`.
pub open spec fn load_pushed(l: Map<Seq<char>, (int, int)>, k: Seq<char>, bytes: int) -> Map<Seq<char>, (int, int)> {
    l.insert(k, if l.contains_key(k) { (l[k].0 + 1, l[k].1 + bytes) } else { (1, bytes) })
}

/// Buffering one row in partition `k` (as `push_row` does) pushes the load.
pub proof fn lemma_load_after_push<T>(before: PartitionMap<T>, after: PartitionMap<T>, k: Seq<char>, bytes: int)
    requires
        before.wf(),
        after.wf(),
        after.has_key(k),
        before.has_key(k) ==> {
            let i = before.index_of(k);
            &&& after.entries@.len() == before.entries@.len()
            &&& after.entries@[i].key@ == k
            &&& forall|j: int| 0 <= j < before.entries@.len() && j != i ==> after.entries@[j] == before.entries@[j]
            &&& after.entries@[i].buffer.pending_rows == before.entries@[i].buffer.pending_rows + 1
            &&& after.entries@[i].buffer.pending_bytes == before.entries@[i].buffer.pending_bytes + bytes
        },
        !before.has_key(k) ==> {
            let n = before.entries@.len() as int;
            &&& after.entries@.len() == n + 1
            &&& after.entries@.subrange(0, n) == before.entries@
            &&& after.entries@[n].key@ == k
            &&& after.entries@[n].buffer.pending_rows == 1
            &&& after.entries@[n].buffer.pending_bytes == bytes
        },
    ensures
        load_of(after) == load_pushed(load_of(before), k, bytes),
{
    let l0 = load_of(before);
    let l1 = load_of(after);
    let target = load_pushed(l0, k, bytes);
    after.lemma_index_of(k);
    if before.has_key(k) {
        before.lemma_index_of(k);
    }
    assert forall|x: Seq<char>| #[trigger] l1.contains_key(x) <==> target.contains_key(x) by {
        if x != k {
            if after.has_key(x) {
                after.lemma_index_of(x);
                let j = after.index_of(x);
                if before.has_key(k) {
                    assert(after.entries@[j] == before.entries@[j]);
                } else {
                    assert(j < before.entries@.len());
                    assert(after.entries@.subrange(0, before.entries@.len() as int)[j] == after.entries@[j]);
                }
                assert(before.entries@[j].key@ == x);
            }
            if before.has_key(x) {
                before.lemma_index_of(x);
                let j = before.index_of(x);
                if before.has_key(k) {
                    assert(j != before.index_of(k));
                    assert(after.entries@[j] == before.entries@[j]);
                } else {
                    assert(after.entries@.subrange(0, before.entries@.len() as int)[j] == after.entries@[j]);
                }
                assert(after.entries@[j].key@ == x);
            }
        }
    }
    assert forall|x: Seq<char>| #[trigger] l1.contains_key(x) implies l1[x] == target[x] by {
        if x == k {
        } else {
            after.lemma_index_of(x);
            let j = after.index_of(x);
            if before.has_key(k) {
                assert(after.entries@[j] == before.entries@[j]);
            } else {
                assert(after.entries@.subrange(0, before.entries@.len() as int)[j] == after.entries@[j]);
            }
            assert(before.has_key(x));
            before.lemma_index_of(x);
        }
    }
    assert(l1 =~= target);
}

/// A prefix sum never exceeds the whole sum.
pub proof fn lemma_sum_prefix_le<T>(s: Seq<PartitionSlot<T>>, n: int, f: spec_fn(PartitionSlot<T>) -> nat)
    requires
        0 <= n <= s.len(),
    ensures
        sum_by(s.subrange(0, n), f) <= sum_by(s, f),
    decreases s.len() - n,
{
    if n < s.len() {
        lemma_sum_prefix_le(s, n + 1, f);
        assert(s.subrange(0, n + 1).drop_last() =~= s.subrange(0, n));
    } else {
        assert(s.subrange(0, n) =~= s);
    }
}

pub proof fn lemma_wf_count<T>(m: &PartitionMap<T>)
    requires
        m.wf(),
    ensures
        count_nonempty(m.entries@) == m.entries@.len(),
{
    lemma_count_nonempty_all(m.entries@);
}

} // verus!
