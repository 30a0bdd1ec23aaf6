//! Bookkeeping of the online option metrics observer: which universes watch
//! an instrument, how a universe change reroutes them, when a snapshot is due,
//! and the parts of an option identifier. The metrics themselves are
//! floating-point and computed by the caller.
use vstd::prelude::*;

use crate::fields::{lemma_split_nonempty, split_on};
use crate::plan::strings_view;
use crate::text::{chars_of, str_eq};

verus! {

/// Universes watching one instrument.
#[derive(Debug, Clone)]
pub struct RouteEntry {
    pub instrument_id: String,
    pub universes: Vec<usize>,
}

/// Instrument identifier (text) to the indexes of the universes watching it.
#[derive(Debug, Clone)]
pub struct UniverseRouting {
    pub entries: Vec<RouteEntry>,
}

/// `s` without any occurrence of `x`, in order.
pub open spec fn without(s: Seq<usize>, x: usize) -> Seq<usize>
    decreases s.len(),
{
    if s.len() == 0 {
        s
    } else {
        let rest = without(s.drop_last(), x);
        if s.last() == x { rest } else { rest.push(s.last()) }
    }
}

/// `m` after universe `index` starts watching `id`.
pub open spec fn routed(m: Map<Seq<char>, Seq<usize>>, id: Seq<char>, index: usize) -> Map<Seq<char>, Seq<usize>> {
    m.insert(id, (if m.contains_key(id) { m[id] } else { Seq::empty() }).push(index))
}

/// `m` after universe `index` stops watching `id`; an instrument nobody
/// watches is dropped.
pub open spec fn unrouted(m: Map<Seq<char>, Seq<usize>>, id: Seq<char>, index: usize) -> Map<Seq<char>, Seq<usize>> {
    if m.contains_key(id) {
        let rest = without(m[id], index);
        if rest.len() == 0 { m.remove(id) } else { m.insert(id, rest) }
    } else {
        m
    }
}

pub open spec fn routed_all(m: Map<Seq<char>, Seq<usize>>, ids: Seq<Seq<char>>, index: usize) -> Map<Seq<char>, Seq<usize>>
    decreases ids.len(),
{
    if ids.len() == 0 { m } else { routed(routed_all(m, ids.drop_last(), index), ids.last(), index) }
}

pub open spec fn unrouted_all(m: Map<Seq<char>, Seq<usize>>, ids: Seq<Seq<char>>, index: usize) -> Map<Seq<char>, Seq<usize>>
    decreases ids.len(),
{
    if ids.len() == 0 { m } else { unrouted(unrouted_all(m, ids.drop_last(), index), ids.last(), index) }
}

pub open spec fn texts(v: Seq<String>) -> Seq<Seq<char>> {
    v.map_values(|s: String| s@)
}

impl UniverseRouting {
    pub open spec fn wf(&self) -> bool {
        forall|i: int, j: int| 0 <= i < j < self.entries@.len() ==> #[trigger] self.entries@[i].instrument_id@
            != #[trigger] self.entries@[j].instrument_id@
    }

    pub open spec fn view_map(&self) -> Map<Seq<char>, Seq<usize>> {
        Map::new(
            |k: Seq<char>| exists|i: int| 0 <= i < self.entries@.len() && #[trigger] self.entries@[i].instrument_id@ == k,
            |k: Seq<char>| self.entries@[choose|i: int| 0 <= i < self.entries@.len() && #[trigger] self.entries@[i].instrument_id@ == k].universes@,
        )
    }

    pub fn new() -> (r: Self)
        ensures
            r.wf(),
            r.view_map() == Map::<Seq<char>, Seq<usize>>::empty(),
    {
        let r = UniverseRouting { entries: Vec::new() };
        assert(r.view_map() =~= Map::<Seq<char>, Seq<usize>>::empty());
        r
    }

    fn position(&self, id: &str) -> (r: Option<usize>)
        requires
            self.wf(),
        ensures
            r is None ==> !self.view_map().contains_key(id@),
            r matches Some(i) ==> i < self.entries@.len() && self.entries@[i as int].instrument_id@ == id@,
    {
        let mut i: usize = 0;
        while i < self.entries.len()
            invariant
                i <= self.entries@.len(),
                forall|j: int| 0 <= j < i ==> self.entries@[j].instrument_id@ != id@,
            decreases self.entries@.len() - i,
        {
            if str_eq(self.entries[i].instrument_id.as_str(), id) {
                return Some(i);
            }
            i = i + 1;
        }
        None
    }

    proof fn lemma_at(&self, i: int)
        requires
            self.wf(),
            0 <= i < self.entries@.len(),
        ensures
            self.view_map().contains_key(self.entries@[i].instrument_id@),
            self.view_map()[self.entries@[i].instrument_id@] == self.entries@[i].universes@,
    {
        let k = self.entries@[i].instrument_id@;
        assert(self.view_map().contains_key(k));
        let c = choose|c: int| 0 <= c < self.entries@.len() && #[trigger] self.entries@[c].instrument_id@ == k;
        if c != i {
            if c < i {
                assert(self.entries@[c].instrument_id@ != self.entries@[i].instrument_id@);
            } else {
                assert(self.entries@[i].instrument_id@ != self.entries@[c].instrument_id@);
            }
        }
    }

    /// The universes watching `id`, in the order they started to.
    pub fn universes_for(&self, id: &str) -> (r: Option<Vec<usize>>)
        requires
            self.wf(),
        ensures
            r is None ==> !self.view_map().contains_key(id@),
            r matches Some(v) ==> self.view_map().contains_key(id@) && v@ == self.view_map()[id@],
    {
        match self.position(id) {
            Some(i) => {
                proof {
                    self.lemma_at(i as int);
                }
                Some(self.entries[i].universes.clone())
            },
            None => None,
        }
    }

    /// Entries and view agree: each entry's key maps to its universes.
    proof fn lemma_entries_view(&self)
        requires
            self.wf(),
        ensures
            forall|c: int| 0 <= c < self.entries@.len() ==> self.view_map().contains_key(#[trigger] self.entries@[c].instrument_id@)
                && self.view_map()[self.entries@[c].instrument_id@] == self.entries@[c].universes@,
    {
        assert forall|c: int| 0 <= c < self.entries@.len() implies self.view_map().contains_key(#[trigger] self.entries@[c].instrument_id@)
            && self.view_map()[self.entries@[c].instrument_id@] == self.entries@[c].universes@ by {
            self.lemma_at(c);
        }
    }

    /// Replaces the universes of entry `i`.
    fn set_universes(&mut self, i: usize, universes: Vec<usize>)
        requires
            old(self).wf(),
            i < old(self).entries@.len(),
        ensures
            final(self).wf(),
            final(self).view_map() == old(self).view_map().insert(old(self).entries@[i as int].instrument_id@, universes@),
    {
        let ghost m0 = self.view_map();
        let ghost before = self.entries@;
        proof {
            self.lemma_entries_view();
        }
        let mut entry = self.entries.remove(i);
        entry.universes = universes;
        self.entries.insert(i, entry);
        let ghost key = before[i as int].instrument_id@;
        proof {
            assert forall|a: int, b: int| 0 <= a < b < self.entries@.len() implies #[trigger] self.entries@[a].instrument_id@
                != #[trigger] self.entries@[b].instrument_id@ by {
                assert(self.entries@[a].instrument_id@ == before[a].instrument_id@);
                assert(self.entries@[b].instrument_id@ == before[b].instrument_id@);
            }
            self.lemma_entries_view();
            let target = m0.insert(key, universes@);
            assert forall|k: Seq<char>| #[trigger] self.view_map().contains_key(k) <==> target.contains_key(k) by {
                if target.contains_key(k) {
                    if k == key {
                        assert(self.entries@[i as int].instrument_id@ == k);
                    } else {
                        let c = choose|c: int| 0 <= c < before.len() && #[trigger] before[c].instrument_id@ == k;
                        assert(self.entries@[c].instrument_id@ == k);
                    }
                }
                if self.view_map().contains_key(k) {
                    let c = choose|c: int| 0 <= c < self.entries@.len() && #[trigger] self.entries@[c].instrument_id@ == k;
                    assert(before[c].instrument_id@ == k);
                }
            }
            assert forall|k: Seq<char>| #[trigger] self.view_map().contains_key(k) implies self.view_map()[k] == target[k] by {
                let c = choose|c: int| 0 <= c < self.entries@.len() && #[trigger] self.entries@[c].instrument_id@ == k;
                assert(before[c].instrument_id@ == k);
                if c != i as int {
                    assert(before[c] == self.entries@[c]);
                    assert(m0[before[c].instrument_id@] == before[c].universes@);
                }
            }
            assert(self.view_map() =~= target);
        }
    }

    /// Drops entry `i`.
    fn remove_entry(&mut self, i: usize)
        requires
            old(self).wf(),
            i < old(self).entries@.len(),
        ensures
            final(self).wf(),
            final(self).view_map() == old(self).view_map().remove(old(self).entries@[i as int].instrument_id@),
    {
        let ghost m0 = self.view_map();
        let ghost before = self.entries@;
        proof {
            self.lemma_entries_view();
        }
        let _ = self.entries.remove(i);
        let ghost key = before[i as int].instrument_id@;
        proof {
            assert forall|a: int, b: int| 0 <= a < b < self.entries@.len() implies #[trigger] self.entries@[a].instrument_id@
                != #[trigger] self.entries@[b].instrument_id@ by {
                let a2 = if a < i { a } else { a + 1 };
                let b2 = if b < i { b } else { b + 1 };
                assert(self.entries@[a] == before[a2]);
                assert(self.entries@[b] == before[b2]);
            }
            self.lemma_entries_view();
            let target = m0.remove(key);
            assert forall|k: Seq<char>| #[trigger] self.view_map().contains_key(k) <==> target.contains_key(k) by {
                if target.contains_key(k) {
                    let c = choose|c: int| 0 <= c < before.len() && #[trigger] before[c].instrument_id@ == k;
                    assert(c != i as int);
                    let c2 = if c < i { c } else { c - 1 };
                    assert(self.entries@[c2] == before[c]);
                }
                if self.view_map().contains_key(k) {
                    let c = choose|c: int| 0 <= c < self.entries@.len() && #[trigger] self.entries@[c].instrument_id@ == k;
                    let c2 = if c < i { c } else { c + 1 };
                    assert(self.entries@[c] == before[c2]);
                    assert(c2 != i as int);
                    if k == key {
                        if c2 < i {
                            assert(before[c2].instrument_id@ != before[i as int].instrument_id@);
                        } else {
                            assert(before[i as int].instrument_id@ != before[c2].instrument_id@);
                        }
                    }
                }
            }
            assert forall|k: Seq<char>| #[trigger] self.view_map().contains_key(k) implies self.view_map()[k] == target[k] by {
                let c = choose|c: int| 0 <= c < self.entries@.len() && #[trigger] self.entries@[c].instrument_id@ == k;
                let c2 = if c < i { c } else { c + 1 };
                assert(self.entries@[c] == before[c2]);
                assert(m0[before[c2].instrument_id@] == before[c2].universes@);
            }
            assert(self.view_map() =~= target);
        }
    }

    /// Universe `index` starts watching `id`.
    pub fn route(&mut self, id: &str, index: usize)
        requires
            old(self).wf(),
        ensures
            final(self).wf(),
            final(self).view_map() == routed(old(self).view_map(), id@, index),
    {
        let ghost m0 = self.view_map();
        match self.position(id) {
            Some(i) => {
                proof {
                    self.lemma_at(i as int);
                }
                let mut universes = self.entries[i].universes.clone();
                universes.push(index);
                self.set_universes(i, universes);
            },
            None => {
                let ghost before = self.entries@;
                proof {
                    self.lemma_entries_view();
                }
                let mut universes: Vec<usize> = Vec::new();
                universes.push(index);
                self.entries.push(RouteEntry { instrument_id: id.to_string(), universes });
                proof {
                    let n = before.len() as int;
                    assert forall|a: int, b: int| 0 <= a < b < self.entries@.len() implies #[trigger] self.entries@[a].instrument_id@
                        != #[trigger] self.entries@[b].instrument_id@ by {
                        if b == n {
                            if before[a].instrument_id@ == id@ {
                                assert(m0.contains_key(id@));
                            }
                        }
                    }
                    self.lemma_entries_view();
                    let target = routed(m0, id@, index);
                    assert forall|k: Seq<char>| #[trigger] self.view_map().contains_key(k) <==> target.contains_key(k) by {
                        if target.contains_key(k) {
                            if k == id@ {
                                assert(self.entries@[n].instrument_id@ == k);
                            } else {
                                let c = choose|c: int| 0 <= c < before.len() && #[trigger] before[c].instrument_id@ == k;
                                assert(self.entries@[c].instrument_id@ == k);
                            }
                        }
                        if self.view_map().contains_key(k) && k != id@ {
                            let c = choose|c: int| 0 <= c < self.entries@.len() && #[trigger] self.entries@[c].instrument_id@ == k;
                            assert(c < n);
                            assert(before[c].instrument_id@ == k);
                        }
                    }
                    assert forall|k: Seq<char>| #[trigger] self.view_map().contains_key(k) implies self.view_map()[k] == target[k] by {
                        let c = choose|c: int| 0 <= c < self.entries@.len() && #[trigger] self.entries@[c].instrument_id@ == k;
                        if c < n {
                            assert(before[c] == self.entries@[c]);
                            assert(m0[before[c].instrument_id@] == before[c].universes@);
                        } else {
                            assert(self.entries@[n].universes@ =~= Seq::<usize>::empty().push(index));
                        }
                    }
                    assert(self.view_map() =~= target);
                }
            },
        }
    }

    /// Universe `index` stops watching `id`.
    pub fn unroute(&mut self, id: &str, index: usize)
        requires
            old(self).wf(),
        ensures
            final(self).wf(),
            final(self).view_map() == unrouted(old(self).view_map(), id@, index),
    {
        match self.position(id) {
            Some(i) => {
                proof {
                    self.lemma_at(i as int);
                }
                let rest = without_index(&self.entries[i].universes, index);
                if rest.len() == 0 {
                    self.remove_entry(i);
                } else {
                    self.set_universes(i, rest);
                }
            },
            None => {},
        }
    }
}

fn without_index(v: &Vec<usize>, x: usize) -> (r: Vec<usize>)
    ensures
        r@ == without(v@, x),
{
    let mut r: Vec<usize> = Vec::new();
    let mut i: usize = 0;
    assert(v@.take(0) =~= Seq::<usize>::empty());
    while i < v.len()
        invariant
            i <= v@.len(),
            r@ == without(v@.take(i as int), x),
        decreases v@.len() - i,
    {
        proof {
            let t = v@.take(i as int + 1);
            assert(t.drop_last() =~= v@.take(i as int));
        }
        if v[i] != x {
            r.push(v[i]);
        }
        i = i + 1;
    }
    assert(v@.take(v@.len() as int) =~= v@);
    r
}

impl UniverseRouting {
    /// Universe `index` stops watching each of `ids`, in order.
    pub fn unroute_all(&mut self, ids: &Vec<String>, index: usize)
        requires
            old(self).wf(),
        ensures
            final(self).wf(),
            final(self).view_map() == unrouted_all(old(self).view_map(), texts(ids@), index),
    {
        let ghost m0 = self.view_map();
        let mut i: usize = 0;
        assert(texts(ids@).take(0) =~= Seq::<Seq<char>>::empty());
        while i < ids.len()
            invariant
                i <= ids@.len(),
                self.wf(),
                self.view_map() == unrouted_all(m0, texts(ids@).take(i as int), index),
            decreases ids@.len() - i,
        {
            proof {
                let t = texts(ids@).take(i as int + 1);
                assert(t.drop_last() =~= texts(ids@).take(i as int));
                assert(t.last() == ids@[i as int]@);
            }
            self.unroute(ids[i].as_str(), index);
            i = i + 1;
        }
        assert(texts(ids@).take(ids@.len() as int) =~= texts(ids@));
    }

    /// Universe `index` starts watching each of `ids`, in order.
    pub fn route_all(&mut self, ids: &Vec<String>, index: usize)
        requires
            old(self).wf(),
        ensures
            final(self).wf(),
            final(self).view_map() == routed_all(old(self).view_map(), texts(ids@), index),
    {
        let ghost m0 = self.view_map();
        let mut i: usize = 0;
        assert(texts(ids@).take(0) =~= Seq::<Seq<char>>::empty());
        while i < ids.len()
            invariant
                i <= ids@.len(),
                self.wf(),
                self.view_map() == routed_all(m0, texts(ids@).take(i as int), index),
            decreases ids@.len() - i,
        {
            proof {
                let t = texts(ids@).take(i as int + 1);
                assert(t.drop_last() =~= texts(ids@).take(i as int));
                assert(t.last() == ids@[i as int]@);
            }
            self.route(ids[i].as_str(), index);
            i = i + 1;
        }
        assert(texts(ids@).take(ids@.len() as int) =~= texts(ids@));
    }
}

/// Routing after a universe change: the removed instruments stop routing to
/// the universe; a different perpetual replaces the current one; then each of
/// the new option instruments routes to it.
pub open spec fn rerouted(
    m: Map<Seq<char>, Seq<usize>>,
    index: usize,
    removed: Seq<Seq<char>>,
    current_perp: Seq<char>,
    next_perp: Option<Seq<char>>,
    option_ids: Seq<Seq<char>>,
) -> Map<Seq<char>, Seq<usize>> {
    let a = unrouted_all(m, removed, index);
    let b = match next_perp {
        Some(p) => if p != current_perp { routed(unrouted(a, current_perp, index), p, index) } else { a },
        None => a,
    };
    routed_all(b, option_ids, index)
}

/// Applies the routing part of a universe change to universe `index`; returns
/// the universe's perpetual afterwards.
pub fn apply_change_routing(
    routing: &mut UniverseRouting,
    index: usize,
    removed: &Vec<String>,
    current_perp: &str,
    next_perp: Option<&str>,
    option_ids: &Vec<String>,
) -> (perp: String)
    requires
        old(routing).wf(),
    ensures
        final(routing).wf(),
        final(routing).view_map() == rerouted(old(routing).view_map(), index, texts(removed@), current_perp@,
            match next_perp { Some(p) => Some(p@), None => None }, texts(option_ids@)),
        perp@ == match next_perp { Some(p) => p@, None => current_perp@ },
{
    routing.unroute_all(removed, index);
    let perp = match next_perp {
        Some(p) => {
            if !str_eq(p, current_perp) {
                routing.unroute(current_perp, index);
                routing.route(p, index);
            }
            p.to_string()
        },
        None => current_perp.to_string(),
    };
    routing.route_all(option_ids, index);
    perp
}

/// Snapshot cadence in nanoseconds: the configured seconds, at least one.
pub fn snapshot_interval_ns(snapshot_interval_secs: u64) -> (r: u64)
    requires
        (if snapshot_interval_secs == 0 { 1 } else { snapshot_interval_secs }) * 1_000_000_000 <= u64::MAX,
    ensures
        r == (if snapshot_interval_secs == 0 { 1 } else { snapshot_interval_secs }) * 1_000_000_000,
{
    let secs = if snapshot_interval_secs == 0 { 1 } else { snapshot_interval_secs };
    secs * 1_000_000_000
}

/// A snapshot is due on the first event, then once `interval_ns` has passed
/// since the last one.
pub fn snapshot_due(last_snapshot_ts_ns: Option<u64>, ts_ns: u64, interval_ns: u64) -> (r: bool)
    ensures
        r == match last_snapshot_ts_ns {
            None => true,
            Some(last) => (if ts_ns >= last { ts_ns - last } else { 0 }) >= interval_ns,
        },
{
    match last_snapshot_ts_ns {
        None => true,
        Some(last) => ts_ns.saturating_sub(last) >= interval_ns,
    }
}

/// The `sep`-separated parts of `cs[from..to]`.
pub fn split_text(cs: &Vec<char>, from: usize, to: usize, sep: char) -> (r: Vec<String>)
    requires
        from <= to <= cs@.len(),
    ensures
        strings_view(r@) == split_on(cs@.subrange(from as int, to as int), sep),
{
    let ghost text = cs@.subrange(from as int, to as int);
    let mut out: Vec<String> = Vec::new();
    let mut start: usize = from;
    let mut i: usize = from;
    proof {
        assert(text.take(0) =~= Seq::<char>::empty());
        assert(strings_view(out@) =~= Seq::<Seq<char>>::empty());
    }
    while i < to
        invariant
            from <= start <= i <= to <= cs@.len(),
            text == cs@.subrange(from as int, to as int),
            ({
                let parts = split_on(text.take(i - from), sep);
                &&& parts.len() >= 1
                &&& parts.last() == cs@.subrange(start as int, i as int)
                &&& strings_view(out@) == parts.drop_last()
            }),
        decreases to - i,
    {
        let ghost parts = split_on(text.take(i - from), sep);
        proof {
            let t = text.take(i - from + 1);
            assert(t.drop_last() =~= text.take(i - from));
            assert(t.last() == cs@[i as int]);
        }
        if cs[i] == sep {
            let part = crate::text::string_from_chars(cs, start, i);
            let ghost before = out@;
            out.push(part);
            proof {
                let np = split_on(text.take(i - from + 1), sep);
                assert(np == parts.push(Seq::empty()));
                assert(np.drop_last() =~= parts);
                assert(strings_view(out@) =~= strings_view(before).push(part@));
                assert(parts.drop_last().push(parts.last()) =~= parts);
                assert(cs@.subrange(i + 1, i + 1) =~= Seq::<char>::empty());
            }
            start = i + 1;
        } else {
            proof {
                let np = split_on(text.take(i - from + 1), sep);
                assert(np == parts.update(parts.len() - 1, parts.last().push(cs@[i as int])));
                assert(np.last() =~= cs@.subrange(start as int, i + 1));
                assert(np.drop_last() =~= parts.drop_last());
            }
        }
        i = i + 1;
    }
    let last = crate::text::string_from_chars(cs, start, to);
    let ghost before = out@;
    out.push(last);
    proof {
        let parts = split_on(text.take(to - from), sep);
        assert(text.take(to - from) =~= text);
        assert(strings_view(out@) =~= strings_view(before).push(last@));
        assert(parts.drop_last().push(parts.last()) =~= parts);
    }
    out
}

/// A `C` or `P` token.
pub open spec fn is_option_type_token(t: Seq<char>) -> bool {
    t == seq!['C'] || t == seq!['P']
}

/// Position of the first `C` or `P` token at index 2 or later.
pub open spec fn option_type_index(tokens: Seq<Seq<char>>) -> Option<int> {
    if exists|i: int| 2 <= i < tokens.len() && is_option_type_token(#[trigger] tokens[i]) {
        Some(choose|i: int| 2 <= i < tokens.len() && is_option_type_token(#[trigger] tokens[i])
            && forall|k: int| 2 <= k < i ==> !is_option_type_token(#[trigger] tokens[k]))
    } else {
        None
    }
}

/// The `-`-separated tokens of the identifier's part before its first `.`.
pub open spec fn option_id_tokens(instrument_id: Seq<char>) -> Seq<Seq<char>> {
    split_on(split_on(instrument_id, '.')[0], '-')
}

proof fn lemma_first_option_index(tv: Seq<Seq<char>>, i: int)
    requires
        2 <= i < tv.len(),
        is_option_type_token(tv[i]),
        forall|k: int| 2 <= k < i ==> !is_option_type_token(#[trigger] tv[k]),
    ensures
        option_type_index(tv) == Some(i),
{
    assert(exists|x: int| 2 <= x < tv.len() && is_option_type_token(#[trigger] tv[x]));
    let j = choose|x: int| 2 <= x < tv.len() && is_option_type_token(#[trigger] tv[x])
        && forall|k: int| 2 <= k < x ==> !is_option_type_token(#[trigger] tv[k]);
    assert(2 <= j < tv.len() && is_option_type_token(tv[j]) && forall|k: int| 2 <= k < j ==> !is_option_type_token(#[trigger] tv[k])) by {
        assert(2 <= i < tv.len() && is_option_type_token(tv[i]) && forall|k: int| 2 <= k < i ==> !is_option_type_token(#[trigger] tv[k]));
    }
    if j < i {
        assert(!is_option_type_token(tv[j]));
    }
    if j > i {
        assert(!is_option_type_token(tv[i]));
    }
}

/// Expiry token, strike text and option type of an option identifier such as
/// `BTC-20JUN26-62500-C.DERIBIT`: the two tokens before the first `C` or `P`
/// token that has two before it.
#[derive(Debug, Clone, PartialEq, Eq)]
pub struct OptionIdParts {
    pub expiry: String,
    pub strike_text: String,
    pub option_type: char,
}

pub fn option_id_parts(instrument_id: &str) -> (r: Option<OptionIdParts>)
    ensures
        r is None <==> option_type_index(option_id_tokens(instrument_id@)) is None,
        r matches Some(p) ==> ({
            let tokens = option_id_tokens(instrument_id@);
            let i = option_type_index(tokens)->0;
            &&& p.expiry@ == tokens[i - 2]
            &&& p.strike_text@ == tokens[i - 1]
            &&& p.option_type == tokens[i][0]
        }),
{
    let cs = chars_of(instrument_id);
    let n = cs.len();
    let dotted = split_text(&cs, 0, n, '.');
    proof {
        assert(cs@.subrange(0, n as int) =~= instrument_id@);
        lemma_split_nonempty(instrument_id@, '.');
    }
    let base = chars_of(dotted[0].as_str());
    let tokens = split_text(&base, 0, base.len(), '-');
    proof {
        assert(base@.subrange(0, base@.len() as int) =~= base@);
    }
    let ghost tv = option_id_tokens(instrument_id@);
    assert(strings_view(tokens@) == tv);
    let mut i: usize = 0;
    while i < tokens.len()
        invariant
            strings_view(tokens@) == tv,
            tv == option_id_tokens(instrument_id@),
            i <= tokens@.len(),
            forall|k: int| 2 <= k < i ==> !is_option_type_token(#[trigger] tv[k]),
        decreases tokens@.len() - i,
    {
        assert(tv[i as int] == tokens@[i as int]@);
        if i >= 2 && (str_eq(tokens[i].as_str(), "C") || str_eq(tokens[i].as_str(), "P")) {
            proof {
                reveal_strlit("C");
                reveal_strlit("P");
                assert("C"@ =~= seq!['C']);
                assert("P"@ =~= seq!['P']);
                assert(is_option_type_token(tv[i as int]));
                lemma_first_option_index(tv, i as int);
                assert(tv[i - 2] == tokens@[i - 2]@);
                assert(tv[i - 1] == tokens@[i - 1]@);
            }
            let cts = chars_of(tokens[i].as_str());
            return Some(OptionIdParts {
                expiry: tokens[i - 2].clone(),
                strike_text: tokens[i - 1].clone(),
                option_type: cts[0],
            });
        }
        proof {
            reveal_strlit("C");
            reveal_strlit("P");
            assert("C"@ =~= seq!['C']);
            assert("P"@ =~= seq!['P']);
            if i >= 2 {
                assert(!is_option_type_token(tv[i as int]));
            }
        }
        i = i + 1;
    }
    None
}

} // verus!
