//! `key:value|key:value` description parsing.
use vstd::prelude::*;

use crate::text::{chars_of, str_eq, string_from_chars};

verus! {

/// Unicode `White_Space` (what `str::trim` strips).
pub open spec fn is_ws(c: char) -> bool {
    c == '\t' || c == '\n' || c == '\u{0B}' || c == '\u{0C}' || c == '\r' || c == ' ' || c == '\u{85}'
        || c == '\u{A0}' || c == '\u{1680}' || ('\u{2000}' <= c && c <= '\u{200A}') || c == '\u{2028}'
        || c == '\u{2029}' || c == '\u{202F}' || c == '\u{205F}' || c == '\u{3000}'
}

pub fn is_whitespace(c: char) -> (r: bool)
    ensures
        r == is_ws(c),
{
    c == '\t' || c == '\n' || c == '\u{0B}' || c == '\u{0C}' || c == '\r' || c == ' ' || c == '\u{85}'
        || c == '\u{A0}' || c == '\u{1680}' || ('\u{2000}' <= c && c <= '\u{200A}') || c == '\u{2028}'
        || c == '\u{2029}' || c == '\u{202F}' || c == '\u{205F}' || c == '\u{3000}'
}

/// Number of leading whitespace characters.
pub open spec fn lead_ws(s: Seq<char>) -> nat
    decreases s.len(),
{
    if s.len() > 0 && is_ws(s[0]) { 1 + lead_ws(s.drop_first()) } else { 0 }
}

/// Number of trailing whitespace characters.
pub open spec fn trail_ws(s: Seq<char>) -> nat
    decreases s.len(),
{
    if s.len() > 0 && is_ws(s.last()) { 1 + trail_ws(s.drop_last()) } else { 0 }
}

/// `s` without leading and trailing whitespace (`str::trim`).
pub open spec fn trim(s: Seq<char>) -> Seq<char> {
    let t = s.skip(lead_ws(s) as int);
    t.take(t.len() - trail_ws(t))
}

proof fn lemma_lead_ws_bound(s: Seq<char>)
    ensures
        lead_ws(s) <= s.len(),
        forall|k: int| 0 <= k < lead_ws(s) ==> is_ws(#[trigger] s[k]),
        lead_ws(s) < s.len() ==> !is_ws(s[lead_ws(s) as int]),
    decreases s.len(),
{
    if s.len() > 0 && is_ws(s[0]) {
        lemma_lead_ws_bound(s.drop_first());
        assert forall|k: int| 0 <= k < lead_ws(s) implies is_ws(#[trigger] s[k]) by {
            if k > 0 {
                assert(s[k] == s.drop_first()[k - 1]);
            }
        }
    }
}

proof fn lemma_lead_ws_step(s: Seq<char>, i: int)
    requires
        0 <= i <= s.len(),
        forall|k: int| 0 <= k < i ==> is_ws(#[trigger] s[k]),
    ensures
        lead_ws(s) == i + lead_ws(s.skip(i)),
    decreases i,
{
    if i > 0 {
        assert(s.drop_first().skip(i - 1) =~= s.skip(i));
        assert forall|k: int| 0 <= k < i - 1 implies is_ws(#[trigger] s.drop_first()[k]) by {
            assert(s.drop_first()[k] == s[k + 1]);
        }
        lemma_lead_ws_step(s.drop_first(), i - 1);
    } else {
        assert(s.skip(0) =~= s);
    }
}

proof fn lemma_trail_ws_step(s: Seq<char>, j: int)
    requires
        0 <= j <= s.len(),
        forall|k: int| j <= k < s.len() ==> is_ws(#[trigger] s[k]),
    ensures
        trail_ws(s) == (s.len() - j) + trail_ws(s.take(j)),
    decreases s.len() - j,
{
    if j < s.len() {
        assert(s.drop_last().take(j) =~= s.take(j));
        assert forall|k: int| j <= k < s.drop_last().len() implies is_ws(#[trigger] s.drop_last()[k]) by {
            assert(s.drop_last()[k] == s[k]);
        }
        lemma_trail_ws_step(s.drop_last(), j);
    } else {
        assert(s.take(j) =~= s);
    }
}

/// `v[from..to]` trimmed.
pub fn trimmed(v: &Vec<char>, from: usize, to: usize) -> (s: String)
    requires
        from <= to <= v@.len(),
    ensures
        s@ == trim(v@.subrange(from as int, to as int)),
{
    let ghost whole = v@.subrange(from as int, to as int);
    let mut a = from;
    while a < to && is_whitespace(v[a])
        invariant
            from <= a <= to <= v@.len(),
            forall|k: int| from <= k < a ==> is_ws(#[trigger] v@[k]),
        decreases to - a,
    {
        a = a + 1;
    }
    proof {
        assert forall|k: int| 0 <= k < a - from implies is_ws(#[trigger] whole[k]) by {
            assert(whole[k] == v@[from + k]);
        }
        lemma_lead_ws_step(whole, a - from);
        let rest = whole.skip(a - from);
        if rest.len() > 0 {
            assert(rest[0] == v@[a as int]);
        }
        assert(lead_ws(rest) == 0);
        assert(lead_ws(whole) == a - from);
    }
    let mut b = to;
    while b > a && is_whitespace(v[b - 1])
        invariant
            from <= a <= b <= to <= v@.len(),
            forall|k: int| b <= k < to ==> is_ws(#[trigger] v@[k]),
        decreases b - a,
    {
        b = b - 1;
    }
    proof {
        let t = whole.skip(a - from);
        assert(t =~= v@.subrange(a as int, to as int));
        assert forall|k: int| b - a <= k < t.len() implies is_ws(#[trigger] t[k]) by {
            assert(t[k] == v@[a + k]);
        }
        lemma_trail_ws_step(t, b - a);
        let u = t.take(b - a);
        if u.len() > 0 {
            assert(u.last() == v@[b - 1]);
        }
        assert(trail_ws(u) == 0);
        assert(t.take(t.len() - trail_ws(t)) =~= v@.subrange(a as int, b as int));
    }
    string_from_chars(v, a, b)
}

/// Text segments of `s` separated by `sep` (as `str::split`; never empty).
pub open spec fn split_on(s: Seq<char>, sep: char) -> Seq<Seq<char>>
    decreases s.len(),
{
    if s.len() == 0 {
        seq![Seq::empty()]
    } else {
        let prev = split_on(s.drop_last(), sep);
        if s.last() == sep {
            prev.push(Seq::empty())
        } else {
            prev.update(prev.len() - 1, prev.last().push(s.last()))
        }
    }
}

pub proof fn lemma_split_nonempty(s: Seq<char>, sep: char)
    ensures
        split_on(s, sep).len() >= 1,
    decreases s.len(),
{
    if s.len() > 0 {
        lemma_split_nonempty(s.drop_last(), sep);
    }
}

/// Position of the first `c` in `s`.
pub open spec fn first_index(s: Seq<char>, c: char) -> Option<int> {
    if exists|i: int| 0 <= i < s.len() && s[i] == c {
        Some(choose|i: int| 0 <= i < s.len() && s[i] == c && forall|k: int| 0 <= k < i ==> s[k] != c)
    } else {
        None
    }
}

/// Effect of one `key:value` part on the field map.
pub open spec fn part_update(m: Map<Seq<char>, Seq<char>>, part: Seq<char>) -> Map<Seq<char>, Seq<char>> {
    if exists|i: int| 0 <= i < part.len() && part[i] == ':' {
        let i = choose|i: int| 0 <= i < part.len() && part[i] == ':' && forall|k: int| 0 <= k < i ==> part[k] != ':';
        let key = trim(part.take(i));
        if key.len() > 0 { m.insert(key, trim(part.skip(i + 1))) } else { m }
    } else {
        m
    }
}

/// The key/value map of a sequence of parts: later keys overwrite earlier ones.
pub open spec fn fields_of_parts(parts: Seq<Seq<char>>) -> Map<Seq<char>, Seq<char>>
    decreases parts.len(),
{
    if parts.len() == 0 {
        Map::empty()
    } else {
        part_update(fields_of_parts(parts.drop_last()), parts.last())
    }
}

/// Parsed `key:value|...` description: each `|`-separated part with a `:`
/// contributes its trimmed key (when non-empty) and trimmed value.
pub open spec fn description_fields(description: Seq<char>) -> Map<Seq<char>, Seq<char>> {
    fields_of_parts(split_on(description, '|'))
}

/// One parsed description field.
#[derive(Debug, Clone, PartialEq, Eq)]
pub struct FieldEntry {
    pub key: String,
    pub value: String,
}

/// Parsed description fields, keys distinct.
#[derive(Debug, Clone, PartialEq, Eq)]
pub struct DescriptionFields {
    pub entries: Vec<FieldEntry>,
}

impl DescriptionFields {
    pub open spec fn view_map(&self) -> Map<Seq<char>, Seq<char>> {
        Map::new(
            |k: Seq<char>| exists|i: int| 0 <= i < self.entries@.len() && #[trigger] self.entries@[i].key@ == k,
            |k: Seq<char>| self.entries@[choose|i: int| 0 <= i < self.entries@.len() && #[trigger] self.entries@[i].key@ == k].value@,
        )
    }

    pub open spec fn wf(&self) -> bool {
        forall|i: int, j: int| 0 <= i < j < self.entries@.len() ==> #[trigger] self.entries@[i].key@ != #[trigger] self.entries@[j].key@
    }

    /// The value of `key`.
    pub fn get(&self, key: &str) -> (r: Option<&String>)
        requires
            self.wf(),
        ensures
            r is None ==> !self.view_map().contains_key(key@),
            r matches Some(v) ==> self.view_map().contains_key(key@) && v@ == self.view_map()[key@],
    {
        let mut i: usize = 0;
        while i < self.entries.len()
            invariant
                self.wf(),
                i <= self.entries@.len(),
                forall|j: int| 0 <= j < i ==> self.entries@[j].key@ != key@,
            decreases self.entries@.len() - i,
        {
            if str_eq(self.entries[i].key.as_str(), key) {
                proof {
                    let c = choose|c: int| 0 <= c < self.entries@.len() && #[trigger] self.entries@[c].key@ == key@;
                    if c != i {
                        if c < i {
                            assert(self.entries@[c].key@ != self.entries@[i as int].key@);
                        } else {
                            assert(self.entries@[i as int].key@ != self.entries@[c].key@);
                        }
                    }
                }
                return Some(&self.entries[i].value);
            }
            i = i + 1;
        }
        None
    }

    fn insert(&mut self, key: String, value: String)
        requires
            old(self).wf(),
        ensures
            final(self).wf(),
            final(self).view_map() == old(self).view_map().insert(key@, value@),
    {
        let ghost k = key@;
        let mut i: usize = 0;
        while i < self.entries.len()
            invariant
                self.entries@ == old(self).entries@,
                self.wf(),
                k == key@,
                i <= self.entries@.len(),
                forall|j: int| 0 <= j < i ==> self.entries@[j].key@ != key@,
            decreases self.entries@.len() - i,
        {
            if str_eq(self.entries[i].key.as_str(), key.as_str()) {
                let ghost before = self.entries@;
                let _old = self.entries.remove(i);
                self.entries.insert(i, FieldEntry { key, value });
                proof {
                    assert(self.entries@ =~= before.update(i as int, self.entries@[i as int]));
                    assert forall|a: int, b: int| 0 <= a < b < self.entries@.len() implies #[trigger] self.entries@[a].key@ != #[trigger] self.entries@[b].key@ by {
                        assert(self.entries@[a].key@ == before[a].key@);
                        assert(self.entries@[b].key@ == before[b].key@);
                    }
                    assert(self.view_map() =~= old(self).view_map().insert(k, self.entries@[i as int].value@)) by {
                        assert forall|kk: Seq<char>| #[trigger] self.view_map().contains_key(kk) == old(self).view_map().insert(k, self.entries@[i as int].value@).contains_key(kk) by {
                            if old(self).view_map().contains_key(kk) {
                                let c = choose|c: int| 0 <= c < before.len() && #[trigger] before[c].key@ == kk;
                                assert(self.entries@[c].key@ == kk);
                            }
                            if self.view_map().contains_key(kk) {
                                let c = choose|c: int| 0 <= c < self.entries@.len() && #[trigger] self.entries@[c].key@ == kk;
                                assert(before[c].key@ == kk);
                            }
                        }
                        assert forall|kk: Seq<char>| self.view_map().contains_key(kk) implies #[trigger] self.view_map()[kk] == old(self).view_map().insert(k, self.entries@[i as int].value@)[kk] by {
                            let c = choose|c: int| 0 <= c < self.entries@.len() && #[trigger] self.entries@[c].key@ == kk;
                            if kk != k {
                                let c2 = choose|c2: int| 0 <= c2 < before.len() && #[trigger] before[c2].key@ == kk;
                                assert(before[c].key@ == kk);
                                if c != c2 {
                                    if c < c2 { assert(before[c].key@ != before[c2].key@); } else { assert(before[c2].key@ != before[c].key@); }
                                }
                            } else {
                                if c != i {
                                    if c < i { assert(self.entries@[c].key@ != self.entries@[i as int].key@); } else { assert(self.entries@[i as int].key@ != self.entries@[c].key@); }
                                }
                            }
                        }
                    }
                }
                return;
            }
            i = i + 1;
        }
        let ghost before = self.entries@;
        self.entries.push(FieldEntry { key, value });
        proof {
            let n = before.len() as int;
            assert forall|a: int, b: int| 0 <= a < b < self.entries@.len() implies #[trigger] self.entries@[a].key@ != #[trigger] self.entries@[b].key@ by {
                if b == n {
                    assert(self.entries@[a] == before[a]);
                } else {
                    assert(self.entries@[a] == before[a]);
                    assert(self.entries@[b] == before[b]);
                }
            }
            assert(self.view_map() =~= old(self).view_map().insert(k, self.entries@[n].value@)) by {
                assert forall|kk: Seq<char>| #[trigger] self.view_map().contains_key(kk) == old(self).view_map().insert(k, self.entries@[n].value@).contains_key(kk) by {
                    if old(self).view_map().contains_key(kk) {
                        let c = choose|c: int| 0 <= c < before.len() && #[trigger] before[c].key@ == kk;
                        assert(self.entries@[c].key@ == kk);
                    }
                    if self.view_map().contains_key(kk) && kk != k {
                        let c = choose|c: int| 0 <= c < self.entries@.len() && #[trigger] self.entries@[c].key@ == kk;
                        assert(c != n);
                        assert(before[c].key@ == kk);
                    }
                    if kk == k {
                        assert(self.entries@[n].key@ == kk);
                    }
                }
                assert forall|kk: Seq<char>| self.view_map().contains_key(kk) implies #[trigger] self.view_map()[kk] == old(self).view_map().insert(k, self.entries@[n].value@)[kk] by {
                    let c = choose|c: int| 0 <= c < self.entries@.len() && #[trigger] self.entries@[c].key@ == kk;
                    if kk != k {
                        assert(c != n);
                        let c2 = choose|c2: int| 0 <= c2 < before.len() && #[trigger] before[c2].key@ == kk;
                        assert(before[c].key@ == kk);
                        if c != c2 {
                            if c < c2 { assert(before[c].key@ != before[c2].key@); } else { assert(before[c2].key@ != before[c].key@); }
                        }
                    } else {
                        if c != n {
                            assert(before[c].key@ == k);
                        }
                    }
                }
            }
        }
    }
}

fn close_part(cs: &Vec<char>, start: usize, end: usize, fields: &mut DescriptionFields)
    requires
        start <= end <= cs@.len(),
        old(fields).wf(),
    ensures
        final(fields).wf(),
        final(fields).view_map() == part_update(old(fields).view_map(), cs@.subrange(start as int, end as int)),
{
    let ghost part = cs@.subrange(start as int, end as int);
    let mut colon: usize = start;
    while colon < end && cs[colon] != ':'
        invariant
            start <= colon <= end <= cs@.len(),
            forall|k: int| start <= k < colon ==> cs@[k] != ':',
        decreases end - colon,
    {
        colon = colon + 1;
    }
    if colon < end {
        let key = trimmed(cs, start, colon);
        let value = trimmed(cs, colon + 1, end);
        proof {
            let c = (colon - start) as int;
            assert(part[c] == ':');
            let w = choose|w: int| 0 <= w < part.len() && part[w] == ':' && forall|k: int| 0 <= k < w ==> part[k] != ':';
            if w < c {
                assert(part[w] == cs@[start + w]);
            }
            if c < w {
                assert(part[c] != ':');
            }
            assert(w == c);
            assert(part.take(c) =~= cs@.subrange(start as int, colon as int));
            assert(part.skip(c + 1) =~= cs@.subrange(colon + 1, end as int));
        }
        if key.unicode_len() > 0 {
            fields.insert(key, value);
        }
    } else {
        proof {
            assert forall|w: int| 0 <= w < part.len() implies part[w] != ':' by {
                assert(part[w] == cs@[start + w]);
            }
        }
    }
}

/// Splits a `key:value|key:value` description into trimmed fields; parts
/// without `:` or with an empty key are skipped, later keys win.
pub fn parse_description_fields(description: &str) -> (f: DescriptionFields)
    ensures
        f.wf(),
        f.view_map() == description_fields(description@),
{
    let cs = chars_of(description);
    let n = cs.len();
    let mut fields = DescriptionFields { entries: Vec::new() };
    let mut start: usize = 0;
    let mut i: usize = 0;
    proof {
        assert(fields.view_map() =~= Map::<Seq<char>, Seq<char>>::empty());
        assert(cs@.take(0) =~= Seq::<char>::empty());
    }
    while i < n
        invariant
            n == cs@.len(),
            cs@ == description@,
            start <= i <= n,
            fields.wf(),
            ({
                let parts = split_on(cs@.take(i as int), '|');
                &&& parts.len() >= 1
                &&& parts.last() == cs@.subrange(start as int, i as int)
                &&& fields.view_map() == fields_of_parts(parts.drop_last())
            }),
        decreases n - i,
    {
        let ghost parts = split_on(cs@.take(i as int), '|');
        let nt = i + 1;
        proof {
            let t = cs@.take(nt as int);
            assert(t.drop_last() =~= cs@.take(i as int));
            assert(t.last() == cs@[i as int]);
        }
        if cs[i] == '|' {
            close_part(&cs, start, i, &mut fields);
            proof {
                let np = split_on(cs@.take(nt as int), '|');
                assert(np == parts.push(Seq::empty()));
                assert(np.drop_last() =~= parts);
                assert(parts.drop_last().push(parts.last()) =~= parts);
                assert(fields_of_parts(parts) == part_update(fields_of_parts(parts.drop_last()), parts.last()));
                assert(cs@.subrange(nt as int, nt as int) =~= Seq::<char>::empty());
            }
            start = nt;
        } else {
            proof {
                let np = split_on(cs@.take(nt as int), '|');
                assert(np == parts.update(parts.len() - 1, parts.last().push(cs@[i as int])));
                assert(np.last() =~= cs@.subrange(start as int, nt as int));
                assert(np.drop_last() =~= parts.drop_last());
            }
        }
        i = nt;
    }
    close_part(&cs, start, n, &mut fields);
    proof {
        let parts = split_on(cs@.take(n as int), '|');
        assert(cs@.take(n as int) =~= description@);
        assert(parts.drop_last().push(parts.last()) =~= parts);
        assert(fields_of_parts(parts) == part_update(fields_of_parts(parts.drop_last()), parts.last()));
    }
    fields
}


/// `s` without leading and trailing whitespace (`str::trim`).
pub fn trim_str(s: &str) -> (t: String)
    ensures
        t@ == trim(s@),
{
    let cs = chars_of(s);
    let n = cs.len();
    let t = trimmed(&cs, 0, n);
    assert(cs@.subrange(0, n as int) =~= s@);
    t
}

} // verus!
