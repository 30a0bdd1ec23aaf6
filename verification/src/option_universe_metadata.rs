//! Option universe resolution records: what was resolved, why it rolled, and a per-universe
//! summary of a resolution log.
use vstd::prelude::*;

use crate::option_universe::{OptionUniverseSpec, Price, ResolvedOptionUniverse};
use crate::plan::{id_lt, id_strings, id_text, id_texts, lemma_id_lt_irreflexive, lemma_id_lt_total, lemma_id_lt_transitive, strings_view, views};
use crate::text::{str_eq, str_lt};

verus! {

/// Why a resolution record was written.
#[derive(Debug, Clone, Copy, PartialEq, Eq, Structural)]
pub enum OptionUniverseResolutionEventKind {
    Startup,
    Refresh,
}

/// One line of the option universe resolution log.
#[derive(Debug, Clone, PartialEq, Eq)]
pub struct OptionUniverseResolutionRecord {
    pub event_kind: OptionUniverseResolutionEventKind,
    pub venue_id: String,
    pub underlying: String,
    pub resolved_at_ns: u64,
    pub resolved_at_iso8601: String,
    pub selected_expiry_ns: u64,
    pub selected_expiry_iso8601: String,
    pub atm_reference: String,
    pub atm_reference_source: String,
    pub strike_selection_mode: String,
    pub oi_ranked_top_n: Option<usize>,
    pub selected_strikes: Vec<String>,
    pub perp_instrument_id: Option<String>,
    pub option_instrument_ids: Vec<String>,
    pub all_instrument_ids: Vec<String>,
    pub added_instrument_ids: Vec<String>,
    pub removed_instrument_ids: Vec<String>,
    pub rollover_reason: Option<String>,
}

/// State of one universe after a resolution log.
#[derive(Debug, Clone, PartialEq, Eq)]
pub struct OptionUniverseResolutionSummary {
    pub venue_id: String,
    pub underlying: String,
    pub startup_resolved_at_iso8601: String,
    pub latest_event_kind: OptionUniverseResolutionEventKind,
    pub latest_resolved_at_iso8601: String,
    pub latest_selected_expiry_iso8601: String,
    pub strike_selection_mode: String,
    pub refresh_count: usize,
    pub latest_rollover_reason: Option<String>,
    pub perp_instrument_id: Option<String>,
    pub option_count: usize,
    pub option_instrument_ids: Vec<String>,
}

pub open spec fn opt_text(o: Option<String>) -> Option<Seq<char>> {
    match o {
        Some(s) => Some(s@),
        None => None,
    }
}

/// Why a refresh that changed the instruments happened: a new expiry first, then a moved
/// reference price, then an open-interest reshuffle (for `oi_ranked`), else a shifted strike
/// window. Nothing when the instruments did not change.
pub open spec fn spec_refresh_rollover_reason(
    previous_expiry_ns: Option<u64>,
    selected_expiry_ns: u64,
    atm_text: Seq<char>,
    previous_atm_reference: Option<Seq<char>>,
    instruments_changed: bool,
    strike_selection_mode: Seq<char>,
) -> Option<Seq<char>> {
    if !instruments_changed {
        None
    } else if previous_expiry_ns matches Some(e) && e != selected_expiry_ns {
        Some("expiry_roll"@)
    } else if previous_atm_reference matches Some(a) && a != atm_text {
        Some("atm_drift"@)
    } else if strike_selection_mode == "oi_ranked"@ {
        Some("oi_rank_shift"@)
    } else {
        Some("strike_window_shift"@)
    }
}

pub open spec fn opt_str(o: Option<&str>) -> Option<Seq<char>> {
    match o {
        Some(s) => Some(s@),
        None => None,
    }
}

/// Rollover reason of a refresh.
pub fn compute_refresh_rollover_reason(
    previous_expiry_ns: Option<u64>,
    resolved: &ResolvedOptionUniverse,
    previous_atm_reference: Option<&str>,
    instruments_changed: bool,
    strike_selection_mode: &str,
) -> (r: Option<String>)
    ensures
        opt_text(r) == spec_refresh_rollover_reason(previous_expiry_ns, resolved.selected_expiry_ns,
            resolved.atm_reference.text@, opt_str(previous_atm_reference), instruments_changed, strike_selection_mode@),
{
    if !instruments_changed {
        return None;
    }
    match previous_expiry_ns {
        Some(e) => {
            if e != resolved.selected_expiry_ns {
                return Some(String::from_str("expiry_roll"));
            }
        },
        None => {},
    }
    match previous_atm_reference {
        Some(a) => {
            if !str_eq(a, resolved.atm_reference.text.as_str()) {
                return Some(String::from_str("atm_drift"));
            }
        },
        None => {},
    }
    if str_eq(strike_selection_mode, "oi_ranked") {
        return Some(String::from_str("oi_rank_shift"));
    }
    Some(String::from_str("strike_window_shift"))
}

/// Texts of prices, in order.
pub open spec fn price_texts(s: Seq<Price>) -> Seq<Seq<char>> {
    s.map_values(|p: Price| p.text@)
}

fn price_strings(s: &Vec<Price>) -> (v: Vec<String>)
    ensures
        strings_view(v@) == price_texts(s@),
{
    let mut v: Vec<String> = Vec::new();
    let mut i: usize = 0;
    while i < s.len()
        invariant
            i <= s@.len(),
            strings_view(v@) == price_texts(s@).take(i as int),
        decreases s@.len() - i,
    {
        let ghost before = v@;
        let t = s[i].text.clone();
        v.push(t);
        assert(strings_view(v@) =~= strings_view(before).push(t@));
        assert(price_texts(s@)[i as int] == s@[i as int].text@);
        assert(strings_view(v@) =~= price_texts(s@).take(i as int + 1));
        i = i + 1;
    }
    assert(price_texts(s@).take(s@.len() as int) =~= price_texts(s@));
    v
}

/// The record fields that come from the universe and its resolution.
pub open spec fn record_matches(
    r: OptionUniverseResolutionRecord,
    event_kind: OptionUniverseResolutionEventKind,
    spec: OptionUniverseSpec,
    resolved: ResolvedOptionUniverse,
) -> bool {
    &&& r.event_kind == event_kind
    &&& r.venue_id@ == spec.venue_id@
    &&& r.underlying@ == spec.underlying@
    &&& r.resolved_at_ns == resolved.resolved_at_ns
    &&& r.selected_expiry_ns == resolved.selected_expiry_ns
    &&& r.atm_reference@ == resolved.atm_reference.text@
    &&& r.atm_reference_source@ == (match resolved.atm_reference_source {
        Some(s) => s@,
        None => "unknown"@,
    })
    &&& r.strike_selection_mode@ == spec.strike_policy.spec_selection_mode()
    &&& r.oi_ranked_top_n == (match spec.strike_policy {
        crate::option_universe::StrikePolicy::OiRanked { top_n } => Some(top_n),
        _ => None,
    })
    &&& strings_view(r.selected_strikes@) == price_texts(resolved.selected_strikes@)
    &&& opt_text(r.perp_instrument_id) == (match resolved.perp_instrument_id {
        Some(id) => Some(id_text(id@)),
        None => None,
    })
    &&& strings_view(r.option_instrument_ids@) == id_texts(views(resolved.option_instrument_ids@))
    &&& strings_view(r.all_instrument_ids@) == id_texts(views(resolved.all_instrument_ids@))
}

/// A resolution log record; the ISO-8601 renderings of the two timestamps are given.
pub fn resolution_record(
    event_kind: OptionUniverseResolutionEventKind,
    spec: &OptionUniverseSpec,
    resolved: &ResolvedOptionUniverse,
    added_instrument_ids: Vec<String>,
    removed_instrument_ids: Vec<String>,
    rollover_reason: Option<String>,
    resolved_at_iso8601: String,
    selected_expiry_iso8601: String,
) -> (r: OptionUniverseResolutionRecord)
    ensures
        record_matches(r, event_kind, *spec, *resolved),
        r.resolved_at_iso8601 == resolved_at_iso8601,
        r.selected_expiry_iso8601 == selected_expiry_iso8601,
        r.added_instrument_ids == added_instrument_ids,
        r.removed_instrument_ids == removed_instrument_ids,
        r.rollover_reason == rollover_reason,
{
    let atm_reference_source = match &resolved.atm_reference_source {
        Some(s) => s.clone(),
        None => String::from_str("unknown"),
    };
    let perp_instrument_id = match &resolved.perp_instrument_id {
        Some(id) => Some(id.to_string()),
        None => None,
    };
    OptionUniverseResolutionRecord {
        event_kind,
        venue_id: spec.venue_id.clone(),
        underlying: spec.underlying.clone(),
        resolved_at_ns: resolved.resolved_at_ns,
        resolved_at_iso8601,
        selected_expiry_ns: resolved.selected_expiry_ns,
        selected_expiry_iso8601,
        atm_reference: resolved.atm_reference.text.clone(),
        atm_reference_source,
        strike_selection_mode: String::from_str(spec.strike_policy.selection_mode()),
        oi_ranked_top_n: spec.strike_policy.oi_ranked_top_n(),
        selected_strikes: price_strings(&resolved.selected_strikes),
        perp_instrument_id,
        option_instrument_ids: id_strings(&resolved.option_instrument_ids),
        all_instrument_ids: id_strings(&resolved.all_instrument_ids),
        added_instrument_ids,
        removed_instrument_ids,
        rollover_reason,
    }
}

/// Startup record: no rollover reason.
pub fn startup_resolution_record(
    spec: &OptionUniverseSpec,
    resolved: &ResolvedOptionUniverse,
    added_instrument_ids: Vec<String>,
    removed_instrument_ids: Vec<String>,
    resolved_at_iso8601: String,
    selected_expiry_iso8601: String,
) -> (r: OptionUniverseResolutionRecord)
    ensures
        record_matches(r, OptionUniverseResolutionEventKind::Startup, *spec, *resolved),
        r.resolved_at_iso8601 == resolved_at_iso8601,
        r.selected_expiry_iso8601 == selected_expiry_iso8601,
        r.added_instrument_ids == added_instrument_ids,
        r.removed_instrument_ids == removed_instrument_ids,
        r.rollover_reason is None,
{
    resolution_record(OptionUniverseResolutionEventKind::Startup, spec, resolved, added_instrument_ids,
        removed_instrument_ids, None, resolved_at_iso8601, selected_expiry_iso8601)
}

/// Refresh record.
pub fn refresh_resolution_record(
    spec: &OptionUniverseSpec,
    resolved: &ResolvedOptionUniverse,
    added_instrument_ids: Vec<String>,
    removed_instrument_ids: Vec<String>,
    rollover_reason: Option<String>,
    resolved_at_iso8601: String,
    selected_expiry_iso8601: String,
) -> (r: OptionUniverseResolutionRecord)
    ensures
        record_matches(r, OptionUniverseResolutionEventKind::Refresh, *spec, *resolved),
        r.resolved_at_iso8601 == resolved_at_iso8601,
        r.selected_expiry_iso8601 == selected_expiry_iso8601,
        r.added_instrument_ids == added_instrument_ids,
        r.removed_instrument_ids == removed_instrument_ids,
        r.rollover_reason == rollover_reason,
{
    resolution_record(OptionUniverseResolutionEventKind::Refresh, spec, resolved, added_instrument_ids,
        removed_instrument_ids, rollover_reason, resolved_at_iso8601, selected_expiry_iso8601)
}

/// Universe key of a record: venue, then underlying.
pub open spec fn rec_key(r: OptionUniverseResolutionRecord) -> (Seq<char>, Seq<char>) {
    (r.venue_id@, r.underlying@)
}

/// Number of refresh records of universe `k` among `rs`.
pub open spec fn refresh_count_of(rs: Seq<OptionUniverseResolutionRecord>, k: (Seq<char>, Seq<char>)) -> nat
    decreases rs.len(),
{
    if rs.len() == 0 {
        0
    } else {
        refresh_count_of(rs.drop_last(), k) + (if rec_key(rs.last()) == k
            && rs.last().event_kind == OptionUniverseResolutionEventKind::Refresh { 1nat } else { 0nat })
    }
}

/// `i` is the first record of its universe.
pub open spec fn is_first_of(rs: Seq<OptionUniverseResolutionRecord>, i: int) -> bool {
    0 <= i < rs.len() && forall|j: int| 0 <= j < i ==> rec_key(#[trigger] rs[j]) != rec_key(rs[i])
}

/// `i` is the last record of its universe.
pub open spec fn is_last_of(rs: Seq<OptionUniverseResolutionRecord>, i: int) -> bool {
    0 <= i < rs.len() && forall|j: int| i < j < rs.len() ==> rec_key(#[trigger] rs[j]) != rec_key(rs[i])
}

/// The summary of the universe whose first and last records are `rs[s]` and `rs[l]`.
pub open spec fn summary_matches(sm: OptionUniverseResolutionSummary, rs: Seq<OptionUniverseResolutionRecord>, s: int, l: int) -> bool {
    let latest = rs[l];
    &&& sm.venue_id@ == latest.venue_id@
    &&& sm.underlying@ == latest.underlying@
    &&& sm.startup_resolved_at_iso8601@ == rs[s].resolved_at_iso8601@
    &&& sm.latest_event_kind == latest.event_kind
    &&& sm.latest_resolved_at_iso8601@ == latest.resolved_at_iso8601@
    &&& sm.latest_selected_expiry_iso8601@ == latest.selected_expiry_iso8601@
    &&& sm.strike_selection_mode@ == latest.strike_selection_mode@
    &&& sm.refresh_count == refresh_count_of(rs, rec_key(latest))
    &&& opt_text(sm.latest_rollover_reason) == opt_text(latest.rollover_reason)
    &&& opt_text(sm.perp_instrument_id) == opt_text(latest.perp_instrument_id)
    &&& sm.option_count == latest.option_instrument_ids@.len()
    &&& strings_view(sm.option_instrument_ids@) == strings_view(latest.option_instrument_ids@)
}

/// `sm` summarizes one universe of `rs`: its fields come from the universe's first and
/// last records.
pub open spec fn summarizes(sm: OptionUniverseResolutionSummary, rs: Seq<OptionUniverseResolutionRecord>) -> bool {
    exists|s: int, l: int| #![trigger summary_matches(sm, rs, s, l)]
        is_first_of(rs, s) && is_last_of(rs, l) && rec_key(rs[s]) == rec_key(rs[l]) && summary_matches(sm, rs, s, l)
}

/// Per-universe progress of a summary: first and last record indices and refresh count.
struct SummaryState {
    first: usize,
    last: usize,
    refreshes: usize,
}

spec fn state_ok(st: SummaryState, rs: Seq<OptionUniverseResolutionRecord>, n: int) -> bool {
    &&& st.first <= st.last < n
    &&& is_first_of(rs, st.first as int)
    &&& rec_key(rs[st.last as int]) == rec_key(rs[st.first as int])
    &&& forall|j: int| st.last < j < n ==> rec_key(#[trigger] rs[j]) != rec_key(rs[st.first as int])
    &&& st.refreshes == refresh_count_of(rs.take(n), rec_key(rs[st.first as int]))
}

proof fn lemma_refresh_count_step(rs: Seq<OptionUniverseResolutionRecord>, n: int, k: (Seq<char>, Seq<char>))
    requires
        0 <= n < rs.len(),
    ensures
        refresh_count_of(rs.take(n + 1), k) == refresh_count_of(rs.take(n), k) + (if rec_key(rs[n]) == k
            && rs[n].event_kind == OptionUniverseResolutionEventKind::Refresh { 1nat } else { 0nat }),
{
    assert(rs.take(n + 1).drop_last() =~= rs.take(n));
}

proof fn lemma_refresh_count_bound(rs: Seq<OptionUniverseResolutionRecord>, k: (Seq<char>, Seq<char>))
    ensures
        refresh_count_of(rs, k) <= rs.len(),
    decreases rs.len(),
{
    if rs.len() > 0 {
        lemma_refresh_count_bound(rs.drop_last(), k);
    }
}

fn record_key_lt(a: &OptionUniverseResolutionRecord, b: &OptionUniverseResolutionRecord) -> (r: bool)
    ensures
        r == id_lt(rec_key(*a), rec_key(*b)),
{
    if str_lt(a.venue_id.as_str(), b.venue_id.as_str()) {
        true
    } else if str_eq(a.venue_id.as_str(), b.venue_id.as_str()) {
        str_lt(a.underlying.as_str(), b.underlying.as_str())
    } else {
        false
    }
}

fn record_key_eq(a: &OptionUniverseResolutionRecord, b: &OptionUniverseResolutionRecord) -> (r: bool)
    ensures
        r == (rec_key(*a) == rec_key(*b)),
{
    str_eq(a.venue_id.as_str(), b.venue_id.as_str()) && str_eq(a.underlying.as_str(), b.underlying.as_str())
}

#[verifier::opaque]
spec fn states_each_ok(ss: Seq<SummaryState>, rs: Seq<OptionUniverseResolutionRecord>, n: int) -> bool {
    forall|a: int| 0 <= a < ss.len() ==> state_ok(#[trigger] ss[a], rs, n)
}

#[verifier::opaque]
spec fn states_sorted(ss: Seq<SummaryState>, rs: Seq<OptionUniverseResolutionRecord>) -> bool {
    forall|a: int, b: int| 0 <= a < b < ss.len() ==> id_lt(
        rec_key(rs[#[trigger] ss[a].first as int]), rec_key(rs[#[trigger] ss[b].first as int]))
}

#[verifier::opaque]
spec fn states_cover(ss: Seq<SummaryState>, rs: Seq<OptionUniverseResolutionRecord>, n: int) -> bool {
    forall|j: int| 0 <= j < n ==> exists|a: int| 0 <= a < ss.len()
        && rec_key(rs[#[trigger] ss[a].first as int]) == rec_key(#[trigger] rs[j])
}

spec fn states_ok(ss: Seq<SummaryState>, rs: Seq<OptionUniverseResolutionRecord>, n: int) -> bool {
    states_each_ok(ss, rs, n) && states_sorted(ss, rs) && states_cover(ss, rs, n)
}

spec fn refresh_bit(r: OptionUniverseResolutionRecord) -> nat {
    if r.event_kind == OptionUniverseResolutionEventKind::Refresh { 1 } else { 0 }
}

proof fn lemma_state_at(ss: Seq<SummaryState>, rs: Seq<OptionUniverseResolutionRecord>, n: int, a: int)
    requires
        states_each_ok(ss, rs, n),
        0 <= a < ss.len(),
    ensures
        state_ok(ss[a], rs, n),
{
    reveal(states_each_ok);
}

proof fn lemma_sorted_at(ss: Seq<SummaryState>, rs: Seq<OptionUniverseResolutionRecord>, a: int, b: int)
    requires
        states_sorted(ss, rs),
        0 <= a < b < ss.len(),
    ensures
        id_lt(rec_key(rs[ss[a].first as int]), rec_key(rs[ss[b].first as int])),
{
    reveal(states_sorted);
}

proof fn lemma_cover_at(ss: Seq<SummaryState>, rs: Seq<OptionUniverseResolutionRecord>, n: int, j: int) -> (a: int)
    requires
        states_cover(ss, rs, n),
        0 <= j < n,
    ensures
        0 <= a < ss.len(),
        rec_key(rs[ss[a].first as int]) == rec_key(rs[j]),
{
    reveal(states_cover);
    choose|a: int| 0 <= a < ss.len() && rec_key(rs[#[trigger] ss[a].first as int]) == rec_key(rs[j])
}

proof fn lemma_counts_step(rs: Seq<OptionUniverseResolutionRecord>, i: int, k: (Seq<char>, Seq<char>))
    requires
        0 <= i < rs.len(),
    ensures
        refresh_count_of(rs.take(i + 1), k) == refresh_count_of(rs.take(i), k)
            + (if rec_key(rs[i]) == k { refresh_bit(rs[i]) } else { 0 }),
{
    lemma_refresh_count_step(rs, i, k);
}

proof fn lemma_state_extends(st: SummaryState, rs: Seq<OptionUniverseResolutionRecord>, i: int)
    requires
        0 <= i < rs.len(),
        state_ok(st, rs, i),
        rec_key(rs[st.first as int]) != rec_key(rs[i]),
    ensures
        state_ok(st, rs, i + 1),
{
    lemma_counts_step(rs, i, rec_key(rs[st.first as int]));
}

proof fn lemma_update_state(old_ss: Seq<SummaryState>, new_ss: Seq<SummaryState>, rs: Seq<OptionUniverseResolutionRecord>, i: int, p: int)
    requires
        states_ok(old_ss, rs, i),
        0 <= i < rs.len(),
        0 <= p < old_ss.len(),
        rec_key(rs[old_ss[p].first as int]) == rec_key(rs[i]),
        new_ss.len() == old_ss.len(),
        forall|a: int| 0 <= a < old_ss.len() && a != p ==> new_ss[a] == old_ss[a],
        new_ss[p].first == old_ss[p].first,
        new_ss[p].last == i,
        new_ss[p].refreshes == old_ss[p].refreshes + refresh_bit(rs[i]),
    ensures
        states_ok(new_ss, rs, i + 1),
{
    assert(states_each_ok(new_ss, rs, i + 1)) by {
        reveal(states_each_ok);
        assert forall|a: int| 0 <= a < new_ss.len() implies state_ok(#[trigger] new_ss[a], rs, i + 1) by {
            lemma_state_at(old_ss, rs, i, a);
            if a != p {
                if rec_key(rs[old_ss[a].first as int]) == rec_key(rs[i]) {
                    if a < p {
                        lemma_sorted_at(old_ss, rs, a, p);
                    } else {
                        lemma_sorted_at(old_ss, rs, p, a);
                    }
                    lemma_id_lt_irreflexive(rec_key(rs[i]));
                }
                lemma_state_extends(old_ss[a], rs, i);
            } else {
                lemma_counts_step(rs, i, rec_key(rs[i]));
            }
        }
    }
    assert(states_sorted(new_ss, rs)) by {
        reveal(states_sorted);
        assert forall|a: int, b: int| 0 <= a < b < new_ss.len() implies id_lt(
            rec_key(rs[#[trigger] new_ss[a].first as int]), rec_key(rs[#[trigger] new_ss[b].first as int])) by {
            lemma_sorted_at(old_ss, rs, a, b);
        }
    }
    assert(states_cover(new_ss, rs, i + 1)) by {
        reveal(states_cover);
        assert forall|j: int| 0 <= j < i + 1 implies exists|a: int| 0 <= a < new_ss.len()
            && rec_key(rs[#[trigger] new_ss[a].first as int]) == rec_key(#[trigger] rs[j]) by {
            if j == i {
                assert(rec_key(rs[new_ss[p].first as int]) == rec_key(rs[j]));
            } else {
                let a = lemma_cover_at(old_ss, rs, i, j);
                assert(new_ss[a].first == old_ss[a].first);
            }
        }
    }
}

proof fn lemma_new_key(old_ss: Seq<SummaryState>, rs: Seq<OptionUniverseResolutionRecord>, i: int, p: int)
    requires
        states_ok(old_ss, rs, i),
        0 <= i < rs.len(),
        0 <= p <= old_ss.len(),
        forall|a: int| 0 <= a < p ==> id_lt(rec_key(rs[#[trigger] old_ss[a].first as int]), rec_key(rs[i])),
        p < old_ss.len() ==> !id_lt(rec_key(rs[old_ss[p].first as int]), rec_key(rs[i]))
            && rec_key(rs[old_ss[p].first as int]) != rec_key(rs[i]),
    ensures
        forall|a: int| 0 <= a < old_ss.len() ==> rec_key(rs[#[trigger] old_ss[a].first as int]) != rec_key(rs[i]),
        forall|a: int| p <= a < old_ss.len() ==> id_lt(rec_key(rs[i]), rec_key(rs[#[trigger] old_ss[a].first as int])),
        forall|j: int| 0 <= j < i ==> rec_key(#[trigger] rs[j]) != rec_key(rs[i]),
{
    let ki = rec_key(rs[i]);
    lemma_id_lt_irreflexive(ki);
    if p < old_ss.len() {
        lemma_id_lt_total(rec_key(rs[old_ss[p].first as int]), ki);
    }
    assert forall|a: int| p <= a < old_ss.len() implies id_lt(ki, rec_key(rs[#[trigger] old_ss[a].first as int])) by {
        if a > p {
            lemma_sorted_at(old_ss, rs, p, a);
            lemma_id_lt_transitive(ki, rec_key(rs[old_ss[p].first as int]), rec_key(rs[old_ss[a].first as int]));
        }
    }
    assert forall|a: int| 0 <= a < old_ss.len() implies rec_key(rs[#[trigger] old_ss[a].first as int]) != ki by {
        if a >= p {
            assert(id_lt(ki, rec_key(rs[old_ss[a].first as int])));
        }
    }
    assert forall|j: int| 0 <= j < i implies rec_key(#[trigger] rs[j]) != ki by {
        let a = lemma_cover_at(old_ss, rs, i, j);
        assert(rec_key(rs[old_ss[a].first as int]) != ki);
    }
}

proof fn lemma_insert_state(old_ss: Seq<SummaryState>, new_ss: Seq<SummaryState>, rs: Seq<OptionUniverseResolutionRecord>, i: int, p: int)
    requires
        states_ok(old_ss, rs, i),
        0 <= i < rs.len(),
        rs.len() <= usize::MAX,
        0 <= p <= old_ss.len(),
        forall|a: int| 0 <= a < p ==> id_lt(rec_key(rs[#[trigger] old_ss[a].first as int]), rec_key(rs[i])),
        p < old_ss.len() ==> !id_lt(rec_key(rs[old_ss[p].first as int]), rec_key(rs[i]))
            && rec_key(rs[old_ss[p].first as int]) != rec_key(rs[i]),
        new_ss == old_ss.insert(p, SummaryState { first: i as usize, last: i as usize, refreshes: refresh_bit(rs[i]) as usize }),
    ensures
        states_ok(new_ss, rs, i + 1),
{
    let ki = rec_key(rs[i]);
    lemma_new_key(old_ss, rs, i, p);
    assert(states_each_ok(new_ss, rs, i + 1)) by {
        reveal(states_each_ok);
        assert forall|a: int| 0 <= a < new_ss.len() implies state_ok(#[trigger] new_ss[a], rs, i + 1) by {
            if a < p {
                assert(new_ss[a] == old_ss[a]);
                lemma_state_at(old_ss, rs, i, a);
                lemma_state_extends(old_ss[a], rs, i);
            } else if a > p {
                assert(new_ss[a] == old_ss[a - 1]);
                lemma_state_at(old_ss, rs, i, a - 1);
                lemma_state_extends(old_ss[a - 1], rs, i);
            } else {
                lemma_refresh_count_zero(rs.take(i), ki);
                lemma_counts_step(rs, i, ki);
            }
        }
    }
    assert(states_sorted(new_ss, rs)) by {
        reveal(states_sorted);
        assert forall|a: int, b: int| 0 <= a < b < new_ss.len() implies id_lt(
            rec_key(rs[#[trigger] new_ss[a].first as int]), rec_key(rs[#[trigger] new_ss[b].first as int])) by {
            if b < p {
                lemma_sorted_at(old_ss, rs, a, b);
            } else if b == p {
            } else if a < p {
                assert(new_ss[b] == old_ss[b - 1]);
                lemma_id_lt_transitive(rec_key(rs[old_ss[a].first as int]), ki, rec_key(rs[old_ss[b - 1].first as int]));
            } else if a == p {
                assert(new_ss[b] == old_ss[b - 1]);
            } else {
                assert(new_ss[a] == old_ss[a - 1]);
                assert(new_ss[b] == old_ss[b - 1]);
                lemma_sorted_at(old_ss, rs, a - 1, b - 1);
            }
        }
    }
    assert(states_cover(new_ss, rs, i + 1)) by {
        reveal(states_cover);
        assert forall|j: int| 0 <= j < i + 1 implies exists|a: int| 0 <= a < new_ss.len()
            && rec_key(rs[#[trigger] new_ss[a].first as int]) == rec_key(#[trigger] rs[j]) by {
            if j == i {
                assert(new_ss[p].first == i);
            } else {
                let a = lemma_cover_at(old_ss, rs, i, j);
                if a < p {
                    assert(new_ss[a] == old_ss[a]);
                } else {
                    assert(new_ss[a + 1] == old_ss[a]);
                }
            }
        }
    }
}

proof fn lemma_states_empty(rs: Seq<OptionUniverseResolutionRecord>)
    ensures
        states_ok(Seq::<SummaryState>::empty(), rs, 0),
{
    reveal(states_each_ok);
    reveal(states_sorted);
    reveal(states_cover);
}

/// First and last record and refresh count of each universe of `records`, by ascending key.
fn collect_summary_states(records: &Vec<OptionUniverseResolutionRecord>) -> (states: Vec<SummaryState>)
    ensures
        states_ok(states@, records@, records@.len() as int),
{
    let ghost rs = records@;
    let mut states: Vec<SummaryState> = Vec::new();
    let mut i: usize = 0;
    proof {
        lemma_states_empty(rs);
    }
    while i < records.len()
        invariant
            i <= rs.len(),
            rs == records@,
            states_ok(states@, rs, i as int),
        decreases rs.len() - i,
    {
        let rec = &records[i];
        let is_refresh: usize = if rec.event_kind == OptionUniverseResolutionEventKind::Refresh { 1 } else { 0 };
        let mut p: usize = 0;
        while p < states.len()
            invariant
                p <= states@.len(),
                rs == records@,
                i < rs.len(),
                *rec == rs[i as int],
                states_ok(states@, rs, i as int),
                forall|a: int| 0 <= a < p ==> id_lt(rec_key(rs[#[trigger] states@[a].first as int]), rec_key(rs[i as int])),
            ensures
                p <= states@.len(),
                forall|a: int| 0 <= a < p ==> id_lt(rec_key(rs[#[trigger] states@[a].first as int]), rec_key(rs[i as int])),
                p < states@.len() ==> !id_lt(rec_key(rs[states@[p as int].first as int]), rec_key(rs[i as int])),
            decreases states@.len() - p,
        {
            proof {
                lemma_state_at(states@, rs, i as int, p as int);
            }
            if !record_key_lt(&records[states[p].first], rec) {
                break;
            }
            p = p + 1;
        }
        let ghost old_states = states@;
        let mut existing = false;
        if p < states.len() {
            proof {
                lemma_state_at(states@, rs, i as int, p as int);
            }
            existing = record_key_eq(&records[states[p].first], rec);
        }
        if existing {
            let first = states[p].first;
            let refreshes = states[p].refreshes;
            proof {
                lemma_state_at(old_states, rs, i as int, p as int);
                lemma_refresh_count_bound(rs.take(i as int), rec_key(rs[i as int]));
            }
            states.set(p, SummaryState { first, last: i, refreshes: refreshes + is_refresh });
            proof {
                lemma_update_state(old_states, states@, rs, i as int, p as int);
            }
        } else {
            states.insert(p, SummaryState { first: i, last: i, refreshes: is_refresh });
            proof {
                lemma_insert_state(old_states, states@, rs, i as int, p as int);
            }
        }
        i = i + 1;
    }
    states
}

/// One summary per universe (venue, underlying), in ascending key order: the startup
/// timestamp of its first record, the latest state from its last record, and the number
/// of its refresh records.
pub fn summarize_option_universe_resolution_records(records: &Vec<OptionUniverseResolutionRecord>) -> (out: Vec<OptionUniverseResolutionSummary>)
    ensures
        forall|a: int, b: int| 0 <= a < b < out@.len() ==> id_lt(
            (#[trigger] out@[a].venue_id@, out@[a].underlying@),
            (#[trigger] out@[b].venue_id@, out@[b].underlying@),
        ),
        forall|i: int| 0 <= i < records@.len() ==> exists|j: int| 0 <= j < out@.len()
            && (#[trigger] out@[j].venue_id@, out@[j].underlying@) == rec_key(#[trigger] records@[i]),
        forall|j: int| 0 <= j < out@.len() ==> summarizes(#[trigger] out@[j], records@),
{
    let ghost rs = records@;
    let states = collect_summary_states(records);
    assert(rs.take(rs.len() as int) =~= rs);
    let mut out: Vec<OptionUniverseResolutionSummary> = Vec::new();
    let mut q: usize = 0;
    while q < states.len()
        invariant
            q <= states@.len(),
            rs == records@,
            rs.take(rs.len() as int) == rs,
            states_ok(states@, rs, rs.len() as int),
            out@.len() == q,
            forall|a: int| 0 <= a < q ==> (#[trigger] out@[a].venue_id@, out@[a].underlying@) == rec_key(rs[states@[a].first as int]),
            forall|a: int| 0 <= a < q ==> #[trigger] summary_matches(out@[a], rs, states@[a].first as int, states@[a].last as int),
        decreases states@.len() - q,
    {
        proof {
            lemma_state_at(states@, rs, rs.len() as int, q as int);
        }
        let st = &states[q];
        let latest = &records[st.last];
        let startup = &records[st.first];
        let mut option_instrument_ids: Vec<String> = Vec::new();
        let mut k: usize = 0;
        while k < latest.option_instrument_ids.len()
            invariant
                k <= latest.option_instrument_ids@.len(),
                strings_view(option_instrument_ids@) == strings_view(latest.option_instrument_ids@).take(k as int),
            decreases latest.option_instrument_ids@.len() - k,
        {
            let ghost before = option_instrument_ids@;
            let t = latest.option_instrument_ids[k].clone();
            option_instrument_ids.push(t);
            assert(strings_view(option_instrument_ids@) =~= strings_view(before).push(t@));
            assert(strings_view(option_instrument_ids@) =~= strings_view(latest.option_instrument_ids@).take(k as int + 1));
            k = k + 1;
        }
        assert(strings_view(latest.option_instrument_ids@).take(latest.option_instrument_ids@.len() as int) =~= strings_view(latest.option_instrument_ids@));
        let latest_rollover_reason = match &latest.rollover_reason {
            Some(r) => Some(r.clone()),
            None => None,
        };
        let perp_instrument_id = match &latest.perp_instrument_id {
            Some(r) => Some(r.clone()),
            None => None,
        };
        out.push(OptionUniverseResolutionSummary {
            venue_id: latest.venue_id.clone(),
            underlying: latest.underlying.clone(),
            startup_resolved_at_iso8601: startup.resolved_at_iso8601.clone(),
            latest_event_kind: latest.event_kind,
            latest_resolved_at_iso8601: latest.resolved_at_iso8601.clone(),
            latest_selected_expiry_iso8601: latest.selected_expiry_iso8601.clone(),
            strike_selection_mode: latest.strike_selection_mode.clone(),
            refresh_count: st.refreshes,
            latest_rollover_reason,
            perp_instrument_id,
            option_count: latest.option_instrument_ids.len(),
            option_instrument_ids,
        });
        q = q + 1;
    }
    proof {
        assert forall|a: int, b: int| 0 <= a < b < out@.len() implies id_lt(
            (#[trigger] out@[a].venue_id@, out@[a].underlying@),
            (#[trigger] out@[b].venue_id@, out@[b].underlying@),
        ) by {
            lemma_sorted_at(states@, rs, a, b);
        }
        assert forall|j: int| 0 <= j < out@.len() implies summarizes(#[trigger] out@[j], records@) by {
            let st = states@[j];
            lemma_state_at(states@, rs, rs.len() as int, j);
            assert(is_first_of(records@, st.first as int));
            assert(is_last_of(records@, st.last as int));
            assert(summary_matches(out@[j], records@, st.first as int, st.last as int));
        }
        assert forall|i: int| 0 <= i < records@.len() implies exists|j: int| 0 <= j < out@.len()
            && (#[trigger] out@[j].venue_id@, out@[j].underlying@) == rec_key(#[trigger] records@[i]) by {
            let a = lemma_cover_at(states@, rs, rs.len() as int, i);
            assert((out@[a].venue_id@, out@[a].underlying@) == rec_key(rs[states@[a].first as int]));
        }
    }
    out
}

proof fn lemma_refresh_count_zero(rs: Seq<OptionUniverseResolutionRecord>, k: (Seq<char>, Seq<char>))
    requires
        forall|j: int| 0 <= j < rs.len() ==> rec_key(#[trigger] rs[j]) != k,
    ensures
        refresh_count_of(rs, k) == 0,
    decreases rs.len(),
{
    if rs.len() > 0 {
        assert(rec_key(rs[rs.len() - 1]) != k);
        assert forall|j: int| 0 <= j < rs.drop_last().len() implies rec_key(#[trigger] rs.drop_last()[j]) != k by {
            assert(rs.drop_last()[j] == rs[j]);
        }
        lemma_refresh_count_zero(rs.drop_last(), k);
    }
}

} // verus!
