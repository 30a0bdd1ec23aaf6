//! Periodic re-resolution of option universes while capture runs: decides,
//! per configured universe, whether a new resolution is applied (strike
//! smoothing), what the universe now captures, and which subscription changes
//! and resolution records that yields. Reading instruments and greeks from the
//! trading platform's cache is the caller's part: it hands in, per universe,
//! the resolution it obtained or the reason it failed.
use vstd::prelude::*;

use crate::dynamic_plan::{build_dynamic_plan_delta, is_merge_fold, is_plan_difference, is_plan_merge, DynamicPlanDelta};
use crate::option_universe::{
    expand_option_universe, next_confirmations, opt_id_view, plan_expands, raws, should_apply_strike_change,
    OptionUniverseSpec, OptionUniverseVenueKind, Price, ResolvedOptionUniverse, StrikeChangeSmoothingState,
    StrikePolicy,
};
use crate::option_universe_metadata::{
    compute_refresh_rollover_reason, opt_text, record_matches, refresh_resolution_record, spec_refresh_rollover_reason,
    OptionUniverseResolutionEventKind, OptionUniverseResolutionRecord,
};
use crate::plan::{
    contains_entry, extend_all, IndexPriceCaptureSpec, MarkPriceCaptureSpec, QuoteCaptureSpec, id_strings, id_texts, instrument_id_difference, id_lt, lemma_id_lt_irreflexive, lemma_id_lt_transitive,
    merge_capture_plans, plan_instrument_ids, plan_mentions_id, seq_difference, sorted_ids, strings_view, views,
    CapturePlan, InstrumentId,
};

verus! {

/// A resolution together with the ISO-8601 renderings of its two instants.
#[derive(Debug)]
pub struct TimedResolvedOptionUniverse {
    pub resolved: ResolvedOptionUniverse,
    pub resolved_at_iso8601: String,
    pub selected_expiry_iso8601: String,
}

/// One configured universe at startup.
#[derive(Debug)]
pub struct DynamicOptionUniverseEntryConfig {
    pub venue: String,
    pub venue_kind: OptionUniverseVenueKind,
    pub spec: OptionUniverseSpec,
    pub initial_plan: CapturePlan,
    pub initial_resolved: TimedResolvedOptionUniverse,
}

#[derive(Debug)]
pub struct DynamicOptionUniverseConfig {
    pub refresh_interval_secs: u64,
    pub strike_change_confirmations: u32,
    /// Rolled-off option instruments are purged from the platform cache
    /// (definitions and market data); catalog files are never deleted.
    pub purge_removed_instruments: bool,
    pub static_plan: CapturePlan,
    pub initial_dynamic_plan: CapturePlan,
    pub universes: Vec<DynamicOptionUniverseEntryConfig>,
}

/// A universe whose captured instruments changed on a refresh.
#[derive(Debug)]
pub struct DynamicOptionUniverseChange {
    pub venue_id: String,
    pub underlying: String,
    pub selected_expiry_iso8601: String,
    pub perp_instrument_id: Option<InstrumentId>,
    pub option_instrument_ids: Vec<InstrumentId>,
    pub previous_count: usize,
    pub next_count: usize,
    pub added_instrument_ids: Vec<InstrumentId>,
    pub removed_instrument_ids: Vec<InstrumentId>,
}

/// Per-universe state kept between refreshes.
#[derive(Debug)]
pub struct DynamicOptionUniverseState {
    pub venue: String,
    pub venue_kind: OptionUniverseVenueKind,
    pub spec: OptionUniverseSpec,
    pub current_plan: CapturePlan,
    pub applied: TimedResolvedOptionUniverse,
    pub last_selected_expiry_ns: Option<u64>,
    pub last_atm_reference: Option<String>,
    pub strike_smoothing: StrikeChangeSmoothingState,
}

/// Refreshes the dynamic part of the capture plan from per-universe resolutions.
#[derive(Debug)]
pub struct DynamicOptionUniverseManager {
    pub refresh_interval_secs: u64,
    pub strike_change_confirmations: u32,
    pub purge_removed_instruments: bool,
    pub static_plan: CapturePlan,
    pub current_dynamic_plan: CapturePlan,
    pub universes: Vec<DynamicOptionUniverseState>,
}

/// What one universe's refresh produced: whether the new resolution was applied,
/// and the change and record emitted when its instruments changed.
#[derive(Debug)]
pub struct UniverseRefreshStep {
    pub applied: bool,
    pub change: Option<DynamicOptionUniverseChange>,
    pub record: Option<OptionUniverseResolutionRecord>,
}

pub type DynamicOptionUniverseDelta = DynamicPlanDelta<DynamicOptionUniverseChange, OptionUniverseResolutionRecord>;

/// The plan captures quotes of `instrument_id`.
pub fn plan_has_quotes(plan: &CapturePlan, instrument_id: &InstrumentId) -> (r: bool)
    ensures
        r == views(plan.quotes@).contains(instrument_id@),
{
    contains_entry(&plan.quotes, &QuoteCaptureSpec { instrument_id: instrument_id.copy() })
}

/// The plan captures mark prices of `instrument_id`.
pub fn plan_has_mark_prices(plan: &CapturePlan, instrument_id: &InstrumentId) -> (r: bool)
    ensures
        r == views(plan.mark_prices@).contains(instrument_id@),
{
    contains_entry(&plan.mark_prices, &MarkPriceCaptureSpec { instrument_id: instrument_id.copy() })
}

/// The plan captures index prices of `instrument_id`.
pub fn plan_has_index_prices(plan: &CapturePlan, instrument_id: &InstrumentId) -> (r: bool)
    ensures
        r == views(plan.index_prices@).contains(instrument_id@),
{
    contains_entry(&plan.index_prices, &IndexPriceCaptureSpec { instrument_id: instrument_id.copy() })
}

/// The sorted, duplicate-free identifiers that `plan` mentions.
pub open spec fn planned_ids(plan: CapturePlan) -> Seq<(Seq<char>, Seq<char>)> {
    choose|s: Seq<(Seq<char>, Seq<char>)>| sorted_ids(s) && forall|x| #[trigger] s.contains(x) <==> plan_mentions_id(plan, x)
}

/// Two strictly sorted identifier sequences with the same members are equal.
pub proof fn lemma_sorted_ids_unique(a: Seq<(Seq<char>, Seq<char>)>, b: Seq<(Seq<char>, Seq<char>)>)
    requires
        sorted_ids(a),
        sorted_ids(b),
        forall|x| #![trigger a.contains(x)] #![trigger b.contains(x)] a.contains(x) <==> b.contains(x),
    ensures
        a == b,
    decreases a.len(),
{
    if a.len() == 0 {
        if b.len() > 0 {
            assert(b.contains(b[0]));
            assert(a.contains(b[0]));
            assert(false);
        }
        assert(a =~= b);
    } else {
        assert(a.contains(a[0]));
        assert(b.contains(a[0]));
        assert(b.len() > 0);
        assert(b.contains(b[0]));
        assert(a.contains(b[0]));
        let j = choose|j: int| 0 <= j < b.len() && b[j] == a[0];
        let i = choose|i: int| 0 <= i < a.len() && a[i] == b[0];
        if j > 0 {
            if i > 0 {
                assert(id_lt(a[0], a[i]));
                assert(id_lt(b[0], b[j]));
                lemma_id_lt_transitive(a[0], a[i], a[0]);
                lemma_id_lt_irreflexive(a[0]);
            } else {
                lemma_id_lt_irreflexive(b[0]);
            }
        }
        assert(a[0] == b[0]);
        let ra = a.drop_first();
        let rb = b.drop_first();
        assert forall|x| #[trigger] ra.contains(x) implies rb.contains(x) by {
            let k = choose|k: int| 0 <= k < ra.len() && ra[k] == x;
            assert(a[k + 1] == x);
            assert(a.contains(x));
            let m = choose|m: int| 0 <= m < b.len() && b[m] == x;
            if m == 0 {
                lemma_id_lt_irreflexive(a[0]);
            }
            assert(rb[m - 1] == x);
        }
        assert forall|x| #[trigger] rb.contains(x) implies ra.contains(x) by {
            let k = choose|k: int| 0 <= k < rb.len() && rb[k] == x;
            assert(b[k + 1] == x);
            assert(b.contains(x));
            let m = choose|m: int| 0 <= m < a.len() && a[m] == x;
            if m == 0 {
                lemma_id_lt_irreflexive(b[0]);
            }
            assert(ra[m - 1] == x);
        }
        lemma_sorted_ids_unique(ra, rb);
        assert(a =~= seq![a[0]] + ra);
        assert(b =~= seq![b[0]] + rb);
    }
}

/// The identifiers computed for a plan are its `planned_ids`.
pub proof fn lemma_planned_ids(plan: CapturePlan, ids: Seq<(Seq<char>, Seq<char>)>)
    requires
        sorted_ids(ids),
        forall|x| #[trigger] ids.contains(x) <==> plan_mentions_id(plan, x),
    ensures
        planned_ids(plan) == ids,
{
    let s = planned_ids(plan);
    assert(sorted_ids(s) && forall|x| #[trigger] s.contains(x) <==> plan_mentions_id(plan, x));
    lemma_sorted_ids_unique(s, ids);
}

/// Strike smoothing runs for open-interest-ranked strike windows when confirmations are required.
pub open spec fn smoothing_enabled(spec: OptionUniverseSpec, confirmations: u32) -> bool {
    (spec.strike_policy is OiRanked) && confirmations > 0
}

/// The smoothing state moved from `before` to `after` on seeing `candidate`
/// while `current` is applied, and `apply` is the decision taken.
pub open spec fn smoothing_step(
    before: StrikeChangeSmoothingState,
    after: StrikeChangeSmoothingState,
    current: Seq<Price>,
    candidate: Seq<Price>,
    expiry_changed: bool,
    required: u32,
    apply: bool,
) -> bool {
    if expiry_changed || required == 0 || raws(current) == raws(candidate) {
        apply && after.spec_is_reset()
    } else {
        let c = next_confirmations(before, raws(candidate));
        &&& apply == (c >= required)
        &&& apply ==> after.spec_is_reset()
        &&& !apply ==> after.confirmations == c
        &&& !apply ==> (after.pending_strikes matches Some(p) && raws(p@) == raws(candidate))
    }
}

/// A changed strike window held back by smoothing applies on exactly the
/// `required`-th consecutive sighting: seen from a reset state again and again
/// (while the applied window and the expiry stay the same), it is pending with
/// one more confirmation after each earlier sighting.
pub proof fn lemma_strike_change_applies_on_kth_sighting(
    states: Seq<StrikeChangeSmoothingState>,
    applies: Seq<bool>,
    current: Seq<Price>,
    candidate: Seq<Price>,
    required: u32,
)
    requires
        required > 0,
        applies.len() <= required,
        states.len() == applies.len() + 1,
        states[0].spec_is_reset(),
        raws(current) != raws(candidate),
        forall|i: int| 0 <= i < applies.len() ==> smoothing_step(#[trigger] states[i], states[i + 1], current, candidate,
            false, required, applies[i]),
    ensures
        forall|i: int| 0 <= i < applies.len() ==> #[trigger] applies[i] == (i + 1 == required as int),
        forall|i: int| 0 < i <= applies.len() && i < required ==> {
            &&& (#[trigger] states[i]).confirmations == i
            &&& states[i].pending_strikes matches Some(p) && raws(p@) == raws(candidate)
        },
    decreases applies.len(),
{
    let n = applies.len();
    if n > 0 {
        let ps = states.drop_last();
        let pa = applies.drop_last();
        assert forall|i: int| 0 <= i < pa.len() implies smoothing_step(#[trigger] ps[i], ps[i + 1], current, candidate,
            false, required, pa[i]) by {
            assert(ps[i] == states[i]);
            assert(ps[i + 1] == states[i + 1]);
            assert(smoothing_step(states[i], states[i + 1], current, candidate, false, required, applies[i]));
        }
        lemma_strike_change_applies_on_kth_sighting(ps, pa, current, candidate, required);
        let k = n - 1;
        assert(smoothing_step(states[k], states[k + 1], current, candidate, false, required, applies[k]));
        if k == 0 {
            assert(next_confirmations(states[0], raws(candidate)) == 1);
        } else {
            assert(ps[k] == states[k]);
            assert(states[k].confirmations == k);
            assert(next_confirmations(states[k], raws(candidate)) == k + 1);
        }
        assert forall|i: int| 0 <= i < applies.len() implies #[trigger] applies[i] == (i + 1 == required as int) by {
            if i < k {
                assert(pa[i] == applies[i]);
            }
        }
        assert forall|i: int| 0 < i <= applies.len() && i < required implies {
            &&& (#[trigger] states[i]).confirmations == i
            &&& states[i].pending_strikes matches Some(p) && raws(p@) == raws(candidate)
        } by {
            if i <= k {
                assert(ps[i] == states[i]);
            }
        }
    }
}

/// `c` describes a universe change of `spec` whose plan moved from `before_plan`
/// to `after_plan` under the `effective` resolution.
pub open spec fn change_describes(
    c: DynamicOptionUniverseChange,
    spec: OptionUniverseSpec,
    effective: TimedResolvedOptionUniverse,
    before_plan: CapturePlan,
    after_plan: CapturePlan,
) -> bool {
    &&& c.venue_id@ == spec.venue_id@
    &&& c.underlying@ == spec.underlying@
    &&& c.selected_expiry_iso8601@ == effective.selected_expiry_iso8601@
    &&& opt_id_view(c.perp_instrument_id) == opt_id_view(effective.resolved.perp_instrument_id)
    &&& views(c.option_instrument_ids@) == views(effective.resolved.option_instrument_ids@)
    &&& c.previous_count == planned_ids(before_plan).len()
    &&& c.next_count == planned_ids(after_plan).len()
    &&& views(c.added_instrument_ids@) == seq_difference(planned_ids(after_plan), planned_ids(before_plan))
    &&& views(c.removed_instrument_ids@) == seq_difference(planned_ids(before_plan), planned_ids(after_plan))
}

/// `r` is the refresh record of such a change.
pub open spec fn record_describes(
    r: OptionUniverseResolutionRecord,
    before: DynamicOptionUniverseState,
    effective: TimedResolvedOptionUniverse,
    after_plan: CapturePlan,
) -> bool {
    &&& record_matches(r, OptionUniverseResolutionEventKind::Refresh, before.spec, effective.resolved)
    &&& r.resolved_at_iso8601@ == effective.resolved_at_iso8601@
    &&& r.selected_expiry_iso8601@ == effective.selected_expiry_iso8601@
    &&& strings_view(r.added_instrument_ids@) == id_texts(seq_difference(planned_ids(after_plan), planned_ids(before.current_plan)))
    &&& strings_view(r.removed_instrument_ids@) == id_texts(seq_difference(planned_ids(before.current_plan), planned_ids(after_plan)))
    &&& opt_text(r.rollover_reason) == spec_refresh_rollover_reason(
        before.last_selected_expiry_ns,
        effective.resolved.selected_expiry_ns,
        effective.resolved.atm_reference.text@,
        opt_text(before.last_atm_reference),
        true,
        before.spec.strike_policy.spec_selection_mode(),
    )
}

/// One universe went from `before` to `after` on `outcome`, producing `step`.
/// A failed resolution leaves the universe as it was. A successful one is
/// applied unless strike smoothing holds it back (the previously applied
/// resolution then stays in effect); the universe captures the expansion of
/// the resolution in effect; a change and a record are emitted exactly when
/// the set of captured instruments differs.
pub open spec fn universe_refreshed(
    before: DynamicOptionUniverseState,
    after: DynamicOptionUniverseState,
    outcome: Result<TimedResolvedOptionUniverse, String>,
    confirmations: u32,
    step: UniverseRefreshStep,
) -> bool {
    &&& after.venue == before.venue
    &&& after.venue_kind == before.venue_kind
    &&& after.spec == before.spec
    &&& match outcome {
        Err(_) => {
            &&& after == before
            &&& !step.applied
            &&& step.change is None
            &&& step.record is None
        },
        Ok(next) => {
            let expiry_changed = before.last_selected_expiry_ns matches Some(e) && e != next.resolved.selected_expiry_ns;
            let apply = step.applied;
            let effective = if apply { next } else { before.applied };
            let changed = planned_ids(before.current_plan) != planned_ids(after.current_plan);
            &&& smoothing_enabled(before.spec, confirmations) ==> smoothing_step(
                before.strike_smoothing,
                after.strike_smoothing,
                before.applied.resolved.selected_strikes@,
                next.resolved.selected_strikes@,
                expiry_changed,
                confirmations,
                apply,
            )
            &&& !smoothing_enabled(before.spec, confirmations) ==> apply && after.strike_smoothing == before.strike_smoothing
            &&& plan_expands(after.current_plan, before.spec, effective.resolved)
            &&& apply ==> {
                &&& after.applied == next
                &&& after.last_selected_expiry_ns == Some(next.resolved.selected_expiry_ns)
                &&& after.last_atm_reference matches Some(t) && t@ == next.resolved.atm_reference.text@
            }
            &&& !apply ==> {
                &&& after.applied == before.applied
                &&& after.last_selected_expiry_ns == before.last_selected_expiry_ns
                &&& after.last_atm_reference == before.last_atm_reference
            }
            &&& (step.change is Some) == changed
            &&& (step.record is Some) == changed
            &&& step.change matches Some(c) ==> change_describes(c, before.spec, effective, before.current_plan, after.current_plan)
            &&& step.record matches Some(r) ==> record_describes(r, before, effective, after.current_plan)
        },
    }
}

/// The changes emitted by `steps`, in order.
pub open spec fn step_changes(steps: Seq<UniverseRefreshStep>) -> Seq<DynamicOptionUniverseChange>
    decreases steps.len(),
{
    if steps.len() == 0 {
        Seq::empty()
    } else {
        let rest = step_changes(steps.drop_last());
        match steps.last().change {
            Some(c) => rest.push(c),
            None => rest,
        }
    }
}

/// The records emitted by `steps`, in order.
pub open spec fn step_records(steps: Seq<UniverseRefreshStep>) -> Seq<OptionUniverseResolutionRecord>
    decreases steps.len(),
{
    if steps.len() == 0 {
        Seq::empty()
    } else {
        let rest = step_records(steps.drop_last());
        match steps.last().record {
            Some(r) => rest.push(r),
            None => rest,
        }
    }
}

/// Current plans of the universes, in order.
pub open spec fn universe_plans(us: Seq<DynamicOptionUniverseState>) -> Seq<CapturePlan> {
    us.map_values(|u: DynamicOptionUniverseState| u.current_plan)
}

fn same_ids(a: &Vec<InstrumentId>, b: &Vec<InstrumentId>) -> (r: bool)
    ensures
        r == (views(a@) == views(b@)),
{
    if a.len() != b.len() {
        assert(views(a@).len() != views(b@).len());
        return false;
    }
    let mut i: usize = 0;
    while i < a.len()
        invariant
            i <= a@.len(),
            a@.len() == b@.len(),
            forall|k: int| 0 <= k < i ==> a@[k]@ == b@[k]@,
        decreases a@.len() - i,
    {
        if !a[i].same(&b[i]) {
            assert(views(a@)[i as int] != views(b@)[i as int]);
            return false;
        }
        i = i + 1;
    }
    assert(views(a@) =~= views(b@));
    true
}

fn copy_ids(v: &Vec<InstrumentId>) -> (r: Vec<InstrumentId>)
    ensures
        views(r@) == views(v@),
{
    let mut r: Vec<InstrumentId> = Vec::new();
    extend_all(&mut r, v);
    assert(views(r@) =~= views(v@));
    r
}

fn copy_opt_id(o: &Option<InstrumentId>) -> (r: Option<InstrumentId>)
    ensures
        opt_id_view(r) == opt_id_view(*o),
{
    match o {
        Some(id) => Some(id.copy()),
        None => None,
    }
}

/// The change and record for a universe whose plan moved from `previous_plan`
/// to `next_plan` under `effective`, when its instruments changed.
fn describe_change(
    state: &DynamicOptionUniverseState,
    effective: &TimedResolvedOptionUniverse,
    next_plan: &CapturePlan,
) -> (r: (Option<DynamicOptionUniverseChange>, Option<OptionUniverseResolutionRecord>))
    ensures
        (r.0 is Some) == (planned_ids(state.current_plan) != planned_ids(*next_plan)),
        (r.1 is Some) == (planned_ids(state.current_plan) != planned_ids(*next_plan)),
        r.0 matches Some(c) ==> change_describes(c, state.spec, *effective, state.current_plan, *next_plan),
        r.1 matches Some(rec) ==> record_describes(rec, *state, *effective, *next_plan),
{
    let previous_ids = plan_instrument_ids(&state.current_plan);
    let next_ids = plan_instrument_ids(next_plan);
    proof {
        lemma_planned_ids(state.current_plan, views(previous_ids@));
        lemma_planned_ids(*next_plan, views(next_ids@));
    }
    if same_ids(&next_ids, &previous_ids) {
        return (None, None);
    }
    let added = instrument_id_difference(&next_ids, &previous_ids);
    let removed = instrument_id_difference(&previous_ids, &next_ids);
    let last_atm: Option<&str> = match &state.last_atm_reference {
        Some(s) => Some(s.as_str()),
        None => None,
    };
    let rollover_reason = compute_refresh_rollover_reason(
        state.last_selected_expiry_ns,
        &effective.resolved,
        last_atm,
        true,
        state.spec.strike_policy.selection_mode(),
    );
    proof {
        assert(crate::option_universe_metadata::opt_str(last_atm) == opt_text(state.last_atm_reference));
    }
    let change = DynamicOptionUniverseChange {
        venue_id: state.spec.venue_id.clone(),
        underlying: state.spec.underlying.clone(),
        selected_expiry_iso8601: effective.selected_expiry_iso8601.clone(),
        perp_instrument_id: copy_opt_id(&effective.resolved.perp_instrument_id),
        option_instrument_ids: copy_ids(&effective.resolved.option_instrument_ids),
        previous_count: previous_ids.len(),
        next_count: next_ids.len(),
        added_instrument_ids: copy_ids(&added),
        removed_instrument_ids: copy_ids(&removed),
    };
    let record = refresh_resolution_record(
        &state.spec,
        &effective.resolved,
        id_strings(&added),
        id_strings(&removed),
        rollover_reason,
        effective.resolved_at_iso8601.clone(),
        effective.selected_expiry_iso8601.clone(),
    );
    (Some(change), Some(record))
}

/// Refreshes one universe from its resolution outcome (see `universe_refreshed`).
pub fn refresh_universe_state(
    state: &mut DynamicOptionUniverseState,
    outcome: Result<TimedResolvedOptionUniverse, String>,
    confirmations: u32,
) -> (step: UniverseRefreshStep)
    ensures
        universe_refreshed(*old(state), *final(state), outcome, confirmations, step),
{
    let next = match outcome {
        Ok(n) => n,
        Err(_) => {
            return UniverseRefreshStep { applied: false, change: None, record: None };
        },
    };
    let ghost before = *state;
    let expiry_changed = match state.last_selected_expiry_ns {
        Some(e) => e != next.resolved.selected_expiry_ns,
        None => false,
    };
    let smoothing = match state.spec.strike_policy {
        StrikePolicy::OiRanked { .. } => confirmations > 0,
        _ => false,
    };
    let apply = if smoothing {
        should_apply_strike_change(
            &state.applied.resolved.selected_strikes,
            &next.resolved.selected_strikes,
            expiry_changed,
            confirmations,
            &mut state.strike_smoothing,
        )
    } else {
        true
    };
    let next_plan = if apply {
        expand_option_universe(&state.spec, &next.resolved)
    } else {
        expand_option_universe(&state.spec, &state.applied.resolved)
    };
    let described = if apply {
        describe_change(state, &next, &next_plan)
    } else {
        describe_change(state, &state.applied, &next_plan)
    };
    if apply {
        let atm = next.resolved.atm_reference.text.clone();
        let expiry = next.resolved.selected_expiry_ns;
        state.applied = next;
        state.last_selected_expiry_ns = Some(expiry);
        state.last_atm_reference = Some(atm);
    }
    state.current_plan = next_plan;
    let (change, record) = described;
    UniverseRefreshStep { applied: apply, change, record }
}

impl DynamicOptionUniverseManager {
    /// Manager over the configured universes, each starting from its initial
    /// resolution and plan with no pending strike change.
    pub fn new(config: DynamicOptionUniverseConfig) -> (m: Self)
        ensures
            m.refresh_interval_secs == config.refresh_interval_secs,
            m.strike_change_confirmations == config.strike_change_confirmations,
            m.purge_removed_instruments == config.purge_removed_instruments,
            m.static_plan == config.static_plan,
            m.current_dynamic_plan == config.initial_dynamic_plan,
            m.universes@.len() == config.universes@.len(),
            forall|i: int| 0 <= i < m.universes@.len() ==> {
                let u = #[trigger] m.universes@[i];
                let e = config.universes@[i];
                &&& u.venue == e.venue
                &&& u.venue_kind == e.venue_kind
                &&& u.spec == e.spec
                &&& u.current_plan == e.initial_plan
                &&& u.applied == e.initial_resolved
                &&& u.last_selected_expiry_ns == Some(e.initial_resolved.resolved.selected_expiry_ns)
                &&& u.last_atm_reference matches Some(t) && t@ == e.initial_resolved.resolved.atm_reference.text@
                &&& u.strike_smoothing.spec_is_reset()
            },
    {
        let DynamicOptionUniverseConfig {
            refresh_interval_secs,
            strike_change_confirmations,
            purge_removed_instruments,
            static_plan,
            initial_dynamic_plan,
            universes: entries,
        } = config;
        let ghost es = entries@;
        let mut entries = entries;
        let _count = entries.len();
        let mut universes: Vec<DynamicOptionUniverseState> = Vec::new();
        let mut i: usize = 0;
        while entries.len() > 0
            invariant
                i + entries@.len() == es.len(),
                es.len() <= usize::MAX,
                entries@ == es.skip(i as int),
                universes@.len() == i,
                forall|k: int| 0 <= k < i ==> {
                    let u = #[trigger] universes@[k];
                    let e = es[k];
                    &&& u.venue == e.venue
                    &&& u.venue_kind == e.venue_kind
                    &&& u.spec == e.spec
                    &&& u.current_plan == e.initial_plan
                    &&& u.applied == e.initial_resolved
                    &&& u.last_selected_expiry_ns == Some(e.initial_resolved.resolved.selected_expiry_ns)
                    &&& u.last_atm_reference matches Some(t) && t@ == e.initial_resolved.resolved.atm_reference.text@
                    &&& u.strike_smoothing.spec_is_reset()
                },
            decreases entries@.len(),
        {
            let entry = entries.remove(0);
            assert(entry == es[i as int]);
            assert(entries@ == es.skip(i as int + 1));
            let atm = entry.initial_resolved.resolved.atm_reference.text.clone();
            let expiry = entry.initial_resolved.resolved.selected_expiry_ns;
            universes.push(DynamicOptionUniverseState {
                venue: entry.venue,
                venue_kind: entry.venue_kind,
                spec: entry.spec,
                current_plan: entry.initial_plan,
                applied: entry.initial_resolved,
                last_selected_expiry_ns: Some(expiry),
                last_atm_reference: Some(atm),
                strike_smoothing: StrikeChangeSmoothingState::new(),
            });
            i = i + 1;
        }
        DynamicOptionUniverseManager {
            refresh_interval_secs,
            strike_change_confirmations,
            purge_removed_instruments,
            static_plan,
            current_dynamic_plan: initial_dynamic_plan,
            universes,
        }
    }

    pub fn refresh_interval_secs(&self) -> (r: u64)
        ensures
            r == self.refresh_interval_secs,
    {
        self.refresh_interval_secs
    }

    pub fn purge_removed_instruments_enabled(&self) -> (r: bool)
        ensures
            r == self.purge_removed_instruments,
    {
        self.purge_removed_instruments
    }

    /// The static plan with the current dynamic plan merged in.
    pub fn active_capture_plan(&self) -> (p: CapturePlan)
        ensures
            is_plan_merge(p, self.static_plan, self.current_dynamic_plan),
    {
        merge_capture_plans(&self.static_plan, &self.current_dynamic_plan)
    }

    /// Refreshes every universe from `outcomes` (one per universe, in order):
    /// each universe is refreshed as `universe_refreshed` says, the new dynamic
    /// plan is the merge of the universes' plans, and the delta adds and removes
    /// the difference to the previous dynamic plan.
    pub fn refresh_from_resolutions(
        &mut self,
        outcomes: Vec<Result<TimedResolvedOptionUniverse, String>>,
    ) -> (delta: DynamicOptionUniverseDelta)
        requires
            outcomes@.len() == old(self).universes@.len(),
        ensures
            final(self).refresh_interval_secs == old(self).refresh_interval_secs,
            final(self).strike_change_confirmations == old(self).strike_change_confirmations,
            final(self).purge_removed_instruments == old(self).purge_removed_instruments,
            final(self).static_plan == old(self).static_plan,
            final(self).universes@.len() == old(self).universes@.len(),
            exists|steps: Seq<UniverseRefreshStep>| {
                &&& steps.len() == outcomes@.len()
                &&& forall|i: int| 0 <= i < steps.len() ==> universe_refreshed(
                    old(self).universes@[i],
                    final(self).universes@[i],
                    outcomes@[i],
                    old(self).strike_change_confirmations,
                    #[trigger] steps[i],
                )
                &&& delta.changes@ == step_changes(steps)
                &&& delta.resolution_records@ == step_records(steps)
            },
            is_merge_fold(final(self).current_dynamic_plan, universe_plans(final(self).universes@)),
            is_plan_difference(delta.add, final(self).current_dynamic_plan, old(self).current_dynamic_plan),
            is_plan_difference(delta.remove, old(self).current_dynamic_plan, final(self).current_dynamic_plan),
    {
        let ghost olds = self.universes@;
        let ghost outs = outcomes@;
        let confirmations = self.strike_change_confirmations;
        let mut pending: Vec<DynamicOptionUniverseState> = Vec::new();
        std::mem::swap(&mut pending, &mut self.universes);
        let _count = pending.len();
        let mut outcomes = outcomes;
        let mut done: Vec<DynamicOptionUniverseState> = Vec::new();
        let mut next_dynamic_plan = CapturePlan::empty();
        let mut changes: Vec<DynamicOptionUniverseChange> = Vec::new();
        let mut records: Vec<OptionUniverseResolutionRecord> = Vec::new();
        let ghost mut steps: Seq<UniverseRefreshStep> = Seq::empty();
        let mut i: usize = 0;
        proof {
            assert(universe_plans(done@) =~= Seq::<CapturePlan>::empty());
            crate::dynamic_plan::lemma_merge_fold_empty(next_dynamic_plan);
        }
        while pending.len() > 0
            invariant
                i + pending@.len() == olds.len(),
                olds.len() <= usize::MAX,
                olds.len() == outs.len(),
                pending@ == olds.skip(i as int),
                outcomes@ == outs.skip(i as int),
                done@.len() == i,
                steps.len() == i,
                forall|k: int| 0 <= k < i ==> universe_refreshed(olds[k], done@[k], outs[k], confirmations, #[trigger] steps[k]),
                changes@ == step_changes(steps),
                records@ == step_records(steps),
                is_merge_fold(next_dynamic_plan, universe_plans(done@)),
            decreases pending@.len(),
        {
            let mut state = pending.remove(0);
            let outcome = outcomes.remove(0);
            assert(state == olds[i as int]);
            assert(outcome == outs[i as int]);
            assert(pending@ == olds.skip(i as int + 1));
            assert(outcomes@ == outs.skip(i as int + 1));
            let step = refresh_universe_state(&mut state, outcome, confirmations);
            let ghost g = step;
            let merged = merge_capture_plans(&next_dynamic_plan, &state.current_plan);
            let ghost plans = universe_plans(done@.push(state));
            proof {
                assert(plans.drop_last() =~= universe_plans(done@));
                assert(plans.last() == state.current_plan);
                assert(is_merge_fold(next_dynamic_plan, plans.drop_last()) && is_plan_merge(merged, next_dynamic_plan, plans.last()));
                crate::dynamic_plan::lemma_merge_fold_step(next_dynamic_plan, plans, merged);
            }
            next_dynamic_plan = merged;
            let UniverseRefreshStep { applied: _, change, record } = step;
            match change {
                Some(c) => changes.push(c),
                None => {},
            }
            match record {
                Some(r) => records.push(r),
                None => {},
            }
            done.push(state);
            proof {
                let prev = steps;
                steps = steps.push(g);
                assert(steps.drop_last() =~= prev);
                assert(steps[i as int] == g);
                assert(universe_plans(done@) =~= plans);
            }
            i = i + 1;
        }
        let delta = build_dynamic_plan_delta(&self.current_dynamic_plan, &next_dynamic_plan, changes, records);
        self.current_dynamic_plan = next_dynamic_plan;
        self.universes = done;
        proof {
            assert(self.universes@.len() == olds.len());
        }
        delta
    }
}

} // verus!
