//! Periodic re-resolution of HIP-4 outcome-market universes while capture
//! runs: what each universe captures after a refresh, the subscription
//! changes and resolution records that yields, and when to check again.
//! Fetching the venue's outcome metadata is the caller's part: it hands in,
//! per universe, the market it resolved or the reason it failed.
use vstd::prelude::*;

use crate::dynamic_option_universe::{lemma_planned_ids, lemma_sorted_ids_unique, planned_ids};
use crate::dynamic_plan::{is_merge_fold, is_plan_difference, is_plan_merge, lemma_merge_fold_step};
use crate::error::CaptureError;
use crate::hip4::{
    build_resolved_hip4_universe, compute_hip4_refresh_rollover_reason, expand_hip4_universe, hip4_plan_expands,
    next_rotation_delay_secs, opt_id_view, opt_text, record_matches, refresh_resolution_record,
    spec_hip4_rollover_reason, spec_rotation_delay, validate_hip4_refresh_resolution_record,
    Hip4UniverseResolutionEventKind, Hip4UniverseResolutionRecord, Hip4UniverseSpec, ResolvedHip4Market,
    ResolvedHip4Universe,
};
use crate::plan::{
    capture_plan_difference, extend_all, id_strings, id_texts, instrument_id_difference, lemma_difference_contains,
    merge_capture_plans, plan_instrument_ids, seq_difference, sorted_ids, strings_view, views, CapturePlan,
    InstrumentId,
};

verus! {

/// A resolved market together with the ISO-8601 renderings of the resolution
/// instant and of the market's expiration.
#[derive(Debug)]
pub struct TimedHip4Market {
    pub market: ResolvedHip4Market,
    pub resolved_at_iso8601: String,
    pub expiration_iso8601: String,
}

/// One configured universe at startup.
#[derive(Debug)]
pub struct DynamicHip4UniverseEntryConfig {
    /// The venue environment, as the caller names it.
    pub environment: String,
    pub spec: Hip4UniverseSpec,
    pub initial_plan: CapturePlan,
    pub initial_resolved: ResolvedHip4Universe,
}

#[derive(Debug)]
pub struct DynamicHip4UniverseConfig {
    pub idle_poll_secs: u64,
    pub active_poll_secs: u64,
    pub pre_expiry_window_secs: u64,
    pub http_timeout_secs: u64,
    /// Rolled-off outcome instruments are purged from the platform cache;
    /// catalog files are never deleted.
    pub purge_removed_instruments: bool,
    pub static_plan: CapturePlan,
    pub initial_dynamic_plan: CapturePlan,
    pub universes: Vec<DynamicHip4UniverseEntryConfig>,
}

/// Subscriptions to add and drop after a refresh, with the per-universe changes
/// and resolution records that explain them.
#[derive(Debug)]
pub struct DynamicHip4UniverseDelta {
    pub add: CapturePlan,
    pub remove: CapturePlan,
    pub changes: Vec<DynamicHip4UniverseChange>,
    pub resolution_records: Vec<Hip4UniverseResolutionRecord>,
}

impl DynamicHip4UniverseDelta {
    /// True when nothing is added or removed.
    pub fn is_empty(&self) -> (r: bool)
        ensures
            r == (self.add.spec_is_empty() && self.remove.spec_is_empty()),
    {
        self.add.is_empty() && self.remove.is_empty()
    }
}

/// A universe whose captured instruments changed on a refresh.
#[derive(Debug)]
pub struct DynamicHip4UniverseChange {
    pub venue_id: String,
    pub underlying: String,
    pub period: String,
    pub market_class: String,
    pub question_id: u32,
    pub expiration_iso8601: String,
    pub perp_instrument_id: Option<InstrumentId>,
    pub outcome_instrument_ids: Vec<InstrumentId>,
    pub previous_count: usize,
    pub next_count: usize,
    pub added_instrument_ids: Vec<InstrumentId>,
    pub removed_instrument_ids: Vec<InstrumentId>,
}

/// Per-universe state kept between refreshes.
#[derive(Debug)]
pub struct DynamicHip4UniverseState {
    pub environment: String,
    pub spec: Hip4UniverseSpec,
    pub current_plan: CapturePlan,
    pub applied_resolved: ResolvedHip4Universe,
    pub last_question_id: u32,
    pub last_expiration_ns: u64,
}

/// Refreshes the dynamic HIP-4 part of the capture plan.
#[derive(Debug)]
pub struct DynamicHip4UniverseManager {
    pub idle_poll_secs: u64,
    pub active_poll_secs: u64,
    pub pre_expiry_window_secs: u64,
    pub http_timeout_secs: u64,
    pub purge_removed_instruments: bool,
    pub static_plan: CapturePlan,
    pub current_dynamic_plan: CapturePlan,
    pub universes: Vec<DynamicHip4UniverseState>,
    pub last_refresh_failed: bool,
}

/// What one universe's refresh emitted.
#[derive(Debug)]
pub struct Hip4RefreshStep {
    pub change: Option<DynamicHip4UniverseChange>,
    pub record: Option<Hip4UniverseResolutionRecord>,
}

/// `c` describes the change of a universe of `spec` from `before_plan` to
/// `after_plan` under `resolved`.
pub open spec fn hip4_change_describes(
    c: DynamicHip4UniverseChange,
    spec: Hip4UniverseSpec,
    resolved: ResolvedHip4Universe,
    expiration_iso8601: Seq<char>,
    before_plan: CapturePlan,
    after_plan: CapturePlan,
) -> bool {
    &&& c.venue_id@ == spec.venue_id@
    &&& c.underlying@ == spec.underlying@
    &&& c.period@ == spec.period@
    &&& c.market_class@ == spec.market_class@
    &&& c.question_id == resolved.market.question_id
    &&& c.expiration_iso8601@ == expiration_iso8601
    &&& opt_id_view(c.perp_instrument_id) == opt_id_view(resolved.perp_instrument_id)
    &&& views(c.outcome_instrument_ids@) == views(resolved.outcome_instrument_ids@)
    &&& c.previous_count == planned_ids(before_plan).len()
    &&& c.next_count == planned_ids(after_plan).len()
    &&& views(c.added_instrument_ids@) == seq_difference(planned_ids(after_plan), planned_ids(before_plan))
    &&& views(c.removed_instrument_ids@) == seq_difference(planned_ids(before_plan), planned_ids(after_plan))
}

/// `r` is the refresh record of such a change.
pub open spec fn hip4_record_describes(
    r: Hip4UniverseResolutionRecord,
    before: DynamicHip4UniverseState,
    resolved: ResolvedHip4Universe,
    timed: TimedHip4Market,
    after_plan: CapturePlan,
) -> bool {
    &&& record_matches(r, Hip4UniverseResolutionEventKind::Refresh, before.spec, resolved)
    &&& r.resolved_at_iso8601@ == timed.resolved_at_iso8601@
    &&& r.expiration_iso8601@ == timed.expiration_iso8601@
    &&& strings_view(r.added_instrument_ids@) == id_texts(seq_difference(planned_ids(after_plan), planned_ids(before.current_plan)))
    &&& strings_view(r.removed_instrument_ids@) == id_texts(seq_difference(planned_ids(before.current_plan), planned_ids(after_plan)))
    &&& opt_text(r.rollover_reason) == spec_hip4_rollover_reason(
        Some(before.last_question_id),
        Some(before.last_expiration_ns),
        resolved.market.question_id,
        resolved.market.expiration_ns,
        true,
    )
}

/// A universe went from `before` to `after` on `outcome` at `now_ns`,
/// emitting `step`. A failed fetch leaves it as it was; a resolved market is
/// applied, the universe captures its expansion, and a change and a record
/// are emitted exactly when the captured instruments differ.
pub open spec fn hip4_universe_refreshed(
    before: DynamicHip4UniverseState,
    after: DynamicHip4UniverseState,
    outcome: Result<TimedHip4Market, String>,
    now_ns: u64,
    step: Hip4RefreshStep,
) -> bool {
    &&& after.environment == before.environment
    &&& after.spec == before.spec
    &&& match outcome {
        Err(_) => after == before && step.change is None && step.record is None,
        Ok(timed) => {
            let resolved = after.applied_resolved;
            let changed = planned_ids(before.current_plan) != planned_ids(after.current_plan);
            &&& resolved.resolved_at_ns == now_ns
            &&& resolved.market == timed.market
            &&& after.last_question_id == timed.market.question_id
            &&& after.last_expiration_ns == timed.market.expiration_ns
            &&& hip4_plan_expands(after.current_plan, before.spec, resolved)
            &&& (step.change is Some) == changed
            &&& (step.record is Some) == changed
            &&& step.change matches Some(c) ==> hip4_change_describes(c, before.spec, resolved,
                timed.expiration_iso8601@, before.current_plan, after.current_plan)
            &&& step.record matches Some(r) ==> hip4_record_describes(r, before, resolved, timed, after.current_plan)
        },
    }
}

/// The changes emitted by `steps`, in order.
pub open spec fn hip4_step_changes(steps: Seq<Hip4RefreshStep>) -> Seq<DynamicHip4UniverseChange>
    decreases steps.len(),
{
    if steps.len() == 0 {
        Seq::empty()
    } else {
        let rest = hip4_step_changes(steps.drop_last());
        match steps.last().change {
            Some(c) => rest.push(c),
            None => rest,
        }
    }
}

/// The records emitted by `steps`, in order.
pub open spec fn hip4_step_records(steps: Seq<Hip4RefreshStep>) -> Seq<Hip4UniverseResolutionRecord>
    decreases steps.len(),
{
    if steps.len() == 0 {
        Seq::empty()
    } else {
        let rest = hip4_step_records(steps.drop_last());
        match steps.last().record {
            Some(r) => rest.push(r),
            None => rest,
        }
    }
}

/// Current plans of the universes, in order.
pub open spec fn hip4_universe_plans(us: Seq<DynamicHip4UniverseState>) -> Seq<CapturePlan> {
    us.map_values(|u: DynamicHip4UniverseState| u.current_plan)
}

/// Some outcome failed.
pub open spec fn any_failed(outcomes: Seq<Result<TimedHip4Market, String>>) -> bool {
    exists|i: int| 0 <= i < outcomes.len() && (#[trigger] outcomes[i]) is Err
}

/// Smallest rotation delay over the applied expirations of `us`.
pub open spec fn min_expiry_delay(
    us: Seq<DynamicHip4UniverseState>,
    now_ns: u64,
    idle: u64,
    active: u64,
    window: u64,
) -> u64
    decreases us.len(),
{
    let d = spec_rotation_delay(now_ns, Some(us.last().applied_resolved.market.expiration_ns), idle, active, window);
    if us.len() <= 1 {
        d
    } else {
        let rest = min_expiry_delay(us.drop_last(), now_ns, idle, active, window);
        if rest <= d { rest } else { d }
    }
}

/// The poll delay of a set of universes is the shortest of their own delays:
/// it is no longer than the delay that any one universe's expiration asks
/// for, and it is the delay of one of them.
pub proof fn lemma_min_expiry_delay_is_shortest(
    us: Seq<DynamicHip4UniverseState>,
    now_ns: u64,
    idle: u64,
    active: u64,
    window: u64,
)
    requires
        us.len() >= 1,
    ensures
        forall|i: int| 0 <= i < us.len() ==> min_expiry_delay(us, now_ns, idle, active, window)
            <= spec_rotation_delay(now_ns, Some(#[trigger] us[i].applied_resolved.market.expiration_ns), idle, active, window),
        exists|i: int| 0 <= i < us.len() && min_expiry_delay(us, now_ns, idle, active, window)
            == spec_rotation_delay(now_ns, Some(#[trigger] us[i].applied_resolved.market.expiration_ns), idle, active, window),
    decreases us.len(),
{
    let last = us.len() - 1;
    let d = spec_rotation_delay(now_ns, Some(us[last].applied_resolved.market.expiration_ns), idle, active, window);
    if us.len() == 1 {
        assert(us.last() == us[0]);
    } else {
        let init = us.drop_last();
        lemma_min_expiry_delay_is_shortest(init, now_ns, idle, active, window);
        assert(forall|i: int| 0 <= i < init.len() ==> #[trigger] init[i] == us[i]);
        let j = choose|j: int| 0 <= j < init.len() && min_expiry_delay(init, now_ns, idle, active, window)
            == spec_rotation_delay(now_ns, Some(#[trigger] init[j].applied_resolved.market.expiration_ns), idle, active, window);
        assert(us[j] == init[j]);
        assert forall|i: int| 0 <= i < us.len() implies min_expiry_delay(us, now_ns, idle, active, window)
            <= spec_rotation_delay(now_ns, Some(#[trigger] us[i].applied_resolved.market.expiration_ns), idle, active, window) by {
            if i < last {
                assert(us[i] == init[i]);
            }
        }
    }
}

/// Sorted identifier sequences that differ have a non-empty difference one way or the other.
proof fn lemma_changed_has_difference(a: Seq<(Seq<char>, Seq<char>)>, b: Seq<(Seq<char>, Seq<char>)>)
    requires
        sorted_ids(a),
        sorted_ids(b),
        a != b,
    ensures
        seq_difference(a, b).len() > 0 || seq_difference(b, a).len() > 0,
{
    if seq_difference(a, b).len() == 0 && seq_difference(b, a).len() == 0 {
        assert forall|x| #![trigger a.contains(x)] #![trigger b.contains(x)] a.contains(x) <==> b.contains(x) by {
            lemma_difference_contains(a, b, x);
            lemma_difference_contains(b, a, x);
        }
        lemma_sorted_ids_unique(a, b);
    }
}

fn copy_ids(v: &Vec<InstrumentId>) -> (r: Vec<InstrumentId>)
    ensures
        views(r@) == views(v@),
{
    let mut r: Vec<InstrumentId> = Vec::new();
    extend_all(&mut r, v);
    assert(views(r@) =~= views(v@));
    r
}

fn copy_opt_id(o: &Option<InstrumentId>) -> (r: Option<InstrumentId>)
    ensures
        opt_id_view(r) == opt_id_view(*o),
{
    match o {
        Some(id) => Some(id.copy()),
        None => None,
    }
}

fn same_ids(a: &Vec<InstrumentId>, b: &Vec<InstrumentId>) -> (r: bool)
    ensures
        r == (views(a@) == views(b@)),
{
    if a.len() != b.len() {
        assert(views(a@).len() != views(b@).len());
        return false;
    }
    let mut i: usize = 0;
    while i < a.len()
        invariant
            i <= a@.len(),
            a@.len() == b@.len(),
            forall|k: int| 0 <= k < i ==> a@[k]@ == b@[k]@,
        decreases a@.len() - i,
    {
        if !a[i].same(&b[i]) {
            assert(views(a@)[i as int] != views(b@)[i as int]);
            return false;
        }
        i = i + 1;
    }
    assert(views(a@) =~= views(b@));
    true
}

/// Refreshes one universe from its market outcome (see `hip4_universe_refreshed`).
/// The record of a change is checked as a refresh record; the check cannot fail
/// on a record built here, so the result is always `Ok`.
pub fn refresh_hip4_universe_state(
    state: &mut DynamicHip4UniverseState,
    outcome: Result<TimedHip4Market, String>,
    now_ns: u64,
) -> (r: Result<Hip4RefreshStep, CaptureError>)
    ensures
        r matches Ok(step) && hip4_universe_refreshed(*old(state), *final(state), outcome, now_ns, step),
{
    let timed = match outcome {
        Ok(t) => t,
        Err(_) => {
            return Ok(Hip4RefreshStep { change: None, record: None });
        },
    };
    let ghost before = *state;
    let ghost timed_g = timed;
    let TimedHip4Market { market, resolved_at_iso8601, expiration_iso8601 } = timed;
    let resolved = build_resolved_hip4_universe(&state.spec, market, now_ns);
    let next_plan = expand_hip4_universe(&state.spec, &resolved);
    let previous_ids = plan_instrument_ids(&state.current_plan);
    let next_ids = plan_instrument_ids(&next_plan);
    proof {
        lemma_planned_ids(state.current_plan, views(previous_ids@));
        lemma_planned_ids(next_plan, views(next_ids@));
    }
    let mut change: Option<DynamicHip4UniverseChange> = None;
    let mut record: Option<Hip4UniverseResolutionRecord> = None;
    if !same_ids(&next_ids, &previous_ids) {
        let added = instrument_id_difference(&next_ids, &previous_ids);
        let removed = instrument_id_difference(&previous_ids, &next_ids);
        let rollover_reason = compute_hip4_refresh_rollover_reason(
            Some(state.last_question_id),
            Some(state.last_expiration_ns),
            &resolved,
            true,
        );
        change = Some(DynamicHip4UniverseChange {
            venue_id: state.spec.venue_id.clone(),
            underlying: state.spec.underlying.clone(),
            period: state.spec.period.clone(),
            market_class: state.spec.market_class.clone(),
            question_id: resolved.market.question_id,
            expiration_iso8601: expiration_iso8601.clone(),
            perp_instrument_id: copy_opt_id(&resolved.perp_instrument_id),
            outcome_instrument_ids: copy_ids(&resolved.outcome_instrument_ids),
            previous_count: previous_ids.len(),
            next_count: next_ids.len(),
            added_instrument_ids: copy_ids(&added),
            removed_instrument_ids: copy_ids(&removed),
        });
        let rec = refresh_resolution_record(
            &state.spec,
            &resolved,
            id_strings(&added),
            id_strings(&removed),
            rollover_reason,
            resolved_at_iso8601,
            expiration_iso8601,
        );
        proof {
            lemma_changed_has_difference(views(next_ids@), views(previous_ids@));
            assert(strings_view(rec.added_instrument_ids@).len() == rec.added_instrument_ids@.len());
            assert(strings_view(rec.removed_instrument_ids@).len() == rec.removed_instrument_ids@.len());
        }
        match validate_hip4_refresh_resolution_record(&rec) {
            Ok(()) => {},
            Err(e) => {
                return Err(e);
            },
        }
        record = Some(rec);
    }
    state.last_question_id = resolved.market.question_id;
    state.last_expiration_ns = resolved.market.expiration_ns;
    state.applied_resolved = resolved;
    state.current_plan = next_plan;
    Ok(Hip4RefreshStep { change, record })
}

impl DynamicHip4UniverseManager {
    /// Manager over the configured universes, each starting from its initial
    /// resolution and plan; no refresh has failed yet.
    pub fn new(config: DynamicHip4UniverseConfig) -> (m: Self)
        ensures
            m.idle_poll_secs == config.idle_poll_secs,
            m.active_poll_secs == config.active_poll_secs,
            m.pre_expiry_window_secs == config.pre_expiry_window_secs,
            m.http_timeout_secs == config.http_timeout_secs,
            m.purge_removed_instruments == config.purge_removed_instruments,
            m.static_plan == config.static_plan,
            m.current_dynamic_plan == config.initial_dynamic_plan,
            !m.last_refresh_failed,
            m.universes@.len() == config.universes@.len(),
            forall|i: int| 0 <= i < m.universes@.len() ==> {
                let u = #[trigger] m.universes@[i];
                let e = config.universes@[i];
                &&& u.environment == e.environment
                &&& u.spec == e.spec
                &&& u.current_plan == e.initial_plan
                &&& u.applied_resolved == e.initial_resolved
                &&& u.last_question_id == e.initial_resolved.market.question_id
                &&& u.last_expiration_ns == e.initial_resolved.market.expiration_ns
            },
    {
        let DynamicHip4UniverseConfig {
            idle_poll_secs,
            active_poll_secs,
            pre_expiry_window_secs,
            http_timeout_secs,
            purge_removed_instruments,
            static_plan,
            initial_dynamic_plan,
            universes: entries,
        } = config;
        let ghost es = entries@;
        let mut entries = entries;
        let _count = entries.len();
        let mut universes: Vec<DynamicHip4UniverseState> = Vec::new();
        let mut i: usize = 0;
        while entries.len() > 0
            invariant
                i + entries@.len() == es.len(),
                es.len() <= usize::MAX,
                entries@ == es.skip(i as int),
                universes@.len() == i,
                forall|k: int| 0 <= k < i ==> {
                    let u = #[trigger] universes@[k];
                    let e = es[k];
                    &&& u.environment == e.environment
                    &&& u.spec == e.spec
                    &&& u.current_plan == e.initial_plan
                    &&& u.applied_resolved == e.initial_resolved
                    &&& u.last_question_id == e.initial_resolved.market.question_id
                    &&& u.last_expiration_ns == e.initial_resolved.market.expiration_ns
                },
            decreases entries@.len(),
        {
            let entry = entries.remove(0);
            assert(entry == es[i as int]);
            assert(entries@ == es.skip(i as int + 1));
            let question_id = entry.initial_resolved.market.question_id;
            let expiration_ns = entry.initial_resolved.market.expiration_ns;
            universes.push(DynamicHip4UniverseState {
                environment: entry.environment,
                spec: entry.spec,
                current_plan: entry.initial_plan,
                applied_resolved: entry.initial_resolved,
                last_question_id: question_id,
                last_expiration_ns: expiration_ns,
            });
            i = i + 1;
        }
        DynamicHip4UniverseManager {
            idle_poll_secs,
            active_poll_secs,
            pre_expiry_window_secs,
            http_timeout_secs,
            purge_removed_instruments,
            static_plan,
            current_dynamic_plan: initial_dynamic_plan,
            universes,
            last_refresh_failed: false,
        }
    }

    pub fn purge_removed_instruments_enabled(&self) -> (r: bool)
        ensures
            r == self.purge_removed_instruments,
    {
        self.purge_removed_instruments
    }

    /// The static plan with the current dynamic plan merged in.
    pub fn active_capture_plan(&self) -> (p: CapturePlan)
        ensures
            is_plan_merge(p, self.static_plan, self.current_dynamic_plan),
    {
        merge_capture_plans(&self.static_plan, &self.current_dynamic_plan)
    }

    /// Delay of the poll schedule for an (optional) expiration.
    pub fn rotation_delay_for_expiration(&self, now_ns: u64, expiration_ns: Option<u64>) -> (d: u64)
        ensures
            d == spec_rotation_delay(now_ns, expiration_ns, self.idle_poll_secs, self.active_poll_secs,
                self.pre_expiry_window_secs),
    {
        next_rotation_delay_secs(now_ns, expiration_ns, self.idle_poll_secs, self.active_poll_secs,
            self.pre_expiry_window_secs)
    }

    /// Seconds until the next refresh: the idle schedule after a failed refresh
    /// or without universes, else the shortest delay over the applied expirations.
    pub fn next_rotation_check_delay_secs(&self, now_ns: u64) -> (d: u64)
        ensures
            (self.last_refresh_failed || self.universes@.len() == 0) ==> d == spec_rotation_delay(now_ns, None,
                self.idle_poll_secs, self.active_poll_secs, self.pre_expiry_window_secs),
            !(self.last_refresh_failed || self.universes@.len() == 0) ==> d == min_expiry_delay(self.universes@,
                now_ns, self.idle_poll_secs, self.active_poll_secs, self.pre_expiry_window_secs),
            !(self.last_refresh_failed || self.universes@.len() == 0) ==> forall|i: int| 0 <= i < self.universes@.len()
                ==> d <= spec_rotation_delay(now_ns, Some(#[trigger] self.universes@[i].applied_resolved.market.expiration_ns),
                    self.idle_poll_secs, self.active_poll_secs, self.pre_expiry_window_secs),
            !(self.last_refresh_failed || self.universes@.len() == 0) ==> exists|i: int| 0 <= i < self.universes@.len()
                && d == spec_rotation_delay(now_ns, Some(#[trigger] self.universes@[i].applied_resolved.market.expiration_ns),
                    self.idle_poll_secs, self.active_poll_secs, self.pre_expiry_window_secs),
    {
        if self.last_refresh_failed || self.universes.len() == 0 {
            return self.rotation_delay_for_expiration(now_ns, None);
        }
        let mut best = self.rotation_delay_for_expiration(now_ns, Some(self.universes[0].applied_resolved.market.expiration_ns));
        let mut i: usize = 1;
        proof {
            assert(self.universes@.take(1).last() == self.universes@[0]);
        }
        while i < self.universes.len()
            invariant
                1 <= i <= self.universes@.len(),
                best == min_expiry_delay(self.universes@.take(i as int), now_ns, self.idle_poll_secs,
                    self.active_poll_secs, self.pre_expiry_window_secs),
            decreases self.universes@.len() - i,
        {
            let d = self.rotation_delay_for_expiration(now_ns, Some(self.universes[i].applied_resolved.market.expiration_ns));
            proof {
                let t = self.universes@.take(i as int + 1);
                assert(t.drop_last() =~= self.universes@.take(i as int));
                assert(t.last() == self.universes@[i as int]);
            }
            if d < best {
                best = d;
            }
            i = i + 1;
        }
        assert(self.universes@.take(self.universes@.len() as int) =~= self.universes@);
        proof {
            lemma_min_expiry_delay_is_shortest(self.universes@, now_ns, self.idle_poll_secs, self.active_poll_secs,
                self.pre_expiry_window_secs);
        }
        best
    }

    /// Refreshes every universe from `outcomes` (one per universe, in order) at
    /// `now_ns`: each universe is refreshed as `hip4_universe_refreshed` says,
    /// the new dynamic plan is the merge of the universes' plans, the delta adds
    /// and removes the difference to the previous dynamic plan, and the failure
    /// flag records whether some outcome failed.
    pub fn refresh_from_markets(
        &mut self,
        outcomes: Vec<Result<TimedHip4Market, String>>,
        now_ns: u64,
    ) -> (r: Result<DynamicHip4UniverseDelta, CaptureError>)
        requires
            outcomes@.len() == old(self).universes@.len(),
        ensures
            r is Ok,
            final(self).idle_poll_secs == old(self).idle_poll_secs,
            final(self).active_poll_secs == old(self).active_poll_secs,
            final(self).pre_expiry_window_secs == old(self).pre_expiry_window_secs,
            final(self).http_timeout_secs == old(self).http_timeout_secs,
            final(self).purge_removed_instruments == old(self).purge_removed_instruments,
            final(self).static_plan == old(self).static_plan,
            final(self).universes@.len() == old(self).universes@.len(),
            final(self).last_refresh_failed == any_failed(outcomes@),
            r matches Ok(delta) ==> {
                &&& exists|steps: Seq<Hip4RefreshStep>| {
                    &&& steps.len() == outcomes@.len()
                    &&& forall|i: int| 0 <= i < steps.len() ==> hip4_universe_refreshed(
                        old(self).universes@[i],
                        final(self).universes@[i],
                        outcomes@[i],
                        now_ns,
                        #[trigger] steps[i],
                    )
                    &&& delta.changes@ == hip4_step_changes(steps)
                    &&& delta.resolution_records@ == hip4_step_records(steps)
                }
                &&& is_merge_fold(final(self).current_dynamic_plan, hip4_universe_plans(final(self).universes@))
                &&& is_plan_difference(delta.add, final(self).current_dynamic_plan, old(self).current_dynamic_plan)
                &&& is_plan_difference(delta.remove, old(self).current_dynamic_plan, final(self).current_dynamic_plan)
            },
    {
        let ghost olds = self.universes@;
        let ghost outs = outcomes@;
        let mut pending: Vec<DynamicHip4UniverseState> = Vec::new();
        std::mem::swap(&mut pending, &mut self.universes);
        let _count = pending.len();
        let mut outcomes = outcomes;
        let mut done: Vec<DynamicHip4UniverseState> = Vec::new();
        let mut next_dynamic_plan = CapturePlan::empty();
        let mut changes: Vec<DynamicHip4UniverseChange> = Vec::new();
        let mut records: Vec<Hip4UniverseResolutionRecord> = Vec::new();
        let mut refresh_failed = false;
        let ghost mut steps: Seq<Hip4RefreshStep> = Seq::empty();
        let mut i: usize = 0;
        proof {
            assert(hip4_universe_plans(done@) =~= Seq::<CapturePlan>::empty());
            crate::dynamic_plan::lemma_merge_fold_empty(next_dynamic_plan);
        }
        while pending.len() > 0
            invariant
                i + pending@.len() == olds.len(),
                olds.len() <= usize::MAX,
                olds.len() == outs.len(),
                pending@ == olds.skip(i as int),
                outcomes@ == outs.skip(i as int),
                done@.len() == i,
                steps.len() == i,
                forall|k: int| 0 <= k < i ==> hip4_universe_refreshed(olds[k], done@[k], outs[k], now_ns, #[trigger] steps[k]),
                changes@ == hip4_step_changes(steps),
                records@ == hip4_step_records(steps),
                is_merge_fold(next_dynamic_plan, hip4_universe_plans(done@)),
                refresh_failed == any_failed(outs.take(i as int)),
            decreases pending@.len(),
        {
            let mut state = pending.remove(0);
            let outcome = outcomes.remove(0);
            assert(state == olds[i as int]);
            assert(outcome == outs[i as int]);
            assert(pending@ == olds.skip(i as int + 1));
            assert(outcomes@ == outs.skip(i as int + 1));
            let failed_here = outcome.is_err();
            let step = match refresh_hip4_universe_state(&mut state, outcome, now_ns) {
                Ok(s) => s,
                Err(e) => {
                    return Err(e);
                },
            };
            proof {
                let t = outs.take(i as int + 1);
                assert(t.drop_last() =~= outs.take(i as int));
                if any_failed(t) {
                    let j = choose|j: int| 0 <= j < t.len() && (#[trigger] t[j]) is Err;
                    if j < i {
                        assert(outs.take(i as int)[j] == t[j]);
                    }
                }
                if any_failed(outs.take(i as int)) {
                    let j = choose|j: int| 0 <= j < i && (#[trigger] outs.take(i as int)[j]) is Err;
                    assert(t[j] == outs.take(i as int)[j]);
                }
                if failed_here {
                    assert(t[i as int] is Err);
                }
            }
            if failed_here {
                refresh_failed = true;
            }
            let ghost g = step;
            let merged = merge_capture_plans(&next_dynamic_plan, &state.current_plan);
            let ghost plans = hip4_universe_plans(done@.push(state));
            proof {
                assert(plans.drop_last() =~= hip4_universe_plans(done@));
                assert(plans.last() == state.current_plan);
                lemma_merge_fold_step(next_dynamic_plan, plans, merged);
            }
            next_dynamic_plan = merged;
            let Hip4RefreshStep { change, record } = step;
            match change {
                Some(c) => changes.push(c),
                None => {},
            }
            match record {
                Some(r) => records.push(r),
                None => {},
            }
            done.push(state);
            proof {
                let prev = steps;
                steps = steps.push(g);
                assert(steps.drop_last() =~= prev);
                assert(steps[i as int] == g);
                assert(hip4_universe_plans(done@) =~= plans);
            }
            i = i + 1;
        }
        proof {
            assert(outs.take(i as int) =~= outs);
        }
        let delta = DynamicHip4UniverseDelta {
            add: capture_plan_difference(&next_dynamic_plan, &self.current_dynamic_plan),
            remove: capture_plan_difference(&self.current_dynamic_plan, &next_dynamic_plan),
            changes,
            resolution_records: records,
        };
        self.current_dynamic_plan = next_dynamic_plan;
        self.universes = done;
        self.last_refresh_failed = refresh_failed;
        Ok(delta)
    }
}

} // verus!
