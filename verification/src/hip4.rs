//! HIP-4 outcome-market universes: rotation polling, market identifiers, resolution
//! records and their expansion into capture plans.
use vstd::prelude::*;

use crate::error::CaptureError;
use crate::plan::{
    id_strings, id_text, id_texts, parse_id, strings_view, views, CapturePlan, InstrumentId,
    InstrumentScopedSpec, PlanEntry,
};
use crate::row_group_capacity::{sat_mul, saturating_mul_u64};
use crate::text::{debug_str, debug_str_text, decimal, push_str, push_u64, str_eq};

verus! {

/// Nanoseconds per second.
pub const ONE_BILLION: u64 = 1_000_000_000;

/// Delay until the next rotation check: the active poll period (at least 1 s) inside the
/// pre-expiry window, after expiry or when the expiry is unknown; otherwise the idle period
/// (at least 1 s), shortened so the check lands no later than the window start.
pub open spec fn spec_rotation_delay(
    now_ns: u64,
    expiration_ns: Option<u64>,
    idle_poll_secs: u64,
    active_poll_secs: u64,
    pre_expiry_window_secs: u64,
) -> u64 {
    let idle = if idle_poll_secs >= 1 { idle_poll_secs } else { 1 };
    let active = if active_poll_secs >= 1 { active_poll_secs } else { 1 };
    let window = sat_mul(pre_expiry_window_secs, ONE_BILLION);
    match expiration_ns {
        Some(e) if e > 0 => {
            let start = if e >= window { e - window } else { 0 };
            if now_ns < start {
                let until = (start - now_ns) / (ONE_BILLION as int);
                let until = if until >= 1 { until } else { 1 };
                (if idle <= until { idle as int } else { until }) as u64
            } else {
                active
            }
        },
        _ => active,
    }
}

/// Adaptive rotation poll delay in seconds.
pub fn next_rotation_delay_secs(
    now_ns: u64,
    expiration_ns: Option<u64>,
    idle_poll_secs: u64,
    active_poll_secs: u64,
    pre_expiry_window_secs: u64,
) -> (d: u64)
    ensures
        d == spec_rotation_delay(now_ns, expiration_ns, idle_poll_secs, active_poll_secs, pre_expiry_window_secs),
        d >= 1,
{
    let idle_secs = if idle_poll_secs >= 1 { idle_poll_secs } else { 1 };
    let active_secs = if active_poll_secs >= 1 { active_poll_secs } else { 1 };
    let pre_window_ns = saturating_mul_u64(pre_expiry_window_secs, ONE_BILLION);
    match expiration_ns {
        Some(expiration_ns) if expiration_ns > 0 => {
            let fast_window_start_ns = expiration_ns.saturating_sub(pre_window_ns);
            if now_ns < fast_window_start_ns {
                let until = (fast_window_start_ns - now_ns) / ONE_BILLION;
                let until = if until >= 1 { until } else { 1 };
                if idle_secs <= until { idle_secs } else { until }
            } else {
                active_secs
            }
        },
        _ => active_secs,
    }
}

/// Streams of a HIP-4 universe.
#[derive(Debug, Clone, Copy, PartialEq, Eq, Structural)]
pub enum Hip4UniverseFamily {
    Instruments,
    Quotes,
    /// Outcome YES/NO trade ticks.
    Trades,
    MarkPrices,
}

/// A configured HIP-4 universe.
#[derive(Debug, Clone, PartialEq, Eq)]
pub struct Hip4UniverseSpec {
    pub venue_id: String,
    pub underlying: String,
    pub period: String,
    pub market_class: String,
    pub include_fallback: bool,
    pub include_perp_mark: bool,
    pub families: Vec<Hip4UniverseFamily>,
}

/// `{outcome}-YES-OUTCOME.HYPERLIQUID`.
pub open spec fn yes_outcome_id(outcome: u32) -> Seq<char> {
    decimal(outcome as nat) + "-YES-OUTCOME.HYPERLIQUID"@
}

/// `{outcome}-NO-OUTCOME.HYPERLIQUID`.
pub open spec fn no_outcome_id(outcome: u32) -> Seq<char> {
    decimal(outcome as nat) + "-NO-OUTCOME.HYPERLIQUID"@
}

/// The YES and NO outcome instrument ids of each outcome, in order.
pub open spec fn outcome_ids_text(outcomes: Seq<u32>) -> Seq<Seq<char>>
    decreases outcomes.len(),
{
    if outcomes.len() == 0 {
        Seq::empty()
    } else {
        outcome_ids_text(outcomes.drop_last()).push(yes_outcome_id(outcomes.last())).push(no_outcome_id(outcomes.last()))
    }
}


proof fn lemma_outcome_ids_len(outcomes: Seq<u32>)
    ensures
        outcome_ids_text(outcomes).len() == 2 * outcomes.len(),
    decreases outcomes.len(),
{
    if outcomes.len() > 0 {
        lemma_outcome_ids_len(outcomes.drop_last());
    }
}

/// The YES and NO instrument ids of each outcome, in outcome order.
pub fn instrument_ids_from_outcomes(outcome_ids: &[u32]) -> (ids: Vec<String>)
    ensures
        strings_view(ids@) == outcome_ids_text(outcome_ids@),
        ids@.len() == 2 * outcome_ids@.len(),
{
    let mut ids: Vec<String> = Vec::new();
    let mut i: usize = 0;
    assert(outcome_ids@.take(0) =~= Seq::<u32>::empty());
    assert(strings_view(ids@) =~= Seq::<Seq<char>>::empty());
    while i < outcome_ids.len()
        invariant
            i <= outcome_ids@.len(),
            strings_view(ids@) == outcome_ids_text(outcome_ids@.take(i as int)),
        decreases outcome_ids@.len() - i,
    {
        let outcome = outcome_ids[i];
        let mut yes = String::new();
        push_u64(&mut yes, outcome as u64);
        push_str(&mut yes, "-YES-OUTCOME.HYPERLIQUID");
        let mut no = String::new();
        push_u64(&mut no, outcome as u64);
        push_str(&mut no, "-NO-OUTCOME.HYPERLIQUID");
        let ghost before = ids@;
        ids.push(yes);
        ids.push(no);
        proof {
            let t = outcome_ids@.take(i as int + 1);
            assert(t.drop_last() =~= outcome_ids@.take(i as int));
            assert(t.last() == outcome);
            assert(strings_view(ids@) =~= strings_view(before).push(yes_outcome_id(outcome)).push(no_outcome_id(outcome)));
        }
        i = i + 1;
    }
    assert(outcome_ids@.take(outcome_ids@.len() as int) =~= outcome_ids@);
    proof {
        lemma_outcome_ids_len(outcome_ids@);
    }
    ids
}

/// `{underlying}-USD-PERP.HYPERLIQUID`.
pub open spec fn hip4_perp_id_text(underlying: Seq<char>) -> Seq<char> {
    underlying + "-USD-PERP.HYPERLIQUID"@
}

/// Perpetual instrument id of the underlying.
pub fn hip4_perp_instrument_id(underlying: &str) -> (id: String)
    ensures
        id@ == hip4_perp_id_text(underlying@),
{
    let mut id = String::new();
    push_str(&mut id, underlying);
    push_str(&mut id, "-USD-PERP.HYPERLIQUID");
    assert(id@ =~= hip4_perp_id_text(underlying@));
    id
}

/// Accepted `rollover_reason` values of refresh records.
pub open spec fn is_refresh_rollover_reason(reason: Seq<char>) -> bool {
    reason == "question_roll"@ || reason == "expiry_roll"@
}

/// Message for an unknown rollover reason.
pub open spec fn unknown_reason_message(reason: Seq<char>) -> Seq<char> {
    "HIP-4 refresh rollover_reason unexpected: got "@ + debug_str_text(reason)
        + ", expected one of [\"question_roll\", \"expiry_roll\"]"@
}

/// Accepts `question_roll` and `expiry_roll`.
pub fn validate_hip4_refresh_rollover_reason(reason: &str) -> (r: Result<(), CaptureError>)
    ensures
        r is Ok <==> is_refresh_rollover_reason(reason@),
        r matches Err(e) ==> e.message@ == unknown_reason_message(reason@),
{
    if str_eq(reason, "question_roll") || str_eq(reason, "expiry_roll") {
        return Ok(());
    }
    let mut message = String::new();
    push_str(&mut message, "HIP-4 refresh rollover_reason unexpected: got ");
    let quoted = debug_str(reason);
    push_str(&mut message, quoted.as_str());
    push_str(&mut message, ", expected one of [\"question_roll\", \"expiry_roll\"]");
    assert(message@ =~= unknown_reason_message(reason@));
    Err(CaptureError::new(message))
}

/// Why a resolution record was written.
#[derive(Debug, Clone, Copy, PartialEq, Eq, Structural)]
pub enum Hip4UniverseResolutionEventKind {
    Startup,
    Refresh,
}

/// One line of the HIP-4 resolution log.
#[derive(Debug, Clone, PartialEq, Eq)]
pub struct Hip4UniverseResolutionRecord {
    pub event_kind: Hip4UniverseResolutionEventKind,
    pub venue_id: String,
    pub underlying: String,
    pub period: String,
    pub market_class: String,
    pub resolved_at_ns: u64,
    pub resolved_at_iso8601: String,
    pub question_id: u32,
    pub expiration_ns: u64,
    pub expiration_iso8601: String,
    pub outcome_ids: Vec<u32>,
    pub perp_instrument_id: Option<String>,
    pub outcome_instrument_ids: Vec<String>,
    pub all_instrument_ids: Vec<String>,
    pub added_instrument_ids: Vec<String>,
    pub removed_instrument_ids: Vec<String>,
    pub rollover_reason: Option<String>,
}

/// Message for a refresh record that changes no instrument.
pub open spec fn no_change_message(venue_id: Seq<char>, underlying: Seq<char>) -> Seq<char> {
    "HIP-4 refresh metadata for "@ + venue_id + ":"@ + underlying + " should include added or removed instruments"@
}

/// Checks a refresh record: it is a refresh event, its rollover reason (if any) is known,
/// and it adds or removes at least one instrument; the first failing check names the error.
pub fn validate_hip4_refresh_resolution_record(record: &Hip4UniverseResolutionRecord) -> (r: Result<(), CaptureError>)
    ensures
        r is Ok <==> (record.event_kind == Hip4UniverseResolutionEventKind::Refresh
            && (record.rollover_reason matches Some(reason) ==> is_refresh_rollover_reason(reason@))
            && (record.added_instrument_ids@.len() > 0 || record.removed_instrument_ids@.len() > 0)),
        record.event_kind != Hip4UniverseResolutionEventKind::Refresh ==> (r matches Err(e)
            && e.message@ == "HIP-4 refresh validation expected refresh event"@),
        record.event_kind == Hip4UniverseResolutionEventKind::Refresh ==> match record.rollover_reason {
            Some(reason) => !is_refresh_rollover_reason(reason@) ==> (r matches Err(e)
                && e.message@ == unknown_reason_message(reason@)),
            None => true,
        },
        record.event_kind == Hip4UniverseResolutionEventKind::Refresh
            && (record.rollover_reason matches Some(reason) ==> is_refresh_rollover_reason(reason@))
            && record.added_instrument_ids@.len() == 0 && record.removed_instrument_ids@.len() == 0
            ==> (r matches Err(e) && e.message@ == no_change_message(record.venue_id@, record.underlying@)),
{
    if record.event_kind != Hip4UniverseResolutionEventKind::Refresh {
        return Err(CaptureError::from_str("HIP-4 refresh validation expected refresh event"));
    }
    match &record.rollover_reason {
        Some(reason) => {
            let checked = validate_hip4_refresh_rollover_reason(reason.as_str());
            if checked.is_err() {
                return checked;
            }
        },
        None => {},
    }
    if record.added_instrument_ids.len() == 0 && record.removed_instrument_ids.len() == 0 {
        let mut message = String::new();
        push_str(&mut message, "HIP-4 refresh metadata for ");
        push_str(&mut message, record.venue_id.as_str());
        push_str(&mut message, ":");
        push_str(&mut message, record.underlying.as_str());
        push_str(&mut message, " should include added or removed instruments");
        assert(message@ =~= no_change_message(record.venue_id@, record.underlying@));
        return Err(CaptureError::new(message));
    }
    Ok(())
}


#[verifier::external_type_specification]
#[verifier::external_body]
pub struct ExDecimal(rust_decimal::Decimal);

/// A HIP-4 market selected from the venue's outcome metadata.
#[derive(Debug, Clone, PartialEq, Eq)]
pub struct ResolvedHip4Market {
    pub question_id: u32,
    pub question_name: Option<String>,
    pub market_class: Option<String>,
    pub underlying: Option<String>,
    pub period: Option<String>,
    pub outcome_ids: Vec<u32>,
    pub instrument_ids: Vec<String>,
    pub expiration_ns: u64,
    pub start_price: Option<rust_decimal::Decimal>,
    pub price_thresholds: Vec<rust_decimal::Decimal>,
    pub description: String,
}

/// A market together with the instruments captured for it.
#[derive(Debug, Clone, PartialEq, Eq)]
pub struct ResolvedHip4Universe {
    pub resolved_at_ns: u64,
    pub market: ResolvedHip4Market,
    pub perp_instrument_id: Option<InstrumentId>,
    pub outcome_instrument_ids: Vec<InstrumentId>,
    pub all_instrument_ids: Vec<InstrumentId>,
}

/// Identifiers of the well-formed entries of `texts`, in order.
pub open spec fn parsed_ids(texts: Seq<Seq<char>>) -> Seq<(Seq<char>, Seq<char>)>
    decreases texts.len(),
{
    if texts.len() == 0 {
        Seq::empty()
    } else {
        let p = parsed_ids(texts.drop_last());
        match parse_id(texts.last()) {
            Some(id) => p.push(id),
            None => p,
        }
    }
}

/// `Some(x)` as a one-entry sequence, `None` as an empty one.
pub open spec fn opt_seq<V>(o: Option<V>) -> Seq<V> {
    match o {
        Some(x) => seq![x],
        None => Seq::empty(),
    }
}

pub open spec fn opt_id_view(o: Option<InstrumentId>) -> Option<(Seq<char>, Seq<char>)> {
    match o {
        Some(id) => Some(id@),
        None => None,
    }
}

/// Instruments of a resolved market: its well-formed outcome ids, and the underlying's
/// perpetual when the universe marks it (and its id is well formed); the perpetual comes
/// first in `all_instrument_ids`.
pub fn build_resolved_hip4_universe(spec: &Hip4UniverseSpec, market: ResolvedHip4Market, resolved_at_ns: u64) -> (u: ResolvedHip4Universe)
    ensures
        u.resolved_at_ns == resolved_at_ns,
        u.market == market,
        views(u.outcome_instrument_ids@) == parsed_ids(strings_view(market.instrument_ids@)),
        opt_id_view(u.perp_instrument_id) == (if spec.include_perp_mark { parse_id(hip4_perp_id_text(spec.underlying@)) } else { None }),
        views(u.all_instrument_ids@) == opt_seq(opt_id_view(u.perp_instrument_id)) + views(u.outcome_instrument_ids@),
{
    let mut outcome_instrument_ids: Vec<InstrumentId> = Vec::new();
    let mut i: usize = 0;
    assert(strings_view(market.instrument_ids@).take(0) =~= Seq::<Seq<char>>::empty());
    assert(views(outcome_instrument_ids@) =~= Seq::<(Seq<char>, Seq<char>)>::empty());
    while i < market.instrument_ids.len()
        invariant
            i <= market.instrument_ids@.len(),
            views(outcome_instrument_ids@) == parsed_ids(strings_view(market.instrument_ids@).take(i as int)),
        decreases market.instrument_ids@.len() - i,
    {
        let ghost before = outcome_instrument_ids@;
        proof {
            let t = strings_view(market.instrument_ids@).take(i as int + 1);
            assert(t.drop_last() =~= strings_view(market.instrument_ids@).take(i as int));
            assert(t.last() == market.instrument_ids@[i as int]@);
        }
        match InstrumentId::from_str(market.instrument_ids[i].as_str()) {
            Ok(id) => {
                outcome_instrument_ids.push(id);
                assert(views(outcome_instrument_ids@) =~= views(before).push(id@));
            },
            Err(_) => {},
        }
        i = i + 1;
    }
    assert(strings_view(market.instrument_ids@).take(market.instrument_ids@.len() as int) =~= strings_view(market.instrument_ids@));
    let perp_instrument_id: Option<InstrumentId> = if spec.include_perp_mark {
        let text = hip4_perp_instrument_id(spec.underlying.as_str());
        match InstrumentId::from_str(text.as_str()) {
            Ok(id) => Some(id),
            Err(_) => None,
        }
    } else {
        None
    };
    let mut all_instrument_ids: Vec<InstrumentId> = Vec::new();
    match &perp_instrument_id {
        Some(id) => all_instrument_ids.push(id.copy()),
        None => {},
    }
    let ghost head = views(all_instrument_ids@);
    assert(head =~= opt_seq(opt_id_view(perp_instrument_id)));
    crate::plan::extend_all(&mut all_instrument_ids, &outcome_instrument_ids);
    ResolvedHip4Universe { resolved_at_ns, market, perp_instrument_id, outcome_instrument_ids, all_instrument_ids }
}

/// `ids` repeated once for each occurrence of `target` in `families`.
pub open spec fn family_repeat<V>(families: Seq<Hip4UniverseFamily>, target: Hip4UniverseFamily, ids: Seq<V>) -> Seq<V>
    decreases families.len(),
{
    if families.len() == 0 {
        Seq::empty()
    } else {
        let r = family_repeat(families.drop_last(), target, ids);
        if families.last() == target { r + ids } else { r }
    }
}

fn scoped_specs(ids: &Vec<InstrumentId>) -> (v: Vec<InstrumentScopedSpec>)
    ensures
        views(v@) == views(ids@),
{
    let mut v: Vec<InstrumentScopedSpec> = Vec::new();
    let mut i: usize = 0;
    while i < ids.len()
        invariant
            i <= ids@.len(),
            views(v@) == views(ids@).take(i as int),
        decreases ids@.len() - i,
    {
        let ghost before = v@;
        let s = InstrumentScopedSpec { instrument_id: ids[i].copy() };
        v.push(s);
        proof {
            crate::plan::lemma_views_push(before, s);
            assert(views(ids@)[i as int] == ids@[i as int]@);
        }
        assert(views(v@) =~= views(ids@).take(i as int + 1));
        i = i + 1;
    }
    assert(views(ids@).take(ids@.len() as int) =~= views(ids@));
    v
}

/// `plan` is the capture plan of `resolved` under `spec` (see `expand_hip4_universe`).
pub open spec fn hip4_plan_expands(plan: CapturePlan, spec: Hip4UniverseSpec, resolved: ResolvedHip4Universe) -> bool {
    &&& views(plan.instruments@) == family_repeat(spec.families@, Hip4UniverseFamily::Instruments, views(resolved.all_instrument_ids@))
    &&& views(plan.quotes@) == family_repeat(spec.families@, Hip4UniverseFamily::Quotes, views(resolved.outcome_instrument_ids@))
    &&& views(plan.trades@) == family_repeat(spec.families@, Hip4UniverseFamily::Trades, views(resolved.outcome_instrument_ids@))
    &&& views(plan.mark_prices@) == family_repeat(spec.families@, Hip4UniverseFamily::MarkPrices, opt_seq(opt_id_view(resolved.perp_instrument_id)))
    &&& plan.bars@.len() == 0 && plan.book_deltas@.len() == 0 && plan.index_prices@.len() == 0
    &&& plan.funding_rates@.len() == 0 && plan.instrument_statuses@.len() == 0
    &&& plan.instrument_closes@.len() == 0 && plan.option_greeks@.len() == 0 && plan.forward_prices@.len() == 0
    &&& plan.custom_data@.len() == 0 && plan.custom_data_requests@.len() == 0
}

/// Capture plan of a resolved universe: every instrument for `Instruments`, the outcome
/// instruments for `Quotes` and `Trades`, the perpetual (if any) for `MarkPrices`; once per
/// listed family.
pub fn expand_hip4_universe(spec: &Hip4UniverseSpec, resolved: &ResolvedHip4Universe) -> (plan: CapturePlan)
    ensures
        views(plan.instruments@) == family_repeat(spec.families@, Hip4UniverseFamily::Instruments, views(resolved.all_instrument_ids@)),
        views(plan.quotes@) == family_repeat(spec.families@, Hip4UniverseFamily::Quotes, views(resolved.outcome_instrument_ids@)),
        views(plan.trades@) == family_repeat(spec.families@, Hip4UniverseFamily::Trades, views(resolved.outcome_instrument_ids@)),
        views(plan.mark_prices@) == family_repeat(spec.families@, Hip4UniverseFamily::MarkPrices, opt_seq(opt_id_view(resolved.perp_instrument_id))),
        plan.bars@.len() == 0 && plan.book_deltas@.len() == 0 && plan.index_prices@.len() == 0,
        plan.funding_rates@.len() == 0 && plan.instrument_statuses@.len() == 0,
        plan.instrument_closes@.len() == 0 && plan.option_greeks@.len() == 0 && plan.forward_prices@.len() == 0,
        plan.custom_data@.len() == 0 && plan.custom_data_requests@.len() == 0,
{
    let mut plan = CapturePlan::empty();
    let all = scoped_specs(&resolved.all_instrument_ids);
    let outcomes = scoped_specs(&resolved.outcome_instrument_ids);
    let mut perp_ids: Vec<InstrumentId> = Vec::new();
    match &resolved.perp_instrument_id {
        Some(id) => perp_ids.push(id.copy()),
        None => {},
    }
    assert(views(perp_ids@) =~= opt_seq(opt_id_view(resolved.perp_instrument_id)));
    let perp = scoped_specs(&perp_ids);
    let mut i: usize = 0;
    assert(spec.families@.take(0) =~= Seq::<Hip4UniverseFamily>::empty());
    while i < spec.families.len()
        invariant
            i <= spec.families@.len(),
            views(all@) == views(resolved.all_instrument_ids@),
            views(outcomes@) == views(resolved.outcome_instrument_ids@),
            views(perp@) == opt_seq(opt_id_view(resolved.perp_instrument_id)),
            views(plan.instruments@) == family_repeat(spec.families@.take(i as int), Hip4UniverseFamily::Instruments, views(resolved.all_instrument_ids@)),
            views(plan.quotes@) == family_repeat(spec.families@.take(i as int), Hip4UniverseFamily::Quotes, views(resolved.outcome_instrument_ids@)),
            views(plan.trades@) == family_repeat(spec.families@.take(i as int), Hip4UniverseFamily::Trades, views(resolved.outcome_instrument_ids@)),
            views(plan.mark_prices@) == family_repeat(spec.families@.take(i as int), Hip4UniverseFamily::MarkPrices, opt_seq(opt_id_view(resolved.perp_instrument_id))),
            plan.bars@.len() == 0 && plan.book_deltas@.len() == 0 && plan.index_prices@.len() == 0,
            plan.funding_rates@.len() == 0 && plan.instrument_statuses@.len() == 0,
            plan.instrument_closes@.len() == 0 && plan.option_greeks@.len() == 0 && plan.forward_prices@.len() == 0,
            plan.custom_data@.len() == 0 && plan.custom_data_requests@.len() == 0,
        decreases spec.families@.len() - i,
    {
        proof {
            let t = spec.families@.take(i as int + 1);
            assert(t.drop_last() =~= spec.families@.take(i as int));
            assert(t.last() == spec.families@[i as int]);
        }
        match spec.families[i] {
            Hip4UniverseFamily::Instruments => crate::plan::extend_all(&mut plan.instruments, &all),
            Hip4UniverseFamily::Quotes => crate::plan::extend_all(&mut plan.quotes, &outcomes),
            Hip4UniverseFamily::Trades => crate::plan::extend_all(&mut plan.trades, &outcomes),
            Hip4UniverseFamily::MarkPrices => crate::plan::extend_all(&mut plan.mark_prices, &perp),
        }
        i = i + 1;
    }
    assert(spec.families@.take(spec.families@.len() as int) =~= spec.families@);
    plan
}

/// Why a refresh that changed the instruments happened: a new question takes precedence
/// over a new expiry; nothing when the instruments did not change or neither moved.
pub open spec fn spec_hip4_rollover_reason(
    previous_question_id: Option<u32>,
    previous_expiration_ns: Option<u64>,
    question_id: u32,
    expiration_ns: u64,
    instruments_changed: bool,
) -> Option<Seq<char>> {
    if !instruments_changed {
        None
    } else if previous_question_id matches Some(q) && q != question_id {
        Some("question_roll"@)
    } else if previous_expiration_ns matches Some(e) && e != expiration_ns {
        Some("expiry_roll"@)
    } else {
        None
    }
}

pub open spec fn opt_text(o: Option<String>) -> Option<Seq<char>> {
    match o {
        Some(s) => Some(s@),
        None => None,
    }
}

/// Rollover reason of a refresh.
pub fn compute_hip4_refresh_rollover_reason(
    previous_question_id: Option<u32>,
    previous_expiration_ns: Option<u64>,
    resolved: &ResolvedHip4Universe,
    instruments_changed: bool,
) -> (r: Option<String>)
    ensures
        opt_text(r) == spec_hip4_rollover_reason(previous_question_id, previous_expiration_ns,
            resolved.market.question_id, resolved.market.expiration_ns, instruments_changed),
{
    if !instruments_changed {
        return None;
    }
    match previous_question_id {
        Some(q) => {
            if q != resolved.market.question_id {
                return Some(String::from_str("question_roll"));
            }
        },
        None => {},
    }
    match previous_expiration_ns {
        Some(e) => {
            if e != resolved.market.expiration_ns {
                return Some(String::from_str("expiry_roll"));
            }
        },
        None => {},
    }
    None
}

/// The record fields that come from the universe and its resolution.
pub open spec fn record_matches(
    r: Hip4UniverseResolutionRecord,
    event_kind: Hip4UniverseResolutionEventKind,
    spec: Hip4UniverseSpec,
    resolved: ResolvedHip4Universe,
) -> bool {
    &&& r.event_kind == event_kind
    &&& r.venue_id@ == spec.venue_id@
    &&& r.underlying@ == spec.underlying@
    &&& r.period@ == spec.period@
    &&& r.market_class@ == spec.market_class@
    &&& r.resolved_at_ns == resolved.resolved_at_ns
    &&& r.question_id == resolved.market.question_id
    &&& r.expiration_ns == resolved.market.expiration_ns
    &&& r.outcome_ids@ == resolved.market.outcome_ids@
    &&& opt_text(r.perp_instrument_id) == (match resolved.perp_instrument_id {
        Some(id) => Some(id_text(id@)),
        None => None,
    })
    &&& strings_view(r.outcome_instrument_ids@) == id_texts(views(resolved.outcome_instrument_ids@))
    &&& strings_view(r.all_instrument_ids@) == id_texts(views(resolved.all_instrument_ids@))
}

/// A resolution log record; the ISO-8601 renderings of the two timestamps are given.
pub fn resolution_record(
    event_kind: Hip4UniverseResolutionEventKind,
    spec: &Hip4UniverseSpec,
    resolved: &ResolvedHip4Universe,
    added_instrument_ids: Vec<String>,
    removed_instrument_ids: Vec<String>,
    rollover_reason: Option<String>,
    resolved_at_iso8601: String,
    expiration_iso8601: String,
) -> (r: Hip4UniverseResolutionRecord)
    ensures
        record_matches(r, event_kind, *spec, *resolved),
        r.resolved_at_iso8601 == resolved_at_iso8601,
        r.expiration_iso8601 == expiration_iso8601,
        r.added_instrument_ids == added_instrument_ids,
        r.removed_instrument_ids == removed_instrument_ids,
        r.rollover_reason == rollover_reason,
{
    let perp_instrument_id = match &resolved.perp_instrument_id {
        Some(id) => Some(id.to_string()),
        None => None,
    };
    let mut outcome_ids: Vec<u32> = Vec::new();
    let mut i: usize = 0;
    while i < resolved.market.outcome_ids.len()
        invariant
            i <= resolved.market.outcome_ids@.len(),
            outcome_ids@ == resolved.market.outcome_ids@.take(i as int),
        decreases resolved.market.outcome_ids@.len() - i,
    {
        outcome_ids.push(resolved.market.outcome_ids[i]);
        assert(outcome_ids@ =~= resolved.market.outcome_ids@.take(i as int + 1));
        i = i + 1;
    }
    assert(resolved.market.outcome_ids@.take(resolved.market.outcome_ids@.len() as int) =~= resolved.market.outcome_ids@);
    Hip4UniverseResolutionRecord {
        event_kind,
        venue_id: spec.venue_id.clone(),
        underlying: spec.underlying.clone(),
        period: spec.period.clone(),
        market_class: spec.market_class.clone(),
        resolved_at_ns: resolved.resolved_at_ns,
        resolved_at_iso8601,
        question_id: resolved.market.question_id,
        expiration_ns: resolved.market.expiration_ns,
        expiration_iso8601,
        outcome_ids,
        perp_instrument_id,
        outcome_instrument_ids: id_strings(&resolved.outcome_instrument_ids),
        all_instrument_ids: id_strings(&resolved.all_instrument_ids),
        added_instrument_ids,
        removed_instrument_ids,
        rollover_reason,
    }
}

/// Startup record: no rollover reason.
pub fn startup_resolution_record(
    spec: &Hip4UniverseSpec,
    resolved: &ResolvedHip4Universe,
    added_instrument_ids: Vec<String>,
    removed_instrument_ids: Vec<String>,
    resolved_at_iso8601: String,
    expiration_iso8601: String,
) -> (r: Hip4UniverseResolutionRecord)
    ensures
        record_matches(r, Hip4UniverseResolutionEventKind::Startup, *spec, *resolved),
        r.resolved_at_iso8601 == resolved_at_iso8601,
        r.expiration_iso8601 == expiration_iso8601,
        r.added_instrument_ids == added_instrument_ids,
        r.removed_instrument_ids == removed_instrument_ids,
        r.rollover_reason is None,
{
    resolution_record(Hip4UniverseResolutionEventKind::Startup, spec, resolved, added_instrument_ids,
        removed_instrument_ids, None, resolved_at_iso8601, expiration_iso8601)
}

/// Refresh record.
pub fn refresh_resolution_record(
    spec: &Hip4UniverseSpec,
    resolved: &ResolvedHip4Universe,
    added_instrument_ids: Vec<String>,
    removed_instrument_ids: Vec<String>,
    rollover_reason: Option<String>,
    resolved_at_iso8601: String,
    expiration_iso8601: String,
) -> (r: Hip4UniverseResolutionRecord)
    ensures
        record_matches(r, Hip4UniverseResolutionEventKind::Refresh, *spec, *resolved),
        r.resolved_at_iso8601 == resolved_at_iso8601,
        r.expiration_iso8601 == expiration_iso8601,
        r.added_instrument_ids == added_instrument_ids,
        r.removed_instrument_ids == removed_instrument_ids,
        r.rollover_reason == rollover_reason,
{
    resolution_record(Hip4UniverseResolutionEventKind::Refresh, spec, resolved, added_instrument_ids,
        removed_instrument_ids, rollover_reason, resolved_at_iso8601, expiration_iso8601)
}

} // verus!
