//! Runtime re-resolution of an option universe from what the data cache
//! holds: the strike reference (the underlying price of the first option of
//! the selected expiry whose greeks carry one, else the perpetual's mark,
//! quote mid or index), the perpetual, and the resolution itself.
use vstd::prelude::*;

use crate::atm_reference::select_cache_atm_reference;
use crate::error::CaptureError;
use crate::option_universe::{
    derive_perp_instrument_id, perp_id_text, resolve_error_text, venue_suffix, OptionUniverseResolveError,
    OptionUniverseSpec, OptionUniverseVenueKind, Price, ResolvedOptionUniverse,
};
use crate::option_universe_resolve::{
    any_in_window, atm_window_fits, days_max, ids_at_expiry, is_selected_expiry, oi_seq, opt_id,
    option_instrument_ids_at_selected_expiry, resolve_option_universe, resolved_matches, InstrumentInfo, DAY_NS,
};
use crate::plan::{parse_id, sorted_ids, views, InstrumentId};
use crate::text::{push_str, str_eq};

verus! {

/// A price the cache holds for one instrument.
#[derive(Debug, Clone, PartialEq, Eq)]
pub struct CachedPrice {
    pub instrument_id: InstrumentId,
    pub price: Price,
}

/// What the data cache holds for one venue and underlying. Later entries of a
/// price list replace earlier ones for the same instrument.
#[derive(Debug, Clone, PartialEq, Eq)]
pub struct RuntimeOptionCache {
    /// The venue's instruments for the underlying.
    pub option_instruments: Vec<InstrumentInfo>,
    /// Underlying prices carried by cached option greeks.
    pub greeks_underlying_prices: Vec<CachedPrice>,
    pub mark_prices: Vec<CachedPrice>,
    pub quote_mids: Vec<CachedPrice>,
    pub index_prices: Vec<CachedPrice>,
}

pub open spec fn price_of(p: Price) -> (i64, Seq<char>) {
    (p.raw, p.text@)
}

/// The price cached for `id`: the last entry for it.
pub open spec fn cached_price(entries: Seq<CachedPrice>, id: (Seq<char>, Seq<char>)) -> Option<(i64, Seq<char>)>
    decreases entries.len(),
{
    if entries.len() == 0 {
        None
    } else if entries.last().instrument_id@ == id {
        Some(price_of(entries.last().price))
    } else {
        cached_price(entries.drop_last(), id)
    }
}

/// The cached greeks underlying price of the first of `ids` that has one.
pub open spec fn first_greeks_price(ids: Seq<(Seq<char>, Seq<char>)>, greeks: Seq<CachedPrice>) -> Option<(i64, Seq<char>)>
    decreases ids.len(),
{
    if ids.len() == 0 {
        None
    } else {
        match first_greeks_price(ids.drop_last(), greeks) {
            Some(p) => Some(p),
            None => cached_price(greeks, ids.last()),
        }
    }
}

/// The expiry a resolution selects.
pub open spec fn selected_expiry(spec: OptionUniverseSpec, xs: Seq<InstrumentInfo>, now: u64) -> u64 {
    choose|e: u64| is_selected_expiry(spec, xs, now, e)
}

/// The universe's perpetual, where its id can be derived.
pub open spec fn derived_perp(spec: OptionUniverseSpec, venue: OptionUniverseVenueKind) -> Option<(Seq<char>, Seq<char>)> {
    match perp_id_text(spec, venue) {
        Some(t) => parse_id(t),
        None => None,
    }
}

/// Why the perpetual's id cannot be derived.
pub open spec fn perp_error(spec: OptionUniverseSpec, venue: OptionUniverseVenueKind) -> OptionUniverseResolveError {
    match perp_id_text(spec, venue) {
        Some(_) => OptionUniverseResolveError::MissingPerpetual { venue_id: spec.venue_id, underlying: spec.underlying },
        None => OptionUniverseResolveError::MissingSettlementCurrency { venue_id: spec.venue_id },
    }
}

/// The perpetual's cached mark, else quote mid, else index, with its source label.
pub open spec fn perp_fallback(cache: RuntimeOptionCache, perp: (Seq<char>, Seq<char>)) -> Option<((i64, Seq<char>), Seq<char>)> {
    match cached_price(cache.mark_prices@, perp) {
        Some(m) => Some((m, "cache_mark"@)),
        None => match cached_price(cache.quote_mids@, perp) {
            Some(q) => Some((q, "cache_quote_mid"@)),
            None => match cached_price(cache.index_prices@, perp) {
                Some(i) => Some((i, "cache_index"@)),
                None => None,
            },
        },
    }
}

/// The strike reference and its source label; none when no option falls in
/// the expiry window, or neither the greeks nor the perpetual give a price.
pub open spec fn runtime_reference(
    spec: OptionUniverseSpec,
    cache: RuntimeOptionCache,
    now: u64,
    venue: OptionUniverseVenueKind,
) -> Option<((i64, Seq<char>), Seq<char>)> {
    let xs = cache.option_instruments@;
    if !any_in_window(spec, xs, now) {
        None
    } else {
        match first_greeks_price(ids_at_expiry(spec, xs, now, selected_expiry(spec, xs, now)), cache.greeks_underlying_prices@) {
            Some(p) => Some((p, "cache_greeks_underlying_price"@)),
            None => match derived_perp(spec, venue) {
                Some(perp) => perp_fallback(cache, perp),
                None => None,
            },
        }
    }
}

/// Message when no strike reference is found.
pub open spec fn reference_failure_text(spec: OptionUniverseSpec) -> Seq<char> {
    "failed to determine strike reference"@ + venue_suffix(spec.venue_id@, spec.underlying@)
}

proof fn lemma_selected_expiry_unique(spec: OptionUniverseSpec, xs: Seq<InstrumentInfo>, now: u64, e: u64)
    requires
        is_selected_expiry(spec, xs, now, e),
    ensures
        selected_expiry(spec, xs, now) == e,
{
    let c = selected_expiry(spec, xs, now);
    assert(is_selected_expiry(spec, xs, now, c));
    let i = choose|i: int| 0 <= i < xs.len() && crate::option_universe_resolve::in_window(spec, #[trigger] xs[i], now)
        && crate::option_universe_resolve::expiry_of(xs[i]) == e;
    let j = choose|j: int| 0 <= j < xs.len() && crate::option_universe_resolve::in_window(spec, #[trigger] xs[j], now)
        && crate::option_universe_resolve::expiry_of(xs[j]) == c;
    assert(c <= crate::option_universe_resolve::expiry_of(xs[i]));
    assert(e <= crate::option_universe_resolve::expiry_of(xs[j]));
}

fn same_id(a: &InstrumentId, b: &InstrumentId) -> (r: bool)
    ensures
        r == (a@ == b@),
{
    str_eq(a.symbol.as_str(), b.symbol.as_str()) && str_eq(a.venue.as_str(), b.venue.as_str())
}

/// The price cached for `id`.
fn cached_price_for(entries: &Vec<CachedPrice>, id: &InstrumentId) -> (r: Option<Price>)
    ensures
        match r {
            Some(p) => cached_price(entries@, id@) == Some(price_of(p)),
            None => cached_price(entries@, id@) is None,
        },
{
    let mut found: Option<Price> = None;
    let mut i: usize = 0;
    assert(entries@.take(0) =~= Seq::<CachedPrice>::empty());
    while i < entries.len()
        invariant
            i <= entries@.len(),
            match found {
                Some(p) => cached_price(entries@.take(i as int), id@) == Some(price_of(p)),
                None => cached_price(entries@.take(i as int), id@) is None,
            },
        decreases entries@.len() - i,
    {
        proof {
            let t = entries@.take(i as int + 1);
            assert(t.drop_last() =~= entries@.take(i as int));
            assert(t.last() == entries@[i as int]);
        }
        if same_id(&entries[i].instrument_id, id) {
            found = Some(entries[i].price.copy());
        }
        i = i + 1;
    }
    assert(entries@.take(entries@.len() as int) =~= entries@);
    found
}

/// The strike reference of a runtime resolution and its source label.
fn strike_reference(spec: &OptionUniverseSpec, cache: &RuntimeOptionCache, now: u64, venue: OptionUniverseVenueKind) -> (r: Option<(Price, &'static str)>)
    requires
        days_max(*spec) * DAY_NS <= u64::MAX,
    ensures
        match r {
            Some((p, label)) => runtime_reference(*spec, *cache, now, venue) == Some((price_of(p), label@)),
            None => runtime_reference(*spec, *cache, now, venue) is None,
        },
{
    let ghost xs = cache.option_instruments@;
    let ids = match option_instrument_ids_at_selected_expiry(spec, &cache.option_instruments, now) {
        Ok((e, ids)) => {
            proof {
                lemma_selected_expiry_unique(*spec, xs, now, e);
            }
            ids
        },
        Err(_) => {
            return None;
        },
    };
    let ghost idv = views(ids@);
    assert(idv == ids_at_expiry(*spec, xs, now, selected_expiry(*spec, xs, now)));
    let mut i: usize = 0;
    assert(idv.take(0) =~= Seq::<(Seq<char>, Seq<char>)>::empty());
    while i < ids.len()
        invariant
            idv == views(ids@),
            xs == cache.option_instruments@,
            any_in_window(*spec, xs, now),
            idv == ids_at_expiry(*spec, xs, now, selected_expiry(*spec, xs, now)),
            i <= ids@.len(),
            first_greeks_price(idv.take(i as int), cache.greeks_underlying_prices@) is None,
        decreases ids@.len() - i,
    {
        proof {
            let t = idv.take(i as int + 1);
            assert(t.drop_last() =~= idv.take(i as int));
            assert(t.last() == ids@[i as int]@);
        }
        match cached_price_for(&cache.greeks_underlying_prices, &ids[i]) {
            Some(p) => {
                proof {
                    assert(first_greeks_price(idv.take(i as int + 1), cache.greeks_underlying_prices@) == Some(price_of(p)));
                    lemma_first_greeks_prefix(idv, cache.greeks_underlying_prices@, i as int + 1);
                }
                return Some((p, "cache_greeks_underlying_price"));
            },
            None => {},
        }
        i = i + 1;
    }
    assert(idv.take(idv.len() as int) =~= idv);
    let perp = match derive_perp_instrument_id(spec, venue) {
        Ok(p) => p,
        Err(_) => {
            return None;
        },
    };
    let mark = cached_price_for(&cache.mark_prices, &perp);
    let quote_mid = cached_price_for(&cache.quote_mids, &perp);
    let index = cached_price_for(&cache.index_prices, &perp);
    match select_cache_atm_reference(mark, quote_mid, index) {
        Some((p, source)) => Some((p, source.as_str())),
        None => None,
    }
}

proof fn lemma_first_greeks_prefix(ids: Seq<(Seq<char>, Seq<char>)>, greeks: Seq<CachedPrice>, n: int)
    requires
        0 <= n <= ids.len(),
        first_greeks_price(ids.take(n), greeks) is Some,
    ensures
        first_greeks_price(ids, greeks) == first_greeks_price(ids.take(n), greeks),
    decreases ids.len() - n,
{
    if n < ids.len() {
        let t = ids.take(n + 1);
        assert(t.drop_last() =~= ids.take(n));
        lemma_first_greeks_prefix(ids, greeks, n + 1);
    } else {
        assert(ids.take(n) =~= ids);
    }
}

/// Re-resolves an option universe at `now` from what the cache holds. The
/// strike reference is that of `runtime_reference`; without one the error says
/// that no strike reference could be determined. The perpetual is derived when
/// the universe includes it, and `strikes_by_open_interest` (strikes ranked by
/// the open interest of the cached greeks, highest first) is handed to the
/// resolution as given. The resolution records where its reference came from.
#[verifier::rlimit(40)]
pub fn resolve_runtime_option_universe(
    cache: &RuntimeOptionCache,
    now: u64,
    spec: &OptionUniverseSpec,
    venue_kind: OptionUniverseVenueKind,
    strikes_by_open_interest: Option<&Vec<i64>>,
) -> (r: Result<ResolvedOptionUniverse, CaptureError>)
    requires
        days_max(*spec) * DAY_NS <= u64::MAX,
        forall|reference: i64| atm_window_fits(*spec, cache.option_instruments@, now, reference),
    ensures
        runtime_reference(*spec, *cache, now, venue_kind) is None <==> (r matches Err(e)
            && e.message@ == reference_failure_text(*spec)),
        runtime_reference(*spec, *cache, now, venue_kind) is Some && spec.include_perp
            && derived_perp(*spec, venue_kind) is None ==> (r matches Err(e)
            && e.message@ == resolve_error_text(perp_error(*spec, venue_kind))),
        r matches Err(e) ==> (runtime_reference(*spec, *cache, now, venue_kind) is Some ==> exists|x: OptionUniverseResolveError|
            e.message@ == #[trigger] resolve_error_text(x)),
        runtime_reference(*spec, *cache, now, venue_kind) is Some && spec.strike_policy is OiRanked
            && strikes_by_open_interest is None ==> r is Err,
        r matches Ok(u) ==> (runtime_reference(*spec, *cache, now, venue_kind) matches Some((p, label)) && {
            let xs = cache.option_instruments@;
            &&& u.resolved_at_ns == now
            &&& is_selected_expiry(*spec, xs, now, u.selected_expiry_ns)
            &&& price_of(u.atm_reference) == p
            &&& u.atm_reference_source matches Some(s) && s@ == label
            &&& exists|ss: Seq<Price>, k: int| #[trigger] resolved_matches(*spec, xs, now, u.atm_reference,
                u.perp_instrument_id, oi_seq(strikes_by_open_interest), u, ss, k)
            &&& opt_id(u.perp_instrument_id) == (if spec.include_perp { derived_perp(*spec, venue_kind) } else { None })
            &&& sorted_ids(views(u.all_instrument_ids@))
            &&& forall|x| #[trigger] views(u.all_instrument_ids@).contains(x) <==> (views(u.option_instrument_ids@).contains(x)
                || opt_id(u.perp_instrument_id) == Some(x))
        }),
{
    let (reference, label) = match strike_reference(spec, cache, now, venue_kind) {
        Some(found) => found,
        None => {
            let mut message = String::new();
            push_str(&mut message, "failed to determine strike reference for venue_id=");
            push_str(&mut message, spec.venue_id.as_str());
            push_str(&mut message, " underlying=");
            push_str(&mut message, spec.underlying.as_str());
            proof {
                reveal_strlit("failed to determine strike reference for venue_id=");
                reveal_strlit("failed to determine strike reference");
                reveal_strlit(" for venue_id=");
                reveal_strlit(" underlying=");
                assert(message@ =~= reference_failure_text(*spec));
            }
            return Err(CaptureError::new(message));
        },
    };
    let perp = if spec.include_perp {
        match derive_perp_instrument_id(spec, venue_kind) {
            Ok(id) => Some(id),
            Err(e) => {
                proof {
                    assert(e == perp_error(*spec, venue_kind));
                }
                let message = e.message();
                proof {
                    lemma_not_reference_failure(e);
                }
                return Err(CaptureError::new(message));
            },
        }
    } else {
        None
    };
    assert(atm_window_fits(*spec, cache.option_instruments@, now, reference.raw));
    let ghost perp_arg = perp;
    let ghost reference_arg = reference;
    match resolve_option_universe(spec, &cache.option_instruments, now, reference, perp, strikes_by_open_interest) {
        Ok(u) => {
            let ghost first = u;
            let mut resolved = u;
            resolved.atm_reference_source = Some(label.to_string());
            proof {
                let ss_k = choose|ss: Seq<Price>, k: int| #[trigger] resolved_matches(*spec, cache.option_instruments@, now,
                    reference_arg, perp_arg, oi_seq(strikes_by_open_interest), first, ss, k);
                assert(resolved_matches(*spec, cache.option_instruments@, now, resolved.atm_reference,
                    resolved.perp_instrument_id, oi_seq(strikes_by_open_interest), resolved, ss_k.0, ss_k.1));
            }
            Ok(resolved)
        },
        Err(e) => {
            let message = e.message();
            proof {
                lemma_not_reference_failure(e);
            }
            Err(CaptureError::new(message))
        },
    }
}

/// No resolution error reads as a missing strike reference.
proof fn lemma_not_reference_failure(e: OptionUniverseResolveError)
    ensures
        forall|spec: OptionUniverseSpec| #[trigger] reference_failure_text(spec) != resolve_error_text(e),
{
    assert forall|spec: OptionUniverseSpec| #[trigger] reference_failure_text(spec) != resolve_error_text(e) by {
        reveal_strlit("failed to determine strike reference");
        reveal_strlit("no matching option instruments found");
        reveal_strlit("no expiry matched the configured expiry policy");
        reveal_strlit("no call/put pairs remained after strike filtering");
        reveal_strlit("include_perp=true requires a resolved perpetual instrument");
        reveal_strlit("capture.option_universe venue_id=");
        reveal_strlit("no option instrument matched the configured expiry policy");
        reveal_strlit("oi_ranked strike policy requires open interest data");
        let a = reference_failure_text(spec);
        let b = resolve_error_text(e);
        if a.len() > 0 && b.len() > 0 {
            assert(a[0] == 'f');
            assert(b[0] != 'f');
        }
    }
}

} // verus!
