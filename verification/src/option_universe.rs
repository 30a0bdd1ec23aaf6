//! Option universes: which options of an underlying to capture, how they roll, and the
//! resolution records written when they do.
use vstd::prelude::*;

use crate::plan::{
    id_text, parse_id, views, BookDeltasCaptureSpec, BookType, CapturePlan, InstrumentId,
    InstrumentScopedSpec, PlanEntry,
};
use crate::text::{push_str, str_eq};

verus! {

/// Streams of an option universe.
#[derive(Debug, Clone, Copy, PartialEq, Eq, Structural)]
pub enum OptionUniverseFamily {
    Instruments,
    Quotes,
    Trades,
    MarkPrices,
    IndexPrices,
    FundingRates,
    InstrumentStatuses,
    InstrumentCloses,
    OptionGreeks,
    ForwardPrices,
    BookDeltas,
}

/// Which expiry the universe follows.
#[derive(Debug, Clone, Copy, PartialEq, Eq, Structural)]
pub enum ExpiryPolicy {
    /// The nearest expiry within `days_max` days.
    Nearest { days_max: u32 },
}

/// Which strikes of the selected expiry the universe follows.
#[derive(Debug, Clone, Copy, PartialEq, Eq, Structural)]
pub enum StrikePolicy {
    /// A window around the strike nearest the reference price.
    AtmRelative { strikes_above: usize, strikes_below: usize },
    /// The strikes with the most open interest.
    OiRanked { top_n: usize },
    /// Every paired strike.
    AllStrikes,
}

impl StrikePolicy {
    pub open spec fn spec_selection_mode(&self) -> Seq<char> {
        match self {
            StrikePolicy::AtmRelative { .. } => "atm_relative"@,
            StrikePolicy::OiRanked { .. } => "oi_ranked"@,
            StrikePolicy::AllStrikes => "all"@,
        }
    }

    /// Name of the selection mode.
    pub fn selection_mode(&self) -> (s: &'static str)
        ensures
            s@ == self.spec_selection_mode(),
    {
        match self {
            StrikePolicy::AtmRelative { .. } => "atm_relative",
            StrikePolicy::OiRanked { .. } => "oi_ranked",
            StrikePolicy::AllStrikes => "all",
        }
    }

    /// `top_n` of an open-interest ranking.
    pub fn oi_ranked_top_n(&self) -> (n: Option<usize>)
        ensures
            n == (match self {
                StrikePolicy::OiRanked { top_n } => Some(*top_n),
                _ => None,
            }),
    {
        match self {
            StrikePolicy::OiRanked { top_n } => Some(*top_n),
            _ => None,
        }
    }

    /// Whether the policy needs open interest data.
    pub fn requires_open_interest(&self) -> (r: bool)
        ensures
            r == (self is OiRanked),
    {
        match self {
            StrikePolicy::OiRanked { .. } => true,
            _ => false,
        }
    }
}

/// Venues with option universes.
#[derive(Debug, Clone, Copy, PartialEq, Eq, Structural)]
pub enum OptionUniverseVenueKind {
    Deribit,
    Bybit,
    Okx,
}

impl OptionUniverseVenueKind {
    /// Whether the universe can be re-resolved at runtime: true for every supported venue.
    pub fn supports_runtime_refresh(self) -> (r: bool)
        ensures
            r == (self is Deribit || self is Bybit || self is Okx),
    {
        match self {
            OptionUniverseVenueKind::Deribit | OptionUniverseVenueKind::Bybit | OptionUniverseVenueKind::Okx => true,
        }
    }
}

/// A configured option universe.
#[derive(Debug, Clone, PartialEq, Eq)]
pub struct OptionUniverseSpec {
    pub venue_id: String,
    pub underlying: String,
    pub settlement_currency: Option<String>,
    pub include_perp: bool,
    pub families: Vec<OptionUniverseFamily>,
    pub expiry_policy: ExpiryPolicy,
    pub strike_policy: StrikePolicy,
}

/// A price: its fixed-point raw value (by which prices are ordered and compared) and its
/// text.
#[derive(Debug, Clone, PartialEq, Eq)]
pub struct Price {
    pub raw: i64,
    pub text: String,
}

impl Price {
    pub fn copy(&self) -> (p: Price)
        ensures
            p.raw == self.raw,
            p.text@ == self.text@,
    {
        Price { raw: self.raw, text: self.text.clone() }
    }
}

/// A resolved option universe.
#[derive(Debug, Clone, PartialEq, Eq)]
pub struct ResolvedOptionUniverse {
    pub resolved_at_ns: u64,
    pub selected_expiry_ns: u64,
    pub atm_reference: Price,
    pub atm_reference_source: Option<String>,
    pub selected_strikes: Vec<Price>,
    pub perp_instrument_id: Option<InstrumentId>,
    pub option_instrument_ids: Vec<InstrumentId>,
    pub all_instrument_ids: Vec<InstrumentId>,
}

/// Why an option universe could not be resolved.
#[derive(Debug, Clone, PartialEq, Eq)]
pub enum OptionUniverseResolveError {
    NoMatchingOptions { venue_id: String, underlying: String },
    NoMatchingExpiry { venue_id: String, underlying: String },
    NoStrikePairs { venue_id: String, underlying: String },
    MissingPerpetual { venue_id: String, underlying: String },
    MissingSettlementCurrency { venue_id: String },
    NoReferenceInstrument { venue_id: String, underlying: String },
    MissingOpenInterest { venue_id: String, underlying: String },
}

/// ` for venue_id={venue} underlying={underlying}`.
pub open spec fn venue_suffix(venue_id: Seq<char>, underlying: Seq<char>) -> Seq<char> {
    " for venue_id="@ + venue_id + " underlying="@ + underlying
}

/// Message of an error.
pub open spec fn resolve_error_text(e: OptionUniverseResolveError) -> Seq<char> {
    match e {
        OptionUniverseResolveError::NoMatchingOptions { venue_id, underlying } =>
            "no matching option instruments found"@ + venue_suffix(venue_id@, underlying@),
        OptionUniverseResolveError::NoMatchingExpiry { venue_id, underlying } =>
            "no expiry matched the configured expiry policy"@ + venue_suffix(venue_id@, underlying@),
        OptionUniverseResolveError::NoStrikePairs { venue_id, underlying } =>
            "no call/put pairs remained after strike filtering"@ + venue_suffix(venue_id@, underlying@),
        OptionUniverseResolveError::MissingPerpetual { venue_id, underlying } =>
            "include_perp=true requires a resolved perpetual instrument"@ + venue_suffix(venue_id@, underlying@),
        OptionUniverseResolveError::MissingSettlementCurrency { venue_id } =>
            "capture.option_universe venue_id="@ + venue_id@ + " requires settlement_currency to derive the hedge instrument"@,
        OptionUniverseResolveError::NoReferenceInstrument { venue_id, underlying } =>
            "no option instrument matched the configured expiry policy"@ + venue_suffix(venue_id@, underlying@),
        OptionUniverseResolveError::MissingOpenInterest { venue_id, underlying } =>
            "oi_ranked strike policy requires open interest data"@ + venue_suffix(venue_id@, underlying@),
    }
}

fn push_venue_suffix(out: &mut String, venue_id: &str, underlying: &str)
    ensures
        final(out)@ == old(out)@ + venue_suffix(venue_id@, underlying@),
{
    push_str(out, " for venue_id=");
    push_str(out, venue_id);
    push_str(out, " underlying=");
    push_str(out, underlying);
    assert(final(out)@ =~= old(out)@ + venue_suffix(venue_id@, underlying@));
}

impl OptionUniverseResolveError {
    /// The error's message, as `to_string` renders it.
    pub fn message(&self) -> (s: String)
        ensures
            s@ == resolve_error_text(*self),
    {
        let mut s = String::new();
        match self {
            OptionUniverseResolveError::NoMatchingOptions { venue_id, underlying } => {
                push_str(&mut s, "no matching option instruments found");
                push_venue_suffix(&mut s, venue_id.as_str(), underlying.as_str());
            },
            OptionUniverseResolveError::NoMatchingExpiry { venue_id, underlying } => {
                push_str(&mut s, "no expiry matched the configured expiry policy");
                push_venue_suffix(&mut s, venue_id.as_str(), underlying.as_str());
            },
            OptionUniverseResolveError::NoStrikePairs { venue_id, underlying } => {
                push_str(&mut s, "no call/put pairs remained after strike filtering");
                push_venue_suffix(&mut s, venue_id.as_str(), underlying.as_str());
            },
            OptionUniverseResolveError::MissingPerpetual { venue_id, underlying } => {
                push_str(&mut s, "include_perp=true requires a resolved perpetual instrument");
                push_venue_suffix(&mut s, venue_id.as_str(), underlying.as_str());
            },
            OptionUniverseResolveError::MissingSettlementCurrency { venue_id } => {
                push_str(&mut s, "capture.option_universe venue_id=");
                push_str(&mut s, venue_id.as_str());
                push_str(&mut s, " requires settlement_currency to derive the hedge instrument");
            },
            OptionUniverseResolveError::NoReferenceInstrument { venue_id, underlying } => {
                push_str(&mut s, "no option instrument matched the configured expiry policy");
                push_venue_suffix(&mut s, venue_id.as_str(), underlying.as_str());
            },
            OptionUniverseResolveError::MissingOpenInterest { venue_id, underlying } => {
                push_str(&mut s, "oi_ranked strike policy requires open interest data");
                push_venue_suffix(&mut s, venue_id.as_str(), underlying.as_str());
            },
        }
        assert(s@ =~= resolve_error_text(*self));
        s
    }
}

/// `{underlying}-{settlement}`: OKX instrument family.
pub fn okx_instrument_family(spec: &OptionUniverseSpec) -> (r: Result<String, OptionUniverseResolveError>)
    ensures
        match spec.settlement_currency {
            Some(c) => r matches Ok(f) && f@ == spec.underlying@ + "-"@ + c@,
            None => r matches Err(e) && e == (OptionUniverseResolveError::MissingSettlementCurrency {
                venue_id: spec.venue_id,
            }),
        },
{
    match &spec.settlement_currency {
        Some(c) => {
            let mut f = String::new();
            push_str(&mut f, spec.underlying.as_str());
            push_str(&mut f, "-");
            push_str(&mut f, c.as_str());
            assert(f@ =~= spec.underlying@ + "-"@ + c@);
            Ok(f)
        },
        None => Err(OptionUniverseResolveError::MissingSettlementCurrency { venue_id: spec.venue_id.clone() }),
    }
}

/// Text of the perpetual instrument id of a universe, or the missing settlement currency.
pub open spec fn perp_id_text(spec: OptionUniverseSpec, venue: OptionUniverseVenueKind) -> Option<Seq<char>> {
    match venue {
        OptionUniverseVenueKind::Deribit => Some(spec.underlying@ + "-PERPETUAL.DERIBIT"@),
        OptionUniverseVenueKind::Bybit => match spec.settlement_currency {
            Some(c) => Some(spec.underlying@ + c@ + "-LINEAR.BYBIT"@),
            None => None,
        },
        OptionUniverseVenueKind::Okx => match spec.settlement_currency {
            Some(c) => Some(spec.underlying@ + "-"@ + c@ + "-SWAP.OKX"@),
            None => None,
        },
    }
}

/// Perpetual (hedge) instrument of a universe: `{U}-PERPETUAL.DERIBIT`,
/// `{U}{S}-LINEAR.BYBIT` or `{U}-{S}-SWAP.OKX`. Bybit and OKX need the settlement currency;
/// an id that does not parse is reported as a missing perpetual.
pub fn derive_perp_instrument_id(spec: &OptionUniverseSpec, venue: OptionUniverseVenueKind) -> (r: Result<InstrumentId, OptionUniverseResolveError>)
    ensures
        match perp_id_text(*spec, venue) {
            None => r matches Err(e) && e == (OptionUniverseResolveError::MissingSettlementCurrency { venue_id: spec.venue_id }),
            Some(t) => match parse_id(t) {
                Some(id) => r matches Ok(i) && i@ == id,
                None => r matches Err(e) && e == (OptionUniverseResolveError::MissingPerpetual {
                    venue_id: spec.venue_id,
                    underlying: spec.underlying,
                }),
            },
        },
{
    let mut text = String::new();
    match venue {
        OptionUniverseVenueKind::Deribit => {
            push_str(&mut text, spec.underlying.as_str());
            push_str(&mut text, "-PERPETUAL.DERIBIT");
        },
        OptionUniverseVenueKind::Bybit => {
            match &spec.settlement_currency {
                Some(c) => {
                    push_str(&mut text, spec.underlying.as_str());
                    push_str(&mut text, c.as_str());
                    push_str(&mut text, "-LINEAR.BYBIT");
                },
                None => {
                    return Err(OptionUniverseResolveError::MissingSettlementCurrency { venue_id: spec.venue_id.clone() });
                },
            }
        },
        OptionUniverseVenueKind::Okx => {
            match okx_instrument_family(spec) {
                Ok(family) => {
                    push_str(&mut text, family.as_str());
                    push_str(&mut text, "-SWAP.OKX");
                },
                Err(e) => {
                    return Err(e);
                },
            }
        },
    }
    assert(Some(text@) == perp_id_text(*spec, venue));
    match InstrumentId::from_str(text.as_str()) {
        Ok(id) => Ok(id),
        Err(_) => Err(OptionUniverseResolveError::MissingPerpetual {
            venue_id: spec.venue_id.clone(),
            underlying: spec.underlying.clone(),
        }),
    }
}


/// `ids` repeated once for each occurrence of `target` in `families`.
pub open spec fn repeat_for<V>(families: Seq<OptionUniverseFamily>, target: OptionUniverseFamily, ids: Seq<V>) -> Seq<V>
    decreases families.len(),
{
    if families.len() == 0 {
        Seq::empty()
    } else {
        let r = repeat_for(families.drop_last(), target, ids);
        if families.last() == target { r + ids } else { r }
    }
}

pub open spec fn opt_seq<V>(o: Option<V>) -> Seq<V> {
    match o {
        Some(x) => seq![x],
        None => Seq::empty(),
    }
}

pub open spec fn opt_id_view(o: Option<InstrumentId>) -> Option<(Seq<char>, Seq<char>)> {
    match o {
        Some(id) => Some(id@),
        None => None,
    }
}

/// Level-2 book subscriptions of `ids`.
pub open spec fn l2_books(ids: Seq<(Seq<char>, Seq<char>)>) -> Seq<((Seq<char>, Seq<char>), BookType)> {
    ids.map_values(|id: (Seq<char>, Seq<char>)| (id, BookType::L2_MBP))
}

fn scoped(ids: &Vec<InstrumentId>) -> (v: Vec<InstrumentScopedSpec>)
    ensures
        views(v@) == views(ids@),
{
    let mut v: Vec<InstrumentScopedSpec> = Vec::new();
    let mut i: usize = 0;
    while i < ids.len()
        invariant
            i <= ids@.len(),
            views(v@) == views(ids@).take(i as int),
        decreases ids@.len() - i,
    {
        let ghost before = v@;
        let s = InstrumentScopedSpec { instrument_id: ids[i].copy() };
        v.push(s);
        proof {
            crate::plan::lemma_views_push(before, s);
        }
        assert(views(v@) =~= views(ids@).take(i as int + 1));
        i = i + 1;
    }
    assert(views(ids@).take(ids@.len() as int) =~= views(ids@));
    v
}

fn l2_book_specs(ids: &Vec<InstrumentId>) -> (v: Vec<BookDeltasCaptureSpec>)
    ensures
        views(v@) == l2_books(views(ids@)),
{
    let mut v: Vec<BookDeltasCaptureSpec> = Vec::new();
    let mut i: usize = 0;
    while i < ids.len()
        invariant
            i <= ids@.len(),
            views(v@) == l2_books(views(ids@)).take(i as int),
        decreases ids@.len() - i,
    {
        let ghost before = v@;
        let s = BookDeltasCaptureSpec { instrument_id: ids[i].copy(), book_type: BookType::L2_MBP };
        v.push(s);
        proof {
            crate::plan::lemma_views_push(before, s);
        }
        assert(views(v@) =~= l2_books(views(ids@)).take(i as int + 1));
        i = i + 1;
    }
    assert(l2_books(views(ids@)).take(ids@.len() as int) =~= l2_books(views(ids@)));
    v
}

/// `plan` is the capture plan of `resolved` under `spec` (see `expand_option_universe`).
pub open spec fn plan_expands(plan: CapturePlan, spec: OptionUniverseSpec, resolved: ResolvedOptionUniverse) -> bool {
    &&& views(plan.instruments@) == repeat_for(spec.families@, OptionUniverseFamily::Instruments, views(resolved.all_instrument_ids@))
    &&& views(plan.quotes@) == repeat_for(spec.families@, OptionUniverseFamily::Quotes, views(resolved.all_instrument_ids@))
    &&& views(plan.trades@) == repeat_for(spec.families@, OptionUniverseFamily::Trades, views(resolved.all_instrument_ids@))
    &&& views(plan.mark_prices@) == repeat_for(spec.families@, OptionUniverseFamily::MarkPrices, views(resolved.all_instrument_ids@))
    &&& views(plan.index_prices@) == repeat_for(spec.families@, OptionUniverseFamily::IndexPrices, opt_seq(opt_id_view(resolved.perp_instrument_id)))
    &&& views(plan.funding_rates@) == repeat_for(spec.families@, OptionUniverseFamily::FundingRates, opt_seq(opt_id_view(resolved.perp_instrument_id)))
    &&& views(plan.instrument_statuses@) == repeat_for(spec.families@, OptionUniverseFamily::InstrumentStatuses, views(resolved.all_instrument_ids@))
    &&& views(plan.instrument_closes@) == repeat_for(spec.families@, OptionUniverseFamily::InstrumentCloses, views(resolved.all_instrument_ids@))
    &&& views(plan.option_greeks@) == repeat_for(spec.families@, OptionUniverseFamily::OptionGreeks, views(resolved.option_instrument_ids@))
    &&& views(plan.forward_prices@) == repeat_for(spec.families@, OptionUniverseFamily::ForwardPrices, views(resolved.option_instrument_ids@))
    &&& views(plan.book_deltas@) == repeat_for(spec.families@, OptionUniverseFamily::BookDeltas, l2_books(views(resolved.option_instrument_ids@)))
    &&& plan.bars@.len() == 0 && plan.custom_data@.len() == 0 && plan.custom_data_requests@.len() == 0
}

/// Capture plan of a resolved universe, once per listed family: every instrument for
/// instruments, quotes, trades, mark prices, statuses and closes; the perpetual (if any)
/// for index prices and funding rates; the options for greeks, forward prices and
/// level-2 book deltas.
pub fn expand_option_universe(spec: &OptionUniverseSpec, resolved: &ResolvedOptionUniverse) -> (plan: CapturePlan)
    ensures
        views(plan.instruments@) == repeat_for(spec.families@, OptionUniverseFamily::Instruments, views(resolved.all_instrument_ids@)),
        views(plan.quotes@) == repeat_for(spec.families@, OptionUniverseFamily::Quotes, views(resolved.all_instrument_ids@)),
        views(plan.trades@) == repeat_for(spec.families@, OptionUniverseFamily::Trades, views(resolved.all_instrument_ids@)),
        views(plan.mark_prices@) == repeat_for(spec.families@, OptionUniverseFamily::MarkPrices, views(resolved.all_instrument_ids@)),
        views(plan.index_prices@) == repeat_for(spec.families@, OptionUniverseFamily::IndexPrices, opt_seq(opt_id_view(resolved.perp_instrument_id))),
        views(plan.funding_rates@) == repeat_for(spec.families@, OptionUniverseFamily::FundingRates, opt_seq(opt_id_view(resolved.perp_instrument_id))),
        views(plan.instrument_statuses@) == repeat_for(spec.families@, OptionUniverseFamily::InstrumentStatuses, views(resolved.all_instrument_ids@)),
        views(plan.instrument_closes@) == repeat_for(spec.families@, OptionUniverseFamily::InstrumentCloses, views(resolved.all_instrument_ids@)),
        views(plan.option_greeks@) == repeat_for(spec.families@, OptionUniverseFamily::OptionGreeks, views(resolved.option_instrument_ids@)),
        views(plan.forward_prices@) == repeat_for(spec.families@, OptionUniverseFamily::ForwardPrices, views(resolved.option_instrument_ids@)),
        views(plan.book_deltas@) == repeat_for(spec.families@, OptionUniverseFamily::BookDeltas, l2_books(views(resolved.option_instrument_ids@))),
        plan.bars@.len() == 0 && plan.custom_data@.len() == 0 && plan.custom_data_requests@.len() == 0,
{
    let mut plan = CapturePlan::empty();
    let all = scoped(&resolved.all_instrument_ids);
    let options = scoped(&resolved.option_instrument_ids);
    let mut perp_ids: Vec<InstrumentId> = Vec::new();
    match &resolved.perp_instrument_id {
        Some(id) => perp_ids.push(id.copy()),
        None => {},
    }
    assert(views(perp_ids@) =~= opt_seq(opt_id_view(resolved.perp_instrument_id)));
    let perp = scoped(&perp_ids);
    let books = l2_book_specs(&resolved.option_instrument_ids);
    let ghost fams = spec.families@;
    let ghost a = views(resolved.all_instrument_ids@);
    let ghost o = views(resolved.option_instrument_ids@);
    let ghost pp = opt_seq(opt_id_view(resolved.perp_instrument_id));
    let mut i: usize = 0;
    assert(fams.take(0) =~= Seq::<OptionUniverseFamily>::empty());
    while i < spec.families.len()
        invariant
            i <= fams.len(),
            fams == spec.families@,
            views(all@) == a,
            views(options@) == o,
            views(perp@) == pp,
            views(books@) == l2_books(o),
            views(plan.instruments@) == repeat_for(fams.take(i as int), OptionUniverseFamily::Instruments, a),
            views(plan.quotes@) == repeat_for(fams.take(i as int), OptionUniverseFamily::Quotes, a),
            views(plan.trades@) == repeat_for(fams.take(i as int), OptionUniverseFamily::Trades, a),
            views(plan.mark_prices@) == repeat_for(fams.take(i as int), OptionUniverseFamily::MarkPrices, a),
            views(plan.index_prices@) == repeat_for(fams.take(i as int), OptionUniverseFamily::IndexPrices, pp),
            views(plan.funding_rates@) == repeat_for(fams.take(i as int), OptionUniverseFamily::FundingRates, pp),
            views(plan.instrument_statuses@) == repeat_for(fams.take(i as int), OptionUniverseFamily::InstrumentStatuses, a),
            views(plan.instrument_closes@) == repeat_for(fams.take(i as int), OptionUniverseFamily::InstrumentCloses, a),
            views(plan.option_greeks@) == repeat_for(fams.take(i as int), OptionUniverseFamily::OptionGreeks, o),
            views(plan.forward_prices@) == repeat_for(fams.take(i as int), OptionUniverseFamily::ForwardPrices, o),
            views(plan.book_deltas@) == repeat_for(fams.take(i as int), OptionUniverseFamily::BookDeltas, l2_books(o)),
            plan.bars@.len() == 0 && plan.custom_data@.len() == 0 && plan.custom_data_requests@.len() == 0,
        decreases fams.len() - i,
    {
        proof {
            let t = fams.take(i as int + 1);
            assert(t.drop_last() =~= fams.take(i as int));
            assert(t.last() == fams[i as int]);
        }
        match spec.families[i] {
            OptionUniverseFamily::Instruments => crate::plan::extend_all(&mut plan.instruments, &all),
            OptionUniverseFamily::Quotes => crate::plan::extend_all(&mut plan.quotes, &all),
            OptionUniverseFamily::Trades => crate::plan::extend_all(&mut plan.trades, &all),
            OptionUniverseFamily::MarkPrices => crate::plan::extend_all(&mut plan.mark_prices, &all),
            OptionUniverseFamily::IndexPrices => crate::plan::extend_all(&mut plan.index_prices, &perp),
            OptionUniverseFamily::FundingRates => crate::plan::extend_all(&mut plan.funding_rates, &perp),
            OptionUniverseFamily::InstrumentStatuses => crate::plan::extend_all(&mut plan.instrument_statuses, &all),
            OptionUniverseFamily::InstrumentCloses => crate::plan::extend_all(&mut plan.instrument_closes, &all),
            OptionUniverseFamily::OptionGreeks => crate::plan::extend_all(&mut plan.option_greeks, &options),
            OptionUniverseFamily::ForwardPrices => crate::plan::extend_all(&mut plan.forward_prices, &options),
            OptionUniverseFamily::BookDeltas => crate::plan::extend_all(&mut plan.book_deltas, &books),
        }
        i = i + 1;
    }
    assert(fams.take(fams.len() as int) =~= fams);
    plan
}

/// Raw values of prices, in order.
pub open spec fn raws(s: Seq<Price>) -> Seq<i64> {
    s.map_values(|p: Price| p.raw)
}

/// Candidate strike window awaiting confirmation.
#[derive(Debug, Clone, Default, PartialEq, Eq)]
pub struct StrikeChangeSmoothingState {
    pub pending_strikes: Option<Vec<Price>>,
    pub confirmations: u32,
}

impl StrikeChangeSmoothingState {
    pub open spec fn spec_is_reset(&self) -> bool {
        self.pending_strikes is None && self.confirmations == 0
    }

    /// No pending candidate.
    pub fn new() -> (s: Self)
        ensures
            s.spec_is_reset(),
    {
        StrikeChangeSmoothingState { pending_strikes: None, confirmations: 0 }
    }

    /// Forgets the pending candidate.
    pub fn reset(&mut self)
        ensures
            final(self).spec_is_reset(),
    {
        self.pending_strikes = None;
        self.confirmations = 0;
    }
}

fn same_prices(a: &Vec<Price>, b: &Vec<Price>) -> (r: bool)
    ensures
        r == (raws(a@) == raws(b@)),
{
    if a.len() != b.len() {
        assert(raws(a@).len() != raws(b@).len());
        return false;
    }
    let mut i: usize = 0;
    while i < a.len()
        invariant
            i <= a@.len(),
            a@.len() == b@.len(),
            forall|k: int| 0 <= k < i ==> a@[k].raw == b@[k].raw,
        decreases a@.len() - i,
    {
        if a[i].raw != b[i].raw {
            assert(raws(a@)[i as int] != raws(b@)[i as int]);
            return false;
        }
        i = i + 1;
    }
    assert(raws(a@) =~= raws(b@));
    true
}

fn copy_prices(a: &Vec<Price>) -> (r: Vec<Price>)
    ensures
        raws(r@) == raws(a@),
        r@.len() == a@.len(),
        forall|k: int| #![trigger r@[k]] 0 <= k < a@.len() ==> r@[k].text@ == a@[k].text@,
{
    let mut r: Vec<Price> = Vec::new();
    let mut i: usize = 0;
    while i < a.len()
        invariant
            i <= a@.len(),
            r@.len() == i,
            forall|k: int| #![trigger r@[k]] 0 <= k < i ==> r@[k].raw == a@[k].raw && r@[k].text@ == a@[k].text@,
        decreases a@.len() - i,
    {
        r.push(a[i].copy());
        i = i + 1;
    }
    assert(raws(r@) =~= raws(a@));
    r
}

/// Confirmations counted after seeing `candidate`: one more when it is the pending
/// candidate (saturating), else one.
pub open spec fn next_confirmations(state: StrikeChangeSmoothingState, candidate: Seq<i64>) -> u32 {
    match state.pending_strikes {
        Some(p) if raws(p@) == candidate => if state.confirmations == u32::MAX { u32::MAX } else { (state.confirmations + 1) as u32 },
        _ => 1,
    }
}

/// Whether a strike window change applies now. Expiry rolls, disabled smoothing (zero
/// confirmations required) and unchanged windows apply at once and reset the state.
/// Otherwise the candidate must be seen `confirmations_required` times in a row; it
/// applies (and resets the state) on the call that reaches that count, and is kept
/// pending before.
pub fn should_apply_strike_change(
    current_strikes: &Vec<Price>,
    candidate_strikes: &Vec<Price>,
    expiry_changed: bool,
    confirmations_required: u32,
    state: &mut StrikeChangeSmoothingState,
) -> (apply: bool)
    ensures
        (expiry_changed || confirmations_required == 0 || raws(current_strikes@) == raws(candidate_strikes@)) ==> (apply
            && final(state).spec_is_reset()),
        !(expiry_changed || confirmations_required == 0 || raws(current_strikes@) == raws(candidate_strikes@)) ==> {
            let c = next_confirmations(*old(state), raws(candidate_strikes@));
            &&& apply == (c >= confirmations_required)
            &&& apply ==> final(state).spec_is_reset()
            &&& !apply ==> final(state).confirmations == c
            &&& !apply ==> (final(state).pending_strikes matches Some(p) && raws(p@) == raws(candidate_strikes@))
        },
{
    if expiry_changed || confirmations_required == 0 {
        state.reset();
        return true;
    }
    if same_prices(current_strikes, candidate_strikes) {
        state.reset();
        return true;
    }
    let is_pending = match &state.pending_strikes {
        Some(p) => same_prices(p, candidate_strikes),
        None => false,
    };
    if is_pending {
        state.confirmations = if state.confirmations == u32::MAX { u32::MAX } else { state.confirmations + 1 };
    } else {
        state.pending_strikes = Some(copy_prices(candidate_strikes));
        state.confirmations = 1;
    }
    if state.confirmations >= confirmations_required {
        state.reset();
        return true;
    }
    false
}

} // verus!
