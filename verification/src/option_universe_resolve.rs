//! Resolution of an option universe from the instruments known for its venue: the expiry,
//! the call/put strike pairs of that expiry, and the strikes the policy selects.
use vstd::prelude::*;

use crate::option_universe::{
    ExpiryPolicy, OptionUniverseResolveError, OptionUniverseSpec, Price, ResolvedOptionUniverse,
    StrikePolicy,
};
use crate::plan::{id_lt, lemma_id_lt_irreflexive, sorted_ids, views, InstrumentId};
use crate::text::str_eq;

verus! {

/// Nanoseconds per day.
pub const DAY_NS: u64 = 86_400_000_000_000;

/// Call or put.
#[derive(Debug, Clone, Copy, PartialEq, Eq, Structural)]
pub enum OptionKind {
    Call,
    Put,
}

/// What universe resolution reads of an instrument known for the venue.
#[derive(Debug, Clone, PartialEq, Eq)]
pub struct InstrumentInfo {
    pub instrument_id: InstrumentId,
    /// Whether the instrument is a crypto option.
    pub is_option: bool,
    pub underlying: Option<String>,
    pub settlement_currency: String,
    pub expiration_ns: Option<u64>,
    pub strike: Option<Price>,
    pub option_kind: Option<OptionKind>,
}

/// An option of the universe's underlying (and settlement currency, when configured) that
/// has not expired at `now` and has a strike and a kind.
pub open spec fn usable(spec: OptionUniverseSpec, x: InstrumentInfo, now: u64) -> bool {
    &&& x.is_option
    &&& x.underlying matches Some(u) && u@ == spec.underlying@
    &&& (spec.settlement_currency matches Some(c) ==> x.settlement_currency@ == c@)
    &&& x.expiration_ns matches Some(e) && e > now
    &&& x.strike is Some
    &&& x.option_kind is Some
}

pub open spec fn expiry_of(x: InstrumentInfo) -> u64 {
    x.expiration_ns->0
}

pub open spec fn strike_raw(x: InstrumentInfo) -> i64 {
    x.strike->0.raw
}

pub open spec fn days_max(spec: OptionUniverseSpec) -> u32 {
    match spec.expiry_policy {
        ExpiryPolicy::Nearest { days_max } => days_max,
    }
}

/// A usable option expiring within the policy's horizon.
pub open spec fn in_window(spec: OptionUniverseSpec, x: InstrumentInfo, now: u64) -> bool {
    usable(spec, x, now) && expiry_of(x) - now <= days_max(spec) * DAY_NS
}

/// `e` is the nearest expiry within the horizon.
pub open spec fn is_selected_expiry(spec: OptionUniverseSpec, xs: Seq<InstrumentInfo>, now: u64, e: u64) -> bool {
    &&& exists|i: int| 0 <= i < xs.len() && in_window(spec, #[trigger] xs[i], now) && expiry_of(xs[i]) == e
    &&& forall|i: int| 0 <= i < xs.len() && in_window(spec, #[trigger] xs[i], now) ==> e <= expiry_of(xs[i])
}

/// A usable option of expiry `e` and strike `r`.
pub open spec fn at_strike(spec: OptionUniverseSpec, x: InstrumentInfo, now: u64, e: u64, r: i64) -> bool {
    usable(spec, x, now) && expiry_of(x) == e && strike_raw(x) == r
}

/// The last option of `xs` of kind `kind` at expiry `e` and strike `r`.
pub open spec fn last_of_kind(spec: OptionUniverseSpec, xs: Seq<InstrumentInfo>, now: u64, e: u64, r: i64, kind: OptionKind) -> Option<(Seq<char>, Seq<char>)>
    decreases xs.len(),
{
    if xs.len() == 0 {
        None
    } else if at_strike(spec, xs.last(), now, e, r) && xs.last().option_kind == Some(kind) {
        Some(xs.last().instrument_id@)
    } else {
        last_of_kind(spec, xs.drop_last(), now, e, r, kind)
    }
}

/// Calls and puts of one strike of the selected expiry.
#[derive(Debug, Clone, PartialEq, Eq)]
pub struct StrikePair {
    pub strike: Price,
    pub call: Option<InstrumentId>,
    pub put: Option<InstrumentId>,
}

pub open spec fn opt_id(o: Option<InstrumentId>) -> Option<(Seq<char>, Seq<char>)> {
    match o {
        Some(id) => Some(id@),
        None => None,
    }
}

pub open spec fn pair_raws(ps: Seq<StrikePair>) -> Seq<i64> {
    ps.map_values(|p: StrikePair| p.strike.raw)
}

/// Strike pairs of expiry `e` among `xs`: ascending distinct strikes, exactly those of the
/// usable options of `e`; each with the last call and put seen, and the strike text of the
/// first option seen at that strike.
pub open spec fn pairs_of(spec: OptionUniverseSpec, xs: Seq<InstrumentInfo>, now: u64, e: u64, ps: Seq<StrikePair>) -> bool {
    &&& forall|a: int, b: int| 0 <= a < b < ps.len() ==> (#[trigger] ps[a]).strike.raw < (#[trigger] ps[b]).strike.raw
    &&& forall|i: int| 0 <= i < xs.len() && usable(spec, #[trigger] xs[i], now) && expiry_of(xs[i]) == e
        ==> exists|k: int| 0 <= k < ps.len() && (#[trigger] ps[k]).strike.raw == strike_raw(xs[i])
    &&& forall|k: int| 0 <= k < ps.len() ==> opt_id((#[trigger] ps[k]).call) == last_of_kind(spec, xs, now, e, ps[k].strike.raw, OptionKind::Call)
    &&& forall|k: int| 0 <= k < ps.len() ==> opt_id((#[trigger] ps[k]).put) == last_of_kind(spec, xs, now, e, ps[k].strike.raw, OptionKind::Put)
    &&& forall|k: int| 0 <= k < ps.len() ==> exists|i: int| 0 <= i < xs.len()
        && at_strike(spec, #[trigger] xs[i], now, e, (#[trigger] ps[k]).strike.raw)
        && xs[i].strike->0.text@ == ps[k].strike.text@
        && forall|j: int| 0 <= j < i ==> !at_strike(spec, #[trigger] xs[j], now, e, ps[k].strike.raw)
}

fn is_usable(spec: &OptionUniverseSpec, x: &InstrumentInfo, now: u64) -> (r: bool)
    ensures
        r == usable(*spec, *x, now),
{
    if !x.is_option {
        return false;
    }
    match &x.underlying {
        Some(u) => {
            if !str_eq(u.as_str(), spec.underlying.as_str()) {
                return false;
            }
        },
        None => {
            return false;
        },
    }
    match &spec.settlement_currency {
        Some(c) => {
            if !str_eq(x.settlement_currency.as_str(), c.as_str()) {
                return false;
            }
        },
        None => {},
    }
    match x.expiration_ns {
        Some(e) => {
            if e <= now {
                return false;
            }
        },
        None => {
            return false;
        },
    }
    x.strike.is_some() && x.option_kind.is_some()
}


/// Option `i` is the first of `xs` at expiry `e` and strike `r`.
pub open spec fn is_first_at(spec: OptionUniverseSpec, xs: Seq<InstrumentInfo>, now: u64, e: u64, i: int, r: i64) -> bool {
    &&& 0 <= i < xs.len()
    &&& at_strike(spec, xs[i], now, e, r)
    &&& forall|j: int| 0 <= j < i ==> !at_strike(spec, #[trigger] xs[j], now, e, r)
}

#[verifier::opaque]
/// `ss` lists, ascending and without repeats, the strikes of the usable options of expiry
/// `e` among the first `n` of `xs`, each with the text of its first option.
pub open spec fn strikes_of(spec: OptionUniverseSpec, xs: Seq<InstrumentInfo>, n: int, now: u64, e: u64, ss: Seq<Price>) -> bool {
    &&& forall|a: int, b: int| 0 <= a < b < ss.len() ==> (#[trigger] ss[a]).raw < (#[trigger] ss[b]).raw
    &&& forall|i: int| 0 <= i < n && usable(spec, #[trigger] xs[i], now) && expiry_of(xs[i]) == e
        ==> exists|k: int| 0 <= k < ss.len() && (#[trigger] ss[k]).raw == strike_raw(xs[i])
    &&& forall|k: int| 0 <= k < ss.len() ==> #[trigger] has_first_witness(spec, xs, n, now, e, ss[k])
}

/// Strike `p` is that of the first option at its strike among the first `n` of `xs`.
pub open spec fn has_first_witness(spec: OptionUniverseSpec, xs: Seq<InstrumentInfo>, n: int, now: u64, e: u64, p: Price) -> bool {
    exists|i: int| #![trigger xs[i]] 0 <= i < n && is_first_at(spec, xs, now, e, i, p.raw) && xs[i].strike->0.text@ == p.text@
}

proof fn lemma_witness_extends(spec: OptionUniverseSpec, xs: Seq<InstrumentInfo>, n: int, now: u64, e: u64, p: Price)
    requires
        has_first_witness(spec, xs, n, now, e, p),
    ensures
        has_first_witness(spec, xs, n + 1, now, e, p),
{
    let w = choose|i2: int| #![trigger xs[i2]] 0 <= i2 < n && is_first_at(spec, xs, now, e, i2, p.raw) && xs[i2].strike->0.text@ == p.text@;
    assert(0 <= w < n + 1);
}

proof fn lemma_strikes_skip(spec: OptionUniverseSpec, xs: Seq<InstrumentInfo>, i: int, now: u64, e: u64, ss: Seq<Price>)
    requires
        0 <= i < xs.len(),
        strikes_of(spec, xs, i, now, e, ss),
        !(usable(spec, xs[i], now) && expiry_of(xs[i]) == e),
    ensures
        strikes_of(spec, xs, i + 1, now, e, ss),
{
    reveal(strikes_of);
    assert forall|k: int| 0 <= k < ss.len() implies #[trigger] has_first_witness(spec, xs, i + 1, now, e, ss[k]) by {
        lemma_witness_extends(spec, xs, i, now, e, ss[k]);
    }
}

proof fn lemma_strikes_present(spec: OptionUniverseSpec, xs: Seq<InstrumentInfo>, i: int, now: u64, e: u64, ss: Seq<Price>, p: int)
    requires
        0 <= i < xs.len(),
        strikes_of(spec, xs, i, now, e, ss),
        usable(spec, xs[i], now) && expiry_of(xs[i]) == e,
        0 <= p < ss.len(),
        ss[p].raw == strike_raw(xs[i]),
    ensures
        strikes_of(spec, xs, i + 1, now, e, ss),
{
    reveal(strikes_of);
    assert forall|i2: int| 0 <= i2 < i + 1 && usable(spec, #[trigger] xs[i2], now) && expiry_of(xs[i2]) == e
        implies exists|k: int| 0 <= k < ss.len() && (#[trigger] ss[k]).raw == strike_raw(xs[i2]) by {
        if i2 == i {
            assert(ss[p].raw == strike_raw(xs[i2]));
        }
    }
    assert forall|k: int| 0 <= k < ss.len() implies #[trigger] has_first_witness(spec, xs, i + 1, now, e, ss[k]) by {
        lemma_witness_extends(spec, xs, i, now, e, ss[k]);
    }
}

proof fn lemma_strikes_insert(spec: OptionUniverseSpec, xs: Seq<InstrumentInfo>, i: int, now: u64, e: u64, old_ss: Seq<Price>, gs: Seq<Price>, p: int)
    requires
        0 <= i < xs.len(),
        strikes_of(spec, xs, i, now, e, old_ss),
        usable(spec, xs[i], now) && expiry_of(xs[i]) == e,
        0 <= p <= old_ss.len(),
        forall|a: int| 0 <= a < p ==> (#[trigger] old_ss[a]).raw < strike_raw(xs[i]),
        p < old_ss.len() ==> old_ss[p].raw > strike_raw(xs[i]),
        gs.len() == old_ss.len() + 1,
        forall|a: int| 0 <= a < p ==> gs[a] == old_ss[a],
        forall|a: int| p < a < gs.len() ==> gs[a] == old_ss[a - 1],
        gs[p].raw == strike_raw(xs[i]),
        gs[p].text@ == xs[i].strike->0.text@,
    ensures
        strikes_of(spec, xs, i + 1, now, e, gs),
{
    reveal(strikes_of);
    let r = strike_raw(xs[i]);
    assert forall|a: int| 0 <= a < old_ss.len() implies (#[trigger] old_ss[a]).raw != r by {
        if a > p {
            assert(old_ss[p].raw < old_ss[a].raw);
        }
    }
    assert forall|j: int| 0 <= j < i implies !at_strike(spec, #[trigger] xs[j], now, e, r) by {
        if at_strike(spec, xs[j], now, e, r) {
            let k = choose|k: int| 0 <= k < old_ss.len() && (#[trigger] old_ss[k]).raw == strike_raw(xs[j]);
            assert(old_ss[k].raw != r);
        }
    }
    assert forall|a: int, b: int| 0 <= a < b < gs.len() implies (#[trigger] gs[a]).raw < (#[trigger] gs[b]).raw by {
        if b < p {
        } else if b == p {
        } else if a < p {
            assert(gs[b] == old_ss[b - 1]);
            if b - 1 > p {
                assert(old_ss[p].raw < old_ss[b - 1].raw);
            }
        } else if a == p {
            assert(gs[b] == old_ss[b - 1]);
            if b - 1 > p {
                assert(old_ss[p].raw < old_ss[b - 1].raw);
            }
        } else {
            assert(gs[a] == old_ss[a - 1]);
            assert(gs[b] == old_ss[b - 1]);
        }
    }
    assert forall|i2: int| 0 <= i2 < i + 1 && usable(spec, #[trigger] xs[i2], now) && expiry_of(xs[i2]) == e
        implies exists|k: int| 0 <= k < gs.len() && (#[trigger] gs[k]).raw == strike_raw(xs[i2]) by {
        if i2 == i {
            assert(gs[p].raw == strike_raw(xs[i2]));
        } else {
            let k = choose|k: int| 0 <= k < old_ss.len() && (#[trigger] old_ss[k]).raw == strike_raw(xs[i2]);
            if k < p {
                assert(gs[k] == old_ss[k]);
            } else {
                assert(gs[k + 1] == old_ss[k]);
            }
        }
    }
    assert forall|k: int| 0 <= k < gs.len() implies #[trigger] has_first_witness(spec, xs, i + 1, now, e, gs[k]) by {
        if k == p {
            assert(is_first_at(spec, xs, now, e, i, gs[k].raw));
        } else {
            let ko = if k < p { k } else { k - 1 };
            assert(gs[k] == old_ss[ko]);
            lemma_witness_extends(spec, xs, i, now, e, old_ss[ko]);
        }
    }
}

/// Distinct strikes of expiry `e`, ascending.
fn collect_strikes(spec: &OptionUniverseSpec, xs: &Vec<InstrumentInfo>, now: u64, e: u64) -> (ss: Vec<Price>)
    ensures
        strikes_of(*spec, xs@, xs@.len() as int, now, e, ss@),
{
    let mut ss: Vec<Price> = Vec::new();
    let mut i: usize = 0;
    proof {
        reveal(strikes_of);
    }
    while i < xs.len()
        invariant
            i <= xs@.len(),
            strikes_of(*spec, xs@, i as int, now, e, ss@),
        decreases xs@.len() - i,
    {
        let x = &xs[i];
        if is_usable(spec, x, now) && x.expiration_ns == Some(e) {
            let strike = match &x.strike {
                Some(p) => p,
                None => {
                    assert(false);
                    return ss;
                },
            };
            let r = strike.raw;
            let mut p: usize = 0;
            while p < ss.len() && ss[p].raw < r
                invariant
                    p <= ss@.len(),
                    forall|a: int| 0 <= a < p ==> (#[trigger] ss@[a]).raw < r,
                decreases ss@.len() - p,
            {
                p = p + 1;
            }
            if p < ss.len() && ss[p].raw == r {
                proof {
                    lemma_strikes_present(*spec, xs@, i as int, now, e, ss@, p as int);
                }
            } else {
                let ghost old_ss = ss@;
                let c = strike.copy();
                ss.insert(p, c);
                proof {
                    assert(ss@ == old_ss.insert(p as int, c));
                    lemma_strikes_insert(*spec, xs@, i as int, now, e, old_ss, ss@, p as int);
                }
            }
        } else {
            proof {
                lemma_strikes_skip(*spec, xs@, i as int, now, e, ss@);
            }
        }
        i = i + 1;
    }
    ss
}

/// The last option of `kind` at expiry `e` and strike `r`.
fn find_last_of_kind(spec: &OptionUniverseSpec, xs: &Vec<InstrumentInfo>, now: u64, e: u64, r: i64, kind: OptionKind) -> (id: Option<InstrumentId>)
    ensures
        opt_id(id) == last_of_kind(*spec, xs@, now, e, r, kind),
{
    let mut i: usize = xs.len();
    assert(xs@.take(xs@.len() as int) =~= xs@);
    while i > 0
        invariant
            i <= xs@.len(),
            last_of_kind(*spec, xs@, now, e, r, kind) == last_of_kind(*spec, xs@.take(i as int), now, e, r, kind),
        decreases i,
    {
        let x = &xs[i - 1];
        proof {
            let t = xs@.take(i as int);
            assert(t.drop_last() =~= xs@.take(i - 1));
            assert(t.last() == xs@[i - 1]);
        }
        if is_usable(spec, x, now) && x.expiration_ns == Some(e) {
            let matches_strike = match &x.strike {
                Some(p) => p.raw == r,
                None => false,
            };
            if matches_strike && x.option_kind == Some(kind) {
                return Some(x.instrument_id.copy());
            }
        }
        i = i - 1;
    }
    None
}


/// Some option of `xs` is usable.
pub open spec fn any_usable(spec: OptionUniverseSpec, xs: Seq<InstrumentInfo>, now: u64) -> bool {
    exists|i: int| 0 <= i < xs.len() && usable(spec, #[trigger] xs[i], now)
}

/// Some option of `xs` is within the expiry horizon.
pub open spec fn any_in_window(spec: OptionUniverseSpec, xs: Seq<InstrumentInfo>, now: u64) -> bool {
    exists|i: int| 0 <= i < xs.len() && in_window(spec, #[trigger] xs[i], now)
}

fn has_usable(spec: &OptionUniverseSpec, xs: &Vec<InstrumentInfo>, now: u64) -> (r: bool)
    ensures
        r == any_usable(*spec, xs@, now),
{
    let mut i: usize = 0;
    while i < xs.len()
        invariant
            i <= xs@.len(),
            forall|j: int| 0 <= j < i ==> !usable(*spec, #[trigger] xs@[j], now),
        decreases xs@.len() - i,
    {
        if is_usable(spec, &xs[i], now) {
            return true;
        }
        i = i + 1;
    }
    false
}

/// The nearest expiry within the horizon, if any.
fn select_expiry(spec: &OptionUniverseSpec, xs: &Vec<InstrumentInfo>, now: u64) -> (r: Option<u64>)
    requires
        days_max(*spec) * DAY_NS <= u64::MAX,
    ensures
        r is None <==> !any_in_window(*spec, xs@, now),
        r matches Some(e) ==> is_selected_expiry(*spec, xs@, now, e),
{
    let horizon: u64 = match spec.expiry_policy {
        ExpiryPolicy::Nearest { days_max } => days_max as u64 * DAY_NS,
    };
    let mut best: Option<u64> = None;
    let mut i: usize = 0;
    while i < xs.len()
        invariant
            i <= xs@.len(),
            horizon == days_max(*spec) * DAY_NS,
            best is None <==> forall|j: int| 0 <= j < i ==> !in_window(*spec, #[trigger] xs@[j], now),
            best matches Some(e) ==> (exists|j: int| 0 <= j < i && in_window(*spec, #[trigger] xs@[j], now) && expiry_of(xs@[j]) == e)
                && forall|j: int| 0 <= j < i && in_window(*spec, #[trigger] xs@[j], now) ==> e <= expiry_of(xs@[j]),
        decreases xs@.len() - i,
    {
        let x = &xs[i];
        if is_usable(spec, x, now) {
            let e = match x.expiration_ns {
                Some(e) => e,
                None => {
                    assert(false);
                    0
                },
            };
            if e - now <= horizon {
                let replace = match best {
                    Some(b) => e < b,
                    None => true,
                };
                if replace {
                    best = Some(e);
                }
            }
        }
        i = i + 1;
    }
    best
}

/// The strikes of `ss` that have both a call and a put.
pub open spec fn paired(spec: OptionUniverseSpec, xs: Seq<InstrumentInfo>, now: u64, e: u64, ss: Seq<Price>) -> Seq<Price>
    decreases ss.len(),
{
    if ss.len() == 0 {
        Seq::empty()
    } else {
        let r = paired(spec, xs, now, e, ss.drop_last());
        let p = ss.last();
        if last_of_kind(spec, xs, now, e, p.raw, OptionKind::Call) is Some
            && last_of_kind(spec, xs, now, e, p.raw, OptionKind::Put) is Some {
            r.push(p)
        } else {
            r
        }
    }
}

/// A strike with its call and put.
#[derive(Debug, Clone, PartialEq, Eq)]
pub struct PairedStrike {
    pub strike: Price,
    pub call: InstrumentId,
    pub put: InstrumentId,
}

pub open spec fn paired_prices(ps: Seq<PairedStrike>) -> Seq<(i64, Seq<char>)> {
    ps.map_values(|p: PairedStrike| (p.strike.raw, p.strike.text@))
}

pub open spec fn prices_view(ps: Seq<Price>) -> Seq<(i64, Seq<char>)> {
    ps.map_values(|p: Price| (p.raw, p.text@))
}

/// Each paired strike carries the last call and put of its strike.
pub open spec fn pairs_complete(spec: OptionUniverseSpec, xs: Seq<InstrumentInfo>, now: u64, e: u64, ps: Seq<PairedStrike>) -> bool {
    forall|k: int| 0 <= k < ps.len() ==> last_of_kind(spec, xs, now, e, (#[trigger] ps[k]).strike.raw, OptionKind::Call) == Some(ps[k].call@)
        && last_of_kind(spec, xs, now, e, ps[k].strike.raw, OptionKind::Put) == Some(ps[k].put@)
}

/// The strikes of `ss` with both a call and a put, with those instruments.
fn pair_strikes(spec: &OptionUniverseSpec, xs: &Vec<InstrumentInfo>, now: u64, e: u64, ss: &Vec<Price>) -> (ps: Vec<PairedStrike>)
    ensures
        paired_prices(ps@) == prices_view(paired(*spec, xs@, now, e, ss@)),
        pairs_complete(*spec, xs@, now, e, ps@),
{
    let mut ps: Vec<PairedStrike> = Vec::new();
    let mut k: usize = 0;
    assert(ss@.take(0) =~= Seq::<Price>::empty());
    while k < ss.len()
        invariant
            k <= ss@.len(),
            paired_prices(ps@) == prices_view(paired(*spec, xs@, now, e, ss@.take(k as int))),
            pairs_complete(*spec, xs@, now, e, ps@),
        decreases ss@.len() - k,
    {
        proof {
            let t = ss@.take(k as int + 1);
            assert(t.drop_last() =~= ss@.take(k as int));
            assert(t.last() == ss@[k as int]);
        }
        let call = find_last_of_kind(spec, xs, now, e, ss[k].raw, OptionKind::Call);
        let put = find_last_of_kind(spec, xs, now, e, ss[k].raw, OptionKind::Put);
        match (call, put) {
            (Some(c), Some(p)) => {
                let ghost before = ps@;
                let entry = PairedStrike { strike: ss[k].copy(), call: c, put: p };
                ps.push(entry);
                assert(paired_prices(ps@) =~= paired_prices(before).push((ss@[k as int].raw, ss@[k as int].text@)));
                assert(prices_view(paired(*spec, xs@, now, e, ss@.take(k as int + 1))) =~= prices_view(paired(*spec, xs@, now, e, ss@.take(k as int))).push((ss@[k as int].raw, ss@[k as int].text@)));
            },
            _ => {},
        }
        k = k + 1;
    }
    assert(ss@.take(ss@.len() as int) =~= ss@);
    ps
}

/// Distance of a strike from the reference.
pub open spec fn distance(strike: i64, reference: i64) -> int {
    if strike >= reference { strike - reference } else { reference - strike }
}

/// `k` is the strike nearest the reference; the lower strike wins a tie.
pub open spec fn is_atm_index(rs: Seq<i64>, reference: i64, k: int) -> bool {
    &&& 0 <= k < rs.len()
    &&& forall|j: int| 0 <= j < rs.len() ==> distance(rs[k], reference) < distance(#[trigger] rs[j], reference)
        || (distance(rs[k], reference) == distance(rs[j], reference) && rs[k] <= rs[j])
}

/// Picks from an open-interest ranking (highest first): each paired strike of the ranking,
/// once, until `n` are picked.
pub open spec fn oi_picks(order: Seq<i64>, paired_raws: Seq<i64>, n: nat) -> Seq<i64>
    decreases order.len(),
{
    if order.len() == 0 {
        Seq::empty()
    } else {
        let prev = oi_picks(order.drop_last(), paired_raws, n);
        let x = order.last();
        if paired_raws.contains(x) && !prev.contains(x) && prev.len() < n { prev.push(x) } else { prev }
    }
}

/// Entries of `ps` whose strike is in `keep`, in order.
pub open spec fn keep_strikes(ps: Seq<(i64, Seq<char>)>, keep: Seq<i64>) -> Seq<(i64, Seq<char>)>
    decreases ps.len(),
{
    if ps.len() == 0 {
        Seq::empty()
    } else {
        let r = keep_strikes(ps.drop_last(), keep);
        if keep.contains(ps.last().0) { r.push(ps.last()) } else { r }
    }
}

pub open spec fn strike_raws(ps: Seq<(i64, Seq<char>)>) -> Seq<i64> {
    ps.map_values(|p: (i64, Seq<char>)| p.0)
}


/// The strikes a policy selects from the ascending paired strikes `ps`, with `k` the index
/// of the strike nearest the reference: a window of `strikes_below` below to
/// `strikes_above` above it (clipped to the list); the ranked open-interest picks, in
/// strike order; or all.
pub open spec fn selected_by_policy(policy: StrikePolicy, ps: Seq<(i64, Seq<char>)>, oi_order: Seq<i64>, k: int) -> Seq<(i64, Seq<char>)> {
    match policy {
        StrikePolicy::AtmRelative { strikes_above, strikes_below } => {
            let start = if k >= strikes_below { k - strikes_below } else { 0 };
            let end = if k + strikes_above <= ps.len() - 1 { k + strikes_above } else { ps.len() - 1 };
            ps.subrange(start, end + 1)
        },
        StrikePolicy::OiRanked { top_n } => keep_strikes(ps, oi_picks(oi_order, strike_raws(ps), top_n as nat)),
        StrikePolicy::AllStrikes => ps,
    }
}

/// Of the ascending paired strikes `ps`, with the ATM strike at index `k`, the
/// ATM-relative policy selects the ATM strike together with the
/// `strikes_below` strikes just below it and the `strikes_above` strikes just
/// above it, each side cut short where the list ends: `below` entries
/// precede the ATM strike in the selection and `above` follow it.
pub proof fn lemma_atm_window_around_atm(
    ps: Seq<(i64, Seq<char>)>,
    oi_order: Seq<i64>,
    k: int,
    strikes_above: usize,
    strikes_below: usize,
    below: int,
    above: int,
)
    requires
        0 <= k < ps.len(),
        below == (if strikes_below <= k { strikes_below as int } else { k }),
        above == (if strikes_above <= ps.len() - 1 - k { strikes_above as int } else { ps.len() - 1 - k }),
    ensures
        selected_by_policy(StrikePolicy::AtmRelative { strikes_above, strikes_below }, ps, oi_order, k).len()
            == below + 1 + above,
        forall|j: int| 0 <= j < below + 1 + above ==> #[trigger] selected_by_policy(
            StrikePolicy::AtmRelative { strikes_above, strikes_below }, ps, oi_order, k)[j] == ps[k - below + j],
        selected_by_policy(StrikePolicy::AtmRelative { strikes_above, strikes_below }, ps, oi_order, k)[below] == ps[k],
{
}

impl PairedStrike {
    pub fn copy(&self) -> (p: Self)
        ensures
            p.strike.raw == self.strike.raw,
            p.strike.text@ == self.strike.text@,
            p.call@ == self.call@,
            p.put@ == self.put@,
    {
        PairedStrike { strike: self.strike.copy(), call: self.call.copy(), put: self.put.copy() }
    }
}

fn distance_of(strike: i64, reference: i64) -> (d: i128)
    ensures
        d == distance(strike, reference),
{
    let a = strike as i128;
    let b = reference as i128;
    if a >= b { a - b } else { b - a }
}

/// Index of the strike nearest the reference (the lower one on a tie).
fn atm_index(ps: &Vec<PairedStrike>, reference: i64) -> (k: usize)
    requires
        ps@.len() > 0,
    ensures
        is_atm_index(strike_raws(paired_prices(ps@)), reference, k as int),
{
    let ghost rs = strike_raws(paired_prices(ps@));
    assert(forall|j: int| 0 <= j < ps@.len() ==> #[trigger] rs[j] == ps@[j].strike.raw);
    let mut best: usize = 0;
    let mut best_d = distance_of(ps[0].strike.raw, reference);
    let mut j: usize = 1;
    while j < ps.len()
        invariant
            1 <= j <= ps@.len(),
            best < j,
            rs.len() == ps@.len(),
            forall|q: int| 0 <= q < ps@.len() ==> #[trigger] rs[q] == ps@[q].strike.raw,
            best_d == distance(rs[best as int], reference),
            forall|q: int| 0 <= q < j ==> distance(rs[best as int], reference) < distance(#[trigger] rs[q], reference)
                || (distance(rs[best as int], reference) == distance(rs[q], reference) && rs[best as int] <= rs[q]),
        decreases ps@.len() - j,
    {
        let d = distance_of(ps[j].strike.raw, reference);
        if d < best_d || (d == best_d && ps[j].strike.raw < ps[best].strike.raw) {
            best = j;
            best_d = d;
        }
        j = j + 1;
    }
    best
}

proof fn lemma_keep_step(ps: Seq<(i64, Seq<char>)>, keep: Seq<i64>, k: int)
    requires
        0 <= k < ps.len(),
    ensures
        keep_strikes(ps.take(k + 1), keep) == (if keep.contains(ps[k].0) { keep_strikes(ps.take(k), keep).push(ps[k]) } else { keep_strikes(ps.take(k), keep) }),
{
    assert(ps.take(k + 1).drop_last() =~= ps.take(k));
}

/// Every entry of `out` carries the strike, call and put of some entry of `ps`.
pub open spec fn drawn_from(out: Seq<PairedStrike>, ps: Seq<PairedStrike>) -> bool {
    forall|j: int| 0 <= j < out.len() ==> exists|q: int| 0 <= q < ps.len()
        && (#[trigger] out[j]).strike.raw == ps[q].strike.raw && out[j].call@ == ps[q].call@ && out[j].put@ == ps[q].put@
}

/// Appends a copy of `ps[i]`.
fn push_pair_copy(out: &mut Vec<PairedStrike>, ps: &Vec<PairedStrike>, i: usize)
    requires
        i < ps@.len(),
        drawn_from(old(out)@, ps@),
    ensures
        paired_prices(final(out)@) == paired_prices(old(out)@).push(paired_prices(ps@)[i as int]),
        drawn_from(final(out)@, ps@),
{
    let c = ps[i].copy();
    out.push(c);
    assert(paired_prices(final(out)@) =~= paired_prices(old(out)@).push(paired_prices(ps@)[i as int]));
    assert forall|j: int| 0 <= j < final(out)@.len() implies exists|q: int| 0 <= q < ps@.len()
        && (#[trigger] final(out)@[j]).strike.raw == ps@[q].strike.raw && final(out)@[j].call@ == ps@[q].call@
        && final(out)@[j].put@ == ps@[q].put@ by {
        if j == final(out)@.len() - 1 {
            assert(final(out)@[j] == c);
            assert(c.strike.raw == ps@[i as int].strike.raw);
        } else {
            assert(final(out)@[j] == old(out)@[j]);
        }
    }
}

/// The window of strikes around the one nearest the reference.
fn select_window(ps: &Vec<PairedStrike>, reference: i64, strikes_above: usize, strikes_below: usize) -> (r: (Vec<PairedStrike>, Ghost<int>))
    requires
        ps@.len() > 0,
        forall|k: int| is_atm_index(strike_raws(paired_prices(ps@)), reference, k) ==> k + strikes_above <= usize::MAX,
    ensures
        is_atm_index(strike_raws(paired_prices(ps@)), reference, r.1@),
        paired_prices(r.0@) == selected_by_policy(StrikePolicy::AtmRelative { strikes_above, strikes_below }, paired_prices(ps@), Seq::empty(), r.1@),
        drawn_from(r.0@, ps@),
{
    let ghost pv = paired_prices(ps@);
    let n = ps.len();
    let k = atm_index(ps, reference);
    let start = if k >= strikes_below { k - strikes_below } else { 0 };
    let end = if k + strikes_above <= n - 1 { k + strikes_above } else { n - 1 };
    let mut out: Vec<PairedStrike> = Vec::new();
    let mut i = start;
    assert(pv.subrange(start as int, start as int) =~= Seq::<(i64, Seq<char>)>::empty());
    while i <= end
        invariant
            n == ps@.len(),
            start <= i <= end + 1,
            end < n,
            pv == paired_prices(ps@),
            paired_prices(out@) == pv.subrange(start as int, i as int),
            drawn_from(out@, ps@),
        decreases end + 1 - i,
    {
        push_pair_copy(&mut out, ps, i);
        assert(paired_prices(out@) =~= pv.subrange(start as int, i as int + 1));
        i = i + 1;
    }
    (out, Ghost(k as int))
}

/// Whether `x` occurs in `v`.
fn contains_i64(v: &Vec<i64>, x: i64) -> (r: bool)
    ensures
        r == v@.contains(x),
{
    let mut i: usize = 0;
    while i < v.len()
        invariant
            i <= v@.len(),
            forall|j: int| 0 <= j < i ==> v@[j] != x,
        decreases v@.len() - i,
    {
        if v[i] == x {
            assert(v@[i as int] == x);
            return true;
        }
        i = i + 1;
    }
    false
}

/// Strikes of `ps` picked from the open-interest ranking, in strike order.
fn select_oi_ranked(ps: &Vec<PairedStrike>, oi_order: &Vec<i64>, top_n: usize) -> (out: Vec<PairedStrike>)
    ensures
        paired_prices(out@) == keep_strikes(paired_prices(ps@), oi_picks(oi_order@, strike_raws(paired_prices(ps@)), top_n as nat)),
        drawn_from(out@, ps@),
{
    let ghost pv = paired_prices(ps@);
    let mut raws: Vec<i64> = Vec::new();
    let mut a: usize = 0;
    while a < ps.len()
        invariant
            a <= ps@.len(),
            pv == paired_prices(ps@),
            raws@ == strike_raws(pv).take(a as int),
        decreases ps@.len() - a,
    {
        raws.push(ps[a].strike.raw);
        assert(raws@ =~= strike_raws(pv).take(a as int + 1));
        a = a + 1;
    }
    assert(strike_raws(pv).take(ps@.len() as int) =~= strike_raws(pv));
    let mut picks: Vec<i64> = Vec::new();
    let mut q: usize = 0;
    assert(oi_order@.take(0) =~= Seq::<i64>::empty());
    while q < oi_order.len()
        invariant
            q <= oi_order@.len(),
            raws@ == strike_raws(pv),
            picks@ == oi_picks(oi_order@.take(q as int), strike_raws(pv), top_n as nat),
            picks@.len() <= top_n,
        decreases oi_order@.len() - q,
    {
        proof {
            let t = oi_order@.take(q as int + 1);
            assert(t.drop_last() =~= oi_order@.take(q as int));
            assert(t.last() == oi_order@[q as int]);
        }
        let x = oi_order[q];
        if contains_i64(&raws, x) && !contains_i64(&picks, x) && picks.len() < top_n {
            picks.push(x);
        }
        q = q + 1;
    }
    assert(oi_order@.take(oi_order@.len() as int) =~= oi_order@);
    let mut out: Vec<PairedStrike> = Vec::new();
    let mut k: usize = 0;
    assert(pv.take(0) =~= Seq::<(i64, Seq<char>)>::empty());
    while k < ps.len()
        invariant
            k <= ps@.len(),
            pv == paired_prices(ps@),
            paired_prices(out@) == keep_strikes(pv.take(k as int), picks@),
            drawn_from(out@, ps@),
        decreases ps@.len() - k,
    {
        proof {
            lemma_keep_step(pv, picks@, k as int);
        }
        if contains_i64(&picks, ps[k].strike.raw) {
            push_pair_copy(&mut out, ps, k);
        }
        k = k + 1;
    }
    assert(pv.take(pv.len() as int) =~= pv);
    out
}

/// Copies of all of `ps`.
fn select_all(ps: &Vec<PairedStrike>) -> (out: Vec<PairedStrike>)
    ensures
        paired_prices(out@) == paired_prices(ps@),
        drawn_from(out@, ps@),
{
    let mut out: Vec<PairedStrike> = Vec::new();
    let mut k: usize = 0;
    while k < ps.len()
        invariant
            k <= ps@.len(),
            paired_prices(out@) == paired_prices(ps@).take(k as int),
            drawn_from(out@, ps@),
        decreases ps@.len() - k,
    {
        push_pair_copy(&mut out, ps, k);
        assert(paired_prices(out@) =~= paired_prices(ps@).take(k as int + 1));
        k = k + 1;
    }
    assert(paired_prices(ps@).take(ps@.len() as int) =~= paired_prices(ps@));
    out
}

/// Strikes of `ps` chosen by the policy.
fn select_strikes(policy: StrikePolicy, ps: &Vec<PairedStrike>, reference: i64, oi_order: &Vec<i64>) -> (r: (Vec<PairedStrike>, Ghost<int>))
    requires
        ps@.len() > 0,
        forall|k: int| is_atm_index(strike_raws(paired_prices(ps@)), reference, k) ==> (match policy {
            StrikePolicy::AtmRelative { strikes_above, .. } => k + strikes_above <= usize::MAX,
            _ => true,
        }),
    ensures
        policy is AtmRelative ==> is_atm_index(strike_raws(paired_prices(ps@)), reference, r.1@),
        paired_prices(r.0@) == selected_by_policy(policy, paired_prices(ps@), oi_order@, r.1@),
        drawn_from(r.0@, ps@),
{
    match policy {
        StrikePolicy::AtmRelative { strikes_above, strikes_below } => select_window(ps, reference, strikes_above, strikes_below),
        StrikePolicy::OiRanked { top_n } => (select_oi_ranked(ps, oi_order, top_n), Ghost(0int)),
        StrikePolicy::AllStrikes => (select_all(ps), Ghost(0int)),
    }
}

/// Call then put of each selected strike.
pub open spec fn legs_of(spec: OptionUniverseSpec, xs: Seq<InstrumentInfo>, now: u64, e: u64, sel: Seq<(i64, Seq<char>)>) -> Seq<(Seq<char>, Seq<char>)>
    decreases sel.len(),
{
    if sel.len() == 0 {
        Seq::empty()
    } else {
        legs_of(spec, xs, now, e, sel.drop_last())
            .push(last_of_kind(spec, xs, now, e, sel.last().0, OptionKind::Call)->0)
            .push(last_of_kind(spec, xs, now, e, sel.last().0, OptionKind::Put)->0)
    }
}

fn legs(spec: &OptionUniverseSpec, xs: &Vec<InstrumentInfo>, now: u64, e: u64, ps: &Vec<PairedStrike>, sel: &Vec<PairedStrike>) -> (ids: Vec<InstrumentId>)
    requires
        pairs_complete(*spec, xs@, now, e, ps@),
        drawn_from(sel@, ps@),
    ensures
        views(ids@) == legs_of(*spec, xs@, now, e, paired_prices(sel@)),
{
    let mut ids: Vec<InstrumentId> = Vec::new();
    let mut k: usize = 0;
    assert(paired_prices(sel@).take(0) =~= Seq::<(i64, Seq<char>)>::empty());
    assert(views(ids@) =~= Seq::<(Seq<char>, Seq<char>)>::empty());
    while k < sel.len()
        invariant
            k <= sel@.len(),
            pairs_complete(*spec, xs@, now, e, ps@),
            drawn_from(sel@, ps@),
            views(ids@) == legs_of(*spec, xs@, now, e, paired_prices(sel@).take(k as int)),
        decreases sel@.len() - k,
    {
        proof {
            let t = paired_prices(sel@).take(k as int + 1);
            assert(t.drop_last() =~= paired_prices(sel@).take(k as int));
            assert(t.last() == (sel@[k as int].strike.raw, sel@[k as int].strike.text@));
            let q = choose|q: int| 0 <= q < ps@.len() && (#[trigger] sel@[k as int]).strike.raw == ps@[q].strike.raw
                && sel@[k as int].call@ == ps@[q].call@ && sel@[k as int].put@ == ps@[q].put@;
            assert(last_of_kind(*spec, xs@, now, e, ps@[q].strike.raw, OptionKind::Call) == Some(ps@[q].call@));
        }
        let ghost before = ids@;
        let c = sel[k].call.copy();
        let p = sel[k].put.copy();
        ids.push(c);
        ids.push(p);
        assert(views(ids@) =~= views(before).push(c@).push(p@));
        k = k + 1;
    }
    assert(paired_prices(sel@).take(sel@.len() as int) =~= paired_prices(sel@));
    ids
}

/// Sorted, duplicate-free identifiers of `ids` and `extra`.
fn sorted_unique_ids(ids: &Vec<InstrumentId>, extra: &Option<InstrumentId>) -> (all: Vec<InstrumentId>)
    ensures
        sorted_ids(views(all@)),
        forall|x| #[trigger] views(all@).contains(x) <==> (views(ids@).contains(x) || opt_id(*extra) == Some(x)),
{
    let mut all: Vec<InstrumentId> = Vec::new();
    assert(views(all@) =~= Seq::<(Seq<char>, Seq<char>)>::empty());
    let mut i: usize = 0;
    while i < ids.len()
        invariant
            i <= ids@.len(),
            sorted_ids(views(all@)),
            forall|x| #[trigger] views(all@).contains(x) <==> views(ids@).take(i as int).contains(x),
        decreases ids@.len() - i,
    {
        crate::plan::insert_sorted_id(&mut all, &ids[i]);
        proof {
            assert forall|x| #[trigger] views(all@).contains(x) <==> views(ids@).take(i as int + 1).contains(x) by {
                let t = views(ids@).take(i as int + 1);
                assert(t =~= views(ids@).take(i as int).push(ids@[i as int]@));
                if t.contains(x) {
                    let q = choose|q: int| 0 <= q < t.len() && t[q] == x;
                    if q < i {
                        assert(views(ids@).take(i as int)[q] == x);
                    }
                }
                if views(ids@).take(i as int).contains(x) {
                    let q = choose|q: int| 0 <= q < i && views(ids@).take(i as int)[q] == x;
                    assert(t[q] == x);
                }
                if x == ids@[i as int]@ {
                    assert(t[i as int] == x);
                }
            }
        }
        i = i + 1;
    }
    assert(views(ids@).take(ids@.len() as int) =~= views(ids@));
    match extra {
        Some(id) => crate::plan::insert_sorted_id(&mut all, id),
        None => {},
    }
    all
}

/// The open-interest ranking as a sequence.
pub open spec fn oi_seq(o: Option<&Vec<i64>>) -> Seq<i64> {
    match o {
        Some(v) => v@,
        None => Seq::empty(),
    }
}

/// For a strike window, the strike nearest the reference plus `strikes_above` fits in
/// `usize`.
pub open spec fn atm_window_fits(spec: OptionUniverseSpec, xs: Seq<InstrumentInfo>, now: u64, reference: i64) -> bool {
    match spec.strike_policy {
        StrikePolicy::AtmRelative { strikes_above, .. } => forall|e: u64, ss: Seq<Price>, k: int|
            #![trigger strikes_of(spec, xs, xs.len() as int, now, e, ss), is_atm_index(strike_raws(prices_view(paired(spec, xs, now, e, ss))), reference, k)]
            is_selected_expiry(spec, xs, now, e) && strikes_of(spec, xs, xs.len() as int, now, e, ss)
            && is_atm_index(strike_raws(prices_view(paired(spec, xs, now, e, ss))), reference, k) ==> k + strikes_above <= usize::MAX,
        _ => true,
    }
}

pub open spec fn opt_id_of(o: Option<InstrumentId>) -> Option<(Seq<char>, Seq<char>)> {
    opt_id(o)
}

/// What a successful resolution holds, given the strikes `ss` of its expiry and the index
/// `k` of the strike nearest the reference.
pub open spec fn resolved_matches(
    spec: OptionUniverseSpec,
    xs: Seq<InstrumentInfo>,
    now: u64,
    atm_reference: Price,
    perp_instrument_id: Option<InstrumentId>,
    oi: Seq<i64>,
    u: ResolvedOptionUniverse,
    ss: Seq<Price>,
    k: int,
) -> bool {
    let e = u.selected_expiry_ns;
    let pv = prices_view(paired(spec, xs, now, e, ss));
    &&& strikes_of(spec, xs, xs.len() as int, now, e, ss)
    &&& pv.len() > 0
    &&& (spec.strike_policy is AtmRelative ==> is_atm_index(strike_raws(pv), atm_reference.raw, k))
    &&& prices_view(u.selected_strikes@) == selected_by_policy(spec.strike_policy, pv, oi, k)
    &&& views(u.option_instrument_ids@) == legs_of(spec, xs, now, e, prices_view(u.selected_strikes@))
}

/// Resolves an option universe at `now` from the instruments known for its venue: the
/// nearest expiry within the horizon, the strikes of that expiry with both a call and a
/// put, the strikes the policy selects (around `atm_reference`, or from
/// `strikes_by_open_interest`, the strikes ranked by open interest, highest first), their
/// calls and puts, and the perpetual when the universe includes it.
pub fn resolve_option_universe(
    spec: &OptionUniverseSpec,
    instruments: &Vec<InstrumentInfo>,
    now: u64,
    atm_reference: Price,
    perp_instrument_id: Option<InstrumentId>,
    strikes_by_open_interest: Option<&Vec<i64>>,
) -> (r: Result<ResolvedOptionUniverse, OptionUniverseResolveError>)
    requires
        days_max(*spec) * DAY_NS <= u64::MAX,
        atm_window_fits(*spec, instruments@, now, atm_reference.raw),
    ensures
        !any_usable(*spec, instruments@, now) ==> r == Err::<ResolvedOptionUniverse, OptionUniverseResolveError>(
            OptionUniverseResolveError::NoMatchingOptions { venue_id: spec.venue_id, underlying: spec.underlying }),
        any_usable(*spec, instruments@, now) && !any_in_window(*spec, instruments@, now) ==> r == Err::<ResolvedOptionUniverse, OptionUniverseResolveError>(
            OptionUniverseResolveError::NoMatchingExpiry { venue_id: spec.venue_id, underlying: spec.underlying }),
        r matches Err(OptionUniverseResolveError::NoStrikePairs { venue_id, underlying }) ==> venue_id == spec.venue_id
            && underlying == spec.underlying && exists|e: u64, ss: Seq<Price>| is_selected_expiry(*spec, instruments@, now, e)
            && #[trigger] strikes_of(*spec, instruments@, instruments@.len() as int, now, e, ss)
            && paired(*spec, instruments@, now, e, ss).len() == 0,
        (spec.strike_policy is OiRanked && strikes_by_open_interest is None) ==> r is Err,
        r matches Err(OptionUniverseResolveError::MissingOpenInterest { venue_id, underlying }) ==> venue_id == spec.venue_id
            && underlying == spec.underlying && spec.strike_policy is OiRanked && strikes_by_open_interest is None
            && any_in_window(*spec, instruments@, now),
        (spec.include_perp && perp_instrument_id is None) ==> r is Err,
        r matches Err(OptionUniverseResolveError::MissingPerpetual { venue_id, underlying }) ==> venue_id == spec.venue_id
            && underlying == spec.underlying && spec.include_perp && perp_instrument_id is None
            && any_in_window(*spec, instruments@, now),
        r matches Err(e) ==> (e is NoMatchingOptions || e is NoMatchingExpiry || e is NoStrikePairs
            || e is MissingOpenInterest || e is MissingPerpetual),
        r matches Ok(u) ==> {
            &&& u.resolved_at_ns == now
            &&& is_selected_expiry(*spec, instruments@, now, u.selected_expiry_ns)
            &&& u.atm_reference.raw == atm_reference.raw && u.atm_reference.text@ == atm_reference.text@
            &&& u.atm_reference_source is None
            &&& exists|ss: Seq<Price>, k: int| #[trigger] resolved_matches(*spec, instruments@, now, atm_reference,
                perp_instrument_id, oi_seq(strikes_by_open_interest), u, ss, k)
            &&& opt_id(u.perp_instrument_id) == (if spec.include_perp { opt_id(perp_instrument_id) } else { None })
            &&& sorted_ids(views(u.all_instrument_ids@))
            &&& forall|x| #[trigger] views(u.all_instrument_ids@).contains(x) <==> (views(u.option_instrument_ids@).contains(x)
                || opt_id(u.perp_instrument_id) == Some(x))
        },
{
    if !has_usable(spec, instruments, now) {
        return Err(OptionUniverseResolveError::NoMatchingOptions { venue_id: spec.venue_id.clone(), underlying: spec.underlying.clone() });
    }
    let e = match select_expiry(spec, instruments, now) {
        Some(e) => e,
        None => {
            return Err(OptionUniverseResolveError::NoMatchingExpiry { venue_id: spec.venue_id.clone(), underlying: spec.underlying.clone() });
        },
    };
    let ss = collect_strikes(spec, instruments, now, e);
    let ps = pair_strikes(spec, instruments, now, e, &ss);
    if ps.len() == 0 {
        assert(paired_prices(ps@).len() == 0);
        assert(prices_view(paired(*spec, instruments@, now, e, ss@)).len() == paired(*spec, instruments@, now, e, ss@).len());
        assert(paired(*spec, instruments@, now, e, ss@).len() == 0);
        return Err(OptionUniverseResolveError::NoStrikePairs { venue_id: spec.venue_id.clone(), underlying: spec.underlying.clone() });
    }
    let empty: Vec<i64> = Vec::new();
    let oi_order: &Vec<i64> = match strikes_by_open_interest {
        Some(v) => v,
        None => {
            if spec.strike_policy.requires_open_interest() {
                return Err(OptionUniverseResolveError::MissingOpenInterest { venue_id: spec.venue_id.clone(), underlying: spec.underlying.clone() });
            }
            &empty
        },
    };
    assert(oi_order@ == oi_seq(strikes_by_open_interest) || !(spec.strike_policy is OiRanked));
    proof {
        assert(strike_raws(paired_prices(ps@)) == strike_raws(prices_view(paired(*spec, instruments@, now, e, ss@))));
    }
    let (sel, k) = select_strikes(spec.strike_policy, &ps, atm_reference.raw, oi_order);
    let option_instrument_ids = legs(spec, instruments, now, e, &ps, &sel);
    let perp: Option<InstrumentId> = if spec.include_perp {
        match perp_instrument_id {
            Some(id) => Some(id),
            None => {
                return Err(OptionUniverseResolveError::MissingPerpetual { venue_id: spec.venue_id.clone(), underlying: spec.underlying.clone() });
            },
        }
    } else {
        None
    };
    let all_instrument_ids = sorted_unique_ids(&option_instrument_ids, &perp);
    let mut selected_strikes: Vec<Price> = Vec::new();
    let mut q: usize = 0;
    while q < sel.len()
        invariant
            q <= sel@.len(),
            prices_view(selected_strikes@) == paired_prices(sel@).take(q as int),
        decreases sel@.len() - q,
    {
        let ghost before = selected_strikes@;
        let c = sel[q].strike.copy();
        selected_strikes.push(c);
        assert(prices_view(selected_strikes@) =~= prices_view(before).push((c.raw, c.text@)));
        assert(paired_prices(sel@)[q as int] == (sel@[q as int].strike.raw, sel@[q as int].strike.text@));
        assert(prices_view(selected_strikes@) =~= paired_prices(sel@).take(q as int + 1));
        q = q + 1;
    }
    assert(paired_prices(sel@).take(sel@.len() as int) =~= paired_prices(sel@));
    let u = ResolvedOptionUniverse {
        resolved_at_ns: now,
        selected_expiry_ns: e,
        atm_reference,
        atm_reference_source: None,
        selected_strikes,
        perp_instrument_id: perp,
        option_instrument_ids,
        all_instrument_ids,
    };
    proof {
        assert(oi_order@ == oi_seq(strikes_by_open_interest) || !(spec.strike_policy is OiRanked));
        assert(resolved_matches(*spec, instruments@, now, u.atm_reference, perp_instrument_id, oi_seq(strikes_by_open_interest), u, ss@, k@));
    }
    Ok(u)
}

/// Identifiers of the usable options of expiry `e`, in order.
pub open spec fn ids_at_expiry(spec: OptionUniverseSpec, xs: Seq<InstrumentInfo>, now: u64, e: u64) -> Seq<(Seq<char>, Seq<char>)>
    decreases xs.len(),
{
    if xs.len() == 0 {
        Seq::empty()
    } else {
        let r = ids_at_expiry(spec, xs.drop_last(), now, e);
        if usable(spec, xs.last(), now) && expiry_of(xs.last()) == e { r.push(xs.last().instrument_id@) } else { r }
    }
}

/// The selected expiry and the usable options of that expiry, in input order.
pub fn option_instrument_ids_at_selected_expiry(spec: &OptionUniverseSpec, instruments: &Vec<InstrumentInfo>, now: u64) -> (r: Result<(u64, Vec<InstrumentId>), OptionUniverseResolveError>)
    requires
        days_max(*spec) * DAY_NS <= u64::MAX,
    ensures
        !any_usable(*spec, instruments@, now) ==> r == Err::<(u64, Vec<InstrumentId>), OptionUniverseResolveError>(
            OptionUniverseResolveError::NoMatchingOptions { venue_id: spec.venue_id, underlying: spec.underlying }),
        any_usable(*spec, instruments@, now) && !any_in_window(*spec, instruments@, now) ==> r == Err::<(u64, Vec<InstrumentId>), OptionUniverseResolveError>(
            OptionUniverseResolveError::NoMatchingExpiry { venue_id: spec.venue_id, underlying: spec.underlying }),
        any_in_window(*spec, instruments@, now) ==> r is Ok,
        r matches Ok((e, ids)) ==> is_selected_expiry(*spec, instruments@, now, e) && views(ids@) == ids_at_expiry(*spec, instruments@, now, e),
{
    if !has_usable(spec, instruments, now) {
        return Err(OptionUniverseResolveError::NoMatchingOptions { venue_id: spec.venue_id.clone(), underlying: spec.underlying.clone() });
    }
    let e = match select_expiry(spec, instruments, now) {
        Some(e) => e,
        None => {
            return Err(OptionUniverseResolveError::NoMatchingExpiry { venue_id: spec.venue_id.clone(), underlying: spec.underlying.clone() });
        },
    };
    let mut ids: Vec<InstrumentId> = Vec::new();
    let mut i: usize = 0;
    assert(instruments@.take(0) =~= Seq::<InstrumentInfo>::empty());
    assert(views(ids@) =~= Seq::<(Seq<char>, Seq<char>)>::empty());
    while i < instruments.len()
        invariant
            i <= instruments@.len(),
            views(ids@) == ids_at_expiry(*spec, instruments@.take(i as int), now, e),
        decreases instruments@.len() - i,
    {
        proof {
            let t = instruments@.take(i as int + 1);
            assert(t.drop_last() =~= instruments@.take(i as int));
            assert(t.last() == instruments@[i as int]);
        }
        let x = &instruments[i];
        if is_usable(spec, x, now) && x.expiration_ns == Some(e) {
            let ghost before = ids@;
            let c = x.instrument_id.copy();
            ids.push(c);
            assert(views(ids@) =~= views(before).push(c@));
        }
        i = i + 1;
    }
    assert(instruments@.take(instruments@.len() as int) =~= instruments@);
    Ok((e, ids))
}

/// The smallest identifier among the usable options of the selected expiry.
pub fn select_nearest_expiry_reference_instrument_id(spec: &OptionUniverseSpec, instruments: &Vec<InstrumentInfo>, now: u64) -> (r: Result<InstrumentId, OptionUniverseResolveError>)
    requires
        days_max(*spec) * DAY_NS <= u64::MAX,
    ensures
        !any_usable(*spec, instruments@, now) ==> r == Err::<InstrumentId, OptionUniverseResolveError>(
            OptionUniverseResolveError::NoMatchingOptions { venue_id: spec.venue_id, underlying: spec.underlying }),
        any_usable(*spec, instruments@, now) && !any_in_window(*spec, instruments@, now) ==> r == Err::<InstrumentId, OptionUniverseResolveError>(
            OptionUniverseResolveError::NoMatchingExpiry { venue_id: spec.venue_id, underlying: spec.underlying }),
        any_in_window(*spec, instruments@, now) ==> r is Ok,
        r matches Ok(id) ==> exists|e: u64| is_selected_expiry(*spec, instruments@, now, e) && {
            let ids = ids_at_expiry(*spec, instruments@, now, e);
            &&& ids.contains(id@)
            &&& forall|j: int| 0 <= j < ids.len() && ids[j] != id@ ==> id_lt(id@, #[trigger] ids[j])
        },
{
    let (e, ids) = match option_instrument_ids_at_selected_expiry(spec, instruments, now) {
        Ok(p) => p,
        Err(err) => {
            return Err(err);
        },
    };
    if ids.len() == 0 {
        proof {
            let w = choose|i: int| 0 <= i < instruments@.len() && in_window(*spec, #[trigger] instruments@[i], now) && expiry_of(instruments@[i]) == e;
            lemma_ids_at_expiry_contains(*spec, instruments@, now, e, w);
        }
        return Err(OptionUniverseResolveError::NoReferenceInstrument { venue_id: spec.venue_id.clone(), underlying: spec.underlying.clone() });
    }
    let mut best: usize = 0;
    let mut j: usize = 1;
    while j < ids.len()
        invariant
            1 <= j <= ids@.len(),
            best < j,
            forall|q: int| 0 <= q < j && views(ids@)[q] != ids@[best as int]@ ==> id_lt(ids@[best as int]@, #[trigger] views(ids@)[q]),
        decreases ids@.len() - j,
    {
        if ids[j].lt(&ids[best]) {
            proof {
                assert forall|q: int| 0 <= q < j + 1 && views(ids@)[q] != ids@[j as int]@ implies id_lt(ids@[j as int]@, #[trigger] views(ids@)[q]) by {
                    if q < j && views(ids@)[q] != ids@[best as int]@ {
                        crate::plan::lemma_id_lt_transitive(ids@[j as int]@, ids@[best as int]@, views(ids@)[q]);
                    }
                }
            }
            best = j;
        } else {
            proof {
                if views(ids@)[j as int] != ids@[best as int]@ {
                    crate::plan::lemma_id_lt_total(views(ids@)[j as int], ids@[best as int]@);
                }
            }
        }
        j = j + 1;
    }
    let id = ids[best].copy();
    assert(views(ids@)[best as int] == id@);
    Ok(id)
}

proof fn lemma_ids_at_expiry_contains(spec: OptionUniverseSpec, xs: Seq<InstrumentInfo>, now: u64, e: u64, i: int)
    requires
        0 <= i < xs.len(),
        usable(spec, xs[i], now) && expiry_of(xs[i]) == e,
    ensures
        ids_at_expiry(spec, xs, now, e).len() > 0,
    decreases xs.len(),
{
    if i < xs.len() - 1 {
        assert(xs.drop_last()[i] == xs[i]);
        lemma_ids_at_expiry_contains(spec, xs.drop_last(), now, e, i);
    }
}

} // verus!
