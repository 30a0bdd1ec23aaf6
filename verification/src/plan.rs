//! Capture plan: which streams of which instruments a capture run records.
use vstd::prelude::*;

use crate::error::CaptureError;
use crate::text::{
    chars_of, lemma_seq_lt_irreflexive, lemma_seq_lt_total, lemma_seq_lt_transitive, push_char,
    push_str, seq_lt, str_eq, str_lt, string_from_chars,
};

verus! {

/// Instrument identifier `SYMBOL.VENUE`.
#[derive(Debug, Clone, PartialEq, Eq, Hash)]
pub struct InstrumentId {
    pub symbol: String,
    pub venue: String,
}

impl View for InstrumentId {
    type V = (Seq<char>, Seq<char>);

    open spec fn view(&self) -> (Seq<char>, Seq<char>) {
        (self.symbol@, self.venue@)
    }
}

/// Identifier order: by symbol, then venue.
pub open spec fn id_lt(a: (Seq<char>, Seq<char>), b: (Seq<char>, Seq<char>)) -> bool {
    seq_lt(a.0, b.0) || (a.0 == b.0 && seq_lt(a.1, b.1))
}

/// `SYMBOL.VENUE`.
pub open spec fn id_text(a: (Seq<char>, Seq<char>)) -> Seq<char> {
    a.0 + seq!['.'] + a.1
}

/// Parse of `SYMBOL.VENUE` at the last `.`: both parts must be non-empty.
pub open spec fn parse_id(s: Seq<char>) -> Option<(Seq<char>, Seq<char>)> {
    if exists|i: int| 0 <= i < s.len() && s[i] == '.' {
        let i = choose|i: int| 0 <= i < s.len() && s[i] == '.' && forall|k: int| i < k < s.len() ==> s[k] != '.';
        if i > 0 && i + 1 < s.len() { Some((s.take(i), s.skip(i + 1))) } else { None }
    } else {
        None
    }
}

pub proof fn lemma_id_lt_irreflexive(a: (Seq<char>, Seq<char>))
    ensures
        !id_lt(a, a),
{
    lemma_seq_lt_irreflexive(a.0);
    lemma_seq_lt_irreflexive(a.1);
}

pub proof fn lemma_id_lt_transitive(a: (Seq<char>, Seq<char>), b: (Seq<char>, Seq<char>), c: (Seq<char>, Seq<char>))
    requires
        id_lt(a, b),
        id_lt(b, c),
    ensures
        id_lt(a, c),
{
    if seq_lt(a.0, b.0) && seq_lt(b.0, c.0) {
        lemma_seq_lt_transitive(a.0, b.0, c.0);
    } else if seq_lt(a.0, b.0) {
    } else if seq_lt(b.0, c.0) {
    } else {
        lemma_seq_lt_transitive(a.1, b.1, c.1);
    }
}

pub proof fn lemma_id_lt_total(a: (Seq<char>, Seq<char>), b: (Seq<char>, Seq<char>))
    requires
        a != b,
    ensures
        id_lt(a, b) || id_lt(b, a),
{
    if a.0 != b.0 {
        lemma_seq_lt_total(a.0, b.0);
    } else {
        assert(a.1 != b.1);
        lemma_seq_lt_total(a.1, b.1);
    }
}

impl InstrumentId {
    pub fn new(symbol: &str, venue: &str) -> (id: Self)
        ensures
            id@ == (symbol@, venue@),
    {
        InstrumentId { symbol: String::from_str(symbol), venue: String::from_str(venue) }
    }

    /// Parses `SYMBOL.VENUE`, splitting at the last `.`.
    pub fn from_str(value: &str) -> (r: Result<Self, CaptureError>)
        ensures
            parse_id(value@) is Some <==> r is Ok,
            r matches Ok(id) ==> Some(id@) == parse_id(value@),
    {
        let cs = chars_of(value);
        let n = cs.len();
        let mut i = n;
        while i > 0 && cs[i - 1] != '.'
            invariant
                n == cs@.len(),
                cs@ == value@,
                i <= n,
                forall|k: int| i <= k < n ==> cs@[k] != '.',
            decreases i,
        {
            i = i - 1;
        }
        if i == 0 {
            return Err(CaptureError::from_str("instrument id needs a SYMBOL.VENUE form"));
        }
        let dot = i - 1;
        proof {
            let j = choose|j: int| 0 <= j < value@.len() && value@[j] == '.' && forall|k: int| j < k < value@.len() ==> value@[k] != '.';
            if j < dot {
                assert(value@[dot as int] == '.');
            }
            if dot < j {
                assert(value@[j] != '.');
            }
            assert(j == dot);
        }
        if dot == 0 || dot + 1 >= n {
            return Err(CaptureError::from_str("instrument id needs a SYMBOL.VENUE form"));
        }
        let symbol = string_from_chars(&cs, 0, dot);
        let venue = string_from_chars(&cs, dot + 1, n);
        assert(cs@.subrange(0, dot as int) =~= value@.take(dot as int));
        assert(cs@.subrange(dot + 1, n as int) =~= value@.skip(dot + 1));
        Ok(InstrumentId { symbol, venue })
    }

    /// `SYMBOL.VENUE` for a value known to be well formed.
    pub fn from(value: &str) -> (id: Self)
        requires
            parse_id(value@) is Some,
        ensures
            Some(id@) == parse_id(value@),
    {
        match InstrumentId::from_str(value) {
            Ok(id) => id,
            Err(_) => {
                assert(false);
                InstrumentId { symbol: String::new(), venue: String::new() }
            },
        }
    }

    /// `SYMBOL.VENUE`.
    pub fn to_string(&self) -> (s: String)
        ensures
            s@ == id_text(self@),
    {
        let mut s = self.symbol.clone();
        push_char(&mut s, '.');
        push_str(&mut s, self.venue.as_str());
        s
    }

    pub fn copy(&self) -> (id: Self)
        ensures
            id@ == self@,
    {
        InstrumentId { symbol: self.symbol.clone(), venue: self.venue.clone() }
    }

    pub fn same(&self, other: &Self) -> (r: bool)
        ensures
            r == (self@ == other@),
    {
        str_eq(self.symbol.as_str(), other.symbol.as_str()) && str_eq(self.venue.as_str(), other.venue.as_str())
    }

    /// Identifier order.
    pub fn lt(&self, other: &Self) -> (r: bool)
        ensures
            r == id_lt(self@, other@),
    {
        if str_lt(self.symbol.as_str(), other.symbol.as_str()) {
            true
        } else if str_eq(self.symbol.as_str(), other.symbol.as_str()) {
            str_lt(self.venue.as_str(), other.venue.as_str())
        } else {
            false
        }
    }
}

/// `Option<String>` by value.
pub open spec fn opt_view(o: Option<String>) -> Option<Seq<char>> {
    match o {
        Some(s) => Some(s@),
        None => None,
    }
}

pub fn opt_string_eq(a: &Option<String>, b: &Option<String>) -> (r: bool)
    ensures
        r == (opt_view(*a) == opt_view(*b)),
{
    match (a, b) {
        (Some(x), Some(y)) => str_eq(x.as_str(), y.as_str()),
        (None, None) => true,
        _ => false,
    }
}

pub fn opt_string_copy(a: &Option<String>) -> (r: Option<String>)
    ensures
        opt_view(r) == opt_view(*a),
{
    match a {
        Some(x) => Some(x.clone()),
        None => None,
    }
}

/// Entries of a capture plan family: comparable and copyable by value.
pub trait PlanEntry: Sized + View {
    fn same_entry(&self, other: &Self) -> (r: bool)
        ensures
            r == (self@ == other@);

    fn copy_entry(&self) -> (r: Self)
        ensures
            r@ == self@;
}

/// Capture of one instrument-scoped stream.
#[derive(Debug, Clone, PartialEq, Eq)]
pub struct InstrumentScopedSpec {
    pub instrument_id: InstrumentId,
}

impl View for InstrumentScopedSpec {
    type V = (Seq<char>, Seq<char>);

    open spec fn view(&self) -> (Seq<char>, Seq<char>) {
        self.instrument_id@
    }
}

impl PlanEntry for InstrumentScopedSpec {
    fn same_entry(&self, other: &Self) -> (r: bool) {
        self.instrument_id.same(&other.instrument_id)
    }

    fn copy_entry(&self) -> (r: Self) {
        InstrumentScopedSpec { instrument_id: self.instrument_id.copy() }
    }
}
pub type InstrumentCaptureSpec = InstrumentScopedSpec;
pub type QuoteCaptureSpec = InstrumentScopedSpec;
pub type TradeCaptureSpec = InstrumentScopedSpec;
pub type MarkPriceCaptureSpec = InstrumentScopedSpec;
pub type IndexPriceCaptureSpec = InstrumentScopedSpec;
pub type FundingRateCaptureSpec = InstrumentScopedSpec;
pub type InstrumentStatusCaptureSpec = InstrumentScopedSpec;
pub type InstrumentCloseCaptureSpec = InstrumentScopedSpec;
pub type OptionGreeksCaptureSpec = InstrumentScopedSpec;
pub type ForwardPriceCaptureSpec = InstrumentScopedSpec;

/// Bar stream identity, in its canonical text form.
#[derive(Debug, Clone, PartialEq, Eq)]
pub struct BarType {
    pub text: String,
}

impl BarType {
    pub fn new(text: &str) -> (b: Self)
        ensures
            b.text@ == text@,
    {
        BarType { text: String::from_str(text) }
    }
}

#[derive(Debug, Clone, PartialEq, Eq)]
pub struct BarCaptureSpec {
    pub bar_type: BarType,
}

impl View for BarCaptureSpec {
    type V = Seq<char>;

    open spec fn view(&self) -> Seq<char> {
        self.bar_type.text@
    }
}

impl PlanEntry for BarCaptureSpec {
    fn same_entry(&self, other: &Self) -> (r: bool) {
        str_eq(self.bar_type.text.as_str(), other.bar_type.text.as_str())
    }

    fn copy_entry(&self) -> (r: Self) {
        BarCaptureSpec { bar_type: BarType { text: self.bar_type.text.clone() } }
    }
}

/// Order book depth of a book-delta subscription.
#[allow(non_camel_case_types)]
#[derive(Debug, Clone, Copy, PartialEq, Eq, Structural)]
pub enum BookType {
    L1_MBP,
    L2_MBP,
    L3_MBO,
}

#[derive(Debug, Clone, PartialEq, Eq)]
pub struct BookDeltasCaptureSpec {
    pub instrument_id: InstrumentId,
    pub book_type: BookType,
}

impl View for BookDeltasCaptureSpec {
    type V = ((Seq<char>, Seq<char>), BookType);

    open spec fn view(&self) -> ((Seq<char>, Seq<char>), BookType) {
        (self.instrument_id@, self.book_type)
    }
}

impl PlanEntry for BookDeltasCaptureSpec {
    fn same_entry(&self, other: &Self) -> (r: bool) {
        self.instrument_id.same(&other.instrument_id) && self.book_type == other.book_type
    }

    fn copy_entry(&self) -> (r: Self) {
        BookDeltasCaptureSpec { instrument_id: self.instrument_id.copy(), book_type: self.book_type }
    }
}

/// Custom data stream identity: type name and optional identifier.
#[derive(Debug, Clone, PartialEq, Eq)]
pub struct DataType {
    pub type_label: String,
    pub identifier: Option<String>,
}

impl View for DataType {
    type V = (Seq<char>, Option<Seq<char>>);

    open spec fn view(&self) -> (Seq<char>, Option<Seq<char>>) {
        (self.type_label@, opt_view(self.identifier))
    }
}

impl DataType {
    pub fn new(type_label: &str, identifier: Option<String>) -> (d: Self)
        ensures
            d.type_label@ == type_label@,
            d.identifier == identifier,
    {
        DataType { type_label: String::from_str(type_label), identifier }
    }

    pub fn type_label(&self) -> (s: &str)
        ensures
            s@ == self.type_label@,
    {
        self.type_label.as_str()
    }

    pub fn same(&self, other: &Self) -> (r: bool)
        ensures
            r == (self@ == other@),
    {
        str_eq(self.type_label.as_str(), other.type_label.as_str()) && opt_string_eq(&self.identifier, &other.identifier)
    }

    pub fn copy(&self) -> (d: Self)
        ensures
            d@ == self@,
    {
        DataType { type_label: self.type_label.clone(), identifier: opt_string_copy(&self.identifier) }
    }
}

/// Subscribe-style custom data.
#[derive(Debug, Clone, PartialEq, Eq)]
pub struct CustomDataCaptureSpec {
    pub data_type: DataType,
}

impl View for CustomDataCaptureSpec {
    type V = (Seq<char>, Option<Seq<char>>);

    open spec fn view(&self) -> (Seq<char>, Option<Seq<char>>) {
        self.data_type@
    }
}

impl PlanEntry for CustomDataCaptureSpec {
    fn same_entry(&self, other: &Self) -> (r: bool) {
        self.data_type.same(&other.data_type)
    }

    fn copy_entry(&self) -> (r: Self) {
        CustomDataCaptureSpec { data_type: self.data_type.copy() }
    }
}

/// What a poll tick does while a previous request is still in flight.
#[derive(Debug, Clone, Copy, PartialEq, Eq, Structural)]
pub enum RequestOverlapPolicy {
    /// Skip the tick.
    Skip,
}

impl RequestOverlapPolicy {
    pub fn as_str(self) -> (s: &'static str)
        ensures
            s@ == "skip"@,
    {
        match self {
            RequestOverlapPolicy::Skip => "skip",
        }
    }
}

/// Request-style custom data polled on a timer.
#[derive(Debug, Clone, PartialEq, Eq)]
pub struct CustomDataRequestCaptureSpec {
    pub data_type: DataType,
    /// Poll period in seconds.
    pub interval_secs: u64,
    /// Fire once at start before the first timer wait.
    pub fire_immediately: bool,
    pub overlap_policy: RequestOverlapPolicy,
    /// In-flight timeout before a stuck request may be re-fired.
    pub request_timeout_secs: u64,
    /// Client override (defaults are resolved by type name).
    pub client_id: Option<String>,
}

impl View for CustomDataRequestCaptureSpec {
    type V = ((Seq<char>, Option<Seq<char>>), u64, bool, RequestOverlapPolicy, u64, Option<Seq<char>>);

    open spec fn view(&self) -> Self::V {
        (self.data_type@, self.interval_secs, self.fire_immediately, self.overlap_policy, self.request_timeout_secs, opt_view(self.client_id))
    }
}

impl PlanEntry for CustomDataRequestCaptureSpec {
    fn same_entry(&self, other: &Self) -> (r: bool) {
        self.data_type.same(&other.data_type) && self.interval_secs == other.interval_secs
            && self.fire_immediately == other.fire_immediately && self.overlap_policy == other.overlap_policy
            && self.request_timeout_secs == other.request_timeout_secs && opt_string_eq(&self.client_id, &other.client_id)
    }

    fn copy_entry(&self) -> (r: Self) {
        CustomDataRequestCaptureSpec {
            data_type: self.data_type.copy(),
            interval_secs: self.interval_secs,
            fire_immediately: self.fire_immediately,
            overlap_policy: self.overlap_policy,
            request_timeout_secs: self.request_timeout_secs,
            client_id: opt_string_copy(&self.client_id),
        }
    }
}

/// Hard floor for request poll intervals.
pub const MIN_CUSTOM_DATA_REQUEST_INTERVAL_SECS: u64 = 1;
/// Recommended request poll interval.
pub const DEFAULT_CUSTOM_DATA_REQUEST_INTERVAL_SECS: u64 = 5;
/// In-flight timeout used when none is configured.
pub const DEFAULT_CUSTOM_DATA_REQUEST_TIMEOUT_SECS: u64 = 15;

/// Values of a vector's entries.
pub open spec fn views<T: View>(s: Seq<T>) -> Seq<T::V> {
    s.map_values(|x: T| x@)
}

/// Entries of `l` that do not occur in `r`, in `l`'s order.
pub open spec fn seq_difference<V>(l: Seq<V>, r: Seq<V>) -> Seq<V>
    decreases l.len(),
{
    if l.len() == 0 {
        Seq::empty()
    } else {
        let d = seq_difference(l.drop_last(), r);
        if r.contains(l.last()) { d } else { d.push(l.last()) }
    }
}

/// `target` followed by each entry of `items` not yet present.
pub open spec fn extend_unique_spec<V>(target: Seq<V>, items: Seq<V>) -> Seq<V>
    decreases items.len(),
{
    if items.len() == 0 {
        target
    } else {
        let t = extend_unique_spec(target, items.drop_last());
        if t.contains(items.last()) { t } else { t.push(items.last()) }
    }
}

pub proof fn lemma_views_push<T: View>(s: Seq<T>, x: T)
    ensures
        views(s.push(x)) == views(s).push(x@),
{
    assert(views(s.push(x)) =~= views(s).push(x@));
}

/// True when some entry of `v` equals `x`.
pub fn contains_entry<T: PlanEntry>(v: &Vec<T>, x: &T) -> (r: bool)
    ensures
        r == views(v@).contains(x@),
{
    let mut i: usize = 0;
    while i < v.len()
        invariant
            i <= v@.len(),
            forall|j: int| 0 <= j < i ==> v@[j]@ != x@,
        decreases v@.len() - i,
    {
        if v[i].same_entry(x) {
            assert(views(v@)[i as int] == x@);
            return true;
        }
        i = i + 1;
    }
    proof {
        if views(v@).contains(x@) {
            let j = choose|j: int| 0 <= j < views(v@).len() && views(v@)[j] == x@;
            assert(v@[j]@ == x@);
        }
    }
    false
}

/// Entries of `left` not present in `right`, in `left`'s order.
pub fn capture_spec_difference<T: PlanEntry>(left: &Vec<T>, right: &Vec<T>) -> (r: Vec<T>)
    ensures
        views(r@) == seq_difference(views(left@), views(right@)),
{
    let mut out: Vec<T> = Vec::new();
    let mut i: usize = 0;
    proof {
        assert(views(left@).take(0) =~= Seq::<T::V>::empty());
        assert(views(out@) =~= Seq::<T::V>::empty());
    }
    while i < left.len()
        invariant
            i <= left@.len(),
            views(out@) == seq_difference(views(left@).take(i as int), views(right@)),
        decreases left@.len() - i,
    {
        let ghost before = out@;
        proof {
            let t = views(left@).take(i as int + 1);
            assert(t.drop_last() =~= views(left@).take(i as int));
            assert(t.last() == left@[i as int]@);
        }
        if !contains_entry(right, &left[i]) {
            let c = left[i].copy_entry();
            out.push(c);
            proof {
                lemma_views_push(before, c);
            }
        }
        i = i + 1;
    }
    proof {
        assert(views(left@).take(left@.len() as int) =~= views(left@));
    }
    out
}

/// Appends each entry of `items` that `target` does not hold yet.
pub fn extend_unique<T: PlanEntry>(target: &mut Vec<T>, items: &Vec<T>)
    ensures
        views(final(target)@) == extend_unique_spec(views(old(target)@), views(items@)),
{
    let ghost t0 = views(target@);
    let mut i: usize = 0;
    proof {
        assert(views(items@).take(0) =~= Seq::<T::V>::empty());
    }
    while i < items.len()
        invariant
            i <= items@.len(),
            t0 == views(old(target)@),
            views(target@) == extend_unique_spec(t0, views(items@).take(i as int)),
        decreases items@.len() - i,
    {
        let ghost before = target@;
        proof {
            let t = views(items@).take(i as int + 1);
            assert(t.drop_last() =~= views(items@).take(i as int));
            assert(t.last() == items@[i as int]@);
        }
        if !contains_entry(target, &items[i]) {
            let c = items[i].copy_entry();
            target.push(c);
            proof {
                lemma_views_push(before, c);
            }
        }
        i = i + 1;
    }
    proof {
        assert(views(items@).take(items@.len() as int) =~= views(items@));
    }
}

/// Membership in a difference.
pub proof fn lemma_difference_contains<V>(l: Seq<V>, r: Seq<V>, x: V)
    ensures
        seq_difference(l, r).contains(x) <==> (l.contains(x) && !r.contains(x)),
    decreases l.len(),
{
    if l.len() == 0 {
        assert(!seq_difference(l, r).contains(x));
    } else {
        let p = l.drop_last();
        lemma_difference_contains(p, r, x);
        let d = seq_difference(p, r);
        let full = seq_difference(l, r);
        assert(l =~= p.push(l.last()));
        if r.contains(l.last()) {
            assert(full == d);
        } else {
            assert(full == d.push(l.last()));
        }
        if l.contains(x) && !r.contains(x) {
            let j = choose|j: int| 0 <= j < l.len() && l[j] == x;
            if j < l.len() - 1 {
                assert(p[j] == x);
                assert(p.contains(x));
                let k = choose|k: int| 0 <= k < d.len() && d[k] == x;
                if !r.contains(l.last()) {
                    assert(full[k] == x);
                }
            } else {
                assert(full[d.len() as int] == x);
            }
        }
        if full.contains(x) {
            let j = choose|j: int| 0 <= j < full.len() && full[j] == x;
            if !r.contains(l.last()) && j == d.len() {
                assert(l[l.len() - 1] == x);
            } else {
                assert(d[j] == x);
                assert(d.contains(x));
                let k = choose|k: int| 0 <= k < p.len() && p[k] == x;
                assert(l[k] == x);
            }
        }
    }
}

/// Membership in a unique extension, and the extension keeps `target` as a prefix.
pub proof fn lemma_extend_unique_contains<V>(target: Seq<V>, items: Seq<V>, x: V)
    ensures
        extend_unique_spec(target, items).contains(x) <==> (target.contains(x) || items.contains(x)),
        extend_unique_spec(target, items).len() >= target.len(),
        extend_unique_spec(target, items).take(target.len() as int) == target,
    decreases items.len(),
{
    if items.len() > 0 {
        lemma_extend_unique_contains(target, items.drop_last(), x);
        let t = extend_unique_spec(target, items.drop_last());
        assert(t.push(items.last()).take(target.len() as int) =~= t.take(target.len() as int));
        if items.contains(x) && !target.contains(x) {
            let j = choose|j: int| 0 <= j < items.len() && items[j] == x;
            if j < items.len() - 1 {
                assert(items.drop_last()[j] == x);
            } else if !t.contains(x) {
                assert(t.push(items.last())[t.len() as int] == x);
            }
        }
        if extend_unique_spec(target, items).contains(x) && !t.contains(x) {
            let j = choose|j: int| 0 <= j < extend_unique_spec(target, items).len() && extend_unique_spec(target, items)[j] == x;
            assert(j == t.len());
            assert(items[items.len() - 1] == x);
        }
        if items.drop_last().contains(x) {
            let j = choose|j: int| 0 <= j < items.drop_last().len() && items.drop_last()[j] == x;
            assert(items[j] == x);
        }
        if t.contains(x) {
            let j = choose|j: int| 0 <= j < t.len() && t[j] == x;
            if !t.contains(items.last()) {
                assert(t.push(items.last())[j] == x);
            }
        }
    }
}

/// Which per-family writer runtimes a plan needs.
#[derive(Debug, Clone, Copy, PartialEq, Eq, Structural)]
pub struct CaptureFamilyRuntimeFlags {
    pub instruments: bool,
    /// Subscribe-style custom data.
    pub custom_data: bool,
    /// Request-style custom data; shares the custom data writer with `custom_data`.
    pub custom_data_requests: bool,
    pub quotes: bool,
    pub trades: bool,
    pub bars: bool,
    pub book_deltas: bool,
    pub mark_prices: bool,
    pub index_prices: bool,
    pub funding_rates: bool,
    pub instrument_statuses: bool,
    pub instrument_closes: bool,
    pub option_greeks: bool,
}

/// 1 for `true`, 0 for `false`.
pub open spec fn bool_count(b: bool) -> nat {
    if b { 1 } else { 0 }
}

/// Number of `true` entries.
pub open spec fn count_true(s: Seq<bool>) -> nat
    decreases s.len(),
{
    if s.len() == 0 { 0 } else { count_true(s.drop_last()) + bool_count(s.last()) }
}

impl CaptureFamilyRuntimeFlags {
    /// The twelve worker slots: instruments, the shared custom data writer, then one per
    /// market data family.
    pub open spec fn worker_slots(&self) -> Seq<bool> {
        seq![
            self.instruments,
            self.custom_data || self.custom_data_requests,
            self.quotes,
            self.trades,
            self.bars,
            self.book_deltas,
            self.mark_prices,
            self.index_prices,
            self.funding_rates,
            self.instrument_statuses,
            self.instrument_closes,
            self.option_greeks,
        ]
    }

    pub open spec fn spec_count_enabled(&self) -> nat {
        count_true(self.worker_slots())
    }

    /// Whether a custom data writer is required: subscribe and request payloads share one.
    pub fn needs_custom_data_writer(&self) -> (r: bool)
        ensures
            r == (self.custom_data || self.custom_data_requests),
    {
        self.custom_data || self.custom_data_requests
    }

    /// Number of writer runtimes to start.
    pub fn count_enabled(&self) -> (n: usize)
        ensures
            n == self.spec_count_enabled(),
    {
        let slots: [bool; 12] = [
            self.instruments,
            self.needs_custom_data_writer(),
            self.quotes,
            self.trades,
            self.bars,
            self.book_deltas,
            self.mark_prices,
            self.index_prices,
            self.funding_rates,
            self.instrument_statuses,
            self.instrument_closes,
            self.option_greeks,
        ];
        assert(slots@ =~= self.worker_slots());
        count_enabled_background_workers(slots)
    }
}

impl Default for CaptureFamilyRuntimeFlags {
    fn default() -> (f: Self)
        ensures
            f.worker_slots() == Seq::new(12, |i: int| false),
            !f.custom_data,
            !f.custom_data_requests,
    {
        CaptureFamilyRuntimeFlags {
            instruments: false,
            custom_data: false,
            custom_data_requests: false,
            quotes: false,
            trades: false,
            bars: false,
            book_deltas: false,
            mark_prices: false,
            index_prices: false,
            funding_rates: false,
            instrument_statuses: false,
            instrument_closes: false,
            option_greeks: false,
        }
    }
}

/// Number of enabled worker families.
pub fn count_enabled_background_workers(enabled_families: [bool; 12]) -> (n: usize)
    ensures
        n == count_true(enabled_families@),
        n <= 12,
{
    let mut n: usize = 0;
    let mut i: usize = 0;
    while i < 12
        invariant
            i <= 12,
            enabled_families@.len() == 12,
            n == count_true(enabled_families@.take(i as int)),
            n <= i,
        decreases 12 - i,
    {
        proof {
            assert(enabled_families@.take(i as int + 1).drop_last() =~= enabled_families@.take(i as int));
        }
        if enabled_families[i] {
            n = n + 1;
        }
        i = i + 1;
    }
    assert(enabled_families@.take(12) =~= enabled_families@);
    n
}

/// Streams to capture, per family.
#[derive(Debug, Clone, PartialEq, Eq)]
pub struct CapturePlan {
    pub instruments: Vec<InstrumentCaptureSpec>,
    pub quotes: Vec<QuoteCaptureSpec>,
    pub trades: Vec<TradeCaptureSpec>,
    pub bars: Vec<BarCaptureSpec>,
    pub book_deltas: Vec<BookDeltasCaptureSpec>,
    pub mark_prices: Vec<MarkPriceCaptureSpec>,
    pub index_prices: Vec<IndexPriceCaptureSpec>,
    pub funding_rates: Vec<FundingRateCaptureSpec>,
    pub instrument_statuses: Vec<InstrumentStatusCaptureSpec>,
    pub instrument_closes: Vec<InstrumentCloseCaptureSpec>,
    pub option_greeks: Vec<OptionGreeksCaptureSpec>,
    pub forward_prices: Vec<ForwardPriceCaptureSpec>,
    pub custom_data: Vec<CustomDataCaptureSpec>,
    pub custom_data_requests: Vec<CustomDataRequestCaptureSpec>,
}

impl CapturePlan {
    /// A plan capturing nothing.
    pub fn empty() -> (p: Self)
        ensures
            p.spec_is_empty(),
    {
        CapturePlan {
            instruments: Vec::new(),
            quotes: Vec::new(),
            trades: Vec::new(),
            bars: Vec::new(),
            book_deltas: Vec::new(),
            mark_prices: Vec::new(),
            index_prices: Vec::new(),
            funding_rates: Vec::new(),
            instrument_statuses: Vec::new(),
            instrument_closes: Vec::new(),
            option_greeks: Vec::new(),
            forward_prices: Vec::new(),
            custom_data: Vec::new(),
            custom_data_requests: Vec::new(),
        }
    }

    pub open spec fn spec_is_empty(&self) -> bool {
        self.instruments@.len() == 0
        && self.quotes@.len() == 0
        && self.trades@.len() == 0
        && self.bars@.len() == 0
        && self.book_deltas@.len() == 0
        && self.mark_prices@.len() == 0
        && self.index_prices@.len() == 0
        && self.funding_rates@.len() == 0
        && self.instrument_statuses@.len() == 0
        && self.instrument_closes@.len() == 0
        && self.option_greeks@.len() == 0
        && self.forward_prices@.len() == 0
        && self.custom_data@.len() == 0
        && self.custom_data_requests@.len() == 0
    }

    /// True when no family has an entry.
    pub fn is_empty(&self) -> (r: bool)
        ensures
            r == self.spec_is_empty(),
    {
        self.instruments.len() == 0
            && self.quotes.len() == 0
            && self.trades.len() == 0
            && self.bars.len() == 0
            && self.book_deltas.len() == 0
            && self.mark_prices.len() == 0
            && self.index_prices.len() == 0
            && self.funding_rates.len() == 0
            && self.instrument_statuses.len() == 0
            && self.instrument_closes.len() == 0
            && self.option_greeks.len() == 0
            && self.forward_prices.len() == 0
            && self.custom_data.len() == 0
            && self.custom_data_requests.len() == 0
    }

    /// A copy with equal entries.
    pub fn copy(&self) -> (p: Self)
        ensures
            views(p.instruments@) == views(self.instruments@),
            views(p.quotes@) == views(self.quotes@),
            views(p.trades@) == views(self.trades@),
            views(p.bars@) == views(self.bars@),
            views(p.book_deltas@) == views(self.book_deltas@),
            views(p.mark_prices@) == views(self.mark_prices@),
            views(p.index_prices@) == views(self.index_prices@),
            views(p.funding_rates@) == views(self.funding_rates@),
            views(p.instrument_statuses@) == views(self.instrument_statuses@),
            views(p.instrument_closes@) == views(self.instrument_closes@),
            views(p.option_greeks@) == views(self.option_greeks@),
            views(p.forward_prices@) == views(self.forward_prices@),
            views(p.custom_data@) == views(self.custom_data@),
            views(p.custom_data_requests@) == views(self.custom_data_requests@),
    {
        let mut p = CapturePlan::empty();
        extend_all(&mut p.instruments, &self.instruments);
        extend_all(&mut p.quotes, &self.quotes);
        extend_all(&mut p.trades, &self.trades);
        extend_all(&mut p.bars, &self.bars);
        extend_all(&mut p.book_deltas, &self.book_deltas);
        extend_all(&mut p.mark_prices, &self.mark_prices);
        extend_all(&mut p.index_prices, &self.index_prices);
        extend_all(&mut p.funding_rates, &self.funding_rates);
        extend_all(&mut p.instrument_statuses, &self.instrument_statuses);
        extend_all(&mut p.instrument_closes, &self.instrument_closes);
        extend_all(&mut p.option_greeks, &self.option_greeks);
        extend_all(&mut p.forward_prices, &self.forward_prices);
        extend_all(&mut p.custom_data, &self.custom_data);
        extend_all(&mut p.custom_data_requests, &self.custom_data_requests);
        p
    }
}

impl Default for CapturePlan {
    fn default() -> (p: Self)
        ensures
            p.spec_is_empty(),
    {
        CapturePlan::empty()
    }
}

/// Appends copies of all of `items`.
pub fn extend_all<T: PlanEntry>(target: &mut Vec<T>, items: &Vec<T>)
    ensures
        views(final(target)@) == views(old(target)@) + views(items@),
{
    let ghost t0 = views(target@);
    let mut i: usize = 0;
    while i < items.len()
        invariant
            i <= items@.len(),
            t0 == views(old(target)@),
            views(target@) == t0 + views(items@).take(i as int),
        decreases items@.len() - i,
    {
        let ghost before = target@;
        let c = items[i].copy_entry();
        target.push(c);
        proof {
            lemma_views_push(before, c);
            assert(t0 + views(items@).take(i as int + 1) =~= (t0 + views(items@).take(i as int)).push(items@[i as int]@));
        }
        i = i + 1;
    }
    assert(views(items@).take(items@.len() as int) =~= views(items@));
}

/// Entries present in `left` but not in `right`, compared per capture family.
pub fn capture_plan_difference(left: &CapturePlan, right: &CapturePlan) -> (d: CapturePlan)
    ensures
        views(d.instruments@) == seq_difference(views(left.instruments@), views(right.instruments@)),
        views(d.quotes@) == seq_difference(views(left.quotes@), views(right.quotes@)),
        views(d.trades@) == seq_difference(views(left.trades@), views(right.trades@)),
        views(d.bars@) == seq_difference(views(left.bars@), views(right.bars@)),
        views(d.book_deltas@) == seq_difference(views(left.book_deltas@), views(right.book_deltas@)),
        views(d.mark_prices@) == seq_difference(views(left.mark_prices@), views(right.mark_prices@)),
        views(d.index_prices@) == seq_difference(views(left.index_prices@), views(right.index_prices@)),
        views(d.funding_rates@) == seq_difference(views(left.funding_rates@), views(right.funding_rates@)),
        views(d.instrument_statuses@) == seq_difference(views(left.instrument_statuses@), views(right.instrument_statuses@)),
        views(d.instrument_closes@) == seq_difference(views(left.instrument_closes@), views(right.instrument_closes@)),
        views(d.option_greeks@) == seq_difference(views(left.option_greeks@), views(right.option_greeks@)),
        views(d.forward_prices@) == seq_difference(views(left.forward_prices@), views(right.forward_prices@)),
        views(d.custom_data@) == seq_difference(views(left.custom_data@), views(right.custom_data@)),
        views(d.custom_data_requests@) == seq_difference(views(left.custom_data_requests@), views(right.custom_data_requests@)),
{
    CapturePlan {
        instruments: capture_spec_difference(&left.instruments, &right.instruments),
        quotes: capture_spec_difference(&left.quotes, &right.quotes),
        trades: capture_spec_difference(&left.trades, &right.trades),
        bars: capture_spec_difference(&left.bars, &right.bars),
        book_deltas: capture_spec_difference(&left.book_deltas, &right.book_deltas),
        mark_prices: capture_spec_difference(&left.mark_prices, &right.mark_prices),
        index_prices: capture_spec_difference(&left.index_prices, &right.index_prices),
        funding_rates: capture_spec_difference(&left.funding_rates, &right.funding_rates),
        instrument_statuses: capture_spec_difference(&left.instrument_statuses, &right.instrument_statuses),
        instrument_closes: capture_spec_difference(&left.instrument_closes, &right.instrument_closes),
        option_greeks: capture_spec_difference(&left.option_greeks, &right.option_greeks),
        forward_prices: capture_spec_difference(&left.forward_prices, &right.forward_prices),
        custom_data: capture_spec_difference(&left.custom_data, &right.custom_data),
        custom_data_requests: capture_spec_difference(&left.custom_data_requests, &right.custom_data_requests),
    }
}

/// `base` extended, per family, by the entries of `addition` it does not hold yet.
pub fn merge_capture_plans(base: &CapturePlan, addition: &CapturePlan) -> (m: CapturePlan)
    ensures
        views(m.instruments@) == extend_unique_spec(views(base.instruments@), views(addition.instruments@)),
        views(m.quotes@) == extend_unique_spec(views(base.quotes@), views(addition.quotes@)),
        views(m.trades@) == extend_unique_spec(views(base.trades@), views(addition.trades@)),
        views(m.bars@) == extend_unique_spec(views(base.bars@), views(addition.bars@)),
        views(m.book_deltas@) == extend_unique_spec(views(base.book_deltas@), views(addition.book_deltas@)),
        views(m.mark_prices@) == extend_unique_spec(views(base.mark_prices@), views(addition.mark_prices@)),
        views(m.index_prices@) == extend_unique_spec(views(base.index_prices@), views(addition.index_prices@)),
        views(m.funding_rates@) == extend_unique_spec(views(base.funding_rates@), views(addition.funding_rates@)),
        views(m.instrument_statuses@) == extend_unique_spec(views(base.instrument_statuses@), views(addition.instrument_statuses@)),
        views(m.instrument_closes@) == extend_unique_spec(views(base.instrument_closes@), views(addition.instrument_closes@)),
        views(m.option_greeks@) == extend_unique_spec(views(base.option_greeks@), views(addition.option_greeks@)),
        views(m.forward_prices@) == extend_unique_spec(views(base.forward_prices@), views(addition.forward_prices@)),
        views(m.custom_data@) == extend_unique_spec(views(base.custom_data@), views(addition.custom_data@)),
        views(m.custom_data_requests@) == extend_unique_spec(views(base.custom_data_requests@), views(addition.custom_data_requests@)),
{
    let mut merged = base.copy();
    extend_unique(&mut merged.instruments, &addition.instruments);
    extend_unique(&mut merged.quotes, &addition.quotes);
    extend_unique(&mut merged.trades, &addition.trades);
    extend_unique(&mut merged.bars, &addition.bars);
    extend_unique(&mut merged.book_deltas, &addition.book_deltas);
    extend_unique(&mut merged.mark_prices, &addition.mark_prices);
    extend_unique(&mut merged.index_prices, &addition.index_prices);
    extend_unique(&mut merged.funding_rates, &addition.funding_rates);
    extend_unique(&mut merged.instrument_statuses, &addition.instrument_statuses);
    extend_unique(&mut merged.instrument_closes, &addition.instrument_closes);
    extend_unique(&mut merged.option_greeks, &addition.option_greeks);
    extend_unique(&mut merged.forward_prices, &addition.forward_prices);
    extend_unique(&mut merged.custom_data, &addition.custom_data);
    extend_unique(&mut merged.custom_data_requests, &addition.custom_data_requests);
    merged
}


impl PlanEntry for InstrumentId {
    fn same_entry(&self, other: &Self) -> (r: bool) {
        self.same(other)
    }

    fn copy_entry(&self) -> (r: Self) {
        self.copy()
    }
}

/// Strictly ascending identifiers (hence no duplicates).
pub open spec fn sorted_ids(s: Seq<(Seq<char>, Seq<char>)>) -> bool {
    forall|i: int, j: int| 0 <= i < j < s.len() ==> id_lt(s[i], s[j])
}

/// Identifiers of a book delta family.
pub open spec fn book_ids(s: Seq<BookDeltasCaptureSpec>) -> Seq<(Seq<char>, Seq<char>)> {
    s.map_values(|b: BookDeltasCaptureSpec| b.instrument_id@)
}

/// `x` is the identifier of some entry of an instrument-scoped family of `plan`
/// (bars and custom data are not keyed by an instrument alone).
pub open spec fn plan_mentions_id(plan: CapturePlan, x: (Seq<char>, Seq<char>)) -> bool {
    ||| views(plan.instruments@).contains(x)
    ||| views(plan.quotes@).contains(x)
    ||| views(plan.trades@).contains(x)
    ||| book_ids(plan.book_deltas@).contains(x)
    ||| views(plan.mark_prices@).contains(x)
    ||| views(plan.index_prices@).contains(x)
    ||| views(plan.funding_rates@).contains(x)
    ||| views(plan.instrument_statuses@).contains(x)
    ||| views(plan.instrument_closes@).contains(x)
    ||| views(plan.option_greeks@).contains(x)
    ||| views(plan.forward_prices@).contains(x)
}

/// Number of distinct identifiers referenced by instrument-scoped families of `plan`.
pub open spec fn planned_id_count(plan: CapturePlan) -> nat {
    Set::new(|x: (Seq<char>, Seq<char>)| plan_mentions_id(plan, x)).len()
}

proof fn lemma_sorted_ids_count(plan: CapturePlan, ids: Seq<(Seq<char>, Seq<char>)>)
    requires
        sorted_ids(ids),
        forall|x| #[trigger] ids.contains(x) <==> plan_mentions_id(plan, x),
    ensures
        ids.len() == planned_id_count(plan),
{
    assert(ids.no_duplicates()) by {
        assert forall|i: int, j: int| 0 <= i < ids.len() && 0 <= j < ids.len() && i != j implies ids[i] != ids[j] by {
            if i < j {
                if ids[i] == ids[j] {
                    lemma_id_lt_irreflexive(ids[i]);
                }
            } else {
                if ids[i] == ids[j] {
                    lemma_id_lt_irreflexive(ids[i]);
                }
            }
        }
    }
    ids.unique_seq_to_set();
    assert(ids.to_set() =~= Set::new(|x: (Seq<char>, Seq<char>)| plan_mentions_id(plan, x)));
}

/// Some instrument-scoped family of `plan` has an entry.
pub open spec fn plan_has_instrument_streams(plan: CapturePlan) -> bool {
    ||| plan.instruments@.len() > 0
    ||| plan.quotes@.len() > 0
    ||| plan.trades@.len() > 0
    ||| plan.book_deltas@.len() > 0
    ||| plan.mark_prices@.len() > 0
    ||| plan.index_prices@.len() > 0
    ||| plan.funding_rates@.len() > 0
    ||| plan.instrument_statuses@.len() > 0
    ||| plan.instrument_closes@.len() > 0
    ||| plan.option_greeks@.len() > 0
    ||| plan.forward_prices@.len() > 0
}

proof fn lemma_take_next_contains<V>(s: Seq<V>, i: int, x: V)
    requires
        0 <= i < s.len(),
    ensures
        s.take(i + 1).contains(x) <==> (s.take(i).contains(x) || s[i] == x),
{
    assert(s.take(i + 1) =~= s.take(i).push(s[i]));
    if s.take(i + 1).contains(x) {
        let t = s.take(i + 1);
        let k = choose|k: int| 0 <= k < t.len() && t[k] == x;
        if k < i {
            assert(s.take(i)[k] == x);
        }
    }
    if s.take(i).contains(x) {
        let t = s.take(i);
        let k = choose|k: int| 0 <= k < t.len() && t[k] == x;
        assert(s.take(i + 1)[k] == x);
    }
    if s[i] == x {
        assert(s.take(i + 1)[i] == x);
    }
}

proof fn lemma_views_insert<T: View>(s: Seq<T>, i: int, x: T)
    requires
        0 <= i <= s.len(),
    ensures
        views(s.insert(i, x)) == views(s).insert(i, x@),
{
    assert(views(s.insert(i, x)) =~= views(s).insert(i, x@));
}

/// Adds `id` to a strictly ascending list unless it is already there.
pub fn insert_sorted_id(ids: &mut Vec<InstrumentId>, id: &InstrumentId)
    requires
        sorted_ids(views(old(ids)@)),
    ensures
        sorted_ids(views(final(ids)@)),
        forall|x| #[trigger] views(final(ids)@).contains(x) <==> (views(old(ids)@).contains(x) || x == id@),
{
    let ghost v0 = views(ids@);
    let mut i: usize = 0;
    while i < ids.len() && ids[i].lt(id)
        invariant
            i <= ids@.len(),
            views(ids@) == v0,
            sorted_ids(v0),
            forall|j: int| 0 <= j < i ==> id_lt(#[trigger] v0[j], id@),
        decreases ids@.len() - i,
    {
        i = i + 1;
    }
    if i < ids.len() && ids[i].same(id) {
        assert(v0[i as int] == id@);
        return;
    }
    proof {
        if i < v0.len() {
            assert(!id_lt(v0[i as int], id@));
            assert(v0[i as int] != id@);
            lemma_id_lt_total(v0[i as int], id@);
            assert forall|k: int| i <= k < v0.len() implies id_lt(id@, #[trigger] v0[k]) by {
                if k > i {
                    lemma_id_lt_transitive(id@, v0[i as int], v0[k]);
                }
            }
        }
    }
    let c = id.copy();
    ids.insert(i, c);
    proof {
        lemma_views_insert(old(ids)@, i as int, c);
        let v1 = views(ids@);
        assert(v1 == v0.insert(i as int, id@));
        assert forall|a: int, b: int| 0 <= a < b < v1.len() implies id_lt(v1[a], v1[b]) by {
            if b < i {
            } else if b == i {
            } else if a < i {
                assert(v1[b] == v0[b - 1]);
                assert(id_lt(v0[a], id@));
                lemma_id_lt_transitive(v0[a], id@, v0[b - 1]);
            } else if a == i {
            } else {
                assert(v1[a] == v0[a - 1]);
            }
        }
        assert forall|x| #[trigger] v1.contains(x) <==> (v0.contains(x) || x == id@) by {
            if v1.contains(x) {
                let k = choose|k: int| 0 <= k < v1.len() && v1[k] == x;
                if k < i {
                    assert(v0[k] == x);
                } else if k > i {
                    assert(v0[k - 1] == x);
                }
            }
            if v0.contains(x) {
                let k = choose|k: int| 0 <= k < v0.len() && v0[k] == x;
                if k < i {
                    assert(v1[k] == x);
                } else {
                    assert(v1[k + 1] == x);
                }
            }
            if x == id@ {
                assert(v1[i as int] == x);
            }
        }
    }
}

/// Adds the identifiers of an instrument-scoped family.
fn add_family_ids(ids: &mut Vec<InstrumentId>, family: &Vec<InstrumentScopedSpec>)
    requires
        sorted_ids(views(old(ids)@)),
    ensures
        sorted_ids(views(final(ids)@)),
        forall|x| #[trigger] views(final(ids)@).contains(x) <==> (views(old(ids)@).contains(x) || views(family@).contains(x)),
{
    let ghost v0 = views(ids@);
    let mut i: usize = 0;
    while i < family.len()
        invariant
            i <= family@.len(),
            v0 == views(old(ids)@),
            sorted_ids(views(ids@)),
            forall|x| #[trigger] views(ids@).contains(x) <==> (v0.contains(x) || views(family@).take(i as int).contains(x)),
        decreases family@.len() - i,
    {
        insert_sorted_id(ids, &family[i].instrument_id);
        proof {
            assert forall|x| #[trigger] views(ids@).contains(x) <==> (v0.contains(x) || views(family@).take(i as int + 1).contains(x)) by {
                lemma_take_next_contains(views(family@), i as int, x);
            }
        }
        i = i + 1;
    }
    assert(views(family@).take(family@.len() as int) =~= views(family@));
}

/// Adds the identifiers of a book delta family.
fn add_book_ids(ids: &mut Vec<InstrumentId>, family: &Vec<BookDeltasCaptureSpec>)
    requires
        sorted_ids(views(old(ids)@)),
    ensures
        sorted_ids(views(final(ids)@)),
        forall|x| #[trigger] views(final(ids)@).contains(x) <==> (views(old(ids)@).contains(x) || book_ids(family@).contains(x)),
{
    let ghost v0 = views(ids@);
    let mut i: usize = 0;
    while i < family.len()
        invariant
            i <= family@.len(),
            v0 == views(old(ids)@),
            sorted_ids(views(ids@)),
            forall|x| #[trigger] views(ids@).contains(x) <==> (v0.contains(x) || book_ids(family@).take(i as int).contains(x)),
        decreases family@.len() - i,
    {
        insert_sorted_id(ids, &family[i].instrument_id);
        proof {
            assert forall|x| #[trigger] views(ids@).contains(x) <==> (v0.contains(x) || book_ids(family@).take(i as int + 1).contains(x)) by {
                lemma_take_next_contains(book_ids(family@), i as int, x);
            }
        }
        i = i + 1;
    }
    assert(book_ids(family@).take(family@.len() as int) =~= book_ids(family@));
}

impl CapturePlan {
    /// Every identifier referenced by an instrument-scoped family, ascending and without
    /// duplicates. Bars and custom data are not keyed by an instrument alone and are left out.
    pub fn planned_instrument_ids(&self) -> (ids: Vec<InstrumentId>)
        ensures
            sorted_ids(views(ids@)),
            forall|x| #[trigger] views(ids@).contains(x) <==> plan_mentions_id(*self, x),
            ids@.len() > 0 <==> plan_has_instrument_streams(*self),
            ids@.len() == planned_id_count(*self),
    {
        let mut ids: Vec<InstrumentId> = Vec::new();
        assert(views(ids@) =~= Seq::<(Seq<char>, Seq<char>)>::empty());
        add_family_ids(&mut ids, &self.instruments);
        add_family_ids(&mut ids, &self.quotes);
        add_family_ids(&mut ids, &self.trades);
        add_book_ids(&mut ids, &self.book_deltas);
        add_family_ids(&mut ids, &self.mark_prices);
        add_family_ids(&mut ids, &self.index_prices);
        add_family_ids(&mut ids, &self.funding_rates);
        add_family_ids(&mut ids, &self.instrument_statuses);
        add_family_ids(&mut ids, &self.instrument_closes);
        add_family_ids(&mut ids, &self.option_greeks);
        add_family_ids(&mut ids, &self.forward_prices);
        proof {
            lemma_mentions_iff_streams(*self, views(ids@));
            lemma_sorted_ids_count(*self, views(ids@));
        }
        ids
    }

    /// Writer runtimes the plan needs. `instruments` is set whenever any instrument-scoped
    /// family has an entry; subscribe and request custom data keep separate flags.
    pub fn family_runtime_flags(&self) -> (f: CaptureFamilyRuntimeFlags)
        ensures
            f.instruments == plan_has_instrument_streams(*self),
            f.custom_data == (self.custom_data@.len() > 0),
            f.custom_data_requests == (self.custom_data_requests@.len() > 0),
            f.quotes == (self.quotes@.len() > 0),
            f.trades == (self.trades@.len() > 0),
            f.bars == (self.bars@.len() > 0),
            f.book_deltas == (self.book_deltas@.len() > 0),
            f.mark_prices == (self.mark_prices@.len() > 0),
            f.index_prices == (self.index_prices@.len() > 0),
            f.funding_rates == (self.funding_rates@.len() > 0),
            f.instrument_statuses == (self.instrument_statuses@.len() > 0),
            f.instrument_closes == (self.instrument_closes@.len() > 0),
            f.option_greeks == (self.option_greeks@.len() > 0),
    {
        let ids = self.planned_instrument_ids();
        CaptureFamilyRuntimeFlags {
            instruments: ids.len() > 0,
            custom_data: self.custom_data.len() > 0,
            custom_data_requests: self.custom_data_requests.len() > 0,
            quotes: self.quotes.len() > 0,
            trades: self.trades.len() > 0,
            bars: self.bars.len() > 0,
            book_deltas: self.book_deltas.len() > 0,
            mark_prices: self.mark_prices.len() > 0,
            index_prices: self.index_prices.len() > 0,
            funding_rates: self.funding_rates.len() > 0,
            instrument_statuses: self.instrument_statuses.len() > 0,
            instrument_closes: self.instrument_closes.len() > 0,
            option_greeks: self.option_greeks.len() > 0,
        }
    }

    pub open spec fn spec_runtime_flags(&self) -> CaptureFamilyRuntimeFlags {
        CaptureFamilyRuntimeFlags {
            instruments: plan_has_instrument_streams(*self),
            custom_data: self.custom_data@.len() > 0,
            custom_data_requests: self.custom_data_requests@.len() > 0,
            quotes: self.quotes@.len() > 0,
            trades: self.trades@.len() > 0,
            bars: self.bars@.len() > 0,
            book_deltas: self.book_deltas@.len() > 0,
            mark_prices: self.mark_prices@.len() > 0,
            index_prices: self.index_prices@.len() > 0,
            funding_rates: self.funding_rates@.len() > 0,
            instrument_statuses: self.instrument_statuses@.len() > 0,
            instrument_closes: self.instrument_closes@.len() > 0,
            option_greeks: self.option_greeks@.len() > 0,
        }
    }

    /// Number of writer runtimes the plan needs.
    pub fn enabled_background_worker_count(&self) -> (n: usize)
        ensures
            n == self.spec_runtime_flags().spec_count_enabled(),
    {
        let f = self.family_runtime_flags();
        f.count_enabled()
    }
}

proof fn lemma_seq_nonempty_contains<V>(s: Seq<V>)
    requires
        s.len() > 0,
    ensures
        s.contains(s[0]),
{
}

proof fn lemma_mentions_iff_streams(plan: CapturePlan, ids: Seq<(Seq<char>, Seq<char>)>)
    requires
        forall|x| #[trigger] ids.contains(x) <==> plan_mentions_id(plan, x),
    ensures
        ids.len() > 0 <==> plan_has_instrument_streams(plan),
{
    if ids.len() > 0 {
        assert(ids.contains(ids[0]));
        assert(plan_mentions_id(plan, ids[0]));
    }
    if plan_has_instrument_streams(plan) {
        let x = if plan.instruments@.len() > 0 {
            views(plan.instruments@)[0]
        } else if plan.quotes@.len() > 0 {
            views(plan.quotes@)[0]
        } else if plan.trades@.len() > 0 {
            views(plan.trades@)[0]
        } else if plan.book_deltas@.len() > 0 {
            book_ids(plan.book_deltas@)[0]
        } else if plan.mark_prices@.len() > 0 {
            views(plan.mark_prices@)[0]
        } else if plan.index_prices@.len() > 0 {
            views(plan.index_prices@)[0]
        } else if plan.funding_rates@.len() > 0 {
            views(plan.funding_rates@)[0]
        } else if plan.instrument_statuses@.len() > 0 {
            views(plan.instrument_statuses@)[0]
        } else if plan.instrument_closes@.len() > 0 {
            views(plan.instrument_closes@)[0]
        } else if plan.option_greeks@.len() > 0 {
            views(plan.option_greeks@)[0]
        } else {
            views(plan.forward_prices@)[0]
        };
        if plan.instruments@.len() > 0 {
            lemma_seq_nonempty_contains(views(plan.instruments@));
        } else if plan.quotes@.len() > 0 {
            lemma_seq_nonempty_contains(views(plan.quotes@));
        } else if plan.trades@.len() > 0 {
            lemma_seq_nonempty_contains(views(plan.trades@));
        } else if plan.book_deltas@.len() > 0 {
            lemma_seq_nonempty_contains(book_ids(plan.book_deltas@));
        } else if plan.mark_prices@.len() > 0 {
            lemma_seq_nonempty_contains(views(plan.mark_prices@));
        } else if plan.index_prices@.len() > 0 {
            lemma_seq_nonempty_contains(views(plan.index_prices@));
        } else if plan.funding_rates@.len() > 0 {
            lemma_seq_nonempty_contains(views(plan.funding_rates@));
        } else if plan.instrument_statuses@.len() > 0 {
            lemma_seq_nonempty_contains(views(plan.instrument_statuses@));
        } else if plan.instrument_closes@.len() > 0 {
            lemma_seq_nonempty_contains(views(plan.instrument_closes@));
        } else if plan.option_greeks@.len() > 0 {
            lemma_seq_nonempty_contains(views(plan.option_greeks@));
        } else {
            lemma_seq_nonempty_contains(views(plan.forward_prices@));
        }
        assert(plan_mentions_id(plan, x));
        assert(ids.contains(x));
    }
}

/// Sorted unique identifiers referenced by instrument-scoped families of `plan`.
pub fn plan_instrument_ids(plan: &CapturePlan) -> (ids: Vec<InstrumentId>)
    ensures
        sorted_ids(views(ids@)),
        forall|x| #[trigger] views(ids@).contains(x) <==> plan_mentions_id(*plan, x),
{
    plan.planned_instrument_ids()
}

/// Identifiers of `left` absent from `right`, in `left`'s order.
pub fn instrument_id_difference(left: &Vec<InstrumentId>, right: &Vec<InstrumentId>) -> (d: Vec<InstrumentId>)
    ensures
        views(d@) == seq_difference(views(left@), views(right@)),
{
    capture_spec_difference(left, right)
}


/// Applying a delta: with `add` the entries of `next` missing from `previous` and `remove`
/// the entries of `previous` missing from `next`, an entry is in `next` exactly when it is
/// in `previous` and not removed, or it is added.
pub proof fn lemma_delta_reconstructs_next<V>(previous: Seq<V>, next: Seq<V>, x: V)
    ensures
        next.contains(x) <==> ((previous.contains(x) && !seq_difference(previous, next).contains(x))
            || seq_difference(next, previous).contains(x)),
        !(seq_difference(next, previous).contains(x) && seq_difference(previous, next).contains(x)),
{
    lemma_difference_contains(previous, next, x);
    lemma_difference_contains(next, previous, x);
}

/// Merging in entries that are all present already changes nothing.
pub proof fn lemma_merge_present_is_identity<V>(base: Seq<V>, addition: Seq<V>)
    requires
        forall|x| #[trigger] addition.contains(x) ==> base.contains(x),
    ensures
        extend_unique_spec(base, addition) == base,
    decreases addition.len(),
{
    if addition.len() > 0 {
        assert forall|x| #[trigger] addition.drop_last().contains(x) implies base.contains(x) by {
            let p = addition.drop_last();
            let j = choose|j: int| 0 <= j < p.len() && p[j] == x;
            assert(addition[j] == x);
            assert(addition.contains(x));
        }
        lemma_merge_present_is_identity(base, addition.drop_last());
        assert(addition.contains(addition[addition.len() - 1]));
    }
}

/// A merge holds every entry of both sides, nothing else, and keeps `base` as its prefix.
pub proof fn lemma_merge_membership<V>(base: Seq<V>, addition: Seq<V>, x: V)
    ensures
        extend_unique_spec(base, addition).contains(x) <==> (base.contains(x) || addition.contains(x)),
        extend_unique_spec(base, addition).take(base.len() as int) == base,
{
    lemma_extend_unique_contains(base, addition, x);
}


/// Strings by value.
pub open spec fn strings_view(s: Seq<String>) -> Seq<Seq<char>> {
    s.map_values(|x: String| x@)
}

/// Identifier texts, in order.
pub open spec fn id_texts(ids: Seq<(Seq<char>, Seq<char>)>) -> Seq<Seq<char>> {
    ids.map_values(|id: (Seq<char>, Seq<char>)| id_text(id))
}

pub fn id_strings(ids: &Vec<InstrumentId>) -> (v: Vec<String>)
    ensures
        strings_view(v@) == id_texts(views(ids@)),
{
    let mut v: Vec<String> = Vec::new();
    let mut i: usize = 0;
    while i < ids.len()
        invariant
            i <= ids@.len(),
            strings_view(v@) == id_texts(views(ids@)).take(i as int),
        decreases ids@.len() - i,
    {
        let ghost before = v@;
        let s = ids[i].to_string();
        v.push(s);
        assert(strings_view(v@) =~= strings_view(before).push(s@));
        assert(id_texts(views(ids@))[i as int] == id_text(ids@[i as int]@));
        assert(strings_view(v@) =~= id_texts(views(ids@)).take(i as int + 1));
        i = i + 1;
    }
    assert(id_texts(views(ids@)).take(ids@.len() as int) =~= id_texts(views(ids@)));
    v
}

} // verus!
