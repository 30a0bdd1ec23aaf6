//! Resolution of a HIP-4 outcome market from the venue's outcome metadata:
//! which questions and outcomes match a universe's underlying, period and
//! class, what each candidate market holds, and which one is selected.
use vstd::prelude::*;

use crate::error::CaptureError;
use crate::fields::{description_fields, parse_description_fields, split_on, trim, trimmed, DescriptionFields};
use crate::hip4::{instrument_ids_from_outcomes, opt_text, outcome_ids_text, ResolvedHip4Market};
use crate::plan::strings_view;
use crate::text::{all_digits, chars_of, debug_str, debug_str_text, digits_value, is_digit, push_str, unsigned_text_value};
use crate::utc_time::{utc_timestamp_nanos, utc_wall_clock_ns};

verus! {

/// A question entry of the outcome metadata, as far as it is read: each
/// field is present when the payload holds it with the expected JSON type.
#[derive(Debug, Clone)]
pub struct OutcomeMetaQuestion {
    pub question: Option<u64>,
    pub name: Option<String>,
    pub description: Option<String>,
    /// The `namedOutcomes` array, each element read as an unsigned integer where it is one.
    pub named_outcomes: Option<Vec<Option<u64>>>,
    pub fallback_outcome: Option<u64>,
}

/// An outcome entry of the outcome metadata.
#[derive(Debug, Clone)]
pub struct OutcomeMetaOutcome {
    pub outcome: Option<u64>,
    pub name: Option<String>,
    pub description: Option<String>,
}

/// The outcome metadata: its `questions` and `outcomes` arrays, where present.
#[derive(Debug, Clone)]
pub struct OutcomeMetaPayload {
    pub questions: Option<Vec<OutcomeMetaQuestion>>,
    pub outcomes: Option<Vec<OutcomeMetaOutcome>>,
}

/// Which market to resolve, and the instant to resolve it at.
#[derive(Debug, Clone)]
pub struct ResolveHip4MarketOptions<'a> {
    pub underlying: &'a str,
    pub period: &'a str,
    pub market_class: &'a str,
    pub include_fallback: bool,
    pub now_ns: u64,
}

// ---------------------------------------------------------------------------
// Expiry text

/// Bytes of `c` in UTF-8.
pub open spec fn utf8_width(c: char) -> nat {
    if (c as u32) < 0x80 { 1 } else if (c as u32) < 0x800 { 2 } else if (c as u32) < 0x10000 { 3 } else { 4 }
}

/// Bytes of `s` in UTF-8.
pub open spec fn utf8_len(s: Seq<char>) -> nat
    decreases s.len(),
{
    if s.len() == 0 { 0 } else { utf8_len(s.drop_last()) + utf8_width(s.last()) }
}

/// Byte offset `b` of `s` starts a character (or is its end).
pub open spec fn is_char_boundary(s: Seq<char>, b: nat) -> bool {
    exists|k: int| 0 <= k <= s.len() && #[trigger] utf8_len(s.take(k)) == b
}

/// The byte at offset `b` of `s` is the character `c` (an ASCII character).
pub open spec fn byte_is(s: Seq<char>, b: nat, c: char) -> bool {
    exists|k: int| 0 <= k < s.len() && #[trigger] utf8_len(s.take(k)) == b && s[k] == c
}

pub open spec fn all_ascii(s: Seq<char>) -> bool {
    forall|i: int| 0 <= i < s.len() ==> (#[trigger] s[i] as u32) < 0x80
}

/// Parsing the expiry text `v` slices it at byte offsets that are not
/// character boundaries (and so panics).
pub open spec fn expiry_slicing_panics(v: Seq<char>) -> bool {
    let raw = trim(v);
    &&& raw.len() > 0
    &&& !all_digits(raw)
    &&& utf8_len(raw) == 13
    &&& byte_is(raw, 8, '-')
    &&& !(is_char_boundary(raw, 4) && is_char_boundary(raw, 6) && is_char_boundary(raw, 11))
}

/// Signed integer syntax of `str::parse`: an optional `+` or `-`, then at least one digit.
pub open spec fn signed_text_value(s: Seq<char>) -> Option<int> {
    if s.len() > 0 && s[0] == '-' {
        let body = s.drop_first();
        if body.len() > 0 && all_digits(body) { Some(-(digits_value(body) as int)) } else { None }
    } else {
        match unsigned_text_value(s) {
            Some(v) => Some(v as int),
            None => None,
        }
    }
}

/// Expiry text as nanoseconds: a run of at least 16 digits is nanoseconds, 13
/// digits milliseconds, 10 digits seconds; `YYYYMMDD-HHMM` is a UTC wall-clock
/// minute. Anything else, an out-of-range value or an invalid date gives `None`.
pub open spec fn spec_parse_expiry(v: Seq<char>) -> Option<u64> {
    let raw = trim(v);
    if raw.len() == 0 {
        None
    } else if all_digits(raw) {
        let val = digits_value(raw);
        if raw.len() >= 16 {
            if val <= u64::MAX { Some(val as u64) } else { None }
        } else if raw.len() == 13 {
            Some((val * 1_000_000) as u64)
        } else if raw.len() == 10 {
            Some((val * 1_000_000_000) as u64)
        } else {
            None
        }
    } else if !all_ascii(raw) || raw.len() != 13 || raw[8] != '-' {
        None
    } else {
        match (
            signed_text_value(raw.subrange(0, 4)),
            unsigned_text_value(raw.subrange(4, 6)),
            unsigned_text_value(raw.subrange(6, 8)),
            unsigned_text_value(raw.subrange(9, 11)),
            unsigned_text_value(raw.subrange(11, 13)),
        ) {
            (Some(y), Some(mo), Some(d), Some(h), Some(mi)) => match utc_wall_clock_ns(y, mo as int, d as int, h as int, mi as int) {
                Some(ns) => Some(ns as u64),
                None => None,
            },
            _ => None,
        }
    }
}

proof fn lemma_utf8_len_ascii(s: Seq<char>)
    requires
        all_ascii(s),
    ensures
        utf8_len(s) == s.len(),
    decreases s.len(),
{
    if s.len() > 0 {
        assert(all_ascii(s.drop_last()));
        lemma_utf8_len_ascii(s.drop_last());
        assert((s[s.len() - 1] as u32) < 0x80);
    }
}

/// `10^n`.
pub open spec fn ten_pow(n: nat) -> nat
    decreases n,
{
    if n == 0 { 1 } else { 10 * ten_pow((n - 1) as nat) }
}

proof fn lemma_ten_pow_mono(a: nat, b: nat)
    requires
        a <= b,
    ensures
        ten_pow(a) <= ten_pow(b),
    decreases b,
{
    if a < b {
        lemma_ten_pow_mono(a, (b - 1) as nat);
    }
}

proof fn lemma_digits_value_bound(s: Seq<char>)
    requires
        all_digits(s),
    ensures
        digits_value(s) < ten_pow(s.len()),
    decreases s.len(),
{
    if s.len() > 0 {
        assert(all_digits(s.drop_last()));
        lemma_digits_value_bound(s.drop_last());
        assert(is_digit(s[s.len() - 1]));
        let a = digits_value(s.drop_last());
        let p = ten_pow((s.len() - 1) as nat);
        let d = crate::text::digit_value(s.last());
        assert(a * 10 + d < 10 * p) by (nonlinear_arith)
            requires
                a < p,
                d <= 9,
        ;
    }
}

/// Value of the digits `cs[from..to]`, `None` when the range is empty, holds
/// another character or does not fit a `u64`.
fn digits_in(cs: &Vec<char>, from: usize, to: usize) -> (r: Option<u64>)
    requires
        from <= to <= cs@.len(),
    ensures
        ({
            let body = cs@.subrange(from as int, to as int);
            r == (if body.len() > 0 && all_digits(body) && digits_value(body) <= u64::MAX {
                Some(digits_value(body) as u64)
            } else {
                None::<u64>
            })
        }),
{
    let ghost body = cs@.subrange(from as int, to as int);
    if from == to {
        return None;
    }
    let mut value: u64 = 0;
    let mut i: usize = from;
    while i < to
        invariant
            from <= i <= to <= cs@.len(),
            body == cs@.subrange(from as int, to as int),
            all_digits(body.take(i - from)),
            value == digits_value(body.take(i - from)),
        decreases to - i,
    {
        let c = cs[i];
        proof {
            let t = body.take(i - from + 1);
            assert(t.drop_last() =~= body.take(i - from));
            assert(t.last() == c);
        }
        if !('0' <= c && c <= '9') {
            assert(!is_digit(body[i - from]));
            return None;
        }
        let d: u64 = (c as u32 - '0' as u32) as u64;
        if value > (u64::MAX - d) / 10 {
            proof {
                assert(value * 10 + d > u64::MAX) by (nonlinear_arith)
                    requires
                        value > (u64::MAX - d) / 10,
                        d <= 9,
                ;
                crate::hip4_resolve::lemma_digits_value_prefix(body, i - from + 1);
            }
            return None;
        }
        proof {
            assert(value * 10 + d <= u64::MAX) by (nonlinear_arith)
                requires
                    value <= (u64::MAX - d) / 10,
                    d <= 9,
            ;
        }
        value = value * 10 + d;
        i = i + 1;
        assert(all_digits(body.take(i - from)));
    }
    assert(body.take(to - from) =~= body);
    Some(value)
}

proof fn lemma_digits_value_prefix(s: Seq<char>, i: int)
    requires
        0 <= i <= s.len(),
    ensures
        digits_value(s.take(i)) <= digits_value(s),
    decreases s.len() - i,
{
    if i < s.len() {
        lemma_digits_value_prefix(s, i + 1);
        assert(s.take(i + 1).drop_last() =~= s.take(i));
    } else {
        assert(s.take(i) =~= s);
    }
}

/// `str::parse::<u32>` of `cs[from..to]` (at most four characters).
fn unsigned_in(cs: &Vec<char>, from: usize, to: usize) -> (r: Option<u32>)
    requires
        from <= to <= cs@.len(),
        to - from <= 4,
    ensures
        r matches Some(v) ==> unsigned_text_value(cs@.subrange(from as int, to as int)) == Some(v as nat),
        r is None ==> unsigned_text_value(cs@.subrange(from as int, to as int)) is None,
{
    let ghost s = cs@.subrange(from as int, to as int);
    let start = if from < to && cs[from] == '+' { from + 1 } else { from };
    let ghost body = cs@.subrange(start as int, to as int);
    proof {
        if from < to && cs@[from as int] == '+' {
            assert(body =~= s.drop_first());
        } else {
            assert(body =~= s);
        }
    }
    match digits_in(cs, start, to) {
        Some(v) => {
            proof {
                lemma_digits_value_bound(body);
                lemma_ten_pow_mono(body.len(), 4);
                assert(ten_pow(4) == 10000) by {
                    reveal_with_fuel(ten_pow, 5);
                }
            }
            Some(v as u32)
        },
        None => {
            proof {
                if body.len() > 0 && all_digits(body) {
                    lemma_digits_value_bound(body);
                    lemma_ten_pow_mono(body.len(), 4);
                    assert(ten_pow(4) == 10000) by {
                        reveal_with_fuel(ten_pow, 5);
                    }
                }
            }
            None
        },
    }
}

/// `str::parse::<i32>` of `cs[from..to]` (at most four characters).
fn signed_in(cs: &Vec<char>, from: usize, to: usize) -> (r: Option<i32>)
    requires
        from <= to <= cs@.len(),
        to - from <= 4,
    ensures
        r matches Some(v) ==> signed_text_value(cs@.subrange(from as int, to as int)) == Some(v as int),
        r is None ==> signed_text_value(cs@.subrange(from as int, to as int)) is None,
        r matches Some(v) ==> -9999 <= v <= 9999,
{
    let ghost s = cs@.subrange(from as int, to as int);
    if from < to && cs[from] == '-' {
        let ghost body = cs@.subrange(from + 1, to as int);
        assert(body =~= s.drop_first());
        match digits_in(cs, from + 1, to) {
            Some(v) => {
                proof {
                    lemma_digits_value_bound(body);
                    lemma_ten_pow_mono(body.len(), 4);
                    assert(ten_pow(4) == 10000) by {
                        reveal_with_fuel(ten_pow, 5);
                    }
                }
                Some(-(v as i32))
            },
            None => {
                proof {
                    if body.len() > 0 && all_digits(body) {
                        lemma_digits_value_bound(body);
                        lemma_ten_pow_mono(body.len(), 4);
                        assert(ten_pow(4) == 10000) by {
                            reveal_with_fuel(ten_pow, 5);
                        }
                    }
                }
                None
            },
        }
    } else {
        match unsigned_in(cs, from, to) {
            Some(v) => {
                proof {
                    let body = if s.len() > 0 && s[0] == '+' { s.drop_first() } else { s };
                    lemma_digits_value_bound(body);
                    lemma_ten_pow_mono(body.len(), 4);
                    assert(ten_pow(4) == 10000) by {
                        reveal_with_fuel(ten_pow, 5);
                    }
                }
                Some(v as i32)
            },
            None => None,
        }
    }
}

/// Parses expiry text (see `spec_parse_expiry`).
pub fn parse_expiry_to_ns(value: &str) -> (r: Option<u64>)
    requires
        !expiry_slicing_panics(value@),
    ensures
        r == spec_parse_expiry(value@),
{
    let all = chars_of(value);
    let raw_text = trimmed(&all, 0, all.len());
    assert(all@.subrange(0, all@.len() as int) =~= value@);
    let cs = chars_of(raw_text.as_str());
    let n = cs.len();
    let ghost raw = cs@;
    if n == 0 {
        return None;
    }
    let mut digits = true;
    let mut ascii = true;
    let mut i: usize = 0;
    while i < n
        invariant
            n == cs@.len(),
            i <= n,
            digits == all_digits(cs@.take(i as int)),
            ascii == all_ascii(cs@.take(i as int)),
        decreases n - i,
    {
        let c = cs[i];
        proof {
            let t = cs@.take(i as int + 1);
            assert(t.drop_last() =~= cs@.take(i as int));
            assert(t.last() == c);
            assert(all_digits(t) == (all_digits(cs@.take(i as int)) && is_digit(c)));
            assert(all_ascii(t) == (all_ascii(cs@.take(i as int)) && (c as u32) < 0x80));
        }
        digits = digits && '0' <= c && c <= '9';
        ascii = ascii && (c as u32) < 0x80;
        i = i + 1;
    }
    assert(cs@.take(n as int) =~= raw);
    if digits {
        let parsed = digits_in(&cs, 0, n);
        assert(cs@.subrange(0, n as int) =~= raw);
        if n >= 16 {
            return parsed;
        }
        proof {
            lemma_digits_value_bound(raw);
        }
        if n == 13 {
            proof {
                assert(ten_pow(13) == 10000000000000) by {
                    reveal_with_fuel(ten_pow, 14);
                }
            }
            return match parsed {
                Some(v) => Some(v * 1_000_000),
                None => None,
            };
        }
        if n == 10 {
            proof {
                assert(ten_pow(10) == 10000000000) by {
                    reveal_with_fuel(ten_pow, 11);
                }
            }
            return match parsed {
                Some(v) => Some(v * 1_000_000_000),
                None => None,
            };
        }
        return None;
    }
    if !ascii || n != 13 || cs[8] != '-' {
        return None;
    }
    let year = match signed_in(&cs, 0, 4) {
        Some(v) => v,
        None => { return None; },
    };
    let month = match unsigned_in(&cs, 4, 6) {
        Some(v) => v,
        None => { return None; },
    };
    let day = match unsigned_in(&cs, 6, 8) {
        Some(v) => v,
        None => { return None; },
    };
    let hour = match unsigned_in(&cs, 9, 11) {
        Some(v) => v,
        None => { return None; },
    };
    let minute = match unsigned_in(&cs, 11, 13) {
        Some(v) => v,
        None => { return None; },
    };
    match utc_timestamp_nanos(year, month, day, hour, minute) {
        Some(ns) => Some(ns as u64),
        None => None,
    }
}

// ---------------------------------------------------------------------------
// Decimal texts

/// What `rust_decimal::Decimal::from_str_exact(s).ok()` gives for the text `s`.
pub uninterp spec fn decimal_exact(s: Seq<char>) -> Option<rust_decimal::Decimal>;

/// `rust_decimal::Decimal::from_str_exact` accepts `s`.
pub open spec fn decimal_exact_parses(s: Seq<char>) -> bool {
    decimal_exact(s) is Some
}

/// `rust_decimal::Decimal::from_str_exact(s).ok()`. Claimed: its result is a
/// function of the text alone, named `decimal_exact`.
#[verifier::external_body]
fn decimal_from_str_exact(s: &str) -> (r: Option<rust_decimal::Decimal>)
    ensures
        r == decimal_exact(s@),
{
    rust_decimal::Decimal::from_str_exact(s).ok()
}

/// Field `key` of a description's fields, if present.
pub open spec fn field(fields: Map<Seq<char>, Seq<char>>, key: Seq<char>) -> Option<Seq<char>> {
    if fields.contains_key(key) { Some(fields[key]) } else { None }
}

/// Some start-price key (`targetPrice`, `startPrice`, `startPx`, `strike`,
/// `strikePrice`) holds a decimal.
pub open spec fn start_price_present(fields: Map<Seq<char>, Seq<char>>) -> bool {
    ||| field(fields, "targetPrice"@) matches Some(v) && decimal_exact_parses(v)
    ||| field(fields, "startPrice"@) matches Some(v) && decimal_exact_parses(v)
    ||| field(fields, "startPx"@) matches Some(v) && decimal_exact_parses(v)
    ||| field(fields, "strike"@) matches Some(v) && decimal_exact_parses(v)
    ||| field(fields, "strikePrice"@) matches Some(v) && decimal_exact_parses(v)
}

/// The first start-price key (`targetPrice`, `startPrice`, `startPx`,
/// `strike`, `strikePrice`) holding a decimal, parsed.
pub open spec fn start_price_of(fields: Map<Seq<char>, Seq<char>>) -> Option<rust_decimal::Decimal> {
    let parse = |key: Seq<char>| match field(fields, key) {
        Some(v) => decimal_exact(v),
        None => None,
    };
    if parse("targetPrice"@) is Some {
        parse("targetPrice"@)
    } else if parse("startPrice"@) is Some {
        parse("startPrice"@)
    } else if parse("startPx"@) is Some {
        parse("startPx"@)
    } else if parse("strike"@) is Some {
        parse("strike"@)
    } else {
        parse("strikePrice"@)
    }
}

/// The decimals among the trimmed parts, in order.
pub open spec fn decimal_parts(parts: Seq<Seq<char>>) -> Seq<rust_decimal::Decimal>
    decreases parts.len(),
{
    if parts.len() == 0 {
        Seq::empty()
    } else {
        let rest = decimal_parts(parts.drop_last());
        match decimal_exact(trim(parts.last())) {
            Some(d) => rest.push(d),
            None => rest,
        }
    }
}

/// The price thresholds read from an optional `priceThresholds` value.
pub open spec fn threshold_values(value: Option<Seq<char>>) -> Seq<rust_decimal::Decimal> {
    match value {
        Some(v) => decimal_parts(split_on(v, ',')),
        None => Seq::empty(),
    }
}

/// Number of `,`-separated parts whose trimmed text is a decimal.
pub open spec fn decimal_part_count(parts: Seq<Seq<char>>) -> nat
    decreases parts.len(),
{
    if parts.len() == 0 {
        0
    } else {
        decimal_part_count(parts.drop_last()) + if decimal_exact_parses(trim(parts.last())) { 1nat } else { 0nat }
    }
}

/// Number of price thresholds read from an optional `priceThresholds` value.
pub open spec fn threshold_count(value: Option<Seq<char>>) -> nat {
    match value {
        Some(v) => decimal_part_count(split_on(v, ',')),
        None => 0,
    }
}

fn decimal_field(fields: &DescriptionFields, key: &str) -> (r: Option<rust_decimal::Decimal>)
    requires
        fields.wf(),
    ensures
        (r is Some) == (field(fields.view_map(), key@) matches Some(v) && decimal_exact_parses(v)),
        r == (match field(fields.view_map(), key@) {
            Some(v) => decimal_exact(v),
            None => None,
        }),
{
    match fields.get(key) {
        Some(v) => decimal_from_str_exact(v.as_str()),
        None => None,
    }
}

/// The first start-price key holding a decimal, parsed.
fn resolve_start_price(fields: &DescriptionFields) -> (r: Option<rust_decimal::Decimal>)
    requires
        fields.wf(),
    ensures
        (r is Some) == start_price_present(fields.view_map()),
        r == start_price_of(fields.view_map()),
{
    let a = decimal_field(fields, "targetPrice");
    if a.is_some() {
        return a;
    }
    let b = decimal_field(fields, "startPrice");
    if b.is_some() {
        return b;
    }
    let c = decimal_field(fields, "startPx");
    if c.is_some() {
        return c;
    }
    let d = decimal_field(fields, "strike");
    if d.is_some() {
        return d;
    }
    decimal_field(fields, "strikePrice")
}

/// The decimals among the trimmed `,`-separated parts of `value`, in order.
fn parse_price_thresholds(value: Option<&String>) -> (r: Vec<rust_decimal::Decimal>)
    ensures
        r@.len() == threshold_count(match value { Some(v) => Some(v@), None => None }),
        r@ == threshold_values(match value { Some(v) => Some(v@), None => None }),
{
    let text = match value {
        Some(v) => v,
        None => { return Vec::new(); },
    };
    let cs = chars_of(text.as_str());
    let n = cs.len();
    let mut out: Vec<rust_decimal::Decimal> = Vec::new();
    let mut start: usize = 0;
    let mut i: usize = 0;
    proof {
        assert(cs@.take(0) =~= Seq::<char>::empty());
    }
    while i < n
        invariant
            n == cs@.len(),
            cs@ == text@,
            start <= i <= n,
            ({
                let parts = split_on(cs@.take(i as int), ',');
                &&& parts.len() >= 1
                &&& parts.last() == cs@.subrange(start as int, i as int)
                &&& out@.len() == decimal_part_count(parts.drop_last())
                &&& out@ == decimal_parts(parts.drop_last())
            }),
        decreases n - i,
    {
        let ghost parts = split_on(cs@.take(i as int), ',');
        let nt = i + 1;
        proof {
            let t = cs@.take(nt as int);
            assert(t.drop_last() =~= cs@.take(i as int));
            assert(t.last() == cs@[i as int]);
        }
        if cs[i] == ',' {
            let part = trimmed(&cs, start, i);
            match decimal_from_str_exact(part.as_str()) {
                Some(d) => out.push(d),
                None => {},
            }
            proof {
                let np = split_on(cs@.take(nt as int), ',');
                assert(np == parts.push(Seq::empty()));
                assert(np.drop_last() =~= parts);
                assert(parts.drop_last().push(parts.last()) =~= parts);
                assert(cs@.subrange(nt as int, nt as int) =~= Seq::<char>::empty());
            }
            start = nt;
        } else {
            proof {
                let np = split_on(cs@.take(nt as int), ',');
                assert(np == parts.update(parts.len() - 1, parts.last().push(cs@[i as int])));
                assert(np.last() =~= cs@.subrange(start as int, nt as int));
                assert(np.drop_last() =~= parts.drop_last());
            }
        }
        i = nt;
    }
    let part = trimmed(&cs, start, n);
    match decimal_from_str_exact(part.as_str()) {
        Some(d) => out.push(d),
        None => {},
    }
    proof {
        let parts = split_on(cs@.take(n as int), ',');
        assert(cs@.take(n as int) =~= text@);
        assert(parts.drop_last().push(parts.last()) =~= parts);
    }
    out
}

// ---------------------------------------------------------------------------
// Candidates

/// A description text, empty when absent.
pub open spec fn opt_desc(d: Option<String>) -> Seq<char> {
    match d {
        Some(s) => s@,
        None => Seq::empty(),
    }
}

/// The description's fields name the requested underlying, period and class.
pub open spec fn market_filter_matches(
    fields: Map<Seq<char>, Seq<char>>,
    underlying: Seq<char>,
    period: Seq<char>,
    market_class: Seq<char>,
) -> bool {
    &&& field(fields, "underlying"@) == Some(underlying)
    &&& field(fields, "period"@) == Some(period)
    &&& field(fields, "class"@) == Some(market_class)
}

/// Integer entries of a `namedOutcomes` array, cast to `u32`.
pub open spec fn named_u32(v: Seq<Option<u64>>) -> Seq<u32>
    decreases v.len(),
{
    if v.len() == 0 {
        Seq::empty()
    } else {
        let rest = named_u32(v.drop_last());
        match v.last() {
            Some(x) => rest.push(x as u32),
            None => rest,
        }
    }
}

/// Outcome ids of a question: its named outcomes, then its fallback outcome
/// when requested and present.
pub open spec fn question_outcome_ids(q: OutcomeMetaQuestion, include_fallback: bool) -> Seq<u32> {
    let named = match q.named_outcomes {
        Some(v) => named_u32(v@),
        None => Seq::empty(),
    };
    match q.fallback_outcome {
        Some(f) => if include_fallback { named.push(f as u32) } else { named },
        None => named,
    }
}

/// A question yields a candidate: it has an id, its description matches, and
/// it names at least one outcome.
pub open spec fn question_is_candidate(q: OutcomeMetaQuestion, u: Seq<char>, p: Seq<char>, c: Seq<char>) -> bool {
    &&& q.question is Some
    &&& market_filter_matches(description_fields(opt_desc(q.description)), u, p, c)
    &&& (match q.named_outcomes {
        Some(v) => named_u32(v@).len() > 0,
        None => false,
    })
}

/// An outcome yields a candidate: it has an id and its description matches.
pub open spec fn outcome_is_candidate(o: OutcomeMetaOutcome, u: Seq<char>, p: Seq<char>, c: Seq<char>) -> bool {
    &&& o.outcome is Some
    &&& market_filter_matches(description_fields(opt_desc(o.description)), u, p, c)
}

pub open spec fn matching_questions(qs: Seq<OutcomeMetaQuestion>, u: Seq<char>, p: Seq<char>, c: Seq<char>) -> Seq<OutcomeMetaQuestion>
    decreases qs.len(),
{
    if qs.len() == 0 {
        Seq::empty()
    } else {
        let rest = matching_questions(qs.drop_last(), u, p, c);
        if question_is_candidate(qs.last(), u, p, c) { rest.push(qs.last()) } else { rest }
    }
}

pub open spec fn matching_outcomes(os: Seq<OutcomeMetaOutcome>, u: Seq<char>, p: Seq<char>, c: Seq<char>) -> Seq<OutcomeMetaOutcome>
    decreases os.len(),
{
    if os.len() == 0 {
        Seq::empty()
    } else {
        let rest = matching_outcomes(os.drop_last(), u, p, c);
        if outcome_is_candidate(os.last(), u, p, c) { rest.push(os.last()) } else { rest }
    }
}

/// Expiry text of a description's fields (empty when absent).
pub open spec fn expiry_text(fields: Map<Seq<char>, Seq<char>>) -> Seq<char> {
    match field(fields, "expiry"@) {
        Some(v) => v,
        None => Seq::empty(),
    }
}

/// `m` is the market built from entry id `id`, description `desc`, outcome ids
/// and name: its class, underlying and period come from the description's
/// fields, its expiration from the `expiry` field (0 when absent or invalid).
pub open spec fn market_from(
    m: ResolvedHip4Market,
    id: u32,
    desc: Seq<char>,
    outcome_ids: Seq<u32>,
    name: Option<String>,
) -> bool {
    let f = description_fields(desc);
    &&& m.question_id == id
    &&& opt_text(m.question_name) == opt_text(name)
    &&& opt_text(m.market_class) == field(f, "class"@)
    &&& opt_text(m.underlying) == field(f, "underlying"@)
    &&& opt_text(m.period) == field(f, "period"@)
    &&& m.outcome_ids@ == outcome_ids
    &&& strings_view(m.instrument_ids@) == outcome_ids_text(outcome_ids)
    &&& m.expiration_ns == (match spec_parse_expiry(expiry_text(f)) {
        Some(ns) => ns,
        None => 0,
    })
    &&& (m.start_price is Some) == start_price_present(f)
    &&& m.start_price == start_price_of(f)
    &&& m.price_thresholds@.len() == threshold_count(field(f, "priceThresholds"@))
    &&& m.price_thresholds@ == threshold_values(field(f, "priceThresholds"@))
    &&& m.description@ == desc
}

/// Parsing the payload's matching entries does not panic.
pub open spec fn payload_parse_safe(payload: OutcomeMetaPayload, u: Seq<char>, p: Seq<char>, c: Seq<char>) -> bool {
    &&& (payload.questions matches Some(qs) ==> forall|k: int| 0 <= k < matching_questions(qs@, u, p, c).len()
        ==> !expiry_slicing_panics(expiry_text(description_fields(opt_desc(#[trigger] matching_questions(qs@, u, p, c)[k].description)))))
    &&& (payload.outcomes matches Some(os) ==> forall|k: int| 0 <= k < matching_outcomes(os@, u, p, c).len()
        ==> !expiry_slicing_panics(expiry_text(description_fields(opt_desc(#[trigger] matching_outcomes(os@, u, p, c)[k].description)))))
}

/// `ms` are the candidates of `payload`: one per matching question, then one
/// per matching outcome, in payload order.
pub open spec fn candidates_of(
    ms: Seq<ResolvedHip4Market>,
    payload: OutcomeMetaPayload,
    u: Seq<char>,
    p: Seq<char>,
    c: Seq<char>,
    include_fallback: bool,
) -> bool {
    let qs = match payload.questions {
        Some(v) => matching_questions(v@, u, p, c),
        None => Seq::empty(),
    };
    let os = match payload.outcomes {
        Some(v) => matching_outcomes(v@, u, p, c),
        None => Seq::empty(),
    };
    &&& ms.len() == qs.len() + os.len()
    &&& forall|k: int| 0 <= k < qs.len() ==> market_from(#[trigger] ms[k], qs[k].question->0 as u32,
        opt_desc(qs[k].description), question_outcome_ids(qs[k], include_fallback), qs[k].name)
    &&& forall|k: int| 0 <= k < os.len() ==> market_from(#[trigger] ms[qs.len() + k], os[k].outcome->0 as u32,
        opt_desc(os[k].description), seq![os[k].outcome->0 as u32], os[k].name)
}

fn copy_opt_string(o: &Option<String>) -> (r: Option<String>)
    ensures
        opt_text(r) == opt_text(*o),
{
    match o {
        Some(s) => Some(s.clone()),
        None => None,
    }
}

fn field_string(fields: &DescriptionFields, key: &str) -> (r: Option<String>)
    requires
        fields.wf(),
    ensures
        opt_text(r) == field(fields.view_map(), key@),
{
    match fields.get(key) {
        Some(v) => Some(v.clone()),
        None => None,
    }
}

/// Builds the candidate market of one entry.
fn build_resolved_hip4_market(
    question_id: u32,
    description: String,
    fields: &DescriptionFields,
    outcome_ids: Vec<u32>,
    question_name: Option<String>,
) -> (m: ResolvedHip4Market)
    requires
        fields.wf(),
        fields.view_map() == description_fields(description@),
        !expiry_slicing_panics(expiry_text(description_fields(description@))),
    ensures
        market_from(m, question_id, description@, outcome_ids@, question_name),
{
    let instrument_ids = instrument_ids_from_outcomes(outcome_ids.as_slice());
    proof {
        reveal_strlit("");
        assert(""@ =~= Seq::<char>::empty());
    }
    let expiry = match fields.get("expiry") {
        Some(v) => parse_expiry_to_ns(v.as_str()),
        None => parse_expiry_to_ns(""),
    };
    let start_price = resolve_start_price(fields);
    let thresholds = parse_price_thresholds(fields.get("priceThresholds"));
    ResolvedHip4Market {
        question_id,
        question_name: copy_opt_string(&question_name),
        market_class: field_string(fields, "class"),
        underlying: field_string(fields, "underlying"),
        period: field_string(fields, "period"),
        outcome_ids,
        instrument_ids,
        expiration_ns: match expiry {
            Some(ns) => ns,
            None => 0,
        },
        start_price,
        price_thresholds: thresholds,
        description,
    }
}

fn str_is(a: &Option<&String>, b: &str) -> (r: bool)
    ensures
        r == (a matches Some(s) && s@ == b@),
{
    match a {
        Some(s) => crate::text::str_eq(s.as_str(), b),
        None => false,
    }
}

fn filter_matches(fields: &DescriptionFields, options: &ResolveHip4MarketOptions) -> (r: bool)
    requires
        fields.wf(),
    ensures
        r == market_filter_matches(fields.view_map(), options.underlying@, options.period@, options.market_class@),
{
    str_is(&fields.get("underlying"), options.underlying) && str_is(&fields.get("period"), options.period)
        && str_is(&fields.get("class"), options.market_class)
}

fn description_of(d: &Option<String>) -> (r: String)
    ensures
        r@ == opt_desc(*d),
{
    match d {
        Some(s) => s.clone(),
        None => String::new(),
    }
}

fn named_outcome_ids(v: &Option<Vec<Option<u64>>>) -> (r: Vec<u32>)
    ensures
        r@ == (match *v {
            Some(items) => named_u32(items@),
            None => Seq::empty(),
        }),
{
    let mut r: Vec<u32> = Vec::new();
    match v {
        Some(items) => {
            let mut i: usize = 0;
            assert(items@.take(0) =~= Seq::<Option<u64>>::empty());
            while i < items.len()
                invariant
                    i <= items@.len(),
                    r@ == named_u32(items@.take(i as int)),
                decreases items@.len() - i,
            {
                proof {
                    let t = items@.take(i as int + 1);
                    assert(t.drop_last() =~= items@.take(i as int));
                }
                match items[i] {
                    Some(x) => r.push(x as u32),
                    None => {},
                }
                i = i + 1;
            }
            assert(items@.take(items@.len() as int) =~= items@);
        },
        None => {},
    }
    r
}

/// The candidate markets of `payload` (see `candidates_of`).
pub fn hip4_market_candidates(payload: &OutcomeMetaPayload, options: &ResolveHip4MarketOptions) -> (ms: Vec<ResolvedHip4Market>)
    requires
        payload_parse_safe(*payload, options.underlying@, options.period@, options.market_class@),
    ensures
        candidates_of(ms@, *payload, options.underlying@, options.period@, options.market_class@, options.include_fallback),
{
    let ghost u = options.underlying@;
    let ghost p = options.period@;
    let ghost c = options.market_class@;
    let mut ms: Vec<ResolvedHip4Market> = Vec::new();
    match &payload.questions {
        Some(questions) => {
            let mut i: usize = 0;
            assert(questions@.take(0) =~= Seq::<OutcomeMetaQuestion>::empty());
            while i < questions.len()
                invariant
                    i <= questions@.len(),
                    payload.questions == Some(*questions),
                    payload_parse_safe(*payload, u, p, c),
                    u == options.underlying@ && p == options.period@ && c == options.market_class@,
                    ({
                        let qs = matching_questions(questions@.take(i as int), u, p, c);
                        &&& ms@.len() == qs.len()
                        &&& forall|k: int| 0 <= k < qs.len() ==> market_from(#[trigger] ms@[k], qs[k].question->0 as u32,
                            opt_desc(qs[k].description), question_outcome_ids(qs[k], options.include_fallback), qs[k].name)
                    }),
                decreases questions@.len() - i,
            {
                let ghost prev = matching_questions(questions@.take(i as int), u, p, c);
                let q = &questions[i];
                proof {
                    let t = questions@.take(i as int + 1);
                    assert(t.drop_last() =~= questions@.take(i as int));
                    assert(t.last() == *q);
                }
                match q.question {
                    Some(question_id) => {
                        let description = description_of(&q.description);
                        let fields = parse_description_fields(description.as_str());
                        if filter_matches(&fields, options) {
                            let named = named_outcome_ids(&q.named_outcomes);
                            if named.len() > 0 {
                                let mut outcome_ids = named;
                                if options.include_fallback {
                                    match q.fallback_outcome {
                                        Some(f) => outcome_ids.push(f as u32),
                                        None => {},
                                    }
                                }
                                proof {
                                    let all = matching_questions(questions@.take(i as int + 1), u, p, c);
                                    assert(all == prev.push(*q));
                                    assert(all[prev.len() as int] == *q);
                                    lemma_matching_questions_prefix(questions@, i as int + 1, u, p, c);
                                    assert(matching_questions(questions@, u, p, c)[prev.len() as int] == *q);
                                    assert(outcome_ids@ =~= question_outcome_ids(*q, options.include_fallback));
                                }
                                let m = build_resolved_hip4_market(
                                    question_id as u32,
                                    description,
                                    &fields,
                                    outcome_ids,
                                    copy_opt_string(&q.name),
                                );
                                ms.push(m);
                            }
                        }
                    },
                    None => {},
                }
                i = i + 1;
                proof {
                    let qs = matching_questions(questions@.take(i as int), u, p, c);
                    assert forall|k: int| 0 <= k < qs.len() implies market_from(#[trigger] ms@[k], qs[k].question->0 as u32,
                        opt_desc(qs[k].description), question_outcome_ids(qs[k], options.include_fallback), qs[k].name) by {
                        if k < prev.len() {
                            assert(qs[k] == prev[k]);
                        }
                    }
                }
            }
            assert(questions@.take(questions@.len() as int) =~= questions@);
        },
        None => {},
    }
    let ghost nq = ms@.len();
    let ghost ms_q = ms@;
    let ghost qs_m: Seq<OutcomeMetaQuestion> = match &payload.questions {
        Some(v) => matching_questions(v@, u, p, c),
        None => Seq::empty(),
    };
    assert(ms_q.len() == qs_m.len());
    assert(forall|k: int| 0 <= k < qs_m.len() ==> market_from(#[trigger] ms_q[k], qs_m[k].question->0 as u32,
        opt_desc(qs_m[k].description), question_outcome_ids(qs_m[k], options.include_fallback), qs_m[k].name));
    match &payload.outcomes {
        Some(outcomes) => {
            let mut i: usize = 0;
            assert(outcomes@.take(0) =~= Seq::<OutcomeMetaOutcome>::empty());
            while i < outcomes.len()
                invariant
                    i <= outcomes@.len(),
                    payload.outcomes == Some(*outcomes),
                    payload_parse_safe(*payload, u, p, c),
                    u == options.underlying@ && p == options.period@ && c == options.market_class@,
                    nq <= ms@.len(),
                    nq == ms_q.len(),
                    forall|k: int| 0 <= k < nq ==> #[trigger] ms@[k] == ms_q[k],
                    ({
                        let os = matching_outcomes(outcomes@.take(i as int), u, p, c);
                        &&& ms@.len() == nq + os.len()
                        &&& forall|k: int| 0 <= k < os.len() ==> market_from(#[trigger] ms@[nq + k], os[k].outcome->0 as u32,
                            opt_desc(os[k].description), seq![os[k].outcome->0 as u32], os[k].name)
                    }),
                decreases outcomes@.len() - i,
            {
                let ghost prev = matching_outcomes(outcomes@.take(i as int), u, p, c);
                let o = &outcomes[i];
                proof {
                    let t = outcomes@.take(i as int + 1);
                    assert(t.drop_last() =~= outcomes@.take(i as int));
                    assert(t.last() == *o);
                }
                match o.outcome {
                    Some(outcome_id) => {
                        let description = description_of(&o.description);
                        let fields = parse_description_fields(description.as_str());
                        if filter_matches(&fields, options) {
                            let mut outcome_ids: Vec<u32> = Vec::new();
                            outcome_ids.push(outcome_id as u32);
                            proof {
                                let all = matching_outcomes(outcomes@.take(i as int + 1), u, p, c);
                                assert(all == prev.push(*o));
                                lemma_matching_outcomes_prefix(outcomes@, i as int + 1, u, p, c);
                                assert(matching_outcomes(outcomes@, u, p, c)[prev.len() as int] == *o);
                                assert(outcome_ids@ =~= seq![outcome_id as u32]);
                            }
                            let m = build_resolved_hip4_market(
                                outcome_id as u32,
                                description,
                                &fields,
                                outcome_ids,
                                copy_opt_string(&o.name),
                            );
                            ms.push(m);
                        }
                    },
                    None => {},
                }
                i = i + 1;
                proof {
                    let os = matching_outcomes(outcomes@.take(i as int), u, p, c);
                    assert forall|k: int| 0 <= k < os.len() implies market_from(#[trigger] ms@[nq + k], os[k].outcome->0 as u32,
                        opt_desc(os[k].description), seq![os[k].outcome->0 as u32], os[k].name) by {
                        if k < prev.len() {
                            assert(os[k] == prev[k]);
                        }
                    }
                }
            }
            assert(outcomes@.take(outcomes@.len() as int) =~= outcomes@);
        },
        None => {},
    }
    assert forall|k: int| 0 <= k < qs_m.len() implies market_from(#[trigger] ms@[k], qs_m[k].question->0 as u32,
        opt_desc(qs_m[k].description), question_outcome_ids(qs_m[k], options.include_fallback), qs_m[k].name) by {
        assert(ms@[k] == ms_q[k]);
    }
    ms
}

proof fn lemma_matching_questions_prefix(qs: Seq<OutcomeMetaQuestion>, n: int, u: Seq<char>, p: Seq<char>, c: Seq<char>)
    requires
        0 <= n <= qs.len(),
    ensures
        matching_questions(qs.take(n), u, p, c).len() <= matching_questions(qs, u, p, c).len(),
        forall|k: int| 0 <= k < matching_questions(qs.take(n), u, p, c).len()
            ==> #[trigger] matching_questions(qs, u, p, c)[k] == matching_questions(qs.take(n), u, p, c)[k],
    decreases qs.len() - n,
{
    if n < qs.len() {
        lemma_matching_questions_prefix(qs, n + 1, u, p, c);
        let t = qs.take(n + 1);
        assert(t.drop_last() =~= qs.take(n));
    } else {
        assert(qs.take(n) =~= qs);
    }
}

proof fn lemma_matching_outcomes_prefix(os: Seq<OutcomeMetaOutcome>, n: int, u: Seq<char>, p: Seq<char>, c: Seq<char>)
    requires
        0 <= n <= os.len(),
    ensures
        matching_outcomes(os.take(n), u, p, c).len() <= matching_outcomes(os, u, p, c).len(),
        forall|k: int| 0 <= k < matching_outcomes(os.take(n), u, p, c).len()
            ==> #[trigger] matching_outcomes(os, u, p, c)[k] == matching_outcomes(os.take(n), u, p, c)[k],
    decreases os.len() - n,
{
    if n < os.len() {
        lemma_matching_outcomes_prefix(os, n + 1, u, p, c);
        let t = os.take(n + 1);
        assert(t.drop_last() =~= os.take(n));
    } else {
        assert(os.take(n) =~= os);
    }
}

// ---------------------------------------------------------------------------
// Selection

/// Sort key of a candidate: expiration, then question id.
pub open spec fn key_lt(a: ResolvedHip4Market, b: ResolvedHip4Market) -> bool {
    a.expiration_ns < b.expiration_ns || (a.expiration_ns == b.expiration_ns && a.question_id < b.question_id)
}

/// Expires at or after `now_ns`.
pub open spec fn is_future(m: ResolvedHip4Market, now_ns: u64) -> bool {
    m.expiration_ns > 0 && m.expiration_ns >= now_ns
}

/// `i` is the selected candidate of `ms` at `now_ns`: among markets expiring at
/// or after now, the first with the smallest (expiration, question id); else,
/// among markets with an expiration, the last with the largest; else the last
/// with the largest question id.
pub open spec fn is_selected(ms: Seq<ResolvedHip4Market>, now_ns: u64, i: int) -> bool {
    &&& 0 <= i < ms.len()
    &&& if exists|j: int| 0 <= j < ms.len() && is_future(#[trigger] ms[j], now_ns) {
        &&& is_future(ms[i], now_ns)
        &&& forall|j: int| 0 <= j < ms.len() && is_future(#[trigger] ms[j], now_ns) ==> {
            &&& j < i ==> key_lt(ms[i], ms[j])
            &&& j > i ==> !key_lt(ms[j], ms[i])
        }
    } else if exists|j: int| 0 <= j < ms.len() && (#[trigger] ms[j]).expiration_ns > 0 {
        &&& ms[i].expiration_ns > 0
        &&& forall|j: int| 0 <= j < ms.len() && (#[trigger] ms[j]).expiration_ns > 0 ==> {
            &&& j > i ==> key_lt(ms[j], ms[i])
            &&& j < i ==> !key_lt(ms[i], ms[j])
        }
    } else {
        forall|j: int| 0 <= j < ms.len() ==> {
            &&& j > i ==> (#[trigger] ms[j]).question_id < ms[i].question_id
            &&& j < i ==> ms[j].question_id <= ms[i].question_id
        }
    }
}

/// Message when no candidate matches.
pub open spec fn no_market_message(u: Seq<char>, p: Seq<char>, c: Seq<char>) -> Seq<char> {
    "no HIP-4 market found for underlying="@ + debug_str_text(u) + ", period="@ + debug_str_text(p)
        + ", market_class="@ + debug_str_text(c)
}

fn key_less(a: &ResolvedHip4Market, b: &ResolvedHip4Market) -> (r: bool)
    ensures
        r == key_lt(*a, *b),
{
    a.expiration_ns < b.expiration_ns || (a.expiration_ns == b.expiration_ns && a.question_id < b.question_id)
}

/// Index of the selected candidate (see `is_selected`).
fn selected_index(ms: &Vec<ResolvedHip4Market>, now_ns: u64) -> (i: usize)
    requires
        ms@.len() > 0,
    ensures
        is_selected(ms@, now_ns, i as int),
{
    let n = ms.len();
    // nearest future market, first on ties
    let mut best: Option<usize> = None;
    let mut j: usize = 0;
    while j < n
        invariant
            n == ms@.len(),
            j <= n,
            best is None ==> forall|k: int| 0 <= k < j ==> !is_future(#[trigger] ms@[k], now_ns),
            best matches Some(b) ==> {
                &&& b < j
                &&& is_future(ms@[b as int], now_ns)
                &&& forall|k: int| 0 <= k < j && is_future(#[trigger] ms@[k], now_ns) ==> {
                    &&& k < b ==> key_lt(ms@[b as int], ms@[k])
                    &&& k > b ==> !key_lt(ms@[k], ms@[b as int])
                }
            },
        decreases n - j,
    {
        if ms[j].expiration_ns > 0 && ms[j].expiration_ns >= now_ns {
            match best {
                None => {
                    best = Some(j);
                },
                Some(b) => {
                    if key_less(&ms[j], &ms[b]) {
                        proof {
                            assert forall|k: int| 0 <= k < j + 1 && is_future(#[trigger] ms@[k], now_ns) implies {
                                &&& k < j ==> key_lt(ms@[j as int], ms@[k])
                                &&& k > j ==> !key_lt(ms@[k], ms@[j as int])
                            } by {
                                if k < j && k != b {
                                    if k < b {
                                        assert(key_lt(ms@[b as int], ms@[k]));
                                    } else {
                                        assert(!key_lt(ms@[k], ms@[b as int]));
                                    }
                                }
                            }
                        }
                        best = Some(j);
                    }
                },
            }
        }
        j = j + 1;
    }
    match best {
        Some(b) => {
            return b;
        },
        None => {},
    }
    // latest market with an expiration, last on ties
    let mut latest: Option<usize> = None;
    let mut j: usize = 0;
    while j < n
        invariant
            n == ms@.len(),
            j <= n,
            forall|k: int| 0 <= k < n ==> !is_future(#[trigger] ms@[k], now_ns),
            latest is None ==> forall|k: int| 0 <= k < j ==> (#[trigger] ms@[k]).expiration_ns == 0,
            latest matches Some(b) ==> {
                &&& b < j
                &&& ms@[b as int].expiration_ns > 0
                &&& forall|k: int| 0 <= k < j && (#[trigger] ms@[k]).expiration_ns > 0 ==> {
                    &&& k > b ==> key_lt(ms@[k], ms@[b as int])
                    &&& k < b ==> !key_lt(ms@[b as int], ms@[k])
                }
            },
        decreases n - j,
    {
        if ms[j].expiration_ns > 0 {
            match latest {
                None => {
                    latest = Some(j);
                },
                Some(b) => {
                    if !key_less(&ms[j], &ms[b]) {
                        latest = Some(j);
                    }
                },
            }
        }
        j = j + 1;
    }
    match latest {
        Some(b) => {
            return b;
        },
        None => {},
    }
    // largest question id, last on ties
    let mut top: usize = 0;
    let mut j: usize = 1;
    while j < n
        invariant
            n == ms@.len(),
            1 <= j <= n,
            top < j,
            forall|k: int| 0 <= k < j ==> {
                &&& k > top ==> (#[trigger] ms@[k]).question_id < ms@[top as int].question_id
                &&& k < top ==> ms@[k].question_id <= ms@[top as int].question_id
            },
        decreases n - j,
    {
        if ms[j].question_id >= ms[top].question_id {
            top = j;
        }
        j = j + 1;
    }
    top
}

/// Picks the market to capture among `candidates` (see `is_selected`); fails
/// when there is none.
pub fn select_hip4_market(
    candidates: Vec<ResolvedHip4Market>,
    options: &ResolveHip4MarketOptions,
) -> (r: Result<ResolvedHip4Market, CaptureError>)
    ensures
        candidates@.len() == 0 ==> (r matches Err(e) && e.message@ == no_market_message(options.underlying@,
            options.period@, options.market_class@)),
        candidates@.len() > 0 ==> (r matches Ok(m) && exists|i: int| is_selected(candidates@, options.now_ns, i)
            && m == candidates@[i]),
{
    if candidates.len() == 0 {
        let mut message = String::new();
        push_str(&mut message, "no HIP-4 market found for underlying=");
        push_str(&mut message, debug_str(options.underlying).as_str());
        push_str(&mut message, ", period=");
        push_str(&mut message, debug_str(options.period).as_str());
        push_str(&mut message, ", market_class=");
        push_str(&mut message, debug_str(options.market_class).as_str());
        assert(message@ =~= no_market_message(options.underlying@, options.period@, options.market_class@));
        return Err(CaptureError::new(message));
    }
    let i = selected_index(&candidates, options.now_ns);
    let ghost all = candidates@;
    let mut candidates = candidates;
    let m = candidates.remove(i);
    assert(is_selected(all, options.now_ns, i as int) && m == all[i as int]);
    Ok(m)
}

/// Resolves the market of a universe from the outcome metadata: the
/// candidates of the payload (see `candidates_of`), then the selected one
/// (see `select_hip4_market`).
pub fn resolve_hip4_market(
    payload: &OutcomeMetaPayload,
    options: &ResolveHip4MarketOptions,
) -> (r: Result<ResolvedHip4Market, CaptureError>)
    requires
        payload_parse_safe(*payload, options.underlying@, options.period@, options.market_class@),
    ensures
        exists|ms: Seq<ResolvedHip4Market>| {
            &&& candidates_of(ms, *payload, options.underlying@, options.period@, options.market_class@,
                options.include_fallback)
            &&& ms.len() == 0 ==> (r matches Err(e) && e.message@ == no_market_message(options.underlying@,
                options.period@, options.market_class@))
            &&& ms.len() > 0 ==> (r matches Ok(m) && exists|i: int| is_selected(ms, options.now_ns, i) && m == ms[i])
        },
{
    let candidates = hip4_market_candidates(payload, options);
    let ghost ms = candidates@;
    select_hip4_market(candidates, options)
}

/// Whether parsing the expiry text `value` slices it at a byte offset inside
/// a character (see `expiry_slicing_panics`).
pub fn expiry_slicing_would_panic(value: &str) -> (r: bool)
    ensures
        r == expiry_slicing_panics(value@),
{
    let all = chars_of(value);
    let raw_text = trimmed(&all, 0, all.len());
    assert(all@.subrange(0, all@.len() as int) =~= value@);
    let cs = chars_of(raw_text.as_str());
    let n = cs.len();
    let ghost raw = cs@;
    if n == 0 {
        return false;
    }
    let mut digits = true;
    let mut bytes: u128 = 0;
    let mut at4 = false;
    let mut at6 = false;
    let mut at11 = false;
    let mut dash_at8 = false;
    let mut i: usize = 0;
    assert(raw.take(0) =~= Seq::<char>::empty());
    while i < n
        invariant
            n == raw.len(),
            raw == cs@,
            i <= n,
            bytes == utf8_len(raw.take(i as int)),
            bytes <= 4 * i,
            digits == all_digits(raw.take(i as int)),
            at4 == (exists|k: int| 0 <= k <= i && #[trigger] utf8_len(raw.take(k)) == 4),
            at6 == (exists|k: int| 0 <= k <= i && #[trigger] utf8_len(raw.take(k)) == 6),
            at11 == (exists|k: int| 0 <= k <= i && #[trigger] utf8_len(raw.take(k)) == 11),
            dash_at8 == (exists|k: int| 0 <= k < i && #[trigger] utf8_len(raw.take(k)) == 8 && raw[k] == '-'),
        decreases n - i,
    {
        let c = cs[i];
        let ghost before = raw.take(i as int);
        let ghost after = raw.take(i as int + 1);
        proof {
            assert(after.drop_last() =~= before);
            assert(after.last() == c);
            assert(all_digits(after) == (all_digits(before) && is_digit(c)));
        }
        let width: u128 = if (c as u32) < 0x80 {
            1
        } else if (c as u32) < 0x800 {
            2
        } else if (c as u32) < 0x10000 {
            3
        } else {
            4
        };
        dash_at8 = dash_at8 || (bytes == 8 && c == '-');
        digits = digits && '0' <= c && c <= '9';
        bytes = bytes + width;
        at4 = at4 || bytes == 4;
        at6 = at6 || bytes == 6;
        at11 = at11 || bytes == 11;
        i = i + 1;
        proof {
            assert(bytes == utf8_len(raw.take(i as int)));
            assert(at4 == (exists|k: int| 0 <= k <= i && #[trigger] utf8_len(raw.take(k)) == 4)) by {
                if utf8_len(raw.take(i as int)) == 4 {
                    assert(at4);
                }
            }
            assert(at6 == (exists|k: int| 0 <= k <= i && #[trigger] utf8_len(raw.take(k)) == 6)) by {
                if utf8_len(raw.take(i as int)) == 6 {
                    assert(at6);
                }
            }
            assert(at11 == (exists|k: int| 0 <= k <= i && #[trigger] utf8_len(raw.take(k)) == 11)) by {
                if utf8_len(raw.take(i as int)) == 11 {
                    assert(at11);
                }
            }
            assert(dash_at8 == (exists|k: int| 0 <= k < i && #[trigger] utf8_len(raw.take(k)) == 8 && raw[k] == '-')) by {
                if utf8_len(before) == 8 && raw[i - 1] == '-' {
                    assert(utf8_len(raw.take(i - 1)) == 8 && raw[i - 1] == '-');
                }
            }
        }
    }
    assert(raw.take(n as int) =~= raw);
    assert(raw == trim(value@));
    !digits && bytes == 13 && dash_at8 && !(at4 && at6 && at11)
}

/// Whether the expiry text of `description` would be sliced inside a character.
fn description_expiry_would_panic(description: &Option<String>) -> (r: bool)
    ensures
        r == expiry_slicing_panics(expiry_text(description_fields(opt_desc(*description)))),
{
    let text = description_of(description);
    let fields = parse_description_fields(text.as_str());
    match fields.get("expiry") {
        Some(v) => expiry_slicing_would_panic(v.as_str()),
        None => {
            proof {
                reveal_strlit("");
                assert(""@ =~= Seq::<char>::empty());
            }
            expiry_slicing_would_panic("")
        },
    }
}

/// Whether a question yields a candidate (see `question_is_candidate`).
fn question_candidate(q: &OutcomeMetaQuestion, options: &ResolveHip4MarketOptions) -> (r: bool)
    ensures
        r == question_is_candidate(*q, options.underlying@, options.period@, options.market_class@),
{
    match q.question {
        Some(_) => {
            let description = description_of(&q.description);
            let fields = parse_description_fields(description.as_str());
            filter_matches(&fields, options) && named_outcome_ids(&q.named_outcomes).len() > 0
        },
        None => false,
    }
}

/// Whether an outcome yields a candidate (see `outcome_is_candidate`).
fn outcome_candidate(o: &OutcomeMetaOutcome, options: &ResolveHip4MarketOptions) -> (r: bool)
    ensures
        r == outcome_is_candidate(*o, options.underlying@, options.period@, options.market_class@),
{
    match o.outcome {
        Some(_) => {
            let description = description_of(&o.description);
            let fields = parse_description_fields(description.as_str());
            filter_matches(&fields, options)
        },
        None => false,
    }
}

/// Whether resolving the market of `payload` parses every matching entry's
/// expiry text without slicing it inside a character: `true` exactly when
/// `resolve_hip4_market` may be called (see `payload_parse_safe`).
pub fn payload_parse_is_safe(payload: &OutcomeMetaPayload, options: &ResolveHip4MarketOptions) -> (r: bool)
    ensures
        r == payload_parse_safe(*payload, options.underlying@, options.period@, options.market_class@),
{
    let ghost u = options.underlying@;
    let ghost p = options.period@;
    let ghost c = options.market_class@;
    let mut questions_ok = true;
    match &payload.questions {
        Some(questions) => {
            let mut i: usize = 0;
            assert(questions@.take(0) =~= Seq::<OutcomeMetaQuestion>::empty());
            while i < questions.len()
                invariant
                    i <= questions@.len(),
                    u == options.underlying@ && p == options.period@ && c == options.market_class@,
                    questions_ok == (forall|k: int| 0 <= k < matching_questions(questions@.take(i as int), u, p, c).len()
                        ==> !expiry_slicing_panics(expiry_text(description_fields(opt_desc(
                            #[trigger] matching_questions(questions@.take(i as int), u, p, c)[k].description))))),
                decreases questions@.len() - i,
            {
                let ghost prev = matching_questions(questions@.take(i as int), u, p, c);
                let q = &questions[i];
                proof {
                    let t = questions@.take(i as int + 1);
                    assert(t.drop_last() =~= questions@.take(i as int));
                    assert(t.last() == *q);
                }
                if question_candidate(q, options) {
                    let bad = description_expiry_would_panic(&q.description);
                    questions_ok = questions_ok && !bad;
                }
                i = i + 1;
                proof {
                    let all = matching_questions(questions@.take(i as int), u, p, c);
                    assert(forall|k: int| 0 <= k < prev.len() ==> all[k] == prev[k]);
                    if question_is_candidate(*q, u, p, c) {
                        assert(all[prev.len() as int] == *q);
                    }
                }
            }
            assert(questions@.take(questions@.len() as int) =~= questions@);
        },
        None => {},
    }
    let mut outcomes_ok = true;
    match &payload.outcomes {
        Some(outcomes) => {
            let mut i: usize = 0;
            assert(outcomes@.take(0) =~= Seq::<OutcomeMetaOutcome>::empty());
            while i < outcomes.len()
                invariant
                    i <= outcomes@.len(),
                    u == options.underlying@ && p == options.period@ && c == options.market_class@,
                    outcomes_ok == (forall|k: int| 0 <= k < matching_outcomes(outcomes@.take(i as int), u, p, c).len()
                        ==> !expiry_slicing_panics(expiry_text(description_fields(opt_desc(
                            #[trigger] matching_outcomes(outcomes@.take(i as int), u, p, c)[k].description))))),
                decreases outcomes@.len() - i,
            {
                let ghost prev = matching_outcomes(outcomes@.take(i as int), u, p, c);
                let o = &outcomes[i];
                proof {
                    let t = outcomes@.take(i as int + 1);
                    assert(t.drop_last() =~= outcomes@.take(i as int));
                    assert(t.last() == *o);
                }
                if outcome_candidate(o, options) {
                    let bad = description_expiry_would_panic(&o.description);
                    outcomes_ok = outcomes_ok && !bad;
                }
                i = i + 1;
                proof {
                    let all = matching_outcomes(outcomes@.take(i as int), u, p, c);
                    assert(forall|k: int| 0 <= k < prev.len() ==> all[k] == prev[k]);
                    if outcome_is_candidate(*o, u, p, c) {
                        assert(all[prev.len() as int] == *o);
                    }
                }
            }
            assert(outcomes@.take(outcomes@.len() as int) =~= outcomes@);
        },
        None => {},
    }
    questions_ok && outcomes_ok
}

} // verus!
