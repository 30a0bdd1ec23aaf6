//! Request-style custom data poll jobs: timer naming and the fire / skip / timeout
//! decisions of each poll tick.
use vstd::prelude::*;

use crate::plan::{
    CustomDataRequestCaptureSpec, DataType, RequestOverlapPolicy, DEFAULT_CUSTOM_DATA_REQUEST_TIMEOUT_SECS,
};
use crate::row_group_capacity::{sat_mul, saturating_mul_u64};
use crate::text::{
    all_digits, chars_of, decimal, digits_value, parse_digits_usize, parse_usize_text, push_str, push_u64,
    is_digit, digit_char, digit_value, str_eq,
};

verus! {

/// Prefix of the timer names of request jobs.
pub const CUSTOM_DATA_REQUEST_TIMER_PREFIX: &'static str = "CUSTOM_DATA_REQUEST:";

/// Client used when a request names none.
pub const DEFAULT_REQUEST_CLIENT_ID: &'static str = "DERIBIT";

/// One configured request poll and its counters.
#[derive(Debug, Clone)]
pub struct CustomDataRequestJob {
    pub index: usize,
    pub spec: CustomDataRequestCaptureSpec,
    pub in_flight: bool,
    pub last_fire_ns: u64,
    pub polls: u64,
    pub rows: u64,
    pub skipped_inflight: u64,
    pub timeouts: u64,
}

pub open spec fn sat_inc(x: u64) -> u64 {
    if x == u64::MAX { u64::MAX } else { (x + 1) as u64 }
}

pub open spec fn sat_add(x: u64, y: u64) -> u64 {
    if x + y > u64::MAX { u64::MAX } else { (x + y) as u64 }
}

pub open spec fn sat_sub(x: u64, y: u64) -> u64 {
    if x >= y { (x - y) as u64 } else { 0 }
}

/// Timer name of job `index`.
pub open spec fn timer_name_text(index: usize) -> Seq<char> {
    CUSTOM_DATA_REQUEST_TIMER_PREFIX@ + decimal(index as nat)
}

impl CustomDataRequestJob {
    pub open spec fn spec_request_timeout_ns(&self) -> u64 {
        let secs = if self.spec.request_timeout_secs == 0 { DEFAULT_CUSTOM_DATA_REQUEST_TIMEOUT_SECS } else { self.spec.request_timeout_secs };
        sat_mul(secs, 1_000_000_000)
    }

    /// Whether a tick at `now_ns` finds the in-flight request timed out.
    pub open spec fn timed_out(&self, now_ns: u64) -> bool {
        sat_sub(now_ns, self.last_fire_ns) >= self.spec_request_timeout_ns()
    }

    /// A fresh job: nothing in flight, all counters zero.
    pub fn new(index: usize, spec: CustomDataRequestCaptureSpec) -> (j: Self)
        ensures
            j.index == index,
            j.spec == spec,
            !j.in_flight,
            j.last_fire_ns == 0 && j.polls == 0 && j.rows == 0 && j.skipped_inflight == 0 && j.timeouts == 0,
    {
        CustomDataRequestJob { index, spec, in_flight: false, last_fire_ns: 0, polls: 0, rows: 0, skipped_inflight: 0, timeouts: 0 }
    }

    /// `CUSTOM_DATA_REQUEST:{index}`.
    pub fn timer_name(&self) -> (s: String)
        ensures
            s@ == timer_name_text(self.index),
    {
        let mut s = String::new();
        push_str(&mut s, CUSTOM_DATA_REQUEST_TIMER_PREFIX);
        push_u64(&mut s, self.index as u64);
        assert(s@ =~= timer_name_text(self.index));
        s
    }

    /// The requested data type.
    pub fn data_type(&self) -> (d: &DataType)
        ensures
            *d == self.spec.data_type,
    {
        &self.spec.data_type
    }

    /// The request's client, or the default client.
    pub fn client_id_str(&self) -> (s: &str)
        ensures
            s@ == (match self.spec.client_id {
                Some(c) => c@,
                None => DEFAULT_REQUEST_CLIENT_ID@,
            }),
    {
        match &self.spec.client_id {
            Some(c) => c.as_str(),
            None => DEFAULT_REQUEST_CLIENT_ID,
        }
    }

    /// Poll period in nanoseconds (saturating).
    pub fn interval_ns(&self) -> (n: u64)
        ensures
            n == sat_mul(self.spec.interval_secs, 1_000_000_000),
    {
        saturating_mul_u64(self.spec.interval_secs, 1_000_000_000)
    }

    /// In-flight timeout in nanoseconds: the configured seconds, or the default when zero.
    pub fn request_timeout_ns(&self) -> (n: u64)
        ensures
            n == self.spec_request_timeout_ns(),
    {
        let secs = if self.spec.request_timeout_secs == 0 { DEFAULT_CUSTOM_DATA_REQUEST_TIMEOUT_SECS } else { self.spec.request_timeout_secs };
        saturating_mul_u64(secs, 1_000_000_000)
    }

    /// Decides a poll tick at `now_ns`. A job with a request in flight skips the tick
    /// (counting it) unless the request timed out, in which case the timeout is counted and
    /// the job fires again. Firing marks the request in flight at `now_ns` and counts a
    /// poll. Counters saturate.
    pub fn prepare_fire(&mut self, now_ns: u64) -> (fire: bool)
        ensures
            fire == (!old(self).in_flight || old(self).timed_out(now_ns)),
            final(self).index == old(self).index,
            final(self).spec == old(self).spec,
            final(self).rows == old(self).rows,
            fire ==> final(self).in_flight && final(self).last_fire_ns == now_ns && final(self).polls == sat_inc(old(self).polls)
                && final(self).skipped_inflight == old(self).skipped_inflight
                && final(self).timeouts == (if old(self).in_flight { sat_inc(old(self).timeouts) } else { old(self).timeouts }),
            !fire ==> final(self).in_flight && final(self).last_fire_ns == old(self).last_fire_ns
                && final(self).polls == old(self).polls && final(self).timeouts == old(self).timeouts
                && final(self).skipped_inflight == sat_inc(old(self).skipped_inflight),
    {
        if self.in_flight {
            let elapsed = if now_ns >= self.last_fire_ns { now_ns - self.last_fire_ns } else { 0 };
            if elapsed >= self.request_timeout_ns() {
                self.in_flight = false;
                self.timeouts = if self.timeouts == u64::MAX { u64::MAX } else { self.timeouts + 1 };
            } else {
                match self.spec.overlap_policy {
                    RequestOverlapPolicy::Skip => {
                        self.skipped_inflight = if self.skipped_inflight == u64::MAX { u64::MAX } else { self.skipped_inflight + 1 };
                        return false;
                    },
                }
            }
        }
        self.in_flight = true;
        self.last_fire_ns = now_ns;
        self.polls = if self.polls == u64::MAX { u64::MAX } else { self.polls + 1 };
        true
    }

    /// Records a response of `rows` rows: nothing is in flight any more.
    pub fn complete_response(&mut self, rows: u64)
        ensures
            !final(self).in_flight,
            final(self).rows == sat_add(old(self).rows, rows),
            final(self).index == old(self).index,
            final(self).spec == old(self).spec,
            final(self).last_fire_ns == old(self).last_fire_ns,
            final(self).polls == old(self).polls,
            final(self).skipped_inflight == old(self).skipped_inflight,
            final(self).timeouts == old(self).timeouts,
    {
        self.in_flight = false;
        self.rows = if rows > u64::MAX - self.rows { u64::MAX } else { self.rows + rows };
    }

    /// Whether `data_type` is this job's type: same type name and identifier.
    pub fn matches_data_type(&self, data_type: &DataType) -> (r: bool)
        ensures
            r == (self.spec.data_type@ == data_type@),
    {
        self.spec.data_type.same(data_type)
    }
}

/// Index of a request timer: the text after the prefix, parsed as `usize`.
pub open spec fn spec_parse_request_timer_index(name: Seq<char>) -> Option<usize> {
    let p = CUSTOM_DATA_REQUEST_TIMER_PREFIX@;
    if name.len() >= p.len() && name.take(p.len() as int) == p {
        parse_usize_text(name.skip(p.len() as int))
    } else {
        None
    }
}

/// Job index of a request timer name, if it is one.
pub fn parse_request_timer_index(timer_name: &str) -> (r: Option<usize>)
    ensures
        r == spec_parse_request_timer_index(timer_name@),
{
    let cs = chars_of(timer_name);
    let ps = chars_of(CUSTOM_DATA_REQUEST_TIMER_PREFIX);
    if cs.len() < ps.len() {
        return None;
    }
    let mut i: usize = 0;
    while i < ps.len()
        invariant
            i <= ps@.len() <= cs@.len(),
            cs@ == timer_name@,
            ps@ == CUSTOM_DATA_REQUEST_TIMER_PREFIX@,
            forall|j: int| 0 <= j < i ==> cs@[j] == ps@[j],
        decreases ps@.len() - i,
    {
        if cs[i] != ps[i] {
            assert(cs@.take(ps@.len() as int)[i as int] != ps@[i as int]);
            return None;
        }
        i = i + 1;
    }
    assert(cs@.take(ps@.len() as int) =~= ps@);
    let start = ps.len();
    let ghost rest = cs@.skip(start as int);
    let from = if start < cs.len() && cs[start] == '+' { start + 1 } else { start };
    assert(cs@.skip(from as int) =~= (if rest.len() > 0 && rest[0] == '+' { rest.drop_first() } else { rest }));
    parse_digits_usize(&cs, from)
}

proof fn lemma_digit_char(d: nat)
    requires
        d < 10,
    ensures
        is_digit(digit_char(d)),
        digit_value(digit_char(d)) == d,
{
}

proof fn lemma_decimal_digits(n: nat)
    ensures
        decimal(n).len() > 0,
        all_digits(decimal(n)),
        digits_value(decimal(n)) == n,
    decreases n,
{
    if n < 10 {
        lemma_digit_char(n);
        assert(decimal(n).drop_last() =~= Seq::<char>::empty());
        assert(digits_value(decimal(n).drop_last()) == 0);
        assert(decimal(n).last() == digit_char(n));
        assert(digits_value(decimal(n)) == n);
    } else {
        lemma_decimal_digits(n / 10);
        lemma_digit_char(n % 10);
        let d = decimal(n);
        assert(d.drop_last() =~= decimal(n / 10));
        assert forall|i: int| 0 <= i < d.len() implies is_digit(#[trigger] d[i]) by {
            if i < d.len() - 1 {
                assert(d[i] == decimal(n / 10)[i]);
            }
        }
        assert(d.last() == digit_char(n % 10));
        assert(digits_value(d) == digits_value(decimal(n / 10)) * 10 + digit_value(d.last()));
        assert((n / 10) * 10 + n % 10 == n) by (nonlinear_arith);
        assert(digit_value(d.last()) == n % 10);
        assert(digits_value(decimal(n / 10)) == n / 10);
        assert(digits_value(d) == n);
    }
}

/// A job's timer name parses back to its index.
pub proof fn lemma_timer_name_roundtrip(index: usize)
    ensures
        spec_parse_request_timer_index(timer_name_text(index)) == Some(index),
{
    let p = CUSTOM_DATA_REQUEST_TIMER_PREFIX@;
    let t = timer_name_text(index);
    assert(t.take(p.len() as int) =~= p);
    assert(t.skip(p.len() as int) =~= decimal(index as nat));
    lemma_decimal_digits(index as nat);
    assert(is_digit(decimal(index as nat)[0]));
}

} // verus!
