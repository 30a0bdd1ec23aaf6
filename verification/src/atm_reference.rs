//! Choice of the reference price around which strikes are selected.
use vstd::prelude::*;

use crate::fields::{is_whitespace, is_ws};
use crate::text::chars_of;

verus! {

/// Where a reference price came from.
#[derive(Debug, Clone, Copy, PartialEq, Eq, Structural)]
pub enum AtmReferenceSource {
    HttpPerpTickerMark,
    HttpPerpTickerIndex,
    HttpPerpTickerMid,
    HttpPerpForwardPrice,
    CacheMark,
    CacheQuoteMid,
    CacheIndex,
}

impl AtmReferenceSource {
    pub open spec fn spec_as_str(self) -> Seq<char> {
        match self {
            AtmReferenceSource::HttpPerpTickerMark => "http_perp_ticker_mark"@,
            AtmReferenceSource::HttpPerpTickerIndex => "http_perp_ticker_index"@,
            AtmReferenceSource::HttpPerpTickerMid => "http_perp_ticker_mid"@,
            AtmReferenceSource::HttpPerpForwardPrice => "http_forward_price"@,
            AtmReferenceSource::CacheMark => "cache_mark"@,
            AtmReferenceSource::CacheQuoteMid => "cache_quote_mid"@,
            AtmReferenceSource::CacheIndex => "cache_index"@,
        }
    }

    /// Label recorded with a resolution.
    pub fn as_str(self) -> (s: &'static str)
        ensures
            s@ == self.spec_as_str(),
    {
        match self {
            AtmReferenceSource::HttpPerpTickerMark => "http_perp_ticker_mark",
            AtmReferenceSource::HttpPerpTickerIndex => "http_perp_ticker_index",
            AtmReferenceSource::HttpPerpTickerMid => "http_perp_ticker_mid",
            AtmReferenceSource::HttpPerpForwardPrice => "http_forward_price",
            AtmReferenceSource::CacheMark => "cache_mark",
            AtmReferenceSource::CacheQuoteMid => "cache_quote_mid",
            AtmReferenceSource::CacheIndex => "cache_index",
        }
    }
}

/// Reference from cached perpetual prices: the mark, else the quote mid, else the index.
pub fn select_cache_atm_reference<P>(mark: Option<P>, quote_mid: Option<P>, index: Option<P>) -> (r: Option<(P, AtmReferenceSource)>)
    ensures
        r == (match (mark, quote_mid, index) {
            (Some(m), _, _) => Some((m, AtmReferenceSource::CacheMark)),
            (None, Some(q), _) => Some((q, AtmReferenceSource::CacheQuoteMid)),
            (None, None, Some(i)) => Some((i, AtmReferenceSource::CacheIndex)),
            (None, None, None) => None,
        }),
{
    match mark {
        Some(price) => Some((price, AtmReferenceSource::CacheMark)),
        None => match quote_mid {
            Some(price) => Some((price, AtmReferenceSource::CacheQuoteMid)),
            None => match index {
                Some(price) => Some((price, AtmReferenceSource::CacheIndex)),
                None => None,
            },
        },
    }
}

/// A text that is empty or only whitespace.
pub open spec fn is_blank_text(s: Seq<char>) -> bool {
    forall|i: int| 0 <= i < s.len() ==> is_ws(#[trigger] s[i])
}

/// Whether `s` trims to nothing.
pub fn is_blank(s: &str) -> (r: bool)
    ensures
        r == is_blank_text(s@),
{
    let cs = chars_of(s);
    let mut i: usize = 0;
    while i < cs.len()
        invariant
            i <= cs@.len(),
            cs@ == s@,
            forall|j: int| 0 <= j < i ==> is_ws(#[trigger] cs@[j]),
        decreases cs@.len() - i,
    {
        if !is_whitespace(cs[i]) {
            return false;
        }
        i = i + 1;
    }
    true
}

/// Which ticker field supplies the reference: the mark, else the index, else the mid of
/// bid and ask (which the caller computes), else none. Blank fields do not count.
#[derive(Debug, Clone, PartialEq, Eq)]
pub enum HttpTickerReference<'a> {
    Mark(&'a str),
    Index(&'a str),
    Mid { bid: &'a str, ask: &'a str },
    Missing,
}

pub open spec fn present(v: Option<&str>) -> bool {
    v matches Some(s) && !is_blank_text(s@)
}

/// Choice among perpetual ticker fields.
pub fn choose_http_perp_ticker_reference<'a>(
    mark: Option<&'a str>,
    index: Option<&'a str>,
    bid: Option<&'a str>,
    ask: Option<&'a str>,
) -> (r: HttpTickerReference<'a>)
    ensures
        present(mark) ==> r == HttpTickerReference::Mark(mark->0),
        !present(mark) && present(index) ==> r == HttpTickerReference::Index(index->0),
        !present(mark) && !present(index) && present(bid) && present(ask) ==> r == (HttpTickerReference::Mid {
            bid: bid->0,
            ask: ask->0,
        }),
        !present(mark) && !present(index) && !(present(bid) && present(ask)) ==> r == HttpTickerReference::<'a>::Missing,
{
    match mark {
        Some(m) => {
            if !is_blank(m) {
                return HttpTickerReference::Mark(m);
            }
        },
        None => {},
    }
    match index {
        Some(i) => {
            if !is_blank(i) {
                return HttpTickerReference::Index(i);
            }
        },
        None => {},
    }
    match (bid, ask) {
        (Some(b), Some(a)) => {
            if !is_blank(b) && !is_blank(a) {
                return HttpTickerReference::Mid { bid: b, ask: a };
            }
        },
        _ => {},
    }
    HttpTickerReference::Missing
}

} // verus!
