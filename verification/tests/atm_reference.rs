use catalog_capture_core::atm_reference::{
    choose_http_perp_ticker_reference, select_cache_atm_reference, AtmReferenceSource, HttpTickerReference,
};

#[test]
fn http_preflight_prefers_mark_then_index_then_mid() {
    assert_eq!(
        choose_http_perp_ticker_reference(Some("65000"), Some("64900"), Some("64990"), Some("65010")),
        HttpTickerReference::Mark("65000")
    );
    assert_eq!(
        choose_http_perp_ticker_reference(None, Some("64900"), Some("64990"), Some("65010")),
        HttpTickerReference::Index("64900")
    );
    assert_eq!(
        choose_http_perp_ticker_reference(None, None, Some("64990"), Some("65010")),
        HttpTickerReference::Mid { bid: "64990", ask: "65010" }
    );
    assert_eq!(
        choose_http_perp_ticker_reference(Some("  "), None, Some("64990"), None),
        HttpTickerReference::Missing
    );
}

#[test]
fn cache_preflight_prefers_mark_then_quote_then_index() {
    assert_eq!(
        select_cache_atm_reference(Some(65100), Some(65050), Some(65000)).map(|(_, source)| source),
        Some(AtmReferenceSource::CacheMark)
    );
    assert_eq!(
        select_cache_atm_reference(None, Some(65050), Some(65000)).map(|(_, source)| source),
        Some(AtmReferenceSource::CacheQuoteMid)
    );
    assert_eq!(select_cache_atm_reference(None, None, Some(65000)), Some((65000, AtmReferenceSource::CacheIndex)));
    assert_eq!(select_cache_atm_reference::<i64>(None, None, None), None);
    assert_eq!(AtmReferenceSource::HttpPerpForwardPrice.as_str(), "http_forward_price");
}
