use std::path::{Path, PathBuf};

use catalog_capture_core::catalog_layout::{
    assert_known_custom_type_dirs, capture_run_path, catalog_root_from_uri, custom_data_dir, market_data_dir,
    path_is_under_custom_type, path_is_under_market_family,
};

#[test]
fn known_custom_type_dirs_match_catalog_contract() {
    let failures = assert_known_custom_type_dirs();
    assert!(failures.is_empty(), "{failures:?}");
}

#[test]
fn custom_data_dir_with_identifier_segments() {
    let path = custom_data_dir("DeribitBookSummary", Some("BTC:option"));
    assert_eq!(
        PathBuf::from(path),
        PathBuf::from("data/custom/DeribitBookSummary/BTC:option")
    );
}

#[test]
fn subscribe_and_request_share_same_custom_path_contract() {
    let subscribe = PathBuf::from(custom_data_dir("DeribitVolatilityIndex", Some("btc_usd")));
    let request = PathBuf::from(custom_data_dir("DeribitBookSummary", Some("BTC:option")));
    assert!(subscribe.starts_with("data/custom/DeribitVolatilityIndex"));
    assert!(request.starts_with("data/custom/DeribitBookSummary"));
    assert_ne!(subscribe.parent(), request.parent());
}

#[test]
fn market_data_dir_is_under_data() {
    assert_eq!(market_data_dir("quotes"), "data/quotes");
    assert_eq!(custom_data_dir("SomeType", None), "data/custom/SomeType");
}

#[test]
fn paths_are_classified_by_family_and_type() {
    let root = "/tmp/catalog";
    assert!(path_is_under_market_family(root, "/tmp/catalog/data/quotes/BTC.X/part.parquet", "quotes"));
    assert!(!path_is_under_market_family(root, "/tmp/catalog/data/trades/BTC.X/part.parquet", "quotes"));
    assert!(path_is_under_custom_type(root, "/tmp/catalog/data/custom/RustTestCustomData/RUST.TEST/x.parquet", "RustTestCustomData"));
    assert!(path_is_under_custom_type(root, "/tmp/other/data/custom/RustTestCustomData/x.parquet", "RustTestCustomData"));
    assert!(!path_is_under_custom_type(root, "/tmp/catalog/data/custom/OtherType/x.parquet", "RustTestCustomData"));
}

#[test]
fn catalog_root_strips_file_scheme_and_rejects_empty() {
    assert_eq!(catalog_root_from_uri("file:///tmp/catalog").unwrap(), "/tmp/catalog");
    assert_eq!(catalog_root_from_uri("/data/catalog").unwrap(), "/data/catalog");
    let err = catalog_root_from_uri("file://").unwrap_err();
    assert_eq!(err.message(), "catalog_uri cannot be empty");
    assert_eq!(
        Path::new(&capture_run_path("/tmp/catalog")),
        Path::new("/tmp/catalog/metadata/capture_run.json")
    );
}

#[test]
fn path_matching_takes_whole_components() {
    let root = "/cat";
    assert!(!path_is_under_custom_type(root, "data/custom/DeribitBookSummary/BTC:option/1-2.parquet", "Deribit"));
    assert!(path_is_under_custom_type(root, "data/custom/DeribitBookSummary/BTC:option/1-2.parquet", "DeribitBookSummary"));
    assert!(path_is_under_custom_type(root, "data\\custom\\DeribitBookSummary\\1-2.parquet", "DeribitBookSummary"));
    assert!(!path_is_under_market_family(root, "data/quotes_l2/BTC.X/part.parquet", "quotes"));
    assert!(!path_is_under_market_family(root, "mydata/quotes/BTC.X/part.parquet", "quotes"));
    assert!(path_is_under_market_family(root, "data/quotes", "quotes"));
    assert!(!path_is_under_market_family(root, "/cat/data/quotes_l2/x.parquet", "quotes"));
}
