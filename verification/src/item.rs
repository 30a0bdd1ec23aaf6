//! Capture items and the partition they are buffered under.
use vstd::prelude::*;

use crate::text::push_str;

verus! {

/// Identity of one partition buffer (family, type, identifier, namespace).
#[derive(Debug, Clone, PartialEq, Eq, Hash)]
pub struct PartitionKey {
    pub family: String,
    pub type_label: String,
    pub identifier: Option<String>,
    pub namespace: Option<String>,
}

/// `value` rendered as an optional key segment: the text, or `_` when absent.
pub open spec fn key_segment(value: Option<String>) -> Seq<char> {
    match value {
        Some(s) => s@,
        None => seq!['_'],
    }
}

impl PartitionKey {
    /// `family|type_label|identifier|namespace`, absent parts written as `_`.
    pub open spec fn spec_stable_key(&self) -> Seq<char> {
        self.family@ + seq!['|'] + self.type_label@ + seq!['|'] + key_segment(self.identifier)
            + seq!['|'] + key_segment(self.namespace)
    }

    /// Key of a built-in market-data stream (`quotes`, `trades`, ...) of one instrument.
    pub fn market_data(type_label: &str, identifier: &str) -> (k: PartitionKey)
        ensures
            k.family@ == "market_data"@,
            k.type_label@ == type_label@,
            k.identifier matches Some(id) && id@ == identifier@,
            k.namespace is None,
    {
        PartitionKey {
            family: String::from_str("market_data"),
            type_label: String::from_str(type_label),
            identifier: Some(String::from_str(identifier)),
            namespace: None,
        }
    }

    /// Key of a custom-data stream; the topic becomes the namespace.
    pub fn custom_data(type_label: &str, identifier: Option<String>, topic: &str) -> (k: PartitionKey)
        ensures
            k.family@ == "custom_data"@,
            k.type_label@ == type_label@,
            k.identifier == identifier,
            k.namespace matches Some(ns) && ns@ == topic@,
    {
        PartitionKey {
            family: String::from_str("custom_data"),
            type_label: String::from_str(type_label),
            identifier,
            namespace: Some(String::from_str(topic)),
        }
    }

    /// The partition's map key.
    pub fn stable_key(&self) -> (s: String)
        ensures
            s@ == self.spec_stable_key(),
    {
        let mut s = String::new();
        push_str(&mut s, self.family.as_str());
        push_str(&mut s, "|");
        push_str(&mut s, self.type_label.as_str());
        push_str(&mut s, "|");
        match &self.identifier {
            Some(id) => push_str(&mut s, id.as_str()),
            None => push_str(&mut s, "_"),
        }
        push_str(&mut s, "|");
        match &self.namespace {
            Some(ns) => push_str(&mut s, ns.as_str()),
            None => push_str(&mut s, "_"),
        }
        proof {
            reveal_strlit("|");
            reveal_strlit("_");
        }
        assert(s@ =~= self.spec_stable_key());
        s
    }
}

/// One captured row with its routing metadata.
#[derive(Debug, Clone)]
pub struct CaptureItem<T> {
    pub partition_key: PartitionKey,
    pub event_ts_ns: u64,
    pub init_ts_ns: Option<u64>,
    pub estimated_bytes: usize,
    pub payload: T,
}

} // verus!
