//! What a segment sink is built from: the local catalog root of a `file://`
//! catalog, the seal schedule, the compression, the row-group size and the
//! fsync cadence.
use vstd::prelude::*;

use crate::catalog_layout::run_at;
use crate::config::{CaptureConfig, CompressionKind};
use crate::error::CaptureError;
use crate::row_group_capacity::{sat_mul, saturating_mul_u64};
use crate::seal::{seal_interval_ns, spec_parse_seal_schedule, tz_named, ResolvedSealSchedule};
use crate::text::{chars_of, string_from_chars};
use crate::fields::trim;

verus! {

/// Settings of a segment sink.
#[derive(Debug)]
pub struct SegmentSettings {
    pub local_root: String,
    pub seal: Option<ResolvedSealSchedule>,
    pub compression: CompressionKind,
    pub row_group_rows: usize,
    pub sync_interval_ns: u64,
}

/// Whether `uri` starts with `file://`.
pub open spec fn is_file_uri(uri: Seq<char>) -> bool {
    uri.len() >= 7 && uri.subrange(0, 7) == "file://"@
}

/// Whether the seal configuration of a segment-mode lifecycle resolves.
pub open spec fn seal_resolves(config: CaptureConfig) -> bool {
    !config.lifecycle.seal.enabled || (spec_parse_seal_schedule(config.lifecycle.seal.schedule@) is Some
        && tz_named(trim(config.lifecycle.seal.timezone@)) is Some)
}

/// Settings of a segment sink for `config`: the lifecycle must append to
/// segments and the catalog must be a `file://` URI; the seal schedule, when
/// enabled, must resolve.
pub fn segment_settings(config: &CaptureConfig) -> (r: Result<SegmentSettings, CaptureError>)
    ensures
        !config.lifecycle.spec_is_segment_mode() ==> (r matches Err(e)
            && e.message@ == "segment sink requires output.lifecycle.mode = segment"@),
        config.lifecycle.spec_is_segment_mode() && !is_file_uri(config.catalog_uri@) ==> (r matches Err(e)
            && e.message@ == "segment lifecycle requires a file:// catalog_uri"@),
        r is Ok <==> (config.lifecycle.spec_is_segment_mode() && is_file_uri(config.catalog_uri@) && seal_resolves(*config)),
        r matches Ok(s) ==> {
            &&& s.local_root@ == config.catalog_uri@.skip(7)
            &&& s.compression == config.compression
            &&& s.row_group_rows == config.lifecycle.spec_batch_row_threshold(config.flush_rows)
            &&& s.sync_interval_ns == sat_mul(config.lifecycle.durability.sync_interval_ms, 1_000_000)
            &&& s.seal is Some <==> config.lifecycle.seal.enabled
            &&& s.seal matches Some(seal) ==> Some(seal.schedule_ns) == spec_parse_seal_schedule(config.lifecycle.seal.schedule@)
                && Some(seal.timezone) == tz_named(trim(config.lifecycle.seal.timezone@))
                && seal.interval_ns == seal_interval_ns(config.lifecycle.seal.interval_secs)
        },
{
    if !config.lifecycle.is_segment_mode() {
        return Err(CaptureError::from_str("segment sink requires output.lifecycle.mode = segment"));
    }
    let cs = chars_of(config.catalog_uri.as_str());
    let prefix = chars_of("file://");
    proof {
        reveal_strlit("file://");
    }
    if !(cs.len() >= 7 && run_at(&cs, &prefix, 0)) {
        return Err(CaptureError::from_str("segment lifecycle requires a file:// catalog_uri"));
    }
    let local_root = string_from_chars(&cs, 7, cs.len());
    assert(cs@.subrange(7, cs@.len() as int) =~= cs@.skip(7));
    let seal = match config.lifecycle.resolved_seal() {
        Ok(seal) => seal,
        Err(e) => {
            return Err(e);
        },
    };
    Ok(SegmentSettings {
        local_root,
        seal,
        compression: config.compression,
        row_group_rows: config.lifecycle.batch_row_threshold(config.flush_rows),
        sync_interval_ns: saturating_mul_u64(config.lifecycle.durability.sync_interval_ms, 1_000_000),
    })
}

} // verus!
