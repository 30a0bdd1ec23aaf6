//! Prometheus text exposition of capture metric snapshots.
use vstd::prelude::*;

use crate::metrics::{CaptureMetrics, FlushReasonMetrics};
use crate::text::{chars_of, decimal, push_char, push_str, push_u64};

verus! {

/// Counters of one writer family.
#[derive(Debug, Clone, PartialEq, Eq)]
pub struct FamilyCaptureMetrics {
    pub family: String,
    pub metrics: CaptureMetrics,
}

impl Default for FamilyCaptureMetrics {
    fn default() -> (m: Self)
        ensures
            m.family@.len() == 0,
            m.metrics.spec_is_zero(),
    {
        FamilyCaptureMetrics { family: String::new(), metrics: CaptureMetrics::zero() }
    }
}

/// Counters of one request-poll job.
#[derive(Debug, Clone, PartialEq, Eq)]
pub struct CustomDataRequestJobMetrics {
    pub index: usize,
    pub type_label: String,
    pub identifier: Option<String>,
    pub in_flight: bool,
    pub polls: u64,
    pub rows: u64,
    pub skipped_inflight: u64,
    pub timeouts: u64,
}

impl Default for CustomDataRequestJobMetrics {
    fn default() -> (m: Self)
        ensures
            m.index == 0,
            m.type_label@.len() == 0,
            m.identifier is None,
            !m.in_flight,
            m.polls == 0 && m.rows == 0 && m.skipped_inflight == 0 && m.timeouts == 0,
    {
        CustomDataRequestJobMetrics {
            index: 0,
            type_label: String::new(),
            identifier: None,
            in_flight: false,
            polls: 0,
            rows: 0,
            skipped_inflight: 0,
            timeouts: 0,
        }
    }
}

/// Point-in-time view of all capture counters.
#[derive(Debug, Clone, PartialEq, Eq)]
pub struct CaptureMetricsSnapshot {
    pub captured_at_unix_ms: u64,
    pub enabled_background_workers: usize,
    pub process_rss_bytes: Option<u64>,
    pub aggregated: CaptureMetrics,
    pub families: Vec<FamilyCaptureMetrics>,
    /// Request-poll jobs; empty when no requests are configured.
    pub custom_data_requests: Vec<CustomDataRequestJobMetrics>,
}

impl Default for CaptureMetricsSnapshot {
    fn default() -> (s: Self)
        ensures
            s.captured_at_unix_ms == 0,
            s.enabled_background_workers == 0,
            s.process_rss_bytes is None,
            s.aggregated.spec_is_zero(),
            s.families@.len() == 0,
            s.custom_data_requests@.len() == 0,
    {
        CaptureMetricsSnapshot {
            captured_at_unix_ms: 0,
            enabled_background_workers: 0,
            process_rss_bytes: None,
            aggregated: CaptureMetrics::zero(),
            families: Vec::new(),
            custom_data_requests: Vec::new(),
        }
    }
}

/// The `# HELP` / `# TYPE` preamble of every exposition.
pub const PROMETHEUS_HELP: &'static str = "# HELP catalog_capture_info Capture metrics snapshot metadata\n# TYPE catalog_capture_info gauge\n# HELP catalog_capture_enabled_background_workers Active background worker threads\n# TYPE catalog_capture_enabled_background_workers gauge\n# HELP catalog_capture_process_rss_bytes Process RSS in bytes (Linux: resident; macOS: footprint)\n# TYPE catalog_capture_process_rss_bytes gauge\n# HELP catalog_capture_accepted_items_total Accepted capture items\n# TYPE catalog_capture_accepted_items_total counter\n# HELP catalog_capture_dropped_items_total Dropped capture items\n# TYPE catalog_capture_dropped_items_total counter\n# HELP catalog_capture_active_partitions Buffered partitions awaiting flush\n# TYPE catalog_capture_active_partitions gauge\n# HELP catalog_capture_queued_items Background queue depth\n# TYPE catalog_capture_queued_items gauge\n# HELP catalog_capture_buffered_bytes Summed partition buffer bytes\n# TYPE catalog_capture_buffered_bytes gauge\n# HELP catalog_capture_flushed_rows_total Rows flushed to catalog\n# TYPE catalog_capture_flushed_rows_total counter\n# HELP catalog_capture_completed_files_total Completed parquet files\n# TYPE catalog_capture_completed_files_total counter\n# HELP catalog_capture_completed_file_bytes_total Completed parquet file bytes\n# TYPE catalog_capture_completed_file_bytes_total counter\n# HELP catalog_capture_flush_reasons_total Flush invocations by reason\n# TYPE catalog_capture_flush_reasons_total counter\n# HELP catalog_capture_custom_data_request_polls_total request_data poll attempts\n# TYPE catalog_capture_custom_data_request_polls_total counter\n# HELP catalog_capture_custom_data_request_rows_total rows accepted from request responses\n# TYPE catalog_capture_custom_data_request_rows_total counter\n# HELP catalog_capture_custom_data_request_skipped_inflight_total poll ticks skipped while a request was in flight\n# TYPE catalog_capture_custom_data_request_skipped_inflight_total counter\n# HELP catalog_capture_custom_data_request_timeouts_total in-flight request timeouts cleared for re-fire\n# TYPE catalog_capture_custom_data_request_timeouts_total counter\n# HELP catalog_capture_custom_data_request_in_flight whether a request is currently in flight (1/0)\n# TYPE catalog_capture_custom_data_request_in_flight gauge\n";

/// One sample line: `name labels value`.
pub open spec fn prom_line(name: Seq<char>, labels: Seq<char>, value: Seq<char>) -> Seq<char> {
    name + labels + seq![' '] + value + seq!['\n']
}

/// Escape of one label character: backslash and double quote get a backslash.
pub open spec fn escape_char(c: char) -> Seq<char> {
    if c == '\\' {
        seq!['\\', '\\']
    } else if c == '"' {
        seq!['\\', '"']
    } else {
        seq![c]
    }
}

/// Label value escape.
pub open spec fn escape_label_text(s: Seq<char>) -> Seq<char>
    decreases s.len(),
{
    if s.len() == 0 {
        Seq::empty()
    } else {
        escape_label_text(s.drop_last()) + escape_char(s.last())
    }
}

/// `s` without its leading run of `c`.
pub open spec fn trim_leading(s: Seq<char>, c: char) -> Seq<char>
    decreases s.len(),
{
    if s.len() > 0 && s[0] == c {
        trim_leading(s.drop_first(), c)
    } else {
        s
    }
}

/// `s` without its trailing run of `c`.
pub open spec fn trim_trailing(s: Seq<char>, c: char) -> Seq<char>
    decreases s.len(),
{
    if s.len() > 0 && s.last() == c {
        trim_trailing(s.drop_last(), c)
    } else {
        s
    }
}

/// Family labels with one more label appended inside the braces.
pub open spec fn merged_labels(family_labels: Seq<char>, extra: Seq<char>) -> Seq<char> {
    if family_labels.len() == 0 {
        seq!['{'] + extra + seq!['}']
    } else {
        seq!['{'] + trim_trailing(trim_leading(family_labels, '{'), '}') + seq![','] + extra + seq!['}']
    }
}

/// Flush reasons in exposition order, with their label values.
pub open spec fn flush_reason_entries(r: FlushReasonMetrics) -> Seq<(Seq<char>, u64)> {
    seq![
        ("rows"@, r.row_threshold),
        ("bytes"@, r.byte_threshold),
        ("interval"@, r.interval),
        ("seal"@, r.seal),
        ("shutdown"@, r.shutdown),
        ("manual"@, r.manual),
        ("budget"@, r.budget),
    ]
}

/// Flush reason lines for the first `n` entries.
pub open spec fn flush_reason_lines(labels: Seq<char>, entries: Seq<(Seq<char>, u64)>, n: nat) -> Seq<char>
    decreases n,
{
    if n == 0 {
        Seq::empty()
    } else {
        let e = entries[n - 1];
        flush_reason_lines(labels, entries, (n - 1) as nat) + prom_line(
            "catalog_capture_flush_reasons_total"@,
            merged_labels(labels, "reason=\""@ + e.0 + "\""@),
            decimal(e.1 as nat),
        )
    }
}

/// All counter lines of one metrics block.
pub open spec fn metrics_block_text(labels: Seq<char>, m: CaptureMetrics) -> Seq<char> {
    prom_line("catalog_capture_accepted_items_total"@, labels, decimal(m.accepted_items as nat))
        + prom_line("catalog_capture_dropped_items_total"@, labels, decimal(m.dropped_items as nat))
        + prom_line("catalog_capture_active_partitions"@, labels, decimal(m.active_partitions as nat))
        + prom_line("catalog_capture_queued_items"@, labels, decimal(m.queued_items as nat))
        + prom_line("catalog_capture_buffered_bytes"@, labels, decimal(m.buffered_bytes as nat))
        + prom_line("catalog_capture_flushed_rows_total"@, labels, decimal(m.flushed_rows as nat))
        + prom_line("catalog_capture_completed_files_total"@, labels, decimal(m.completed_files as nat))
        + prom_line("catalog_capture_completed_file_bytes_total"@, labels, decimal(m.completed_file_bytes as nat))
        + flush_reason_lines(labels, flush_reason_entries(m.flush_reasons), 7)
}

/// `{family="..."}` with the family name escaped.
pub open spec fn family_labels(family: Seq<char>) -> Seq<char> {
    "{family=\""@ + escape_label_text(family) + "\"}"@
}

/// Metrics blocks of the families.
pub open spec fn families_text(fs: Seq<FamilyCaptureMetrics>) -> Seq<char>
    decreases fs.len(),
{
    if fs.len() == 0 {
        Seq::empty()
    } else {
        families_text(fs.drop_last()) + metrics_block_text(family_labels(fs.last().family@), fs.last().metrics)
    }
}

/// Snapshot metadata, worker and memory gauges.
pub open spec fn runtime_gauges_text(s: CaptureMetricsSnapshot) -> Seq<char> {
    prom_line(
        "catalog_capture_info"@,
        Seq::empty(),
        "{captured_at_unix_ms=\""@ + decimal(s.captured_at_unix_ms as nat) + "\"}\" 1"@,
    ) + prom_line("catalog_capture_enabled_background_workers"@, Seq::empty(), decimal(s.enabled_background_workers as nat))
        + match s.process_rss_bytes {
        Some(rss) => prom_line("catalog_capture_process_rss_bytes"@, Seq::empty(), decimal(rss as nat)),
        None => Seq::empty(),
    }
}

/// The job's identifier, or empty.
pub open spec fn job_id(j: CustomDataRequestJobMetrics) -> Seq<char> {
    match j.identifier {
        Some(id) => id@,
        None => Seq::empty(),
    }
}

/// `{index="..",type_name="..",id=".."}`.
pub open spec fn job_labels(j: CustomDataRequestJobMetrics) -> Seq<char> {
    "{index=\""@ + decimal(j.index as nat) + "\",type_name=\""@ + escape_label_text(j.type_label@) + "\",id=\""@
        + escape_label_text(job_id(j)) + "\"}"@
}

pub open spec fn flag_text(b: bool) -> Seq<char> {
    if b { seq!['1'] } else { seq!['0'] }
}

/// The five counter lines of one job.
pub open spec fn job_text(j: CustomDataRequestJobMetrics) -> Seq<char> {
    let l = job_labels(j);
    prom_line("catalog_capture_custom_data_request_polls_total"@, l, decimal(j.polls as nat))
        + prom_line("catalog_capture_custom_data_request_rows_total"@, l, decimal(j.rows as nat))
        + prom_line("catalog_capture_custom_data_request_skipped_inflight_total"@, l, decimal(j.skipped_inflight as nat))
        + prom_line("catalog_capture_custom_data_request_timeouts_total"@, l, decimal(j.timeouts as nat))
        + prom_line("catalog_capture_custom_data_request_in_flight"@, l, flag_text(j.in_flight))
}

pub open spec fn jobs_text(js: Seq<CustomDataRequestJobMetrics>) -> Seq<char>
    decreases js.len(),
{
    if js.len() == 0 {
        Seq::empty()
    } else {
        jobs_text(js.drop_last()) + job_text(js.last())
    }
}

/// Sum that stops at `u64::MAX`.
pub open spec fn saturating_total(s: Seq<u64>) -> u64
    decreases s.len(),
{
    if s.len() == 0 {
        0
    } else {
        saturating_total(s.drop_last()).saturating_add(s.last())
    }
}

pub open spec fn job_totals(js: Seq<CustomDataRequestJobMetrics>) -> (u64, u64, u64, u64, u64) {
    (
        saturating_total(js.map_values(|j: CustomDataRequestJobMetrics| j.polls)),
        saturating_total(js.map_values(|j: CustomDataRequestJobMetrics| j.rows)),
        saturating_total(js.map_values(|j: CustomDataRequestJobMetrics| j.skipped_inflight)),
        saturating_total(js.map_values(|j: CustomDataRequestJobMetrics| j.timeouts)),
        saturating_total(js.map_values(|j: CustomDataRequestJobMetrics| if j.in_flight { 1u64 } else { 0u64 })),
    )
}

/// Per-job lines, then unlabelled totals; nothing when there are no jobs.
pub open spec fn custom_requests_text(js: Seq<CustomDataRequestJobMetrics>) -> Seq<char> {
    if js.len() == 0 {
        Seq::empty()
    } else {
        let t = job_totals(js);
        jobs_text(js)
            + prom_line("catalog_capture_custom_data_request_polls_total"@, Seq::empty(), decimal(t.0 as nat))
            + prom_line("catalog_capture_custom_data_request_rows_total"@, Seq::empty(), decimal(t.1 as nat))
            + prom_line("catalog_capture_custom_data_request_skipped_inflight_total"@, Seq::empty(), decimal(t.2 as nat))
            + prom_line("catalog_capture_custom_data_request_timeouts_total"@, Seq::empty(), decimal(t.3 as nat))
            + prom_line("catalog_capture_custom_data_request_in_flight"@, Seq::empty(), decimal(t.4 as nat))
    }
}

/// The whole exposition.
pub open spec fn prometheus_text(s: CaptureMetricsSnapshot) -> Seq<char> {
    PROMETHEUS_HELP@ + runtime_gauges_text(s) + metrics_block_text(Seq::empty(), s.aggregated)
        + families_text(s.families@) + custom_requests_text(s.custom_data_requests@)
}

fn append_line(out: &mut String, name: &str, labels: &str, value: &str)
    ensures
        final(out)@ == old(out)@ + prom_line(name@, labels@, value@),
{
    push_str(out, name);
    push_str(out, labels);
    push_char(out, ' ');
    push_str(out, value);
    push_char(out, '\n');
    assert(final(out)@ =~= old(out)@ + prom_line(name@, labels@, value@));
}

fn append_line_u64(out: &mut String, name: &str, labels: &str, value: u64)
    ensures
        final(out)@ == old(out)@ + prom_line(name@, labels@, decimal(value as nat)),
{
    push_str(out, name);
    push_str(out, labels);
    push_char(out, ' ');
    push_u64(out, value);
    push_char(out, '\n');
    assert(final(out)@ =~= old(out)@ + prom_line(name@, labels@, decimal(value as nat)));
}

/// Appends the escape of `value`.
fn push_escaped(out: &mut String, value: &str)
    ensures
        final(out)@ == old(out)@ + escape_label_text(value@),
{
    let cs = chars_of(value);
    let ghost start = out@;
    let mut i: usize = 0;
    assert(cs@.take(0) =~= Seq::<char>::empty());
    while i < cs.len()
        invariant
            i <= cs@.len(),
            cs@ == value@,
            out@ == start + escape_label_text(cs@.take(i as int)),
        decreases cs@.len() - i,
    {
        let c = cs[i];
        if c == '\\' {
            push_char(out, '\\');
            push_char(out, '\\');
        } else if c == '"' {
            push_char(out, '\\');
            push_char(out, '"');
        } else {
            push_char(out, c);
        }
        proof {
            let t = cs@.take(i as int + 1);
            assert(t.drop_last() =~= cs@.take(i as int));
            assert(t.last() == c);
            assert(out@ =~= start + escape_label_text(t));
        }
        i = i + 1;
    }
    assert(cs@.take(cs@.len() as int) =~= cs@);
}

proof fn lemma_trim_leading_run(s: Seq<char>, c: char, i: int)
    requires
        0 <= i <= s.len(),
        forall|k: int| 0 <= k < i ==> s[k] == c,
        i == s.len() || s[i] != c,
    ensures
        trim_leading(s, c) == s.skip(i),
    decreases i,
{
    if i == 0 {
        assert(s.skip(0) =~= s);
    } else {
        lemma_trim_leading_run(s.drop_first(), c, i - 1);
        assert(s.drop_first().skip(i - 1) =~= s.skip(i));
    }
}

proof fn lemma_trim_trailing_run(s: Seq<char>, c: char, j: int)
    requires
        0 <= j <= s.len(),
        forall|k: int| j <= k < s.len() ==> s[k] == c,
        j == 0 || s[j - 1] != c,
    ensures
        trim_trailing(s, c) == s.take(j),
    decreases s.len() - j,
{
    if j == s.len() {
        assert(s.take(j) =~= s);
    } else {
        lemma_trim_trailing_run(s.drop_last(), c, j);
        assert(s.drop_last().take(j) =~= s.take(j));
    }
}

/// Family labels (`{...}`) with `extra` appended inside the braces.
fn merge_labels(family_labels: &str, extra: &str) -> (r: String)
    ensures
        r@ == merged_labels(family_labels@, extra@),
{
    let mut r = String::new();
    push_char(&mut r, '{');
    if family_labels.is_empty() {
        push_str(&mut r, extra);
        push_char(&mut r, '}');
        assert(r@ =~= merged_labels(family_labels@, extra@));
        return r;
    }
    let cs = chars_of(family_labels);
    let n = cs.len();
    let mut i: usize = 0;
    while i < n && cs[i] == '{'
        invariant
            i <= n,
            n == cs@.len(),
            forall|k: int| 0 <= k < i ==> cs@[k] == '{',
        decreases n - i,
    {
        i = i + 1;
    }
    let mut j: usize = n;
    while j > i && cs[j - 1] == '}'
        invariant
            i <= j <= n,
            n == cs@.len(),
            forall|k: int| j <= k < n ==> cs@[k] == '}',
        decreases j,
    {
        j = j - 1;
    }
    let mut k: usize = i;
    let ghost head = r@;
    while k < j
        invariant
            i <= k <= j,
            j <= n,
            n == cs@.len(),
            r@ == head + cs@.subrange(i as int, k as int),
        decreases j - k,
    {
        push_char(&mut r, cs[k]);
        assert(r@ =~= head + cs@.subrange(i as int, k as int + 1));
        k = k + 1;
    }
    push_char(&mut r, ',');
    push_str(&mut r, extra);
    push_char(&mut r, '}');
    proof {
        let s = family_labels@;
        lemma_trim_leading_run(s, '{', i as int);
        let t = s.skip(i as int);
        if i < j {
            assert(t[j - i - 1] == s[j - 1]);
        }
        lemma_trim_trailing_run(t, '}', j - i);
        assert(t.take(j - i) =~= cs@.subrange(i as int, j as int));
        assert(r@ =~= merged_labels(family_labels@, extra@));
    }
    r
}

fn append_flush_reasons(out: &mut String, family_labels: &str, reasons: &FlushReasonMetrics)
    ensures
        final(out)@ == old(out)@ + flush_reason_lines(family_labels@, flush_reason_entries(*reasons), 7),
{
    let names: [&'static str; 7] = ["rows", "bytes", "interval", "seal", "shutdown", "manual", "budget"];
    let values: [u64; 7] = [
        reasons.row_threshold,
        reasons.byte_threshold,
        reasons.interval,
        reasons.seal,
        reasons.shutdown,
        reasons.manual,
        reasons.budget,
    ];
    let ghost entries = flush_reason_entries(*reasons);
    assert(forall|k: int| 0 <= k < 7 ==> #[trigger] entries[k] == (names@[k]@, values@[k]));
    let ghost start = out@;
    let mut i: usize = 0;
    while i < 7
        invariant
            i <= 7,
            names@.len() == 7,
            values@.len() == 7,
            forall|k: int| 0 <= k < 7 ==> #[trigger] entries[k] == (names@[k]@, values@[k]),
            out@ == start + flush_reason_lines(family_labels@, entries, i as nat),
        decreases 7 - i,
    {
        let mut extra = String::new();
        push_str(&mut extra, "reason=\"");
        push_str(&mut extra, names[i]);
        push_char(&mut extra, '"');
        let labels = merge_labels(family_labels, extra.as_str());
        append_line_u64(out, "catalog_capture_flush_reasons_total", labels.as_str(), values[i]);
        proof {
            assert(entries[i as int] == (names@[i as int]@, values@[i as int]));
            assert("\""@ == seq!['"']) by {
                reveal_strlit("\"");
            }
            assert(extra@ =~= "reason=\""@ + names@[i as int]@ + "\""@);
            assert(out@ =~= start + flush_reason_lines(family_labels@, entries, (i + 1) as nat));
        }
        i = i + 1;
    }
}

fn append_metrics_block(out: &mut String, labels: &str, metrics: &CaptureMetrics)
    ensures
        final(out)@ == old(out)@ + metrics_block_text(labels@, *metrics),
{
    let ghost start = out@;
    append_line_u64(out, "catalog_capture_accepted_items_total", labels, metrics.accepted_items);
    append_line_u64(out, "catalog_capture_dropped_items_total", labels, metrics.dropped_items);
    append_line_u64(out, "catalog_capture_active_partitions", labels, metrics.active_partitions);
    append_line_u64(out, "catalog_capture_queued_items", labels, metrics.queued_items);
    append_line_u64(out, "catalog_capture_buffered_bytes", labels, metrics.buffered_bytes);
    append_line_u64(out, "catalog_capture_flushed_rows_total", labels, metrics.flushed_rows);
    append_line_u64(out, "catalog_capture_completed_files_total", labels, metrics.completed_files);
    append_line_u64(out, "catalog_capture_completed_file_bytes_total", labels, metrics.completed_file_bytes);
    append_flush_reasons(out, labels, &metrics.flush_reasons);
    assert(out@ =~= start + metrics_block_text(labels@, *metrics));
}

fn append_runtime_gauges(out: &mut String, snapshot: &CaptureMetricsSnapshot)
    ensures
        final(out)@ == old(out)@ + runtime_gauges_text(*snapshot),
{
    let ghost start = out@;
    let mut info = String::new();
    push_str(&mut info, "{captured_at_unix_ms=\"");
    push_u64(&mut info, snapshot.captured_at_unix_ms);
    push_str(&mut info, "\"}\" 1");
    append_line(out, "catalog_capture_info", "", info.as_str());
    append_line_u64(out, "catalog_capture_enabled_background_workers", "", snapshot.enabled_background_workers as u64);
    match snapshot.process_rss_bytes {
        Some(rss) => {
            append_line_u64(out, "catalog_capture_process_rss_bytes", "", rss);
        },
        None => {},
    }
    proof {
        reveal_strlit("");
        assert(info@ =~= "{captured_at_unix_ms=\""@ + decimal(snapshot.captured_at_unix_ms as nat) + "\"}\" 1"@);
        assert(out@ =~= start + runtime_gauges_text(*snapshot));
    }
}

fn push_job_labels(out: &mut String, job: &CustomDataRequestJobMetrics)
    ensures
        final(out)@ == old(out)@ + job_labels(*job),
{
    let ghost start = out@;
    push_str(out, "{index=\"");
    push_u64(out, job.index as u64);
    push_str(out, "\",type_name=\"");
    push_escaped(out, job.type_label.as_str());
    push_str(out, "\",id=\"");
    match &job.identifier {
        Some(id) => push_escaped(out, id.as_str()),
        None => push_escaped(out, ""),
    }
    push_str(out, "\"}");
    proof {
        reveal_strlit("");
        assert(out@ =~= start + job_labels(*job));
    }
}

fn append_job(out: &mut String, job: &CustomDataRequestJobMetrics)
    ensures
        final(out)@ == old(out)@ + job_text(*job),
{
    let ghost start = out@;
    let mut labels = String::new();
    push_job_labels(&mut labels, job);
    assert(labels@ =~= job_labels(*job));
    append_line_u64(out, "catalog_capture_custom_data_request_polls_total", labels.as_str(), job.polls);
    append_line_u64(out, "catalog_capture_custom_data_request_rows_total", labels.as_str(), job.rows);
    append_line_u64(out, "catalog_capture_custom_data_request_skipped_inflight_total", labels.as_str(), job.skipped_inflight);
    append_line_u64(out, "catalog_capture_custom_data_request_timeouts_total", labels.as_str(), job.timeouts);
    let flag: &str = if job.in_flight { "1" } else { "0" };
    append_line(out, "catalog_capture_custom_data_request_in_flight", labels.as_str(), flag);
    proof {
        reveal_strlit("1");
        reveal_strlit("0");
        assert(out@ =~= start + job_text(*job));
    }
}

proof fn lemma_map_values_take<A, B>(s: Seq<A>, f: spec_fn(A) -> B, i: int)
    requires
        0 <= i < s.len(),
    ensures
        s.take(i + 1).map_values(f).drop_last() == s.take(i).map_values(f),
        s.take(i + 1).map_values(f).last() == f(s[i]),
{
    assert(s.take(i + 1).map_values(f).drop_last() =~= s.take(i).map_values(f));
}

fn append_custom_data_request_metrics(out: &mut String, snapshot: &CaptureMetricsSnapshot)
    ensures
        final(out)@ == old(out)@ + custom_requests_text(snapshot.custom_data_requests@),
{
    let jobs = &snapshot.custom_data_requests;
    if jobs.len() == 0 {
        assert(out@ =~= old(out)@ + custom_requests_text(jobs@));
        return;
    }
    let ghost start = out@;
    let mut total_polls: u64 = 0;
    let mut total_rows: u64 = 0;
    let mut total_skipped: u64 = 0;
    let mut total_timeouts: u64 = 0;
    let mut in_flight_jobs: u64 = 0;
    let mut i: usize = 0;
    assert(jobs@.take(0) =~= Seq::<CustomDataRequestJobMetrics>::empty());
    while i < jobs.len()
        invariant
            i <= jobs@.len(),
            out@ == start + jobs_text(jobs@.take(i as int)),
            (total_polls, total_rows, total_skipped, total_timeouts, in_flight_jobs) == job_totals(jobs@.take(i as int)),
        decreases jobs@.len() - i,
    {
        let job = &jobs[i];
        total_polls = total_polls.saturating_add(job.polls);
        total_rows = total_rows.saturating_add(job.rows);
        total_skipped = total_skipped.saturating_add(job.skipped_inflight);
        total_timeouts = total_timeouts.saturating_add(job.timeouts);
        if job.in_flight {
            in_flight_jobs = in_flight_jobs.saturating_add(1);
        }
        append_job(out, job);
        proof {
            let t = jobs@.take(i as int + 1);
            assert(t.drop_last() =~= jobs@.take(i as int));
            assert(t.last() == jobs@[i as int]);
            lemma_map_values_take(jobs@, |j: CustomDataRequestJobMetrics| j.polls, i as int);
            lemma_map_values_take(jobs@, |j: CustomDataRequestJobMetrics| j.rows, i as int);
            lemma_map_values_take(jobs@, |j: CustomDataRequestJobMetrics| j.skipped_inflight, i as int);
            lemma_map_values_take(jobs@, |j: CustomDataRequestJobMetrics| j.timeouts, i as int);
            lemma_map_values_take(jobs@, |j: CustomDataRequestJobMetrics| if j.in_flight { 1u64 } else { 0u64 }, i as int);
            assert(out@ =~= start + jobs_text(t));
        }
        i = i + 1;
    }
    assert(jobs@.take(jobs@.len() as int) =~= jobs@);
    append_line_u64(out, "catalog_capture_custom_data_request_polls_total", "", total_polls);
    append_line_u64(out, "catalog_capture_custom_data_request_rows_total", "", total_rows);
    append_line_u64(out, "catalog_capture_custom_data_request_skipped_inflight_total", "", total_skipped);
    append_line_u64(out, "catalog_capture_custom_data_request_timeouts_total", "", total_timeouts);
    append_line_u64(out, "catalog_capture_custom_data_request_in_flight", "", in_flight_jobs);
    proof {
        reveal_strlit("");
        assert(out@ =~= start + custom_requests_text(jobs@));
    }
}

/// Prometheus text exposition of a snapshot: the help preamble, runtime gauges, the
/// aggregated block, one labelled block per family, then the request-poll job counters.
pub fn render_prometheus(snapshot: &CaptureMetricsSnapshot) -> (body: String)
    ensures
        body@ == prometheus_text(*snapshot),
{
    let mut out = String::new();
    push_str(&mut out, PROMETHEUS_HELP);
    append_runtime_gauges(&mut out, snapshot);
    append_metrics_block(&mut out, "", &snapshot.aggregated);
    proof {
        reveal_strlit("");
        assert(""@ =~= Seq::<char>::empty());
        assert(out@ =~= PROMETHEUS_HELP@ + runtime_gauges_text(*snapshot) + metrics_block_text(Seq::empty(), snapshot.aggregated));
    }
    let ghost head = out@;
    let families = &snapshot.families;
    let mut i: usize = 0;
    assert(families@.take(0) =~= Seq::<FamilyCaptureMetrics>::empty());
    while i < families.len()
        invariant
            i <= families@.len(),
            out@ == head + families_text(families@.take(i as int)),
        decreases families@.len() - i,
    {
        let family = &families[i];
        let mut labels = String::new();
        push_str(&mut labels, "{family=\"");
        push_escaped(&mut labels, family.family.as_str());
        push_str(&mut labels, "\"}");
        append_metrics_block(&mut out, labels.as_str(), &family.metrics);
        proof {
            let t = families@.take(i as int + 1);
            assert(t.drop_last() =~= families@.take(i as int));
            assert(t.last() == families@[i as int]);
            assert(labels@ =~= family_labels(family.family@));
            assert(out@ =~= head + families_text(t));
        }
        i = i + 1;
    }
    assert(families@.take(families@.len() as int) =~= families@);
    let ghost mid = out@;
    append_custom_data_request_metrics(&mut out, snapshot);
    assert(mid == head + families_text(snapshot.families@));
    assert(out@ =~= prometheus_text(*snapshot));
    out
}

} // verus!
