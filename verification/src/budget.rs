//! Startup estimate of peak partition-buffer memory, and configuration checks.
use vstd::prelude::*;

use crate::config::CaptureConfig;
use crate::error::CaptureError;
use crate::plan::{CaptureFamilyRuntimeFlags, CapturePlan, planned_id_count};
use crate::text::{decimal, push_str, push_u64};

verus! {

/// Buffer estimate of one writer family.
#[derive(Debug, Clone, PartialEq, Eq)]
pub struct FamilyBufferEstimate {
    pub family: &'static str,
    pub partition_count: usize,
    /// `partition_count * max_buffer_bytes`.
    pub naive_peak_bytes: u64,
    /// The naive peak, capped at `max_total_buffer_bytes`.
    pub capped_peak_bytes: u64,
}

/// Buffer estimate of a whole plan.
#[derive(Debug, Clone, PartialEq, Eq)]
pub struct BufferMemoryEstimate {
    pub families: Vec<FamilyBufferEstimate>,
    pub enabled_family_runtimes: usize,
    pub total_peak_buffered_bytes: u64,
}

/// Writer families in estimate order.
pub open spec fn family_names() -> Seq<Seq<char>> {
    seq![
        "instruments"@,
        "custom_data"@,
        "quotes"@,
        "trades"@,
        "bars"@,
        "book_deltas"@,
        "mark_prices"@,
        "index_prices"@,
        "funding_rates"@,
        "instrument_statuses"@,
        "instrument_closes"@,
        "option_greeks"@,
    ]
}

pub open spec fn max_nat(a: nat, b: nat) -> nat {
    if a >= b { a } else { b }
}

/// Whether each family's writer runs, in estimate order.
pub open spec fn family_enabled(plan: CapturePlan) -> Seq<bool> {
    let f = plan.spec_runtime_flags();
    seq![
        f.instruments,
        f.custom_data,
        f.quotes,
        f.trades,
        f.bars,
        f.book_deltas,
        f.mark_prices,
        f.index_prices,
        f.funding_rates,
        f.instrument_statuses,
        f.instrument_closes,
        f.option_greeks,
    ]
}

/// Partitions each family may open, in estimate order. The instruments family counts
/// the distinct planned identifiers, or its own entries where those are more.
pub open spec fn family_sizes(plan: CapturePlan) -> Seq<nat> {
    seq![
        max_nat(planned_id_count(plan), plan.instruments@.len()),
        plan.custom_data@.len(),
        plan.quotes@.len(),
        plan.trades@.len(),
        plan.bars@.len(),
        plan.book_deltas@.len(),
        plan.mark_prices@.len(),
        plan.index_prices@.len(),
        plan.funding_rates@.len(),
        plan.instrument_statuses@.len(),
        plan.instrument_closes@.len(),
        plan.option_greeks@.len(),
    ]
}

/// The enabled families with at least one partition among the first `n`, with their counts.
pub open spec fn kept_families(names: Seq<Seq<char>>, enabled: Seq<bool>, sizes: Seq<nat>, n: nat) -> Seq<(Seq<char>, nat)>
    decreases n,
{
    if n == 0 {
        Seq::empty()
    } else {
        let k = kept_families(names, enabled, sizes, (n - 1) as nat);
        let i = n - 1;
        if enabled[i] && sizes[i] > 0 { k.push((names[i], sizes[i])) } else { k }
    }
}

/// Family partition counts used for the estimate.
pub open spec fn spec_family_partition_counts(plan: CapturePlan) -> Seq<(Seq<char>, nat)> {
    kept_families(family_names(), family_enabled(plan), family_sizes(plan), 12)
}

/// Counts by value.
pub open spec fn counts_view(s: Seq<(&'static str, usize)>) -> Seq<(Seq<char>, nat)> {
    s.map_values(|e: (&'static str, usize)| (e.0@, e.1 as nat))
}

/// Partition counts of the families whose writer runs and which have an entry, in
/// estimate order.
pub fn family_partition_counts(plan: &CapturePlan) -> (counts: Vec<(&'static str, usize)>)
    ensures
        counts_view(counts@) == spec_family_partition_counts(*plan),
{
    let flags: CaptureFamilyRuntimeFlags = plan.family_runtime_flags();
    let ids = plan.planned_instrument_ids();
    let instruments_n: usize = if ids.len() >= plan.instruments.len() { ids.len() } else { plan.instruments.len() };
    let names: [&'static str; 12] = [
        "instruments",
        "custom_data",
        "quotes",
        "trades",
        "bars",
        "book_deltas",
        "mark_prices",
        "index_prices",
        "funding_rates",
        "instrument_statuses",
        "instrument_closes",
        "option_greeks",
    ];
    let enabled: [bool; 12] = [
        flags.instruments,
        flags.custom_data,
        flags.quotes,
        flags.trades,
        flags.bars,
        flags.book_deltas,
        flags.mark_prices,
        flags.index_prices,
        flags.funding_rates,
        flags.instrument_statuses,
        flags.instrument_closes,
        flags.option_greeks,
    ];
    let sizes: [usize; 12] = [
        instruments_n,
        plan.custom_data.len(),
        plan.quotes.len(),
        plan.trades.len(),
        plan.bars.len(),
        plan.book_deltas.len(),
        plan.mark_prices.len(),
        plan.index_prices.len(),
        plan.funding_rates.len(),
        plan.instrument_statuses.len(),
        plan.instrument_closes.len(),
        plan.option_greeks.len(),
    ];
    let ghost gnames = family_names();
    let ghost genabled = family_enabled(*plan);
    let ghost gsizes = family_sizes(*plan);
    assert(names@.map_values(|s: &'static str| s@) =~= gnames);
    assert(enabled@ =~= genabled);
    assert(sizes@.map_values(|n: usize| n as nat) =~= gsizes);
    let mut counts: Vec<(&'static str, usize)> = Vec::new();
    let mut i: usize = 0;
    while i < 12
        invariant
            i <= 12,
            names@.len() == 12,
            enabled@.len() == 12,
            sizes@.len() == 12,
            names@.map_values(|s: &'static str| s@) == gnames,
            enabled@ == genabled,
            sizes@.map_values(|n: usize| n as nat) == gsizes,
            counts_view(counts@) == kept_families(gnames, genabled, gsizes, i as nat),
        decreases 12 - i,
    {
        let ghost before = counts@;
        assert(gnames[i as int] == names@[i as int]@);
        assert(gsizes[i as int] == sizes@[i as int] as nat);
        if enabled[i] && sizes[i] > 0 {
            counts.push((names[i], sizes[i]));
            assert(counts_view(counts@) =~= counts_view(before).push((names@[i as int]@, sizes@[i as int] as nat)));
        }
        i = i + 1;
    }
    counts
}

pub open spec fn min_nat(a: nat, b: nat) -> nat {
    if a <= b { a } else { b }
}

/// Sum of the capped per-family peaks of the first `n` counts.
pub open spec fn capped_total(counts: Seq<(Seq<char>, nat)>, per_partition: nat, per_family_cap: nat, n: nat) -> nat
    decreases n,
{
    if n == 0 {
        0
    } else {
        capped_total(counts, per_partition, per_family_cap, (n - 1) as nat)
            + min_nat(counts[n - 1].1 * per_partition, per_family_cap)
    }
}

/// The estimate fits in `u64`: no family's naive peak and not the capped total overflows.
pub open spec fn estimate_fits(plan: CapturePlan, config: CaptureConfig) -> bool {
    let counts = spec_family_partition_counts(plan);
    &&& forall|i: int| 0 <= i < counts.len() ==> #[trigger] counts[i].1 * config.max_buffer_bytes <= u64::MAX
    &&& capped_total(counts, config.max_buffer_bytes as nat, config.max_total_buffer_bytes as nat, counts.len()) <= u64::MAX
}

/// Estimate of a family entry, by value.
pub open spec fn family_estimate_matches(e: FamilyBufferEstimate, c: (Seq<char>, nat), per_partition: nat, per_family_cap: nat) -> bool {
    &&& e.family@ == c.0
    &&& e.partition_count == c.1
    &&& e.naive_peak_bytes == c.1 * per_partition
    &&& e.capped_peak_bytes == min_nat(c.1 * per_partition, per_family_cap)
}

proof fn lemma_capped_total_monotone(counts: Seq<(Seq<char>, nat)>, p: nat, cap: nat, a: nat, b: nat)
    requires
        a <= b,
    ensures
        capped_total(counts, p, cap, a) <= capped_total(counts, p, cap, b),
    decreases b,
{
    if a < b {
        lemma_capped_total_monotone(counts, p, cap, a, (b - 1) as nat);
    }
}

/// Upper bound on buffered bytes across all enabled writer families: each family holds
/// at most `max_buffer_bytes` per partition, and at most `max_total_buffer_bytes` in all.
pub fn estimate_peak_buffered_bytes(plan: &CapturePlan, config: &CaptureConfig) -> (est: BufferMemoryEstimate)
    requires
        estimate_fits(*plan, *config),
    ensures
        est.families@.len() == spec_family_partition_counts(*plan).len(),
        forall|i: int| 0 <= i < est.families@.len() ==> family_estimate_matches(
            #[trigger] est.families@[i],
            spec_family_partition_counts(*plan)[i],
            config.max_buffer_bytes as nat,
            config.max_total_buffer_bytes as nat,
        ),
        est.total_peak_buffered_bytes == capped_total(
            spec_family_partition_counts(*plan),
            config.max_buffer_bytes as nat,
            config.max_total_buffer_bytes as nat,
            spec_family_partition_counts(*plan).len(),
        ),
        est.enabled_family_runtimes == plan.spec_runtime_flags().spec_count_enabled(),
{
    let per_partition = config.max_buffer_bytes as u64;
    let per_family_cap = config.max_total_buffer_bytes as u64;
    let counts = family_partition_counts(plan);
    let ghost gc = spec_family_partition_counts(*plan);
    let mut families: Vec<FamilyBufferEstimate> = Vec::new();
    let mut total: u64 = 0;
    let mut i: usize = 0;
    while i < counts.len()
        invariant
            i <= counts@.len(),
            counts_view(counts@) == gc,
            gc == spec_family_partition_counts(*plan),
            estimate_fits(*plan, *config),
            per_partition == config.max_buffer_bytes,
            per_family_cap == config.max_total_buffer_bytes,
            families@.len() == i,
            forall|j: int| 0 <= j < i ==> family_estimate_matches(
                #[trigger] families@[j], gc[j], per_partition as nat, per_family_cap as nat),
            total == capped_total(gc, per_partition as nat, per_family_cap as nat, i as nat),
        decreases counts@.len() - i,
    {
        let (family, partition_count) = counts[i];
        assert(gc[i as int] == (family@, partition_count as nat));
        assert(gc[i as int].1 * config.max_buffer_bytes <= u64::MAX);
        let naive_peak_bytes = partition_count as u64 * per_partition;
        let capped_peak_bytes = if naive_peak_bytes <= per_family_cap { naive_peak_bytes } else { per_family_cap };
        proof {
            lemma_capped_total_monotone(gc, per_partition as nat, per_family_cap as nat, (i + 1) as nat, gc.len());
        }
        total = total + capped_peak_bytes;
        families.push(FamilyBufferEstimate { family, partition_count, naive_peak_bytes, capped_peak_bytes });
        i = i + 1;
    }
    BufferMemoryEstimate {
        families,
        enabled_family_runtimes: plan.enabled_background_worker_count(),
        total_peak_buffered_bytes: total,
    }
}

pub open spec fn mib(n: u64) -> nat {
    (n / 1048576) as nat
}

/// One line per family of the estimate text.
pub open spec fn family_lines(fs: Seq<FamilyBufferEstimate>) -> Seq<char>
    decreases fs.len(),
{
    if fs.len() == 0 {
        Seq::empty()
    } else {
        let f = fs.last();
        family_lines(fs.drop_last()) + "\n  - "@ + f.family@ + ": "@ + decimal(f.partition_count as nat)
            + " partition(s), capped_peak="@ + decimal(mib(f.capped_peak_bytes)) + " MiB (naive="@
            + decimal(mib(f.naive_peak_bytes)) + " MiB)"@
    }
}

/// Text of [`format_buffer_estimate`].
pub open spec fn buffer_estimate_text(e: BufferMemoryEstimate) -> Seq<char> {
    "capture buffer estimate: "@ + decimal(mib(e.total_peak_buffered_bytes)) + " MiB peak across "@
        + decimal(e.enabled_family_runtimes as nat)
        + " family runtime(s) (max_buffer_bytes per partition, max_total_buffer_bytes per family)"@
        + family_lines(e.families@)
}

/// Human-readable estimate: a summary line, then one line per family (sizes in MiB,
/// rounded down).
pub fn format_buffer_estimate(estimate: &BufferMemoryEstimate) -> (s: String)
    ensures
        s@ == buffer_estimate_text(*estimate),
{
    let mut s = String::new();
    push_str(&mut s, "capture buffer estimate: ");
    push_u64(&mut s, estimate.total_peak_buffered_bytes / 1048576);
    push_str(&mut s, " MiB peak across ");
    push_u64(&mut s, estimate.enabled_family_runtimes as u64);
    push_str(&mut s, " family runtime(s) (max_buffer_bytes per partition, max_total_buffer_bytes per family)");
    let ghost head = s@;
    assert(estimate.families@.take(0) =~= Seq::<FamilyBufferEstimate>::empty());
    let mut i: usize = 0;
    while i < estimate.families.len()
        invariant
            i <= estimate.families@.len(),
            s@ == head + family_lines(estimate.families@.take(i as int)),
        decreases estimate.families@.len() - i,
    {
        let f = &estimate.families[i];
        push_str(&mut s, "\n  - ");
        push_str(&mut s, f.family);
        push_str(&mut s, ": ");
        push_u64(&mut s, f.partition_count as u64);
        push_str(&mut s, " partition(s), capped_peak=");
        push_u64(&mut s, f.capped_peak_bytes / 1048576);
        push_str(&mut s, " MiB (naive=");
        push_u64(&mut s, f.naive_peak_bytes / 1048576);
        push_str(&mut s, " MiB)");
        proof {
            let t = estimate.families@.take(i as int + 1);
            assert(t.drop_last() =~= estimate.families@.take(i as int));
            assert(t.last() == estimate.families@[i as int]);
            assert(s@ =~= head + family_lines(t));
        }
        i = i + 1;
    }
    assert(estimate.families@.take(estimate.families@.len() as int) =~= estimate.families@);
    assert(s@ =~= buffer_estimate_text(*estimate));
    s
}

/// Text of [`format_budget_warning`].
pub open spec fn budget_warning_text(total: u64, budget: u64) -> Seq<char> {
    "WARNING: estimated peak capture buffers ("@ + decimal(total as nat) + " bytes, ~"@ + decimal(mib(total))
        + " MiB) exceed runtime.resource_budget_bytes ("@ + decimal(budget as nat) + " bytes, ~"@
        + decimal(mib(budget))
        + " MiB). Reduce capture breadth, lower output.max_buffer_bytes / output.max_active_partitions, or raise runtime.resource_budget_bytes."@
}

/// Warning printed when the estimate exceeds the configured resource budget.
pub fn format_budget_warning(estimate: &BufferMemoryEstimate, budget_bytes: u64) -> (s: String)
    ensures
        s@ == budget_warning_text(estimate.total_peak_buffered_bytes, budget_bytes),
{
    let mut s = String::new();
    push_str(&mut s, "WARNING: estimated peak capture buffers (");
    push_u64(&mut s, estimate.total_peak_buffered_bytes);
    push_str(&mut s, " bytes, ~");
    push_u64(&mut s, estimate.total_peak_buffered_bytes / 1048576);
    push_str(&mut s, " MiB) exceed runtime.resource_budget_bytes (");
    push_u64(&mut s, budget_bytes);
    push_str(&mut s, " bytes, ~");
    push_u64(&mut s, budget_bytes / 1048576);
    push_str(
        &mut s,
        " MiB). Reduce capture breadth, lower output.max_buffer_bytes / output.max_active_partitions, or raise runtime.resource_budget_bytes.",
    );
    assert(s@ =~= budget_warning_text(estimate.total_peak_buffered_bytes, budget_bytes));
    s
}

/// Rejects a configuration with a zero buffer or partition limit; the first zero limit
/// (per-partition bytes, total bytes, active partitions) names the error.
pub fn validate_capture_config(config: &CaptureConfig) -> (r: Result<(), CaptureError>)
    ensures
        r is Ok <==> (config.max_buffer_bytes > 0 && config.max_total_buffer_bytes > 0
            && config.max_active_partitions > 0),
        config.max_buffer_bytes == 0 ==> (r matches Err(e)
            && e.message@ == "output.max_buffer_bytes must be greater than zero"@),
        config.max_buffer_bytes > 0 && config.max_total_buffer_bytes == 0 ==> (r matches Err(e)
            && e.message@ == "output.max_total_buffer_bytes must be greater than zero"@),
        config.max_buffer_bytes > 0 && config.max_total_buffer_bytes > 0 && config.max_active_partitions == 0
            ==> (r matches Err(e) && e.message@ == "output.max_active_partitions must be greater than zero"@),
{
    if config.max_buffer_bytes == 0 {
        return Err(CaptureError::from_str("output.max_buffer_bytes must be greater than zero"));
    }
    if config.max_total_buffer_bytes == 0 {
        return Err(CaptureError::from_str("output.max_total_buffer_bytes must be greater than zero"));
    }
    if config.max_active_partitions == 0 {
        return Err(CaptureError::from_str("output.max_active_partitions must be greater than zero"));
    }
    Ok(())
}

} // verus!
