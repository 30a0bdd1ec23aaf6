//! Capture-plan deltas produced by the dynamic universe managers: which
//! streams to subscribe to and which to drop when the active plan changes.
use vstd::prelude::*;

use crate::plan::{capture_plan_difference, extend_unique_spec, merge_capture_plans, seq_difference, views, CapturePlan};

verus! {

/// `d` holds, per family and in `left`'s order, the entries of `left` absent from `right`.
pub open spec fn is_plan_difference(d: CapturePlan, left: CapturePlan, right: CapturePlan) -> bool {
    &&& views(d.instruments@) == seq_difference(views(left.instruments@), views(right.instruments@))
    &&& views(d.quotes@) == seq_difference(views(left.quotes@), views(right.quotes@))
    &&& views(d.trades@) == seq_difference(views(left.trades@), views(right.trades@))
    &&& views(d.bars@) == seq_difference(views(left.bars@), views(right.bars@))
    &&& views(d.book_deltas@) == seq_difference(views(left.book_deltas@), views(right.book_deltas@))
    &&& views(d.mark_prices@) == seq_difference(views(left.mark_prices@), views(right.mark_prices@))
    &&& views(d.index_prices@) == seq_difference(views(left.index_prices@), views(right.index_prices@))
    &&& views(d.funding_rates@) == seq_difference(views(left.funding_rates@), views(right.funding_rates@))
    &&& views(d.instrument_statuses@) == seq_difference(views(left.instrument_statuses@), views(right.instrument_statuses@))
    &&& views(d.instrument_closes@) == seq_difference(views(left.instrument_closes@), views(right.instrument_closes@))
    &&& views(d.option_greeks@) == seq_difference(views(left.option_greeks@), views(right.option_greeks@))
    &&& views(d.forward_prices@) == seq_difference(views(left.forward_prices@), views(right.forward_prices@))
    &&& views(d.custom_data@) == seq_difference(views(left.custom_data@), views(right.custom_data@))
    &&& views(d.custom_data_requests@) == seq_difference(views(left.custom_data_requests@), views(right.custom_data_requests@))
}

/// `m` is `base` extended, per family, by the entries of `addition` it lacks.
pub open spec fn is_plan_merge(m: CapturePlan, base: CapturePlan, addition: CapturePlan) -> bool {
    &&& views(m.instruments@) == extend_unique_spec(views(base.instruments@), views(addition.instruments@))
    &&& views(m.quotes@) == extend_unique_spec(views(base.quotes@), views(addition.quotes@))
    &&& views(m.trades@) == extend_unique_spec(views(base.trades@), views(addition.trades@))
    &&& views(m.bars@) == extend_unique_spec(views(base.bars@), views(addition.bars@))
    &&& views(m.book_deltas@) == extend_unique_spec(views(base.book_deltas@), views(addition.book_deltas@))
    &&& views(m.mark_prices@) == extend_unique_spec(views(base.mark_prices@), views(addition.mark_prices@))
    &&& views(m.index_prices@) == extend_unique_spec(views(base.index_prices@), views(addition.index_prices@))
    &&& views(m.funding_rates@) == extend_unique_spec(views(base.funding_rates@), views(addition.funding_rates@))
    &&& views(m.instrument_statuses@) == extend_unique_spec(views(base.instrument_statuses@), views(addition.instrument_statuses@))
    &&& views(m.instrument_closes@) == extend_unique_spec(views(base.instrument_closes@), views(addition.instrument_closes@))
    &&& views(m.option_greeks@) == extend_unique_spec(views(base.option_greeks@), views(addition.option_greeks@))
    &&& views(m.forward_prices@) == extend_unique_spec(views(base.forward_prices@), views(addition.forward_prices@))
    &&& views(m.custom_data@) == extend_unique_spec(views(base.custom_data@), views(addition.custom_data@))
    &&& views(m.custom_data_requests@) == extend_unique_spec(views(base.custom_data_requests@), views(addition.custom_data_requests@))
}

/// `chain` starts from the empty plan and merges `parts` in one at a time:
/// `chain[i]` is `chain[i - 1]` merged with `parts[i - 1]`.
pub open spec fn is_merge_chain(chain: Seq<CapturePlan>, parts: Seq<CapturePlan>) -> bool {
    &&& chain.len() == parts.len() + 1
    &&& chain[0].spec_is_empty()
    &&& forall|i: int| 1 <= i <= parts.len() ==> is_plan_merge(#[trigger] chain[i], chain[i - 1], parts[i - 1])
}

/// `result` is the empty plan merged with each of `parts` in turn.
pub open spec fn is_merge_fold(result: CapturePlan, parts: Seq<CapturePlan>) -> bool {
    exists|chain: Seq<CapturePlan>| #[trigger] is_merge_chain(chain, parts) && chain.last() == result
}

/// The empty plan is the fold of no parts.
pub proof fn lemma_merge_fold_empty(p: CapturePlan)
    requires
        p.spec_is_empty(),
    ensures
        is_merge_fold(p, Seq::empty()),
{
    let chain = seq![p];
    assert(is_merge_chain(chain, Seq::empty()));
}

/// Merging one more part onto a fold of the earlier parts folds them all.
pub proof fn lemma_merge_fold_step(mid: CapturePlan, parts: Seq<CapturePlan>, result: CapturePlan)
    requires
        parts.len() > 0,
        is_merge_fold(mid, parts.drop_last()),
        is_plan_merge(result, mid, parts.last()),
    ensures
        is_merge_fold(result, parts),
{
    let chain = choose|chain: Seq<CapturePlan>| #[trigger] is_merge_chain(chain, parts.drop_last()) && chain.last() == mid;
    let next = chain.push(result);
    assert forall|i: int| 1 <= i <= parts.len() implies is_plan_merge(#[trigger] next[i], next[i - 1], parts[i - 1]) by {
        if i < parts.len() {
            assert(next[i] == chain[i]);
            assert(next[i - 1] == chain[i - 1]);
            assert(parts[i - 1] == parts.drop_last()[i - 1]);
            assert(is_plan_merge(chain[i], chain[i - 1], parts.drop_last()[i - 1]));
        } else {
            assert(next[i - 1] == mid);
        }
    }
    assert(is_merge_chain(next, parts));
}

/// The plan a manager captures: its static plan with its dynamic plan merged in.
pub fn merge_active_capture_plan(static_plan: &CapturePlan, dynamic_plan: &CapturePlan) -> (p: CapturePlan)
    ensures
        is_plan_merge(p, *static_plan, *dynamic_plan),
{
    merge_capture_plans(static_plan, dynamic_plan)
}

/// Subscriptions to add and drop when a dynamic plan changes, with the
/// per-universe changes and resolution records that explain them.
#[derive(Debug, Clone)]
pub struct DynamicPlanDelta<C, R> {
    pub add: CapturePlan,
    pub remove: CapturePlan,
    pub changes: Vec<C>,
    pub resolution_records: Vec<R>,
}

impl<C, R> DynamicPlanDelta<C, R> {
    /// True when nothing is added or removed.
    pub fn is_empty(&self) -> (r: bool)
        ensures
            r == (self.add.spec_is_empty() && self.remove.spec_is_empty()),
    {
        self.add.is_empty() && self.remove.is_empty()
    }
}

/// Delta from `previous` to `next`: entries of `next` not in `previous` are
/// added, entries of `previous` not in `next` are removed.
pub fn build_dynamic_plan_delta<C, R>(
    previous_dynamic_plan: &CapturePlan,
    next_dynamic_plan: &CapturePlan,
    changes: Vec<C>,
    resolution_records: Vec<R>,
) -> (d: DynamicPlanDelta<C, R>)
    ensures
        is_plan_difference(d.add, *next_dynamic_plan, *previous_dynamic_plan),
        is_plan_difference(d.remove, *previous_dynamic_plan, *next_dynamic_plan),
        d.changes == changes,
        d.resolution_records == resolution_records,
{
    DynamicPlanDelta {
        add: capture_plan_difference(next_dynamic_plan, previous_dynamic_plan),
        remove: capture_plan_difference(previous_dynamic_plan, next_dynamic_plan),
        changes,
        resolution_records,
    }
}

} // verus!
