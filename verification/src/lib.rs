//! Incremental harvester for a paginated, date-filterable metadata index.
//!
//! The crate models the full harvest cycle: a paginated fetch protocol with a
//! bounded retry budget, a producer that filters pages against a watermark and
//! stops early on the index's descending order, a consumer that normalizes and
//! stores each record, a content-addressed deduplicating record store, and a
//! per-source watermark store that makes repeated runs idempotent and
//! resumable.

use vstd::prelude::*;

pub mod fetch;
pub mod harvest;
pub mod laws;
pub mod record;
pub mod store;

verus! {

/// Subtract `delta` from `base`, saturating at the smallest representable
/// instant instead of wrapping.
pub open spec fn sub_saturating(base: i64, delta: i64) -> i64
    recommends
        delta >= 0,
{
    if base - delta >= i64::MIN { (base - delta) as i64 } else { i64::MIN }
}

/// Executable counterpart of [`sub_saturating`].
pub fn saturating_sub_i64(base: i64, delta: i64) -> (r: i64)
    requires
        delta >= 0,
    ensures
        r == sub_saturating(base, delta),
{
    if base >= i64::MIN + delta {
        base - delta
    } else {
        i64::MIN
    }
}

} // verus!
