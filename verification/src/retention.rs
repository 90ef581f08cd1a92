//! Retention and bulk-clear policy.
use vstd::prelude::*;

verus! {

#[derive(Debug, Clone, Copy, PartialEq, Eq, Hash, Structural)]
pub enum ClearScope {
    All,
    ExcludingPinned,
}

pub const NANOS_PER_DAY: i128 = 86_400_000_000_000;

/// The creation-time bound below which unpinned clips are pruned, given the
/// current time and the retention window in days; `None` when no window is
/// configured, in which case pruning removes nothing.
pub fn prune_cutoff(now: i128, retention_days: Option<u32>) -> (cutoff: Option<i128>)
    requires
        now >= -0x1_0000_0000_0000_0000_0000_0000,
    ensures
        match retention_days {
            None => cutoff is None,
            Some(d) => cutoff == Some((now - d * NANOS_PER_DAY) as i128),
        },
{
    match retention_days {
        None => None,
        Some(days) => {
            assert(days * NANOS_PER_DAY <= 0xFFFF_FFFF * NANOS_PER_DAY) by (nonlinear_arith)
                requires
                    days <= 0xFFFF_FFFF,
            ;
            Some(now - (days as i128) * NANOS_PER_DAY)
        },
    }
}

/// Whether a bulk clear with `scope` removes a clip with the given pin
/// state.
pub fn clear_removes(scope: ClearScope, is_pinned: bool) -> (b: bool)
    ensures
        b == (scope == ClearScope::All || !is_pinned),
{
    match scope {
        ClearScope::All => true,
        ClearScope::ExcludingPinned => !is_pinned,
    }
}

} // verus!
