//! Timing and layout constants of the dashboard core.

use vstd::prelude::*;

verus! {

/// How much historical series data is retained, in milliseconds.
pub const STALE_MAX_MILLISECONDS: u64 = 60 * 1000;

/// The fixed redraw tick interval, in milliseconds.
pub const TICK_RATE_IN_MILLISECONDS: u64 = 200;

/// Below this table height the gap row between header and data is
/// suppressed even when requested, so data rows are not starved.
pub const TABLE_GAP_HEIGHT_LIMIT: u16 = 7;

} // verus!
