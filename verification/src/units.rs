//! Fixed-point scalars.
//!
//! The engine's own value types carry fractional scalars (colors, anchors,
//! scales). This crate stores every such scalar as a signed 64-bit count of
//! micro-units: `UNIT` is one whole unit, so `1_500_000` is one and a half.
//! The boundary that talks to the engine converts at the edge.

use vstd::prelude::*;

verus! {

/// One whole unit in fixed-point micro-units.
pub const UNIT: i64 = 1_000_000;

/// Half a unit in fixed-point micro-units.
pub const HALF_UNIT: i64 = 500_000;

} // verus!
