//! Camera viewport placement.
//!
//! Projection and smoothing carry floating-point state that belongs to the
//! engine's camera collaborator; the bridge only places the viewport.

use vstd::prelude::*;

verus! {

/// Where a camera's viewport sits in the window, in physical pixels.
#[derive(Debug, Clone, Copy, PartialEq, Eq)]
pub struct ViewportConfig {
    pub physical_position: (u32, u32),
    pub physical_size: (u32, u32),
}

} // verus!
