//! Material blend modes.
//!
//! Full material properties carry colors and roughness scalars that belong
//! to the engine's render collaborator; the bridge only names the mode.

use vstd::prelude::*;

verus! {

/// How a material's output is combined with what is behind it.
#[derive(Debug, Clone, Copy, PartialEq, Eq, Hash, Structural)]
pub enum BlendMode {
    Opaque,
    Blend,
    AlphaBlend,
    Premultiplied,
    Add,
    Multiply,
}

impl Default for BlendMode {
    /// Ordinary alpha blending.
    fn default() -> (r: BlendMode)
        ensures
            r == BlendMode::Blend,
    {
        BlendMode::Blend
    }
}

} // verus!
