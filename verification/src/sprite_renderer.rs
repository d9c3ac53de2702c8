//! The sprite entity kind: its payload, its transform, and its synchronizer.

use vstd::prelude::*;

use crate::entity_sync::EntitySync;
use crate::units::{HALF_UNIT, UNIT};

verus! {

/// Visual payload of one sprite. Scalars are fixed-point micro-units (see
/// `units`): colors in `0..=UNIT`, anchors as fractions of the sprite size.
#[derive(Debug, Clone, PartialEq, Eq, Structural)]
pub struct SpriteData {
    pub color_r: i64,
    pub color_g: i64,
    pub color_b: i64,
    pub color_a: i64,
    pub flip_x: bool,
    pub flip_y: bool,
    pub anchor_x: i64,
    pub anchor_y: i64,
    pub has_custom_size: bool,
    pub custom_size_x: i64,
    pub custom_size_y: i64,
}

impl Default for SpriteData {
    /// Opaque white, no flip, centered anchor, no custom size.
    fn default() -> (r: SpriteData)
        ensures
            r == (SpriteData {
                color_r: UNIT,
                color_g: UNIT,
                color_b: UNIT,
                color_a: UNIT,
                flip_x: false,
                flip_y: false,
                anchor_x: HALF_UNIT,
                anchor_y: HALF_UNIT,
                has_custom_size: false,
                custom_size_x: 0,
                custom_size_y: 0,
            }),
    {
        SpriteData {
            color_r: UNIT,
            color_g: UNIT,
            color_b: UNIT,
            color_a: UNIT,
            flip_x: false,
            flip_y: false,
            anchor_x: HALF_UNIT,
            anchor_y: HALF_UNIT,
            has_custom_size: false,
            custom_size_x: 0,
            custom_size_y: 0,
        }
    }
}

/// Full transform of one sprite or mesh entity: translation, quaternion
/// rotation and scale, in fixed-point micro-units.
#[derive(Debug, Clone, PartialEq, Eq, Structural)]
pub struct TransformData {
    pub translation_x: i64,
    pub translation_y: i64,
    pub translation_z: i64,
    pub rotation_x: i64,
    pub rotation_y: i64,
    pub rotation_z: i64,
    pub rotation_w: i64,
    pub scale_x: i64,
    pub scale_y: i64,
    pub scale_z: i64,
}

impl Default for TransformData {
    /// The identity transform.
    fn default() -> (r: TransformData)
        ensures
            r == (TransformData {
                translation_x: 0,
                translation_y: 0,
                translation_z: 0,
                rotation_x: 0,
                rotation_y: 0,
                rotation_z: 0,
                rotation_w: UNIT,
                scale_x: UNIT,
                scale_y: UNIT,
                scale_z: UNIT,
            }),
    {
        TransformData {
            translation_x: 0,
            translation_y: 0,
            translation_z: 0,
            rotation_x: 0,
            rotation_y: 0,
            rotation_z: 0,
            rotation_w: UNIT,
            scale_x: UNIT,
            scale_y: UNIT,
            scale_z: UNIT,
        }
    }
}

/// Synchronizes sprites between external ids and native entities.
pub type SpriteSync = EntitySync<SpriteData, TransformData>;

} // verus!
