//! The text-label entity kind: its payload, its transform, and its
//! synchronizer.

use vstd::prelude::*;

use crate::entity_sync::EntitySync;
use crate::units::UNIT;

verus! {

/// Payload of one text label. The font size and color channels are
/// fixed-point micro-units.
#[derive(Debug, Clone, PartialEq)]
pub struct TextData {
    pub content: String,
    pub font_size: i64,
    pub color_r: i64,
    pub color_g: i64,
    pub color_b: i64,
    pub color_a: i64,
}

impl Default for TextData {
    /// Empty text, 24-unit font, opaque white.
    fn default() -> (r: TextData)
        ensures
            r.content@ == Seq::<char>::empty(),
            r.font_size == 24 * UNIT,
            r.color_r == UNIT,
            r.color_g == UNIT,
            r.color_b == UNIT,
            r.color_a == UNIT,
    {
        TextData {
            content: String::new(),
            font_size: 24 * UNIT,
            color_r: UNIT,
            color_g: UNIT,
            color_b: UNIT,
            color_a: UNIT,
        }
    }
}

/// Transform of one text label: translation and scale, in fixed-point
/// micro-units; text labels do not rotate.
#[derive(Debug, Clone, PartialEq, Eq, Structural)]
pub struct TextTransformData {
    pub translation_x: i64,
    pub translation_y: i64,
    pub translation_z: i64,
    pub scale_x: i64,
    pub scale_y: i64,
    pub scale_z: i64,
}

impl Default for TextTransformData {
    /// The identity transform.
    fn default() -> (r: TextTransformData)
        ensures
            r == (TextTransformData {
                translation_x: 0,
                translation_y: 0,
                translation_z: 0,
                scale_x: UNIT,
                scale_y: UNIT,
                scale_z: UNIT,
            }),
    {
        TextTransformData {
            translation_x: 0,
            translation_y: 0,
            translation_z: 0,
            scale_x: UNIT,
            scale_y: UNIT,
            scale_z: UNIT,
        }
    }
}

/// Synchronizes text labels between external ids and native entities.
pub type TextSync = EntitySync<TextData, TextTransformData>;

} // verus!
