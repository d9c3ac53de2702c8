//! The mesh-shape entity kind: its payload, its transform, and its
//! synchronizer.

use vstd::prelude::*;

use crate::entity_sync::EntitySync;
use crate::error::BevyRubyError;
use crate::units::UNIT;

verus! {

/// Which two-dimensional shape a mesh entity draws.
#[derive(Debug, Clone, Copy, PartialEq, Eq, Structural)]
pub enum ShapeType {
    Rectangle,
    Circle,
    RegularPolygon,
    Line,
    Ellipse,
}

impl ShapeType {
    /// The shape named by a numeric code from the scripting side. A code
    /// outside the five known shapes is rejected, never coerced.
    pub fn from_code(code: i64) -> (r: Result<ShapeType, BevyRubyError>)
        ensures
            code == 0 ==> r == Result::<ShapeType, BevyRubyError>::Ok(ShapeType::Rectangle),
            code == 1 ==> r == Result::<ShapeType, BevyRubyError>::Ok(ShapeType::Circle),
            code == 2 ==> r == Result::<ShapeType, BevyRubyError>::Ok(ShapeType::RegularPolygon),
            code == 3 ==> r == Result::<ShapeType, BevyRubyError>::Ok(ShapeType::Line),
            code == 4 ==> r == Result::<ShapeType, BevyRubyError>::Ok(ShapeType::Ellipse),
            !(0 <= code <= 4) ==> (r matches Result::<ShapeType, BevyRubyError>::Err(
                BevyRubyError::SystemError(_),
            )),
    {
        if code == 0 {
            Ok(ShapeType::Rectangle)
        } else if code == 1 {
            Ok(ShapeType::Circle)
        } else if code == 2 {
            Ok(ShapeType::RegularPolygon)
        } else if code == 3 {
            Ok(ShapeType::Line)
        } else if code == 4 {
            Ok(ShapeType::Ellipse)
        } else {
            Err(BevyRubyError::SystemError("unknown shape type code".to_owned()))
        }
    }
}

/// Payload of one mesh entity. Lengths and colors are fixed-point
/// micro-units; fields not used by the chosen shape are ignored by the
/// engine.
#[derive(Debug, Clone, PartialEq, Eq, Structural)]
pub struct MeshData {
    pub shape_type: ShapeType,
    pub color_r: i64,
    pub color_g: i64,
    pub color_b: i64,
    pub color_a: i64,
    pub width: i64,
    pub height: i64,
    pub radius: i64,
    pub sides: u32,
    pub line_start_x: i64,
    pub line_start_y: i64,
    pub line_end_x: i64,
    pub line_end_y: i64,
    pub thickness: i64,
    pub fill: bool,
}

impl Default for MeshData {
    /// A filled opaque white rectangle, 100 by 100 units.
    fn default() -> (r: MeshData)
        ensures
            r.shape_type == ShapeType::Rectangle,
            r.color_r == UNIT && r.color_g == UNIT && r.color_b == UNIT && r.color_a == UNIT,
            r.width == 100 * UNIT,
            r.height == 100 * UNIT,
            r.radius == 50 * UNIT,
            r.sides == 6u32,
            r.line_start_x == 0 && r.line_start_y == 0,
            r.line_end_x == 100 * UNIT,
            r.line_end_y == 0,
            r.thickness == 2 * UNIT,
            r.fill,
    {
        MeshData {
            shape_type: ShapeType::Rectangle,
            color_r: UNIT,
            color_g: UNIT,
            color_b: UNIT,
            color_a: UNIT,
            width: 100 * UNIT,
            height: 100 * UNIT,
            radius: 50 * UNIT,
            sides: 6u32,
            line_start_x: 0,
            line_start_y: 0,
            line_end_x: 100 * UNIT,
            line_end_y: 0,
            thickness: 2 * UNIT,
            fill: true,
        }
    }
}

/// Transform of one mesh entity, in fixed-point micro-units.
#[derive(Debug, Clone, PartialEq, Eq, Structural)]
pub struct MeshTransformData {
    pub translation_x: i64,
    pub translation_y: i64,
    pub translation_z: i64,
    pub rotation_x: i64,
    pub rotation_y: i64,
    pub rotation_z: i64,
    pub rotation_w: i64,
    pub scale_x: i64,
    pub scale_y: i64,
    pub scale_z: i64,
}

impl Default for MeshTransformData {
    /// The identity transform.
    fn default() -> (r: MeshTransformData)
        ensures
            r == (MeshTransformData {
                translation_x: 0,
                translation_y: 0,
                translation_z: 0,
                rotation_x: 0,
                rotation_y: 0,
                rotation_z: 0,
                rotation_w: UNIT,
                scale_x: UNIT,
                scale_y: UNIT,
                scale_z: UNIT,
            }),
    {
        MeshTransformData {
            translation_x: 0,
            translation_y: 0,
            translation_z: 0,
            rotation_x: 0,
            rotation_y: 0,
            rotation_z: 0,
            rotation_w: UNIT,
            scale_x: UNIT,
            scale_y: UNIT,
            scale_z: UNIT,
        }
    }
}

/// Synchronizes mesh shapes between external ids and native entities.
pub type MeshSync = EntitySync<MeshData, MeshTransformData>;

} // verus!
