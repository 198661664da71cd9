//! Fixed-layout per-instance records: the data consumed, one record per
//! declared shape, by the GPU's per-instance vertex stream. Real-valued
//! fields (positions, scales, rotations, colors) are carried as IEEE-754
//! single-precision bit patterns in `u32` fields; the batching layer only
//! copies them, so their layout and routing is verified while the arithmetic
//! on them stays at the GPU boundary.

use vstd::prelude::*;

use crate::shapes::BasicShapeData;
use crate::shapes::Color;

verus! {

/// A normalized sub-rectangle of the atlas texture, kept as exact ratios:
/// the UV rectangle is `(x/bin, y/bin, width/bin, height/bin)`. The GPU
/// boundary turns the ratios into floating point; keeping pixels here keeps
/// the remapping exact.
#[derive(Clone, Copy, PartialEq, Eq, Structural, Debug)]
pub struct UvRect {
    pub x: u32,
    pub y: u32,
    pub width: u32,
    pub height: u32,
    pub bin: u32,
}

impl UvRect {
    /// The ratios are well formed: a positive denominator and a rectangle
    /// inside the unit square.
    pub open spec fn wf(self) -> bool {
        &&& self.bin >= 1
        &&& self.x + self.width <= self.bin
        &&& self.y + self.height <= self.bin
    }

    /// The whole texture: UV rectangle (0, 0, 1, 1). Sprites whose texture
    /// index matched no packed bitmap fall back to this.
    pub fn full() -> (r: UvRect)
        ensures
            r == (UvRect { x: 0, y: 0, width: 1, height: 1, bin: 1 }),
            r.wf(),
    {
        UvRect { x: 0, y: 0, width: 1, height: 1, bin: 1 }
    }
}

/// Per-instance data of one rectangle or oval: position, scale, rotation and
/// color as f32 bit patterns, and the draw layer widened to a `u32`.
#[derive(Clone, Copy, PartialEq, Eq, Structural, Debug)]
pub struct InstanceRecord {
    pub pos_x: u32,
    pub pos_y: u32,
    pub scale_x: u32,
    pub scale_y: u32,
    pub rotation: u32,
    pub color: Color,
    pub layer: u32,
}

/// Per-instance data of one textured sprite: as `InstanceRecord`, but with
/// the atlas UV rectangle in place of a color.
#[derive(Clone, Copy, PartialEq, Eq, Structural, Debug)]
pub struct TextureInstanceRecord {
    pub pos_x: u32,
    pub pos_y: u32,
    pub scale_x: u32,
    pub scale_y: u32,
    pub rotation: u32,
    pub layer: u32,
    pub uv: UvRect,
}

/// The instance record that one set of shared shape fields yields.
pub open spec fn instance_of(d: BasicShapeData) -> InstanceRecord {
    InstanceRecord {
        pos_x: d.pos_x,
        pos_y: d.pos_y,
        scale_x: d.scale_x,
        scale_y: d.scale_y,
        rotation: d.rotation,
        color: d.color,
        layer: d.layer as u32,
    }
}

/// Build the instance record of one rectangle or oval.
pub fn make_instance(d: &BasicShapeData) -> (r: InstanceRecord)
    ensures
        r == instance_of(*d),
{
    InstanceRecord {
        pos_x: d.pos_x,
        pos_y: d.pos_y,
        scale_x: d.scale_x,
        scale_y: d.scale_y,
        rotation: d.rotation,
        color: d.color,
        layer: d.layer as u32,
    }
}

} // verus!
