//! Shape descriptors: the mutable builder records through which a caller
//! declares one rectangle, oval or sprite for the current frame. Real-valued
//! fields hold IEEE-754 single-precision bit patterns (`u32`); the layer is
//! an integer draw-order hint, higher meaning nearer the viewer.

use vstd::prelude::*;

use crate::instance::instance_of;
use crate::instance::make_instance;
use crate::instance::InstanceRecord;
use crate::instance::TextureInstanceRecord;
use crate::instance::UvRect;

verus! {

/// Bit pattern of the f32 value 0.0.
pub const F32_BITS_ZERO: u32 = 0x0000_0000;

/// Bit pattern of the f32 value 1.0.
pub const F32_BITS_ONE: u32 = 0x3F80_0000;

/// Bit pattern of the f32 value 20.0, the default side of a new shape.
pub const F32_BITS_TWENTY: u32 = 0x41A0_0000;

/// The oval tessellation used when the caller sets none.
pub const DEFAULT_DETAIL: u32 = 128;

/// An RGBA color; every channel is an f32 bit pattern.
#[derive(Clone, Copy, PartialEq, Eq, Structural, Debug)]
pub struct Color {
    pub r: u32,
    pub g: u32,
    pub b: u32,
    pub a: u32,
}

impl Color {
    /// Opaque white, the default background.
    pub fn white() -> (c: Color)
        ensures
            c == (Color { r: F32_BITS_ONE, g: F32_BITS_ONE, b: F32_BITS_ONE, a: F32_BITS_ONE }),
    {
        Color { r: F32_BITS_ONE, g: F32_BITS_ONE, b: F32_BITS_ONE, a: F32_BITS_ONE }
    }

    /// Opaque blue, the default fill of a new shape.
    pub fn blue() -> (c: Color)
        ensures
            c == (Color { r: F32_BITS_ZERO, g: F32_BITS_ZERO, b: F32_BITS_ONE, a: F32_BITS_ONE }),
    {
        Color { r: F32_BITS_ZERO, g: F32_BITS_ZERO, b: F32_BITS_ONE, a: F32_BITS_ONE }
    }
}

/// The descriptor fields shared by rectangles and ovals.
#[derive(Clone, Copy, PartialEq, Eq, Structural, Debug)]
pub struct BasicShapeData {
    pub pos_x: u32,
    pub pos_y: u32,
    pub scale_x: u32,
    pub scale_y: u32,
    pub rotation: u32,
    pub color: Color,
    pub layer: u16,
}

/// The fields every new shape starts from: a 20 x 20 blue shape at the
/// origin, unrotated, on layer 0.
pub open spec fn default_shape_data() -> BasicShapeData {
    BasicShapeData {
        pos_x: F32_BITS_ZERO,
        pos_y: F32_BITS_ZERO,
        scale_x: F32_BITS_TWENTY,
        scale_y: F32_BITS_TWENTY,
        rotation: F32_BITS_ZERO,
        color: Color { r: F32_BITS_ZERO, g: F32_BITS_ZERO, b: F32_BITS_ONE, a: F32_BITS_ONE },
        layer: 0,
    }
}

/// Build the default shared fields.
pub fn make_default_shape_data() -> (d: BasicShapeData)
    ensures
        d == default_shape_data(),
{
    BasicShapeData {
        pos_x: F32_BITS_ZERO,
        pos_y: F32_BITS_ZERO,
        scale_x: F32_BITS_TWENTY,
        scale_y: F32_BITS_TWENTY,
        rotation: F32_BITS_ZERO,
        color: Color { r: F32_BITS_ZERO, g: F32_BITS_ZERO, b: F32_BITS_ONE, a: F32_BITS_ONE },
        layer: 0,
    }
}

/// The builder capabilities shared by rectangles and ovals. Every setter
/// replaces exactly one of the shared descriptor fields and leaves the rest
/// of the shape (an oval's tessellation included) as it was.
pub trait BasicShape: Sized {
    /// The shared descriptor fields of the shape.
    spec fn data(&self) -> BasicShapeData;

    /// The same shape with its shared descriptor fields replaced.
    spec fn replace_data(&self, d: BasicShapeData) -> Self;

    /// Size of the shape.
    fn scale(&mut self, width: u32, height: u32)
        ensures
            *final(self) == old(self).replace_data(
                BasicShapeData { scale_x: width, scale_y: height, ..old(self).data() },
            ),
    ;

    /// Width of the shape alone.
    fn width(&mut self, width: u32)
        ensures
            *final(self) == old(self).replace_data(
                BasicShapeData { scale_x: width, ..old(self).data() },
            ),
    ;

    /// Height of the shape alone.
    fn height(&mut self, height: u32)
        ensures
            *final(self) == old(self).replace_data(
                BasicShapeData { scale_y: height, ..old(self).data() },
            ),
    ;

    /// Location of the shape in the frame.
    fn pos(&mut self, x: u32, y: u32)
        ensures
            *final(self) == old(self).replace_data(
                BasicShapeData { pos_x: x, pos_y: y, ..old(self).data() },
            ),
    ;

    /// Rotation of the shape in radians.
    fn rotation(&mut self, rotation: u32)
        ensures
            *final(self) == old(self).replace_data(
                BasicShapeData { rotation, ..old(self).data() },
            ),
    ;

    /// Fill color of the shape from its four channels.
    fn color(&mut self, red: u32, green: u32, blue: u32, alpha: u32)
        ensures
            *final(self) == old(self).replace_data(
                BasicShapeData {
                    color: Color { r: red, g: green, b: blue, a: alpha },
                    ..old(self).data()
                },
            ),
    ;

    /// Fill color of the shape from a color value.
    fn color_from_color(&mut self, color: Color)
        ensures
            *final(self) == old(self).replace_data(
                BasicShapeData { color, ..old(self).data() },
            ),
    ;

    /// Render layer of the shape; a higher layer stands nearer the
    /// foreground.
    fn layer(&mut self, layer: u16)
        ensures
            *final(self) == old(self).replace_data(
                BasicShapeData { layer, ..old(self).data() },
            ),
    ;

    /// The fixed-layout instance record of the shape.
    fn to_instance(&self) -> (r: InstanceRecord)
        ensures
            r == instance_of(self.data()),
    ;
}

/// One rectangle declared for the current frame.
#[derive(Clone, Copy, PartialEq, Eq, Structural, Debug)]
pub struct Rect {
    pub data: BasicShapeData,
}

impl Rect {
    /// A new rectangle with the default fields.
    pub fn new() -> (r: Rect)
        ensures
            r.data == default_shape_data(),
    {
        Rect { data: make_default_shape_data() }
    }
}

impl Default for Rect {
    /// The same rectangle as `Rect::new`.
    fn default() -> (r: Rect)
        ensures
            r.data == default_shape_data(),
    {
        Rect::new()
    }
}

impl BasicShape for Rect {
    open spec fn data(&self) -> BasicShapeData {
        self.data
    }

    open spec fn replace_data(&self, d: BasicShapeData) -> Self {
        Rect { data: d }
    }

    fn scale(&mut self, width: u32, height: u32) {
        self.data.scale_x = width;
        self.data.scale_y = height;
    }

    fn width(&mut self, width: u32) {
        self.data.scale_x = width;
    }

    fn height(&mut self, height: u32) {
        self.data.scale_y = height;
    }

    fn pos(&mut self, x: u32, y: u32) {
        self.data.pos_x = x;
        self.data.pos_y = y;
    }

    fn rotation(&mut self, rotation: u32) {
        self.data.rotation = rotation;
    }

    fn color(&mut self, red: u32, green: u32, blue: u32, alpha: u32) {
        self.data.color = Color { r: red, g: green, b: blue, a: alpha };
    }

    fn color_from_color(&mut self, color: Color) {
        self.data.color = color;
    }

    fn layer(&mut self, layer: u16) {
        self.data.layer = layer;
    }

    fn to_instance(&self) -> (r: InstanceRecord) {
        make_instance(&self.data)
    }
}

/// One oval declared for the current frame. `detail` is the tessellation:
/// the number of segments of the polygon that approximates the oval, at
/// least 3, defaulting to 128.
#[derive(Clone, Copy, PartialEq, Eq, Structural, Debug)]
pub struct Oval {
    pub data: BasicShapeData,
    pub detail: u32,
}

impl Oval {
    /// A new oval with the default fields and tessellation.
    pub fn new() -> (r: Oval)
        ensures
            r.data == default_shape_data(),
            r.detail == DEFAULT_DETAIL,
    {
        Oval { data: make_default_shape_data(), detail: DEFAULT_DETAIL }
    }

    /// Set the segment count of the oval; higher means smoother. A count
    /// below 3 could not form one triangle and is rejected at this builder
    /// boundary: the oval keeps the count it had, and the returned flag
    /// reports the rejection to the caller.
    pub fn segment_count(&mut self, segment_count: u32) -> (accepted: bool)
        ensures
            accepted == (segment_count >= 3),
            final(self).data == old(self).data,
            final(self).detail == (if segment_count >= 3 {
                segment_count
            } else {
                old(self).detail
            }),
    {
        if segment_count >= 3 {
            self.detail = segment_count;
            true
        } else {
            false
        }
    }
}

impl Default for Oval {
    /// The same oval as `Oval::new`.
    fn default() -> (r: Oval)
        ensures
            r.data == default_shape_data(),
            r.detail == DEFAULT_DETAIL,
    {
        Oval::new()
    }
}

impl BasicShape for Oval {
    open spec fn data(&self) -> BasicShapeData {
        self.data
    }

    open spec fn replace_data(&self, d: BasicShapeData) -> Self {
        Oval { data: d, detail: self.detail }
    }

    fn scale(&mut self, width: u32, height: u32) {
        self.data.scale_x = width;
        self.data.scale_y = height;
    }

    fn width(&mut self, width: u32) {
        self.data.scale_x = width;
    }

    fn height(&mut self, height: u32) {
        self.data.scale_y = height;
    }

    fn pos(&mut self, x: u32, y: u32) {
        self.data.pos_x = x;
        self.data.pos_y = y;
    }

    fn rotation(&mut self, rotation: u32) {
        self.data.rotation = rotation;
    }

    fn color(&mut self, red: u32, green: u32, blue: u32, alpha: u32) {
        self.data.color = Color { r: red, g: green, b: blue, a: alpha };
    }

    fn color_from_color(&mut self, color: Color) {
        self.data.color = color;
    }

    fn layer(&mut self, layer: u16) {
        self.data.layer = layer;
    }

    fn to_instance(&self) -> (r: InstanceRecord) {
        make_instance(&self.data)
    }
}

/// One textured sprite declared for the current frame: a quad that samples
/// the atlas sub-rectangle `uv`.
#[derive(Clone, Copy, PartialEq, Eq, Structural, Debug)]
pub struct Image {
    pub pos_x: u32,
    pub pos_y: u32,
    pub scale_x: u32,
    pub scale_y: u32,
    pub rotation: u32,
    pub layer: u16,
    pub uv: UvRect,
}

impl Default for Image {
    /// The same sprite as `Image::new` with the whole-texture UV rectangle.
    fn default() -> (r: Image)
        ensures
            r == default_image(UvRect { x: 0, y: 0, width: 1, height: 1, bin: 1 }),
    {
        Image::new(UvRect::full())
    }
}

/// The instance record that one sprite descriptor yields.
pub open spec fn texture_instance_of(img: Image) -> TextureInstanceRecord {
    TextureInstanceRecord {
        pos_x: img.pos_x,
        pos_y: img.pos_y,
        scale_x: img.scale_x,
        scale_y: img.scale_y,
        rotation: img.rotation,
        layer: img.layer as u32,
        uv: img.uv,
    }
}

/// The fields every new sprite starts from: a 20 x 20 sprite at the origin,
/// unrotated, on layer 0, sampling the atlas rectangle `uv`.
pub open spec fn default_image(uv: UvRect) -> Image {
    Image {
        pos_x: F32_BITS_ZERO,
        pos_y: F32_BITS_ZERO,
        scale_x: F32_BITS_TWENTY,
        scale_y: F32_BITS_TWENTY,
        rotation: F32_BITS_ZERO,
        layer: 0,
        uv,
    }
}

impl Image {
    /// A new sprite with the default fields, sampling the atlas rectangle
    /// `uv`.
    pub fn new(uv: UvRect) -> (r: Image)
        ensures
            r == default_image(uv),
    {
        Image {
            pos_x: F32_BITS_ZERO,
            pos_y: F32_BITS_ZERO,
            scale_x: F32_BITS_TWENTY,
            scale_y: F32_BITS_TWENTY,
            rotation: F32_BITS_ZERO,
            layer: 0,
            uv,
        }
    }

    /// Size of the sprite.
    pub fn scale(&mut self, width: u32, height: u32)
        ensures
            *final(self) == (Image { scale_x: width, scale_y: height, ..*old(self) }),
    {
        self.scale_x = width;
        self.scale_y = height;
    }

    /// Location of the sprite in the frame.
    pub fn pos(&mut self, x: u32, y: u32)
        ensures
            *final(self) == (Image { pos_x: x, pos_y: y, ..*old(self) }),
    {
        self.pos_x = x;
        self.pos_y = y;
    }

    /// Rotation of the sprite in radians.
    pub fn rotation(&mut self, rotation: u32)
        ensures
            *final(self) == (Image { rotation, ..*old(self) }),
    {
        self.rotation = rotation;
    }

    /// Render layer of the sprite; a higher layer stands nearer the
    /// foreground.
    pub fn layer(&mut self, layer: u16)
        ensures
            *final(self) == (Image { layer, ..*old(self) }),
    {
        self.layer = layer;
    }

    /// The fixed-layout instance record of the sprite.
    pub fn to_instance(&self) -> (r: TextureInstanceRecord)
        ensures
            r == texture_instance_of(*self),
    {
        TextureInstanceRecord {
            pos_x: self.pos_x,
            pos_y: self.pos_y,
            scale_x: self.scale_x,
            scale_y: self.scale_y,
            rotation: self.rotation,
            layer: self.layer as u32,
            uv: self.uv,
        }
    }
}

} // verus!
