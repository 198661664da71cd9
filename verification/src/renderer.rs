//! The frame renderer: owns the per-frame shape descriptor lists, the frame
//! parameters, and the texture-atlas state, and turns them into a frame
//! plan — an ordered list of draw passes (all rectangles, then one pass per
//! oval detail group, then the sprites when an atlas exists) that a thin
//! GPU layer submits unchanged.

use vstd::prelude::*;

use crate::atlas::buf_index;
use crate::atlas::decode_rgba;
use crate::atlas::decoded_rgba;
use crate::atlas::grow_outcome;
use crate::atlas::merge_bitmaps;
use crate::atlas::merged_byte;
use crate::atlas::pack_with_growth;
use crate::atlas::Bitmap;
use crate::atlas::Placement;
use crate::atlas::TextureError;
use crate::atlas::ATLAS_MAX_SIZE;
use crate::atlas::ATLAS_START_SIZE;
use crate::batch::batched_instances;
use crate::batch::build_image_instances;
use crate::batch::build_rect_instances;
use crate::batch::distinct_details;
use crate::batch::group_ovals;
use crate::batch::instances_of_images;
use crate::batch::instances_of_ovals;
use crate::batch::instances_of_rects;
use crate::batch::lemma_distinct_from_ovals;
use crate::batch::ovals_with_detail;
use crate::batch::OvalBatch;
use crate::geometry::fan_indices;
use crate::geometry::polygon;
use crate::geometry::quad;
use crate::geometry::GeometryBatch;
use crate::instance::InstanceRecord;
use crate::instance::TextureInstanceRecord;
use crate::instance::UvRect;
use crate::shapes::default_image;
use crate::shapes::default_shape_data;
use crate::shapes::Color;
use crate::shapes::Image;
use crate::shapes::Oval;
use crate::shapes::Rect;
use crate::shapes::DEFAULT_DETAIL;
use crate::shapes::F32_BITS_ZERO;

verus! {

/// Bit pattern of the f32 value 800.0, the default frame width.
pub const F32_BITS_800: u32 = 0x4448_0000;

/// Bit pattern of the f32 value 600.0, the default frame height.
pub const F32_BITS_600: u32 = 0x4416_0000;

/// The merged atlas image: one square RGBA8 pixel buffer.
pub struct AtlasImage {
    pub size: u32,
    pub pixels: Vec<u8>,
}

/// One draw pass of rectangles or ovals: shared base geometry and one
/// instance record per shape.
pub struct ShapePass {
    pub geometry: GeometryBatch,
    pub instances: Vec<InstanceRecord>,
}

/// The sprite draw pass: the unit quad and one instance record per sprite,
/// each carrying its atlas UV rectangle.
pub struct SpritePass {
    pub geometry: GeometryBatch,
    pub instances: Vec<TextureInstanceRecord>,
}

/// One frame's ordered draw operations: the per-frame uniform state, then
/// the rectangle pass (absent when no rectangle was declared), the oval
/// passes in order of first-declared detail, and the sprite pass (absent
/// when no atlas exists or no sprite was declared).
pub struct FramePlan {
    pub frame_width: u32,
    pub frame_height: u32,
    pub frame_offset_x: u32,
    pub frame_offset_y: u32,
    pub background: Color,
    pub rect_pass: Option<ShapePass>,
    pub oval_passes: Vec<ShapePass>,
    pub sprite_pass: Option<SpritePass>,
}

/// The width and height of each bitmap, index-aligned.
pub open spec fn dims_of(bs: Seq<Bitmap>) -> Seq<(u32, u32)> {
    bs.map_values(|b: Bitmap| (b.width, b.height))
}

/// Whether one byte string decodes into an image with at least one pixel.
pub open spec fn decode_ok(bytes: Seq<u8>) -> bool {
    decoded_rgba(bytes) matches Some(d) && d.0 >= 1 && d.1 >= 1
}

/// The width and height that each byte string decodes to, index-aligned.
pub open spec fn decoded_dims(list: Seq<Vec<u8>>) -> Seq<(u32, u32)> {
    list.map_values(
        |b: Vec<u8>| (decoded_rgba(b@).unwrap().0, decoded_rgba(b@).unwrap().1),
    )
}

/// The pixel rectangles that a list of UV rectangles stands for.
pub open spec fn cords_places(cs: Seq<UvRect>) -> Seq<Placement> {
    cs.map_values(|c: UvRect| Placement { x: c.x, y: c.y, width: c.width, height: c.height })
}

/// Two UV rectangles of one bin share no pixel.
pub open spec fn uv_disjoint(a: UvRect, b: UvRect) -> bool {
    ||| a.x + a.width <= b.x
    ||| b.x + b.width <= a.x
    ||| a.y + a.height <= b.y
    ||| b.y + b.height <= a.y
}

/// All instances across the oval passes, concatenated in pass order.
pub open spec fn passes_instances(ps: Seq<ShapePass>) -> Seq<InstanceRecord>
    decreases ps.len(),
{
    if ps.len() == 0 {
        Seq::empty()
    } else {
        passes_instances(ps.drop_last()) + ps.last().instances@
    }
}

/// Passes carrying the same instance lists as a batch list carry the same
/// concatenation.
proof fn lemma_passes_instances_eq(ps: Seq<ShapePass>, gs: Seq<OvalBatch>)
    requires
        ps.len() == gs.len(),
        forall|i: int|
            0 <= i < ps.len() ==> (#[trigger] ps[i]).instances@ == (#[trigger] gs[i]).instances@,
    ensures
        passes_instances(ps) == batched_instances(gs),
    decreases ps.len(),
{
    if ps.len() > 0 {
        lemma_passes_instances_eq(ps.drop_last(), gs.drop_last());
    }
}

/// The immediate-mode shape renderer: per frame, `clear()`, declare shapes
/// through `rect()`, `oval()` and `image()`, and `render()` the plan.
/// Texture ingestion (`add_bitmap`, `add_texture_from_bytes`) repacks the
/// atlas in full on every call, so additions are best batched.
pub struct ShapeRenderer {
    pub recs: Vec<Rect>,
    pub ovals: Vec<Oval>,
    pub images: Vec<Image>,
    pub frame_width: u32,
    pub frame_height: u32,
    pub frame_offset_x: u32,
    pub frame_offset_y: u32,
    pub background: Color,
    pub texture_size: u32,
    pub textures: Vec<Bitmap>,
    pub textures_cords: Vec<UvRect>,
    pub atlas: Option<AtlasImage>,
}

impl ShapeRenderer {
    /// The renderer's invariant: every oval can be tessellated, the bin side
    /// is within the growth chain's bounds, and the atlas bookkeeping is
    /// consistent — one well-formed UV rectangle per packed bitmap, all
    /// inside the current bin and pairwise disjoint, with the merged image
    /// sized to the bin.
    pub open spec fn wf(self) -> bool {
        &&& forall|i: int| 0 <= i < self.ovals@.len() ==> (#[trigger] self.ovals@[i]).detail >= 3
        &&& 1 <= self.texture_size <= ATLAS_MAX_SIZE
        &&& forall|i: int| 0 <= i < self.textures@.len() ==> (#[trigger] self.textures@[i]).wf()
        &&& self.textures_cords@.len() == self.textures@.len()
        &&& (self.atlas is Some <==> self.textures@.len() > 0)
        &&& forall|i: int|
            0 <= i < self.textures_cords@.len() ==> (#[trigger] self.textures_cords@[i]).bin
                == self.texture_size && self.textures_cords@[i].width == self.textures@[i].width
                && self.textures_cords@[i].height == self.textures@[i].height
                && self.textures_cords@[i].wf()
        &&& forall|i: int, j: int|
            0 <= i < j < self.textures_cords@.len() ==> uv_disjoint(
                #[trigger] self.textures_cords@[i],
                #[trigger] self.textures_cords@[j],
            )
        &&& self.atlas matches Some(a) ==> a.size == self.texture_size && a.pixels@.len() == 4
            * a.size * a.size
    }

    /// A fresh renderer: no shapes, an 800 x 600 frame, no pan, a white
    /// background, and an empty atlas starting at the default bin side.
    pub fn new() -> (s: ShapeRenderer)
        ensures
            s.recs@.len() == 0,
            s.ovals@.len() == 0,
            s.images@.len() == 0,
            s.frame_width == F32_BITS_800,
            s.frame_height == F32_BITS_600,
            s.frame_offset_x == F32_BITS_ZERO,
            s.frame_offset_y == F32_BITS_ZERO,
            s.background == (Color {
                r: crate::shapes::F32_BITS_ONE,
                g: crate::shapes::F32_BITS_ONE,
                b: crate::shapes::F32_BITS_ONE,
                a: crate::shapes::F32_BITS_ONE,
            }),
            s.texture_size == ATLAS_START_SIZE,
            s.textures@.len() == 0,
            s.textures_cords@.len() == 0,
            s.atlas is None,
            s.wf(),
    {
        ShapeRenderer {
            recs: Vec::new(),
            ovals: Vec::new(),
            images: Vec::new(),
            frame_width: F32_BITS_800,
            frame_height: F32_BITS_600,
            frame_offset_x: F32_BITS_ZERO,
            frame_offset_y: F32_BITS_ZERO,
            background: Color::white(),
            texture_size: ATLAS_START_SIZE,
            textures: Vec::new(),
            textures_cords: Vec::new(),
            atlas: None,
        }
    }

    /// Empty the frame's descriptor lists, in preparation for the next
    /// frame's declarations. The atlas state and frame parameters stay.
    pub fn clear(&mut self)
        ensures
            final(self).recs@.len() == 0,
            final(self).ovals@.len() == 0,
            final(self).images@.len() == 0,
            final(self).frame_width == old(self).frame_width,
            final(self).frame_height == old(self).frame_height,
            final(self).frame_offset_x == old(self).frame_offset_x,
            final(self).frame_offset_y == old(self).frame_offset_y,
            final(self).background == old(self).background,
            final(self).texture_size == old(self).texture_size,
            final(self).textures == old(self).textures,
            final(self).textures_cords == old(self).textures_cords,
            final(self).atlas == old(self).atlas,
            old(self).wf() ==> final(self).wf(),
    {
        self.recs.clear();
        self.ovals.clear();
        self.images.clear();
    }

    /// Set the frame's pixel dimensions (as f32 bit patterns).
    pub fn set_frame_size(&mut self, width: u32, height: u32)
        ensures
            *final(self) == (ShapeRenderer {
                frame_width: width,
                frame_height: height,
                ..*old(self)
            }),
    {
        self.frame_width = width;
        self.frame_height = height;
    }

    /// The frame's pixel dimensions (as f32 bit patterns).
    pub fn frame_size(&self) -> (r: (u32, u32))
        ensures
            r == (self.frame_width, self.frame_height),
    {
        (self.frame_width, self.frame_height)
    }

    /// Set the frame offset added to every shape (as f32 bit patterns).
    pub fn set_frame_offset(&mut self, x: u32, y: u32)
        ensures
            *final(self) == (ShapeRenderer {
                frame_offset_x: x,
                frame_offset_y: y,
                ..*old(self)
            }),
    {
        self.frame_offset_x = x;
        self.frame_offset_y = y;
    }

    /// The frame offset added to every shape (as f32 bit patterns).
    pub fn frame_offset(&self) -> (r: (u32, u32))
        ensures
            r == (self.frame_offset_x, self.frame_offset_y),
    {
        (self.frame_offset_x, self.frame_offset_y)
    }

    /// Set the background clear color.
    pub fn background_color(&mut self, background_color: Color)
        ensures
            *final(self) == (ShapeRenderer { background: background_color, ..*old(self) }),
    {
        self.background = background_color;
    }

    /// Declare a rectangle for the current frame and return the builder
    /// through which its fields are set.
    pub fn rect(&mut self) -> (r: &mut Rect)
        ensures
            r.data == default_shape_data(),
            final(self).recs@ == old(self).recs@.push(*final(r)),
            final(self).ovals == old(self).ovals,
            final(self).images == old(self).images,
            final(self).frame_width == old(self).frame_width,
            final(self).frame_height == old(self).frame_height,
            final(self).frame_offset_x == old(self).frame_offset_x,
            final(self).frame_offset_y == old(self).frame_offset_y,
            final(self).background == old(self).background,
            final(self).texture_size == old(self).texture_size,
            final(self).textures == old(self).textures,
            final(self).textures_cords == old(self).textures_cords,
            final(self).atlas == old(self).atlas,
            old(self).wf() ==> final(self).wf(),
    {
        self.recs.push(Rect::new());
        let idx = self.recs.len() - 1;
        &mut self.recs[idx]
    }

    /// Declare an oval for the current frame and return the builder through
    /// which its fields are set. The renderer stays well formed as long as
    /// the builder's final segment count is at least 3, which every builder
    /// method keeps.
    pub fn oval(&mut self) -> (r: &mut Oval)
        ensures
            r.data == default_shape_data(),
            r.detail == DEFAULT_DETAIL,
            final(self).ovals@ == old(self).ovals@.push(*final(r)),
            final(self).recs == old(self).recs,
            final(self).images == old(self).images,
            final(self).frame_width == old(self).frame_width,
            final(self).frame_height == old(self).frame_height,
            final(self).frame_offset_x == old(self).frame_offset_x,
            final(self).frame_offset_y == old(self).frame_offset_y,
            final(self).background == old(self).background,
            final(self).texture_size == old(self).texture_size,
            final(self).textures == old(self).textures,
            final(self).textures_cords == old(self).textures_cords,
            final(self).atlas == old(self).atlas,
            old(self).wf() && final(r).detail >= 3 ==> final(self).wf(),
    {
        self.ovals.push(Oval::new());
        let idx = self.ovals.len() - 1;
        &mut self.ovals[idx]
    }

    /// Declare a sprite for the current frame and return the builder through
    /// which its fields are set. The sprite samples the atlas rectangle of
    /// the bitmap with the given index; an index no bitmap has is non-fatal:
    /// the sprite keeps the default whole-texture UV rectangle.
    pub fn image(&mut self, texture_index: usize) -> (r: &mut Image)
        ensures
            *r == default_image(
                if texture_index < old(self).textures_cords@.len() {
                    old(self).textures_cords@[texture_index as int]
                } else {
                    UvRect { x: 0, y: 0, width: 1, height: 1, bin: 1 }
                },
            ),
            final(self).images@ == old(self).images@.push(*final(r)),
            final(self).recs == old(self).recs,
            final(self).ovals == old(self).ovals,
            final(self).frame_width == old(self).frame_width,
            final(self).frame_height == old(self).frame_height,
            final(self).frame_offset_x == old(self).frame_offset_x,
            final(self).frame_offset_y == old(self).frame_offset_y,
            final(self).background == old(self).background,
            final(self).texture_size == old(self).texture_size,
            final(self).textures == old(self).textures,
            final(self).textures_cords == old(self).textures_cords,
            final(self).atlas == old(self).atlas,
            old(self).wf() ==> final(self).wf(),
    {
        let uv = if texture_index < self.textures_cords.len() {
            self.textures_cords[texture_index]
        } else {
            UvRect::full()
        };
        self.images.push(Image::new(uv));
        let idx = self.images.len() - 1;
        &mut self.images[idx]
    }

    /// Decode one image from bytes and add it to the atlas, repacking every
    /// bitmap from scratch. On failure — bytes that are no image with at
    /// least one pixel, or a bitmap set that no permitted bin holds — the
    /// renderer is unchanged.
    pub fn add_texture_from_bytes(&mut self, bytes: &[u8]) -> (r: Result<(), TextureError>)
        requires
            old(self).wf(),
        ensures
            final(self).wf(),
            r is Err ==> *final(self) == *old(self),
            (r == Err::<(), TextureError>(TextureError::Decode)) <==> (decoded_rgba(bytes@)
                is None || (decoded_rgba(bytes@) matches Some(d) && (d.0 == 0 || d.1 == 0))),
            (r == Err::<(), TextureError>(TextureError::AtlasOverflow)) <==> (decoded_rgba(bytes@)
                matches Some(d) && d.0 >= 1 && d.1 >= 1 && grow_outcome(
                dims_of(old(self).textures@).push((d.0, d.1)),
                old(self).texture_size as int,
            ) is None),
            r is Ok ==> (decoded_rgba(bytes@) matches Some(d) && {
                &&& final(self).textures@.len() == old(self).textures@.len() + 1
                &&& final(self).textures@.drop_last() == old(self).textures@
                &&& final(self).textures@.last().width == d.0
                &&& final(self).textures@.last().height == d.1
                &&& final(self).textures@.last().pixels@ == d.2
                &&& final(self).atlas is Some
            }),
            final(self).recs == old(self).recs,
            final(self).ovals == old(self).ovals,
            final(self).images == old(self).images,
    {
        match decode_rgba(bytes) {
            Some(b) => {
                if b.width == 0 || b.height == 0 {
                    return Err(TextureError::Decode);
                }
                let ghost old_textures = self.textures@;
                let ghost bm = b;
                let mut one: Vec<Bitmap> = Vec::new();
                one.push(b);
                let res = self.add_bitmaps(one);
                proof {
                    assert(dims_of(old_textures + seq![bm]) =~= dims_of(old_textures).push(
                        (bm.width, bm.height),
                    ));
                    if res is Ok {
                        assert(final(self).textures@ == old_textures + seq![bm]);
                        assert(final(self).textures@.drop_last() =~= old_textures);
                        assert(final(self).textures@.last() == bm);
                    }
                }
                res
            },
            None => Err(TextureError::Decode),
        }
    }

    /// Decode a list of images from bytes and add them to the atlas in one
    /// repack. When any of the byte strings is no image with at least one
    /// pixel, or the grown-to-the-ceiling bin cannot hold every bitmap, the
    /// renderer is unchanged.
    pub fn add_textures_from_bytes(&mut self, list: &Vec<Vec<u8>>) -> (r: Result<
        (),
        TextureError,
    >)
        requires
            old(self).wf(),
        ensures
            final(self).wf(),
            r is Err ==> *final(self) == *old(self),
            (r == Err::<(), TextureError>(TextureError::Decode)) <==> (exists|i: int|
                0 <= i < list@.len() && !decode_ok(list@[i]@)),
            (r is Ok) == ((forall|j: int| 0 <= j < list@.len() ==> decode_ok(#[trigger] list@[j]@))
                && grow_outcome(
                dims_of(old(self).textures@) + decoded_dims(list@),
                old(self).texture_size as int,
            ) is Some),
            (r == Err::<(), TextureError>(TextureError::AtlasOverflow)) <==> ((forall|j: int|
                0 <= j < list@.len() ==> decode_ok(#[trigger] list@[j]@)) && grow_outcome(
                dims_of(old(self).textures@) + decoded_dims(list@),
                old(self).texture_size as int,
            ) is None),
            r is Ok ==> {
                &&& final(self).textures@.len() == old(self).textures@.len() + list@.len()
                &&& forall|j: int|
                    0 <= j < old(self).textures@.len() ==> final(self).textures@[j] == old(
                        self,
                    ).textures@[j]
                &&& forall|j: int|
                    0 <= j < list@.len() ==> decode_ok(#[trigger] list@[j]@) && {
                        let d = decoded_rgba(list@[j]@).unwrap();
                        let b = final(self).textures@[old(self).textures@.len() + j];
                        b.width == d.0 && b.height == d.1 && b.pixels@ == d.2
                    }
            },
            r is Ok ==> (grow_outcome(
                dims_of(old(self).textures@) + decoded_dims(list@),
                old(self).texture_size as int,
            ) matches Some((sz, pos)) && {
                &&& final(self).texture_size == sz
                &&& final(self).textures_cords@.len() == final(self).textures@.len()
                &&& pos.len() == final(self).textures@.len()
                &&& forall|i: int|
                    0 <= i < pos.len() ==> #[trigger] final(self).textures_cords@[i] == (UvRect {
                        x: pos[i].0,
                        y: pos[i].1,
                        width: final(self).textures@[i].width,
                        height: final(self).textures@[i].height,
                        bin: final(self).texture_size,
                    })
            }),
            r is Ok && final(self).textures@.len() == 0 ==> final(self).atlas is None,
            r is Ok && final(self).textures@.len() > 0 ==> (final(self).atlas matches Some(a)
                && {
                &&& a.size == final(self).texture_size
                &&& a.pixels@.len() == 4 * a.size * a.size
                &&& forall|x: int, y: int, k: int|
                    0 <= x < a.size && 0 <= y < a.size && 0 <= k < 4
                        ==> a.pixels@[#[trigger] buf_index(a.size as int, x, y, k)] == merged_byte(
                        final(self).textures@,
                        cords_places(final(self).textures_cords@),
                        x,
                        y,
                        k,
                    )
            }),
            final(self).recs == old(self).recs,
            final(self).ovals == old(self).ovals,
            final(self).images == old(self).images,
    {
        let mut decoded: Vec<Bitmap> = Vec::new();
        let mut i: usize = 0;
        while i < list.len()
            invariant
                *self == *old(self),
                old(self).wf(),
                i <= list@.len(),
                decoded@.len() == i,
                forall|j: int| 0 <= j < i ==> decode_ok(#[trigger] list@[j]@),
                forall|j: int|
                    0 <= j < i ==> {
                        let d = decoded_rgba(list@[j]@).unwrap();
                        let b = (#[trigger] decoded@[j]);
                        b.width == d.0 && b.height == d.1 && b.pixels@ == d.2 && b.wf()
                    },
            decreases list@.len() - i,
        {
            match decode_rgba(list[i].as_slice()) {
                Some(b) => {
                    if b.width == 0 || b.height == 0 {
                        return Err(TextureError::Decode);
                    }
                    decoded.push(b);
                },
                None => {
                    return Err(TextureError::Decode);
                },
            }
            i = i + 1;
        }
        let ghost old_len = self.textures@.len();
        let ghost decoded_view = decoded@;
        proof {
            assert(dims_of(old(self).textures@ + decoded_view) =~= dims_of(old(self).textures@)
                + decoded_dims(list@));
        }
        let res = self.add_bitmaps(decoded);
        proof {
            if res is Ok {
                assert forall|j: int| 0 <= j < old_len implies final(self).textures@[j] == old(
                    self,
                ).textures@[j] by {}
            } else {
                assert(res == Err::<(), TextureError>(TextureError::AtlasOverflow));
            }
        }
        res
    }

    /// Add one bitmap to the atlas, repacking every bitmap from scratch. On
    /// failure the renderer is unchanged.
    pub fn add_bitmap(&mut self, b: Bitmap) -> (r: Result<(), TextureError>)
        requires
            old(self).wf(),
            b.wf(),
        ensures
            final(self).wf(),
            (r is Ok) == (grow_outcome(
                dims_of(old(self).textures@).push((b.width, b.height)),
                old(self).texture_size as int,
            ) is Some),
            r is Err ==> *final(self) == *old(self) && r == Err::<(), TextureError>(
                TextureError::AtlasOverflow,
            ),
            r is Ok ==> final(self).textures@.len() == old(self).textures@.len() + 1
                && final(self).textures@.drop_last() == old(self).textures@
                && final(self).textures@.last() == b && final(self).atlas is Some,
            final(self).recs == old(self).recs,
            final(self).ovals == old(self).ovals,
            final(self).images == old(self).images,
    {
        let ghost old_textures = self.textures@;
        let ghost bm = b;
        let mut one: Vec<Bitmap> = Vec::new();
        one.push(b);
        let res = self.add_bitmaps(one);
        proof {
            assert(dims_of(old_textures + seq![bm]) =~= dims_of(old_textures).push(
                (bm.width, bm.height),
            ));
            if res is Ok {
                assert(final(self).textures@ == old_textures + seq![bm]);
                assert(final(self).textures@.drop_last() =~= old_textures);
                assert(final(self).textures@.last() == bm);
            }
        }
        res
    }

    /// Add a list of bitmaps to the atlas in one repack: every bitmap, old
    /// and new, is placed anew into the smallest bin of the doubling chain
    /// that holds them all, the merged image is rebuilt, and every UV
    /// rectangle is recomputed — repacking invalidates UV rectangles handed
    /// out earlier. On failure the renderer is unchanged.
    pub fn add_bitmaps(&mut self, bs: Vec<Bitmap>) -> (r: Result<(), TextureError>)
        requires
            old(self).wf(),
            forall|i: int| 0 <= i < bs@.len() ==> (#[trigger] bs@[i]).wf(),
        ensures
            final(self).wf(),
            (r is Ok) == (grow_outcome(
                dims_of(old(self).textures@ + bs@),
                old(self).texture_size as int,
            ) is Some),
            r is Err ==> *final(self) == *old(self) && r == Err::<(), TextureError>(
                TextureError::AtlasOverflow,
            ),
            r is Ok ==> final(self).textures@ == old(self).textures@ + bs@,
            r is Ok ==> (grow_outcome(
                dims_of(old(self).textures@ + bs@),
                old(self).texture_size as int,
            ) matches Some((sz, pos)) && {
                &&& final(self).texture_size == sz
                &&& final(self).textures_cords@.len() == final(self).textures@.len()
                &&& pos.len() == final(self).textures@.len()
                &&& forall|i: int|
                    0 <= i < pos.len() ==> #[trigger] final(self).textures_cords@[i] == (UvRect {
                        x: pos[i].0,
                        y: pos[i].1,
                        width: final(self).textures@[i].width,
                        height: final(self).textures@[i].height,
                        bin: final(self).texture_size,
                    })
            }),
            r is Ok && final(self).textures@.len() == 0 ==> final(self).atlas is None,
            r is Ok && final(self).textures@.len() > 0 ==> (final(self).atlas matches Some(a)
                && {
                &&& a.size == final(self).texture_size
                &&& a.pixels@.len() == 4 * a.size * a.size
                &&& forall|x: int, y: int, k: int|
                    0 <= x < a.size && 0 <= y < a.size && 0 <= k < 4
                        ==> a.pixels@[#[trigger] buf_index(a.size as int, x, y, k)] == merged_byte(
                        final(self).textures@,
                        cords_places(final(self).textures_cords@),
                        x,
                        y,
                        k,
                    )
            }),
            final(self).recs == old(self).recs,
            final(self).ovals == old(self).ovals,
            final(self).images == old(self).images,
            final(self).frame_width == old(self).frame_width,
            final(self).frame_height == old(self).frame_height,
            final(self).frame_offset_x == old(self).frame_offset_x,
            final(self).frame_offset_y == old(self).frame_offset_y,
            final(self).background == old(self).background,
    {
        let ghost all = old(self).textures@ + bs@;
        let mut dims: Vec<(u32, u32)> = Vec::new();
        let mut i: usize = 0;
        while i < self.textures.len()
            invariant
                *self == *old(self),
                old(self).wf(),
                i <= self.textures@.len(),
                dims@.len() == i,
                forall|j: int|
                    0 <= j < i ==> #[trigger] dims@[j] == (
                        self.textures@[j].width,
                        self.textures@[j].height,
                    ),
            decreases self.textures@.len() - i,
        {
            let b = &self.textures[i];
            dims.push((b.width, b.height));
            i = i + 1;
        }
        let mut j: usize = 0;
        while j < bs.len()
            invariant
                *self == *old(self),
                old(self).wf(),
                forall|q: int| 0 <= q < bs@.len() ==> (#[trigger] bs@[q]).wf(),
                j <= bs@.len(),
                dims@.len() == self.textures@.len() + j,
                forall|q: int|
                    0 <= q < self.textures@.len() ==> #[trigger] dims@[q] == (
                        self.textures@[q].width,
                        self.textures@[q].height,
                    ),
                forall|q: int|
                    self.textures@.len() <= q < dims@.len() ==> #[trigger] dims@[q] == (
                        bs@[q - self.textures@.len()].width,
                        bs@[q - self.textures@.len()].height,
                    ),
            decreases bs@.len() - j,
        {
            let b = &bs[j];
            dims.push((b.width, b.height));
            j = j + 1;
        }
        proof {
            assert(dims@ =~= dims_of(all));
            assert forall|q: int| 0 <= q < dims@.len() implies (#[trigger] dims@[q]).0 >= 1
                && dims@[q].1 >= 1 by {
                if q < self.textures@.len() {
                    assert(self.textures@[q].wf());
                } else {
                    assert(bs@[q - self.textures@.len()].wf());
                }
            }
        }
        match pack_with_growth(&dims, self.texture_size) {
            Some((sz, placements)) => {
                let mut bs = bs;
                self.textures.append(&mut bs);
                let mut cords: Vec<UvRect> = Vec::new();
                let mut c: usize = 0;
                while c < placements.len()
                    invariant
                        c <= placements@.len(),
                        cords@.len() == c,
                        forall|q: int|
                            0 <= q < c ==> #[trigger] cords@[q] == (UvRect {
                                x: placements@[q].x,
                                y: placements@[q].y,
                                width: placements@[q].width,
                                height: placements@[q].height,
                                bin: sz,
                            }),
                    decreases placements@.len() - c,
                {
                    let p = placements[c];
                    cords.push(UvRect { x: p.x, y: p.y, width: p.width, height: p.height, bin: sz });
                    c = c + 1;
                }
                self.textures_cords = cords;
                self.texture_size = sz;
                if self.textures.len() == 0 {
                    self.atlas = None;
                    return Ok(());
                }
                proof {
                    assert forall|q: int| 0 <= q < self.textures@.len() implies (
                    #[trigger] self.textures@[q]).wf() by {
                        if q < old(self).textures@.len() {
                            assert(old(self).textures@[q].wf());
                        }
                    }
                    assert forall|q: int| 0 <= q < placements@.len() implies (
                    #[trigger] placements@[q]).width == self.textures@[q].width
                        && placements@[q].height == self.textures@[q].height by {
                        assert(dims@[q] == (self.textures@[q].width, self.textures@[q].height));
                    }
                }
                let merged = merge_bitmaps(&self.textures, &placements, sz);
                self.atlas = Some(AtlasImage { size: sz, pixels: merged });
                proof {
                    assert(cords_places(self.textures_cords@) =~= placements@);
                }
                Ok(())
            },
            None => Err(TextureError::AtlasOverflow),
        }
    }

    /// Produce the frame plan for the shapes declared since the last
    /// `clear()`: the per-frame uniform state; the rectangle pass when at
    /// least one rectangle was declared; one oval pass per distinct detail
    /// level, in order of first declaration, each pairing the level's
    /// polygon geometry with the instances of exactly the ovals of that
    /// level; and the sprite pass when an atlas exists and at least one
    /// sprite was declared. No pass is empty, and the oval passes together
    /// hold every declared oval exactly once.
    pub fn render(&self) -> (plan: FramePlan)
        requires
            self.wf(),
        ensures
            plan.frame_width == self.frame_width,
            plan.frame_height == self.frame_height,
            plan.frame_offset_x == self.frame_offset_x,
            plan.frame_offset_y == self.frame_offset_y,
            plan.background == self.background,
            (plan.rect_pass is Some) == (self.recs@.len() > 0),
            plan.rect_pass matches Some(p) ==> p.geometry.vertex_count == 4
                && p.geometry.indices@ == fan_indices(4) && p.instances@ == instances_of_rects(
                self.recs@,
            ),
            plan.oval_passes@.len() == distinct_details(self.ovals@).len(),
            forall|i: int|
                0 <= i < plan.oval_passes@.len() ==> {
                    let p = #[trigger] plan.oval_passes@[i];
                    let d = distinct_details(self.ovals@)[i];
                    &&& p.geometry.vertex_count == d
                    &&& p.geometry.indices@ == fan_indices(d as int)
                    &&& p.instances@ == instances_of_ovals(ovals_with_detail(self.ovals@, d))
                    &&& p.instances@.len() >= 1
                },
            passes_instances(plan.oval_passes@).to_multiset() == instances_of_ovals(
                self.ovals@,
            ).to_multiset(),
            (plan.sprite_pass is Some) == (self.atlas is Some && self.images@.len() > 0),
            plan.sprite_pass matches Some(p) ==> p.geometry.vertex_count == 4
                && p.geometry.indices@ == fan_indices(4) && p.instances@ == instances_of_images(
                self.images@,
            ),
    {
        let rect_pass = if self.recs.len() > 0 {
            Some(ShapePass { geometry: quad(), instances: build_rect_instances(&self.recs) })
        } else {
            None
        };
        let mut groups = group_ovals(&self.ovals);
        let ghost gs0 = groups@;
        let mut oval_passes: Vec<ShapePass> = Vec::new();
        while groups.len() > 0
            invariant
                self.wf(),
                gs0.len() == distinct_details(self.ovals@).len(),
                forall|i: int, j: int|
                    0 <= i < j < gs0.len() ==> (#[trigger] gs0[i]).detail != (
                    #[trigger] gs0[j]).detail,
                forall|i: int|
                    0 <= i < gs0.len() ==> (#[trigger] gs0[i]).detail == distinct_details(
                        self.ovals@,
                    )[i],
                forall|i: int|
                    0 <= i < gs0.len() ==> (#[trigger] gs0[i]).instances@ == instances_of_ovals(
                        ovals_with_detail(self.ovals@, gs0[i].detail),
                    ),
                forall|i: int| 0 <= i < gs0.len() ==> (#[trigger] gs0[i]).instances@.len() >= 1,
                oval_passes@.len() + groups@.len() == gs0.len(),
                forall|i: int|
                    0 <= i < groups@.len() ==> #[trigger] groups@[i] == gs0[oval_passes@.len()
                        + i],
                forall|i: int|
                    0 <= i < oval_passes@.len() ==> {
                        let p = #[trigger] oval_passes@[i];
                        &&& p.geometry.vertex_count == gs0[i].detail
                        &&& p.geometry.indices@ == fan_indices(gs0[i].detail as int)
                        &&& p.instances@ == gs0[i].instances@
                    },
            decreases groups@.len(),
        {
            let g = groups.remove(0);
            let ghost n = oval_passes@.len();
            proof {
                assert(g == gs0[n as int]);
                lemma_distinct_from_ovals(self.ovals@, n as int);
            }
            let geometry = polygon(g.detail);
            oval_passes.push(ShapePass { geometry, instances: g.instances });
        }
        proof {
            lemma_passes_instances_eq(oval_passes@, gs0);
        }
        let sprite_pass = if self.atlas.is_some() && self.images.len() > 0 {
            Some(
                SpritePass { geometry: quad(), instances: build_image_instances(&self.images) },
            )
        } else {
            None
        };
        FramePlan {
            frame_width: self.frame_width,
            frame_height: self.frame_height,
            frame_offset_x: self.frame_offset_x,
            frame_offset_y: self.frame_offset_y,
            background: self.background,
            rect_pass,
            oval_passes,
            sprite_pass,
        }
    }
}

} // verus!
