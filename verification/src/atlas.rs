//! Texture-atlas packing: given an ordered list of source bitmaps, compute
//! non-overlapping pixel placements inside a square bin, growing the bin by
//! doubling its side and repacking from scratch whenever the current size
//! cannot hold them all, then merge every bitmap into one RGBA8 pixel buffer.
//! The placement search itself is done by the `rectangle_pack` crate; the
//! growth loop, the merged buffer, and the normalized coordinates derived from
//! the placements are verified here.

use vstd::prelude::*;

use rectangle_pack::contains_smallest_box;
use rectangle_pack::pack_rects;
use rectangle_pack::volume_heuristic;
use rectangle_pack::GroupedRectsToPlace;
use rectangle_pack::RectToInsert;
use rectangle_pack::TargetBin;
use std::collections::BTreeMap;

verus! {

/// Side length, in pixels, of the first atlas bin that is tried.
pub const ATLAS_START_SIZE: u32 = 512;

/// Ceiling on the atlas side length: when even a bin of this size cannot hold
/// all bitmaps, packing is reported as a hard failure instead of growing on.
pub const ATLAS_MAX_SIZE: u32 = 16384;

/// One source bitmap: RGBA8 pixel data, row major, 4 bytes per pixel.
#[derive(Clone, Debug)]
pub struct Bitmap {
    pub width: u32,
    pub height: u32,
    pub pixels: Vec<u8>,
}

impl Bitmap {
    /// A bitmap is well formed when it has at least one pixel in each
    /// direction and exactly 4 bytes of data per pixel.
    pub open spec fn wf(self) -> bool {
        &&& self.width >= 1
        &&& self.height >= 1
        &&& self.pixels@.len() == 4 * self.width * self.height
    }
}

/// The pixel-space rectangle that one source bitmap occupies inside an atlas
/// bin. The normalized texture coordinates of the bitmap are the four ratios
/// `x/bin`, `y/bin`, `width/bin`, `height/bin` of one placement.
#[derive(Clone, Copy, PartialEq, Eq, Structural, Debug)]
pub struct Placement {
    pub x: u32,
    pub y: u32,
    pub width: u32,
    pub height: u32,
}

impl Placement {
    /// The placement lies fully inside a square bin with side `size`.
    pub open spec fn within(self, size: u32) -> bool {
        self.x + self.width <= size && self.y + self.height <= size
    }

    /// Two placements share no pixel: they are separated along at least one
    /// axis.
    pub open spec fn disjoint(self, other: Placement) -> bool {
        ||| self.x + self.width <= other.x
        ||| other.x + other.width <= self.x
        ||| self.y + self.height <= other.y
        ||| other.y + other.height <= self.y
    }

    /// The placement covers the pixel at column `x`, row `y`.
    pub open spec fn covers(self, x: int, y: int) -> bool {
        self.x <= x < self.x + self.width && self.y <= y < self.y + self.height
    }
}

/// Why a texture ingestion call failed.
#[derive(Clone, Copy, PartialEq, Eq, Structural, Debug)]
pub enum TextureError {
    /// The bytes could not be decoded into an image with at least one pixel.
    Decode,
    /// Even a bin of `ATLAS_MAX_SIZE` could not hold all bitmaps.
    AtlasOverflow,
}

/// What decoding one byte string yields: `None` when the bytes are not a
/// decodable image, else the image's width, height and RGBA8 pixel data.
/// Decoding is a fixed function of the bytes on a given machine. (JPEG
/// pixel bytes can differ between CPU families: the decoder's vectorized
/// inverse DCT documents rounding differences against its scalar path. The
/// success of a decode and the image's dimensions do not depend on that.)
pub uninterp spec fn decoded_rgba(bytes: Seq<u8>) -> Option<(u32, u32, Seq<u8>)>;

/// Relies on `image::load_from_memory` and `DynamicImage::to_rgba8`: a
/// successful decode yields an RGBA8 buffer of exactly 4 bytes per pixel,
/// and decoding depends on the bytes alone on any one machine.
#[verifier::external_body]
pub(crate) fn decode_rgba(bytes: &[u8]) -> (r: Option<Bitmap>)
    ensures
        (r is Some) == (decoded_rgba(bytes@) is Some),
        r matches Some(b) ==> {
            &&& decoded_rgba(bytes@) == Some((b.width, b.height, b.pixels@))
            &&& b.pixels@.len() == 4 * b.width * b.height
        },
{
    match image::load_from_memory(bytes) {
        Ok(img) => {
            let rgba = img.to_rgba8();
            let (width, height) = rgba.dimensions();
            Some(Bitmap { width, height, pixels: rgba.into_raw() })
        },
        Err(_) => None,
    }
}

/// What `rectangle_pack::pack_rects` answers for one list of rectangle sizes
/// and one square bin: `None` when the heuristic cannot place them all, else
/// the pixel position chosen for each rectangle, index-aligned with the input.
/// The search is deterministic (it iterates ordered maps only), so the answer
/// is a function of the sizes and the bin alone.
pub uninterp spec fn pack_outcome(dims: Seq<(u32, u32)>, size: u32) -> Option<Seq<(u32, u32)>>;

/// Relies on `rectangle_pack::pack_rects` (with `volume_heuristic` and
/// `contains_smallest_box`, one bin, depth 1): on success every rectangle is
/// placed, at the origin of a free guillotine section, so each placed
/// rectangle keeps its size, lies inside the bin, and overlaps no other;
/// the search is deterministic, so the result is `pack_outcome`.
#[verifier::external_body]
fn try_pack(dims: &Vec<(u32, u32)>, size: u32) -> (r: Option<Vec<(u32, u32)>>)
    requires
        forall|i: int| 0 <= i < dims@.len() ==> (#[trigger] dims@[i]).0 >= 1 && dims@[i].1 >= 1,
    ensures
        (r is Some) == (pack_outcome(dims@, size) is Some),
        r matches Some(ps) ==> {
            &&& pack_outcome(dims@, size) == Some(ps@)
            &&& ps@.len() == dims@.len()
            &&& forall|i: int|
                0 <= i < ps@.len() ==> (#[trigger] ps@[i]).0 + dims@[i].0 <= size && ps@[i].1
                    + dims@[i].1 <= size
            &&& forall|i: int, j: int|
                0 <= i < j < ps@.len() ==> place_at(ps@[i], dims@[i]).disjoint(
                    place_at(ps@[j], dims@[j]),
                )
        },
{
    let mut rects: GroupedRectsToPlace<usize, usize> = GroupedRectsToPlace::new();
    for (i, d) in dims.iter().enumerate() {
        rects.push_rect(i, None, RectToInsert::new(d.0, d.1, 1));
    }
    let mut bins = BTreeMap::new();
    bins.insert(0usize, TargetBin::new(size, size, 1));
    match pack_rects(&rects, &mut bins, &volume_heuristic, &contains_smallest_box) {
        Ok(ok) => Some(
            (0..dims.len()).map(|i| {
                let loc = &ok.packed_locations()[&i].1;
                (loc.x(), loc.y())
            }).collect(),
        ),
        Err(_) => None,
    }
}

/// The placement of a rectangle of size `dim` whose corner was put at `pos`.
pub open spec fn place_at(pos: (u32, u32), dim: (u32, u32)) -> Placement {
    Placement { x: pos.0, y: pos.1, width: dim.0, height: dim.1 }
}

/// Measure for the doubling recursion: how far `size` still is from the
/// ceiling.
pub open spec fn growth_measure(size: int) -> int {
    if 1 <= size <= ATLAS_MAX_SIZE {
        2 * ATLAS_MAX_SIZE - size
    } else {
        0
    }
}

/// The outcome of packing with growth: try the bin at `size`; on failure
/// double the side and repack everything from scratch, up to the ceiling.
/// `None` means even the largest permitted bin was refused.
pub open spec fn grow_outcome(dims: Seq<(u32, u32)>, size: int) -> Option<(int, Seq<(u32, u32)>)>
    decreases growth_measure(size),
{
    if size < 1 || size > ATLAS_MAX_SIZE {
        None
    } else if pack_outcome(dims, size as u32) is Some {
        Some((size, pack_outcome(dims, size as u32).unwrap()))
    } else {
        grow_outcome(dims, 2 * size)
    }
}

/// Whether `sz` is one of the bin sides that growing from `start` can
/// reach: `start`, `2*start`, `4*start`, and so on, as far as the ceiling
/// allows.
pub open spec fn in_growth_chain(start: int, sz: int) -> bool
    decreases growth_measure(start),
{
    if start == sz {
        true
    } else if start < 1 || start > ATLAS_MAX_SIZE {
        false
    } else {
        in_growth_chain(2 * start, sz)
    }
}

/// A bin side in the chain from `start` is at least `start`.
proof fn lemma_chain_ge(start: int, sz: int)
    requires
        in_growth_chain(start, sz),
    ensures
        sz >= start,
    decreases growth_measure(start),
{
    if start != sz {
        lemma_chain_ge(2 * start, sz);
    }
}

/// Packing twice from one cold state is idempotent: the outcome of the
/// growth chain — success or failure, the final bin side, and every
/// placement — is a function of the rectangle sizes and the starting bin
/// alone, so two runs on the same input agree bit for bit.
pub proof fn lemma_pack_growth_idempotent(
    dims1: Seq<(u32, u32)>,
    dims2: Seq<(u32, u32)>,
    start1: u32,
    start2: u32,
)
    requires
        dims1 == dims2,
        start1 == start2,
    ensures
        grow_outcome(dims1, start1 as int) == grow_outcome(dims2, start2 as int),
{
}

/// Success is owed whenever the placement search accepts any permitted bin
/// side `s` of the doubling chain: growing from `size` then terminates with
/// a success rather than a failure. Together with
/// `lemma_growth_finds_first_fit` this is the growth law as far as the
/// placement search admits one — a bare area bound cannot stand in for the
/// premise, since rectangles whose total area fits a bin may still admit no
/// disjoint placement in it. The case of a single bitmap wider than the
/// current bin is included: its repack succeeds at a larger chain side
/// whenever the search accepts one.
pub proof fn lemma_growth_succeeds_when_accepted(dims: Seq<(u32, u32)>, size: int, s: int)
    requires
        in_growth_chain(size, s),
        s <= ATLAS_MAX_SIZE,
        1 <= size,
        pack_outcome(dims, s as u32) is Some,
    ensures
        grow_outcome(dims, size) is Some,
    decreases growth_measure(size),
{
    if size == s {
    } else {
        if pack_outcome(dims, size as u32) is None {
            lemma_growth_succeeds_when_accepted(dims, 2 * size, s);
        }
    }
}

/// The growth law, as far as the placement search admits one: when growing
/// from `size` succeeds, it succeeds at a bin side of the doubling chain
/// `size * 2^k`, the placement search accepts exactly that side's bin, and
/// every smaller side of the chain was refused — the returned side is the
/// first that works.
pub proof fn lemma_growth_finds_first_fit(dims: Seq<(u32, u32)>, size: int)
    ensures
        grow_outcome(dims, size) matches Some((sz, ps)) ==> {
            &&& in_growth_chain(size, sz)
            &&& size <= sz <= ATLAS_MAX_SIZE
            &&& pack_outcome(dims, sz as u32) == Some(ps)
            &&& forall|s: int|
                in_growth_chain(size, s) && s < sz ==> pack_outcome(dims, s as u32) is None
        },
    decreases growth_measure(size),
{
    if grow_outcome(dims, size) is Some {
        let (sz, ps) = grow_outcome(dims, size).unwrap();
        if pack_outcome(dims, size as u32) is Some {
            assert(sz == size);
            assert forall|s: int| in_growth_chain(size, s) && s < sz implies pack_outcome(
                dims,
                s as u32,
            ) is None by {
                lemma_chain_ge(size, s);
            }
        } else {
            lemma_growth_finds_first_fit(dims, 2 * size);
            lemma_chain_ge(2 * size, sz);
            assert forall|s: int| in_growth_chain(size, s) && s < sz implies pack_outcome(
                dims,
                s as u32,
            ) is None by {
                if s != size {
                    assert(in_growth_chain(2 * size, s));
                }
            }
        }
    }
}

/// Pack all of `dims` into the smallest bin of the doubling chain
/// `start, 2*start, 4*start, ...` (capped at `ATLAS_MAX_SIZE`) that the
/// placement search accepts. Returns that bin side and one placement per
/// input rectangle, index-aligned; `None` exactly when every size in the
/// chain was refused. Bins earlier in the chain than the returned one were
/// all refused.
pub fn pack_with_growth(dims: &Vec<(u32, u32)>, start: u32) -> (r: Option<(u32, Vec<Placement>)>)
    requires
        1 <= start <= ATLAS_MAX_SIZE,
        forall|i: int| 0 <= i < dims@.len() ==> (#[trigger] dims@[i]).0 >= 1 && dims@[i].1 >= 1,
    ensures
        (r is None) == (grow_outcome(dims@, start as int) is None),
        r matches Some((size, ps)) ==> {
            &&& grow_outcome(dims@, start as int) == Some(
                (size as int, ps@.map_values(|p: Placement| (p.x, p.y))),
            )
            &&& start <= size <= ATLAS_MAX_SIZE
            &&& ps@.len() == dims@.len()
            &&& forall|i: int|
                0 <= i < ps@.len() ==> (#[trigger] ps@[i]).width == dims@[i].0 && ps@[i].height
                    == dims@[i].1
            &&& forall|i: int| 0 <= i < ps@.len() ==> (#[trigger] ps@[i]).within(size)
            &&& forall|i: int, j: int|
                0 <= i < j < ps@.len() ==> (#[trigger] ps@[i]).disjoint(#[trigger] ps@[j])
        },
{
    let mut size: u32 = start;
    loop
        invariant
            1 <= start <= size,
            grow_outcome(dims@, start as int) == grow_outcome(dims@, size as int),
            forall|i: int|
                0 <= i < dims@.len() ==> (#[trigger] dims@[i]).0 >= 1 && dims@[i].1 >= 1,
            size <= 2 * ATLAS_MAX_SIZE,
        decreases 2 * ATLAS_MAX_SIZE - size,
    {
        if size > ATLAS_MAX_SIZE {
            return None;
        }
        match try_pack(dims, size) {
            Some(positions) => {
                let placements = attach_dims(&positions, dims);
                proof {
                    assert(positions@ =~= placements@.map_values(|p: Placement| (p.x, p.y)));
                }
                return Some((size, placements));
            },
            None => {
                size = 2 * size;
            },
        }
    }
}

/// Pair each chosen position with the size of the rectangle that was placed
/// there.
fn attach_dims(positions: &Vec<(u32, u32)>, dims: &Vec<(u32, u32)>) -> (ps: Vec<Placement>)
    requires
        positions@.len() == dims@.len(),
    ensures
        ps@.len() == dims@.len(),
        forall|i: int|
            0 <= i < ps@.len() ==> #[trigger] ps@[i] == place_at(positions@[i], dims@[i]),
{
    let mut ps: Vec<Placement> = Vec::new();
    let mut i: usize = 0;
    while i < positions.len()
        invariant
            positions@.len() == dims@.len(),
            i <= positions@.len(),
            ps@.len() == i,
            forall|j: int|
                0 <= j < ps@.len() ==> #[trigger] ps@[j] == place_at(positions@[j], dims@[j]),
        decreases positions@.len() - i,
    {
        let p = positions[i];
        let d = dims[i];
        ps.push(Placement { x: p.0, y: p.1, width: d.0, height: d.1 });
        i = i + 1;
    }
    ps
}

/// Byte offset of channel `k` of the pixel at column `x`, row `y` of a
/// row-major RGBA8 image whose rows are `size` pixels wide.
pub open spec fn buf_index(size: int, x: int, y: int, k: int) -> int {
    4 * (y * size + x) + k
}

/// Whether some placement of `ps` covers the pixel at `(x, y)`.
pub open spec fn is_covered(ps: Seq<Placement>, x: int, y: int) -> bool {
    exists|i: int| 0 <= i < ps.len() && (#[trigger] ps[i]).covers(x, y)
}

/// The index of a placement of `ps` that covers `(x, y)`; with pairwise
/// disjoint placements there is at most one.
pub open spec fn cover_index(ps: Seq<Placement>, x: int, y: int) -> int {
    choose|i: int| 0 <= i < ps.len() && (#[trigger] ps[i]).covers(x, y)
}

/// What the merged atlas holds in channel `k` of the pixel at `(x, y)`: the
/// corresponding byte of the bitmap placed over that pixel, or 0 where no
/// bitmap lies.
pub open spec fn merged_byte(
    bms: Seq<Bitmap>,
    ps: Seq<Placement>,
    x: int,
    y: int,
    k: int,
) -> u8 {
    if is_covered(ps, x, y) {
        let i = cover_index(ps, x, y);
        bms[i].pixels@[4 * ((y - ps[i].y) * bms[i].width + (x - ps[i].x)) + k]
    } else {
        0
    }
}

/// With pairwise disjoint placements, a pixel that placement `i` covers is
/// covered by that placement alone.
pub proof fn lemma_cover_unique(ps: Seq<Placement>, x: int, y: int, i: int)
    requires
        forall|a: int, b: int| 0 <= a < b < ps.len() ==> (#[trigger] ps[a]).disjoint(#[trigger] ps[b]),
        0 <= i < ps.len(),
        ps[i].covers(x, y),
    ensures
        is_covered(ps, x, y),
        cover_index(ps, x, y) == i,
{
    assert(is_covered(ps, x, y));
    let j = cover_index(ps, x, y);
    if j != i {
        if i < j {
            assert(ps[i].disjoint(ps[j]));
        } else {
            assert(ps[j].disjoint(ps[i]));
        }
        assert(false);
    }
}

/// Channel offsets within one bitmap stay inside its pixel data, and fit a
/// 32-bit machine word as long as the bitmap is no larger than the largest
/// atlas bin.
proof fn lemma_src_in_bounds(w: int, h: int, c: int, r: int)
    requires
        0 <= c < w,
        0 <= r < h,
        w <= ATLAS_MAX_SIZE,
        h <= ATLAS_MAX_SIZE,
    ensures
        0 <= 4 * (r * w + c),
        4 * (r * w + c) + 3 < 4 * w * h,
        4 * (r * w + c) + 3 < 0x4000_0000,
{
    assert(0 <= 4 * (r * w + c) && 4 * (r * w + c) + 3 < 4 * w * h && 4 * (r * w + c) + 3
        < 0x4000_0000) by (nonlinear_arith)
        requires
            0 <= c < w,
            0 <= r < h,
            w <= ATLAS_MAX_SIZE,
            h <= ATLAS_MAX_SIZE,
    ;
}

/// Pixels are laid out in row-major order: an earlier pixel has a smaller
/// byte offset.
proof fn lemma_pixel_order(size: int, x1: int, y1: int, x2: int, y2: int)
    requires
        0 <= x1 < size,
        0 <= x2,
        0 <= y1,
        y1 < y2 || (y1 == y2 && x1 < x2),
    ensures
        y1 * size + x1 < y2 * size + x2,
{
    assert(y1 * size + x1 < y2 * size + x2) by (nonlinear_arith)
        requires
            0 <= x1 < size,
            0 <= x2,
            0 <= y1,
            y1 < y2 || (y1 == y2 && x1 < x2),
    ;
}

/// The first placement of `ps` that covers the pixel at `(x, y)`, if any.
/// With pairwise disjoint placements it is the only one.
fn find_cover(ps: &Vec<Placement>, x: u32, y: u32) -> (r: Option<usize>)
    requires
        forall|a: int, b: int|
            0 <= a < b < ps@.len() ==> (#[trigger] ps@[a]).disjoint(#[trigger] ps@[b]),
        forall|i: int| 0 <= i < ps@.len() ==> (#[trigger] ps@[i]).within(ATLAS_MAX_SIZE),
    ensures
        r matches Some(i) ==> i < ps@.len() && ps@[i as int].covers(x as int, y as int),
        r is None ==> !is_covered(ps@, x as int, y as int),
{
    let mut i: usize = 0;
    while i < ps.len()
        invariant
            i <= ps@.len(),
            forall|j: int| 0 <= j < i ==> !(#[trigger] ps@[j]).covers(x as int, y as int),
            forall|j: int| 0 <= j < ps@.len() ==> (#[trigger] ps@[j]).within(ATLAS_MAX_SIZE),
        decreases ps@.len() - i,
    {
        let p = ps[i];
        if p.x <= x && x < p.x + p.width && p.y <= y && y < p.y + p.height {
            return Some(i);
        }
        i = i + 1;
    }
    None
}

/// Copy every bitmap into a fresh `size` x `size` RGBA8 buffer at its
/// placement; pixels that no placement covers are left transparent black.
pub fn merge_bitmaps(bitmaps: &Vec<Bitmap>, placements: &Vec<Placement>, size: u32) -> (buf: Vec<
    u8,
>)
    requires
        1 <= size <= ATLAS_MAX_SIZE,
        bitmaps@.len() == placements@.len(),
        forall|i: int| 0 <= i < bitmaps@.len() ==> (#[trigger] bitmaps@[i]).wf(),
        forall|i: int|
            0 <= i < bitmaps@.len() ==> (#[trigger] placements@[i]).width == bitmaps@[i].width
                && placements@[i].height == bitmaps@[i].height,
        forall|i: int| 0 <= i < placements@.len() ==> (#[trigger] placements@[i]).within(size),
        forall|a: int, b: int|
            0 <= a < b < placements@.len() ==> (#[trigger] placements@[a]).disjoint(
                #[trigger] placements@[b],
            ),
    ensures
        buf@.len() == 4 * size * size,
        forall|x: int, y: int, k: int|
            0 <= x < size && 0 <= y < size && 0 <= k < 4 ==> buf@[#[trigger] buf_index(
                size as int,
                x,
                y,
                k,
            )] == merged_byte(bitmaps@, placements@, x, y, k),
{
    let ghost bms = bitmaps@;
    let ghost ps = placements@;
    let mut buf: Vec<u8> = Vec::new();
    let mut y: u32 = 0;
    while y < size
        invariant
            1 <= size <= ATLAS_MAX_SIZE,
            y <= size,
            bms == bitmaps@,
            ps == placements@,
            bms.len() == ps.len(),
            forall|i: int| 0 <= i < bms.len() ==> (#[trigger] bms[i]).wf(),
            forall|i: int|
                0 <= i < bms.len() ==> (#[trigger] ps[i]).width == bms[i].width && ps[i].height
                    == bms[i].height,
            forall|i: int| 0 <= i < ps.len() ==> (#[trigger] ps[i]).within(size),
            forall|a: int, b: int|
                0 <= a < b < ps.len() ==> (#[trigger] ps[a]).disjoint(#[trigger] ps[b]),
            buf@.len() == 4 * (y * size),
            forall|xx: int, yy: int, k: int|
                0 <= xx < size && 0 <= yy < y && 0 <= k < 4 ==> buf@[#[trigger] buf_index(
                    size as int,
                    xx,
                    yy,
                    k,
                )] == merged_byte(bms, ps, xx, yy, k),
        decreases size - y,
    {
        let mut x: u32 = 0;
        while x < size
            invariant
                1 <= size <= ATLAS_MAX_SIZE,
                y < size,
                x <= size,
                bms == bitmaps@,
                ps == placements@,
                bms.len() == ps.len(),
                forall|i: int| 0 <= i < bms.len() ==> (#[trigger] bms[i]).wf(),
                forall|i: int|
                    0 <= i < bms.len() ==> (#[trigger] ps[i]).width == bms[i].width && ps[i].height
                        == bms[i].height,
                forall|i: int| 0 <= i < ps.len() ==> (#[trigger] ps[i]).within(size),
                forall|a: int, b: int|
                    0 <= a < b < ps.len() ==> (#[trigger] ps[a]).disjoint(#[trigger] ps[b]),
                buf@.len() == 4 * (y * size + x),
                forall|xx: int, yy: int, k: int|
                    0 <= xx < size && 0 <= yy && (yy < y || (yy == y && xx < x)) && 0 <= k < 4
                        ==> buf@[#[trigger] buf_index(size as int, xx, yy, k)] == merged_byte(
                        bms,
                        ps,
                        xx,
                        yy,
                        k,
                    ),
            decreases size - x,
        {
            let ghost old_buf = buf@;
            match find_cover(placements, x, y) {
                Some(i) => {
                    let p = placements[i];
                    let bm = &bitmaps[i];
                    proof {
                        lemma_cover_unique(ps, x as int, y as int, i as int);
                        lemma_src_in_bounds(
                            bm.width as int,
                            bm.height as int,
                            x - p.x,
                            y - p.y,
                        );
                    }
                    let c: usize = (x - p.x) as usize;
                    let r: usize = (y - p.y) as usize;
                    let w: usize = bm.width as usize;
                    let base: usize = 4 * (r * w + c);
                    buf.push(bm.pixels[base]);
                    buf.push(bm.pixels[base + 1]);
                    buf.push(bm.pixels[base + 2]);
                    buf.push(bm.pixels[base + 3]);
                    proof {
                        assert forall|k: int| 0 <= k < 4 implies buf@[buf_index(
                            size as int,
                            x as int,
                            y as int,
                            k,
                        )] == merged_byte(bms, ps, x as int, y as int, k) by {
                            assert(buf_index(size as int, x as int, y as int, k) == old_buf.len()
                                + k);
                            assert(buf@[old_buf.len() + k] == bms[i as int].pixels@[4 * ((
                            y - p.y) * bms[i as int].width + (x - p.x)) + k]);
                        }
                    }
                },
                None => {
                    buf.push(0);
                    buf.push(0);
                    buf.push(0);
                    buf.push(0);
                    proof {
                        assert forall|k: int| 0 <= k < 4 implies buf@[buf_index(
                            size as int,
                            x as int,
                            y as int,
                            k,
                        )] == merged_byte(bms, ps, x as int, y as int, k) by {
                            assert(buf_index(size as int, x as int, y as int, k) == old_buf.len()
                                + k);
                        }
                    }
                },
            }
            proof {
                assert forall|xx: int, yy: int, k: int|
                    0 <= xx < size && 0 <= yy && (yy < y || (yy == y && xx < x + 1)) && 0 <= k
                        < 4 implies buf@[#[trigger] buf_index(size as int, xx, yy, k)]
                    == merged_byte(bms, ps, xx, yy, k) by {
                    if yy < y || (yy == y && xx < x) {
                        lemma_pixel_order(size as int, xx, yy, x as int, y as int);
                        assert(buf_index(size as int, xx, yy, k) < old_buf.len());
                        assert(old_buf[buf_index(size as int, xx, yy, k)] == merged_byte(
                            bms,
                            ps,
                            xx,
                            yy,
                            k,
                        ));
                    }
                }
            }
            x = x + 1;
        }
        proof {
            assert(4 * (y * size + size) == 4 * ((y + 1) * size)) by (nonlinear_arith);
        }
        y = y + 1;
    }
    proof {
        assert(4 * (y * size) == 4 * size * size) by (nonlinear_arith)
            requires
                y == size,
        ;
    }
    buf
}

} // verus!
