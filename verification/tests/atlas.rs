//! Atlas packing: placements, bin growth, the merged pixel buffer, and
//! texture ingestion from encoded bytes.

use wgpu_shapes::atlas::{Bitmap, TextureError, ATLAS_START_SIZE};
use wgpu_shapes::renderer::ShapeRenderer;

fn solid_bitmap(width: u32, height: u32, value: u8) -> Bitmap {
    Bitmap { width, height, pixels: vec![value; (4 * width * height) as usize] }
}

fn overlap(a: &wgpu_shapes::instance::UvRect, b: &wgpu_shapes::instance::UvRect) -> bool {
    !(a.x + a.width <= b.x || b.x + b.width <= a.x || a.y + a.height <= b.y
        || b.y + b.height <= a.y)
}

#[test]
fn two_small_bitmaps_pack_into_the_first_bin() {
    let mut sr = ShapeRenderer::new();
    let r = sr.add_bitmaps(vec![solid_bitmap(200, 200, 10), solid_bitmap(300, 300, 20)]);
    assert!(r.is_ok());
    assert_eq!(sr.texture_size, 512);
    assert_eq!(sr.textures_cords.len(), 2);
    for c in &sr.textures_cords {
        assert_eq!(c.bin, 512);
        assert!(c.x + c.width <= 512 && c.y + c.height <= 512);
    }
    assert_eq!((sr.textures_cords[0].width, sr.textures_cords[0].height), (200, 200));
    assert_eq!((sr.textures_cords[1].width, sr.textures_cords[1].height), (300, 300));
    assert!(!overlap(&sr.textures_cords[0], &sr.textures_cords[1]));
}

#[test]
fn two_bitmaps_of_the_named_size_need_one_doubling_each_way() {
    // Two 300x300 bitmaps fit no 512 bin: any two placements inside it put
    // their corners within 212 pixels of each other, closer than the 300 a
    // separation needs, so the bin doubles once.
    let mut sr = ShapeRenderer::new();
    let r = sr.add_bitmaps(vec![solid_bitmap(300, 300, 10), solid_bitmap(300, 300, 20)]);
    assert!(r.is_ok());
    assert_eq!(sr.texture_size, 1024);
    assert!(!overlap(&sr.textures_cords[0], &sr.textures_cords[1]));
}

#[test]
fn oversized_bitmaps_grow_the_bin_by_doubling() {
    let mut sr = ShapeRenderer::new();
    let r = sr.add_bitmaps(vec![solid_bitmap(600, 600, 1), solid_bitmap(600, 600, 2)]);
    assert!(r.is_ok());
    // A single 600x600 bitmap already needs more than the 512 starting bin,
    // and two of them cannot share a 1024 bin without overlapping, so the
    // first bin side that holds both is 2048.
    assert_eq!(sr.texture_size, 2048);
    for c in &sr.textures_cords {
        assert!(c.x + c.width <= 2048 && c.y + c.height <= 2048);
        assert_eq!((c.width, c.height), (600, 600));
    }
    assert!(!overlap(&sr.textures_cords[0], &sr.textures_cords[1]));
}

#[test]
fn one_bitmap_larger_than_the_bin_repacks_larger() {
    let mut sr = ShapeRenderer::new();
    let r = sr.add_bitmap(solid_bitmap(600, 600, 7));
    assert!(r.is_ok());
    assert_eq!(sr.texture_size, 1024);
    assert_eq!(sr.textures_cords.len(), 1);
}

#[test]
fn packing_is_deterministic_from_a_cold_state() {
    let mut first = ShapeRenderer::new();
    let mut second = ShapeRenderer::new();
    let bitmaps = || {
        vec![
            solid_bitmap(300, 300, 1),
            solid_bitmap(100, 250, 2),
            solid_bitmap(17, 333, 3),
            solid_bitmap(128, 128, 4),
        ]
    };
    assert!(first.add_bitmaps(bitmaps()).is_ok());
    assert!(second.add_bitmaps(bitmaps()).is_ok());
    assert_eq!(first.texture_size, second.texture_size);
    assert_eq!(first.textures_cords, second.textures_cords);
    let a1 = first.atlas.as_ref().unwrap();
    let a2 = second.atlas.as_ref().unwrap();
    assert_eq!(a1.size, a2.size);
    assert_eq!(a1.pixels, a2.pixels);
}

#[test]
fn merged_buffer_holds_each_bitmap_at_its_placement() {
    let mut sr = ShapeRenderer::new();
    let mut quilt = solid_bitmap(2, 2, 0);
    quilt.pixels = (0u8..16).collect();
    let stripe = solid_bitmap(3, 1, 9);
    let r = sr.add_bitmaps(vec![quilt.clone(), stripe.clone()]);
    assert!(r.is_ok());
    let atlas = sr.atlas.as_ref().unwrap();
    let size = atlas.size as usize;
    for (t, bitmap) in [&quilt, &stripe].iter().enumerate() {
        let c = &sr.textures_cords[t];
        for row in 0..bitmap.height as usize {
            for col in 0..bitmap.width as usize {
                for k in 0..4 {
                    let dst = 4 * ((c.y as usize + row) * size + c.x as usize + col) + k;
                    let src = 4 * (row * bitmap.width as usize + col) + k;
                    assert_eq!(atlas.pixels[dst], bitmap.pixels[src]);
                }
            }
        }
    }
}

#[test]
fn uncovered_atlas_pixels_are_zero() {
    let mut sr = ShapeRenderer::new();
    assert!(sr.add_bitmap(solid_bitmap(4, 4, 255)).is_ok());
    let atlas = sr.atlas.as_ref().unwrap();
    let c = &sr.textures_cords[0];
    let size = atlas.size as usize;
    for y in 0..size {
        for x in 0..size {
            let covered = (c.x as usize..(c.x + c.width) as usize).contains(&x)
                && (c.y as usize..(c.y + c.height) as usize).contains(&y);
            if !covered {
                for k in 0..4 {
                    assert_eq!(atlas.pixels[4 * (y * size + x) + k], 0);
                }
            }
        }
    }
}

#[test]
fn bitmap_too_large_for_any_bin_is_a_hard_failure() {
    let mut sr = ShapeRenderer::new();
    let r = sr.add_bitmap(solid_bitmap(20000, 1, 0));
    assert_eq!(r, Err(TextureError::AtlasOverflow));
    assert_eq!(sr.texture_size, ATLAS_START_SIZE);
    assert!(sr.textures.is_empty());
    assert!(sr.atlas.is_none());
}

#[test]
fn an_exhausted_repack_keeps_the_packed_atlas() {
    let mut sr = ShapeRenderer::new();
    assert!(sr.add_bitmap(solid_bitmap(8, 8, 5)).is_ok());
    let cords_before = sr.textures_cords.clone();
    let pixels_before = sr.atlas.as_ref().unwrap().pixels.clone();
    let r = sr.add_bitmap(solid_bitmap(20000, 1, 0));
    assert_eq!(r, Err(TextureError::AtlasOverflow));
    assert_eq!(sr.textures.len(), 1);
    assert_eq!(sr.textures_cords, cords_before);
    assert_eq!(sr.atlas.as_ref().unwrap().pixels, pixels_before);
}

#[test]
fn zero_bitmaps_leave_the_atlas_empty() {
    let mut sr = ShapeRenderer::new();
    assert!(sr.add_bitmaps(vec![]).is_ok());
    assert!(sr.atlas.is_none());
    assert!(sr.textures_cords.is_empty());
}

#[test]
fn undecodable_bytes_are_a_decode_failure_and_change_nothing() {
    let mut sr = ShapeRenderer::new();
    assert!(sr.add_bitmap(solid_bitmap(8, 8, 3)).is_ok());
    let cords_before = sr.textures_cords.clone();
    let r = sr.add_texture_from_bytes(&[1, 2, 3, 4, 5]);
    assert_eq!(r, Err(TextureError::Decode));
    assert_eq!(sr.textures.len(), 1);
    assert_eq!(sr.textures_cords, cords_before);
}

fn png_of(width: u32, height: u32, raw: Vec<u8>) -> Vec<u8> {
    let img = image::RgbaImage::from_raw(width, height, raw).unwrap();
    let mut bytes: Vec<u8> = Vec::new();
    image::DynamicImage::ImageRgba8(img)
        .write_to(&mut std::io::Cursor::new(&mut bytes), image::ImageOutputFormat::Png)
        .unwrap();
    bytes
}

#[test]
fn several_pngs_are_added_in_one_repack() {
    let mut sr = ShapeRenderer::new();
    let list = vec![png_of(2, 2, (0u8..16).collect()), png_of(1, 3, vec![7; 12])];
    assert!(sr.add_textures_from_bytes(&list).is_ok());
    assert_eq!(sr.textures.len(), 2);
    assert_eq!((sr.textures[0].width, sr.textures[0].height), (2, 2));
    assert_eq!((sr.textures[1].width, sr.textures[1].height), (1, 3));
    assert_eq!(sr.textures_cords.len(), 2);
    assert!(sr.atlas.is_some());
}

#[test]
fn one_bad_byte_string_fails_the_whole_ingestion() {
    let mut sr = ShapeRenderer::new();
    let list = vec![png_of(2, 2, (0u8..16).collect()), vec![9, 9, 9]];
    assert_eq!(sr.add_textures_from_bytes(&list), Err(TextureError::Decode));
    assert!(sr.textures.is_empty());
    assert!(sr.atlas.is_none());
}

#[test]
fn png_bytes_decode_into_the_atlas() {
    let raw: Vec<u8> = (0u8..16).collect();
    let bytes = png_of(2, 2, raw.clone());
    let mut sr = ShapeRenderer::new();
    assert!(sr.add_texture_from_bytes(&bytes).is_ok());
    assert_eq!(sr.textures.len(), 1);
    assert_eq!((sr.textures[0].width, sr.textures[0].height), (2, 2));
    assert_eq!(sr.textures[0].pixels, raw);
    assert!(sr.atlas.is_some());
}
