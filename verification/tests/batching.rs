//! Batching and the frame plan: partitioning by kind and detail, instance
//! contents, pass order, and the sprite pass's dependence on the atlas.

use wgpu_shapes::atlas::Bitmap;
use wgpu_shapes::renderer::ShapeRenderer;
use wgpu_shapes::shapes::BasicShape;

fn solid_bitmap(width: u32, height: u32, value: u8) -> Bitmap {
    Bitmap { width, height, pixels: vec![value; (4 * width * height) as usize] }
}

#[test]
fn one_rectangle_yields_one_batch_with_its_fields() {
    let mut sr = ShapeRenderer::new();
    {
        let r = sr.rect();
        r.pos(0f32.to_bits(), 0f32.to_bits());
        r.scale(20f32.to_bits(), 20f32.to_bits());
        r.color(1f32.to_bits(), 0f32.to_bits(), 0f32.to_bits(), 1f32.to_bits());
        r.layer(0);
    }
    let plan = sr.render();
    let pass = plan.rect_pass.as_ref().unwrap();
    assert_eq!(pass.instances.len(), 1);
    let inst = &pass.instances[0];
    assert_eq!((inst.pos_x, inst.pos_y), (0f32.to_bits(), 0f32.to_bits()));
    assert_eq!((inst.scale_x, inst.scale_y), (20f32.to_bits(), 20f32.to_bits()));
    assert_eq!(inst.color.r, 1f32.to_bits());
    assert_eq!(inst.color.g, 0f32.to_bits());
    assert_eq!(inst.color.b, 0f32.to_bits());
    assert_eq!(inst.color.a, 1f32.to_bits());
    assert_eq!(inst.layer, 0);
    assert!(plan.oval_passes.is_empty());
    assert!(plan.sprite_pass.is_none());
}

#[test]
fn ovals_with_distinct_detail_get_distinct_batches() {
    let mut sr = ShapeRenderer::new();
    sr.oval().segment_count(6);
    sr.oval().segment_count(16);
    let plan = sr.render();
    assert_eq!(plan.oval_passes.len(), 2);
    assert_eq!(plan.oval_passes[0].geometry.vertex_count, 6);
    assert_eq!(plan.oval_passes[0].instances.len(), 1);
    assert_eq!(plan.oval_passes[1].geometry.vertex_count, 16);
    assert_eq!(plan.oval_passes[1].instances.len(), 1);
}

#[test]
fn ovals_sharing_detail_share_one_batch() {
    let mut sr = ShapeRenderer::new();
    sr.oval().segment_count(6);
    sr.oval().segment_count(16);
    sr.oval().segment_count(6);
    let plan = sr.render();
    assert_eq!(plan.oval_passes.len(), 2);
    assert_eq!(plan.oval_passes[0].geometry.vertex_count, 6);
    assert_eq!(plan.oval_passes[0].instances.len(), 2);
    assert_eq!(plan.oval_passes[1].geometry.vertex_count, 16);
    assert_eq!(plan.oval_passes[1].instances.len(), 1);
    let total: usize = plan.oval_passes.iter().map(|p| p.instances.len()).sum();
    assert_eq!(total, 3);
}

#[test]
fn a_cleared_frame_issues_no_draw_passes() {
    let mut sr = ShapeRenderer::new();
    sr.rect();
    sr.oval();
    sr.clear();
    let plan = sr.render();
    assert!(plan.rect_pass.is_none());
    assert!(plan.oval_passes.is_empty());
    assert!(plan.sprite_pass.is_none());
}

#[test]
fn segment_counts_below_three_are_rejected() {
    let mut sr = ShapeRenderer::new();
    {
        let o = sr.oval();
        assert!(!o.segment_count(2));
        assert!(o.segment_count(3));
        assert!(!o.segment_count(0));
    }
    let plan = sr.render();
    assert_eq!(plan.oval_passes.len(), 1);
    assert_eq!(plan.oval_passes[0].geometry.vertex_count, 3);
}

#[test]
fn default_shape_fields() {
    let mut sr = ShapeRenderer::new();
    sr.rect();
    let plan = sr.render();
    let inst = &plan.rect_pass.as_ref().unwrap().instances[0];
    assert_eq!((inst.scale_x, inst.scale_y), (20f32.to_bits(), 20f32.to_bits()));
    assert_eq!((inst.pos_x, inst.pos_y), (0, 0));
    assert_eq!(inst.rotation, 0f32.to_bits());
    assert_eq!(inst.color.b, 1f32.to_bits());
    assert_eq!(inst.layer, 0);
}

#[test]
fn width_and_height_set_one_scale_axis_each() {
    let mut sr = ShapeRenderer::new();
    {
        let r = sr.rect();
        r.width(32f32.to_bits());
        r.height(8f32.to_bits());
    }
    let plan = sr.render();
    let inst = &plan.rect_pass.as_ref().unwrap().instances[0];
    assert_eq!((inst.scale_x, inst.scale_y), (32f32.to_bits(), 8f32.to_bits()));
}

#[test]
fn layer_is_forwarded_into_the_instance() {
    let mut sr = ShapeRenderer::new();
    sr.rect().layer(7);
    let plan = sr.render();
    assert_eq!(plan.rect_pass.as_ref().unwrap().instances[0].layer, 7);
}

#[test]
fn sprites_without_an_atlas_are_skipped() {
    let mut sr = ShapeRenderer::new();
    sr.image(0);
    let plan = sr.render();
    assert!(plan.sprite_pass.is_none());
}

#[test]
fn sprites_with_an_atlas_form_one_pass() {
    let mut sr = ShapeRenderer::new();
    sr.add_bitmap(solid_bitmap(10, 20, 1)).unwrap();
    sr.image(0).layer(3);
    let plan = sr.render();
    let pass = plan.sprite_pass.as_ref().unwrap();
    assert_eq!(pass.geometry.vertex_count, 4);
    assert_eq!(pass.instances.len(), 1);
    let inst = &pass.instances[0];
    assert_eq!(inst.layer, 3);
    assert_eq!((inst.uv.width, inst.uv.height), (10, 20));
    assert_eq!(inst.uv.bin, sr.texture_size);
}

#[test]
fn an_unknown_texture_index_falls_back_to_the_whole_texture() {
    let mut sr = ShapeRenderer::new();
    sr.add_bitmap(solid_bitmap(10, 20, 1)).unwrap();
    sr.image(5);
    let plan = sr.render();
    let inst = &plan.sprite_pass.as_ref().unwrap().instances[0];
    assert_eq!((inst.uv.x, inst.uv.y, inst.uv.width, inst.uv.height, inst.uv.bin), (0, 0, 1, 1, 1));
}

#[test]
fn clear_keeps_the_atlas() {
    let mut sr = ShapeRenderer::new();
    sr.add_bitmap(solid_bitmap(10, 20, 1)).unwrap();
    sr.image(0);
    sr.clear();
    sr.image(0);
    let plan = sr.render();
    let inst = &plan.sprite_pass.as_ref().unwrap().instances[0];
    assert_eq!((inst.uv.width, inst.uv.height), (10, 20));
}

#[test]
fn color_from_color_sets_all_channels() {
    let mut sr = ShapeRenderer::new();
    sr.oval().color_from_color(wgpu_shapes::shapes::Color {
        r: 0.25f32.to_bits(),
        g: 0.5f32.to_bits(),
        b: 0.75f32.to_bits(),
        a: 1f32.to_bits(),
    });
    let plan = sr.render();
    let inst = &plan.oval_passes[0].instances[0];
    assert_eq!(inst.color.r, 0.25f32.to_bits());
    assert_eq!(inst.color.g, 0.5f32.to_bits());
    assert_eq!(inst.color.b, 0.75f32.to_bits());
    assert_eq!(inst.color.a, 1f32.to_bits());
}

#[test]
fn background_color_reaches_the_plan() {
    let mut sr = ShapeRenderer::new();
    let plan = sr.render();
    assert_eq!(plan.background, wgpu_shapes::shapes::Color::white());
    sr.background_color(wgpu_shapes::shapes::Color::blue());
    let plan = sr.render();
    assert_eq!(plan.background, wgpu_shapes::shapes::Color::blue());
}

#[test]
fn frame_parameters_are_forwarded() {
    let mut sr = ShapeRenderer::new();
    assert_eq!(sr.frame_size(), (800f32.to_bits(), 600f32.to_bits()));
    sr.set_frame_size(1024f32.to_bits(), 768f32.to_bits());
    sr.set_frame_offset(5f32.to_bits(), 6f32.to_bits());
    let plan = sr.render();
    assert_eq!((plan.frame_width, plan.frame_height), (1024f32.to_bits(), 768f32.to_bits()));
    assert_eq!((plan.frame_offset_x, plan.frame_offset_y), (5f32.to_bits(), 6f32.to_bits()));
    assert_eq!(sr.frame_offset(), (5f32.to_bits(), 6f32.to_bits()));
}
