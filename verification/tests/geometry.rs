//! Base geometry: the unit quad and polygon approximations of the circle.

use wgpu_shapes::geometry::{polygon, quad, GeometryCache};

#[test]
fn quad_has_four_vertices_and_two_triangles() {
    let g = quad();
    assert_eq!(g.vertex_count, 4);
    assert_eq!(g.indices, vec![0, 1, 2, 0, 2, 3]);
}

#[test]
fn polygon_three_is_one_triangle() {
    let g = polygon(3);
    assert_eq!(g.vertex_count, 3);
    assert_eq!(g.indices, vec![0, 1, 2]);
}

#[test]
fn polygon_five_is_a_fan_of_three_triangles() {
    let g = polygon(5);
    assert_eq!(g.vertex_count, 5);
    assert_eq!(g.indices, vec![0, 1, 2, 0, 2, 3, 0, 3, 4]);
}

#[test]
fn cached_geometry_matches_a_fresh_build() {
    let mut cache = GeometryCache::new();
    let fresh = polygon(7);
    {
        let first = cache.polygon(7);
        assert_eq!(first.vertex_count, fresh.vertex_count);
        assert_eq!(first.indices, fresh.indices);
    }
    let again = cache.polygon(7);
    assert_eq!(again.vertex_count, fresh.vertex_count);
    assert_eq!(again.indices, fresh.indices);
    assert_eq!(cache.entries.len(), 1);
}

#[test]
fn polygon_counts_match_detail() {
    for detail in [3u32, 4, 6, 16, 128, 1000] {
        let g = polygon(detail);
        assert_eq!(g.vertex_count, detail);
        assert_eq!(g.indices.len() as u32, 3 * (detail - 2));
        assert!(g.indices.iter().all(|&i| i < detail));
    }
}
