use inertia::mesh_grid::{
    fan_indices, grid_triangle_count, grid_triangle_indices, grid_vertex_count, line_strip_indices,
    wall_segment_indices, QuantumGridBuilder,
};

#[test]
fn grid_of_two_by_two() {
    assert_eq!(grid_triangle_indices(2, 2), vec![0, 2, 1, 1, 2, 3]);
}

#[test]
fn grid_of_three_by_two() {
    assert_eq!(
        grid_triangle_indices(3, 2),
        vec![0, 3, 1, 1, 3, 4, 1, 4, 2, 2, 4, 5]
    );
}

#[test]
fn degenerate_grids_have_no_triangles() {
    assert!(grid_triangle_indices(1, 1).is_empty());
    assert!(grid_triangle_indices(5, 1).is_empty());
    assert!(grid_triangle_indices(1, 5).is_empty());
    assert!(grid_triangle_indices(0, 1).is_empty());
}

#[test]
fn grid_counts_agree_with_indices() {
    for (w, h) in [(2u32, 2u32), (3, 4), (16, 9), (1, 7)] {
        let indices = grid_triangle_indices(w, h);
        assert_eq!(indices.len(), 3 * grid_triangle_count((w, h)));
        let vertices = grid_vertex_count((w, h));
        assert!(indices.iter().all(|&i| (i as usize) < vertices));
    }
    assert_eq!(grid_vertex_count((256, 256)), 65536);
    assert_eq!(grid_triangle_count((256, 256)), 255 * 255 * 2);
}

#[test]
fn wall_segment() {
    assert_eq!(
        wall_segment_indices(8),
        vec![8, 9, 10, 8, 10, 11, 12, 14, 13, 12, 15, 14]
    );
}

#[test]
fn fan() {
    assert_eq!(fan_indices(6), vec![0, 1, 2, 3, 4, 5, 6]);
    assert_eq!(fan_indices(0), vec![0]);
    assert_eq!(fan_indices(u16::MAX).len(), 65536);
}

#[test]
fn builder_size() {
    let builder = QuantumGridBuilder::new(256, 128);
    assert_eq!(builder.size(), (256, 128));
}

#[test]
fn line_strip() {
    assert_eq!(line_strip_indices(4), vec![0, 1, 2, 3]);
    assert!(line_strip_indices(0).is_empty());
    // The count wraps at 2^16 as a u16 cast does.
    assert_eq!(line_strip_indices(65536 + 2), vec![0, 1]);
    assert_eq!(line_strip_indices(65535).len(), 65535);
}
