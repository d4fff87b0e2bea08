use gk4::primitives::{cone_indices, cube_indices, plane_indices, sphere_indices, torus_indices};

#[test]
fn sphere_single_quad_uses_sphere_winding() {
    assert_eq!(sphere_indices(1, 1), vec![0, 1, 2, 1, 3, 2]);
}

#[test]
fn sphere_quads_follow_rows() {
    let idx = sphere_indices(2, 3);
    assert_eq!(idx.len(), 36);
    // quad (1, 2): first = 1 * 4 + 2 = 6, second = 10
    assert_eq!(&idx[30..36], &[6, 7, 10, 7, 11, 10]);
    assert!(idx.iter().all(|&i| i < 12));
}

#[test]
fn sphere_without_bands_has_no_triangles() {
    assert!(sphere_indices(0, 5).is_empty());
    assert!(sphere_indices(5, 0).is_empty());
}

#[test]
fn scene_sphere_indices_stay_below_vertex_count() {
    for &(stacks, sectors) in &[(40u32, 40u32), (48, 48), (12, 12)] {
        let idx = sphere_indices(stacks, sectors);
        let vertices = (stacks + 1) * (sectors + 1);
        assert_eq!(idx.len() as u32, 6 * stacks * sectors);
        assert_eq!(idx.iter().copied().max(), Some(vertices - 1));
    }
}

#[test]
fn torus_single_quad() {
    assert_eq!(torus_indices(1, 1), vec![0, 2, 1, 1, 2, 3]);
}

#[test]
fn scene_torus_indices() {
    let idx = torus_indices(48, 24);
    assert_eq!(idx.len(), 6 * 48 * 24);
    assert_eq!(idx.iter().copied().max(), Some(49 * 25 - 1));
    // quad (0, 1): first = 1, second = 26
    assert_eq!(&idx[6..12], &[1, 26, 2, 2, 26, 27]);
}

#[test]
fn plane_quads_are_tl_bl_tr_tr_bl_br() {
    let idx = plane_indices(2);
    assert_eq!(idx.len(), 24);
    assert_eq!(&idx[0..6], &[0, 3, 1, 1, 3, 4]);
    assert_eq!(&idx[6..12], &[1, 4, 2, 2, 4, 5]);
    assert_eq!(&idx[18..24], &[4, 7, 5, 5, 7, 8]);
}

#[test]
fn cone_with_three_segments() {
    assert_eq!(
        cone_indices(3),
        vec![0, 1, 2, 0, 2, 3, 0, 3, 4, 5, 2, 1, 5, 3, 2, 5, 4, 3]
    );
}

#[test]
fn marker_cone_indices_reference_its_vertices() {
    let idx = cone_indices(32);
    assert_eq!(idx.len(), 6 * 32);
    assert_eq!(idx.iter().copied().max(), Some(34));
    assert!(cone_indices(0).is_empty());
}

#[test]
fn cube_has_two_triangles_per_face() {
    let idx = cube_indices();
    assert_eq!(idx.len(), 36);
    assert_eq!(&idx[0..12], &[0, 1, 2, 0, 2, 3, 4, 5, 6, 4, 6, 7]);
    assert_eq!(&idx[30..36], &[20, 21, 22, 20, 22, 23]);
    assert_eq!(idx.iter().copied().max(), Some(23));
}
