use gk4::mesh::{group_material, triangles, vertex_pair, vertex_triple, MeshGroups};

#[test]
fn submeshes_with_one_material_share_a_group() {
    let mut groups: MeshGroups<(f32, f32, f32)> = MeshGroups::new();
    let a = vec![(0.0, 0.0, 0.0), (1.0, 0.0, 0.0), (0.0, 1.0, 0.0)];
    let b = vec![(5.0, 5.0, 5.0), (6.0, 5.0, 5.0), (5.0, 6.0, 5.0), (6.0, 6.0, 5.0)];
    groups.add_submesh(Some(2), a, &vec![0, 1, 2]);
    assert_eq!(groups.vertex_count(Some(2)), 3);
    groups.add_submesh(Some(2), b, &vec![0, 1, 2, 1, 3, 2]);
    assert_eq!(groups.len(), 1);
    assert_eq!(groups.vertex_count(Some(2)), 7);
    let out = groups.into_groups();
    assert_eq!(out[0].material, Some(2));
    assert_eq!(out[0].vertices.len(), 7);
    assert_eq!(out[0].vertices[3], (5.0, 5.0, 5.0));
    assert_eq!(out[0].indices, vec![0, 1, 2, 3, 4, 5, 4, 6, 5]);
}

#[test]
fn groups_come_in_first_seen_order() {
    let mut groups: MeshGroups<u8> = MeshGroups::new();
    groups.add_submesh(Some(1), vec![10, 11], &vec![0, 1]);
    groups.add_submesh(None, vec![20], &vec![0]);
    groups.add_submesh(Some(0), vec![30, 31, 32], &vec![2, 1, 0]);
    groups.add_submesh(None, vec![21, 22], &vec![1, 0]);
    groups.add_submesh(Some(1), vec![12], &vec![0]);
    assert_eq!(groups.len(), 3);
    assert_eq!(groups.vertex_count(Some(7)), 0);
    let out = groups.into_groups();
    assert_eq!(out[0].material, Some(1));
    assert_eq!(out[0].vertices, vec![10, 11, 12]);
    assert_eq!(out[0].indices, vec![0, 1, 2]);
    assert_eq!(out[1].material, None);
    assert_eq!(out[1].vertices, vec![20, 21, 22]);
    assert_eq!(out[1].indices, vec![0, 2, 1]);
    assert_eq!(out[2].material, Some(0));
    assert_eq!(out[2].indices, vec![2, 1, 0]);
}

#[test]
fn merged_indices_stay_within_their_group() {
    let mut groups: MeshGroups<u32> = MeshGroups::new();
    for n in 1..6u32 {
        let verts: Vec<u32> = (0..n + 2).collect();
        let idx: Vec<u32> = (0..n + 2).rev().collect();
        groups.add_submesh(Some((n % 2) as usize), verts, &idx);
    }
    for g in groups.into_groups() {
        assert!(g.indices.iter().all(|&i| (i as usize) < g.vertices.len()));
    }
}

#[test]
fn empty_submesh_creates_empty_group() {
    let mut groups: MeshGroups<u8> = MeshGroups::new();
    groups.add_submesh(Some(3), Vec::new(), &Vec::new());
    assert_eq!(groups.len(), 1);
    let out = groups.into_groups();
    assert!(out[0].vertices.is_empty() && out[0].indices.is_empty());
}

#[test]
fn group_material_only_names_existing_materials() {
    assert_eq!(group_material(Some(2), 3), Some(2));
    assert_eq!(group_material(Some(3), 3), None);
    assert_eq!(group_material(None, 3), None);
}

#[test]
fn triangles_drop_trailing_partial_group() {
    assert_eq!(
        triangles(&vec![0, 1, 2, 2, 3, 0, 7, 8]),
        vec![(0, 1, 2), (2, 3, 0)]
    );
    assert!(triangles(&vec![4, 5]).is_empty());
}

#[test]
fn attributes_fall_back_when_missing() {
    let normals: Vec<f32> = Vec::new();
    assert_eq!(vertex_triple(&normals, 5, (0.0, 1.0, 0.0)), (0.0, 1.0, 0.0));
    let positions = vec![1.0f32, 2.0, 3.0, 4.0, 5.0, 6.0];
    assert_eq!(vertex_triple(&positions, 1, (0.0, 0.0, 0.0)), (4.0, 5.0, 6.0));
    let uv = vec![0.25f32, 0.5, 0.75, 1.0];
    assert_eq!(vertex_pair(&uv, 1, (0.0, 0.0)), (0.75, 1.0));
    let none: Vec<f32> = Vec::new();
    assert_eq!(vertex_pair(&none, 0, (0.0, 0.0)), (0.0, 0.0));
}

#[test]
fn merging_keeps_every_vertex_and_index() {
    let mut groups: MeshGroups<u16> = MeshGroups::new();
    let parts: Vec<(Option<usize>, usize, usize)> =
        vec![(Some(0), 4, 6), (Some(1), 3, 3), (Some(0), 5, 9), (None, 2, 0), (Some(1), 1, 3)];
    let mut verts_total = 0;
    let mut idx_total = 0;
    for (key, nv, ni) in parts {
        let verts: Vec<u16> = (0..nv as u16).collect();
        let idx: Vec<u32> = (0..ni as u32).map(|i| i % nv as u32).collect();
        verts_total += nv;
        idx_total += ni;
        groups.add_submesh(key, verts, &idx);
    }
    let out = groups.into_groups();
    assert_eq!(out.len(), 3);
    assert_eq!(out.iter().map(|g| g.vertices.len()).sum::<usize>(), verts_total);
    assert_eq!(out.iter().map(|g| g.indices.len()).sum::<usize>(), idx_total);
    // the third part went to group 0 after its first 4 vertices
    assert_eq!(out[0].indices[6..15], [4, 5, 6, 7, 8, 4, 5, 6, 7]);
}
