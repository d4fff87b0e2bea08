//! Merging the sub-meshes of a loaded model into one draw call per material.
//!
//! A model file may hold hundreds of sub-meshes but only a few materials. Sub-meshes
//! that share a material are concatenated: their vertices are appended to the group's
//! vertex list and their indices are shifted by the number of vertices the group held
//! before, so that every index keeps naming the same vertex.
//!
//! The vertex type is generic: the merge never looks inside a vertex.
use vstd::prelude::*;

verus! {

/// The vertices and indices gathered for one material (`None`: no material).
pub struct MeshGroup<Vtx> {
    pub material: Option<usize>,
    pub vertices: Vec<Vtx>,
    pub indices: Vec<u32>,
}

/// What a group holds: its material key, its vertices and its indices.
pub type GroupView<Vtx> = (Option<usize>, Seq<Vtx>, Seq<u32>);

impl<Vtx> View for MeshGroup<Vtx> {
    type V = GroupView<Vtx>;

    open spec fn view(&self) -> GroupView<Vtx> {
        (self.material, self.vertices@, self.indices@)
    }
}

/// `idx` with every index raised by `base`.
pub open spec fn shifted(idx: Seq<u32>, base: int) -> Seq<u32> {
    Seq::new(idx.len(), |k: int| (idx[k] + base) as u32)
}

/// Every index of `idx` names one of `count` vertices.
pub open spec fn indices_within(idx: Seq<u32>, count: int) -> bool {
    forall|k: int| 0 <= k < idx.len() ==> #[trigger] idx[k] < count
}

/// No two groups share a material key.
pub open spec fn keys_distinct<Vtx>(gs: Seq<GroupView<Vtx>>) -> bool {
    forall|i: int, j: int|
        0 <= i < gs.len() && 0 <= j < gs.len() && i != j ==> #[trigger] gs[i].0 != #[trigger] gs[j].0
}

/// Some group has material key `m`.
pub open spec fn has_key<Vtx>(gs: Seq<GroupView<Vtx>>, m: Option<usize>) -> bool {
    exists|i: int| 0 <= i < gs.len() && #[trigger] gs[i].0 == m
}

/// Number of vertices the group with key `m` holds (0 when there is none).
pub open spec fn key_vertex_count<Vtx>(gs: Seq<GroupView<Vtx>>, m: Option<usize>) -> int {
    if has_key(gs, m) {
        gs[choose|i: int| 0 <= i < gs.len() && #[trigger] gs[i].0 == m].1.len() as int
    } else {
        0
    }
}

/// Every group's indices name vertices of that group.
pub open spec fn all_groups_valid<Vtx>(gs: Seq<GroupView<Vtx>>) -> bool {
    forall|i: int| 0 <= i < gs.len() ==> indices_within(#[trigger] gs[i].2, gs[i].1.len() as int)
}

/// Number of vertices over all groups.
pub open spec fn total_vertices<Vtx>(gs: Seq<GroupView<Vtx>>) -> int
    decreases gs.len(),
{
    if gs.len() == 0 {
        0
    } else {
        total_vertices(gs.drop_last()) + gs.last().1.len()
    }
}

/// Number of indices over all groups.
pub open spec fn total_indices<Vtx>(gs: Seq<GroupView<Vtx>>) -> int
    decreases gs.len(),
{
    if gs.len() == 0 {
        0
    } else {
        total_indices(gs.drop_last()) + gs.last().2.len()
    }
}

proof fn lemma_totals_update<Vtx>(gs: Seq<GroupView<Vtx>>, i: int, g: GroupView<Vtx>)
    requires
        0 <= i < gs.len(),
    ensures
        total_vertices(gs.update(i, g)) == total_vertices(gs) - gs[i].1.len() + g.1.len(),
        total_indices(gs.update(i, g)) == total_indices(gs) - gs[i].2.len() + g.2.len(),
    decreases gs.len(),
{
    let u = gs.update(i, g);
    if i == gs.len() - 1 {
        assert(u.drop_last() =~= gs.drop_last());
    } else {
        lemma_totals_update(gs.drop_last(), i, g);
        assert(u.drop_last() =~= gs.drop_last().update(i, g));
    }
}

proof fn lemma_totals_push<Vtx>(gs: Seq<GroupView<Vtx>>, g: GroupView<Vtx>)
    ensures
        total_vertices(gs.push(g)) == total_vertices(gs) + g.1.len(),
        total_indices(gs.push(g)) == total_indices(gs) + g.2.len(),
{
    assert(gs.push(g).drop_last() =~= gs);
}

/// Material groups in the order their keys were first seen.
pub struct MeshGroups<Vtx> {
    groups: Vec<MeshGroup<Vtx>>,
}

impl<Vtx> View for MeshGroups<Vtx> {
    type V = Seq<GroupView<Vtx>>;

    closed spec fn view(&self) -> Seq<GroupView<Vtx>> {
        self.groups@.map_values(|g: MeshGroup<Vtx>| g@)
    }
}

fn same_key(a: Option<usize>, b: Option<usize>) -> (r: bool)
    ensures
        r == (a == b),
{
    match (a, b) {
        (None, None) => true,
        (Some(x), Some(y)) => x == y,
        _ => false,
    }
}

impl<Vtx> MeshGroups<Vtx> {
    /// Well-formedness: one group per material key.
    pub open spec fn wf(&self) -> bool {
        keys_distinct(self@)
    }

    /// No groups yet.
    pub fn new() -> (groups: Self)
        ensures
            groups@ == Seq::<GroupView<Vtx>>::empty(),
            groups.wf(),
    {
        let groups = MeshGroups { groups: Vec::new() };
        assert(groups@ =~= Seq::<GroupView<Vtx>>::empty());
        groups
    }

    /// Number of groups (draw calls).
    pub fn len(&self) -> (n: usize)
        ensures
            n == self@.len(),
    {
        self.groups.len()
    }

    /// Position of the group with key `material`, if there is one.
    fn position(&self, material: Option<usize>) -> (pos: Option<usize>)
        requires
            self.wf(),
        ensures
            match pos {
                Some(p) => p < self@.len() && self@[p as int].0 == material,
                None => !has_key(self@, material),
            },
    {
        let mut p: usize = 0;
        while p < self.groups.len()
            invariant
                p <= self.groups@.len(),
                forall|q: int| 0 <= q < p ==> self@[q].0 != material,
            decreases self.groups@.len() - p,
        {
            if same_key(self.groups[p].material, material) {
                return Some(p);
            }
            p = p + 1;
        }
        None
    }

    /// Number of vertices gathered so far for `material` (0 for a key not seen yet).
    pub fn vertex_count(&self, material: Option<usize>) -> (n: usize)
        requires
            self.wf(),
        ensures
            n == key_vertex_count(self@, material),
    {
        match self.position(material) {
            Some(p) => {
                assert(self@[p as int].0 == material);
                self.groups[p].vertices.len()
            },
            None => 0,
        }
    }

    /// Merge one sub-mesh into the group of its material, creating the group at the end
    /// when the material has not been seen before.
    ///
    /// The sub-mesh's vertices are appended to the group's vertices, and its indices,
    /// raised by the number of vertices the group held before, to the group's indices.
    /// Every other group is left as it was.
    pub fn add_submesh(&mut self, material: Option<usize>, vertices: Vec<Vtx>, indices: &Vec<u32>)
        requires
            old(self).wf(),
            forall|k: int|
                0 <= k < indices@.len() ==> key_vertex_count(old(self)@, material)
                    + #[trigger] indices@[k] <= u32::MAX,
        ensures
            final(self).wf(),
            final(self)@.len() == old(self)@.len() + if has_key(old(self)@, material) {
                0int
            } else {
                1int
            },
            forall|i: int|
                0 <= i < old(self)@.len() ==> {
                    let g = #[trigger] old(self)@[i];
                    if g.0 == material {
                        final(self)@[i] == (g.0, g.1 + vertices@, g.2 + shifted(
                            indices@,
                            g.1.len() as int,
                        ))
                    } else {
                        final(self)@[i] == g
                    }
                },
            !has_key(old(self)@, material) ==> final(self)@[old(self)@.len() as int] == (
                material,
                vertices@,
                indices@,
            ),
            forall|i: int, k: int|
                0 <= i < old(self)@.len() && old(self)@[i].0 == material && 0 <= k
                    < indices@.len() ==> #[trigger] final(self)@[i].2[old(self)@[i].2.len() + k]
                    == indices@[k] + old(self)@[i].1.len(),
            all_groups_valid(old(self)@) && indices_within(indices@, vertices@.len() as int)
                ==> all_groups_valid(final(self)@),
            total_vertices(final(self)@) == total_vertices(old(self)@) + vertices@.len(),
            total_indices(final(self)@) == total_indices(old(self)@) + indices@.len(),
    {
        let ghost old_view = self@;
        let found = self.position(material);
        let pos: usize = match found {
            Some(p) => p,
            None => {
                self.groups.push(
                    MeshGroup { material: material, vertices: Vec::new(), indices: Vec::new() },
                );
                self.groups.len() - 1
            },
        };
        let ghost mid_view = self@;
        proof {
            if found is None {
                assert(mid_view =~= old_view.push((material, Seq::empty(), Seq::empty())));
            } else {
                assert(mid_view =~= old_view);
            }
            assert(mid_view[pos as int].0 == material);
            assert(key_vertex_count(old_view, material) == mid_view[pos as int].1.len());
        }
        let ghost mid_groups = self.groups@;
        let mut group = self.groups.remove(pos);
        proof {
            if indices@.len() > 0 {
                assert(key_vertex_count(old_view, material) + indices@[0] <= u32::MAX);
            }
        }
        let base: u32 = group.vertices.len() as u32;
        let mut extra = vertices;
        group.vertices.append(&mut extra);
        let ghost before_indices = group.indices@;
        let mut k: usize = 0;
        while k < indices.len()
            invariant
                k <= indices@.len(),
                indices@.len() > 0 ==> base == key_vertex_count(old_view, material),
                forall|j: int|
                    0 <= j < indices@.len() ==> key_vertex_count(old_view, material)
                        + #[trigger] indices@[j] <= u32::MAX,
                group.indices@ == before_indices + shifted(indices@, base as int).take(k as int),
                group.vertices@ == mid_view[pos as int].1 + vertices@,
                group.material == material,
                before_indices == mid_view[pos as int].2,
            decreases indices@.len() - k,
        {
            assert(base + indices@[k as int] <= u32::MAX);
            group.indices.push(base + indices[k]);
            assert(group.indices@ =~= before_indices + shifted(indices@, base as int).take(
                (k + 1) as int,
            ));
            k = k + 1;
        }
        assert(shifted(indices@, base as int).take(indices@.len() as int) =~= shifted(
            indices@,
            base as int,
        ));
        let ghost final_group = group;
        self.groups.insert(pos, group);
        proof {
            let fin = self@;
            let new_group = (material, mid_view[pos as int].1 + vertices@, mid_view[pos as int].2
                + shifted(indices@, base as int));
            assert(shifted(indices@, base as int) =~= shifted(
                indices@,
                mid_view[pos as int].1.len() as int,
            ));
            assert(mid_view[pos as int] == mid_groups[pos as int]@);
            assert(final_group@ == new_group);
            assert(self.groups@ =~= mid_groups.update(pos as int, final_group));
            assert(fin =~= mid_view.update(pos as int, new_group));
            lemma_totals_update(mid_view, pos as int, new_group);
            if found is None {
                lemma_totals_push(old_view, (material, Seq::<Vtx>::empty(), Seq::<u32>::empty()));
                assert(shifted(indices@, 0) =~= indices@);
                assert(mid_view[pos as int].1 + vertices@ =~= vertices@);
                assert(mid_view[pos as int].2 + indices@ =~= indices@);
            }
            assert forall|i: int, j: int|
                0 <= i < fin.len() && 0 <= j < fin.len() && i != j implies #[trigger] fin[i].0
                != #[trigger] fin[j].0 by {
                assert(fin[i].0 == mid_view[i].0);
                assert(fin[j].0 == mid_view[j].0);
            }
            if all_groups_valid(old_view) && indices_within(indices@, vertices@.len() as int) {
                assert forall|i: int| 0 <= i < fin.len() implies indices_within(
                    #[trigger] fin[i].2,
                    fin[i].1.len() as int,
                ) by {
                    if i == pos {
                        let g = mid_view[pos as int];
                        assert(indices_within(g.2, g.1.len() as int)) by {
                            if found is Some {
                                assert(g == old_view[i]);
                            }
                        }
                        assert forall|q: int| 0 <= q < fin[i].2.len() implies #[trigger] fin[i].2[q]
                            < fin[i].1.len() by {
                            if q < g.2.len() {
                                assert(fin[i].2[q] == g.2[q]);
                            } else {
                                assert(fin[i].2[q] == shifted(indices@, base as int)[q - g.2.len()]);
                                assert(indices@[q - g.2.len()] < vertices@.len());
                            }
                        }
                    } else {
                        assert(fin[i] == old_view[i]);
                    }
                }
            }
        }
    }

    /// Hand the groups over, in the order their materials were first seen.
    pub fn into_groups(self) -> (groups: Vec<MeshGroup<Vtx>>)
        ensures
            groups@.len() == self@.len(),
            forall|i: int| 0 <= i < groups@.len() ==> #[trigger] groups@[i]@ == self@[i],
    {
        self.groups
    }
}

/// Index of the material a merged group draws with: `Some(id)` when the group's key
/// names one of the `material_count` materials of the material file, `None` otherwise.
pub fn group_material(key: Option<usize>, material_count: usize) -> (slot: Option<usize>)
    ensures
        slot == match key {
            Some(id) => if id < material_count {
                Some(id)
            } else {
                None
            },
            None => None,
        },
{
    match key {
        Some(id) => if id < material_count {
            Some(id)
        } else {
            None
        },
        None => None,
    }
}

/// The complete triangles of a flat index list, in order: `(idx[3t], idx[3t+1], idx[3t+2])`.
/// A trailing group of fewer than three indices is left out.
pub fn triangles(indices: &Vec<u32>) -> (tris: Vec<(usize, usize, usize)>)
    ensures
        tris@.len() == indices@.len() / 3,
        forall|t: int|
            0 <= t < tris@.len() ==> #[trigger] tris@[t] == (
                indices@[3 * t] as usize,
                indices@[3 * t + 1] as usize,
                indices@[3 * t + 2] as usize,
            ),
{
    let mut tris: Vec<(usize, usize, usize)> = Vec::new();
    let mut i: usize = 0;
    while indices.len() - i >= 3
        invariant
            i == 3 * tris@.len(),
            i <= indices@.len(),
            forall|t: int|
                0 <= t < tris@.len() ==> #[trigger] tris@[t] == (
                    indices@[3 * t] as usize,
                    indices@[3 * t + 1] as usize,
                    indices@[3 * t + 2] as usize,
                ),
        decreases indices@.len() - i,
    {
        tris.push((indices[i] as usize, indices[i + 1] as usize, indices[i + 2] as usize));
        i = i + 3;
    }
    tris
}

/// Three consecutive entries of a per-vertex attribute array (`[x0, y0, z0, x1, ...]`)
/// for vertex `i`, or `fallback` when the model has no such attribute (an empty array).
pub fn vertex_triple<T: Copy>(data: &Vec<T>, i: usize, fallback: (T, T, T)) -> (v: (T, T, T))
    requires
        data@.len() == 0 || 3 * i + 2 < data@.len(),
    ensures
        v == if data@.len() == 0 {
            fallback
        } else {
            (data@[3 * i], data@[3 * i + 1], data@[3 * i + 2])
        },
{
    if data.len() == 0 {
        fallback
    } else {
        (data[3 * i], data[3 * i + 1], data[3 * i + 2])
    }
}

/// Two consecutive entries of a per-vertex attribute array (`[u0, v0, u1, ...]`)
/// for vertex `i`, or `fallback` when the model has no such attribute (an empty array).
pub fn vertex_pair<T: Copy>(data: &Vec<T>, i: usize, fallback: (T, T)) -> (v: (T, T))
    requires
        data@.len() == 0 || 2 * i + 1 < data@.len(),
    ensures
        v == if data@.len() == 0 {
            fallback
        } else {
            (data@[2 * i], data@[2 * i + 1])
        },
{
    if data.len() == 0 {
        fallback
    } else {
        (data[2 * i], data[2 * i + 1])
    }
}

} // verus!
