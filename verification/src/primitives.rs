//! Triangle index lists of the procedural meshes (sphere, torus, plane, cone, cube).
//!
//! The vertices of the grid-shaped meshes are laid out row by row: vertex `(i, j)`
//! (row `i` in `0..=rows`, column `j` in `0..=cols`) sits at position
//! `i * (cols + 1) + j`. Every quad `(i, j)` of the grid becomes two triangles.
use vstd::prelude::*;

verus! {

/// `v` holds exactly the values of `s`, in order.
pub open spec fn same_values(v: Seq<u32>, s: Seq<int>) -> bool {
    &&& v.len() == s.len()
    &&& forall|k: int| 0 <= k < v.len() ==> v[k] == s[k]
}

/// Every value of `s` names one of the first `n` vertices.
pub open spec fn all_below(s: Seq<int>, n: int) -> bool {
    forall|k: int| 0 <= k < s.len() ==> 0 <= #[trigger] s[k] < n
}

/// Number of vertices of a `rows` x `cols` grid of quads.
pub open spec fn grid_vertex_count(rows: int, cols: int) -> int {
    (rows + 1) * (cols + 1)
}

/// The two triangles of quad `(i, j)`.
///
/// `first` is the quad's corner in row `i`, `second` the corner below it in row `i + 1`.
/// With `sphere_winding` the triangles are `(first, first+1, second)` and
/// `(first+1, second+1, second)`, the order the sphere needs because its vertices swap
/// the Y and Z axes; otherwise `(first, second, first+1)` and `(first+1, second, second+1)`.
pub open spec fn grid_quad(cols: int, i: int, j: int, sphere_winding: bool) -> Seq<int> {
    let first = i * (cols + 1) + j;
    let second = first + cols + 1;
    if sphere_winding {
        seq![first, first + 1, second, first + 1, second + 1, second]
    } else {
        seq![first, second, first + 1, first + 1, second, second + 1]
    }
}

/// The quads `(i, 0), ..., (i, j - 1)` of row `i`, in order.
pub open spec fn grid_row(cols: int, i: int, j: nat, sphere_winding: bool) -> Seq<int>
    decreases j,
{
    if j == 0 {
        seq![]
    } else {
        grid_row(cols, i, (j - 1) as nat, sphere_winding) + grid_quad(
            cols,
            i,
            j - 1,
            sphere_winding,
        )
    }
}

/// All quads of the first `rows` rows of a grid with `cols` columns, row by row.
pub open spec fn grid_rows(rows: nat, cols: nat, sphere_winding: bool) -> Seq<int>
    decreases rows,
{
    if rows == 0 {
        seq![]
    } else {
        grid_rows((rows - 1) as nat, cols, sphere_winding) + grid_row(
            cols as int,
            rows - 1,
            cols,
            sphere_winding,
        )
    }
}

proof fn lemma_grid_row(cols: nat, i: nat, j: nat, w: bool)
    requires
        j <= cols,
    ensures
        grid_row(cols as int, i as int, j, w).len() == 6 * j,
        all_below(grid_row(cols as int, i as int, j, w), ((i + 2) * (cols + 1)) as int),
        forall|k: int|
            0 <= k < grid_row(cols as int, i as int, j, w).len() ==> i * (cols + 1) <= #[trigger] grid_row(
                cols as int,
                i as int,
                j,
                w,
            )[k],
    decreases j,
{
    if j > 0 {
        lemma_grid_row(cols, i, (j - 1) as nat, w);
        let prev = grid_row(cols as int, i as int, (j - 1) as nat, w);
        let q = grid_quad(cols as int, i as int, j - 1, w);
        let row = grid_row(cols as int, i as int, j, w);
        assert(row == prev + q);
        assert((i + 2) * (cols + 1) == i * (cols + 1) + 2 * cols + 2) by (nonlinear_arith);
        assert forall|k: int| 0 <= k < row.len() implies 0 <= #[trigger] row[k] < (i + 2) * (cols
            + 1) && i * (cols + 1) <= row[k] by {
            if k < prev.len() {
                assert(row[k] == prev[k]);
            } else {
                assert(row[k] == q[k - prev.len()]);
            }
        }
    }
}

/// Length and range of the index list of a grid mesh.
pub proof fn lemma_grid_rows(rows: nat, cols: nat, w: bool)
    ensures
        grid_rows(rows, cols, w).len() == 6 * rows * cols,
        all_below(grid_rows(rows, cols, w), grid_vertex_count(rows as int, cols as int)),
    decreases rows,
{
    if rows > 0 {
        let r = (rows - 1) as nat;
        lemma_grid_rows(r, cols, w);
        lemma_grid_row(cols, r, cols, w);
        let prev = grid_rows(r, cols, w);
        let row = grid_row(cols as int, r as int, cols, w);
        let all = grid_rows(rows, cols, w);
        assert(all == prev + row);
        assert(6 * rows * cols == 6 * r * cols + 6 * cols) by (nonlinear_arith)
            requires
                r + 1 == rows,
        ;
        assert(grid_vertex_count(rows as int, cols as int) == (r + 2) * (cols + 1)) by (
        nonlinear_arith)
            requires
                r + 1 == rows,
        ;
        assert(grid_vertex_count(r as int, cols as int) <= grid_vertex_count(rows as int, cols as int))
            by (nonlinear_arith)
            requires
                r + 1 == rows,
        ;
        assert forall|k: int| 0 <= k < all.len() implies 0 <= #[trigger] all[k]
            < grid_vertex_count(rows as int, cols as int) by {
            if k < prev.len() {
                assert(all[k] == prev[k]);
            } else {
                assert(all[k] == row[k - prev.len()]);
            }
        }
    } else {
        assert(6 * rows * cols == 0) by (nonlinear_arith)
            requires
                rows == 0,
        ;
    }
}

proof fn lemma_grid_row_prefix(cols: nat, i: nat, j1: nat, j2: nat, w: bool)
    requires
        j1 <= j2 <= cols,
    ensures
        grid_row(cols as int, i as int, j1, w).len() <= grid_row(cols as int, i as int, j2, w).len(),
        grid_row(cols as int, i as int, j2, w).subrange(
            0,
            grid_row(cols as int, i as int, j1, w).len() as int,
        ) == grid_row(cols as int, i as int, j1, w),
    decreases j2,
{
    lemma_grid_row(cols, i, j1, w);
    lemma_grid_row(cols, i, j2, w);
    if j1 < j2 {
        lemma_grid_row_prefix(cols, i, j1, (j2 - 1) as nat, w);
        let a = grid_row(cols as int, i as int, j1, w);
        let b = grid_row(cols as int, i as int, (j2 - 1) as nat, w);
        let c = grid_row(cols as int, i as int, j2, w);
        assert(c == b + grid_quad(cols as int, i as int, j2 - 1, w));
        assert(c.subrange(0, a.len() as int) =~= b.subrange(0, a.len() as int));
    } else {
        let c = grid_row(cols as int, i as int, j2, w);
        assert(c.subrange(0, c.len() as int) =~= c);
    }
}

proof fn lemma_grid_rows_prefix(r1: nat, r2: nat, cols: nat, w: bool)
    requires
        r1 <= r2,
    ensures
        grid_rows(r1, cols, w).len() <= grid_rows(r2, cols, w).len(),
        grid_rows(r2, cols, w).subrange(0, grid_rows(r1, cols, w).len() as int) == grid_rows(
            r1,
            cols,
            w,
        ),
    decreases r2,
{
    if r1 < r2 {
        lemma_grid_rows_prefix(r1, (r2 - 1) as nat, cols, w);
        let a = grid_rows(r1, cols, w);
        let b = grid_rows((r2 - 1) as nat, cols, w);
        let c = grid_rows(r2, cols, w);
        assert(c == b + grid_row(cols as int, r2 - 1, cols, w));
        assert(c.subrange(0, a.len() as int) =~= b.subrange(0, a.len() as int));
    } else {
        let c = grid_rows(r2, cols, w);
        assert(c.subrange(0, c.len() as int) =~= c);
    }
}

/// Quad `(i, j)` of the grid occupies indices `6 * (i * cols + j)` to `6 * (i * cols + j) + 5`.
pub proof fn lemma_grid_quad_position(rows: nat, cols: nat, w: bool, i: nat, j: nat)
    requires
        i < rows,
        j < cols,
    ensures
        6 * (i * cols + j) + 6 <= grid_rows(rows, cols, w).len(),
        grid_rows(rows, cols, w).subrange(6 * (i * cols + j) as int, 6 * (i * cols + j) + 6int)
            == grid_quad(cols as int, i as int, j as int, w),
{
    lemma_grid_rows(i, cols, w);
    lemma_grid_rows(rows, cols, w);
    lemma_grid_rows_prefix((i + 1) as nat, rows, cols, w);
    lemma_grid_row_prefix(cols, i, (j + 1) as nat, cols, w);
    lemma_grid_row(cols, i, j, w);
    lemma_grid_row(cols, i, cols, w);
    let before = grid_rows(i, cols, w);
    let row = grid_row(cols as int, i as int, cols, w);
    let upto = grid_rows((i + 1) as nat, cols, w);
    let all = grid_rows(rows, cols, w);
    let row_prefix = grid_row(cols as int, i as int, (j + 1) as nat, w);
    let q = grid_quad(cols as int, i as int, j as int, w);
    assert(upto == before + row);
    assert(row_prefix == grid_row(cols as int, i as int, j, w) + q);
    assert(6 * i * cols == 6 * (i * cols)) by (nonlinear_arith);
    let start: int = 6 * (i * cols + j) as int;
    assert(start == before.len() + 6 * j);
    assert(6 * (i + 1) * cols <= 6 * rows * cols) by (nonlinear_arith)
        requires
            i < rows,
    ;
    assert(6 * (i + 1) * cols == 6 * i * cols + 6 * cols) by (nonlinear_arith);
    assert(start + 6 <= all.len());
    assert(q.len() == 6);
    assert forall|k: int| 0 <= k < 6 implies #[trigger] all[start + k] == q[k] by {
        assert(all[start + k] == upto[start + k]);
        assert(upto[start + k] == row[6 * j + k]);
        assert(row[6 * j + k] == row_prefix[6 * j + k]);
    }
    assert forall|k: int| 0 <= k < 6 implies #[trigger] all.subrange(start, start + 6)[k] == q[k] by {
        assert(all.subrange(start, start + 6)[k] == all[start + k]);
    }
    assert(all.subrange(start, start + 6) =~= q);
}

/// Quad `(i, j)` of an index list of a grid sits at `6 * (i * cols + j)`.
pub open spec fn quads_in_place(v: Seq<u32>, rows: int, cols: int, w: bool) -> bool {
    forall|i: int, j: int|
        0 <= i < rows && 0 <= j < cols ==> same_values(
            v.subrange(6 * (i * cols + j), 6 * (i * cols + j) + 6),
            #[trigger] grid_quad(cols, i, j, w),
        )
}

proof fn lemma_quads_in_place(v: Seq<u32>, rows: nat, cols: nat, w: bool)
    requires
        same_values(v, grid_rows(rows, cols, w)),
    ensures
        quads_in_place(v, rows as int, cols as int, w),
{
    assert forall|i: int, j: int| 0 <= i < rows && 0 <= j < cols implies same_values(
        v.subrange(6 * (i * cols + j), 6 * (i * cols + j) + 6),
        #[trigger] grid_quad(cols as int, i, j, w),
    ) by {
        lemma_grid_quad_position(rows, cols, w, i as nat, j as nat);
        let start = 6 * (i * cols + j);
        let all = grid_rows(rows, cols, w);
        assert forall|k: int| 0 <= k < 6 implies #[trigger] v.subrange(start, start + 6)[k]
            == grid_quad(cols as int, i, j, w)[k] by {
            assert(v.subrange(start, start + 6)[k] == v[start + k]);
            assert(all.subrange(start, start + 6)[k] == all[start + k]);
        }
    }
}

/// The UV sphere draws every quad `(i, j)` as the triangles `(first, first+1, second)` and
/// `(first+1, second+1, second)`, where `first = i * (sectors + 1) + j` and
/// `second = first + sectors + 1`: one winding for all quads, whatever their row or column.
pub proof fn lemma_sphere_winding(stacks: nat, sectors: nat, i: int, j: int)
    requires
        0 <= i < stacks,
        0 <= j < sectors,
    ensures
        ({
            let v = grid_rows(stacks, sectors, true);
            let f = i * (sectors + 1) + j;
            let s = f + sectors + 1;
            let b = 6 * (i * sectors + j);
            &&& b + 6 <= v.len()
            &&& v[b] == f && v[b + 1] == f + 1 && v[b + 2] == s
            &&& v[b + 3] == f + 1 && v[b + 4] == s + 1 && v[b + 5] == s
        }),
{
    lemma_grid_quad_position(stacks, sectors, true, i as nat, j as nat);
    let v = grid_rows(stacks, sectors, true);
    let b = 6 * (i * sectors + j);
    assert forall|r: int| 0 <= r < 6 implies v[b + r] == grid_quad(sectors as int, i, j, true)[r] by {
        assert(v.subrange(b, b + 6)[r] == v[b + r]);
    }
}

/// The torus and the plane draw every quad `(i, j)` as the triangles `(first, second, first+1)`
/// and `(first+1, second, second+1)`, where `first = i * (cols + 1) + j` and
/// `second = first + cols + 1`, for all quads alike.
pub proof fn lemma_strip_winding(rows: nat, cols: nat, i: int, j: int)
    requires
        0 <= i < rows,
        0 <= j < cols,
    ensures
        ({
            let v = grid_rows(rows, cols, false);
            let f = i * (cols + 1) + j;
            let s = f + cols + 1;
            let b = 6 * (i * cols + j);
            &&& b + 6 <= v.len()
            &&& v[b] == f && v[b + 1] == s && v[b + 2] == f + 1
            &&& v[b + 3] == f + 1 && v[b + 4] == s && v[b + 5] == s + 1
        }),
{
    lemma_grid_quad_position(rows, cols, false, i as nat, j as nat);
    let v = grid_rows(rows, cols, false);
    let b = 6 * (i * cols + j);
    assert forall|r: int| 0 <= r < 6 implies v[b + r] == grid_quad(cols as int, i, j, false)[r] by {
        assert(v.subrange(b, b + 6)[r] == v[b + r]);
    }
}

/// Index list of a `rows` x `cols` grid of quads.
fn grid_indices(rows: u32, cols: u32, sphere_winding: bool) -> (indices: Vec<u32>)
    requires
        grid_vertex_count(rows as int, cols as int) <= u32::MAX + 1,
    ensures
        same_values(indices@, grid_rows(rows as nat, cols as nat, sphere_winding)),
{
    let mut indices: Vec<u32> = Vec::new();
    let mut i: u32 = 0;
    while i < rows
        invariant
            i <= rows,
            grid_vertex_count(rows as int, cols as int) <= u32::MAX + 1,
            same_values(indices@, grid_rows(i as nat, cols as nat, sphere_winding)),
        decreases rows - i,
    {
        let ghost done = grid_rows(i as nat, cols as nat, sphere_winding);
        let mut j: u32 = 0;
        while j < cols
            invariant
                i < rows,
                j <= cols,
                grid_vertex_count(rows as int, cols as int) <= u32::MAX + 1,
                done == grid_rows(i as nat, cols as nat, sphere_winding),
                same_values(
                    indices@,
                    done + grid_row(cols as int, i as int, j as nat, sphere_winding),
                ),
            decreases cols - j,
        {
            proof {
                assert((i + 2) * (cols + 1) <= (rows + 1) * (cols + 1)) by (nonlinear_arith)
                    requires
                        i < rows,
                ;
                assert((i + 2) * (cols + 1) == i * (cols + 1) + 2 * cols + 2) by (nonlinear_arith);
            }
            let first = i * (cols + 1) + j;
            let second = first + cols + 1;
            let ghost before = indices@;
            let ghost row = grid_row(cols as int, i as int, j as nat, sphere_winding);
            let ghost quad = grid_quad(cols as int, i as int, j as int, sphere_winding);
            if sphere_winding {
                indices.push(first);
                indices.push(first + 1);
                indices.push(second);
                indices.push(first + 1);
                indices.push(second + 1);
                indices.push(second);
            } else {
                indices.push(first);
                indices.push(second);
                indices.push(first + 1);
                indices.push(first + 1);
                indices.push(second);
                indices.push(second + 1);
            }
            proof {
                let next_row = grid_row(cols as int, i as int, (j + 1) as nat, sphere_winding);
                assert(next_row == row + quad);
                let target = done + next_row;
                assert(target =~= (done + row) + quad);
                assert forall|k: int| 0 <= k < indices@.len() implies indices@[k] == target[k] by {
                    if k < before.len() {
                        assert(indices@[k] == before[k]);
                    } else {
                        assert(target[k] == quad[k - before.len()]);
                    }
                }
            }
            j = j + 1;
        }
        proof {
            assert(grid_rows((i + 1) as nat, cols as nat, sphere_winding) == done + grid_row(
                cols as int,
                i as int,
                cols as nat,
                sphere_winding,
            ));
        }
        i = i + 1;
    }
    indices
}

/// Index list of a UV sphere with `stacks` latitude bands and `sectors` longitude bands.
///
/// The sphere has `(stacks + 1) * (sectors + 1)` vertices; every index names one of them.
pub fn sphere_indices(stacks: u32, sectors: u32) -> (indices: Vec<u32>)
    requires
        grid_vertex_count(stacks as int, sectors as int) <= u32::MAX + 1,
    ensures
        same_values(indices@, grid_rows(stacks as nat, sectors as nat, true)),
        quads_in_place(indices@, stacks as int, sectors as int, true),
        forall|i: int, j: int|
            #![trigger indices@[6 * (i * sectors + j)]]
            0 <= i < stacks && 0 <= j < sectors ==> {
                let f = i * (sectors + 1) + j;
                let s = i * (sectors + 1) + j + sectors + 1;
                let b = 6 * (i * sectors + j);
                &&& indices@[b] == f
                &&& indices@[b + 1] == f + 1
                &&& indices@[b + 2] == s
                &&& indices@[b + 3] == f + 1
                &&& indices@[b + 4] == s + 1
                &&& indices@[b + 5] == s
            },
        indices@.len() == 6 * stacks * sectors,
        all_below(
            grid_rows(stacks as nat, sectors as nat, true),
            grid_vertex_count(stacks as int, sectors as int),
        ),
{
    proof {
        lemma_grid_rows(stacks as nat, sectors as nat, true);
    }
    let indices = grid_indices(stacks, sectors, true);
    proof {
        lemma_quads_in_place(indices@, stacks as nat, sectors as nat, true);
    }
    proof {
        assert forall|i: int, j: int|
                #![trigger indices@[6 * (i * sectors + j)]]
                0 <= i < stacks && 0 <= j < sectors implies {
                    let f = i * (sectors + 1) + j;
                    let s = i * (sectors + 1) + j + sectors + 1;
                    let b = 6 * (i * sectors + j);
                    &&& indices@[b] == f
                    &&& indices@[b + 1] == f + 1
                    &&& indices@[b + 2] == s
                    &&& indices@[b + 3] == f + 1
                    &&& indices@[b + 4] == s + 1
                    &&& indices@[b + 5] == s
                } by {
            lemma_sphere_winding(stacks as nat, sectors as nat, i, j);
        }
    }
    indices
}

/// Index list of a torus with `major_segments` steps around the ring and
/// `minor_segments` steps around the tube.
///
/// The torus has `(major_segments + 1) * (minor_segments + 1)` vertices; every index names one of them.
pub fn torus_indices(major_segments: u32, minor_segments: u32) -> (indices: Vec<u32>)
    requires
        grid_vertex_count(major_segments as int, minor_segments as int) <= u32::MAX + 1,
    ensures
        same_values(indices@, grid_rows(major_segments as nat, minor_segments as nat, false)),
        quads_in_place(indices@, major_segments as int, minor_segments as int, false),
        forall|i: int, j: int|
            #![trigger indices@[6 * (i * minor_segments + j)]]
            0 <= i < major_segments && 0 <= j < minor_segments ==> {
                let f = i * (minor_segments + 1) + j;
                let s = i * (minor_segments + 1) + j + minor_segments + 1;
                let b = 6 * (i * minor_segments + j);
                &&& indices@[b] == f
                &&& indices@[b + 1] == s
                &&& indices@[b + 2] == f + 1
                &&& indices@[b + 3] == f + 1
                &&& indices@[b + 4] == s
                &&& indices@[b + 5] == s + 1
            },
        indices@.len() == 6 * major_segments * minor_segments,
        all_below(
            grid_rows(major_segments as nat, minor_segments as nat, false),
            grid_vertex_count(major_segments as int, minor_segments as int),
        ),
{
    proof {
        lemma_grid_rows(major_segments as nat, minor_segments as nat, false);
    }
    let indices = grid_indices(major_segments, minor_segments, false);
    proof {
        lemma_quads_in_place(indices@, major_segments as nat, minor_segments as nat, false);
    }
    proof {
        assert forall|i: int, j: int|
                #![trigger indices@[6 * (i * minor_segments + j)]]
                0 <= i < major_segments && 0 <= j < minor_segments implies {
                    let f = i * (minor_segments + 1) + j;
                    let s = i * (minor_segments + 1) + j + minor_segments + 1;
                    let b = 6 * (i * minor_segments + j);
                    &&& indices@[b] == f
                    &&& indices@[b + 1] == s
                    &&& indices@[b + 2] == f + 1
                    &&& indices@[b + 3] == f + 1
                    &&& indices@[b + 4] == s
                    &&& indices@[b + 5] == s + 1
                } by {
            lemma_strip_winding(major_segments as nat, minor_segments as nat, i, j);
        }
    }
    indices
}

/// Index list of a flat ground plane cut into `subdivisions` x `subdivisions` quads.
///
/// Quad `(i, j)` has corners `tl = i * (subdivisions + 1) + j`, `tr = tl + 1`,
/// `bl = tl + subdivisions + 1`, `br = bl + 1`, drawn as `(tl, bl, tr)` and `(tr, bl, br)`.
pub fn plane_indices(subdivisions: u32) -> (indices: Vec<u32>)
    requires
        grid_vertex_count(subdivisions as int, subdivisions as int) <= u32::MAX + 1,
    ensures
        same_values(indices@, grid_rows(subdivisions as nat, subdivisions as nat, false)),
        quads_in_place(indices@, subdivisions as int, subdivisions as int, false),
        forall|i: int, j: int|
            #![trigger indices@[6 * (i * subdivisions + j)]]
            0 <= i < subdivisions && 0 <= j < subdivisions ==> {
                let f = i * (subdivisions + 1) + j;
                let s = i * (subdivisions + 1) + j + subdivisions + 1;
                let b = 6 * (i * subdivisions + j);
                &&& indices@[b] == f
                &&& indices@[b + 1] == s
                &&& indices@[b + 2] == f + 1
                &&& indices@[b + 3] == f + 1
                &&& indices@[b + 4] == s
                &&& indices@[b + 5] == s + 1
            },
        indices@.len() == 6 * subdivisions * subdivisions,
        all_below(
            grid_rows(subdivisions as nat, subdivisions as nat, false),
            grid_vertex_count(subdivisions as int, subdivisions as int),
        ),
{
    proof {
        lemma_grid_rows(subdivisions as nat, subdivisions as nat, false);
    }
    let indices = grid_indices(subdivisions, subdivisions, false);
    proof {
        lemma_quads_in_place(indices@, subdivisions as nat, subdivisions as nat, false);
    }
    proof {
        assert forall|i: int, j: int|
                #![trigger indices@[6 * (i * subdivisions + j)]]
                0 <= i < subdivisions && 0 <= j < subdivisions implies {
                    let f = i * (subdivisions + 1) + j;
                    let s = i * (subdivisions + 1) + j + subdivisions + 1;
                    let b = 6 * (i * subdivisions + j);
                    &&& indices@[b] == f
                    &&& indices@[b + 1] == s
                    &&& indices@[b + 2] == f + 1
                    &&& indices@[b + 3] == f + 1
                    &&& indices@[b + 4] == s
                    &&& indices@[b + 5] == s + 1
                } by {
            lemma_strip_winding(subdivisions as nat, subdivisions as nat, i, j);
        }
    }
    indices
}


/// Side triangles `(0, 1 + t, 2 + t)` for `t < n`: the tip joined to neighbouring ring vertices.
pub open spec fn cone_side(n: nat) -> Seq<int>
    decreases n,
{
    if n == 0 {
        seq![]
    } else {
        cone_side((n - 1) as nat) + seq![0, n as int, n + 1int]
    }
}

/// Base-cap triangles `(center, 2 + t, 1 + t)` for `t < n`.
pub open spec fn cone_cap(center: int, n: nat) -> Seq<int>
    decreases n,
{
    if n == 0 {
        seq![]
    } else {
        cone_cap(center, (n - 1) as nat) + seq![center, n + 1int, n as int]
    }
}

/// Index list of a cone with `segments` ring steps: vertex 0 is the tip,
/// vertices `1 ..= segments + 1` the base ring, vertex `segments + 2` the base centre.
pub open spec fn cone_triangles(segments: nat) -> Seq<int> {
    cone_side(segments) + cone_cap(segments + 2int, segments)
}

proof fn lemma_cone_side(n: nat)
    ensures
        cone_side(n).len() == 3 * n,
        all_below(cone_side(n), n + 2int),
    decreases n,
{
    if n > 0 {
        lemma_cone_side((n - 1) as nat);
        let prev = cone_side((n - 1) as nat);
        let all = cone_side(n);
        assert forall|k: int| 0 <= k < all.len() implies 0 <= #[trigger] all[k] < n + 2 by {
            if k < prev.len() {
                assert(all[k] == prev[k]);
            }
        }
    }
}

proof fn lemma_cone_cap(center: int, n: nat)
    requires
        center >= n + 1,
    ensures
        cone_cap(center, n).len() == 3 * n,
        all_below(cone_cap(center, n), center + 1),
    decreases n,
{
    if n > 0 {
        lemma_cone_cap(center, (n - 1) as nat);
        let prev = cone_cap(center, (n - 1) as nat);
        let all = cone_cap(center, n);
        assert forall|k: int| 0 <= k < all.len() implies 0 <= #[trigger] all[k] < center + 1 by {
            if k < prev.len() {
                assert(all[k] == prev[k]);
            }
        }
    }
}

/// Length and range of the cone's index list: `6 * segments` indices, all below
/// the `segments + 3` vertices.
pub proof fn lemma_cone_triangles(segments: nat)
    ensures
        cone_triangles(segments).len() == 6 * segments,
        all_below(cone_triangles(segments), segments + 3int),
{
    lemma_cone_side(segments);
    lemma_cone_cap(segments + 2int, segments);
    let a = cone_side(segments);
    let b = cone_cap(segments + 2int, segments);
    let all = cone_triangles(segments);
    assert forall|k: int| 0 <= k < all.len() implies 0 <= #[trigger] all[k] < segments + 3 by {
        if k < a.len() {
            assert(all[k] == a[k]);
        } else {
            assert(all[k] == b[k - a.len()]);
        }
    }
}

proof fn lemma_cone_side_corners(n: nat, t: int)
    requires
        0 <= t < n,
    ensures
        3 * t + 3 <= cone_side(n).len(),
        cone_side(n)[3 * t] == 0,
        cone_side(n)[3 * t + 1] == t + 1,
        cone_side(n)[3 * t + 2] == t + 2,
    decreases n,
{
    lemma_cone_side(n);
    lemma_cone_side((n - 1) as nat);
    let prev = cone_side((n - 1) as nat);
    let all = cone_side(n);
    assert(all == prev + seq![0, n as int, n + 1int]);
    if t < n - 1 {
        lemma_cone_side_corners((n - 1) as nat, t);
        assert forall|r: int| 0 <= r < 3 implies #[trigger] all[3 * t + r] == prev[3 * t + r] by {}
    }
}

proof fn lemma_cone_cap_corners(center: int, n: nat, t: int)
    requires
        0 <= t < n,
        center >= n + 1,
    ensures
        3 * t + 3 <= cone_cap(center, n).len(),
        cone_cap(center, n)[3 * t] == center,
        cone_cap(center, n)[3 * t + 1] == t + 2,
        cone_cap(center, n)[3 * t + 2] == t + 1,
    decreases n,
{
    lemma_cone_cap(center, n);
    lemma_cone_cap(center, (n - 1) as nat);
    let prev = cone_cap(center, (n - 1) as nat);
    let all = cone_cap(center, n);
    assert(all == prev + seq![center, n + 1int, n as int]);
    if t < n - 1 {
        lemma_cone_cap_corners(center, (n - 1) as nat, t);
        assert forall|r: int| 0 <= r < 3 implies #[trigger] all[3 * t + r] == prev[3 * t + r] by {}
    }
}

/// The cone's side triangle `t` is `(0, t + 1, t + 2)` (the tip and two neighbouring ring
/// vertices), and its base triangle `t` is `(segments + 2, t + 2, t + 1)` (the base centre
/// and the same ring vertices in the opposite order), for every `t < segments`.
pub proof fn lemma_cone_corners(segments: nat, t: int)
    requires
        0 <= t < segments,
    ensures
        cone_triangles(segments)[3 * t] == 0,
        cone_triangles(segments)[3 * t + 1] == t + 1,
        cone_triangles(segments)[3 * t + 2] == t + 2,
        cone_triangles(segments)[3 * segments + 3 * t] == segments + 2,
        cone_triangles(segments)[3 * segments + 3 * t + 1] == t + 2,
        cone_triangles(segments)[3 * segments + 3 * t + 2] == t + 1,
{
    lemma_cone_side(segments);
    lemma_cone_side_corners(segments, t);
    lemma_cone_cap_corners(segments + 2int, segments, t);
    let a = cone_side(segments);
    let c = cone_cap(segments + 2int, segments);
    let all = cone_triangles(segments);
    assert(all == a + c);
    assert forall|r: int| 0 <= r < 3 implies #[trigger] all[3 * t + r] == a[3 * t + r] by {}
    assert forall|r: int| 0 <= r < 3 implies #[trigger] all[3 * segments + 3 * t + r] == c[3 * t
        + r] by {}
}

/// Index list of a cone with `segments` steps around its base.
pub fn cone_indices(segments: u32) -> (indices: Vec<u32>)
    requires
        segments + 2 <= u32::MAX,
    ensures
        same_values(indices@, cone_triangles(segments as nat)),
        indices@.len() == 6 * segments,
        forall|t: int|
            #![trigger indices@[3 * t]]
            0 <= t < segments ==> {
                &&& indices@[3 * t] == 0
                &&& indices@[3 * t + 1] == t + 1
                &&& indices@[3 * t + 2] == t + 2
                &&& indices@[3 * segments + 3 * t] == segments + 2
                &&& indices@[3 * segments + 3 * t + 1] == t + 2
                &&& indices@[3 * segments + 3 * t + 2] == t + 1
            },
        all_below(cone_triangles(segments as nat), segments + 3),
{
    proof {
        lemma_cone_triangles(segments as nat);
    }
    let mut indices: Vec<u32> = Vec::new();
    let mut i: u32 = 0;
    while i < segments
        invariant
            i <= segments,
            segments + 2 <= u32::MAX,
            same_values(indices@, cone_side(i as nat)),
        decreases segments - i,
    {
        let ghost before = indices@;
        indices.push(0);
        indices.push(1 + i);
        indices.push(2 + i);
        proof {
            let target = cone_side((i + 1) as nat);
            assert(target == cone_side(i as nat) + seq![0, i + 1, i + 2]);
            assert forall|k: int| 0 <= k < indices@.len() implies indices@[k] == target[k] by {
                if k < before.len() {
                    assert(indices@[k] == before[k]);
                }
            }
        }
        i = i + 1;
    }
    let base_center: u32 = segments + 2;
    let base_ring_start: u32 = 1;
    let ghost side = indices@;
    let mut i: u32 = 0;
    while i < segments
        invariant
            i <= segments,
            segments + 2 <= u32::MAX,
            base_center == segments + 2,
            base_ring_start == 1,
            same_values(side, cone_side(segments as nat)),
            same_values(indices@, cone_side(segments as nat) + cone_cap(segments + 2int, i as nat)),
        decreases segments - i,
    {
        let ghost before = indices@;
        indices.push(base_center);
        indices.push(base_ring_start + i + 1);
        indices.push(base_ring_start + i);
        proof {
            let done = cone_side(segments as nat);
            let cap = cone_cap(segments + 2int, (i + 1) as nat);
            let tri = seq![segments + 2, i + 2, i + 1];
            assert(cap == cone_cap(segments + 2int, i as nat) + tri);
            let target = done + cap;
            assert(target =~= (done + cone_cap(segments + 2int, i as nat)) + tri);
            assert forall|k: int| 0 <= k < indices@.len() implies indices@[k] == target[k] by {
                if k < before.len() {
                    assert(indices@[k] == before[k]);
                } else {
                    assert(target[k] == tri[k - before.len()]);
                }
            }
        }
        i = i + 1;
    }
    proof {
        assert forall|t: int|
            #![trigger indices@[3 * t]]
            0 <= t < segments implies {
                &&& indices@[3 * t] == 0
                &&& indices@[3 * t + 1] == t + 1
                &&& indices@[3 * t + 2] == t + 2
                &&& indices@[3 * segments + 3 * t] == segments + 2
                &&& indices@[3 * segments + 3 * t + 1] == t + 2
                &&& indices@[3 * segments + 3 * t + 2] == t + 1
            } by {
            lemma_cone_corners(segments as nat, t);
        }
    }
    indices
}

/// The two triangles of cube face `f`, whose four vertices are `4f .. 4f + 3`.
pub open spec fn cube_face(f: int) -> Seq<int> {
    let b = 4 * f;
    seq![b, b + 1, b + 2, b, b + 2, b + 3]
}

/// The triangles of the first `n` cube faces, face by face.
pub open spec fn cube_faces(n: nat) -> Seq<int>
    decreases n,
{
    if n == 0 {
        seq![]
    } else {
        cube_faces((n - 1) as nat) + cube_face(n - 1)
    }
}

/// Length and range of the first `n` faces' index list: `6 * n` indices below `4 * n`.
pub proof fn lemma_cube_faces(n: nat)
    ensures
        cube_faces(n).len() == 6 * n,
        all_below(cube_faces(n), 4 * n as int),
    decreases n,
{
    if n > 0 {
        lemma_cube_faces((n - 1) as nat);
        let prev = cube_faces((n - 1) as nat);
        let all = cube_faces(n);
        assert forall|k: int| 0 <= k < all.len() implies 0 <= #[trigger] all[k] < 4 * n by {
            if k < prev.len() {
                assert(all[k] == prev[k]);
            } else {
                assert(all[k] == cube_face(n - 1)[k - prev.len()]);
            }
        }
    }
}

/// Face `f` of the cube occupies indices `6f .. 6f + 5` and is drawn as the triangles
/// `(4f, 4f+1, 4f+2)` and `(4f, 4f+2, 4f+3)`, for every face alike.
pub proof fn lemma_cube_face_corners(n: nat, f: int)
    requires
        0 <= f < n,
    ensures
        6 * f + 6 <= cube_faces(n).len(),
        cube_faces(n)[6 * f] == 4 * f,
        cube_faces(n)[6 * f + 1] == 4 * f + 1,
        cube_faces(n)[6 * f + 2] == 4 * f + 2,
        cube_faces(n)[6 * f + 3] == 4 * f,
        cube_faces(n)[6 * f + 4] == 4 * f + 2,
        cube_faces(n)[6 * f + 5] == 4 * f + 3,
    decreases n,
{
    lemma_cube_faces(n);
    lemma_cube_faces((n - 1) as nat);
    let prev = cube_faces((n - 1) as nat);
    let all = cube_faces(n);
    assert(all == prev + cube_face(n - 1));
    if f < n - 1 {
        lemma_cube_face_corners((n - 1) as nat, f);
        assert forall|r: int| 0 <= r < 6 implies #[trigger] all[6 * f + r] == prev[6 * f + r] by {}
    } else {
        assert forall|r: int| 0 <= r < 6 implies #[trigger] all[6 * f + r] == cube_face(f)[r] by {}
    }
}

/// Index list of the cube: six faces of four vertices each, two triangles per face.
pub fn cube_indices() -> (indices: Vec<u32>)
    ensures
        same_values(indices@, cube_faces(6)),
        indices@.len() == 36,
        forall|f: int|
            #![trigger indices@[6 * f]]
            0 <= f < 6 ==> {
                &&& indices@[6 * f] == 4 * f
                &&& indices@[6 * f + 1] == 4 * f + 1
                &&& indices@[6 * f + 2] == 4 * f + 2
                &&& indices@[6 * f + 3] == 4 * f
                &&& indices@[6 * f + 4] == 4 * f + 2
                &&& indices@[6 * f + 5] == 4 * f + 3
            },
        all_below(cube_faces(6), 24),
{
    proof {
        lemma_cube_faces(6);
    }
    let mut indices: Vec<u32> = Vec::new();
    let mut face: u32 = 0;
    while face < 6
        invariant
            face <= 6,
            same_values(indices@, cube_faces(face as nat)),
        decreases 6 - face,
    {
        let base: u32 = face * 4;
        let ghost before = indices@;
        indices.push(base);
        indices.push(base + 1);
        indices.push(base + 2);
        indices.push(base);
        indices.push(base + 2);
        indices.push(base + 3);
        proof {
            let target = cube_faces((face + 1) as nat);
            assert(target == cube_faces(face as nat) + cube_face(face as int));
            assert forall|k: int| 0 <= k < indices@.len() implies indices@[k] == target[k] by {
                if k < before.len() {
                    assert(indices@[k] == before[k]);
                } else {
                    assert(target[k] == cube_face(face as int)[k - before.len()]);
                }
            }
        }
        face = face + 1;
    }
    proof {
        assert forall|f: int|
            #![trigger indices@[6 * f]]
            0 <= f < 6 implies {
                &&& indices@[6 * f] == 4 * f
                &&& indices@[6 * f + 1] == 4 * f + 1
                &&& indices@[6 * f + 2] == 4 * f + 2
                &&& indices@[6 * f + 3] == 4 * f
                &&& indices@[6 * f + 4] == 4 * f + 2
                &&& indices@[6 * f + 5] == 4 * f + 3
            } by {
            lemma_cube_face_corners(6, f);
        }
    }
    indices
}

} // verus!
