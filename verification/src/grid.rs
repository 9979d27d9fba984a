use vstd::prelude::*;

use crate::scalar::{all_finite, all_finite_bits, is_positive_finite_bits, positive_finite_bits};
use crate::types::{
    index_triples, mesh_wf, pairwise_distinct, triangles_vertex_distinct, vertex_triple,
    AxisSample, GridMesh, TerrainError, TerrainSpec, Vertex,
};

verus! {

/// Number of vertices along one edge of the grid.
pub open spec fn grid_width(resolution: u32) -> int {
    resolution + 1
}

/// The vertex of grid cell corner (`r`, `c`): planar coordinates taken from
/// the shared axis samples (column along x, row along z), elevation from the
/// height buffer in row-major order, texture coordinates from the same axis
/// samples.
pub open spec fn grid_vertex(
    axis: Seq<AxisSample>,
    heights: Seq<u32>,
    resolution: u32,
    r: int,
    c: int,
) -> Vertex {
    Vertex {
        px: axis[c].coord,
        py: heights[r * grid_width(resolution) + c],
        pz: axis[r].coord,
        tu: axis[c].tex,
        tv: axis[r].tex,
    }
}

/// The full vertex buffer of the grid, row-major: slot `r * (resolution + 1) + c`
/// holds the vertex of corner (`r`, `c`).
pub open spec fn grid_vertices(axis: Seq<AxisSample>, heights: Seq<u32>, resolution: u32) -> Seq<
    Vertex,
> {
    let w = grid_width(resolution);
    Seq::new((w * w) as nat, |i: int| grid_vertex(axis, heights, resolution, i / w, i % w))
}

/// Index `k` of the grid's index buffer. Each cell contributes six indices:
/// the triangles (top-left, bottom-left, top-right) and (top-right,
/// bottom-left, bottom-right), a consistent winding across the whole grid.
pub open spec fn grid_index_at(resolution: u32, k: int) -> u32 {
    let w = grid_width(resolution);
    let cell = k / 6;
    let off = k % 6;
    let row = cell / (resolution as int);
    let col = cell % (resolution as int);
    let tl = row * w + col;
    let tr = tl + 1;
    let bl = tl + w;
    let br = bl + 1;
    if off == 0 {
        tl as u32
    } else if off == 1 {
        bl as u32
    } else if off == 2 {
        tr as u32
    } else if off == 3 {
        tr as u32
    } else if off == 4 {
        bl as u32
    } else {
        br as u32
    }
}

/// The full index buffer of the grid: `6 * resolution * resolution` indices,
/// two triangles per cell, cells in row-major order.
pub open spec fn grid_indices(resolution: u32) -> Seq<u32> {
    Seq::new((6 * resolution * resolution) as nat, |k: int| grid_index_at(resolution, k))
}

/// The inputs cannot make a terrain: no cell to triangulate, a size that is
/// not a positive finite value, or a height sample that is not finite.
pub open spec fn grid_input_invalid(spec: TerrainSpec, heights: Seq<u32>) -> bool {
    spec.resolution == 0 || !is_positive_finite_bits(spec.size_bits) || !all_finite_bits(heights)
}

/// Builds the unoptimized grid mesh: a `(resolution + 1)²` row-major vertex
/// buffer over the shared axis samples and height buffer, and the index
/// buffer that cuts every cell into its two consistently wound triangles.
///
/// Inputs that spec validation rejects yield `InvalidSpec`; valid inputs
/// always yield the mesh pinned down by `grid_vertices` and `grid_indices`.
pub fn build_grid(spec: &TerrainSpec, axis: &Vec<AxisSample>, heights: &Vec<u32>) -> (out: Result<
    GridMesh,
    TerrainError,
>)
    requires
        axis@.len() == grid_width(spec.resolution),
        heights@.len() == grid_width(spec.resolution) * grid_width(spec.resolution),
        grid_width(spec.resolution) * grid_width(spec.resolution) <= u32::MAX,
        6 * (spec.resolution as int) * (spec.resolution as int) <= usize::MAX,
    ensures
        out is Err <==> grid_input_invalid(*spec, heights@),
        out is Err ==> out == Err::<GridMesh, TerrainError>(TerrainError::InvalidSpec),
        out matches Ok(g) ==> g.vertices@ == grid_vertices(axis@, heights@, spec.resolution)
            && g.indices@ == grid_indices(spec.resolution),
{
    if spec.resolution == 0 || !positive_finite_bits(spec.size_bits) || !all_finite(heights) {
        return Err(TerrainError::InvalidSpec);
    }
    proof {
        assert(spec.resolution < 0x10000) by (nonlinear_arith)
            requires
                (spec.resolution + 1) * (spec.resolution + 1) <= u32::MAX,
        ;
        assert((spec.resolution as int) * (spec.resolution as int) <= 6 * (
        spec.resolution as int) * (spec.resolution as int)) by (nonlinear_arith);
    }
    let res = spec.resolution as usize;
    let w = res + 1;
    let n = w * w;

    let mut vertices: Vec<Vertex> = Vec::new();
    let mut i: usize = 0;
    while i < n
        invariant
            i <= n,
            n == w * w,
            w == grid_width(spec.resolution),
            axis@.len() == w,
            heights@.len() == n,
            vertices@.len() == i,
            forall|j: int|
                0 <= j < i ==> vertices@[j] == grid_vertex(
                    axis@,
                    heights@,
                    spec.resolution,
                    j / (w as int),
                    j % (w as int),
                ),
        decreases n - i,
    {
        let r = i / w;
        let c = i % w;
        proof {
            assert(r < w && c < w && r * w + c == i) by (nonlinear_arith)
                requires
                    w > 0,
                    i < w * w,
                    r == i as int / w as int,
                    c == i as int % w as int,
            ;
        }
        vertices.push(
            Vertex {
                px: axis[c].coord,
                py: heights[i],
                pz: axis[r].coord,
                tu: axis[c].tex,
                tv: axis[r].tex,
            },
        );
        i = i + 1;
    }
    proof {
        assert(vertices@ =~= grid_vertices(axis@, heights@, spec.resolution));
    }

    proof {
        assert(6 * ((res as int) * (res as int)) == 6 * (res as int) * (
        res as int)) by (nonlinear_arith);
    }
    let n_cells = res * res;
    let mut indices: Vec<u32> = Vec::new();
    let mut cell: usize = 0;
    while cell < n_cells
        invariant
            cell <= n_cells,
            n_cells == res * res,
            res == spec.resolution,
            res >= 1,
            w == res + 1,
            w * w <= u32::MAX,
            6 * n_cells <= usize::MAX,
            indices@.len() == 6 * cell,
            forall|k: int| 0 <= k < 6 * cell ==> indices@[k] == grid_index_at(spec.resolution, k),
        decreases n_cells - cell,
    {
        let row = cell / res;
        let col = cell % res;
        proof {
            assert(row < res && col < res && row * res + col == cell) by (nonlinear_arith)
                requires
                    res > 0,
                    cell < res * res,
                    row == cell as int / res as int,
                    col == cell as int % res as int,
            ;
            assert(row * w + col + w + 1 < w * w) by (nonlinear_arith)
                requires
                    row < res,
                    col < res,
                    w == res + 1,
            ;
        }
        let tl = row * w + col;
        let tr = tl + 1;
        let bl = tl + w;
        let br = bl + 1;
        indices.push(tl as u32);
        indices.push(bl as u32);
        indices.push(tr as u32);
        indices.push(tr as u32);
        indices.push(bl as u32);
        indices.push(br as u32);
        proof {
            let kk = 6 * cell as int;
            vstd::arithmetic::div_mod::lemma_fundamental_div_mod_converse(
                kk,
                6,
                cell as int,
                0,
            );
            vstd::arithmetic::div_mod::lemma_fundamental_div_mod_converse(kk + 1, 6, cell as int, 1);
            vstd::arithmetic::div_mod::lemma_fundamental_div_mod_converse(kk + 2, 6, cell as int, 2);
            vstd::arithmetic::div_mod::lemma_fundamental_div_mod_converse(kk + 3, 6, cell as int, 3);
            vstd::arithmetic::div_mod::lemma_fundamental_div_mod_converse(kk + 4, 6, cell as int, 4);
            vstd::arithmetic::div_mod::lemma_fundamental_div_mod_converse(kk + 5, 6, cell as int, 5);
            vstd::arithmetic::div_mod::lemma_fundamental_div_mod_converse(
                cell as int,
                res as int,
                row as int,
                col as int,
            );
        }
        cell = cell + 1;
    }
    proof {
        assert(indices@ =~= grid_indices(spec.resolution));
    }

    Ok(GridMesh { vertices, indices })
}

/// The grid's vertex buffer, addressed by row and column: slot
/// `r * (resolution + 1) + c` holds exactly the vertex assembled from the
/// column's axis sample, the row's axis sample, and the height sampled at
/// that corner.
pub proof fn lemma_grid_vertex_at(
    axis: Seq<AxisSample>,
    heights: Seq<u32>,
    resolution: u32,
    r: int,
    c: int,
)
    requires
        0 <= r < grid_width(resolution),
        0 <= c < grid_width(resolution),
    ensures
        grid_vertices(axis, heights, resolution)[r * grid_width(resolution) + c] == grid_vertex(
            axis,
            heights,
            resolution,
            r,
            c,
        ),
{
    let w = grid_width(resolution);
    assert(0 <= r * w + c < w * w) by (nonlinear_arith)
        requires
            0 <= r < w,
            0 <= c < w,
    ;
    vstd::arithmetic::div_mod::lemma_fundamental_div_mod_converse(r * w + c, w, r, c);
}

/// The grid's index buffer always describes whole triangles over the grid's
/// vertex count: six indices per cell, each one in range.
pub proof fn lemma_grid_indices_wf(resolution: u32)
    requires
        1 <= resolution,
        grid_width(resolution) * grid_width(resolution) <= u32::MAX,
    ensures
        grid_indices(resolution).len() == 6 * resolution * resolution,
        mesh_wf(grid_indices(resolution), grid_width(resolution) * grid_width(resolution)),
{
    let res = resolution as int;
    let w = grid_width(resolution);
    let gi = grid_indices(resolution);
    assert(6 * res * res == 3 * (2 * res * res) + 0) by (nonlinear_arith);
    vstd::arithmetic::div_mod::lemma_fundamental_div_mod_converse(
        6 * res * res,
        3,
        2 * res * res,
        0,
    );
    assert forall|k: int| 0 <= k < gi.len() implies (#[trigger] gi[k]) < w * w by {
        lemma_grid_index_bound(resolution, k);
    }
}

/// The index at slot `k` of the grid's index buffer addresses a grid vertex.
proof fn lemma_grid_index_bound(resolution: u32, k: int)
    requires
        1 <= resolution,
        grid_width(resolution) * grid_width(resolution) <= u32::MAX,
        0 <= k < 6 * (resolution as int) * (resolution as int),
    ensures
        grid_index_at(resolution, k) < grid_width(resolution) * grid_width(resolution),
        grid_index_at(resolution, k) == grid_corner_value(resolution, k / 6, k % 6),
{
    let res = resolution as int;
    let w = grid_width(resolution);
    let cell = k / 6;
    let off = k % 6;
    assert(0 <= cell < res * res && 0 <= off < 6) by (nonlinear_arith)
        requires
            0 <= k < 6 * res * res,
            cell == k / 6,
            off == k % 6,
    ;
    let row = cell / res;
    let col = cell % res;
    assert(0 <= row < res && 0 <= col < res) by (nonlinear_arith)
        requires
            res > 0,
            0 <= cell < res * res,
            row == cell / res,
            col == cell % res,
    ;
    assert(0 <= row * w + col && row * w + col + w + 1 < w * w) by (nonlinear_arith)
        requires
            0 <= row < res,
            0 <= col < res,
            w == res + 1,
    ;
}

/// The corner index that slot offset `off` of cell `cell` contributes.
pub open spec fn grid_corner_value(resolution: u32, cell: int, off: int) -> u32 {
    let w = grid_width(resolution);
    let row = cell / (resolution as int);
    let col = cell % (resolution as int);
    let tl = row * w + col;
    if off == 0 {
        tl as u32
    } else if off == 1 {
        (tl + w) as u32
    } else if off == 2 {
        (tl + 1) as u32
    } else if off == 3 {
        (tl + 1) as u32
    } else if off == 4 {
        (tl + w) as u32
    } else {
        (tl + w + 1) as u32
    }
}

/// When the axis samples are pairwise distinct, so are the grid's vertices:
/// two different corners always differ in a planar or texture coordinate.
pub proof fn lemma_grid_vertices_distinct(axis: Seq<AxisSample>, heights: Seq<u32>, resolution: u32)
    requires
        axis.len() == grid_width(resolution),
        heights.len() == grid_width(resolution) * grid_width(resolution),
        pairwise_distinct(axis),
    ensures
        pairwise_distinct(grid_vertices(axis, heights, resolution)),
{
    let w = grid_width(resolution);
    let gv = grid_vertices(axis, heights, resolution);
    assert forall|a: int, b: int|
        #![trigger gv[a], gv[b]]
        0 <= a < gv.len() && 0 <= b < gv.len() && a != b implies gv[a] != gv[b] by {
        let r1 = a / w;
        let c1 = a % w;
        let r2 = b / w;
        let c2 = b % w;
        assert(0 <= r1 < w && 0 <= c1 < w && r1 * w + c1 == a) by (nonlinear_arith)
            requires
                w > 0,
                0 <= a < w * w,
                r1 == a / w,
                c1 == a % w,
        ;
        assert(0 <= r2 < w && 0 <= c2 < w && r2 * w + c2 == b) by (nonlinear_arith)
            requires
                w > 0,
                0 <= b < w * w,
                r2 == b / w,
                c2 == b % w,
        ;
        assert(r1 != r2 || c1 != c2);
        if c1 != c2 {
            assert(axis[c1] != axis[c2]);
        } else {
            assert(axis[r1] != axis[r2]);
        }
    }
}

/// With pairwise distinct axis samples, no grid triangle joins two
/// bit-identical vertices: each cell's two triangles use three different
/// corners, and different corners carry different vertices.
pub proof fn lemma_grid_triangles_distinct(
    axis: Seq<AxisSample>,
    heights: Seq<u32>,
    resolution: u32,
)
    requires
        1 <= resolution,
        axis.len() == grid_width(resolution),
        heights.len() == grid_width(resolution) * grid_width(resolution),
        grid_width(resolution) * grid_width(resolution) <= u32::MAX,
        pairwise_distinct(axis),
    ensures
        triangles_vertex_distinct(
            grid_vertices(axis, heights, resolution),
            grid_indices(resolution),
        ),
{
    let res = resolution as int;
    let w = grid_width(resolution);
    let gv = grid_vertices(axis, heights, resolution);
    let gi = grid_indices(resolution);
    lemma_grid_vertices_distinct(axis, heights, resolution);
    lemma_grid_indices_wf(resolution);
    assert forall|t: int|
        0 <= t < index_triples(gi).len() implies {
        let tri = vertex_triple(gv, #[trigger] index_triples(gi)[t]);
        tri.0 != tri.1 && tri.0 != tri.2 && tri.1 != tri.2
    } by {
        vstd::arithmetic::div_mod::lemma_fundamental_div_mod(gi.len() as int, 3);
        assert(0 <= 3 * t && 3 * t + 2 < gi.len());
        let cell = t / 2;
        let o = t % 2;
        vstd::arithmetic::div_mod::lemma_fundamental_div_mod(t, 2);
        assert(t == 2 * cell + o && 0 <= o < 2);
        vstd::arithmetic::div_mod::lemma_fundamental_div_mod_converse(3 * t, 6, cell, 3 * o);
        vstd::arithmetic::div_mod::lemma_fundamental_div_mod_converse(3 * t + 1, 6, cell, 3 * o + 1);
        vstd::arithmetic::div_mod::lemma_fundamental_div_mod_converse(3 * t + 2, 6, cell, 3 * o + 2);
        lemma_grid_index_bound(resolution, 3 * t);
        lemma_grid_index_bound(resolution, 3 * t + 1);
        lemma_grid_index_bound(resolution, 3 * t + 2);
        assert(0 <= cell < res * res) by (nonlinear_arith)
            requires
                0 <= 3 * t && 3 * t + 2 < 6 * res * res,
                t == 2 * cell + o,
                0 <= o < 2,
        ;
        let row = cell / res;
        let col = cell % res;
        assert(0 <= row < res && 0 <= col < res) by (nonlinear_arith)
            requires
                res > 0,
                0 <= cell < res * res,
                row == cell / res,
                col == cell % res,
        ;
        let tl = row * w + col;
        assert(0 <= tl && tl + w + 1 < w * w) by (nonlinear_arith)
            requires
                0 <= row < res,
                0 <= col < res,
                w == res + 1,
                tl == row * w + col,
        ;
        let ia = index_triples(gi)[t].0;
        let ib = index_triples(gi)[t].1;
        let ic = index_triples(gi)[t].2;
        assert(ia == gi[3 * t] && ib == gi[3 * t + 1] && ic == gi[3 * t + 2]);
        if o == 0 {
            assert(ia == tl as u32 && ib == (tl + w) as u32 && ic == (tl + 1) as u32);
        } else {
            assert(ia == (tl + 1) as u32 && ib == (tl + w) as u32 && ic == (tl + w + 1) as u32);
        }
        assert(ia as int != ib as int && ia as int != ic as int && ib as int != ic as int);
        assert(gv[ia as int] != gv[ib as int]);
        assert(gv[ia as int] != gv[ic as int]);
        assert(gv[ib as int] != gv[ic as int]);
    }
}

} // verus!
