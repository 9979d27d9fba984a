use vstd::prelude::*;

use crate::collider::extract_collider;
use crate::grid::{
    build_grid, grid_indices, grid_input_invalid, grid_vertices, grid_width,
    lemma_grid_indices_wf, lemma_grid_triangles_distinct, lemma_grid_vertices_distinct,
};
use crate::optimize::{
    all_triples_nondegenerate, cache_order_of, fetch_order_of, optimize_mesh, optimized_of,
};
use crate::shade::{flat_vertices, identity_indices, prepare_shading_mesh, NormalMode};
use crate::types::{
    index_triples, mesh_wf, nondegenerate_triple, pairwise_distinct, position_of,
    position_triangles, vertices_from, AxisSample, ColliderMesh, OptimizedMesh, TerrainError,
    TerrainSpec, Vertex,
};

verus! {

/// Everything one terrain build hands back: the optimized render mesh, the
/// mesh laid out for the chosen normal mode, the physics triangle list, and
/// the count of degenerate triangles the collider left out.
#[derive(Clone, Debug)]
pub struct TerrainBuild {
    pub mesh: OptimizedMesh,
    pub shading_mesh: OptimizedMesh,
    pub collider: ColliderMesh,
    pub skipped_triangles: usize,
}

/// What a successful build owes, every field pinned down as a function of the
/// inputs: the optimized mesh is `optimized_of` over the grid buffers, the
/// shading mesh is the mode's layout of it, and the collider copies its
/// positions and keeps exactly its nondegenerate triangles.
pub open spec fn terrain_build_post(
    spec: TerrainSpec,
    axis: Seq<AxisSample>,
    heights: Seq<u32>,
    mode: NormalMode,
    t: TerrainBuild,
) -> bool {
    let gv = grid_vertices(axis, heights, spec.resolution);
    let gi = grid_indices(spec.resolution);
    &&& (t.mesh.vertices@, t.mesh.indices@) == optimized_of(gv, gi)
    &&& (mode == NormalMode::Smooth ==> t.shading_mesh.vertices@ == t.mesh.vertices@
        && t.shading_mesh.indices@ == t.mesh.indices@)
    &&& (mode == NormalMode::Flat ==> t.shading_mesh.vertices@ == flat_vertices(
        t.mesh.vertices@,
        t.mesh.indices@,
    ) && t.shading_mesh.indices@ == identity_indices(t.mesh.indices@.len() as int))
    &&& t.collider.vertices@ == t.mesh.vertices@.map_values(|v: Vertex| position_of(v))
    &&& t.collider.triangles@ == index_triples(t.mesh.indices@).filter(
        |tri: (u32, u32, u32)| nondegenerate_triple(tri),
    )
    &&& t.skipped_triangles + t.collider.triangles@.len() == index_triples(t.mesh.indices@).len()
}

/// Builds a terrain from its spec, the shared axis samples, and the row-major
/// height buffer: grid mesh, optimizer, shading layout, collider extraction,
/// in that order.
///
/// Inputs the spec validation rejects — a zero resolution, a size that is not
/// finite and positive, a height sample that is not finite — yield
/// `InvalidSpec` and nothing else; in particular the verified pipeline never
/// trips its own structural-integrity checks. A successful build is pinned
/// down by `terrain_build_post`; its mesh is well formed, draws exactly the
/// grid's triangles (as a multiset of position-space triangles), and, when
/// the axis samples are pairwise distinct, has no degenerate triangle, so the
/// collider keeps the full triangle count and skips nothing.
pub fn build_terrain(
    spec: &TerrainSpec,
    axis: &Vec<AxisSample>,
    heights: &Vec<u32>,
    mode: NormalMode,
) -> (out: Result<TerrainBuild, TerrainError>)
    requires
        axis@.len() == grid_width(spec.resolution),
        heights@.len() == grid_width(spec.resolution) * grid_width(spec.resolution),
        6 * (spec.resolution as int) * (spec.resolution as int) <= u32::MAX,
    ensures
        out is Err <==> grid_input_invalid(*spec, heights@),
        out is Err ==> out == Err::<TerrainBuild, TerrainError>(TerrainError::InvalidSpec),
        out matches Ok(t) ==> {
            let gv = grid_vertices(axis@, heights@, spec.resolution);
            let gi = grid_indices(spec.resolution);
            &&& terrain_build_post(*spec, axis@, heights@, mode, t)
            &&& mesh_wf(t.mesh.indices@, t.mesh.vertices@.len() as int)
            &&& t.mesh.indices@.len() == 6 * spec.resolution * spec.resolution
            &&& t.mesh.vertices@.len() <= grid_width(spec.resolution) * grid_width(
                spec.resolution,
            )
            &&& position_triangles(t.mesh.vertices@, t.mesh.indices@).to_multiset()
                == position_triangles(gv, gi).to_multiset()
            &&& (pairwise_distinct(axis@) ==> (all_triples_nondegenerate(t.mesh.indices@)
                && t.skipped_triangles == 0 && t.collider.triangles@.len() == index_triples(
                t.mesh.indices@,
            ).len() && t.collider.triangles@.len() == 2 * spec.resolution * spec.resolution))
            // on distinct axis samples the grid has no duplicate vertex, so the
            // dedup pass is a no-op and the build is the cache and fetch passes alone
            &&& (pairwise_distinct(axis@) ==> (t.mesh.indices@, t.mesh.vertices@)
                == fetch_order_of(
                cache_order_of(
                    gi,
                    (grid_width(spec.resolution) * grid_width(spec.resolution)) as usize,
                ),
                gv,
            ))
            // every vertex of both output buffers, texture coordinates
            // included, is one of the grid's vertices
            &&& vertices_from(t.mesh.vertices@, gv)
            &&& vertices_from(t.shading_mesh.vertices@, gv)
        },
{
    proof {
        if spec.resolution >= 1 {
            assert(grid_width(spec.resolution) * grid_width(spec.resolution) <= 6 * (
            spec.resolution as int) * (spec.resolution as int)) by (nonlinear_arith)
                requires
                    spec.resolution >= 1,
            ;
        } else {
            assert(spec.resolution == 0);
            assert(grid_width(spec.resolution) == 1);
            assert(grid_width(spec.resolution) * grid_width(spec.resolution) == 1)
                by (nonlinear_arith)
                requires
                    grid_width(spec.resolution) == 1,
            ;
        }
    }
    let g = match build_grid(spec, axis, heights) {
        Err(e) => {
            return Err(e);
        },
        Ok(g) => g,
    };
    proof {
        lemma_grid_indices_wf(spec.resolution);
    }
    let m = match optimize_mesh(&g.vertices, &g.indices) {
        Err(_) => {
            proof {
                assert(false);
            }
            return Err(TerrainError::InvalidSpec);
        },
        Ok(m) => m,
    };
    let shading_mesh = match prepare_shading_mesh(&m, mode) {
        Err(_) => {
            proof {
                assert(false);
            }
            return Err(TerrainError::InvalidSpec);
        },
        Ok(s) => s,
    };
    let (collider, skipped_triangles) = match extract_collider(&m) {
        Err(_) => {
            proof {
                assert(false);
            }
            return Err(TerrainError::InvalidSpec);
        },
        Ok(p) => p,
    };
    proof {
        if pairwise_distinct(axis@) {
            lemma_grid_triangles_distinct(axis@, heights@, spec.resolution);
            lemma_grid_vertices_distinct(axis@, heights@, spec.resolution);
        }
        // two triangles per cell: the index buffer is read in triples
        let res = spec.resolution as int;
        assert(6 * res * res == 3 * (2 * res * res) + 0) by (nonlinear_arith);
        vstd::arithmetic::div_mod::lemma_fundamental_div_mod_converse(
            6 * res * res,
            3,
            2 * res * res,
            0,
        );
        assert(index_triples(m.indices@).len() == 2 * res * res);
        // the shading buffer holds only mesh vertices in either mode, and
        // every mesh vertex is a grid vertex
        let gv = grid_vertices(axis@, heights@, spec.resolution);
        assert(g.vertices@ == gv);
        assert(vertices_from(m.vertices@, gv));
        assert forall|j: int|
            0 <= j < shading_mesh.vertices@.len() implies gv.contains(
            #[trigger] shading_mesh.vertices@[j],
        ) by {
            let jj: int = if mode == NormalMode::Flat {
                m.indices@[j] as int
            } else {
                j
            };
            assert(0 <= jj < m.vertices@.len());
            assert(shading_mesh.vertices@[j] == m.vertices@[jj]);
            assert(gv.contains(m.vertices@[jj]));
        }
        assert(vertices_from(shading_mesh.vertices@, gv));
    }
    Ok(TerrainBuild { mesh: m, shading_mesh, collider, skipped_triangles })
}

/// Determinism: the contract of `build_terrain` admits exactly one result for
/// one set of inputs. Any two builds that meet `terrain_build_post` for the
/// same spec, axis samples, height buffer, and normal mode carry the same
/// buffers, bit for bit.
pub proof fn lemma_build_terrain_deterministic(
    spec: TerrainSpec,
    axis: Seq<AxisSample>,
    heights: Seq<u32>,
    mode: NormalMode,
    t1: TerrainBuild,
    t2: TerrainBuild,
)
    requires
        terrain_build_post(spec, axis, heights, mode, t1),
        terrain_build_post(spec, axis, heights, mode, t2),
    ensures
        t1.mesh.vertices@ == t2.mesh.vertices@,
        t1.mesh.indices@ == t2.mesh.indices@,
        t1.shading_mesh.vertices@ == t2.shading_mesh.vertices@,
        t1.shading_mesh.indices@ == t2.shading_mesh.indices@,
        t1.collider.vertices@ == t2.collider.vertices@,
        t1.collider.triangles@ == t2.collider.triangles@,
        t1.skipped_triangles == t2.skipped_triangles,
{
}

} // verus!
