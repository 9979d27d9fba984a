use vstd::prelude::*;

use crate::optimize::{all_triples_nondegenerate, lemma_position_triangles_pointwise};
use crate::types::{index_triples, mesh_wf, position_triangles, OptimizedMesh, TerrainError, Vertex};

verus! {

/// How per-vertex normals are to be derived from the mesh. The two modes are
/// mutually exclusive: smooth shading accumulates face normals into the
/// shared vertices as they stand, flat shading first splits every vertex per
/// triangle so each duplicate can carry its own face normal.
#[derive(Clone, Copy, PartialEq, Eq, Structural, Debug)]
pub enum NormalMode {
    Smooth,
    Flat,
}

/// The vertex buffer of the flat-shading expansion: one vertex per index
/// slot, holding the vertex that slot fetched.
pub open spec fn flat_vertices(verts: Seq<Vertex>, idx: Seq<u32>) -> Seq<Vertex> {
    Seq::new(idx.len(), |k: int| verts[idx[k] as int])
}

/// The index buffer of the flat-shading expansion: each slot addresses its
/// own duplicate, in order.
pub open spec fn identity_indices(n: int) -> Seq<u32> {
    Seq::new(n as nat, |k: int| k as u32)
}

/// Lays the mesh out for the chosen normal mode. Smooth shading keeps the
/// buffers as they are. Flat shading duplicates every vertex per triangle
/// (a threefold-per-triangle expansion) and renumbers the indices 0, 1, 2, …
/// so that each duplicate can take its triangle's face normal; the triangles
/// drawn, read in position space, stay exactly the same, slot for slot.
///
/// Buffers that do not describe whole triangles over the vertex buffer fail
/// with `StructuralIntegrity`.
pub fn prepare_shading_mesh(mesh: &OptimizedMesh, mode: NormalMode) -> (out: Result<
    OptimizedMesh,
    TerrainError,
>)
    requires
        mesh.indices@.len() <= u32::MAX,
    ensures
        out is Err <==> !mesh_wf(mesh.indices@, mesh.vertices@.len() as int),
        out is Err ==> out == Err::<OptimizedMesh, TerrainError>(TerrainError::StructuralIntegrity),
        out matches Ok(m) ==> {
            &&& (mode == NormalMode::Smooth ==> m.vertices@ == mesh.vertices@ && m.indices@
                == mesh.indices@)
            &&& (mode == NormalMode::Flat ==> m.vertices@ == flat_vertices(
                mesh.vertices@,
                mesh.indices@,
            ) && m.indices@ == identity_indices(mesh.indices@.len() as int))
            &&& (mode == NormalMode::Flat ==> all_triples_nondegenerate(m.indices@))
            &&& mesh_wf(m.indices@, m.vertices@.len() as int)
            &&& position_triangles(m.vertices@, m.indices@) == position_triangles(
                mesh.vertices@,
                mesh.indices@,
            )
        },
{
    if mesh.indices.len() % 3 != 0 {
        return Err(TerrainError::StructuralIntegrity);
    }
    let mut k: usize = 0;
    while k < mesh.indices.len()
        invariant
            k <= mesh.indices@.len(),
            forall|j: int| 0 <= j < k ==> (#[trigger] mesh.indices@[j]) < mesh.vertices@.len(),
        decreases mesh.indices@.len() - k,
    {
        if mesh.indices[k] as usize >= mesh.vertices.len() {
            return Err(TerrainError::StructuralIntegrity);
        }
        k = k + 1;
    }

    match mode {
        NormalMode::Smooth => {
            let mut vertices: Vec<Vertex> = Vec::new();
            let mut i: usize = 0;
            while i < mesh.vertices.len()
                invariant
                    i <= mesh.vertices@.len(),
                    vertices@ == mesh.vertices@.take(i as int),
                decreases mesh.vertices@.len() - i,
            {
                vertices.push(mesh.vertices[i]);
                proof {
                    assert(mesh.vertices@.take(i + 1) =~= mesh.vertices@.take(i as int).push(
                        mesh.vertices@[i as int],
                    ));
                }
                i = i + 1;
            }
            let mut indices: Vec<u32> = Vec::new();
            let mut j: usize = 0;
            while j < mesh.indices.len()
                invariant
                    j <= mesh.indices@.len(),
                    indices@ == mesh.indices@.take(j as int),
                decreases mesh.indices@.len() - j,
            {
                indices.push(mesh.indices[j]);
                proof {
                    assert(mesh.indices@.take(j + 1) =~= mesh.indices@.take(j as int).push(
                        mesh.indices@[j as int],
                    ));
                }
                j = j + 1;
            }
            proof {
                assert(vertices@ =~= mesh.vertices@);
                assert(indices@ =~= mesh.indices@);
            }
            Ok(OptimizedMesh { vertices, indices })
        },
        NormalMode::Flat => {
            let n = mesh.indices.len();
            let mut vertices: Vec<Vertex> = Vec::new();
            let mut indices: Vec<u32> = Vec::new();
            let mut j: usize = 0;
            while j < n
                invariant
                    j <= n,
                    n == mesh.indices@.len(),
                    n <= u32::MAX,
                    forall|kk: int|
                        0 <= kk < n ==> (#[trigger] mesh.indices@[kk]) < mesh.vertices@.len(),
                    vertices@.len() == j,
                    indices@.len() == j,
                    forall|kk: int|
                        0 <= kk < j ==> vertices@[kk] == flat_vertices(
                            mesh.vertices@,
                            mesh.indices@,
                        )[kk],
                    forall|kk: int| 0 <= kk < j ==> indices@[kk] == kk as u32,
                decreases n - j,
            {
                let vi = mesh.indices[j] as usize;
                vertices.push(mesh.vertices[vi]);
                indices.push(j as u32);
                j = j + 1;
            }
            proof {
                assert(vertices@ =~= flat_vertices(mesh.vertices@, mesh.indices@));
                assert(indices@ =~= identity_indices(mesh.indices@.len() as int));
                assert forall|kk: int| 0 <= kk < indices@.len() implies (#[trigger] indices@[kk])
                    < vertices@.len() by {}
                lemma_position_triangles_pointwise(
                    vertices@,
                    indices@,
                    mesh.vertices@,
                    mesh.indices@,
                );
                lemma_flat_expansion_nondegenerate(mesh.indices@);
            }
            Ok(OptimizedMesh { vertices, indices })
        },
    }
}

/// In the flat expansion every triangle joins three distinct duplicates, so
/// no triangle is degenerate whatever the source mesh held.
pub proof fn lemma_flat_expansion_nondegenerate(idx: Seq<u32>)
    requires
        idx.len() <= u32::MAX,
    ensures
        all_triples_nondegenerate(identity_indices(idx.len() as int)),
{
    let ident = identity_indices(idx.len() as int);
    assert forall|t: int|
        0 <= t < index_triples(ident).len() implies crate::types::nondegenerate_triple(
        #[trigger] index_triples(ident)[t],
    ) by {
        vstd::arithmetic::div_mod::lemma_fundamental_div_mod(ident.len() as int, 3);
        assert(0 <= 3 * t && 3 * t + 2 < ident.len());
        assert(index_triples(ident)[t].0 == ident[3 * t]);
        assert(ident[3 * t] == (3 * t) as u32);
        assert(ident[3 * t + 1] == (3 * t + 1) as u32);
        assert(ident[3 * t + 2] == (3 * t + 2) as u32);
    }
}

} // verus!
