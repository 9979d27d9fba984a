use vstd::prelude::*;

use crate::optimize::all_triples_nondegenerate;
use crate::types::{
    index_triples, mesh_wf, nondegenerate_triple, position_of, ColliderMesh, OptimizedMesh,
    TerrainError, Vertex,
};

verus! {

/// A sequence whose elements all satisfy a predicate is its own filtrate.
proof fn lemma_filter_all<A>(s: Seq<A>, p: spec_fn(A) -> bool)
    requires
        forall|i: int| 0 <= i < s.len() ==> p(#[trigger] s[i]),
    ensures
        s.filter(p) == s,
    decreases s.len(),
{
    if s.len() == 0 {
        s.lemma_filter_len(p);
        assert(s.filter(p) =~= s);
    } else {
        lemma_filter_all(s.drop_last(), p);
        s.drop_last().lemma_filter_push(s.last(), p);
        assert(s.drop_last().push(s.last()) =~= s);
        assert(s.filter(p) =~= s);
    }
}

/// Converts an optimized mesh into the triangle list a physics backend
/// consumes: the bare vertex positions, and one index triple per triangle.
///
/// Buffers that do not describe whole triangles over the vertex buffer fail
/// with `StructuralIntegrity`. Triangles that repeat a vertex index would
/// destabilize collision narrow-phase work; they are excluded from the list
/// and counted, never handed on. A mesh with no degenerate triangle keeps its
/// full triangle count and a count of zero.
pub fn extract_collider(mesh: &OptimizedMesh) -> (out: Result<(ColliderMesh, usize), TerrainError>)
    ensures
        out is Err <==> !mesh_wf(mesh.indices@, mesh.vertices@.len() as int),
        out is Err ==> out == Err::<(ColliderMesh, usize), TerrainError>(
            TerrainError::StructuralIntegrity,
        ),
        out matches Ok((c, skipped)) ==> {
            &&& c.vertices@ == mesh.vertices@.map_values(|v: Vertex| position_of(v))
            &&& c.triangles@ == index_triples(mesh.indices@).filter(
                |t: (u32, u32, u32)| nondegenerate_triple(t),
            )
            &&& skipped + c.triangles@.len() == index_triples(mesh.indices@).len()
            &&& (all_triples_nondegenerate(mesh.indices@) ==> skipped == 0)
        },
{
    if mesh.indices.len() % 3 != 0 {
        return Err(TerrainError::StructuralIntegrity);
    }
    let mut k: usize = 0;
    while k < mesh.indices.len()
        invariant
            k <= mesh.indices@.len(),
            forall|j: int| 0 <= j < k ==> (#[trigger] mesh.indices@[j]) < mesh.vertices@.len(),
        decreases mesh.indices@.len() - k,
    {
        if mesh.indices[k] as usize >= mesh.vertices.len() {
            return Err(TerrainError::StructuralIntegrity);
        }
        k = k + 1;
    }

    let mut vertices: Vec<(u32, u32, u32)> = Vec::new();
    let mut i: usize = 0;
    while i < mesh.vertices.len()
        invariant
            i <= mesh.vertices@.len(),
            vertices@.len() == i,
            forall|j: int| 0 <= j < i ==> vertices@[j] == position_of(#[trigger] mesh.vertices@[j]),
        decreases mesh.vertices@.len() - i,
    {
        let v = mesh.vertices[i];
        vertices.push((v.px, v.py, v.pz));
        i = i + 1;
    }
    proof {
        assert(vertices@ =~= mesh.vertices@.map_values(|v: Vertex| position_of(v)));
    }

    let n_idx = mesh.indices.len();
    let n_tris = n_idx / 3;
    proof {
        vstd::arithmetic::div_mod::lemma_fundamental_div_mod(n_idx as int, 3);
    }
    let mut triangles: Vec<(u32, u32, u32)> = Vec::new();
    let mut skipped: usize = 0;
    let mut t: usize = 0;
    while t < n_tris
        invariant
            t <= n_tris,
            n_tris == index_triples(mesh.indices@).len(),
            n_idx == mesh.indices@.len(),
            3 * n_tris == n_idx,
            triangles@ == index_triples(mesh.indices@).take(t as int).filter(
                |t: (u32, u32, u32)| nondegenerate_triple(t),
            ),
            skipped + triangles@.len() == t,
        decreases n_tris - t,
    {
        let a = mesh.indices[3 * t];
        let b = mesh.indices[3 * t + 1];
        let c = mesh.indices[3 * t + 2];
        proof {
            let tris = index_triples(mesh.indices@);
            assert(tris[t as int] == (a, b, c));
            assert(tris.take(t as int + 1) =~= tris.take(t as int).push((a, b, c)));
            tris.take(t as int).lemma_filter_push(
                (a, b, c),
                |t: (u32, u32, u32)| nondegenerate_triple(t),
            );
        }
        if a != b && a != c && b != c {
            triangles.push((a, b, c));
        } else {
            skipped = skipped + 1;
        }
        t = t + 1;
    }
    proof {
        let tris = index_triples(mesh.indices@);
        assert(tris.take(n_tris as int) =~= tris);
        if all_triples_nondegenerate(mesh.indices@) {
            lemma_filter_all(tris, |t: (u32, u32, u32)| nondegenerate_triple(t));
        }
    }
    Ok((ColliderMesh { vertices, triangles }, skipped))
}

} // verus!
