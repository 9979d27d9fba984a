use vstd::prelude::*;

use crate::types::{
    index_triples, indices_in_range, mesh_wf, nondegenerate_triple, pairwise_distinct, position_of,
    position_triangles, triangles_vertex_distinct, vertex_triple, vertices_from, OptimizedMesh,
    TerrainError, Vertex,
};

verus! {

/// What `meshopt::generate_vertex_remap` returns for a vertex buffer: the
/// number of distinct vertices and the old-to-new remap table. The result is
/// a function of the vertex bytes alone.
pub uninterp spec fn vertex_remap_of(vertices: Seq<Vertex>) -> (usize, Seq<u32>);

/// What `meshopt::optimize_vertex_cache` returns for an index buffer: the
/// cache-friendly triangle order. The result is a function of the index
/// buffer and the vertex count alone.
pub uninterp spec fn cache_order_of(indices: Seq<u32>, vertex_count: usize) -> Seq<u32>;

/// What `meshopt::optimize_vertex_fetch` produces for an index buffer over a
/// vertex buffer: the rewritten indices and the fetch-ordered vertex buffer.
/// The result is a function of the two buffers alone.
pub uninterp spec fn fetch_order_of(indices: Seq<u32>, vertices: Seq<Vertex>) -> (
    Seq<u32>,
    Seq<Vertex>,
);

/// Some slot of the table holds the value `v`.
pub open spec fn covers(table: Seq<u32>, v: int) -> bool {
    exists|i: int| 0 <= i < table.len() && (#[trigger] table[i]) == v
}

/// No earlier slot of the sequence holds the same value: slot `i` is where
/// its value first occurs.
pub open spec fn first_occurrence<A>(s: Seq<A>, i: int) -> bool {
    forall|y: int| 0 <= y < i ==> (#[trigger] s[y]) != s[i]
}

/// The vertex buffer that storing `verts[i]` at slot `rm[i]` fills, when
/// every slot below `count` is hit: slot `j` holds the vertex of any table
/// entry that maps to `j`.
pub open spec fn remapped_vertex_buffer(verts: Seq<Vertex>, count: usize, rm: Seq<u32>) -> Seq<
    Vertex,
> {
    Seq::new(
        count as nat,
        |j: int| verts[choose|i: int| 0 <= i < rm.len() && (#[trigger] rm[i]) == j],
    )
}

/// Relies on `meshopt::generate_vertex_remap` (`meshopt_generateVertexRemap`
/// with no index buffer): produces a remap table in which bit-identical
/// vertices share one new index, new indices are assigned first-occurrence
/// first, every table entry is below the returned distinct-vertex count, and
/// no value below that count is skipped. The new indices are dense 32-bit
/// ids, so the buffer must not hold more slots than they can count.
#[verifier::external_body]
fn vertex_remap(vertices: &Vec<Vertex>) -> (out: (usize, Vec<u32>))
    requires
        vertices@.len() <= u32::MAX,
    ensures
        (out.0, out.1@) == vertex_remap_of(vertices@),
        out.1@.len() == vertices@.len(),
        out.0 <= vertices@.len(),
        forall|i: int| 0 <= i < out.1@.len() ==> (#[trigger] out.1@[i]) < out.0,
        forall|i: int, j: int|
            #![trigger out.1@[i], out.1@[j]]
            0 <= i < vertices@.len() && 0 <= j < vertices@.len() ==> ((out.1@[i] == out.1@[j])
                <==> vertices@[i] == vertices@[j]),
        forall|v: int| 0 <= v < out.0 ==> #[trigger] covers(out.1@, v),
        forall|i: int, j: int|
            #![trigger out.1@[i], out.1@[j]]
            0 <= i < j < vertices@.len() && first_occurrence(vertices@, i) && first_occurrence(
                vertices@,
                j,
            ) ==> out.1@[i] < out.1@[j],
{
    let data: Vec<[u32; 5]> = vertices.iter().map(|v| [v.px, v.py, v.pz, v.tu, v.tv]).collect();
    meshopt::generate_vertex_remap(&data, None)
}

/// Rewrites each index through the remap table: slot `k` of the result holds
/// `remap[indices[k]]`.
fn remap_indices(indices: &Vec<u32>, remap: &Vec<u32>) -> (out: Vec<u32>)
    requires
        forall|k: int| 0 <= k < indices@.len() ==> (#[trigger] indices@[k]) < remap@.len(),
    ensures
        out@ == indices@.map_values(|x: u32| remap@[x as int]),
{
    let mut out: Vec<u32> = Vec::new();
    let mut k: usize = 0;
    while k < indices.len()
        invariant
            k <= indices@.len(),
            out@.len() == k,
            forall|k2: int| 0 <= k2 < indices@.len() ==> (#[trigger] indices@[k2]) < remap@.len(),
            forall|k2: int| 0 <= k2 < k ==> out@[k2] == remap@[#[trigger] indices@[k2] as int],
        decreases indices@.len() - k,
    {
        let x = indices[k] as usize;
        out.push(remap[x]);
        k = k + 1;
    }
    proof {
        assert(out@ =~= indices@.map_values(|x: u32| remap@[x as int]));
    }
    out
}

/// Scatters each vertex to its remapped slot: slot `remap[i]` of the result
/// holds `vertices[i]`. Slots that share a remap target must hold equal
/// vertices — merging is only for duplicates — so the scatter is unambiguous.
fn remap_vertices(vertices: &Vec<Vertex>, vertex_count: usize, remap: &Vec<u32>) -> (out: Vec<
    Vertex,
>)
    requires
        remap@.len() == vertices@.len(),
        forall|i: int| 0 <= i < remap@.len() ==> (#[trigger] remap@[i]) < vertex_count,
        forall|i: int, j: int|
            #![trigger remap@[i], remap@[j]]
            0 <= i < remap@.len() && 0 <= j < remap@.len() && remap@[i] == remap@[j]
                ==> vertices@[i] == vertices@[j],
    ensures
        out@.len() == vertex_count,
        forall|i: int|
            0 <= i < vertices@.len() ==> out@[remap@[i] as int] == #[trigger] vertices@[i],
{
    let mut out: Vec<Vertex> = Vec::new();
    let mut j: usize = 0;
    while j < vertex_count
        invariant
            j <= vertex_count,
            out@.len() == j,
        decreases vertex_count - j,
    {
        out.push(Vertex { px: 0, py: 0, pz: 0, tu: 0, tv: 0 });
        j = j + 1;
    }
    let mut i: usize = 0;
    while i < vertices.len()
        invariant
            i <= vertices@.len(),
            out@.len() == vertex_count,
            remap@.len() == vertices@.len(),
            forall|i2: int| 0 <= i2 < remap@.len() ==> (#[trigger] remap@[i2]) < vertex_count,
            forall|i2: int, j2: int|
                #![trigger remap@[i2], remap@[j2]]
                0 <= i2 < remap@.len() && 0 <= j2 < remap@.len() && remap@[i2] == remap@[j2]
                    ==> vertices@[i2] == vertices@[j2],
            forall|i2: int|
                0 <= i2 < i ==> out@[remap@[i2] as int] == #[trigger] vertices@[i2],
        decreases vertices@.len() - i,
    {
        let slot = remap[i] as usize;
        out[slot] = vertices[i];
        proof {
            assert forall|i2: int|
                0 <= i2 < i + 1 implies out@[remap@[i2] as int] == #[trigger] vertices@[i2] by {
                if remap@[i2] == remap@[i as int] {
                    assert(vertices@[i2] == vertices@[i as int]);
                }
            }
        }
        i = i + 1;
    }
    out
}

/// Relies on `meshopt::optimize_vertex_cache` (`meshopt_optimizeVertexCache`):
/// emits every input triangle exactly once, each with its three indices
/// unchanged and in their original order; only the order of the triangles
/// changes.
#[verifier::external_body]
fn cache_optimize(indices: &Vec<u32>, vertex_count: usize) -> (out: Vec<u32>)
    requires
        indices@.len() % 3 == 0,
        indices@.len() > 0 ==> vertex_count > 0,
        forall|k: int| 0 <= k < indices@.len() ==> (#[trigger] indices@[k]) < vertex_count,
    ensures
        out@ == cache_order_of(indices@, vertex_count),
        out@.len() == indices@.len(),
        index_triples(out@).to_multiset() == index_triples(indices@).to_multiset(),
{
    meshopt::optimize_vertex_cache(indices, vertex_count)
}

/// Relies on `meshopt::optimize_vertex_fetch` (`meshopt_optimizeVertexFetch`):
/// renumbers the referenced vertices by first use in the index stream,
/// rewrites the indices in place to that numbering, and returns the reordered
/// vertex buffer with unreferenced vertices dropped. Old indices are equal
/// exactly when the rewritten ones are; every rewritten index fetches the
/// vertex its old index addressed; new ids are minted at first uses in
/// increasing order 0, 1, 2, …; and every id below the returned vertex count
/// occurs in the rewritten stream.
#[verifier::external_body]
fn fetch_optimize(indices: &mut Vec<u32>, vertices: &Vec<Vertex>) -> (out: Vec<Vertex>)
    requires
        old(indices)@.len() % 3 == 0,
        forall|k: int|
            0 <= k < old(indices)@.len() ==> (#[trigger] old(indices)@[k]) < vertices@.len(),
    ensures
        (final(indices)@, out@) == fetch_order_of(old(indices)@, vertices@),
        final(indices)@.len() == old(indices)@.len(),
        out@.len() <= vertices@.len(),
        forall|k: int|
            0 <= k < final(indices)@.len() ==> (#[trigger] final(indices)@[k]) < out@.len(),
        forall|k: int|
            0 <= k < final(indices)@.len() ==> out@[#[trigger] final(indices)@[k] as int]
                == vertices@[old(indices)@[k] as int],
        forall|k1: int, k2: int|
            #![trigger final(indices)@[k1], final(indices)@[k2]]
            0 <= k1 < final(indices)@.len() && 0 <= k2 < final(indices)@.len() ==> ((final(indices)@[k1] == final(indices)@[k2]) <==> (old(indices)@[k1] == old(indices)@[k2])),
        forall|v: int| 0 <= v < out@.len() ==> #[trigger] covers(final(indices)@, v),
        forall|k1: int, k2: int|
            #![trigger final(indices)@[k1], final(indices)@[k2]]
            0 <= k1 < k2 < final(indices)@.len() && first_occurrence(final(indices)@, k1)
                && first_occurrence(final(indices)@, k2) ==> final(indices)@[k1] < final(indices)@[k2],
{
    let data: Vec<[u32; 5]> = vertices.iter().map(|v| [v.px, v.py, v.pz, v.tu, v.tv]).collect();
    let res = meshopt::optimize_vertex_fetch(indices.as_mut_slice(), &data);
    res.iter().map(|a| Vertex { px: a[0], py: a[1], pz: a[2], tu: a[3], tv: a[4] }).collect()
}

/// The mesh the optimizer owes for the given buffers: duplicate vertices
/// merged through the remap table, triangles reordered for the vertex cache,
/// vertices reordered for fetch locality, in that order. First component the
/// vertex buffer, second the index buffer.
pub open spec fn optimized_of(verts: Seq<Vertex>, idx: Seq<u32>) -> (Seq<Vertex>, Seq<u32>) {
    let uc = vertex_remap_of(verts).0;
    let rm = vertex_remap_of(verts).1;
    let vb1 = remapped_vertex_buffer(verts, uc, rm);
    let idx1 = idx.map_values(|x: u32| rm[x as int]);
    let idx2 = cache_order_of(idx1, uc);
    let fo = fetch_order_of(idx2, vb1);
    (fo.1, fo.0)
}

/// Every triangle of the buffer joins three pairwise distinct vertex indices.
pub open spec fn all_triples_nondegenerate(idx: Seq<u32>) -> bool {
    forall|t: int|
        0 <= t < index_triples(idx).len() ==> nondegenerate_triple(#[trigger] index_triples(idx)[t])
}

/// Mapping a function over two sequences that hold the same multiset of
/// elements yields the same multiset of images.
proof fn lemma_map_values_to_multiset_eq<A, B>(s1: Seq<A>, s2: Seq<A>, f: spec_fn(A) -> B)
    requires
        s1.to_multiset() == s2.to_multiset(),
    ensures
        s1.map_values(f).to_multiset() == s2.map_values(f).to_multiset(),
    decreases s1.len(),
{
    broadcast use vstd::multiset::group_multiset_axioms;

    vstd::seq_lib::to_multiset_len(s1);
    vstd::seq_lib::to_multiset_len(s2);
    if s1.len() == 0 {
        assert(s1.map_values(f) =~= s2.map_values(f));
    } else {
        let i1 = s1.len() - 1;
        let a = s1[i1];
        assert(s1.contains(a));
        vstd::seq_lib::to_multiset_contains(s1, a);
        vstd::seq_lib::to_multiset_contains(s2, a);
        assert(s2.contains(a));
        let i2 = choose|i: int| 0 <= i < s2.len() && s2[i] == a;
        vstd::seq_lib::to_multiset_remove(s1, i1);
        vstd::seq_lib::to_multiset_remove(s2, i2);
        lemma_map_values_to_multiset_eq(s1.remove(i1), s2.remove(i2), f);
        assert(s1.remove(i1).map_values(f) =~= s1.map_values(f).remove(i1));
        assert(s2.remove(i2).map_values(f) =~= s2.map_values(f).remove(i2));
        vstd::seq_lib::to_multiset_remove(s1.map_values(f), i1);
        vstd::seq_lib::to_multiset_remove(s2.map_values(f), i2);
        let b = f(a);
        assert(s1.map_values(f)[i1] == b);
        assert(s2.map_values(f)[i2] == b);
        assert(s1.map_values(f).contains(b));
        assert(s2.map_values(f).contains(b));
        vstd::seq_lib::to_multiset_contains(s1.map_values(f), b);
        vstd::seq_lib::to_multiset_contains(s2.map_values(f), b);
        let m1 = s1.map_values(f).to_multiset();
        let m2 = s2.map_values(f).to_multiset();
        assert(m1.remove(b) == m2.remove(b));
        assert forall|x: B| m1.count(x) == m2.count(x) by {
            if x == b {
                assert(m1.count(b) == m1.remove(b).count(b) + 1);
                assert(m2.count(b) == m2.remove(b).count(b) + 1);
            } else {
                assert(m1.count(x) == m1.remove(b).count(x));
                assert(m2.count(x) == m2.remove(b).count(x));
            }
        }
        assert(m1 =~= m2);
    }
}

/// Index-range validity and freedom from degenerate triangles carry over to
/// any index buffer that holds the same multiset of triangles.
proof fn lemma_triples_transfer(a: Seq<u32>, b: Seq<u32>, n: int)
    requires
        a.len() % 3 == 0,
        b.len() % 3 == 0,
        index_triples(a).to_multiset() == index_triples(b).to_multiset(),
    ensures
        indices_in_range(b, n) ==> indices_in_range(a, n),
        all_triples_nondegenerate(b) ==> all_triples_nondegenerate(a),
{
    if all_triples_nondegenerate(b) {
        assert forall|t: int|
            0 <= t < index_triples(a).len() implies nondegenerate_triple(
            #[trigger] index_triples(a)[t],
        ) by {
            let tri = index_triples(a)[t];
            assert(index_triples(a).contains(tri));
            vstd::seq_lib::to_multiset_contains(index_triples(a), tri);
            vstd::seq_lib::to_multiset_contains(index_triples(b), tri);
            assert(index_triples(b).contains(tri));
            let u = choose|u: int| 0 <= u < index_triples(b).len() && index_triples(b)[u] == tri;
            assert(nondegenerate_triple(index_triples(b)[u]));
        }
    }
    if indices_in_range(b, n) {
        assert forall|k: int| 0 <= k < a.len() implies (#[trigger] a[k]) < n by {
            let t = k / 3;
            let r = k % 3;
            vstd::arithmetic::div_mod::lemma_fundamental_div_mod(k, 3);
            vstd::arithmetic::div_mod::lemma_fundamental_div_mod(a.len() as int, 3);
            assert(0 <= t < index_triples(a).len());
            let tri = index_triples(a)[t];
            assert(a[k] == if r == 0 {
                tri.0
            } else if r == 1 {
                tri.1
            } else {
                tri.2
            });
            assert(index_triples(a).contains(tri));
            vstd::seq_lib::to_multiset_contains(index_triples(a), tri);
            vstd::seq_lib::to_multiset_contains(index_triples(b), tri);
            assert(index_triples(b).contains(tri));
            let u = choose|u: int| 0 <= u < index_triples(b).len() && index_triples(b)[u] == tri;
            assert(b[3 * u] < n && b[3 * u + 1] < n && b[3 * u + 2] < n);
        }
    }
}

/// On a buffer of pairwise distinct vertices every slot is a first
/// occurrence, so the remap table is strictly increasing and its entries grow
/// at least as fast as their slots.
proof fn lemma_remap_gap(verts: Seq<Vertex>, rm: Seq<u32>, i: int, j: int)
    requires
        pairwise_distinct(verts),
        rm.len() == verts.len(),
        forall|a: int, b: int|
            #![trigger rm[a], rm[b]]
            0 <= a < b < verts.len() && first_occurrence(verts, a) && first_occurrence(verts, b)
                ==> rm[a] < rm[b],
        0 <= i <= j < verts.len(),
    ensures
        rm[j] >= rm[i] + (j - i),
    decreases j - i,
{
    if i < j {
        lemma_remap_gap(verts, rm, i, j - 1);
        assert(first_occurrence(verts, j - 1)) by {
            assert forall|y: int| 0 <= y < j - 1 implies (#[trigger] verts[y]) != verts[j - 1] by {}
        }
        assert(first_occurrence(verts, j)) by {
            assert forall|y: int| 0 <= y < j implies (#[trigger] verts[y]) != verts[j] by {}
        }
        assert(rm[j - 1] < rm[j]);
    }
}

/// Two index buffers that fetch, slot for slot, the same vertices from their
/// vertex buffers describe the same triangles in position space.
pub(crate) proof fn lemma_position_triangles_pointwise(
    v1: Seq<Vertex>,
    i1: Seq<u32>,
    v2: Seq<Vertex>,
    i2: Seq<u32>,
)
    requires
        i1.len() == i2.len(),
        forall|k: int| 0 <= k < i1.len() ==> (#[trigger] i1[k]) < v1.len(),
        forall|k: int| 0 <= k < i2.len() ==> (#[trigger] i2[k]) < v2.len(),
        forall|k: int| 0 <= k < i1.len() ==> v1[#[trigger] i1[k] as int] == v2[i2[k] as int],
    ensures
        position_triangles(v1, i1) == position_triangles(v2, i2),
{
    assert forall|t: int|
        0 <= t < i1.len() / 3 implies position_triangles(v1, i1)[t] == position_triangles(
        v2,
        i2,
    )[t] by {
        vstd::arithmetic::div_mod::lemma_fundamental_div_mod(i1.len() as int, 3);
        assert(0 <= 3 * t && 3 * t + 2 < i1.len());
        assert(v1[i1[3 * t] as int] == v2[i2[3 * t] as int]);
        assert(v1[i1[3 * t + 1] as int] == v2[i2[3 * t + 1] as int]);
        assert(v1[i1[3 * t + 2] as int] == v2[i2[3 * t + 2] as int]);
    }
    assert(position_triangles(v1, i1) =~= position_triangles(v2, i2));
}

/// Runs the whole optimizer over a mesh: merges bit-identical vertices
/// through a remap table, rewrites the index buffer through it, reorders the
/// triangles for a GPU vertex cache, and reorders the vertices for fetch
/// locality. Buffers that do not describe whole triangles over the vertex
/// buffer fail fast with `StructuralIntegrity`; otherwise the result is the
/// mesh `optimized_of` pins down, it is well formed, and it draws exactly the
/// triangles of the input: the multiset of its position-space triangles is
/// unchanged. A mesh whose triangles never join two bit-identical vertices
/// comes out with no degenerate triangle.
pub fn optimize_mesh(vertices: &Vec<Vertex>, indices: &Vec<u32>) -> (out: Result<
    OptimizedMesh,
    TerrainError,
>)
    requires
        vertices@.len() <= u32::MAX,  // the remap table and index buffers carry 32-bit ids
    ensures
        out is Err <==> !mesh_wf(indices@, vertices@.len() as int),
        out is Err ==> out == Err::<OptimizedMesh, TerrainError>(TerrainError::StructuralIntegrity),
        out matches Ok(m) ==> {
            &&& (m.vertices@, m.indices@) == optimized_of(vertices@, indices@)
            &&& m.indices@.len() == indices@.len()
            &&& m.vertices@.len() <= vertices@.len()
            &&& mesh_wf(m.indices@, m.vertices@.len() as int)
            &&& position_triangles(m.vertices@, m.indices@).to_multiset() == position_triangles(
                vertices@,
                indices@,
            ).to_multiset()
            &&& (triangles_vertex_distinct(vertices@, indices@) ==> all_triples_nondegenerate(
                m.indices@,
            ))
            &&& (pairwise_distinct(vertices@) ==> (m.indices@, m.vertices@) == fetch_order_of(
                cache_order_of(indices@, vertices@.len() as usize),
                vertices@,
            ))
            &&& vertices_from(m.vertices@, vertices@)
            &&& forall|v: int| 0 <= v < m.vertices@.len() ==> #[trigger] covers(m.indices@, v)
            &&& forall|k1: int, k2: int|
                #![trigger m.indices@[k1], m.indices@[k2]]
                0 <= k1 < k2 < m.indices@.len() && first_occurrence(m.indices@, k1)
                    && first_occurrence(m.indices@, k2) ==> m.indices@[k1] < m.indices@[k2]
        },
{
    if indices.len() % 3 != 0 {
        return Err(TerrainError::StructuralIntegrity);
    }
    let mut k: usize = 0;
    while k < indices.len()
        invariant
            k <= indices@.len(),
            forall|j: int| 0 <= j < k ==> (#[trigger] indices@[j]) < vertices@.len(),
        decreases indices@.len() - k,
    {
        if indices[k] as usize >= vertices.len() {
            return Err(TerrainError::StructuralIntegrity);
        }
        k = k + 1;
    }

    let rm_pair = vertex_remap(vertices);
    let uc = rm_pair.0;
    let rm = rm_pair.1;
    let idx1 = remap_indices(indices, &rm);
    let vb1 = remap_vertices(vertices, uc, &rm);
    proof {
        assert forall|j: int| 0 <= j < uc implies vb1@[j] == remapped_vertex_buffer(
            vertices@,
            uc,
            rm@,
        )[j] by {
            assert(covers(rm@, j));
            let i0 = choose|i: int| 0 <= i < rm@.len() && (#[trigger] rm@[i]) == j;
            assert(vb1@[rm@[i0] as int] == vertices@[i0]);
        }
        assert(vb1@ =~= remapped_vertex_buffer(vertices@, uc, rm@));
        assert forall|kk: int| 0 <= kk < idx1@.len() implies (#[trigger] idx1@[kk]) < uc by {
            assert(idx1@[kk] == rm@[indices@[kk] as int]);
        }
        if idx1@.len() > 0 {
            assert(idx1@[0] < uc);
        }
    }
    let idx2 = cache_optimize(&idx1, uc);
    proof {
        lemma_triples_transfer(idx2@, idx1@, uc as int);
    }
    let mut idx3 = idx2;
    let vb2 = fetch_optimize(&mut idx3, &vb1);

    proof {
        let gv = vertices@;
        let gi = indices@;
        // the grid mesh and the remapped mesh fetch the same vertices slot for slot
        assert forall|kk: int| 0 <= kk < idx1@.len() implies vb1@[#[trigger] idx1@[kk] as int]
            == gv[gi[kk] as int] by {
            assert(idx1@[kk] == rm@[gi[kk] as int]);
            assert(vb1@[rm@[gi[kk] as int] as int] == gv[gi[kk] as int]);
        }
        lemma_position_triangles_pointwise(vb1@, idx1@, gv, gi);
        // the cache pass keeps the triangle multiset, so also in position space
        lemma_map_values_to_multiset_eq(
            index_triples(idx2@),
            index_triples(idx1@),
            |t: (u32, u32, u32)|
                (
                    position_of(vb1@[t.0 as int]),
                    position_of(vb1@[t.1 as int]),
                    position_of(vb1@[t.2 as int]),
                ),
        );
        assert(position_triangles(vb1@, idx2@) =~= index_triples(idx2@).map_values(
            |t: (u32, u32, u32)|
                (
                    position_of(vb1@[t.0 as int]),
                    position_of(vb1@[t.1 as int]),
                    position_of(vb1@[t.2 as int]),
                ),
        ));
        assert(position_triangles(vb1@, idx1@) =~= index_triples(idx1@).map_values(
            |t: (u32, u32, u32)|
                (
                    position_of(vb1@[t.0 as int]),
                    position_of(vb1@[t.1 as int]),
                    position_of(vb1@[t.2 as int]),
                ),
        ));
        // the fetch pass fetches the same vertices slot for slot
        lemma_position_triangles_pointwise(vb2@, idx3@, vb1@, idx2@);
        // degenerate-freedom, pass by pass
        if triangles_vertex_distinct(gv, gi) {
            assert forall|t: int|
                0 <= t < index_triples(idx1@).len() implies nondegenerate_triple(
                #[trigger] index_triples(idx1@)[t],
            ) by {
                vstd::arithmetic::div_mod::lemma_fundamental_div_mod(idx1@.len() as int, 3);
                assert(0 <= 3 * t && 3 * t + 2 < idx1@.len());
                let tri0 = index_triples(gi)[t];
                let vt = vertex_triple(gv, tri0);
                assert(vt.0 != vt.1 && vt.0 != vt.2 && vt.1 != vt.2);
                assert(index_triples(idx1@)[t].0 == rm@[gi[3 * t] as int]);
                assert(index_triples(idx1@)[t].1 == rm@[gi[3 * t + 1] as int]);
                assert(index_triples(idx1@)[t].2 == rm@[gi[3 * t + 2] as int]);
            }
            assert(all_triples_nondegenerate(idx2@));
            assert forall|t: int|
                0 <= t < index_triples(idx3@).len() implies nondegenerate_triple(
                #[trigger] index_triples(idx3@)[t],
            ) by {
                vstd::arithmetic::div_mod::lemma_fundamental_div_mod(idx3@.len() as int, 3);
                assert(0 <= 3 * t && 3 * t + 2 < idx3@.len());
                assert(nondegenerate_triple(index_triples(idx2@)[t]));
                assert(index_triples(idx2@)[t].0 == idx2@[3 * t]);
            }
        }
        // on a duplicate-free vertex buffer the remap table is the identity,
        // so the dedup pass is a no-op and drops out of the composition
        if pairwise_distinct(gv) {
            let n = gv.len() as int;
            if n > 0 {
                lemma_remap_gap(gv, rm@, 0, n - 1);
                assert(uc == n);
                assert forall|i: int| 0 <= i < n implies (#[trigger] rm@[i]) == i by {
                    lemma_remap_gap(gv, rm@, 0, i);
                    lemma_remap_gap(gv, rm@, i, n - 1);
                }
                assert(idx1@ =~= gi);
                assert forall|i: int| 0 <= i < n implies vb1@[i] == gv[i] by {
                    assert(vb1@[rm@[i] as int] == gv[i]);
                }
                assert(vb1@ =~= gv);
            } else {
                if gi.len() > 0 {
                    assert(gi[0] < 0);
                }
                assert(idx1@ =~= gi);
                assert(vb1@ =~= gv);
            }
        }
        // every fetched vertex, texture coordinates included, came from the
        // input buffer: follow its index back through the two passes
        assert forall|j: int| 0 <= j < vb2@.len() implies gv.contains(#[trigger] vb2@[j]) by {
            assert(covers(idx3@, j));
            let k = choose|kk: int| 0 <= kk < idx3@.len() && (#[trigger] idx3@[kk]) == j;
            assert(vb2@[idx3@[k] as int] == vb1@[idx2@[k] as int]);
            let s = idx2@[k] as int;
            assert(covers(rm@, s));
            let i0 = choose|i: int| 0 <= i < rm@.len() && (#[trigger] rm@[i]) == s;
            assert(vb1@[rm@[i0] as int] == gv[i0]);
            assert(gv[i0] == vb2@[j]);
        }
    }
    Ok(OptimizedMesh { vertices: vb2, indices: idx3 })
}

} // verus!
