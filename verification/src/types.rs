use vstd::prelude::*;

verus! {

/// Parameters of one terrain build: the edge length of the square extent,
/// the grid resolution (cells per edge), and the vertical scale factor.
///
/// `size_bits` and `height_scale_bits` carry IEEE 754 binary32 bit patterns.
/// The library never does arithmetic on such scalars; it moves them, compares
/// them bit for bit, and classifies them through their exponent and sign
/// fields, so every buffer it emits is bit-identical to what the host's
/// single-precision values demand.
#[derive(Clone, Copy, PartialEq, Eq, Structural, Debug)]
pub struct TerrainSpec {
    pub size_bits: u32,
    pub resolution: u32,
    pub height_scale_bits: u32,
}

/// One vertex of a terrain mesh: a position (`px`, `py`, `pz`) and a texture
/// coordinate (`tu`, `tv`), all five fields binary32 bit patterns.
///
/// Two vertices are duplicates exactly when they are equal as five-tuples of
/// bit patterns; that is the "bit-identical" vertex equality the optimizer
/// merges by.
#[derive(Clone, Copy, PartialEq, Eq, Structural, Debug)]
pub struct Vertex {
    pub px: u32,
    pub py: u32,
    pub pz: u32,
    pub tu: u32,
    pub tv: u32,
}

/// One sample of the grid's shared axis: the planar coordinate of a grid line
/// and its texture coordinate, both binary32 bit patterns. A grid over
/// resolution `n` uses the same `n + 1` samples along both planar axes.
#[derive(Clone, Copy, PartialEq, Eq, Structural, Debug)]
pub struct AxisSample {
    pub coord: u32,
    pub tex: u32,
}

/// A failure that aborts a terrain build.
#[derive(Clone, Copy, PartialEq, Eq, Structural, Debug)]
pub enum TerrainError {
    /// The build inputs are unusable: a zero resolution, a size that is not a
    /// finite positive value, or a height sample that is not finite.
    InvalidSpec,
    /// An index buffer does not describe whole triangles over its vertex
    /// buffer: its length is not a multiple of three, or an index is out of
    /// range. This is a bug in whatever produced the buffers and is never
    /// silently repaired.
    StructuralIntegrity,
}

/// The freshly built, unoptimized grid mesh.
#[derive(Clone, Debug)]
pub struct GridMesh {
    pub vertices: Vec<Vertex>,
    pub indices: Vec<u32>,
}

/// A mesh whose triangle order and vertex placement have been rearranged for
/// vertex-cache and vertex-fetch locality. It draws the same triangles as its
/// source mesh.
#[derive(Clone, Debug)]
pub struct OptimizedMesh {
    pub vertices: Vec<Vertex>,
    pub indices: Vec<u32>,
}

/// The triangle list handed to a physics backend: bare positions and index
/// triples, no shading attributes.
#[derive(Clone, Debug)]
pub struct ColliderMesh {
    pub vertices: Vec<(u32, u32, u32)>,
    pub triangles: Vec<(u32, u32, u32)>,
}

/// The position fields of a vertex, without its texture coordinate.
pub open spec fn position_of(v: Vertex) -> (u32, u32, u32) {
    (v.px, v.py, v.pz)
}

/// The index buffer read as a sequence of index triples, one per triangle.
pub open spec fn index_triples(idx: Seq<u32>) -> Seq<(u32, u32, u32)> {
    Seq::new(idx.len() / 3, |t: int| (idx[3 * t], idx[3 * t + 1], idx[3 * t + 2]))
}

/// Every index in the buffer addresses one of `n` vertices.
pub open spec fn indices_in_range(idx: Seq<u32>, n: int) -> bool {
    forall|k: int| 0 <= k < idx.len() ==> (#[trigger] idx[k]) < n
}

/// The index buffer describes whole triangles over a vertex buffer of length
/// `n`: its length is a multiple of three and every index is in range.
pub open spec fn mesh_wf(idx: Seq<u32>, n: int) -> bool {
    &&& idx.len() % 3 == 0
    &&& indices_in_range(idx, n)
}

/// A triangle whose three vertex indices are pairwise distinct.
pub open spec fn nondegenerate_triple(t: (u32, u32, u32)) -> bool {
    t.0 != t.1 && t.0 != t.2 && t.1 != t.2
}

/// The triangle at slot `t`, spelled out as the three vertices it joins.
pub open spec fn vertex_triple(verts: Seq<Vertex>, t: (u32, u32, u32)) -> (Vertex, Vertex, Vertex) {
    (verts[t.0 as int], verts[t.1 as int], verts[t.2 as int])
}

/// The mesh's triangles in vertex-position space: for each index triple, the
/// three positions it joins. Two meshes draw the same surface exactly when
/// these sequences agree as multisets, whatever their index and vertex order.
pub open spec fn position_triangles(verts: Seq<Vertex>, idx: Seq<u32>) -> Seq<
    ((u32, u32, u32), (u32, u32, u32), (u32, u32, u32)),
> {
    index_triples(idx).map_values(
        |t: (u32, u32, u32)|
            (
                position_of(verts[t.0 as int]),
                position_of(verts[t.1 as int]),
                position_of(verts[t.2 as int]),
            ),
    )
}

/// Every vertex of `out`, texture coordinates included, occurs in `src`: the
/// buffer introduces no vertex of its own.
pub open spec fn vertices_from(out: Seq<Vertex>, src: Seq<Vertex>) -> bool {
    forall|j: int| 0 <= j < out.len() ==> src.contains(#[trigger] out[j])
}

/// No two slots of the sequence hold the same value.
pub open spec fn pairwise_distinct<A>(s: Seq<A>) -> bool {
    forall|i: int, j: int|
        #![trigger s[i], s[j]]
        0 <= i < s.len() && 0 <= j < s.len() && i != j ==> s[i] != s[j]
}

/// No triangle of the buffer joins two bit-identical vertices: the mesh stays
/// free of degenerate triangles under merging of duplicate vertices.
pub open spec fn triangles_vertex_distinct(verts: Seq<Vertex>, idx: Seq<u32>) -> bool {
    forall|t: int|
        0 <= t < index_triples(idx).len() ==> {
            let tri = vertex_triple(verts, #[trigger] index_triples(idx)[t]);
            tri.0 != tri.1 && tri.0 != tri.2 && tri.1 != tri.2
        }
}

} // verus!
