use terrain_mesh::collider::extract_collider;
use terrain_mesh::grid::build_grid;
use terrain_mesh::optimize::optimize_mesh;
use terrain_mesh::shade::{prepare_shading_mesh, NormalMode};
use terrain_mesh::terrain::build_terrain;
use terrain_mesh::types::{AxisSample, OptimizedMesh, TerrainError, TerrainSpec, Vertex};

use bevy_math::Vec2;
use noisy_bevy::simplex_noise_2d;

fn make_spec(size: f32, resolution: u32, height_scale: f32) -> TerrainSpec {
    TerrainSpec {
        size_bits: size.to_bits(),
        resolution,
        height_scale_bits: height_scale.to_bits(),
    }
}

fn axis_samples(size: f32, resolution: u32) -> Vec<AxisSample> {
    (0..=resolution)
        .map(|i| {
            let t = i as f32 / resolution as f32;
            AxisSample {
                coord: (size * (t - 0.5)).to_bits(),
                tex: t.to_bits(),
            }
        })
        .collect()
}

fn noise_heights(axis: &[AxisSample], height_scale: f32) -> Vec<u32> {
    let w = axis.len();
    let mut heights = Vec::with_capacity(w * w);
    for z in 0..w {
        for x in 0..w {
            let px = f32::from_bits(axis[x].coord);
            let pz = f32::from_bits(axis[z].coord);
            let h = simplex_noise_2d(Vec2::new(px, pz)) * height_scale;
            heights.push(h.to_bits());
        }
    }
    heights
}

fn vertex(px: f32, py: f32, pz: f32, tu: f32, tv: f32) -> Vertex {
    Vertex {
        px: px.to_bits(),
        py: py.to_bits(),
        pz: pz.to_bits(),
        tu: tu.to_bits(),
        tv: tv.to_bits(),
    }
}

type PosTriangle = ((u32, u32, u32), (u32, u32, u32), (u32, u32, u32));

fn position_triangle_set(vertices: &[Vertex], indices: &[u32]) -> Vec<PosTriangle> {
    let mut tris: Vec<PosTriangle> = indices
        .chunks(3)
        .map(|c| {
            let p = |i: u32| {
                let v = vertices[i as usize];
                (v.px, v.py, v.pz)
            };
            (p(c[0]), p(c[1]), p(c[2]))
        })
        .collect();
    tris.sort_unstable();
    tris
}

#[test]
fn grid_corners_res_one() {
    let spec = make_spec(100.0, 1, 1.0);
    let axis = axis_samples(100.0, 1);
    let h = 7.25f32;
    let heights = vec![h.to_bits(); 4];
    let g = build_grid(&spec, &axis, &heights).unwrap();

    assert_eq!(g.vertices.len(), 4);
    assert_eq!(g.vertices[0], vertex(-50.0, h, -50.0, 0.0, 0.0));
    assert_eq!(g.vertices[1], vertex(50.0, h, -50.0, 1.0, 0.0));
    assert_eq!(g.vertices[2], vertex(-50.0, h, 50.0, 0.0, 1.0));
    assert_eq!(g.vertices[3], vertex(50.0, h, 50.0, 1.0, 1.0));
    // two triangles: (top-left, bottom-left, top-right), (top-right, bottom-left, bottom-right)
    assert_eq!(g.indices, vec![0, 2, 1, 1, 2, 3]);
}

#[test]
fn grid_row_major_layout() {
    let spec = make_spec(8.0, 2, 1.0);
    let axis = axis_samples(8.0, 2);
    let heights: Vec<u32> = (0..9).map(|i| (i as f32).to_bits()).collect();
    let g = build_grid(&spec, &axis, &heights).unwrap();
    assert_eq!(g.vertices.len(), 9);
    assert_eq!(g.indices.len(), 6 * 2 * 2);
    for r in 0..3usize {
        for c in 0..3usize {
            let v = g.vertices[r * 3 + c];
            assert_eq!(v.px, axis[c].coord);
            assert_eq!(v.py, heights[r * 3 + c]);
            assert_eq!(v.pz, axis[r].coord);
            assert_eq!(v.tu, axis[c].tex);
            assert_eq!(v.tv, axis[r].tex);
        }
    }
}

#[test]
fn resolution_zero_rejected() {
    let spec = make_spec(100.0, 0, 1.0);
    let axis = vec![AxisSample {
        coord: 0.0f32.to_bits(),
        tex: 0.0f32.to_bits(),
    }];
    let heights = vec![0.0f32.to_bits()];
    assert!(matches!(
        build_grid(&spec, &axis, &heights),
        Err(TerrainError::InvalidSpec)
    ));
    assert!(matches!(
        build_terrain(&spec, &axis, &heights, NormalMode::Smooth),
        Err(TerrainError::InvalidSpec)
    ));
}

#[test]
fn nonpositive_size_rejected() {
    for bad in [0.0f32, -0.0, -5.0, f32::NAN, f32::INFINITY] {
        let spec = make_spec(bad, 1, 1.0);
        let axis = axis_samples(100.0, 1);
        let heights = vec![0.0f32.to_bits(); 4];
        assert!(
            matches!(
                build_grid(&spec, &axis, &heights),
                Err(TerrainError::InvalidSpec)
            ),
            "size {bad} must be rejected"
        );
    }
}

#[test]
fn nonfinite_height_rejected() {
    let spec = make_spec(100.0, 1, 1.0);
    let axis = axis_samples(100.0, 1);
    for bad in [f32::NAN, f32::INFINITY, f32::NEG_INFINITY] {
        let mut heights = vec![1.0f32.to_bits(); 4];
        heights[2] = bad.to_bits();
        assert!(matches!(
            build_grid(&spec, &axis, &heights),
            Err(TerrainError::InvalidSpec)
        ));
    }
}

#[test]
fn optimizer_rejects_ragged_index_buffer() {
    let verts = vec![vertex(0.0, 0.0, 0.0, 0.0, 0.0)];
    let indices = vec![0u32, 0];
    assert!(matches!(
        optimize_mesh(&verts, &indices),
        Err(TerrainError::StructuralIntegrity)
    ));
}

#[test]
fn optimizer_rejects_out_of_range_index() {
    let verts = vec![
        vertex(0.0, 0.0, 0.0, 0.0, 0.0),
        vertex(1.0, 0.0, 0.0, 1.0, 0.0),
    ];
    let indices = vec![0u32, 1, 2];
    assert!(matches!(
        optimize_mesh(&verts, &indices),
        Err(TerrainError::StructuralIntegrity)
    ));
}

#[test]
fn optimizer_merges_bit_identical_vertices() {
    let a = Vertex {
        px: 1,
        py: 2,
        pz: 3,
        tu: 4,
        tv: 5,
    };
    let b = Vertex {
        px: 6,
        py: 7,
        pz: 8,
        tu: 9,
        tv: 10,
    };
    // the third vertex is a bit-identical duplicate of the first
    let verts = vec![a, b, a];
    let indices = vec![0u32, 1, 2];
    let m = optimize_mesh(&verts, &indices).unwrap();
    assert_eq!(m.vertices, vec![a, b]);
    assert_eq!(m.indices, vec![0, 1, 0]);
}

#[test]
fn optimizer_reorders_vertices_for_fetch() {
    let verts: Vec<Vertex> = (0..6)
        .map(|i| vertex(i as f32, 0.0, 0.0, i as f32, 0.0))
        .collect();
    // both triangles list their vertices backwards, so the first vertex the
    // optimized index stream fetches cannot be the old vertex 0
    let indices = vec![5u32, 4, 3, 2, 1, 0];
    let m = optimize_mesh(&verts, &indices).unwrap();
    assert_eq!(m.indices[0], 0, "fetch numbering starts at first use");
    assert!(m.vertices[0] == verts[5] || m.vertices[0] == verts[2]);
    assert_eq!(
        position_triangle_set(&m.vertices, &m.indices),
        position_triangle_set(&verts, &indices)
    );
    // ids are minted 0, 1, 2, … at first uses, and every vertex is referenced
    let mut seen = vec![false; m.vertices.len()];
    let mut next: u32 = 0;
    for &i in &m.indices {
        if !seen[i as usize] {
            assert_eq!(i, next, "first uses appear in increasing id order");
            seen[i as usize] = true;
            next += 1;
        }
    }
    assert!(seen.iter().all(|&s| s), "every vertex id occurs in the index stream");
}

#[test]
fn triangle_set_preserved_by_optimizer() {
    let spec = make_spec(64.0, 8, 5.0);
    let axis = axis_samples(64.0, 8);
    let heights = noise_heights(&axis, 5.0);
    let g = build_grid(&spec, &axis, &heights).unwrap();
    let m = optimize_mesh(&g.vertices, &g.indices).unwrap();
    assert_eq!(
        position_triangle_set(&m.vertices, &m.indices),
        position_triangle_set(&g.vertices, &g.indices)
    );
    // the grid has no duplicate vertex, so the dedup pass merges nothing and
    // the optimized mesh keeps every grid vertex, merely reordered
    let key = |v: &Vertex| (v.px, v.py, v.pz, v.tu, v.tv);
    let mut from_grid: Vec<_> = g.vertices.iter().map(key).collect();
    let mut from_opt: Vec<_> = m.vertices.iter().map(key).collect();
    from_grid.sort_unstable();
    from_opt.sort_unstable();
    assert_eq!(from_opt, from_grid);
}

#[test]
fn index_buffers_always_valid() {
    let spec = make_spec(200.0, 12, 30.0);
    let axis = axis_samples(200.0, 12);
    let heights = noise_heights(&axis, 30.0);
    let t = build_terrain(&spec, &axis, &heights, NormalMode::Flat).unwrap();
    for mesh in [&t.mesh, &t.shading_mesh] {
        assert_eq!(mesh.indices.len() % 3, 0);
        for &i in &mesh.indices {
            assert!((i as usize) < mesh.vertices.len());
        }
    }
    assert_eq!(t.mesh.indices.len(), 6 * 12 * 12);
}

#[test]
fn build_terrain_deterministic() {
    let spec = make_spec(1200.0, 16, 23.0);
    let axis = axis_samples(1200.0, 16);
    let heights = noise_heights(&axis, 23.0);
    let t1 = build_terrain(&spec, &axis, &heights, NormalMode::Smooth).unwrap();
    let t2 = build_terrain(&spec, &axis, &heights, NormalMode::Smooth).unwrap();
    assert_eq!(t1.mesh.vertices, t2.mesh.vertices);
    assert_eq!(t1.mesh.indices, t2.mesh.indices);
    assert_eq!(t1.shading_mesh.vertices, t2.shading_mesh.vertices);
    assert_eq!(t1.shading_mesh.indices, t2.shading_mesh.indices);
    assert_eq!(t1.collider.vertices, t2.collider.vertices);
    assert_eq!(t1.collider.triangles, t2.collider.triangles);
    assert_eq!(t1.skipped_triangles, t2.skipped_triangles);
}

#[test]
fn collider_matches_render_mesh() {
    let spec = make_spec(500.0, 10, 12.0);
    let axis = axis_samples(500.0, 10);
    let heights = noise_heights(&axis, 12.0);
    let t = build_terrain(&spec, &axis, &heights, NormalMode::Smooth).unwrap();
    // vertex positions correspond one to one
    assert_eq!(t.collider.vertices.len(), t.mesh.vertices.len());
    for (p, v) in t.collider.vertices.iter().zip(t.mesh.vertices.iter()) {
        assert_eq!(*p, (v.px, v.py, v.pz));
    }
    // the grid axis is strictly monotone, so no triangle degenerates and the
    // collider keeps the full triangle count: two triangles per grid cell
    assert_eq!(t.skipped_triangles, 0);
    assert_eq!(t.collider.triangles.len(), t.mesh.indices.len() / 3);
    assert_eq!(t.collider.triangles.len(), 2 * 10 * 10);
    // the optimizer merged nothing: every grid vertex survives
    assert_eq!(t.mesh.vertices.len(), 11 * 11);
}

#[test]
fn collider_skips_degenerate_triangles() {
    let a = vertex(0.0, 0.0, 0.0, 0.0, 0.0);
    let b = vertex(1.0, 0.0, 0.0, 1.0, 0.0);
    let c = vertex(0.0, 0.0, 1.0, 0.0, 1.0);
    let mesh = OptimizedMesh {
        vertices: vec![a, b, c],
        indices: vec![0, 1, 1, 0, 1, 2],
    };
    let (collider, skipped) = extract_collider(&mesh).unwrap();
    assert_eq!(skipped, 1);
    assert_eq!(collider.triangles, vec![(0, 1, 2)]);
    assert_eq!(collider.vertices.len(), 3);
}

#[test]
fn collider_rejects_ragged_mesh() {
    let a = vertex(0.0, 0.0, 0.0, 0.0, 0.0);
    let mesh = OptimizedMesh {
        vertices: vec![a],
        indices: vec![0, 0],
    };
    assert!(matches!(
        extract_collider(&mesh),
        Err(TerrainError::StructuralIntegrity)
    ));
}

#[test]
fn shading_rejects_ragged_mesh() {
    let a = vertex(0.0, 0.0, 0.0, 0.0, 0.0);
    let mesh = OptimizedMesh {
        vertices: vec![a],
        indices: vec![0, 1, 0],
    };
    assert!(matches!(
        prepare_shading_mesh(&mesh, NormalMode::Flat),
        Err(TerrainError::StructuralIntegrity)
    ));
}

#[test]
fn smooth_mode_keeps_buffers() {
    let spec = make_spec(10.0, 3, 2.0);
    let axis = axis_samples(10.0, 3);
    let heights = noise_heights(&axis, 2.0);
    let g = build_grid(&spec, &axis, &heights).unwrap();
    let m = optimize_mesh(&g.vertices, &g.indices).unwrap();
    let s = prepare_shading_mesh(&m, NormalMode::Smooth).unwrap();
    assert_eq!(s.vertices, m.vertices);
    assert_eq!(s.indices, m.indices);
}

#[test]
fn flat_mode_duplicates_vertices_per_triangle() {
    let spec = make_spec(10.0, 3, 2.0);
    let axis = axis_samples(10.0, 3);
    let heights = noise_heights(&axis, 2.0);
    let t = build_terrain(&spec, &axis, &heights, NormalMode::Flat).unwrap();
    let m = &t.mesh;
    let s = &t.shading_mesh;
    assert_eq!(s.vertices.len(), m.indices.len());
    for (k, &i) in m.indices.iter().enumerate() {
        assert_eq!(s.vertices[k], m.vertices[i as usize]);
        assert_eq!(s.indices[k], k as u32);
    }
    assert_eq!(
        position_triangle_set(&s.vertices, &s.indices),
        position_triangle_set(&m.vertices, &m.indices)
    );
}
