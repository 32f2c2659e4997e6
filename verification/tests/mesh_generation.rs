use indirect_batch::shapes::cube;
use indirect_batch::shapes::cylinder;
use indirect_batch::shapes::sphere;
use indirect_batch::shapes::{Mesh, MeshType, Vertex};

const F32_ONE_BITS: u32 = 0x3f80_0000;
const F32_NEG_ONE_BITS: u32 = 0xbf80_0000;

#[test]
fn cube_vertices_and_indices() {
    let (vertices, indices) = cube::create_vertices();
    assert_eq!(vertices.len(), 8);
    assert_eq!(indices.len(), 36);
    // Every index points at one of the returned vertices.
    for &i in &indices {
        assert!((i as usize) < vertices.len());
    }
    // The first corner is (-1, 1, -1, 1) in red.
    assert_eq!(
        vertices[0],
        Vertex {
            pos: (F32_NEG_ONE_BITS, F32_ONE_BITS, F32_NEG_ONE_BITS, F32_ONE_BITS),
            color: (F32_ONE_BITS, 0, 0, F32_ONE_BITS),
        }
    );
    // The first triangle of the bottom face.
    assert_eq!(&indices[0..6], &[2, 0, 1, 1, 3, 2]);
}

#[test]
fn cylinder_indices_all_within_vertex_count() {
    let (vertices, indices) = cylinder::generate_vertices();
    // 4 * resolution + 2 shared vertices for resolution 20.
    assert_eq!(vertices.len(), 82);
    // resolution quads and 2 * resolution cap triangles: 12 * resolution.
    assert_eq!(indices.len(), 240);
    for &i in &indices {
        assert!((i as usize) < vertices.len());
    }
    // Positions carry w = 1.
    assert_eq!(vertices[0].pos.3, F32_ONE_BITS);
}

#[test]
fn sphere_indices_all_within_vertex_count() {
    let (vertices, indices) = sphere::generate_vertices();
    // (resolution - 1) * resolution + 2 shared vertices for resolution 20.
    assert_eq!(vertices.len(), 382);
    // 2 * resolution pole triangles and (resolution - 2) * resolution quads.
    assert_eq!(indices.len(), 2280);
    for &i in &indices {
        assert!((i as usize) < vertices.len());
    }
}

#[test]
fn generate_vertices_fills_mesh_by_type() {
    let mut mesh = Mesh { m_type: MeshType::Cube, vertices: Vec::new(), indices: Vec::new() };
    mesh.generate_vertices();
    assert_eq!(mesh.m_type, MeshType::Cube);
    assert_eq!(mesh.vertices.len(), 8);
    assert_eq!(mesh.indices.len(), 36);

    let mut mesh = Mesh {
        m_type: MeshType::Cylinder,
        vertices: Vec::new(),
        indices: Vec::new(),
    };
    mesh.generate_vertices();
    assert_eq!(mesh.vertices.len(), 82);
    assert_eq!(mesh.indices.len(), 240);

    let mut mesh = Mesh { m_type: MeshType::Sphere, vertices: Vec::new(), indices: Vec::new() };
    mesh.generate_vertices();
    assert_eq!(mesh.vertices.len(), 382);
    assert_eq!(mesh.indices.len(), 2280);
    for &i in &mesh.indices {
        assert!((i as usize) < mesh.vertices.len());
    }
}

#[test]
fn generate_vertices_is_deterministic() {
    let (v1, i1) = sphere::generate_vertices();
    let (v2, i2) = sphere::generate_vertices();
    assert_eq!(v1, v2);
    assert_eq!(i1, i2);
}

#[test]
fn pos_in_one_dim_vec_row_major() {
    assert_eq!(sphere::pos_in_one_dim_vec(0, 0, 20), 0);
    assert_eq!(sphere::pos_in_one_dim_vec(3, 2, 20), 43);
    assert_eq!(sphere::pos_in_one_dim_vec(19, 19, 20), 399);
}

#[test]
fn grid_indices_layout() {
    let indices = sphere::grid_indices(2);
    // 6 entries per cell, resolution * resolution cells.
    assert_eq!(indices.len(), 24);
    // First cell (x = 0, y = 0) with 2 columns:
    // (0,1) (1,1) (1,0) then (1,0) (0,0) (0,1) in row-major positions.
    assert_eq!(&indices[0..6], &[2, 3, 1, 1, 0, 2]);
    // Second cell (x = 1, y = 0): x + 1 wraps onto column 0 at the seam.
    assert_eq!(&indices[6..12], &[3, 2, 0, 0, 1, 3]);
    // Last cell (x = 1, y = 1): both successors wrap onto row/column 0.
    assert_eq!(&indices[18..24], &[1, 0, 2, 2, 3, 1]);
    // Every index addresses one of the grid's 4 vertices.
    for &i in &indices {
        assert!(i < 4);
    }

    let big = sphere::grid_indices(20);
    assert_eq!(big.len(), 6 * 20 * 20);
    assert_eq!(big[0], sphere::pos_in_one_dim_vec(0, 1, 20));
    // Every index addresses one of the grid's 400 vertices.
    for &i in &big {
        assert!(i < 400);
    }
}
