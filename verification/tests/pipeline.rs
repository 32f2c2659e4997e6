use indirect_batch::batching::{SceneObject, group_into_batches};
use indirect_batch::indirect::{IndirectDrawDescriptor, emit_indirect_descriptors, encode_descriptors};
use indirect_batch::shapes::{
    Batch, Mesh, MeshType, TextureType, Transform, get_object_colors, index_count, index_offset,
    merge_index_vertex_data, merge_matrices,
};

const F32_ONE_BITS: u32 = 0x3f80_0000;
const WATER_R_BITS: u32 = 0x3b80_8081;
const GRASS_R_BITS: u32 = 0x3e50_d0d1;

fn transform(tag: u32) -> Transform {
    let mut elements = [0u32; 16];
    for (e, slot) in elements.iter_mut().enumerate() {
        *slot = tag * 100 + e as u32;
    }
    Transform { elements }
}

fn registry() -> Vec<Mesh> {
    let mut cube = Mesh { m_type: MeshType::Cube, vertices: Vec::new(), indices: Vec::new() };
    let mut cylinder = Mesh {
        m_type: MeshType::Cylinder,
        vertices: Vec::new(),
        indices: Vec::new(),
    };
    let mut sphere = Mesh { m_type: MeshType::Sphere, vertices: Vec::new(), indices: Vec::new() };
    cube.generate_vertices();
    cylinder.generate_vertices();
    sphere.generate_vertices();
    vec![cube, cylinder, sphere]
}

#[test]
fn merge_concatenates_and_rebases() {
    let meshes = registry();
    let refs: Vec<&Mesh> = meshes.iter().collect();
    let (vertices, indices) = merge_index_vertex_data(&refs);

    // Merged vertex count is the sum of the individual counts.
    assert_eq!(vertices.len(), 8 + 82 + 382);
    assert_eq!(indices.len(), 36 + 240 + 2280);

    // Index offset of each mesh equals the index count of the meshes before.
    assert_eq!(index_count(&refs, MeshType::Cube), 36);
    assert_eq!(index_count(&refs, MeshType::Cylinder), 240);
    assert_eq!(index_count(&refs, MeshType::Sphere), 2280);
    assert_eq!(index_offset(&refs, MeshType::Cube), 0);
    assert_eq!(index_offset(&refs, MeshType::Cylinder), 36);
    assert_eq!(index_offset(&refs, MeshType::Sphere), 36 + 240);

    // The cube's region is a verbatim copy; the cylinder's is re-based by
    // the cube's vertex count.
    assert_eq!(&indices[0..36], &meshes[0].indices[..]);
    for (k, &i) in meshes[1].indices.iter().enumerate() {
        assert_eq!(indices[36 + k], i + 8);
    }
    // The merged vertex data is the concatenation of the inputs.
    assert_eq!(&vertices[0..8], &meshes[0].vertices[..]);
    assert_eq!(&vertices[8..90], &meshes[1].vertices[..]);
    assert_eq!(&vertices[90..], &meshes[2].vertices[..]);
}

#[test]
fn grouping_partitions_objects_by_key() {
    let objects = vec![
        SceneObject { m_type: MeshType::Cube, texture: TextureType::Water, transform: transform(1) },
        SceneObject { m_type: MeshType::Sphere, texture: TextureType::Grass, transform: transform(2) },
        SceneObject { m_type: MeshType::Cube, texture: TextureType::Water, transform: transform(3) },
        SceneObject { m_type: MeshType::Cube, texture: TextureType::Grass, transform: transform(4) },
        SceneObject { m_type: MeshType::Sphere, texture: TextureType::Grass, transform: transform(5) },
    ];
    let batches = group_into_batches(&objects);

    // Three distinct keys, in first-seen order.
    assert_eq!(batches.len(), 3);
    assert_eq!(batches[0].m_type, MeshType::Cube);
    assert_eq!(batches[0].texture, TextureType::Water);
    assert_eq!(batches[1].m_type, MeshType::Sphere);
    assert_eq!(batches[1].texture, TextureType::Grass);
    assert_eq!(batches[2].m_type, MeshType::Cube);
    assert_eq!(batches[2].texture, TextureType::Grass);

    // Every transform lands in the batch of its key, in input order.
    assert_eq!(batches[0].transform_m, vec![transform(1), transform(3)]);
    assert_eq!(batches[1].transform_m, vec![transform(2), transform(5)]);
    assert_eq!(batches[2].transform_m, vec![transform(4)]);

    // Length preserved.
    let total: usize = batches.iter().map(|b| b.transform_m.len()).sum();
    assert_eq!(total, objects.len());
}

#[test]
fn grouping_empty_list_gives_no_batches() {
    let objects: Vec<SceneObject> = Vec::new();
    assert_eq!(group_into_batches(&objects).len(), 0);
}

#[test]
fn instance_arrays_are_co_indexed() {
    let water_cubes = Batch {
        m_type: MeshType::Cube,
        texture: TextureType::Water,
        transform_m: vec![transform(1), transform(2)],
    };
    let grass_sphere = Batch {
        m_type: MeshType::Sphere,
        texture: TextureType::Grass,
        transform_m: vec![transform(3)],
    };
    let objects: Vec<&Batch> = vec![&water_cubes, &grass_sphere];

    let matrices = merge_matrices(&objects);
    let colors = get_object_colors(&objects);

    // 16 matrix elements and 4 color channels per instance.
    assert_eq!(matrices.len(), 16 * 3);
    assert_eq!(colors.len(), 4 * 3);

    // Instance k's matrix occupies elements 16k..16k+16.
    assert_eq!(&matrices[0..16], &transform(1).elements[..]);
    assert_eq!(&matrices[16..32], &transform(2).elements[..]);
    assert_eq!(&matrices[32..48], &transform(3).elements[..]);

    // Instance k's color channels occupy elements 4k..4k+4 and come from
    // the texture of instance k's batch.
    assert_eq!(colors[0], WATER_R_BITS);
    assert_eq!(colors[3], F32_ONE_BITS);
    assert_eq!(colors[4], WATER_R_BITS);
    assert_eq!(colors[8], GRASS_R_BITS);
    assert_eq!(colors[11], F32_ONE_BITS);
}

#[test]
fn descriptors_for_three_batches() {
    let meshes = registry();
    let mesh_refs: Vec<&Mesh> = meshes.iter().collect();

    let cubes = Batch {
        m_type: MeshType::Cube,
        texture: TextureType::Water,
        transform_m: vec![transform(1), transform(2)],
    };
    let cylinders = Batch {
        m_type: MeshType::Cylinder,
        texture: TextureType::Grass,
        transform_m: vec![transform(3)],
    };
    let spheres = Batch {
        m_type: MeshType::Sphere,
        texture: TextureType::Grass,
        transform_m: vec![transform(4)],
    };
    let objects: Vec<&Batch> = vec![&cubes, &cylinders, &spheres];

    let descriptors = emit_indirect_descriptors(&objects, &mesh_refs);
    assert_eq!(descriptors.len(), 3);
    assert_eq!(
        descriptors[0],
        IndirectDrawDescriptor {
            index_count: 36,
            instance_count: 2,
            first_index: 0,
            base_vertex: 0,
            first_instance: 0,
        }
    );
    assert_eq!(
        descriptors[1],
        IndirectDrawDescriptor {
            index_count: 240,
            instance_count: 1,
            first_index: 36,
            base_vertex: 0,
            first_instance: 2,
        }
    );
    assert_eq!(
        descriptors[2],
        IndirectDrawDescriptor {
            index_count: 2280,
            instance_count: 1,
            first_index: 276,
            base_vertex: 0,
            first_instance: 3,
        }
    );

    // First-instance accounting: starts at 0, each step adds the previous
    // instance count, and the last batch ends at the total.
    for i in 0..descriptors.len() - 1 {
        assert_eq!(
            descriptors[i].first_instance + descriptors[i].instance_count,
            descriptors[i + 1].first_instance
        );
        assert!(descriptors[i].first_instance <= descriptors[i + 1].first_instance);
    }
    assert_eq!(descriptors[2].first_instance + descriptors[2].instance_count, 4);
}

#[test]
fn zero_instance_batch_emits_noop_descriptor() {
    let meshes = registry();
    let mesh_refs: Vec<&Mesh> = meshes.iter().collect();

    let empty = Batch {
        m_type: MeshType::Cylinder,
        texture: TextureType::Water,
        transform_m: Vec::new(),
    };
    let cubes = Batch {
        m_type: MeshType::Cube,
        texture: TextureType::Water,
        transform_m: vec![transform(1)],
    };
    let objects: Vec<&Batch> = vec![&empty, &cubes];

    let descriptors = emit_indirect_descriptors(&objects, &mesh_refs);
    assert_eq!(descriptors.len(), 2);
    assert_eq!(descriptors[0].instance_count, 0);
    assert_eq!(descriptors[0].first_instance, 0);
    // The running total is unaffected by the no-op descriptor.
    assert_eq!(descriptors[1].first_instance, 0);
    assert_eq!(descriptors[1].instance_count, 1);
}

#[test]
fn unknown_mesh_type_gets_total_offset() {
    // A registry without a sphere: its offset is the total index count.
    let mut cube = Mesh { m_type: MeshType::Cube, vertices: Vec::new(), indices: Vec::new() };
    cube.generate_vertices();
    let meshes = vec![cube];
    let refs: Vec<&Mesh> = meshes.iter().collect();
    assert_eq!(index_count(&refs, MeshType::Sphere), 0);
    assert_eq!(index_offset(&refs, MeshType::Sphere), 36);
}

#[test]
fn encoding_is_little_endian_wire_order() {
    let d = IndirectDrawDescriptor {
        index_count: 0x0102_0304,
        instance_count: 5,
        first_index: 0x0000_0100,
        base_vertex: 0,
        first_instance: 0xffff_ffff,
    };
    let bytes = encode_descriptors(&vec![d]);
    assert_eq!(bytes.len(), 20);
    assert_eq!(&bytes[0..4], &[0x04, 0x03, 0x02, 0x01]);
    assert_eq!(&bytes[4..8], &[5, 0, 0, 0]);
    assert_eq!(&bytes[8..12], &[0x00, 0x01, 0x00, 0x00]);
    assert_eq!(&bytes[12..16], &[0, 0, 0, 0]);
    assert_eq!(&bytes[16..20], &[0xff, 0xff, 0xff, 0xff]);
}

#[test]
fn pipeline_reruns_byte_identical() {
    let meshes = registry();
    let mesh_refs: Vec<&Mesh> = meshes.iter().collect();
    let objects = vec![
        SceneObject { m_type: MeshType::Cube, texture: TextureType::Water, transform: transform(1) },
        SceneObject { m_type: MeshType::Sphere, texture: TextureType::Grass, transform: transform(2) },
        SceneObject { m_type: MeshType::Cube, texture: TextureType::Water, transform: transform(3) },
    ];

    let batches1 = group_into_batches(&objects);
    let refs1: Vec<&Batch> = batches1.iter().collect();
    let bytes1 = encode_descriptors(&emit_indirect_descriptors(&refs1, &mesh_refs));

    let batches2 = group_into_batches(&objects);
    let refs2: Vec<&Batch> = batches2.iter().collect();
    let bytes2 = encode_descriptors(&emit_indirect_descriptors(&refs2, &mesh_refs));

    assert_eq!(bytes1, bytes2);
}
