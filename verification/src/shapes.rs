//! Core data model: vertices, meshes, transforms, batches, and the buffer
//! merging / instance packing operations over them.
//!
//! Float-valued vertex attributes and matrix elements are carried as the
//! IEEE-754 bit patterns of their `f32` components (`u32` values), so the
//! packed arrays produced here are byte-compatible with the float buffers a
//! renderer uploads, while the bookkeeping logic stays over plain integers.

pub mod cube;
pub mod cylinder;
pub mod sphere;

use vstd::prelude::*;

verus! {

/// Bit pattern of `1.0_f32`.
pub const F32_ONE_BITS: u32 = 0x3f80_0000;
/// Bit pattern of `0.0_f32`.
pub const F32_ZERO_BITS: u32 = 0x0000_0000;
/// Bit pattern of `-1.0_f32`.
pub const F32_NEG_ONE_BITS: u32 = 0xbf80_0000;

/// Bit pattern of `1.0 / 255.0` in `f32`.
pub const CHANNEL_1_BITS: u32 = 0x3b80_8081;
/// Bit pattern of `41.0 / 255.0` in `f32`.
pub const CHANNEL_41_BITS: u32 = 0x3e24_a4a5;
/// Bit pattern of `49.0 / 255.0` in `f32`.
pub const CHANNEL_49_BITS: u32 = 0x3e44_c4c5;
/// Bit pattern of `52.0 / 255.0` in `f32`.
pub const CHANNEL_52_BITS: u32 = 0x3e50_d0d1;
/// Bit pattern of `95.0 / 255.0` in `f32`.
pub const CHANNEL_95_BITS: u32 = 0x3ebe_bebf;
/// Bit pattern of `140.0 / 255.0` in `f32`.
pub const CHANNEL_140_BITS: u32 = 0x3f0c_8c8d;

/// The closed set of mesh shapes the registry can generate.
#[derive(Clone, Copy, Debug, PartialEq, Eq, Structural)]
pub enum MeshType {
    Cube,
    Cylinder,
    Sphere,
}

/// The closed set of material bindings a batch can render with.
#[derive(Clone, Copy, Debug, PartialEq, Eq, Structural)]
pub enum TextureType {
    Water,
    Grass,
}

/// One mesh vertex: a homogeneous position and an RGBA color, each component
/// held as the bit pattern of its `f32` value (x, y, z, w and r, g, b, a).
#[derive(Clone, Copy, Debug, PartialEq, Eq)]
pub struct Vertex {
    pub pos: (u32, u32, u32, u32),
    pub color: (u32, u32, u32, u32),
}

/// A 4x4 transform matrix, flattened column-major; each element is the bit
/// pattern of its `f32` value.
#[derive(Clone, Copy, Debug, PartialEq, Eq)]
pub struct Transform {
    pub elements: [u32; 16],
}

/// A mesh: its type tag plus the vertex and 16-bit index data generated for it.
#[derive(Debug)]
pub struct Mesh {
    pub m_type: MeshType,
    pub vertices: Vec<Vertex>,
    pub indices: Vec<u16>,
}

/// A batch: every instance drawn from it shares one mesh and one texture; the
/// number of instances is the number of transform matrices in `transform_m`,
/// and their order fixes each instance's index.
#[derive(Debug)]
pub struct Batch {
    pub m_type: MeshType,
    pub texture: TextureType,
    pub transform_m: Vec<Transform>,
}

/// Mathematical model of a [`Batch`]: the same key with the transform
/// sequence abstracted to a `Seq`.
pub ghost struct GBatch {
    pub m_type: MeshType,
    pub texture: TextureType,
    pub transforms: Seq<Transform>,
}

impl View for Batch {
    type V = GBatch;

    open spec fn view(&self) -> GBatch {
        GBatch { m_type: self.m_type, texture: self.texture, transforms: self.transform_m@ }
    }
}

/// The RGBA bit patterns of the color a texture renders with
/// (the 0..=255 channel values 1,41,95,255 and 52,140,49,255 scaled to 0.0..=1.0).
pub open spec fn texture_color_bits(t: TextureType) -> (u32, u32, u32, u32) {
    match t {
        TextureType::Water => (CHANNEL_1_BITS, CHANNEL_41_BITS, CHANNEL_95_BITS, F32_ONE_BITS),
        TextureType::Grass => (CHANNEL_52_BITS, CHANNEL_140_BITS, CHANNEL_49_BITS, F32_ONE_BITS),
    }
}

/// A mesh is well-formed when every index points at one of its own vertices.
pub open spec fn mesh_wf(m: Mesh) -> bool {
    forall|i: int| 0 <= i < m.indices@.len() ==> (#[trigger] m.indices@[i]) < m.vertices@.len()
}

/// The vertex data the generator produces for each mesh type.
pub open spec fn mesh_vertices_spec(t: MeshType) -> Seq<Vertex> {
    match t {
        MeshType::Cube => cube::cube_vertices(),
        MeshType::Cylinder => cylinder::cylinder_mesh_vertices(cylinder::CYLINDER_RESOLUTION),
        MeshType::Sphere => sphere::sphere_mesh_vertices(
            sphere::SPHERE_RESOLUTION,
            sphere::SPHERE_RESOLUTION,
        ),
    }
}

/// The index data the generator produces for each mesh type.
pub open spec fn mesh_indices_spec(t: MeshType) -> Seq<int> {
    match t {
        MeshType::Cube => cube::cube_indices().map_values(|x: u16| x as int),
        MeshType::Cylinder => cylinder::cylinder_mesh_indices(
            cylinder::CYLINDER_RESOLUTION,
        ).map_values(|x: usize| x as int),
        MeshType::Sphere => sphere::sphere_mesh_indices(
            sphere::SPHERE_RESOLUTION,
            sphere::SPHERE_RESOLUTION,
        ).map_values(|x: usize| x as int),
    }
}

impl Mesh {
    /// Fill in this mesh's vertex and index data from its type tag. Every
    /// generated index points at one of the generated vertices.
    pub fn generate_vertices(&mut self)
        ensures
            final(self).m_type == old(self).m_type,
            final(self).vertices@ == mesh_vertices_spec(old(self).m_type),
            final(self).indices@.len() == mesh_indices_spec(old(self).m_type).len(),
            forall|i: int| 0 <= i < final(self).indices@.len() ==> final(self).indices@[i]
                == mesh_indices_spec(old(self).m_type)[i],
            mesh_wf(*final(self)),
    {
        let result: (Vec<Vertex>, Vec<u16>);
        match self.m_type {
            MeshType::Cube => result = cube::create_vertices(),
            MeshType::Cylinder => result = cylinder::generate_vertices(),
            MeshType::Sphere => result = sphere::generate_vertices(),
        }
        self.vertices = result.0;
        self.indices = result.1;
    }
}

/// The meshes behind a sequence of mesh references.
pub open spec fn deref_meshes(s: Seq<&Mesh>) -> Seq<Mesh> {
    s.map_values(|m: &Mesh| *m)
}

/// Total number of vertices over all meshes.
pub open spec fn vertex_count_sum(ms: Seq<Mesh>) -> int
    decreases ms.len(),
{
    if ms.len() == 0 {
        0
    } else {
        vertex_count_sum(ms.drop_last()) + ms.last().vertices@.len()
    }
}

/// The vertex data of all meshes, concatenated in registry order.
pub open spec fn merged_vertices(ms: Seq<Mesh>) -> Seq<Vertex>
    decreases ms.len(),
{
    if ms.len() == 0 {
        Seq::empty()
    } else {
        merged_vertices(ms.drop_last()) + ms.last().vertices@
    }
}

/// One mesh's indices, re-based by the vertex count of the meshes before it.
pub open spec fn rebased_indices(m: Mesh, offset: int) -> Seq<int> {
    Seq::new(m.indices@.len(), |i: int| m.indices@[i] + offset)
}

/// The index data of all meshes, concatenated in registry order, each mesh's
/// indices re-based by the running vertex count.
pub open spec fn merged_indices(ms: Seq<Mesh>) -> Seq<int>
    decreases ms.len(),
{
    if ms.len() == 0 {
        Seq::empty()
    } else {
        merged_indices(ms.drop_last()) + rebased_indices(ms.last(), vertex_count_sum(ms.drop_last()))
    }
}

/// Total index count of the first `n` meshes.
pub open spec fn index_len_sum(ms: Seq<Mesh>, n: int) -> int
    decreases n,
{
    if n <= 0 {
        0
    } else {
        index_len_sum(ms, n - 1) + ms[n - 1].indices@.len()
    }
}

/// Position of the first mesh of type `t`, or `ms.len()` when there is none.
pub open spec fn first_occurrence(ms: Seq<Mesh>, t: MeshType) -> int
    decreases ms.len(),
{
    if ms.len() == 0 {
        0
    } else if ms[0].m_type == t {
        0
    } else {
        1 + first_occurrence(ms.drop_first(), t)
    }
}

/// Index count of the first mesh of type `t`, or 0 when there is none.
pub open spec fn index_count_of(ms: Seq<Mesh>, t: MeshType) -> int {
    if first_occurrence(ms, t) < ms.len() {
        ms[first_occurrence(ms, t)].indices@.len() as int
    } else {
        0
    }
}

/// Offset of the first mesh of type `t` within the merged index data: the
/// total index count of the meshes listed before it (the total over all
/// meshes when `t` does not occur).
pub open spec fn index_offset_of(ms: Seq<Mesh>, t: MeshType) -> int {
    index_len_sum(ms, first_occurrence(ms, t))
}

proof fn lemma_first_occurrence_at(ms: Seq<Mesh>, t: MeshType, j: int)
    requires
        0 <= j < ms.len(),
        ms[j].m_type == t,
        forall|k: int| 0 <= k < j ==> (#[trigger] ms[k]).m_type != t,
    ensures
        first_occurrence(ms, t) == j,
    decreases ms.len(),
{
    if j > 0 {
        lemma_first_occurrence_at(ms.drop_first(), t, j - 1);
    }
}

proof fn lemma_first_occurrence_none(ms: Seq<Mesh>, t: MeshType)
    requires
        forall|k: int| 0 <= k < ms.len() ==> (#[trigger] ms[k]).m_type != t,
    ensures
        first_occurrence(ms, t) == ms.len(),
    decreases ms.len(),
{
    if ms.len() > 0 {
        lemma_first_occurrence_none(ms.drop_first(), t);
    }
}

/// Prefix sums of index counts grow with the prefix.
pub proof fn lemma_index_len_sum_mono(ms: Seq<Mesh>, a: int, b: int)
    requires
        a <= b,
    ensures
        index_len_sum(ms, a) <= index_len_sum(ms, b),
    decreases b - a,
{
    if a < b {
        lemma_index_len_sum_mono(ms, a, b - 1);
    }
}

proof fn lemma_vertex_count_sum_prefix(ms: Seq<Mesh>, n: int)
    requires
        0 <= n <= ms.len(),
    ensures
        vertex_count_sum(ms.subrange(0, n)) <= vertex_count_sum(ms),
    decreases ms.len(),
{
    if n == ms.len() {
        assert(ms.subrange(0, n) =~= ms);
    } else if ms.len() > 0 {
        assert(ms.drop_last().subrange(0, n) =~= ms.subrange(0, n));
        lemma_vertex_count_sum_prefix(ms.drop_last(), n);
    }
}

/// The merged vertex data is exactly as long as all the individual vertex
/// data combined, and the merged index data as long as all the individual
/// index data combined.
pub proof fn lemma_merged_lengths(ms: Seq<Mesh>)
    ensures
        merged_vertices(ms).len() == vertex_count_sum(ms),
        merged_indices(ms).len() == index_len_sum(ms, ms.len() as int),
    decreases ms.len(),
{
    if ms.len() > 0 {
        lemma_merged_lengths(ms.drop_last());
        lemma_index_len_sum_eq_prefix(ms, ms.len() - 1);
        assert(index_len_sum(ms, ms.len() as int) == index_len_sum(ms, ms.len() - 1)
            + ms[ms.len() - 1].indices@.len());
    }
}

proof fn lemma_index_len_sum_eq_prefix(ms: Seq<Mesh>, n: int)
    requires
        0 <= n < ms.len(),
    ensures
        index_len_sum(ms.drop_last(), n) == index_len_sum(ms, n),
    decreases n,
{
    if n > 0 {
        lemma_index_len_sum_eq_prefix(ms, n - 1);
    }
}

/// The batch models behind a sequence of batch references.
pub open spec fn deref_batches(s: Seq<&Batch>) -> Seq<GBatch> {
    s.map_values(|b: &Batch| b@)
}

/// Number of instances in the first `n` batches.
pub open spec fn instance_count_prefix(bs: Seq<GBatch>, n: int) -> int
    decreases n,
{
    if n <= 0 {
        0
    } else {
        instance_count_prefix(bs, n - 1) + bs[n - 1].transforms.len()
    }
}

/// Total number of instances over all batches.
pub open spec fn total_instances(bs: Seq<GBatch>) -> int {
    instance_count_prefix(bs, bs.len() as int)
}

/// The transform of every instance, in batch order then intra-batch order.
pub open spec fn flattened_transforms(bs: Seq<GBatch>) -> Seq<Transform>
    decreases bs.len(),
{
    if bs.len() == 0 {
        Seq::empty()
    } else {
        flattened_transforms(bs.drop_last()) + bs.last().transforms
    }
}

/// The texture of every instance, in batch order then intra-batch order.
pub open spec fn instance_textures(bs: Seq<GBatch>) -> Seq<TextureType>
    decreases bs.len(),
{
    if bs.len() == 0 {
        Seq::empty()
    } else {
        instance_textures(bs.drop_last()) + Seq::new(
            bs.last().transforms.len(),
            |i: int| bs.last().texture,
        )
    }
}

/// The matrix elements of a transform sequence, 16 per transform.
pub open spec fn transform_elems(ts: Seq<Transform>) -> Seq<u32>
    decreases ts.len(),
{
    if ts.len() == 0 {
        Seq::empty()
    } else {
        transform_elems(ts.drop_last()) + ts.last().elements@
    }
}

/// The color channels of a texture sequence, four (r, g, b, a) per entry.
pub open spec fn color_elems(ts: Seq<TextureType>) -> Seq<u32>
    decreases ts.len(),
{
    if ts.len() == 0 {
        Seq::empty()
    } else {
        let c = texture_color_bits(ts.last());
        color_elems(ts.drop_last()) + seq![c.0, c.1, c.2, c.3]
    }
}

proof fn lemma_instance_count_prefix_eq(bs: Seq<GBatch>, n: int)
    requires
        0 <= n < bs.len(),
    ensures
        instance_count_prefix(bs.drop_last(), n) == instance_count_prefix(bs, n),
    decreases n,
{
    if n > 0 {
        lemma_instance_count_prefix_eq(bs, n - 1);
    }
}

/// Prefix sums of instance counts grow with the prefix.
pub proof fn lemma_instance_count_prefix_mono(bs: Seq<GBatch>, a: int, b: int)
    requires
        a <= b,
    ensures
        instance_count_prefix(bs, a) <= instance_count_prefix(bs, b),
    decreases b - a,
{
    if a < b {
        lemma_instance_count_prefix_mono(bs, a, b - 1);
    }
}

/// The flattened transform and texture sequences both hold one entry per
/// instance; the packed element arrays hold 16 and 4 entries per instance.
pub proof fn lemma_packed_lengths(bs: Seq<GBatch>)
    ensures
        flattened_transforms(bs).len() == total_instances(bs),
        instance_textures(bs).len() == total_instances(bs),
        transform_elems(flattened_transforms(bs)).len() == 16 * total_instances(bs),
        color_elems(instance_textures(bs)).len() == 4 * total_instances(bs),
{
    lemma_flattened_transforms_len(bs);
    lemma_instance_textures_len(bs);
    lemma_transform_elems_len(flattened_transforms(bs));
    lemma_color_elems_len(instance_textures(bs));
}

proof fn lemma_flattened_transforms_len(bs: Seq<GBatch>)
    ensures
        flattened_transforms(bs).len() == total_instances(bs),
    decreases bs.len(),
{
    if bs.len() > 0 {
        lemma_flattened_transforms_len(bs.drop_last());
        lemma_instance_count_prefix_eq_all(bs);
    }
}

proof fn lemma_instance_textures_len(bs: Seq<GBatch>)
    ensures
        instance_textures(bs).len() == total_instances(bs),
    decreases bs.len(),
{
    if bs.len() > 0 {
        lemma_instance_textures_len(bs.drop_last());
        lemma_instance_count_prefix_eq_all(bs);
    }
}

proof fn lemma_instance_count_prefix_eq_all(bs: Seq<GBatch>)
    requires
        bs.len() > 0,
    ensures
        total_instances(bs) == total_instances(bs.drop_last()) + bs.last().transforms.len(),
{
    lemma_instance_count_prefix_eq(bs, bs.len() - 1);
}

proof fn lemma_transform_elems_len(ts: Seq<Transform>)
    ensures
        transform_elems(ts).len() == 16 * ts.len(),
    decreases ts.len(),
{
    if ts.len() > 0 {
        lemma_transform_elems_len(ts.drop_last());
    }
}

proof fn lemma_color_elems_len(ts: Seq<TextureType>)
    ensures
        color_elems(ts).len() == 4 * ts.len(),
    decreases ts.len(),
{
    if ts.len() > 0 {
        lemma_color_elems_len(ts.drop_last());
    }
}

proof fn lemma_transform_elems_push(ts: Seq<Transform>, t: Transform)
    ensures
        transform_elems(ts.push(t)) == transform_elems(ts) + t.elements@,
{
    assert(ts.push(t).drop_last() =~= ts);
}

proof fn lemma_color_elems_push(ts: Seq<TextureType>, t: TextureType)
    ensures
        color_elems(ts.push(t)) == color_elems(ts) + ({
            let c = texture_color_bits(t);
            seq![c.0, c.1, c.2, c.3]
        }),
{
    assert(ts.push(t).drop_last() =~= ts);
}

proof fn lemma_flattened_transforms_index(bs: Seq<GBatch>, i: int, j: int)
    requires
        0 <= i < bs.len(),
        0 <= j < bs[i].transforms.len(),
    ensures
        0 <= instance_count_prefix(bs, i) + j < total_instances(bs),
        flattened_transforms(bs)[instance_count_prefix(bs, i) + j] == bs[i].transforms[j],
    decreases bs.len(),
{
    lemma_flattened_transforms_len(bs);
    lemma_instance_count_prefix_mono(bs, 0, i);
    lemma_instance_count_prefix_mono(bs, i + 1, bs.len() as int);
    if i == bs.len() - 1 {
        lemma_flattened_transforms_len(bs.drop_last());
        lemma_instance_count_prefix_eq(bs, i);
    } else {
        lemma_flattened_transforms_index(bs.drop_last(), i, j);
        lemma_instance_count_prefix_eq(bs, i);
        lemma_flattened_transforms_len(bs.drop_last());
        lemma_instance_count_prefix_mono(bs.drop_last(), i + 1, bs.len() - 1);
    }
}

proof fn lemma_instance_textures_index(bs: Seq<GBatch>, i: int, j: int)
    requires
        0 <= i < bs.len(),
        0 <= j < bs[i].transforms.len(),
    ensures
        0 <= instance_count_prefix(bs, i) + j < total_instances(bs),
        instance_textures(bs)[instance_count_prefix(bs, i) + j] == bs[i].texture,
    decreases bs.len(),
{
    lemma_instance_textures_len(bs);
    lemma_instance_count_prefix_mono(bs, 0, i);
    lemma_instance_count_prefix_mono(bs, i + 1, bs.len() as int);
    if i == bs.len() - 1 {
        lemma_instance_textures_len(bs.drop_last());
        lemma_instance_count_prefix_eq(bs, i);
    } else {
        lemma_instance_textures_index(bs.drop_last(), i, j);
        lemma_instance_count_prefix_eq(bs, i);
        lemma_instance_textures_len(bs.drop_last());
        lemma_instance_count_prefix_mono(bs.drop_last(), i + 1, bs.len() - 1);
    }
}

proof fn lemma_transform_elems_subrange(ts: Seq<Transform>, k: int)
    requires
        0 <= k < ts.len(),
    ensures
        transform_elems(ts).subrange(16 * k, 16 * k + 16) == ts[k].elements@,
    decreases ts.len(),
{
    lemma_transform_elems_len(ts);
    if k == ts.len() - 1 {
        lemma_transform_elems_len(ts.drop_last());
        assert(transform_elems(ts).subrange(16 * k, 16 * k + 16) =~= ts[k].elements@);
    } else {
        lemma_transform_elems_subrange(ts.drop_last(), k);
        lemma_transform_elems_len(ts.drop_last());
        assert(transform_elems(ts).subrange(16 * k, 16 * k + 16) =~= transform_elems(
            ts.drop_last(),
        ).subrange(16 * k, 16 * k + 16));
    }
}

proof fn lemma_color_elems_subrange(ts: Seq<TextureType>, k: int)
    requires
        0 <= k < ts.len(),
    ensures
        color_elems(ts).subrange(4 * k, 4 * k + 4) == ({
            let c = texture_color_bits(ts[k]);
            seq![c.0, c.1, c.2, c.3]
        }),
    decreases ts.len(),
{
    lemma_color_elems_len(ts);
    if k == ts.len() - 1 {
        lemma_color_elems_len(ts.drop_last());
        let c = texture_color_bits(ts[k]);
        assert(color_elems(ts).subrange(4 * k, 4 * k + 4) =~= seq![c.0, c.1, c.2, c.3]);
    } else {
        lemma_color_elems_subrange(ts.drop_last(), k);
        lemma_color_elems_len(ts.drop_last());
        assert(color_elems(ts).subrange(4 * k, 4 * k + 4) =~= color_elems(
            ts.drop_last(),
        ).subrange(4 * k, 4 * k + 4));
    }
}

/// The packed instance arrays are rigidly co-indexed: the instance at batch
/// `i`, intra-batch position `j`, has flattened instance index
/// `k = instance_count_prefix(bs, i) + j`; its transform occupies elements
/// `16k..16k+16` of the packed transform array, and the color channels of
/// its batch's texture occupy elements `4k..4k+4` of the packed color array.
pub proof fn lemma_instance_arrays_co_indexed(bs: Seq<GBatch>, i: int, j: int)
    requires
        0 <= i < bs.len(),
        0 <= j < bs[i].transforms.len(),
    ensures
        ({
            let k = instance_count_prefix(bs, i) + j;
            &&& 0 <= k < total_instances(bs)
            &&& flattened_transforms(bs)[k] == bs[i].transforms[j]
            &&& instance_textures(bs)[k] == bs[i].texture
            &&& transform_elems(flattened_transforms(bs)).subrange(16 * k, 16 * k + 16)
                == bs[i].transforms[j].elements@
            &&& color_elems(instance_textures(bs)).subrange(4 * k, 4 * k + 4) == ({
                let c = texture_color_bits(bs[i].texture);
                seq![c.0, c.1, c.2, c.3]
            })
        }),
{
    let k = instance_count_prefix(bs, i) + j;
    lemma_flattened_transforms_index(bs, i, j);
    lemma_instance_textures_index(bs, i, j);
    lemma_flattened_transforms_len(bs);
    lemma_instance_textures_len(bs);
    lemma_transform_elems_subrange(flattened_transforms(bs), k);
    lemma_color_elems_subrange(instance_textures(bs), k);
}

/// Flatten the transform matrices of every batch, in batch order then
/// intra-batch order, into one linear element array: 16 elements for each
/// instance, column-major.
pub fn merge_matrices(objects: &Vec<&Batch>) -> (r: Vec<u32>)
    ensures
        r@ == transform_elems(flattened_transforms(deref_batches(objects@))),
        r@.len() == 16 * total_instances(deref_batches(objects@)),
{
    let ghost bs = deref_batches(objects@);
    let mut matrices: Vec<u32> = Vec::new();
    let ghost mut ts_done: Seq<Transform> = Seq::empty();
    let mut k: usize = 0;
    while k < objects.len()
        invariant
            k <= objects@.len(),
            bs == deref_batches(objects@),
            ts_done == flattened_transforms(bs.subrange(0, k as int)),
            matrices@ == transform_elems(ts_done),
        decreases objects@.len() - k,
    {
        let o: &Batch = objects[k];
        proof {
            assert(bs[k as int] == o@);
            assert(bs.subrange(0, k + 1).drop_last() =~= bs.subrange(0, k as int));
        }
        let mut j: usize = 0;
        while j < o.transform_m.len()
            invariant
                j <= o.transform_m@.len(),
                ts_done == flattened_transforms(bs.subrange(0, k as int)) + o.transform_m@
                    .subrange(0, j as int),
                matrices@ == transform_elems(ts_done),
            decreases o.transform_m@.len() - j,
        {
            let t = o.transform_m[j];
            let mut e: usize = 0;
            while e < 16
                invariant
                    e <= 16,
                    t == o.transform_m@[j as int],
                    j < o.transform_m@.len(),
                    matrices@ == transform_elems(ts_done) + t.elements@.subrange(0, e as int),
                decreases 16 - e,
            {
                matrices.push(t.elements[e]);
                proof {
                    assert(matrices@ =~= transform_elems(ts_done) + t.elements@.subrange(
                        0,
                        e + 1,
                    ));
                }
                e += 1;
            }
            proof {
                assert(t.elements@.subrange(0, 16) =~= t.elements@);
                lemma_transform_elems_push(ts_done, t);
                ts_done = ts_done.push(t);
                assert(ts_done =~= flattened_transforms(bs.subrange(0, k as int))
                    + o.transform_m@.subrange(0, j + 1));
            }
            j += 1;
        }
        proof {
            assert(o.transform_m@.subrange(0, o.transform_m@.len() as int) =~= o.transform_m@);
            assert(flattened_transforms(bs.subrange(0, k + 1)) == flattened_transforms(
                bs.subrange(0, k as int),
            ) + bs[k as int].transforms);
        }
        k += 1;
    }
    proof {
        assert(bs.subrange(0, bs.len() as int) =~= bs);
        lemma_packed_lengths(bs);
    }
    matrices
}

/// Pack the color of every instance, in batch order then intra-batch order,
/// into one linear channel array: four channels (r, g, b, a) per instance,
/// determined by the instance's batch texture.
pub fn get_object_colors(objects: &Vec<&Batch>) -> (r: Vec<u32>)
    ensures
        r@ == color_elems(instance_textures(deref_batches(objects@))),
        r@.len() == 4 * total_instances(deref_batches(objects@)),
{
    let ghost bs = deref_batches(objects@);
    let mut colors: Vec<u32> = Vec::new();
    let ghost mut tx_done: Seq<TextureType> = Seq::empty();
    let mut k: usize = 0;
    while k < objects.len()
        invariant
            k <= objects@.len(),
            bs == deref_batches(objects@),
            tx_done == instance_textures(bs.subrange(0, k as int)),
            colors@ == color_elems(tx_done),
        decreases objects@.len() - k,
    {
        let o: &Batch = objects[k];
        proof {
            assert(bs[k as int] == o@);
            assert(bs.subrange(0, k + 1).drop_last() =~= bs.subrange(0, k as int));
        }
        let mut j: usize = 0;
        while j < o.transform_m.len()
            invariant
                j <= o.transform_m@.len(),
                o@ == bs[k as int],
                0 <= k < bs.len(),
                tx_done == instance_textures(bs.subrange(0, k as int)) + Seq::new(
                    j as nat,
                    |i: int| o.texture,
                ),
                colors@ == color_elems(tx_done),
            decreases o.transform_m@.len() - j,
        {
            match o.texture {
                TextureType::Water => {
                    colors.push(CHANNEL_1_BITS);
                    colors.push(CHANNEL_41_BITS);
                    colors.push(CHANNEL_95_BITS);
                    colors.push(F32_ONE_BITS);
                },
                TextureType::Grass => {
                    colors.push(CHANNEL_52_BITS);
                    colors.push(CHANNEL_140_BITS);
                    colors.push(CHANNEL_49_BITS);
                    colors.push(F32_ONE_BITS);
                },
            }
            proof {
                lemma_color_elems_push(tx_done, o.texture);
                tx_done = tx_done.push(o.texture);
                assert(tx_done =~= instance_textures(bs.subrange(0, k as int)) + Seq::new(
                    (j + 1) as nat,
                    |i: int| o.texture,
                ));
                let c = texture_color_bits(o.texture);
                assert(colors@ =~= color_elems(tx_done.drop_last()) + seq![c.0, c.1, c.2, c.3]);
                assert(tx_done.drop_last() =~= tx_done.subrange(0, tx_done.len() - 1));
            }
            j += 1;
        }
        proof {
            assert(instance_textures(bs.subrange(0, k + 1)) == instance_textures(
                bs.subrange(0, k as int),
            ) + Seq::new(bs[k as int].transforms.len(), |i: int| bs[k as int].texture));
            assert(tx_done =~= instance_textures(bs.subrange(0, k + 1)));
        }
        k += 1;
    }
    proof {
        assert(bs.subrange(0, bs.len() as int) =~= bs);
        lemma_packed_lengths(bs);
    }
    colors
}

/// The contents of a polygon list, one index sequence per polygon.
pub open spec fn polys_view(s: Seq<Vec<usize>>) -> Seq<Seq<usize>> {
    s.map_values(|p: Vec<usize>| p@)
}

/// The triangle-list indices of one polygon: a triangle stays as it is, a
/// quad is split into the two triangles (0,1,2) and (2,3,0).
pub open spec fn polygon_indices(p: Seq<usize>) -> Seq<usize> {
    if p.len() == 3 {
        p
    } else {
        seq![p[0], p[1], p[2], p[2], p[3], p[0]]
    }
}

/// The triangle-list indices of a polygon sequence, concatenated.
pub open spec fn expand_polygons(ps: Seq<Seq<usize>>) -> Seq<usize>
    decreases ps.len(),
{
    if ps.len() == 0 {
        Seq::empty()
    } else {
        expand_polygons(ps.drop_last()) + polygon_indices(ps.last())
    }
}

/// An upper bound on all polygon indices carries over to the expanded
/// triangle-list indices.
pub proof fn lemma_expand_polygons_bound(ps: Seq<Seq<usize>>, bound: int)
    requires
        forall|i: int| 0 <= i < ps.len() ==> ((#[trigger] ps[i]).len() == 3 || ps[i].len() == 4),
        forall|i: int, j: int| 0 <= i < ps.len() && 0 <= j < ps[i].len() ==> (#[trigger] ps[i][j])
            < bound,
    ensures
        forall|i: int| 0 <= i < expand_polygons(ps).len() ==> (#[trigger] expand_polygons(ps)[i])
            < bound,
    decreases ps.len(),
{
    if ps.len() > 0 {
        lemma_expand_polygons_bound(ps.drop_last(), bound);
        let pre = expand_polygons(ps.drop_last());
        let last = polygon_indices(ps.last());
        assert forall|i: int| 0 <= i < expand_polygons(ps).len() implies (
        #[trigger] expand_polygons(ps)[i]) < bound by {
            if i >= pre.len() {
                let i0 = i - pre.len();
                assert(expand_polygons(ps)[i] == last[i0]);
                if ps.last().len() == 3 {
                    assert(last[i0] == ps[ps.len() - 1][i0]);
                } else {
                    assert(ps[ps.len() - 1][0] < bound);
                    assert(ps[ps.len() - 1][1] < bound);
                    assert(ps[ps.len() - 1][2] < bound);
                    assert(ps[ps.len() - 1][3] < bound);
                }
            }
        }
    }
}

/// Convert a polygon list (triangles and quads) into 16-bit triangle-list
/// index data.
pub fn triangulate_polygons(polys: &Vec<Vec<usize>>) -> (r: Vec<u16>)
    requires
        forall|i: int| 0 <= i < polys@.len() ==> ((#[trigger] polys@[i])@.len() == 3
            || polys@[i]@.len() == 4),
        forall|i: int, j: int| 0 <= i < polys@.len() && 0 <= j < polys@[i]@.len() ==> (
        #[trigger] polys@[i]@[j]) < 65536,
    ensures
        r@.len() == expand_polygons(polys_view(polys@)).len(),
        forall|i: int| 0 <= i < r@.len() ==> r@[i] == expand_polygons(polys_view(polys@))[i],
{
    let ghost ps = polys_view(polys@);
    let mut out: Vec<u16> = Vec::new();
    let mut k: usize = 0;
    while k < polys.len()
        invariant
            k <= polys@.len(),
            ps == polys_view(polys@),
            forall|i: int| 0 <= i < polys@.len() ==> ((#[trigger] polys@[i])@.len() == 3
                || polys@[i]@.len() == 4),
            forall|i: int, j: int| 0 <= i < polys@.len() && 0 <= j < polys@[i]@.len() ==> (
            #[trigger] polys@[i]@[j]) < 65536,
            out@.len() == expand_polygons(ps.subrange(0, k as int)).len(),
            forall|i: int| 0 <= i < out@.len() ==> out@[i] == expand_polygons(
                ps.subrange(0, k as int),
            )[i],
        decreases polys@.len() - k,
    {
        let ghost prefix = ps.subrange(0, k as int);
        let p: &Vec<usize> = &polys[k];
        proof {
            assert(ps[k as int] == polys@[k as int]@);
            assert(ps.subrange(0, k + 1).drop_last() =~= prefix);
        }
        if p.len() == 3 {
            out.push(p[0] as u16);
            out.push(p[1] as u16);
            out.push(p[2] as u16);
        } else {
            out.push(p[0] as u16);
            out.push(p[1] as u16);
            out.push(p[2] as u16);
            out.push(p[2] as u16);
            out.push(p[3] as u16);
            out.push(p[0] as u16);
        }
        k += 1;
        proof {
            let ext = ps.subrange(0, k as int);
            assert(expand_polygons(ext) == expand_polygons(prefix) + polygon_indices(
                ps[k - 1],
            ));
            assert forall|i: int| 0 <= i < out@.len() implies out@[i] == expand_polygons(
                ext,
            )[i] by {
                if i >= expand_polygons(prefix).len() {
                    assert(expand_polygons(ext)[i] == polygon_indices(ps[k - 1])[i
                        - expand_polygons(prefix).len()]);
                }
            }
        }
    }
    proof {
        assert(ps.subrange(0, ps.len() as int) =~= ps);
    }
    out
}

/// Merge each mesh's vertex data into one combined vertex buffer and its
/// index data into one combined index buffer, re-basing every index by the
/// vertex count of the meshes appended before it. The merged vertex count
/// must stay within reach of the 16-bit index type.
pub fn merge_index_vertex_data(meshes: &Vec<&Mesh>) -> (r: (Vec<Vertex>, Vec<u16>))
    requires
        forall|j: int| 0 <= j < meshes@.len() ==> mesh_wf(*(#[trigger] meshes@[j])),
        vertex_count_sum(deref_meshes(meshes@)) <= 65536,
    ensures
        r.0@ == merged_vertices(deref_meshes(meshes@)),
        r.1@.len() == merged_indices(deref_meshes(meshes@)).len(),
        forall|i: int| 0 <= i < r.1@.len() ==> (#[trigger] r.1@[i]) == merged_indices(
            deref_meshes(meshes@),
        )[i],
{
    let ghost ms = deref_meshes(meshes@);
    let mut vertices: Vec<Vertex> = Vec::new();
    let mut indices: Vec<u16> = Vec::new();
    let mut vertex_count: usize = 0;
    let mut k: usize = 0;
    while k < meshes.len()
        invariant
            k <= meshes@.len(),
            ms == deref_meshes(meshes@),
            forall|j: int| 0 <= j < meshes@.len() ==> mesh_wf(*(#[trigger] meshes@[j])),
            vertex_count_sum(ms) <= 65536,
            vertex_count == vertex_count_sum(ms.subrange(0, k as int)),
            vertices@ == merged_vertices(ms.subrange(0, k as int)),
            indices@.len() == merged_indices(ms.subrange(0, k as int)).len(),
            forall|i: int| 0 <= i < indices@.len() ==> (#[trigger] indices@[i]) == merged_indices(
                ms.subrange(0, k as int),
            )[i],
        decreases meshes@.len() - k,
    {
        let m: &Mesh = meshes[k];
        proof {
            assert(ms[k as int] == *meshes@[k as int]);
            lemma_vertex_count_sum_prefix(ms, k + 1);
            assert(ms.subrange(0, k + 1).drop_last() =~= ms.subrange(0, k as int));
            assert(ms.subrange(0, k + 1).last() == ms[k as int]);
        }
        let ghost prefix = ms.subrange(0, k as int);
        let mut i: usize = 0;
        while i < m.vertices.len()
            invariant
                i <= m.vertices@.len(),
                vertices@ == merged_vertices(prefix) + m.vertices@.subrange(0, i as int),
            decreases m.vertices@.len() - i,
        {
            vertices.push(m.vertices[i]);
            proof {
                assert(vertices@ =~= merged_vertices(prefix) + m.vertices@.subrange(
                    0,
                    i + 1,
                ));
            }
            i += 1;
        }
        proof {
            assert(m.vertices@.subrange(0, m.vertices@.len() as int) =~= m.vertices@);
        }
        let mut j: usize = 0;
        while j < m.indices.len()
            invariant
                j <= m.indices@.len(),
                mesh_wf(*m),
                ms[k as int] == *m,
                0 <= k < ms.len(),
                vertex_count == vertex_count_sum(prefix),
                prefix == ms.subrange(0, k as int),
                vertex_count + m.vertices@.len() <= 65536,
                indices@.len() == merged_indices(prefix).len() + j,
                forall|i: int| 0 <= i < merged_indices(prefix).len() ==> (
                #[trigger] indices@[i]) == merged_indices(prefix)[i],
                forall|i: int| 0 <= i < j ==> (#[trigger] indices@[merged_indices(
                    prefix,
                ).len() + i]) == m.indices@[i] + vertex_count_sum(prefix),
            decreases m.indices@.len() - j,
        {
            assert(m.indices@[j as int] < m.vertices@.len());
            let rebased: u16 = m.indices[j] + (vertex_count as u16);
            indices.push(rebased);
            j += 1;
        }
        vertex_count = vertex_count + m.vertices.len();
        k += 1;
        proof {
            let ext = ms.subrange(0, k as int);
            assert(merged_vertices(ext) == merged_vertices(prefix) + ms[k - 1].vertices@);
            assert(merged_indices(ext) == merged_indices(prefix) + rebased_indices(
                ms[k - 1],
                vertex_count_sum(prefix),
            ));
            assert forall|i: int| 0 <= i < indices@.len() implies (#[trigger] indices@[i])
                == merged_indices(ext)[i] by {
                if i >= merged_indices(prefix).len() {
                    let i0 = i - merged_indices(prefix).len();
                    assert(indices@[merged_indices(prefix).len() + i0] == ms[k - 1].indices@[i0]
                        + vertex_count_sum(prefix));
                }
            }
        }
    }
    proof {
        assert(ms.subrange(0, ms.len() as int) =~= ms);
    }
    (vertices, indices)
}

/// Index count of the first mesh of the given type in the registry list
/// (0 when the type does not occur).
pub fn index_count(meshes: &Vec<&Mesh>, m_type: MeshType) -> (r: u32)
    requires
        forall|j: int| 0 <= j < meshes@.len() ==> (#[trigger] meshes@[j]).indices@.len()
            <= u32::MAX,
    ensures
        r == index_count_of(deref_meshes(meshes@), m_type),
{
    let ghost ms = deref_meshes(meshes@);
    let mut k: usize = 0;
    while k < meshes.len()
        invariant
            k <= meshes@.len(),
            ms == deref_meshes(meshes@),
            forall|j: int| 0 <= j < meshes@.len() ==> (#[trigger] meshes@[j]).indices@.len()
                <= u32::MAX,
            forall|j: int| 0 <= j < k ==> (#[trigger] ms[j]).m_type != m_type,
        decreases meshes@.len() - k,
    {
        let m: &Mesh = meshes[k];
        proof {
            assert(ms[k as int] == *meshes@[k as int]);
        }
        if m.m_type == m_type {
            proof {
                lemma_first_occurrence_at(ms, m_type, k as int);
            }
            return m.indices.len() as u32;
        }
        k += 1;
    }
    proof {
        lemma_first_occurrence_none(ms, m_type);
    }
    0
}

/// Offset of the first mesh of the given type within the merged index data:
/// the summed index counts of the meshes listed before it. When the type
/// does not occur, the total index count of all meshes.
pub fn index_offset(meshes: &Vec<&Mesh>, m_type: MeshType) -> (r: u32)
    requires
        index_len_sum(deref_meshes(meshes@), meshes@.len() as int) <= u32::MAX,
    ensures
        r == index_offset_of(deref_meshes(meshes@), m_type),
{
    let ghost ms = deref_meshes(meshes@);
    let mut offset: u32 = 0;
    let mut k: usize = 0;
    while k < meshes.len()
        invariant
            k <= meshes@.len(),
            ms == deref_meshes(meshes@),
            index_len_sum(ms, ms.len() as int) <= u32::MAX,
            offset == index_len_sum(ms, k as int),
            forall|j: int| 0 <= j < k ==> (#[trigger] ms[j]).m_type != m_type,
        decreases meshes@.len() - k,
    {
        let m: &Mesh = meshes[k];
        proof {
            assert(ms[k as int] == *meshes@[k as int]);
        }
        if m.m_type == m_type {
            proof {
                lemma_first_occurrence_at(ms, m_type, k as int);
            }
            return offset;
        }
        proof {
            lemma_index_len_sum_mono(ms, k + 1, ms.len() as int);
        }
        offset = offset + (m.indices.len() as u32);
        k += 1;
    }
    proof {
        lemma_first_occurrence_none(ms, m_type);
    }
    offset
}

/// Index layout of a merged registry: for a mesh list whose types occur once
/// each, the index offset of the mesh at position `j` is the total index
/// count of the meshes before it, and its index count is its own.
pub proof fn lemma_merged_index_layout(ms: Seq<Mesh>, j: int)
    requires
        0 <= j < ms.len(),
        forall|k: int| 0 <= k < j ==> (#[trigger] ms[k]).m_type != ms[j].m_type,
    ensures
        index_offset_of(ms, ms[j].m_type) == index_len_sum(ms, j),
        index_count_of(ms, ms[j].m_type) == ms[j].indices@.len(),
{
    lemma_first_occurrence_at(ms, ms[j].m_type, j);
}

} // verus!
