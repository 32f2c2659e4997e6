//! Indirect draw descriptors: one fixed-size record per batch with running
//! instance-base accounting, and their little-endian wire encoding.

use crate::shapes::{
    Batch, GBatch, Mesh, deref_batches, deref_meshes, index_count, index_count_of,
    index_len_sum, index_offset, index_offset_of, instance_count_prefix,
    lemma_index_len_sum_mono, lemma_instance_count_prefix_mono, total_instances,
};
use vstd::prelude::*;

verus! {

/// One indexed, instanced draw call, consumed by a multi-draw-indirect
/// submission without per-draw calls: five unsigned 32-bit fields, listed
/// in their wire order.
#[derive(Clone, Copy, Debug, PartialEq, Eq, Structural)]
pub struct IndirectDrawDescriptor {
    pub index_count: u32,
    pub instance_count: u32,
    pub first_index: u32,
    pub base_vertex: u32,
    pub first_instance: u32,
}

/// What an emitted descriptor list holds, batch by batch: index count and
/// first-index from the registry entry of the batch's mesh type, instance
/// count from the batch, base vertex 0, and first-instance equal to the
/// total instance count of the batches before.
pub open spec fn emitted_descriptors(
    ms: Seq<Mesh>,
    bs: Seq<GBatch>,
    ds: Seq<IndirectDrawDescriptor>,
) -> bool {
    &&& ds.len() == bs.len()
    &&& forall|i: int| 0 <= i < ds.len() ==> (#[trigger] ds[i]).index_count == index_count_of(
        ms,
        bs[i].m_type,
    )
    &&& forall|i: int| 0 <= i < ds.len() ==> (#[trigger] ds[i]).instance_count
        == bs[i].transforms.len()
    &&& forall|i: int| 0 <= i < ds.len() ==> (#[trigger] ds[i]).first_index == index_offset_of(
        ms,
        bs[i].m_type,
    )
    &&& forall|i: int| 0 <= i < ds.len() ==> (#[trigger] ds[i]).base_vertex == 0
    &&& forall|i: int| 0 <= i < ds.len() ==> (#[trigger] ds[i]).first_instance
        == instance_count_prefix(bs, i)
}

/// Emit one indirect draw descriptor per batch, in batch order. A batch
/// without transforms yields a zero-instance descriptor (a legal no-op
/// draw), so the running first-instance total stays intact for the batches
/// after it.
pub fn emit_indirect_descriptors(objects: &Vec<&Batch>, meshes: &Vec<&Mesh>) -> (r: Vec<
    IndirectDrawDescriptor,
>)
    requires
        index_len_sum(deref_meshes(meshes@), meshes@.len() as int) <= u32::MAX,
        total_instances(deref_batches(objects@)) <= u32::MAX,
    ensures
        emitted_descriptors(deref_meshes(meshes@), deref_batches(objects@), r@),
{
    let ghost ms = deref_meshes(meshes@);
    let ghost bs = deref_batches(objects@);
    proof {
        assert forall|j: int| 0 <= j < meshes@.len() implies (#[trigger] meshes@[j]).indices@.len()
            <= u32::MAX by {
            lemma_index_len_sum_mono(ms, 0, j);
            lemma_index_len_sum_mono(ms, j + 1, ms.len() as int);
            assert(ms[j] == *meshes@[j]);
        }
    }
    let mut out: Vec<IndirectDrawDescriptor> = Vec::new();
    let mut base_instance: u32 = 0;
    let mut k: usize = 0;
    while k < objects.len()
        invariant
            k <= objects@.len(),
            ms == deref_meshes(meshes@),
            bs == deref_batches(objects@),
            index_len_sum(ms, meshes@.len() as int) <= u32::MAX,
            total_instances(bs) <= u32::MAX,
            forall|j: int| 0 <= j < meshes@.len() ==> (#[trigger] meshes@[j]).indices@.len()
                <= u32::MAX,
            out@.len() == k,
            base_instance == instance_count_prefix(bs, k as int),
            emitted_descriptors(ms, bs.subrange(0, k as int), out@),
        decreases objects@.len() - k,
    {
        let o: &Batch = objects[k];
        proof {
            assert(bs[k as int] == o@);
            lemma_instance_count_prefix_mono(bs, k + 1, bs.len() as int);
        }
        let ic = index_count(meshes, o.m_type);
        let io = index_offset(meshes, o.m_type);
        let n = o.transform_m.len();
        out.push(
            IndirectDrawDescriptor {
                index_count: ic,
                instance_count: n as u32,
                first_index: io,
                base_vertex: 0,
                first_instance: base_instance,
            },
        );
        base_instance = base_instance + (n as u32);
        k += 1;
        proof {
            let sub = bs.subrange(0, k as int);
            let sub0 = bs.subrange(0, k - 1);
            assert forall|i: int| 0 <= i < k implies instance_count_prefix(sub, i)
                == instance_count_prefix(bs, i) by {
                lemma_instance_count_prefix_agree(sub, bs, i);
            }
            assert forall|i: int| 0 <= i < k - 1 implies instance_count_prefix(sub0, i)
                == instance_count_prefix(bs, i) by {
                lemma_instance_count_prefix_agree(sub0, bs, i);
            }
        }
    }
    proof {
        assert(bs.subrange(0, bs.len() as int) =~= bs);
    }
    out
}

proof fn lemma_instance_count_prefix_agree(bs1: Seq<GBatch>, bs2: Seq<GBatch>, n: int)
    requires
        0 <= n <= bs1.len(),
        n <= bs2.len(),
        forall|j: int| 0 <= j < n ==> (#[trigger] bs1[j]) == bs2[j],
    ensures
        instance_count_prefix(bs1, n) == instance_count_prefix(bs2, n),
    decreases n,
{
    if n > 0 {
        lemma_instance_count_prefix_agree(bs1, bs2, n - 1);
    }
}

/// First-instance accounting: in an emitted descriptor list the
/// first-instance values start at 0 and are non-decreasing, each batch's
/// first-instance plus its instance count is the next batch's
/// first-instance, and the last batch ends exactly at the total instance
/// count — the batches partition the flattened instance range with no gaps
/// and no overlaps.
pub proof fn lemma_first_instance_partition(
    ms: Seq<Mesh>,
    bs: Seq<GBatch>,
    ds: Seq<IndirectDrawDescriptor>,
)
    requires
        emitted_descriptors(ms, bs, ds),
    ensures
        ds.len() > 0 ==> ds[0].first_instance == 0,
        forall|i: int| 0 <= i < ds.len() - 1 ==> (#[trigger] ds[i]).first_instance
            + ds[i].instance_count == ds[i + 1].first_instance,
        forall|i: int| 0 <= i < ds.len() - 1 ==> (#[trigger] ds[i]).first_instance <= ds[i
            + 1].first_instance,
        ds.len() > 0 ==> ds[ds.len() - 1].first_instance + ds[ds.len() - 1].instance_count
            == total_instances(bs),
{
}

/// Determinism of emission: over one registry and one batch list there is
/// only one descriptor list meeting the emission contract, and hence only
/// one wire encoding.
pub proof fn lemma_emission_deterministic(
    ms: Seq<Mesh>,
    bs: Seq<GBatch>,
    ds1: Seq<IndirectDrawDescriptor>,
    ds2: Seq<IndirectDrawDescriptor>,
)
    requires
        emitted_descriptors(ms, bs, ds1),
        emitted_descriptors(ms, bs, ds2),
    ensures
        ds1 == ds2,
        descriptors_bytes(ds1) == descriptors_bytes(ds2),
{
    assert(ds1 =~= ds2);
}

/// Determinism of the whole derivation: grouping an object list is a
/// function of the list alone, so re-running grouping and emission over the
/// same objects and registry can only reproduce the same descriptor list,
/// byte for byte.
pub proof fn lemma_pipeline_deterministic(
    ms: Seq<Mesh>,
    objects: Seq<crate::batching::SceneObject>,
    ds1: Seq<IndirectDrawDescriptor>,
    ds2: Seq<IndirectDrawDescriptor>,
)
    requires
        emitted_descriptors(ms, crate::batching::group_batches(objects), ds1),
        emitted_descriptors(ms, crate::batching::group_batches(objects), ds2),
    ensures
        ds1 == ds2,
        descriptors_bytes(ds1) == descriptors_bytes(ds2),
{
    lemma_emission_deterministic(ms, crate::batching::group_batches(objects), ds1, ds2);
}

/// The four little-endian bytes of a 32-bit value.
pub open spec fn u32_le_bytes(x: u32) -> Seq<u8> {
    seq![
        (x % 256) as u8,
        ((x / 256) % 256) as u8,
        ((x / 65536) % 256) as u8,
        ((x / 16777216) % 256) as u8,
    ]
}

/// The 20-byte wire form of one descriptor: its five fields in order, each
/// as four little-endian bytes.
pub open spec fn descriptor_bytes(d: IndirectDrawDescriptor) -> Seq<u8> {
    u32_le_bytes(d.index_count) + u32_le_bytes(d.instance_count) + u32_le_bytes(d.first_index)
        + u32_le_bytes(d.base_vertex) + u32_le_bytes(d.first_instance)
}

/// The concatenated wire form of a descriptor list.
pub open spec fn descriptors_bytes(ds: Seq<IndirectDrawDescriptor>) -> Seq<u8>
    decreases ds.len(),
{
    if ds.len() == 0 {
        Seq::empty()
    } else {
        descriptors_bytes(ds.drop_last()) + descriptor_bytes(ds.last())
    }
}

fn push_u32_le(out: &mut Vec<u8>, x: u32)
    ensures
        final(out)@ == old(out)@ + u32_le_bytes(x),
{
    out.push((x % 256) as u8);
    out.push(((x / 256) % 256) as u8);
    out.push(((x / 65536) % 256) as u8);
    out.push(((x / 16777216) % 256) as u8);
    proof {
        assert(out@ =~= old(out)@ + u32_le_bytes(x));
    }
}

/// Encode a descriptor list into its 20-bytes-per-descriptor wire form,
/// ready to upload as an indirect command buffer.
pub fn encode_descriptors(descriptors: &Vec<IndirectDrawDescriptor>) -> (r: Vec<u8>)
    ensures
        r@ == descriptors_bytes(descriptors@),
        r@.len() == 20 * descriptors@.len(),
{
    let mut out: Vec<u8> = Vec::new();
    let mut k: usize = 0;
    while k < descriptors.len()
        invariant
            k <= descriptors@.len(),
            out@ == descriptors_bytes(descriptors@.subrange(0, k as int)),
        decreases descriptors@.len() - k,
    {
        let d = descriptors[k];
        push_u32_le(&mut out, d.index_count);
        push_u32_le(&mut out, d.instance_count);
        push_u32_le(&mut out, d.first_index);
        push_u32_le(&mut out, d.base_vertex);
        push_u32_le(&mut out, d.first_instance);
        k += 1;
        proof {
            assert(descriptors@.subrange(0, k as int).drop_last() =~= descriptors@.subrange(
                0,
                k - 1,
            ));
            assert(out@ =~= descriptors_bytes(descriptors@.subrange(0, k as int)));
        }
    }
    proof {
        assert(descriptors@.subrange(0, descriptors@.len() as int) =~= descriptors@);
        lemma_descriptors_bytes_len(descriptors@);
    }
    out
}

proof fn lemma_descriptors_bytes_len(ds: Seq<IndirectDrawDescriptor>)
    ensures
        descriptors_bytes(ds).len() == 20 * ds.len(),
    decreases ds.len(),
{
    if ds.len() > 0 {
        lemma_descriptors_bytes_len(ds.drop_last());
    }
}

} // verus!
