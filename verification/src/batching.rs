//! Grouping a flat list of scene objects into batches keyed by
//! (mesh type, texture type), preserving every object's transform and the
//! relative order of objects that share a key.

use crate::shapes::{Batch, GBatch, MeshType, TextureType, Transform, total_instances};
use vstd::prelude::*;

verus! {

/// One drawable instance: which mesh, which texture, and its transform.
#[derive(Clone, Copy, Debug)]
pub struct SceneObject {
    pub m_type: MeshType,
    pub texture: TextureType,
    pub transform: Transform,
}

/// Position of the first batch with the given key, or -1 when there is none.
pub open spec fn find_batch(bs: Seq<GBatch>, m: MeshType, t: TextureType) -> int
    decreases bs.len(),
{
    if bs.len() == 0 {
        -1
    } else if bs[0].m_type == m && bs[0].texture == t {
        0
    } else {
        let r = find_batch(bs.drop_first(), m, t);
        if r < 0 {
            -1
        } else {
            1 + r
        }
    }
}

/// One grouping step: append the object's transform to the batch with its
/// key, or open a new batch at the end of the list.
pub open spec fn insert_object(bs: Seq<GBatch>, o: SceneObject) -> Seq<GBatch> {
    let i = find_batch(bs, o.m_type, o.texture);
    if i < 0 {
        bs.push(GBatch { m_type: o.m_type, texture: o.texture, transforms: seq![o.transform] })
    } else {
        bs.update(
            i,
            GBatch {
                m_type: bs[i].m_type,
                texture: bs[i].texture,
                transforms: bs[i].transforms.push(o.transform),
            },
        )
    }
}

/// The batches of an object list: objects are taken in input order; each
/// joins the batch with its key, and first-seen key order fixes batch order.
pub open spec fn group_batches(objects: Seq<SceneObject>) -> Seq<GBatch>
    decreases objects.len(),
{
    if objects.len() == 0 {
        Seq::empty()
    } else {
        insert_object(group_batches(objects.drop_last()), objects.last())
    }
}

/// Every batch is the first with its key: no two batches share a key.
pub open spec fn keys_distinct(bs: Seq<GBatch>) -> bool {
    forall|i: int| 0 <= i < bs.len() ==> find_batch(
        bs,
        (#[trigger] bs[i]).m_type,
        bs[i].texture,
    ) == i
}

/// The transforms of the objects with the given key, in input order.
pub open spec fn key_transforms(objects: Seq<SceneObject>, m: MeshType, t: TextureType) -> Seq<
    Transform,
>
    decreases objects.len(),
{
    if objects.len() == 0 {
        Seq::empty()
    } else {
        let pre = key_transforms(objects.drop_last(), m, t);
        if objects.last().m_type == m && objects.last().texture == t {
            pre.push(objects.last().transform)
        } else {
            pre
        }
    }
}

proof fn lemma_find_batch_props(bs: Seq<GBatch>, m: MeshType, t: TextureType)
    ensures
        -1 <= find_batch(bs, m, t) < bs.len(),
        find_batch(bs, m, t) >= 0 ==> bs[find_batch(bs, m, t)].m_type == m && bs[find_batch(
            bs,
            m,
            t,
        )].texture == t,
        forall|k: int| 0 <= k < find_batch(bs, m, t) ==> !((#[trigger] bs[k]).m_type == m
            && bs[k].texture == t),
        find_batch(bs, m, t) == -1 ==> forall|k: int| 0 <= k < bs.len() ==> !((
        #[trigger] bs[k]).m_type == m && bs[k].texture == t),
    decreases bs.len(),
{
    if bs.len() > 0 && !(bs[0].m_type == m && bs[0].texture == t) {
        lemma_find_batch_props(bs.drop_first(), m, t);
        assert forall|k: int| 0 <= k < find_batch(bs, m, t) implies !((#[trigger] bs[k]).m_type
            == m && bs[k].texture == t) by {
            if k > 0 {
                assert(bs[k] == bs.drop_first()[k - 1]);
            }
        }
        if find_batch(bs, m, t) == -1 {
            assert forall|k: int| 0 <= k < bs.len() implies !((#[trigger] bs[k]).m_type == m
                && bs[k].texture == t) by {
                if k > 0 {
                    assert(bs[k] == bs.drop_first()[k - 1]);
                }
            }
        }
    }
}

proof fn lemma_find_batch_at(bs: Seq<GBatch>, m: MeshType, t: TextureType, j: int)
    requires
        0 <= j < bs.len(),
        bs[j].m_type == m && bs[j].texture == t,
        forall|k: int| 0 <= k < j ==> !((#[trigger] bs[k]).m_type == m && bs[k].texture == t),
    ensures
        find_batch(bs, m, t) == j,
    decreases bs.len(),
{
    if j > 0 {
        lemma_find_batch_at(bs.drop_first(), m, t, j - 1);
    }
}

proof fn lemma_find_batch_none(bs: Seq<GBatch>, m: MeshType, t: TextureType)
    requires
        forall|k: int| 0 <= k < bs.len() ==> !((#[trigger] bs[k]).m_type == m && bs[k].texture
            == t),
    ensures
        find_batch(bs, m, t) == -1,
    decreases bs.len(),
{
    if bs.len() > 0 {
        lemma_find_batch_none(bs.drop_first(), m, t);
    }
}

proof fn lemma_find_batch_push(bs: Seq<GBatch>, b: GBatch, m: MeshType, t: TextureType)
    ensures
        find_batch(bs.push(b), m, t) == if find_batch(bs, m, t) >= 0 {
            find_batch(bs, m, t)
        } else if b.m_type == m && b.texture == t {
            bs.len() as int
        } else {
            -1
        },
{
    lemma_find_batch_props(bs, m, t);
    let r = find_batch(bs, m, t);
    if r >= 0 {
        lemma_find_batch_at(bs.push(b), m, t, r);
    } else if b.m_type == m && b.texture == t {
        lemma_find_batch_at(bs.push(b), m, t, bs.len() as int);
    } else {
        lemma_find_batch_none(bs.push(b), m, t);
    }
}

proof fn lemma_find_batch_update_keep_key(
    bs: Seq<GBatch>,
    f: int,
    b2: GBatch,
    m: MeshType,
    t: TextureType,
)
    requires
        0 <= f < bs.len(),
        b2.m_type == bs[f].m_type,
        b2.texture == bs[f].texture,
    ensures
        find_batch(bs.update(f, b2), m, t) == find_batch(bs, m, t),
{
    lemma_find_batch_props(bs, m, t);
    let r = find_batch(bs, m, t);
    if r >= 0 {
        lemma_find_batch_at(bs.update(f, b2), m, t, r);
    } else {
        lemma_find_batch_none(bs.update(f, b2), m, t);
    }
}

proof fn lemma_instance_count_prefix_push(bs: Seq<GBatch>, b: GBatch, n: int)
    requires
        0 <= n <= bs.len(),
    ensures
        crate::shapes::instance_count_prefix(bs.push(b), n) == crate::shapes::instance_count_prefix(
            bs,
            n,
        ),
    decreases n,
{
    if n > 0 {
        lemma_instance_count_prefix_push(bs, b, n - 1);
    }
}

proof fn lemma_total_instances_push(bs: Seq<GBatch>, b: GBatch)
    ensures
        total_instances(bs.push(b)) == total_instances(bs) + b.transforms.len(),
{
    lemma_instance_count_prefix_push(bs, b, bs.len() as int);
}

proof fn lemma_instance_count_prefix_update(bs: Seq<GBatch>, f: int, b2: GBatch, n: int)
    requires
        0 <= f < bs.len(),
        0 <= n <= bs.len(),
    ensures
        crate::shapes::instance_count_prefix(bs.update(f, b2), n)
            == crate::shapes::instance_count_prefix(bs, n) + if f < n {
            b2.transforms.len() - bs[f].transforms.len()
        } else {
            0
        },
    decreases n,
{
    if n > 0 {
        lemma_instance_count_prefix_update(bs, f, b2, n - 1);
    }
}

/// Grouping is a length-preserving bijection on transforms: the batch keys
/// are pairwise distinct, no batch is empty, the total instance count equals
/// the object count, and the batch with a key holds exactly the transforms
/// of the objects with that key, in their relative input order.
pub proof fn lemma_group_batches_partition(objects: Seq<SceneObject>)
    ensures
        keys_distinct(group_batches(objects)),
        forall|i: int| 0 <= i < group_batches(objects).len() ==> (#[trigger] group_batches(
            objects,
        )[i]).transforms.len() > 0,
        total_instances(group_batches(objects)) == objects.len(),
        forall|m: MeshType, t: TextureType| find_batch(group_batches(objects), m, t) == -1
            ==> key_transforms(objects, m, t) == Seq::<Transform>::empty(),
        forall|m: MeshType, t: TextureType| #![auto] find_batch(group_batches(objects), m, t) >= 0
            ==> group_batches(objects)[find_batch(group_batches(objects), m, t)].transforms
            == key_transforms(objects, m, t),
    decreases objects.len(),
{
    if objects.len() > 0 {
        let pre = objects.drop_last();
        let o = objects.last();
        lemma_group_batches_partition(pre);
        let bs = group_batches(pre);
        let nbs = group_batches(objects);
        lemma_find_batch_props(bs, o.m_type, o.texture);
        let f = find_batch(bs, o.m_type, o.texture);
        if f < 0 {
            let nb = GBatch {
                m_type: o.m_type,
                texture: o.texture,
                transforms: seq![o.transform],
            };
            assert(nbs == bs.push(nb));
            lemma_total_instances_push(bs, nb);
            assert forall|m: MeshType, t: TextureType| #![auto] true implies find_batch(
                nbs,
                m,
                t,
            ) == if find_batch(bs, m, t) >= 0 {
                find_batch(bs, m, t)
            } else if nb.m_type == m && nb.texture == t {
                bs.len() as int
            } else {
                -1
            } by {
                lemma_find_batch_push(bs, nb, m, t);
            }
            assert forall|i: int| 0 <= i < nbs.len() implies find_batch(
                nbs,
                (#[trigger] nbs[i]).m_type,
                nbs[i].texture,
            ) == i by {
                if i < bs.len() {
                    assert(find_batch(bs, bs[i].m_type, bs[i].texture) == i);
                }
            }
            assert forall|m: MeshType, t: TextureType| #![auto] find_batch(nbs, m, t) >= 0
                implies nbs[find_batch(nbs, m, t)].transforms == key_transforms(
                objects,
                m,
                t,
            ) by {
                if m == o.m_type && t == o.texture {
                    assert(key_transforms(pre, m, t) == Seq::<Transform>::empty());
                    assert(key_transforms(objects, m, t) =~= seq![o.transform]);
                } else {
                    let r0 = find_batch(nbs, m, t);
                    lemma_find_batch_props(bs, m, t);
                    assert(find_batch(bs, m, t) == r0);
                    assert(nbs[r0] == bs[r0]);
                    assert(key_transforms(objects, m, t) == key_transforms(pre, m, t));
                }
            }
            assert forall|m: MeshType, t: TextureType| find_batch(nbs, m, t) == -1
                implies key_transforms(objects, m, t) == Seq::<Transform>::empty() by {
                assert(find_batch(bs, m, t) == -1);
                assert(!(o.m_type == m && o.texture == t));
                assert(key_transforms(objects, m, t) == key_transforms(pre, m, t));
            }
        } else {
            let b2 = GBatch {
                m_type: bs[f].m_type,
                texture: bs[f].texture,
                transforms: bs[f].transforms.push(o.transform),
            };
            assert(nbs == bs.update(f, b2));
            lemma_instance_count_prefix_update(bs, f, b2, bs.len() as int);
            assert forall|m: MeshType, t: TextureType| #![auto] true implies find_batch(
                nbs,
                m,
                t,
            ) == find_batch(bs, m, t) by {
                lemma_find_batch_update_keep_key(bs, f, b2, m, t);
            }
            assert(keys_distinct(nbs));
            assert forall|m: MeshType, t: TextureType| #![auto] find_batch(nbs, m, t) >= 0
                implies nbs[find_batch(nbs, m, t)].transforms == key_transforms(
                objects,
                m,
                t,
            ) by {
                if m == o.m_type && t == o.texture {
                    assert(find_batch(bs, m, t) == f);
                    assert(nbs[f].transforms == key_transforms(pre, m, t).push(o.transform));
                } else {
                    let r = find_batch(bs, m, t);
                    lemma_find_batch_props(bs, m, t);
                    assert(!(bs[f].m_type == m && bs[f].texture == t));
                    assert(r != f);
                    assert(nbs[r] == bs[r]);
                    assert(key_transforms(objects, m, t) == key_transforms(pre, m, t));
                }
            }
            assert forall|m: MeshType, t: TextureType| find_batch(nbs, m, t) == -1
                implies key_transforms(objects, m, t) == Seq::<Transform>::empty() by {
                assert(find_batch(bs, m, t) == -1);
                lemma_find_batch_props(bs, m, t);
                assert(!(o.m_type == m && o.texture == t));
                assert(key_transforms(objects, m, t) == key_transforms(pre, m, t));
            }
        }
    }
}

fn find_batch_index(batches: &Vec<Batch>, m: MeshType, t: TextureType) -> (r: Option<usize>)
    ensures
        match r {
            Some(j) => j < batches@.len() && find_batch(
                batches@.map_values(|b: Batch| b@),
                m,
                t,
            ) == j,
            None => find_batch(batches@.map_values(|b: Batch| b@), m, t) == -1,
        },
{
    let ghost gbs = batches@.map_values(|b: Batch| b@);
    let mut j: usize = 0;
    while j < batches.len()
        invariant
            j <= batches@.len(),
            gbs == batches@.map_values(|b: Batch| b@),
            forall|k: int| 0 <= k < j ==> !((#[trigger] gbs[k]).m_type == m && gbs[k].texture
                == t),
        decreases batches@.len() - j,
    {
        if batches[j].m_type == m && batches[j].texture == t {
            proof {
                lemma_find_batch_at(gbs, m, t, j as int);
            }
            return Some(j);
        }
        j += 1;
    }
    proof {
        lemma_find_batch_none(gbs, m, t);
    }
    None
}

/// Group a flat object list into batches keyed by (mesh type, texture
/// type). Objects are taken in input order: each appends its transform to
/// the batch with its key, or opens a new batch at the end of the list, so
/// batch order is the order in which keys are first seen.
pub fn group_into_batches(objects: &Vec<SceneObject>) -> (r: Vec<Batch>)
    ensures
        r@.map_values(|b: Batch| b@) == group_batches(objects@),
{
    let mut batches: Vec<Batch> = Vec::new();
    let mut i: usize = 0;
    while i < objects.len()
        invariant
            i <= objects@.len(),
            batches@.map_values(|b: Batch| b@) == group_batches(objects@.subrange(0, i as int)),
        decreases objects@.len() - i,
    {
        let o = objects[i];
        let ghost gbs = batches@.map_values(|b: Batch| b@);
        proof {
            assert(objects@.subrange(0, i + 1).drop_last() =~= objects@.subrange(0, i as int));
            assert(objects@.subrange(0, i + 1).last() == objects@[i as int]);
        }
        match find_batch_index(&batches, o.m_type, o.texture) {
            Some(j) => {
                let mut b = batches.remove(j);
                b.transform_m.push(o.transform);
                batches.insert(j, b);
                proof {
                    assert(batches@.map_values(|b: Batch| b@) =~= insert_object(gbs, o));
                }
            },
            None => {
                let mut tv: Vec<Transform> = Vec::new();
                tv.push(o.transform);
                batches.push(Batch { m_type: o.m_type, texture: o.texture, transform_m: tv });
                proof {
                    assert(batches@.map_values(|b: Batch| b@) =~= insert_object(gbs, o));
                }
            },
        }
        i += 1;
    }
    proof {
        assert(objects@.subrange(0, objects@.len() as int) =~= objects@);
    }
    batches
}

} // verus!
