//! Cylinder mesh data, generated by the outside geometry crate: shared
//! vertices and indexed polygons for a cylinder of radius 1 and height 2.

use crate::shapes::{
    CHANNEL_1_BITS, CHANNEL_41_BITS, CHANNEL_95_BITS, F32_ONE_BITS, TextureType, Vertex,
    expand_polygons, lemma_expand_polygons_bound, polys_view, texture_color_bits,
    triangulate_polygons,
};
use genmesh::Polygon;
use genmesh::generators::{Cylinder, IndexedPolygon, SharedVertex};
use vstd::prelude::*;

verus! {

/// Number of points across the cylinder's radius.
pub const CYLINDER_RESOLUTION: usize = 20;

/// What the outside generator yields for a cylinder's shared vertices: the
/// bit patterns of each vertex position, a function of the subdivision count
/// alone.
pub uninterp spec fn cylinder_vertex_bits(resolution: usize) -> Seq<(u32, u32, u32)>;

/// What the outside generator yields for a cylinder's indexed polygons, a
/// function of the subdivision count alone.
pub uninterp spec fn cylinder_polygons(resolution: usize) -> Seq<Seq<usize>>;

/// Relies on genmesh's `Cylinder::new` (which panics unless the subdivision
/// count is at least 2) and `SharedVertex::shared_vertex_iter`: one vertex
/// per shared vertex, `(3 + 1) * resolution + 2` of them in index order.
#[verifier::external_body]
fn cylinder_shared_vertices(resolution: usize) -> (r: Vec<(u32, u32, u32)>)
    requires
        2 <= resolution,
        4 * resolution + 2 <= usize::MAX,
    ensures
        r@ == cylinder_vertex_bits(resolution),
        r@.len() == 4 * resolution + 2,
{
    Cylinder::new(resolution)
        .shared_vertex_iter()
        .map(|v| (v.pos.x.to_bits(), v.pos.y.to_bits(), v.pos.z.to_bits()))
        .collect()
}

/// Relies on genmesh's `Cylinder::new` (which panics unless the subdivision
/// count is at least 2) and `IndexedPolygon::indexed_polygon_iter`:
/// `(2 + 1) * resolution` polygons, each a triangle or a quad, whose indices
/// all point into the shared vertex list of `(3 + 1) * resolution + 2`
/// vertices.
#[verifier::external_body]
fn cylinder_indexed_polygons(resolution: usize) -> (r: Vec<Vec<usize>>)
    requires
        2 <= resolution,
        4 * resolution + 2 <= usize::MAX,
    ensures
        polys_view(r@) == cylinder_polygons(resolution),
        r@.len() == 3 * resolution,
        forall|i: int| 0 <= i < r@.len() ==> ((#[trigger] r@[i])@.len() == 3 || r@[i]@.len()
            == 4),
        forall|i: int, j: int| 0 <= i < r@.len() && 0 <= j < r@[i]@.len() ==> (
        #[trigger] r@[i]@[j]) < 4 * resolution + 2,
{
    Cylinder::new(resolution)
        .indexed_polygon_iter()
        .map(|p| match p {
            Polygon::PolyTri(t) => vec![t.x, t.y, t.z],
            Polygon::PolyQuad(q) => vec![q.x, q.y, q.z, q.w],
        })
        .collect()
}

/// The cylinder's vertex data: every generated position with w = 1, colored
/// with the water color.
pub open spec fn cylinder_mesh_vertices(resolution: usize) -> Seq<Vertex> {
    cylinder_vertex_bits(resolution).map_values(
        |p: (u32, u32, u32)| Vertex {
            pos: (p.0, p.1, p.2, F32_ONE_BITS),
            color: texture_color_bits(TextureType::Water),
        },
    )
}

/// The cylinder's triangle-list index data.
pub open spec fn cylinder_mesh_indices(resolution: usize) -> Seq<usize> {
    expand_polygons(cylinder_polygons(resolution))
}

/// Generate the cylinder's vertex and index data. Every index points at one
/// of the returned vertices.
pub fn generate_vertices() -> (r: (Vec<Vertex>, Vec<u16>))
    ensures
        r.0@ == cylinder_mesh_vertices(CYLINDER_RESOLUTION),
        r.1@.len() == cylinder_mesh_indices(CYLINDER_RESOLUTION).len(),
        forall|i: int| 0 <= i < r.1@.len() ==> r.1@[i] == cylinder_mesh_indices(
            CYLINDER_RESOLUTION,
        )[i],
        forall|i: int| 0 <= i < r.1@.len() ==> (#[trigger] r.1@[i]) < r.0@.len(),
{
    let bits = cylinder_shared_vertices(CYLINDER_RESOLUTION);
    let mut vertices: Vec<Vertex> = Vec::new();
    let mut i: usize = 0;
    while i < bits.len()
        invariant
            i <= bits@.len(),
            bits@ == cylinder_vertex_bits(CYLINDER_RESOLUTION),
            vertices@.len() == i,
            forall|j: int| 0 <= j < i ==> vertices@[j] == cylinder_mesh_vertices(
                CYLINDER_RESOLUTION,
            )[j],
        decreases bits@.len() - i,
    {
        let b = bits[i];
        vertices.push(
            Vertex {
                pos: (b.0, b.1, b.2, F32_ONE_BITS),
                color: (CHANNEL_1_BITS, CHANNEL_41_BITS, CHANNEL_95_BITS, F32_ONE_BITS),
            },
        );
        i += 1;
    }
    let polys = cylinder_indexed_polygons(CYLINDER_RESOLUTION);
    let indices = triangulate_polygons(&polys);
    proof {
        assert(vertices@ =~= cylinder_mesh_vertices(CYLINDER_RESOLUTION));
        assert forall|a: int| 0 <= a < cylinder_polygons(CYLINDER_RESOLUTION).len() implies ((
        #[trigger] cylinder_polygons(CYLINDER_RESOLUTION)[a]).len() == 3 || cylinder_polygons(
            CYLINDER_RESOLUTION,
        )[a].len() == 4) by {
            assert(cylinder_polygons(CYLINDER_RESOLUTION)[a] == polys@[a]@);
        }
        assert forall|a: int, b: int|
            0 <= a < cylinder_polygons(CYLINDER_RESOLUTION).len() && 0 <= b < cylinder_polygons(
                CYLINDER_RESOLUTION,
            )[a].len() implies (#[trigger] cylinder_polygons(CYLINDER_RESOLUTION)[a][b]) < 4
            * CYLINDER_RESOLUTION + 2 by {
            assert(cylinder_polygons(CYLINDER_RESOLUTION)[a] == polys@[a]@);
        }
        lemma_expand_polygons_bound(
            cylinder_polygons(CYLINDER_RESOLUTION),
            4 * CYLINDER_RESOLUTION + 2,
        );
    }
    (vertices, indices)
}

} // verus!
