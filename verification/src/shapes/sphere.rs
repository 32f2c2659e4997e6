//! Sphere mesh data, generated by the outside geometry crate, plus the index
//! layout of a hand-rolled latitude/longitude grid.

use crate::shapes::{
    CHANNEL_1_BITS, CHANNEL_41_BITS, CHANNEL_95_BITS, F32_ONE_BITS, TextureType, Vertex,
    expand_polygons, lemma_expand_polygons_bound, polys_view, texture_color_bits,
    triangulate_polygons,
};
use genmesh::Polygon;
use genmesh::generators::{IndexedPolygon, SharedVertex, SphereUv};
use vstd::prelude::*;

verus! {

/// Number of points across the equator and from pole to pole.
pub const SPHERE_RESOLUTION: usize = 20;

/// What the outside generator yields for a UV sphere's shared vertices: the
/// bit patterns of each vertex position, a function of the subdivision
/// counts alone.
pub uninterp spec fn sphere_vertex_bits(res_u: usize, res_v: usize) -> Seq<(u32, u32, u32)>;

/// What the outside generator yields for a UV sphere's indexed polygons, a
/// function of the subdivision counts alone.
pub uninterp spec fn sphere_polygons(res_u: usize, res_v: usize) -> Seq<Seq<usize>>;

/// Relies on genmesh's `SphereUv::new` (which panics unless both subdivision
/// counts are at least 2) and `SharedVertex::shared_vertex_iter`: one vertex
/// per shared vertex, `(res_v - 1) * res_u + 2` of them in index order.
#[verifier::external_body]
fn sphere_shared_vertices(res_u: usize, res_v: usize) -> (r: Vec<(u32, u32, u32)>)
    requires
        2 <= res_u,
        2 <= res_v,
        (res_v - 1) * res_u + 2 <= usize::MAX,
    ensures
        r@ == sphere_vertex_bits(res_u, res_v),
        r@.len() == (res_v - 1) * res_u + 2,
{
    SphereUv::new(res_u, res_v)
        .shared_vertex_iter()
        .map(|v| (v.pos.x.to_bits(), v.pos.y.to_bits(), v.pos.z.to_bits()))
        .collect()
}

/// Relies on genmesh's `SphereUv::new` (which panics unless both subdivision
/// counts are at least 2) and `IndexedPolygon::indexed_polygon_iter`:
/// `res_u * res_v` polygons, each a triangle or a quad, whose indices all
/// point into the shared vertex list of `(res_v - 1) * res_u + 2` vertices.
#[verifier::external_body]
fn sphere_indexed_polygons(res_u: usize, res_v: usize) -> (r: Vec<Vec<usize>>)
    requires
        2 <= res_u,
        2 <= res_v,
        (res_v - 1) * res_u + 2 <= usize::MAX,
        res_u * res_v <= usize::MAX,
    ensures
        polys_view(r@) == sphere_polygons(res_u, res_v),
        r@.len() == res_u * res_v,
        forall|i: int| 0 <= i < r@.len() ==> ((#[trigger] r@[i])@.len() == 3 || r@[i]@.len()
            == 4),
        forall|i: int, j: int| 0 <= i < r@.len() && 0 <= j < r@[i]@.len() ==> (
        #[trigger] r@[i]@[j]) < (res_v - 1) * res_u + 2,
{
    SphereUv::new(res_u, res_v)
        .indexed_polygon_iter()
        .map(|p| match p {
            Polygon::PolyTri(t) => vec![t.x, t.y, t.z],
            Polygon::PolyQuad(q) => vec![q.x, q.y, q.z, q.w],
        })
        .collect()
}

/// The sphere's vertex data: every generated position with w = 1, colored
/// with the water color.
pub open spec fn sphere_mesh_vertices(res_u: usize, res_v: usize) -> Seq<Vertex> {
    sphere_vertex_bits(res_u, res_v).map_values(
        |p: (u32, u32, u32)| Vertex {
            pos: (p.0, p.1, p.2, F32_ONE_BITS),
            color: texture_color_bits(TextureType::Water),
        },
    )
}

/// The sphere's triangle-list index data.
pub open spec fn sphere_mesh_indices(res_u: usize, res_v: usize) -> Seq<usize> {
    expand_polygons(sphere_polygons(res_u, res_v))
}

/// Generate the sphere's vertex and index data. Every index points at one of
/// the returned vertices.
pub fn generate_vertices() -> (r: (Vec<Vertex>, Vec<u16>))
    ensures
        r.0@ == sphere_mesh_vertices(SPHERE_RESOLUTION, SPHERE_RESOLUTION),
        r.1@.len() == sphere_mesh_indices(SPHERE_RESOLUTION, SPHERE_RESOLUTION).len(),
        forall|i: int| 0 <= i < r.1@.len() ==> r.1@[i] == sphere_mesh_indices(
            SPHERE_RESOLUTION,
            SPHERE_RESOLUTION,
        )[i],
        forall|i: int| 0 <= i < r.1@.len() ==> (#[trigger] r.1@[i]) < r.0@.len(),
{
    let bits = sphere_shared_vertices(SPHERE_RESOLUTION, SPHERE_RESOLUTION);
    let mut vertices: Vec<Vertex> = Vec::new();
    let mut i: usize = 0;
    while i < bits.len()
        invariant
            i <= bits@.len(),
            bits@ == sphere_vertex_bits(SPHERE_RESOLUTION, SPHERE_RESOLUTION),
            vertices@.len() == i,
            forall|j: int| 0 <= j < i ==> vertices@[j] == sphere_mesh_vertices(
                SPHERE_RESOLUTION,
                SPHERE_RESOLUTION,
            )[j],
        decreases bits@.len() - i,
    {
        let b = bits[i];
        vertices.push(
            Vertex {
                pos: (b.0, b.1, b.2, F32_ONE_BITS),
                color: (CHANNEL_1_BITS, CHANNEL_41_BITS, CHANNEL_95_BITS, F32_ONE_BITS),
            },
        );
        i += 1;
    }
    let polys = sphere_indexed_polygons(SPHERE_RESOLUTION, SPHERE_RESOLUTION);
    let indices = triangulate_polygons(&polys);
    proof {
        let ghost sp = sphere_polygons(SPHERE_RESOLUTION, SPHERE_RESOLUTION);
        let ghost bound = (SPHERE_RESOLUTION - 1) * SPHERE_RESOLUTION + 2;
        assert(vertices@ =~= sphere_mesh_vertices(SPHERE_RESOLUTION, SPHERE_RESOLUTION));
        assert forall|a: int| 0 <= a < sp.len() implies ((#[trigger] sp[a]).len() == 3
            || sp[a].len() == 4) by {
            assert(sp[a] == polys@[a]@);
        }
        assert forall|a: int, b: int| 0 <= a < sp.len() && 0 <= b < sp[a].len() implies (
        #[trigger] sp[a][b]) < bound by {
            assert(sp[a] == polys@[a]@);
        }
        lemma_expand_polygons_bound(sp, bound);
    }
    (vertices, indices)
}

/// Position of a two-dimensional grid coordinate within a row-major
/// one-dimensional array.
pub fn pos_in_one_dim_vec(x: u16, y: u16, columns: u16) -> (r: u16)
    requires
        y * columns + x <= u16::MAX,
    ensures
        r == y * columns + x,
{
    y * columns + x
}

/// The grid coordinate after `a`, wrapped onto 0 at the seam, so the last
/// row and column of cells close back onto the first vertices.
pub open spec fn wrap_succ(a: int, resolution: int) -> int {
    if a + 1 == resolution {
        0
    } else {
        a + 1
    }
}

/// The six triangle-list entries of one grid cell: the two triangles that
/// cover the cell with corners (x, y) and (x + 1, y + 1), the successor
/// coordinates wrapped at the seam so every entry addresses one of the
/// grid's `resolution * resolution` vertices.
pub open spec fn grid_cell_indices(x: int, y: int, resolution: int) -> Seq<int> {
    seq![
        wrap_succ(y, resolution) * resolution + x,
        wrap_succ(y, resolution) * resolution + wrap_succ(x, resolution),
        y * resolution + wrap_succ(x, resolution),
        y * resolution + wrap_succ(x, resolution),
        y * resolution + x,
        wrap_succ(y, resolution) * resolution + x,
    ]
}

/// The first `x` cells of row `y`, concatenated.
pub open spec fn grid_row_prefix(resolution: int, y: int, x: int) -> Seq<int>
    decreases x,
{
    if x <= 0 {
        Seq::empty()
    } else {
        grid_row_prefix(resolution, y, x - 1) + grid_cell_indices(x - 1, y, resolution)
    }
}

/// The first `y` full rows of the grid, concatenated.
pub open spec fn grid_prefix(resolution: int, y: int) -> Seq<int>
    decreases y,
{
    if y <= 0 {
        Seq::empty()
    } else {
        grid_prefix(resolution, y - 1) + grid_row_prefix(resolution, y - 1, resolution)
    }
}

/// The triangle-list index data of a `resolution` by `resolution` grid of
/// cells over a row-major vertex array with `resolution` columns.
pub open spec fn grid_indices_spec(resolution: int) -> Seq<int> {
    grid_prefix(resolution, resolution)
}

/// Generate the triangle-list index data of a latitude/longitude grid with
/// `resolution` rows and columns of cells, wrapped at the seam. Every
/// emitted index points at one of the grid's `resolution * resolution`
/// row-major vertices.
pub fn grid_indices(resolution: u16) -> (r: Vec<u16>)
    requires
        resolution * resolution <= 65536,
    ensures
        r@.len() == grid_indices_spec(resolution as int).len(),
        forall|i: int| 0 <= i < r@.len() ==> r@[i] == grid_indices_spec(resolution as int)[i],
        forall|i: int| 0 <= i < r@.len() ==> (#[trigger] r@[i]) < resolution * resolution,
{
    let mut out: Vec<u16> = Vec::new();
    let mut y: u16 = 0;
    while y < resolution
        invariant
            y <= resolution,
            resolution * resolution <= 65536,
            out@.len() == grid_prefix(resolution as int, y as int).len(),
            forall|i: int| 0 <= i < out@.len() ==> out@[i] == grid_prefix(
                resolution as int,
                y as int,
            )[i],
            forall|i: int| 0 <= i < out@.len() ==> (#[trigger] out@[i]) < resolution * resolution,
        decreases resolution - y,
    {
        let mut x: u16 = 0;
        while x < resolution
            invariant
                x <= resolution,
                y < resolution,
                resolution * resolution <= 65536,
                out@.len() == grid_prefix(resolution as int, y as int).len()
                    + grid_row_prefix(resolution as int, y as int, x as int).len(),
                forall|i: int| 0 <= i < grid_prefix(resolution as int, y as int).len() ==> out@[i]
                    == grid_prefix(resolution as int, y as int)[i],
                forall|i: int|
                    0 <= i < grid_row_prefix(resolution as int, y as int, x as int).len()
                        ==> out@[grid_prefix(resolution as int, y as int).len() + i]
                        == grid_row_prefix(resolution as int, y as int, x as int)[i],
                forall|i: int| 0 <= i < out@.len() ==> (#[trigger] out@[i]) < resolution
                    * resolution,
            decreases resolution - x,
        {
            let xw: u16 = if x + 1 == resolution {
                0
            } else {
                x + 1
            };
            let yw: u16 = if y + 1 == resolution {
                0
            } else {
                y + 1
            };
            proof {
                assert(yw * resolution + x < resolution * resolution) by (nonlinear_arith)
                    requires
                        0 <= x < resolution,
                        0 <= yw < resolution,
                ;
                assert(yw * resolution + xw < resolution * resolution) by (nonlinear_arith)
                    requires
                        0 <= xw < resolution,
                        0 <= yw < resolution,
                ;
                assert(y * resolution + xw < resolution * resolution) by (nonlinear_arith)
                    requires
                        0 <= xw < resolution,
                        0 <= y < resolution,
                ;
                assert(y * resolution + x < resolution * resolution) by (nonlinear_arith)
                    requires
                        0 <= x < resolution,
                        0 <= y < resolution,
                ;
            }
            out.push(pos_in_one_dim_vec(x, yw, resolution));
            out.push(pos_in_one_dim_vec(xw, yw, resolution));
            out.push(pos_in_one_dim_vec(xw, y, resolution));
            out.push(pos_in_one_dim_vec(xw, y, resolution));
            out.push(pos_in_one_dim_vec(x, y, resolution));
            out.push(pos_in_one_dim_vec(x, yw, resolution));
            x += 1;
            proof {
                let res = resolution as int;
                assert(grid_row_prefix(res, y as int, x as int) == grid_row_prefix(
                    res,
                    y as int,
                    x - 1,
                ) + grid_cell_indices(x - 1, y as int, res));
            }
        }
        y += 1;
        proof {
            let res = resolution as int;
            assert(grid_prefix(res, y as int) == grid_prefix(res, y - 1) + grid_row_prefix(
                res,
                y - 1,
                res,
            ));
        }
    }
    out
}

} // verus!
