//! Cube mesh data: eight corner vertices and the 36 indices of its twelve
//! triangles, written out literally.

use crate::shapes::{F32_NEG_ONE_BITS, F32_ONE_BITS, F32_ZERO_BITS, Vertex};
use vstd::prelude::*;

verus! {

/// RGBA bit patterns of pure red at full alpha.
pub open spec fn red_color_bits() -> (u32, u32, u32, u32) {
    (F32_ONE_BITS, F32_ZERO_BITS, F32_ZERO_BITS, F32_ONE_BITS)
}

/// RGBA bit patterns of pure blue at full alpha.
pub open spec fn blue_color_bits() -> (u32, u32, u32, u32) {
    (F32_ZERO_BITS, F32_ZERO_BITS, F32_ONE_BITS, F32_ONE_BITS)
}

/// The eight corners of the cube spanning -1..=1 on each axis: the four
/// front corners (z = -1) in red, the four back corners (z = 1) in blue.
pub open spec fn cube_vertices() -> Seq<Vertex> {
    seq![
        Vertex { pos: (F32_NEG_ONE_BITS, F32_ONE_BITS, F32_NEG_ONE_BITS, F32_ONE_BITS), color: red_color_bits() },
        Vertex { pos: (F32_ONE_BITS, F32_ONE_BITS, F32_NEG_ONE_BITS, F32_ONE_BITS), color: red_color_bits() },
        Vertex { pos: (F32_NEG_ONE_BITS, F32_NEG_ONE_BITS, F32_NEG_ONE_BITS, F32_ONE_BITS), color: red_color_bits() },
        Vertex { pos: (F32_ONE_BITS, F32_NEG_ONE_BITS, F32_NEG_ONE_BITS, F32_ONE_BITS), color: red_color_bits() },
        Vertex { pos: (F32_NEG_ONE_BITS, F32_ONE_BITS, F32_ONE_BITS, F32_ONE_BITS), color: blue_color_bits() },
        Vertex { pos: (F32_ONE_BITS, F32_ONE_BITS, F32_ONE_BITS, F32_ONE_BITS), color: blue_color_bits() },
        Vertex { pos: (F32_NEG_ONE_BITS, F32_NEG_ONE_BITS, F32_ONE_BITS, F32_ONE_BITS), color: blue_color_bits() },
        Vertex { pos: (F32_ONE_BITS, F32_NEG_ONE_BITS, F32_ONE_BITS, F32_ONE_BITS), color: blue_color_bits() },
    ]
}

/// The cube's index data: six faces, two triangles each.
pub open spec fn cube_indices() -> Seq<u16> {
    seq![
        2u16, 0, 1, 1, 3, 2, // bottom
        6, 7, 5, 5, 4, 6, // top
        0, 4, 5, 5, 1, 0, // back
        2, 3, 7, 7, 6, 2, // front
        3, 1, 5, 5, 7, 3, // right
        2, 6, 4, 4, 0, 2, // left
    ]
}

/// Generate the cube's vertex and index data.
pub fn create_vertices() -> (r: (Vec<Vertex>, Vec<u16>))
    ensures
        r.0@ == cube_vertices(),
        r.1@ == cube_indices(),
        forall|i: int| 0 <= i < r.1@.len() ==> (#[trigger] r.1@[i]) < r.0@.len(),
{
    let red: (u32, u32, u32, u32) = (F32_ONE_BITS, F32_ZERO_BITS, F32_ZERO_BITS, F32_ONE_BITS);
    let blue: (u32, u32, u32, u32) = (F32_ZERO_BITS, F32_ZERO_BITS, F32_ONE_BITS, F32_ONE_BITS);
    let vertex_data: Vec<Vertex> = vec![
        Vertex { pos: (F32_NEG_ONE_BITS, F32_ONE_BITS, F32_NEG_ONE_BITS, F32_ONE_BITS), color: red },
        Vertex { pos: (F32_ONE_BITS, F32_ONE_BITS, F32_NEG_ONE_BITS, F32_ONE_BITS), color: red },
        Vertex { pos: (F32_NEG_ONE_BITS, F32_NEG_ONE_BITS, F32_NEG_ONE_BITS, F32_ONE_BITS), color: red },
        Vertex { pos: (F32_ONE_BITS, F32_NEG_ONE_BITS, F32_NEG_ONE_BITS, F32_ONE_BITS), color: red },
        Vertex { pos: (F32_NEG_ONE_BITS, F32_ONE_BITS, F32_ONE_BITS, F32_ONE_BITS), color: blue },
        Vertex { pos: (F32_ONE_BITS, F32_ONE_BITS, F32_ONE_BITS, F32_ONE_BITS), color: blue },
        Vertex { pos: (F32_NEG_ONE_BITS, F32_NEG_ONE_BITS, F32_ONE_BITS, F32_ONE_BITS), color: blue },
        Vertex { pos: (F32_ONE_BITS, F32_NEG_ONE_BITS, F32_ONE_BITS, F32_ONE_BITS), color: blue },
    ];
    let index_data: Vec<u16> = vec![
        2, 0, 1, 1, 3, 2, // bottom
        6, 7, 5, 5, 4, 6, // top
        0, 4, 5, 5, 1, 0, // back
        2, 3, 7, 7, 6, 2, // front
        3, 1, 5, 5, 7, 3, // right
        2, 6, 4, 4, 0, 2, // left
    ];
    assert(vertex_data@ =~= cube_vertices());
    assert(index_data@ =~= cube_indices());
    (vertex_data, index_data)
}

} // verus!
