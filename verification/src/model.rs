//! The mesh data: vertices, triangle indices, the built-in pentagon and the
//! vertex layout that the render pipeline reads.

use vstd::prelude::*;

verus! {

/// A vertex as the GPU sees it. Each `f32` component is held by its IEEE 754
/// bit pattern (`f32::to_bits`), so the library works on exact values.
#[derive(Clone, Copy, Debug, PartialEq, Eq)]
pub struct Vertex {
    pub position: [u32; 3],
    pub color: [u32; 3],
    pub texture_coords: [u32; 2],
}

/// A mesh: its vertices and a triangle list of indices into them.
#[derive(Clone, Debug, PartialEq, Eq)]
pub struct Model {
    pub vertices: Vec<Vertex>,
    pub indices: Vec<u16>,
}

/// Bytes between two consecutive vertices in a vertex buffer.
pub const VERTEX_STRIDE: u64 = 32;

/// Byte offset of the position (three `f32`) inside a vertex.
pub const POSITION_OFFSET: u64 = 0;

/// Byte offset of the colour (three `f32`) inside a vertex.
pub const COLOR_OFFSET: u64 = 12;

/// Byte offset of the texture coordinates (two `f32`) inside a vertex.
pub const TEXTURE_COORDS_OFFSET: u64 = 24;

/// Shader input location of the position.
pub const POSITION_LOCATION: u32 = 0;

/// Shader input location of the colour.
pub const COLOR_LOCATION: u32 = 1;

/// Shader input location of the texture coordinates.
pub const TEXTURE_COORDS_LOCATION: u32 = 2;

/// The `k`-th of the eight 32-bit words of a vertex, in memory order:
/// position x, y, z, colour r, g, b, texture u, v.
pub open spec fn vertex_word(v: Vertex, k: int) -> u32 {
    if k == 0 {
        v.position[0]
    } else if k == 1 {
        v.position[1]
    } else if k == 2 {
        v.position[2]
    } else if k == 3 {
        v.color[0]
    } else if k == 4 {
        v.color[1]
    } else if k == 5 {
        v.color[2]
    } else if k == 6 {
        v.texture_coords[0]
    } else {
        v.texture_coords[1]
    }
}

/// The indices form a list of whole triangles over existing vertices.
pub open spec fn is_triangle_list(vertices: Seq<Vertex>, indices: Seq<u16>) -> bool {
    &&& indices.len() % 3 == 0
    &&& forall|i: int| 0 <= i < indices.len() ==> (#[trigger] indices[i]) < vertices.len()
}

/// A vertex of the pentagon: purple, in the `z = 0` plane.
pub open spec fn pentagon_vertex(x: u32, y: u32, u: u32, v: u32) -> Vertex {
    Vertex {
        position: [x, y, 0x0000_0000u32],
        color: [0x3f00_0000u32, 0x0000_0000u32, 0x3f00_0000u32],
        texture_coords: [u, v],
    }
}

/// The five corners A to E of the pentagon (positions and texture
/// coordinates as `f32` bit patterns; colour 0.5, 0.0, 0.5).
pub open spec fn pentagon_vertices() -> Seq<Vertex> {
    seq![
        pentagon_vertex(0xbdb1_d0d5, 0x3efc_1c5c, 0x3ed3_8bcb, 0x3bf8_e90a),
        pentagon_vertex(0xbefd_8236, 0x3d8e_835a, 0x3b9f_7280, 0x3edc_5f2a),
        pentagon_vertex(0xbe60_7229, 0xbee6_175f, 0x3e8f_c6ec, 0x3f73_0baf),
        pentagon_vertex(0x3eb8_26aa, 0xbeb1_d51f, 0x3f5c_1355, 0x3f58_ea90),
        pentagon_vertex(0x3ee2_08d8, 0x3e70_5e9c, 0x3f71_046c, 0x3e87_d0b2),
    ]
}

/// The three triangles ABE, BCE, CDE of the pentagon.
pub open spec fn pentagon_indices() -> Seq<u16> {
    seq![0u16, 1, 4, 1, 2, 4, 2, 3, 4]
}

/// The built-in pentagon mesh.
///
/// Corners (x, y; u, v): A (-0.0868241, 0.49240386; 0.4131759, 0.00759614),
/// B (-0.49513406, 0.06958647; 0.0048659444, 0.43041354),
/// C (-0.21918549, -0.44939706; 0.28081453, 0.949397),
/// D (0.35966998, -0.3473291; 0.85967, 0.84732914),
/// E (0.44147372, 0.2347359; 0.9414737, 0.2652641).
pub fn pentagon() -> (m: Model)
    ensures
        m.vertices@ == pentagon_vertices(),
        m.indices@ == pentagon_indices(),
        is_triangle_list(m.vertices@, m.indices@),
{
    let c: [u32; 3] = [0x3f00_0000, 0x0000_0000, 0x3f00_0000];
    let vertices = vec![
        Vertex { position: [0xbdb1_d0d5, 0x3efc_1c5c, 0], color: c, texture_coords: [0x3ed3_8bcb, 0x3bf8_e90a] },
        Vertex { position: [0xbefd_8236, 0x3d8e_835a, 0], color: c, texture_coords: [0x3b9f_7280, 0x3edc_5f2a] },
        Vertex { position: [0xbe60_7229, 0xbee6_175f, 0], color: c, texture_coords: [0x3e8f_c6ec, 0x3f73_0baf] },
        Vertex { position: [0x3eb8_26aa, 0xbeb1_d51f, 0], color: c, texture_coords: [0x3f5c_1355, 0x3f58_ea90] },
        Vertex { position: [0x3ee2_08d8, 0x3e70_5e9c, 0], color: c, texture_coords: [0x3f71_046c, 0x3e87_d0b2] },
    ];
    let indices: Vec<u16> = vec![0, 1, 4, 1, 2, 4, 2, 3, 4];
    proof {
        assert(vertices@ =~= pentagon_vertices());
        assert(indices@ =~= pentagon_indices());
    }
    Model { vertices, indices }
}


/// The built-in mesh is the pentagon that the viewer ships with, corner by
/// corner (positions and texture coordinates as the bit patterns of these
/// `f32` values, `z = 0`):
/// A at (-0.0868241, 0.49240386), texture (0.4131759, 0.00759614),
/// B at (-0.49513406, 0.06958647), texture (0.0048659444, 0.43041354),
/// C at (-0.21918549, -0.44939706), texture (0.28081453, 0.949397),
/// D at (0.35966998, -0.3473291), texture (0.85967, 0.84732914),
/// E at (0.44147372, 0.2347359), texture (0.9414737, 0.2652641),
/// every corner coloured (0.5, 0.0, 0.5); and its triangles are ABE, BCE and
/// CDE. Going A, B, C, D, E the corners run counter-clockwise through the
/// quadrants (x, y signs): (-, +), (-, +), (-, -), (+, -), (+, +).
pub proof fn lemma_pentagon_mesh()
    ensures
        pentagon_vertices().len() == 5,
        pentagon_vertices()[0].position =~= [0xbdb1_d0d5u32, 0x3efc_1c5cu32, 0u32],
        pentagon_vertices()[0].texture_coords =~= [0x3ed3_8bcbu32, 0x3bf8_e90au32],
        pentagon_vertices()[1].position =~= [0xbefd_8236u32, 0x3d8e_835au32, 0u32],
        pentagon_vertices()[1].texture_coords =~= [0x3b9f_7280u32, 0x3edc_5f2au32],
        pentagon_vertices()[2].position =~= [0xbe60_7229u32, 0xbee6_175fu32, 0u32],
        pentagon_vertices()[2].texture_coords =~= [0x3e8f_c6ecu32, 0x3f73_0bafu32],
        pentagon_vertices()[3].position =~= [0x3eb8_26aau32, 0xbeb1_d51fu32, 0u32],
        pentagon_vertices()[3].texture_coords =~= [0x3f5c_1355u32, 0x3f58_ea90u32],
        pentagon_vertices()[4].position =~= [0x3ee2_08d8u32, 0x3e70_5e9cu32, 0u32],
        pentagon_vertices()[4].texture_coords =~= [0x3f71_046cu32, 0x3e87_d0b2u32],
        forall|i: int| 0 <= i < 5 ==> (#[trigger] pentagon_vertices()[i]).color =~= [0x3f00_0000u32, 0u32, 0x3f00_0000u32],
        pentagon_indices() =~= seq![0u16, 1, 4, 1, 2, 4, 2, 3, 4],
        pentagon_vertices()[0].position[0] >= 0x8000_0000 && pentagon_vertices()[0].position[1] < 0x8000_0000,
        pentagon_vertices()[1].position[0] >= 0x8000_0000 && pentagon_vertices()[1].position[1] < 0x8000_0000,
        pentagon_vertices()[2].position[0] >= 0x8000_0000 && pentagon_vertices()[2].position[1] >= 0x8000_0000,
        pentagon_vertices()[3].position[0] < 0x8000_0000 && pentagon_vertices()[3].position[1] >= 0x8000_0000,
        pentagon_vertices()[4].position[0] < 0x8000_0000 && pentagon_vertices()[4].position[1] < 0x8000_0000,
{
    broadcast use vstd::array::group_array_axioms;
    assert forall|i: int| 0 <= i < 5 implies (#[trigger] pentagon_vertices()[i]).color =~= [0x3f00_0000u32, 0u32, 0x3f00_0000u32] by {}
}

/// The vertex layout is packed, as the `#[repr(C)]` vertex of three, three
/// and two `f32` is: the position starts the vertex, each attribute starts
/// where the previous one's four-byte components end, and the stride is the
/// end of the last attribute.
pub proof fn lemma_vertex_layout_packed()
    ensures
        POSITION_OFFSET == 0,
        COLOR_OFFSET == POSITION_OFFSET + 4 * 3,
        TEXTURE_COORDS_OFFSET == COLOR_OFFSET + 4 * 3,
        VERTEX_STRIDE == TEXTURE_COORDS_OFFSET + 4 * 2,
        POSITION_LOCATION == 0 && COLOR_LOCATION == 1 && TEXTURE_COORDS_LOCATION == 2,
{
}

} // verus!
