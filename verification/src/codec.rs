//! The binary model format. A file holds, in this order: the number of
//! vertices and the number of indices (each a little-endian `u64`), every
//! vertex as eight little-endian 32-bit words (position, colour, texture
//! coordinates), then every index as a little-endian `u16`. Bytes after the
//! last index are not read.

use vstd::prelude::*;
use vstd::bytes::*;
use vstd::slice::slice_subrange;
use crate::model::{
    Model, Vertex, vertex_word, VERTEX_STRIDE, POSITION_OFFSET, COLOR_OFFSET, TEXTURE_COORDS_OFFSET,
};

verus! {

broadcast use vstd::array::group_array_axioms;

/// Why a byte string is not a model.
#[derive(Clone, Copy, Debug, PartialEq, Eq, Structural)]
pub enum DecodeError {
    /// Fewer than the 16 bytes of the two counts.
    TruncatedHeader,
    /// Fewer bytes than the vertices that the header announces.
    TruncatedVertices,
    /// Fewer bytes than the indices that the header announces.
    TruncatedIndices,
}

/// The 32 bytes of one vertex: its eight words, little-endian, in order.
pub open spec fn vertex_le_bytes(v: Vertex) -> Seq<u8> {
    spec_u32_to_le_bytes(v.position[0]) + spec_u32_to_le_bytes(v.position[1])
        + spec_u32_to_le_bytes(v.position[2]) + spec_u32_to_le_bytes(v.color[0])
        + spec_u32_to_le_bytes(v.color[1]) + spec_u32_to_le_bytes(v.color[2])
        + spec_u32_to_le_bytes(v.texture_coords[0]) + spec_u32_to_le_bytes(v.texture_coords[1])
}

/// The bytes of a vertex buffer: each vertex's bytes, one after the other.
pub open spec fn vertices_le_bytes(vs: Seq<Vertex>) -> Seq<u8>
    decreases vs.len(),
{
    if vs.len() == 0 {
        Seq::empty()
    } else {
        vertices_le_bytes(vs.drop_last()) + vertex_le_bytes(vs.last())
    }
}

/// The bytes of an index buffer: each index, little-endian, one after the other.
pub open spec fn indices_le_bytes(is: Seq<u16>) -> Seq<u8>
    decreases is.len(),
{
    if is.len() == 0 {
        Seq::empty()
    } else {
        indices_le_bytes(is.drop_last()) + spec_u16_to_le_bytes(is.last())
    }
}

/// The bytes of the binary file of a model.
pub open spec fn model_le_bytes(vs: Seq<Vertex>, is: Seq<u16>) -> Seq<u8> {
    spec_u64_to_le_bytes(vs.len() as u64) + spec_u64_to_le_bytes(is.len() as u64)
        + vertices_le_bytes(vs) + indices_le_bytes(is)
}

/// The little-endian `u16` at byte `at`.
pub open spec fn u16_at(b: Seq<u8>, at: int) -> u16 {
    spec_u16_from_le_bytes(b.subrange(at, at + 2))
}

/// The little-endian `u32` at byte `at`.
pub open spec fn u32_at(b: Seq<u8>, at: int) -> u32 {
    spec_u32_from_le_bytes(b.subrange(at, at + 4))
}

/// The little-endian `u64` at byte `at`.
pub open spec fn u64_at(b: Seq<u8>, at: int) -> u64 {
    spec_u64_from_le_bytes(b.subrange(at, at + 8))
}

/// The vertex whose 32 bytes start at `at`.
pub open spec fn vertex_at(b: Seq<u8>, at: int) -> Vertex {
    Vertex {
        position: [u32_at(b, at), u32_at(b, at + 4), u32_at(b, at + 8)],
        color: [u32_at(b, at + 12), u32_at(b, at + 16), u32_at(b, at + 20)],
        texture_coords: [u32_at(b, at + 24), u32_at(b, at + 28)],
    }
}

/// The `n` vertices whose bytes start at `at`.
pub open spec fn vertices_at(b: Seq<u8>, at: int, n: nat) -> Seq<Vertex> {
    Seq::new(n, |k: int| vertex_at(b, at + 32 * k))
}

/// The `n` indices whose bytes start at `at`.
pub open spec fn indices_at(b: Seq<u8>, at: int, n: nat) -> Seq<u16> {
    Seq::new(n, |k: int| u16_at(b, at + 2 * k))
}

/// The vertex count that the header announces.
pub open spec fn header_vertex_count(b: Seq<u8>) -> nat {
    u64_at(b, 0) as nat
}

/// The index count that the header announces.
pub open spec fn header_index_count(b: Seq<u8>) -> nat {
    u64_at(b, 8) as nat
}

/// Where the vertex data ends and the index data begins.
pub open spec fn index_data_start(b: Seq<u8>) -> int {
    16 + 32 * (header_vertex_count(b) as int)
}

/// Where the index data ends: the number of bytes a load reads.
pub open spec fn model_data_end(b: Seq<u8>) -> int {
    index_data_start(b) + 2 * (header_index_count(b) as int)
}

/// What a load makes of the bytes `b`: the vertices and indices, or why
/// there are too few bytes.
pub open spec fn decode_model(b: Seq<u8>) -> Result<(Seq<Vertex>, Seq<u16>), DecodeError> {
    if b.len() < 16 {
        Err(DecodeError::TruncatedHeader)
    } else if b.len() < index_data_start(b) {
        Err(DecodeError::TruncatedVertices)
    } else if b.len() < model_data_end(b) {
        Err(DecodeError::TruncatedIndices)
    } else {
        Ok(
            (
                vertices_at(b, 16, header_vertex_count(b)),
                indices_at(b, index_data_start(b), header_index_count(b)),
            ),
        )
    }
}

fn append_u16(out: &mut Vec<u8>, x: u16)
    ensures
        final(out)@ == old(out)@ + spec_u16_to_le_bytes(x),
{
    let mut b = u16_to_le_bytes(x);
    out.append(&mut b);
}

fn append_u32(out: &mut Vec<u8>, x: u32)
    ensures
        final(out)@ == old(out)@ + spec_u32_to_le_bytes(x),
{
    let mut b = u32_to_le_bytes(x);
    out.append(&mut b);
}

fn append_u64(out: &mut Vec<u8>, x: u64)
    ensures
        final(out)@ == old(out)@ + spec_u64_to_le_bytes(x),
{
    let mut b = u64_to_le_bytes(x);
    out.append(&mut b);
}

fn append_vertex(out: &mut Vec<u8>, v: &Vertex)
    ensures
        final(out)@ == old(out)@ + vertex_le_bytes(*v),
{
    append_u32(out, v.position[0]);
    append_u32(out, v.position[1]);
    append_u32(out, v.position[2]);
    append_u32(out, v.color[0]);
    append_u32(out, v.color[1]);
    append_u32(out, v.color[2]);
    append_u32(out, v.texture_coords[0]);
    append_u32(out, v.texture_coords[1]);
    assert(final(out)@ =~= old(out)@ + vertex_le_bytes(*v));
}

fn append_vertices(out: &mut Vec<u8>, vs: &Vec<Vertex>)
    ensures
        final(out)@ == old(out)@ + vertices_le_bytes(vs@),
{
    let ghost start = out@;
    let n = vs.len();
    let mut k: usize = 0;
    while k < n
        invariant
            n == vs@.len(),
            k <= n,
            out@ == start + vertices_le_bytes(vs@.take(k as int)),
        decreases n - k,
    {
        append_vertex(out, &vs[k]);
        proof {
            assert(vs@.take(k as int + 1).drop_last() =~= vs@.take(k as int));
            assert(out@ =~= start + vertices_le_bytes(vs@.take(k as int + 1)));
        }
        k = k + 1;
    }
    assert(vs@.take(n as int) =~= vs@);
}

fn append_indices(out: &mut Vec<u8>, is: &Vec<u16>)
    ensures
        final(out)@ == old(out)@ + indices_le_bytes(is@),
{
    let ghost start = out@;
    let n = is.len();
    let mut k: usize = 0;
    while k < n
        invariant
            n == is@.len(),
            k <= n,
            out@ == start + indices_le_bytes(is@.take(k as int)),
        decreases n - k,
    {
        append_u16(out, is[k]);
        proof {
            assert(is@.take(k as int + 1).drop_last() =~= is@.take(k as int));
            assert(out@ =~= start + indices_le_bytes(is@.take(k as int + 1)));
        }
        k = k + 1;
    }
    assert(is@.take(n as int) =~= is@);
}

impl Model {
    /// The contents of the vertex buffer: every vertex's 32 bytes, in order.
    pub fn vertex_data(&self) -> (bytes: Vec<u8>)
        ensures
            bytes@ == vertices_le_bytes(self.vertices@),
    {
        let mut out: Vec<u8> = Vec::new();
        append_vertices(&mut out, &self.vertices);
        assert(out@ =~= vertices_le_bytes(self.vertices@));
        out
    }

    /// The contents of the index buffer: every index's two bytes, in order.
    pub fn index_data(&self) -> (bytes: Vec<u8>)
        ensures
            bytes@ == indices_le_bytes(self.indices@),
    {
        let mut out: Vec<u8> = Vec::new();
        append_indices(&mut out, &self.indices);
        assert(out@ =~= indices_le_bytes(self.indices@));
        out
    }

    /// The number of indices to draw, as the draw call takes it: the index
    /// count cut to 32 bits.
    pub fn num_indices(&self) -> (n: u32)
        ensures
            n == self.indices@.len() as u32,
    {
        self.indices.len() as u32
    }

    /// The bytes of the binary model file of this model.
    pub fn encode_binary(&self) -> (bytes: Vec<u8>)
        ensures
            bytes@ == model_le_bytes(self.vertices@, self.indices@),
    {
        let mut out: Vec<u8> = Vec::new();
        append_u64(&mut out, self.vertices.len() as u64);
        append_u64(&mut out, self.indices.len() as u64);
        append_vertices(&mut out, &self.vertices);
        append_indices(&mut out, &self.indices);
        out
    }
}


fn read_u16(bytes: &[u8], at: usize) -> (x: u16)
    requires
        at + 2 <= bytes.len(),
    ensures
        x == u16_at(bytes@, at as int),
{
    u16_from_le_bytes(slice_subrange(bytes, at, at + 2))
}

fn read_u32(bytes: &[u8], at: usize) -> (x: u32)
    requires
        at + 4 <= bytes.len(),
    ensures
        x == u32_at(bytes@, at as int),
{
    u32_from_le_bytes(slice_subrange(bytes, at, at + 4))
}

fn read_u64(bytes: &[u8], at: usize) -> (x: u64)
    requires
        at + 8 <= bytes.len(),
    ensures
        x == u64_at(bytes@, at as int),
{
    u64_from_le_bytes(slice_subrange(bytes, at, at + 8))
}

fn read_vertex(bytes: &[u8], at: usize) -> (v: Vertex)
    requires
        at + 32 <= bytes.len(),
    ensures
        v == vertex_at(bytes@, at as int),
{
    Vertex {
        position: [read_u32(bytes, at), read_u32(bytes, at + 4), read_u32(bytes, at + 8)],
        color: [read_u32(bytes, at + 12), read_u32(bytes, at + 16), read_u32(bytes, at + 20)],
        texture_coords: [read_u32(bytes, at + 24), read_u32(bytes, at + 28)],
    }
}

impl Model {
    /// Reads a model from the bytes of a binary model file. It fails, and
    /// says where, exactly when the bytes end before the header, the vertex
    /// data or the index data that the header announces; bytes after the
    /// index data are not read.
    pub fn decode_binary(bytes: &[u8]) -> (r: Result<Model, DecodeError>)
        ensures
            match r {
                Ok(m) => decode_model(bytes@) == Ok::<(Seq<Vertex>, Seq<u16>), DecodeError>((m.vertices@, m.indices@)),
                Err(e) => decode_model(bytes@) == Err::<(Seq<Vertex>, Seq<u16>), DecodeError>(e),
            },
    {
        let len = bytes.len();
        if len < 16 {
            return Err(DecodeError::TruncatedHeader);
        }
        let vertex_count = read_u64(bytes, 0);
        let index_count = read_u64(bytes, 8);
        let after_header = len - 16;
        if vertex_count > (after_header / 32) as u64 {
            return Err(DecodeError::TruncatedVertices);
        }
        let nv = vertex_count as usize;
        let index_start = 16 + nv * 32;
        let after_vertices = len - index_start;
        if index_count > (after_vertices / 2) as u64 {
            return Err(DecodeError::TruncatedIndices);
        }
        let ni = index_count as usize;
        let ghost b = bytes@;

        let mut vertices: Vec<Vertex> = Vec::new();
        let mut k: usize = 0;
        while k < nv
            invariant
                b == bytes@,
                len == b.len(),
                nv == header_vertex_count(b),
                16 + 32 * nv <= len,
                k <= nv,
                vertices@ =~= vertices_at(b, 16, k as nat),
            decreases nv - k,
        {
            let v = read_vertex(bytes, 16 + 32 * k);
            vertices.push(v);
            k = k + 1;
        }

        let mut indices: Vec<u16> = Vec::new();
        let mut k: usize = 0;
        while k < ni
            invariant
                b == bytes@,
                len == b.len(),
                ni == header_index_count(b),
                index_start == index_data_start(b),
                index_start + 2 * ni <= len,
                k <= ni,
                indices@ =~= indices_at(b, index_data_start(b), k as nat),
            decreases ni - k,
        {
            let x = read_u16(bytes, index_start + 2 * k);
            indices.push(x);
            k = k + 1;
        }
        Ok(Model { vertices, indices })
    }
}


proof fn lemma_concat_subrange<T>(a: Seq<T>, c: Seq<T>, i: int, j: int)
    ensures
        0 <= i <= j <= a.len() ==> (a + c).subrange(i, j) == a.subrange(i, j),
        a.len() <= i <= j <= a.len() + c.len() ==> (a + c).subrange(i, j) == c.subrange(
            i - a.len(),
            j - a.len(),
        ),
{
    if 0 <= i <= j <= a.len() {
        assert((a + c).subrange(i, j) =~= a.subrange(i, j));
    }
    if a.len() <= i <= j <= a.len() + c.len() {
        assert((a + c).subrange(i, j) =~= c.subrange(i - a.len(), j - a.len()));
    }
}

proof fn lemma_subrange_subrange<T>(s: Seq<T>, i: int, j: int, x: int, y: int)
    requires
        0 <= i <= j <= s.len(),
        0 <= x <= y <= j - i,
    ensures
        s.subrange(i, j).subrange(x, y) == s.subrange(i + x, i + y),
{
    assert(s.subrange(i, j).subrange(x, y) =~= s.subrange(i + x, i + y));
}

/// The `j`-th four bytes of a vertex's bytes are its `j`-th word.
proof fn lemma_vertex_le_bytes_word(v: Vertex, j: int)
    requires
        0 <= j < 8,
    ensures
        vertex_le_bytes(v).len() == 32,
        vertex_le_bytes(v).subrange(4 * j, 4 * j + 4) == spec_u32_to_le_bytes(vertex_word(v, j)),
{
    lemma_auto_spec_u32_to_from_le_bytes();
    let w0 = spec_u32_to_le_bytes(v.position[0]);
    let w1 = spec_u32_to_le_bytes(v.position[1]);
    let w2 = spec_u32_to_le_bytes(v.position[2]);
    let w3 = spec_u32_to_le_bytes(v.color[0]);
    let w4 = spec_u32_to_le_bytes(v.color[1]);
    let w5 = spec_u32_to_le_bytes(v.color[2]);
    let w6 = spec_u32_to_le_bytes(v.texture_coords[0]);
    let w7 = spec_u32_to_le_bytes(v.texture_coords[1]);
    let s = vertex_le_bytes(v);
    assert(s =~= w0 + w1 + w2 + w3 + w4 + w5 + w6 + w7);
    let ws = seq![w0, w1, w2, w3, w4, w5, w6, w7];
    assert forall|i: int| 0 <= i < 32 implies #[trigger] s[i] == ws[i / 4][i % 4] by {}
    assert(s.subrange(4 * j, 4 * j + 4) =~= ws[j]);
}

/// A vertex read back from its own 32 bytes is that vertex.
proof fn lemma_vertex_at_bytes(b: Seq<u8>, at: int, v: Vertex)
    requires
        0 <= at,
        at + 32 <= b.len(),
        b.subrange(at, at + 32) == vertex_le_bytes(v),
    ensures
        vertex_at(b, at) == v,
{
    lemma_auto_spec_u32_to_from_le_bytes();
    assert forall|j: int| 0 <= j < 8 implies #[trigger] u32_at(b, at + 4 * j) == vertex_word(v, j) by {
        lemma_vertex_le_bytes_word(v, j);
        lemma_subrange_subrange(b, at, at + 32, 4 * j, 4 * j + 4);
    }
    assert(u32_at(b, at + 4 * 0) == vertex_word(v, 0));
    assert(u32_at(b, at + 4 * 1) == vertex_word(v, 1));
    assert(u32_at(b, at + 4 * 2) == vertex_word(v, 2));
    assert(u32_at(b, at + 4 * 3) == vertex_word(v, 3));
    assert(u32_at(b, at + 4 * 4) == vertex_word(v, 4));
    assert(u32_at(b, at + 4 * 5) == vertex_word(v, 5));
    assert(u32_at(b, at + 4 * 6) == vertex_word(v, 6));
    assert(u32_at(b, at + 4 * 7) == vertex_word(v, 7));
    let r = vertex_at(b, at);
    assert(r.position =~= v.position);
    assert(r.color =~= v.color);
    assert(r.texture_coords =~= v.texture_coords);
}

/// A vertex buffer is 32 bytes per vertex, and the `k`-th 32 bytes are the
/// `k`-th vertex's.
proof fn lemma_vertices_le_bytes(vs: Seq<Vertex>)
    ensures
        vertices_le_bytes(vs).len() == 32 * vs.len(),
        forall|k: int|
            0 <= k < vs.len() ==> #[trigger] vertices_le_bytes(vs).subrange(32 * k, 32 * k + 32)
                == vertex_le_bytes(vs[k]),
    decreases vs.len(),
{
    if vs.len() > 0 {
        let p = vs.drop_last();
        lemma_vertices_le_bytes(p);
        lemma_vertex_le_bytes_word(vs.last(), 0);
        let a = vertices_le_bytes(p);
        let c = vertex_le_bytes(vs.last());
        assert forall|k: int| 0 <= k < vs.len() implies #[trigger] vertices_le_bytes(vs).subrange(
            32 * k,
            32 * k + 32,
        ) == vertex_le_bytes(vs[k]) by {
            lemma_concat_subrange(a, c, 32 * k, 32 * k + 32);
            if k < vs.len() - 1 {
                assert(p[k] == vs[k]);
            } else {
                assert(c.subrange(0, 32) =~= c);
            }
        }
    }
}

/// The index buffer holds 2 bytes per index, and the `k`-th 2 bytes are the
/// `k`-th index, little-endian.
pub proof fn lemma_indices_le_bytes(is: Seq<u16>)
    ensures
        indices_le_bytes(is).len() == 2 * is.len(),
        forall|k: int|
            0 <= k < is.len() ==> #[trigger] indices_le_bytes(is).subrange(2 * k, 2 * k + 2)
                == spec_u16_to_le_bytes(is[k]),
    decreases is.len(),
{
    lemma_auto_spec_u16_to_from_le_bytes();
    if is.len() > 0 {
        let p = is.drop_last();
        lemma_indices_le_bytes(p);
        let a = indices_le_bytes(p);
        let c = spec_u16_to_le_bytes(is.last());
        assert forall|k: int| 0 <= k < is.len() implies #[trigger] indices_le_bytes(is).subrange(
            2 * k,
            2 * k + 2,
        ) == spec_u16_to_le_bytes(is[k]) by {
            lemma_concat_subrange(a, c, 2 * k, 2 * k + 2);
            if k < is.len() - 1 {
                assert(p[k] == is[k]);
            } else {
                assert(c.subrange(0, 2) =~= c);
            }
        }
    }
}

/// Loading what a save wrote gives back the saved vertices and indices:
/// the binary model file holds a model exactly.
pub proof fn lemma_decode_encode(vs: Seq<Vertex>, is: Seq<u16>)
    requires
        vs.len() <= u64::MAX,
        is.len() <= u64::MAX,
    ensures
        decode_model(model_le_bytes(vs, is)) == Ok::<(Seq<Vertex>, Seq<u16>), DecodeError>((vs, is)),
{
    lemma_auto_spec_u16_to_from_le_bytes();
    lemma_auto_spec_u64_to_from_le_bytes();
    lemma_vertices_le_bytes(vs);
    lemma_indices_le_bytes(is);
    let h1 = spec_u64_to_le_bytes(vs.len() as u64);
    let h2 = spec_u64_to_le_bytes(is.len() as u64);
    let vb = vertices_le_bytes(vs);
    let ib = indices_le_bytes(is);
    let b = model_le_bytes(vs, is);
    let hv = h1 + h2 + vb;
    assert(b == hv + ib);
    assert(h1.len() == 8 && h2.len() == 8);
    assert(hv.len() == 16 + 32 * vs.len());
    assert(b.subrange(0, 8) =~= h1);
    assert(b.subrange(8, 16) =~= h2);
    assert(header_vertex_count(b) == vs.len());
    assert(header_index_count(b) == is.len());
    assert(index_data_start(b) == 16 + 32 * vs.len());
    assert(b.len() == 16 + 32 * vs.len() + 2 * is.len());
    let dv = vertices_at(b, 16, header_vertex_count(b));
    let di = indices_at(b, index_data_start(b), header_index_count(b));
    assert forall|k: int| 0 <= k < vs.len() implies #[trigger] dv[k] == vs[k] by {
        lemma_concat_subrange(hv, ib, 16 + 32 * k, 16 + 32 * k + 32);
        lemma_concat_subrange(h1 + h2, vb, 16 + 32 * k, 16 + 32 * k + 32);
        assert(vb.subrange(32 * k, 32 * k + 32) == vertex_le_bytes(vs[k]));
        assert(b.subrange(16 + 32 * k, 16 + 32 * k + 32) == vertex_le_bytes(vs[k]));
        lemma_vertex_at_bytes(b, 16 + 32 * k, vs[k]);
    }
    assert forall|k: int| 0 <= k < is.len() implies #[trigger] di[k] == is[k] by {
        let at = 16 + 32 * vs.len() + 2 * k;
        lemma_concat_subrange(hv, ib, at, at + 2);
        assert(ib.subrange(2 * k, 2 * k + 2) == spec_u16_to_le_bytes(is[k]));
        assert(b.subrange(at, at + 2) == spec_u16_to_le_bytes(is[k]));
        assert(index_data_start(b) + 2 * k == at);
    }
    assert(dv =~= vs);
    assert(di =~= is);
}

/// Saving a model and loading the file gives back the same model.
pub proof fn lemma_model_round_trip(m: Model)
    ensures
        decode_model(model_le_bytes(m.vertices@, m.indices@)) == Ok::<(Seq<Vertex>, Seq<u16>), DecodeError>(
            (m.vertices@, m.indices@),
        ),
{
    assert(m.vertices@.len() == m.vertices.len());
    assert(m.indices@.len() == m.indices.len());
    lemma_decode_encode(m.vertices@, m.indices@);
}


/// The bytes of a vertex read from `b` at `at` are the bytes it was read from.
proof fn lemma_bytes_of_vertex_at(b: Seq<u8>, at: int)
    requires
        0 <= at,
        at + 32 <= b.len(),
    ensures
        vertex_le_bytes(vertex_at(b, at)) == b.subrange(at, at + 32),
{
    lemma_auto_spec_u32_to_from_le_bytes();
    let r = vertex_at(b, at);
    let s = vertex_le_bytes(r);
    assert forall|j: int| 0 <= j < 8 implies #[trigger] vertex_word(r, j) == u32_at(b, at + 4 * j) by {}
    assert forall|i: int| 0 <= i < 32 implies #[trigger] s[i] == b[at + i] by {
        let j = i / 4;
        lemma_vertex_le_bytes_word(r, j);
        assert(vertex_word(r, j) == u32_at(b, at + 4 * j));
        assert(b.subrange(at + 4 * j, at + 4 * j + 4).len() == 4);
        assert(spec_u32_to_le_bytes(u32_at(b, at + 4 * j)) == b.subrange(at + 4 * j, at + 4 * j + 4));
        assert(s.subrange(4 * j, 4 * j + 4)[i - 4 * j] == s[i]);
        assert(b.subrange(at + 4 * j, at + 4 * j + 4)[i - 4 * j] == b[at + i]);
    }
    lemma_vertex_le_bytes_word(r, 0);
    assert(s =~= b.subrange(at, at + 32));
}

proof fn lemma_bytes_of_vertices_at(b: Seq<u8>, at: int, n: nat)
    requires
        0 <= at,
        at + 32 * n <= b.len(),
    ensures
        vertices_le_bytes(vertices_at(b, at, n)) == b.subrange(at, at + 32 * n),
    decreases n,
{
    let vs = vertices_at(b, at, n);
    if n == 0 {
        assert(b.subrange(at, at) =~= Seq::<u8>::empty());
    } else {
        let m = (n - 1) as nat;
        lemma_bytes_of_vertices_at(b, at, m);
        assert(vs.drop_last() =~= vertices_at(b, at, m));
        lemma_bytes_of_vertex_at(b, at + 32 * m);
        assert(b.subrange(at, at + 32 * m) + b.subrange(at + 32 * m, at + 32 * m + 32) =~= b.subrange(
            at,
            at + 32 * n,
        ));
    }
}

proof fn lemma_bytes_of_indices_at(b: Seq<u8>, at: int, n: nat)
    requires
        0 <= at,
        at + 2 * n <= b.len(),
    ensures
        indices_le_bytes(indices_at(b, at, n)) == b.subrange(at, at + 2 * n),
    decreases n,
{
    lemma_auto_spec_u16_to_from_le_bytes();
    let is = indices_at(b, at, n);
    if n == 0 {
        assert(b.subrange(at, at) =~= Seq::<u8>::empty());
    } else {
        let m = (n - 1) as nat;
        lemma_bytes_of_indices_at(b, at, m);
        assert(is.drop_last() =~= indices_at(b, at, m));
        assert(b.subrange(at + 2 * m, at + 2 * m + 2).len() == 2);
        assert(spec_u16_to_le_bytes(u16_at(b, at + 2 * m)) == b.subrange(at + 2 * m, at + 2 * m + 2));
        assert(b.subrange(at, at + 2 * m) + b.subrange(at + 2 * m, at + 2 * m + 2) =~= b.subrange(
            at,
            at + 2 * n,
        ));
    }
}

/// Whatever a load accepts, saving the loaded model writes back exactly the
/// bytes that the load read.
pub proof fn lemma_encode_decode(b: Seq<u8>)
    requires
        decode_model(b) is Ok,
    ensures
        model_data_end(b) <= b.len(),
        model_le_bytes(decode_model(b)->Ok_0.0, decode_model(b)->Ok_0.1) == b.subrange(
            0,
            model_data_end(b),
        ),
{
    lemma_auto_spec_u64_to_from_le_bytes();
    let nv = header_vertex_count(b);
    let ni = header_index_count(b);
    let start = index_data_start(b);
    let vs = vertices_at(b, 16, nv);
    let is = indices_at(b, start, ni);
    assert(b.subrange(0, 8).len() == 8);
    assert(b.subrange(8, 16).len() == 8);
    assert(spec_u64_to_le_bytes(vs.len() as u64) == b.subrange(0, 8));
    assert(spec_u64_to_le_bytes(is.len() as u64) == b.subrange(8, 16));
    lemma_bytes_of_vertices_at(b, 16, nv);
    lemma_bytes_of_indices_at(b, start, ni);
    assert(model_le_bytes(vs, is) =~= b.subrange(0, model_data_end(b)));
}


/// The vertex layout that the render pipeline declares matches the vertex
/// buffer: vertex `k` starts at `k * VERTEX_STRIDE`, and inside it the
/// position, colour and texture coordinates start at their declared offsets,
/// one 4-byte word per component.
pub proof fn lemma_vertex_layout(vs: Seq<Vertex>, k: int)
    requires
        0 <= k < vs.len(),
    ensures
        vertices_le_bytes(vs).len() == VERTEX_STRIDE * vs.len(),
        ({
            let at = VERTEX_STRIDE * k;
            let b = vertices_le_bytes(vs);
            let v = vs[k];
            &&& forall|j: int|
                0 <= j < 3 ==> #[trigger] b.subrange(
                    at + POSITION_OFFSET + 4 * j,
                    at + POSITION_OFFSET + 4 * j + 4,
                ) == spec_u32_to_le_bytes(v.position[j])
            &&& forall|j: int|
                0 <= j < 3 ==> #[trigger] b.subrange(
                    at + COLOR_OFFSET + 4 * j,
                    at + COLOR_OFFSET + 4 * j + 4,
                ) == spec_u32_to_le_bytes(v.color[j])
            &&& forall|j: int|
                0 <= j < 2 ==> #[trigger] b.subrange(
                    at + TEXTURE_COORDS_OFFSET + 4 * j,
                    at + TEXTURE_COORDS_OFFSET + 4 * j + 4,
                ) == spec_u32_to_le_bytes(v.texture_coords[j])
        }),
{
    lemma_vertices_le_bytes(vs);
    let at = 32 * k;
    let b = vertices_le_bytes(vs);
    let v = vs[k];
    assert(b.subrange(at, at + 32) == vertex_le_bytes(v));
    assert forall|w: int| 0 <= w < 8 implies #[trigger] b.subrange(at + 4 * w, at + 4 * w + 4)
        == spec_u32_to_le_bytes(vertex_word(v, w)) by {
        lemma_vertex_le_bytes_word(v, w);
        lemma_subrange_subrange(b, at, at + 32, 4 * w, 4 * w + 4);
    }
    assert forall|j: int| 0 <= j < 3 implies #[trigger] b.subrange(
        at + POSITION_OFFSET + 4 * j,
        at + POSITION_OFFSET + 4 * j + 4,
    ) == spec_u32_to_le_bytes(v.position[j]) by {
        assert(b.subrange(at + 4 * j, at + 4 * j + 4) == spec_u32_to_le_bytes(vertex_word(v, j)));
    }
    assert forall|j: int| 0 <= j < 3 implies #[trigger] b.subrange(
        at + COLOR_OFFSET + 4 * j,
        at + COLOR_OFFSET + 4 * j + 4,
    ) == spec_u32_to_le_bytes(v.color[j]) by {
        assert(b.subrange(at + 4 * (j + 3), at + 4 * (j + 3) + 4) == spec_u32_to_le_bytes(
            vertex_word(v, j + 3),
        ));
    }
    assert forall|j: int| 0 <= j < 2 implies #[trigger] b.subrange(
        at + TEXTURE_COORDS_OFFSET + 4 * j,
        at + TEXTURE_COORDS_OFFSET + 4 * j + 4,
    ) == spec_u32_to_le_bytes(v.texture_coords[j]) by {
        assert(b.subrange(at + 4 * (j + 6), at + 4 * (j + 6) + 4) == spec_u32_to_le_bytes(
            vertex_word(v, j + 6),
        ));
    }
}


/// Bytes after the index data do not change what a load reads.
pub proof fn lemma_decode_ignores_trailing_bytes(b: Seq<u8>, extra: Seq<u8>)
    requires
        decode_model(b) is Ok,
    ensures
        decode_model(b + extra) == decode_model(b),
{
    let c = b + extra;
    assert forall|i: int, j: int| 0 <= i <= j <= b.len() implies #[trigger] c.subrange(i, j)
        == b.subrange(i, j) by {
        lemma_concat_subrange(b, extra, i, j);
    }
    assert(c.subrange(0, 8) == b.subrange(0, 8));
    assert(c.subrange(8, 16) == b.subrange(8, 16));
    let nv = header_vertex_count(b);
    let ni = header_index_count(b);
    let start = index_data_start(b);
    assert forall|k: int| 0 <= k < nv implies #[trigger] vertex_at(c, 16 + 32 * k) == vertex_at(
        b,
        16 + 32 * k,
    ) by {
        let at = 16 + 32 * k;
        assert(c.subrange(at, at + 4) == b.subrange(at, at + 4));
        assert(c.subrange(at + 4, at + 4 + 4) == b.subrange(at + 4, at + 4 + 4));
        assert(c.subrange(at + 8, at + 8 + 4) == b.subrange(at + 8, at + 8 + 4));
        assert(c.subrange(at + 12, at + 12 + 4) == b.subrange(at + 12, at + 12 + 4));
        assert(c.subrange(at + 16, at + 16 + 4) == b.subrange(at + 16, at + 16 + 4));
        assert(c.subrange(at + 20, at + 20 + 4) == b.subrange(at + 20, at + 20 + 4));
        assert(c.subrange(at + 24, at + 24 + 4) == b.subrange(at + 24, at + 24 + 4));
        assert(c.subrange(at + 28, at + 28 + 4) == b.subrange(at + 28, at + 28 + 4));
    }
    assert forall|k: int| 0 <= k < ni implies #[trigger] u16_at(c, start + 2 * k) == u16_at(
        b,
        start + 2 * k,
    ) by {
        assert(c.subrange(start + 2 * k, start + 2 * k + 2) == b.subrange(
            start + 2 * k,
            start + 2 * k + 2,
        ));
    }
    assert(vertices_at(c, 16, nv) =~= vertices_at(b, 16, nv));
    assert(indices_at(c, start, ni) =~= indices_at(b, start, ni));
}


/// The binary model file, byte by byte: the vertex count and the index
/// count as little-endian `u64` at bytes 0 and 8; then vertex `k` at byte
/// `16 + 32 k`, its position x, y, z, colour r, g, b and texture u, v as
/// little-endian 32-bit words in that order; then index `k` as a
/// little-endian `u16` after the vertices; and nothing more.
pub proof fn lemma_file_layout(vs: Seq<Vertex>, is: Seq<u16>)
    requires
        vs.len() <= u64::MAX,
        is.len() <= u64::MAX,
    ensures
        ({
            let b = model_le_bytes(vs, is);
            &&& b.len() == 16 + 32 * vs.len() + 2 * is.len()
            &&& spec_u64_from_le_bytes(b.subrange(0, 8)) == vs.len()
            &&& spec_u64_from_le_bytes(b.subrange(8, 16)) == is.len()
            &&& forall|k: int| #![trigger vs[k]] 0 <= k < vs.len() ==> {
                let at = 16 + 32 * k;
                &&& spec_u32_from_le_bytes(b.subrange(at + 0, at + 4)) == vs[k].position[0]
                &&& spec_u32_from_le_bytes(b.subrange(at + 4, at + 8)) == vs[k].position[1]
                &&& spec_u32_from_le_bytes(b.subrange(at + 8, at + 12)) == vs[k].position[2]
                &&& spec_u32_from_le_bytes(b.subrange(at + 12, at + 16)) == vs[k].color[0]
                &&& spec_u32_from_le_bytes(b.subrange(at + 16, at + 20)) == vs[k].color[1]
                &&& spec_u32_from_le_bytes(b.subrange(at + 20, at + 24)) == vs[k].color[2]
                &&& spec_u32_from_le_bytes(b.subrange(at + 24, at + 28)) == vs[k].texture_coords[0]
                &&& spec_u32_from_le_bytes(b.subrange(at + 28, at + 32)) == vs[k].texture_coords[1]
            }
            &&& forall|k: int|
                0 <= k < is.len() ==> spec_u16_from_le_bytes(
                    b.subrange(16 + 32 * vs.len() + 2 * k, 16 + 32 * vs.len() + 2 * k + 2),
                ) == #[trigger] is[k]
        }),
{
    lemma_decode_encode(vs, is);
    lemma_vertices_le_bytes(vs);
    lemma_indices_le_bytes(is);
    lemma_auto_spec_u64_to_from_le_bytes();
    let b = model_le_bytes(vs, is);
    assert(b.len() == 16 + 32 * vs.len() + 2 * is.len());
    assert forall|k: int| 0 <= k < vs.len() implies vertex_at(b, 16 + 32 * k) == #[trigger] vs[k] by {
        assert(vertices_at(b, 16, header_vertex_count(b))[k] == vs[k]);
    }
    assert forall|k: int| 0 <= k < is.len() implies u16_at(b, 16 + 32 * vs.len() + 2 * k) == #[trigger] is[k] by {
        assert(indices_at(b, index_data_start(b), header_index_count(b))[k] == is[k]);
    }
}

/// What a load makes of any bytes `b`, read straight off the bytes: too
/// short for the 16-byte header, for the vertices or for the indices that
/// the header's little-endian counts announce, each with its own error and
/// only then; otherwise exactly the announced number of vertices and
/// indices, each read little-endian at its place.
pub proof fn lemma_decode_reads(b: Seq<u8>)
    ensures
        (decode_model(b) == Err::<(Seq<Vertex>, Seq<u16>), DecodeError>(DecodeError::TruncatedHeader))
            <==> b.len() < 16,
        b.len() >= 16 ==> ({
            let nv = spec_u64_from_le_bytes(b.subrange(0, 8)) as int;
            let ni = spec_u64_from_le_bytes(b.subrange(8, 16)) as int;
            let start = 16 + 32 * nv;
            &&& (decode_model(b) == Err::<(Seq<Vertex>, Seq<u16>), DecodeError>(DecodeError::TruncatedVertices))
                <==> b.len() < start
            &&& (decode_model(b) == Err::<(Seq<Vertex>, Seq<u16>), DecodeError>(DecodeError::TruncatedIndices))
                <==> (start <= b.len() < start + 2 * ni)
            &&& (decode_model(b) is Ok) <==> start + 2 * ni <= b.len()
            &&& decode_model(b) is Ok ==> {
                let vs = decode_model(b)->Ok_0.0;
                let is = decode_model(b)->Ok_0.1;
                &&& vs.len() == nv
                &&& is.len() == ni
                &&& forall|k: int| #![trigger vs[k]] 0 <= k < nv ==> {
                    let at = 16 + 32 * k;
                    &&& spec_u32_from_le_bytes(b.subrange(at + 0, at + 4)) == vs[k].position[0]
                    &&& spec_u32_from_le_bytes(b.subrange(at + 4, at + 8)) == vs[k].position[1]
                    &&& spec_u32_from_le_bytes(b.subrange(at + 8, at + 12)) == vs[k].position[2]
                    &&& spec_u32_from_le_bytes(b.subrange(at + 12, at + 16)) == vs[k].color[0]
                    &&& spec_u32_from_le_bytes(b.subrange(at + 16, at + 20)) == vs[k].color[1]
                    &&& spec_u32_from_le_bytes(b.subrange(at + 20, at + 24)) == vs[k].color[2]
                    &&& spec_u32_from_le_bytes(b.subrange(at + 24, at + 28)) == vs[k].texture_coords[0]
                    &&& spec_u32_from_le_bytes(b.subrange(at + 28, at + 32)) == vs[k].texture_coords[1]
                }
                &&& forall|k: int|
                    0 <= k < ni ==> #[trigger] is[k] == spec_u16_from_le_bytes(
                        b.subrange(start + 2 * k, start + 2 * k + 2),
                    )
            }
        }),
{
}

} // verus!
