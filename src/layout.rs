//! The binary shape of the uploaded vertex record, as the rendering pipeline
//! binds it, and the byte images of the vertex and index arrays.
use vstd::prelude::*;

use crate::mesh::{Coord3, MeshBuffers, ModelVertex};

verus! {

/// Numeric format of one vertex attribute.
#[derive(Clone, Copy, Debug, PartialEq, Eq, Structural)]
pub enum VertexFormat {
    /// Three single-precision values.
    Float32x3,
}

/// Whether the buffer advances per vertex or per instance.
#[derive(Clone, Copy, Debug, PartialEq, Eq, Structural)]
pub enum VertexStepMode {
    Vertex,
    Instance,
}

/// One attribute of a vertex record: where it starts, which shader input it
/// feeds, and its format.
#[derive(Clone, Copy, Debug, PartialEq, Eq, Structural)]
pub struct VertexAttribute {
    pub offset: u64,
    pub shader_location: u32,
    pub format: VertexFormat,
}

/// The layout of a vertex buffer: the bytes from one record to the next, how
/// the buffer steps, and the attributes of a record.
#[derive(Debug)]
pub struct VertexLayout {
    pub array_stride: u64,
    pub step_mode: VertexStepMode,
    pub attributes: Vec<VertexAttribute>,
}

/// Bytes in one 32-bit word.
pub const WORD_BYTES: u64 = 4;

/// Bytes of a three-component attribute.
pub const COORD_BYTES: u64 = 12;

/// Bytes of a `ModelVertex` record: a position, then a normal, unpadded.
pub const MODEL_VERTEX_BYTES: u64 = 24;

/// A kind of vertex record that can describe its own buffer layout.
pub trait Vertex {
    spec fn stride_spec() -> u64;

    spec fn attributes_spec() -> Seq<VertexAttribute>;

    fn describe() -> (r: VertexLayout)
        ensures
            r.array_stride == Self::stride_spec(),
            r.step_mode == VertexStepMode::Vertex,
            r.attributes@ == Self::attributes_spec(),
    ;
}

impl Vertex for ModelVertex {
    open spec fn stride_spec() -> u64 {
        MODEL_VERTEX_BYTES
    }

    open spec fn attributes_spec() -> Seq<VertexAttribute> {
        seq![
            VertexAttribute { offset: 0, shader_location: 0, format: VertexFormat::Float32x3 },
            VertexAttribute {
                offset: COORD_BYTES,
                shader_location: 1,
                format: VertexFormat::Float32x3,
            },
        ]
    }

    /// Position at offset 0 into shader input 0, normal right after it into
    /// shader input 1, both three single-precision values.
    fn describe() -> (r: VertexLayout) {
        let mut attributes: Vec<VertexAttribute> = Vec::new();
        attributes.push(
            VertexAttribute { offset: 0, shader_location: 0, format: VertexFormat::Float32x3 },
        );
        attributes.push(
            VertexAttribute {
                offset: COORD_BYTES,
                shader_location: 1,
                format: VertexFormat::Float32x3,
            },
        );
        assert(attributes@ =~= Self::attributes_spec());
        VertexLayout {
            array_stride: MODEL_VERTEX_BYTES,
            step_mode: VertexStepMode::Vertex,
            attributes,
        }
    }
}

/// A mesh whose vertex buffer holds records of one kind.
pub trait Mesh {
    type VertexType: Vertex;

    /// The layout of the mesh's vertex buffer: that of its records.
    fn describe() -> (r: VertexLayout)
        ensures
            r.array_stride == Self::VertexType::stride_spec(),
            r.step_mode == VertexStepMode::Vertex,
            r.attributes@ == Self::VertexType::attributes_spec(),
    {
        Self::VertexType::describe()
    }
}

impl Mesh for MeshBuffers {
    type VertexType = ModelVertex;
}

/// Component `c` (0, 1 or 2) of a coordinate triple.
pub open spec fn component(p: Coord3, c: int) -> u32 {
    if c == 0 {
        p.x
    } else if c == 1 {
        p.y
    } else {
        p.z
    }
}

/// Word `j` (0 to 5) of a vertex record: the position's three, then the
/// normal's.
pub open spec fn record_word(v: ModelVertex, j: int) -> u32 {
    if j < 3 {
        component(v.position, j)
    } else {
        component(v.normal, j - 3)
    }
}

/// The records laid end to end, six words each.
pub open spec fn vertex_words_spec(vs: Seq<ModelVertex>) -> Seq<u32> {
    Seq::new(6 * vs.len(), |k: int| record_word(vs[k / 6], k % 6))
}

/// Byte `j` (0 to 3) of `w`, counted from the least significant.
pub open spec fn word_byte(w: u32, j: int) -> u8 {
    let d: int = if j == 0 {
        1
    } else if j == 1 {
        0x100
    } else if j == 2 {
        0x1_0000
    } else {
        0x100_0000
    };
    ((w as int / d) % 256) as u8
}

/// The words' bytes, least significant first in each word.
pub open spec fn le_bytes(words: Seq<u32>) -> Seq<u8> {
    Seq::new(4 * words.len(), |k: int| word_byte(words[k / 4], k % 4))
}

/// The words' bytes, most significant first in each word.
pub open spec fn be_bytes(words: Seq<u32>) -> Seq<u8> {
    Seq::new(4 * words.len(), |k: int| word_byte(words[k / 4], 3 - k % 4))
}

/// Relies on `bytemuck::cast_slice`: it views the words' memory as bytes, in
/// the byte order of the machine, which is one of the two for all words.
#[verifier::external_body]
fn words_as_bytes(words: &[u32]) -> (r: Vec<u8>)
    ensures
        r@ == le_bytes(words@) || r@ == be_bytes(words@),
{
    bytemuck::cast_slice::<u32, u8>(words).to_vec()
}

/// The records as words, six per vertex.
pub fn vertex_words(vs: &Vec<ModelVertex>) -> (r: Vec<u32>)
    requires
        6 * vs@.len() <= usize::MAX,
    ensures
        r@ == vertex_words_spec(vs@),
{
    let mut r: Vec<u32> = Vec::new();
    let mut i: usize = 0;
    while i < vs.len()
        invariant
            i <= vs@.len(),
            6 * vs@.len() <= usize::MAX,
            r@ =~= vertex_words_spec(vs@).take(6 * i),
        decreases vs@.len() - i,
    {
        let v = vs[i];
        r.push(v.position.x);
        r.push(v.position.y);
        r.push(v.position.z);
        r.push(v.normal.x);
        r.push(v.normal.y);
        r.push(v.normal.z);
        i = i + 1;
    }
    r
}

proof fn lemma_word_index(i: int, c: int)
    requires
        0 <= i,
        0 <= c < 6,
    ensures
        (6 * i + c) / 6 == i,
        (6 * i + c) % 6 == c,
        (i * 24 + 12) / 4 == 6 * i + 3,
        (i * 24) / 4 == 6 * i,
{
    assert((6 * i + c) / 6 == i && (6 * i + c) % 6 == c) by (nonlinear_arith)
        requires
            0 <= i,
            0 <= c < 6,
    ;
    assert((i * 24 + 12) / 4 == 6 * i + 3 && (i * 24) / 4 == 6 * i) by (nonlinear_arith)
        requires
            0 <= i,
    ;
}

/// The layout that `ModelVertex` describes matches its words: the records
/// take `stride` bytes each, and component `c` of the attribute at `offset`
/// in record `i` is the word at byte `i * stride + offset + 4 * c`.
pub proof fn lemma_layout_matches_record(vs: Seq<ModelVertex>, i: int, c: int)
    requires
        0 <= i < vs.len(),
        0 <= c < 3,
    ensures
        WORD_BYTES * vertex_words_spec(vs).len() == ModelVertex::stride_spec() * vs.len(),
        vertex_words_spec(vs)[(i * ModelVertex::stride_spec() + ModelVertex::attributes_spec()[0].offset)
            / WORD_BYTES as int + c] == component(vs[i].position, c),
        vertex_words_spec(vs)[(i * ModelVertex::stride_spec() + ModelVertex::attributes_spec()[1].offset)
            / WORD_BYTES as int + c] == component(vs[i].normal, c),
{
    lemma_word_index(i, c);
    lemma_word_index(i, c + 3);
    assert((6 * i + c) < 6 * vs.len() && (6 * i + c + 3) < 6 * vs.len()) by (nonlinear_arith)
        requires
            0 <= i < vs.len(),
            0 <= c < 3,
    ;
}

impl MeshBuffers {
    /// The bytes of the vertex array as it is uploaded.
    pub fn vertex_bytes(&self) -> (r: Vec<u8>)
        requires
            24 * self.vertices@.len() <= usize::MAX,
        ensures
            r@ == le_bytes(vertex_words_spec(self.vertices@)) || r@ == be_bytes(
                vertex_words_spec(self.vertices@),
            ),
    {
        let words = vertex_words(&self.vertices);
        words_as_bytes(words.as_slice())
    }

    /// The bytes of the index array as it is uploaded.
    pub fn index_bytes(&self) -> (r: Vec<u8>)
        ensures
            r@ == le_bytes(self.indices@) || r@ == be_bytes(self.indices@),
    {
        words_as_bytes(self.indices.as_slice())
    }
}

} // verus!
