//! Accumulation of positions, normals and triangles line by line, and the
//! reconciliation of what was read into the vertex and index arrays that are
//! uploaded.
//!
//! Coordinates are IEEE-754 single-precision values held as their 32-bit
//! patterns: this module never computes with them, it only moves them.
use vstd::prelude::*;

use crate::directive::{directive_spec, tokens_spec, Directive, LineTokens};
use crate::text::{decimal_u32_spec, parse_decimal_u32};

verus! {

/// Three single-precision values, each held as its bit pattern.
#[derive(Clone, Copy, Debug, PartialEq, Eq, Structural)]
pub struct Coord3 {
    pub x: u32,
    pub y: u32,
    pub z: u32,
}

/// Bit pattern of the single-precision value 1.0.
pub const ONE_BITS: u32 = 0x3F80_0000;

/// The normal given to a vertex when the file has none: (0, 1, 0), "up".
pub open spec fn up_normal() -> Coord3 {
    Coord3 { x: 0, y: ONE_BITS, z: 0 }
}

/// The record that is uploaded: a position and a normal.
#[derive(Clone, Copy, Debug, PartialEq, Eq, Structural)]
pub struct ModelVertex {
    pub position: Coord3,
    pub normal: Coord3,
}

impl ModelVertex {
    pub fn new(position: Coord3, normal: Coord3) -> (r: Self)
        ensures
            r == (ModelVertex { position, normal }),
    {
        ModelVertex { position, normal }
    }
}

/// What has been read so far: positions and normals in the order of their
/// lines, the triangles as a flat stream of 0-based references, and the
/// number of recognised lines that were dropped as malformed.
pub struct MeshState {
    pub positions: Seq<Coord3>,
    pub normals: Seq<Coord3>,
    pub faces: Seq<u32>,
    pub skipped: nat,
}

pub open spec fn empty_state() -> MeshState {
    MeshState { positions: Seq::empty(), normals: Seq::empty(), faces: Seq::empty(), skipped: 0 }
}

/// One more dropped line; the count stops at the largest `usize`.
pub open spec fn bump(n: nat) -> nat {
    if n < usize::MAX {
        n + 1
    } else {
        n
    }
}

/// The values that did parse, in order.
pub open spec fn parsed_values(s: Seq<Option<u32>>) -> Seq<u32>
    decreases s.len(),
{
    if s.len() == 0 {
        Seq::empty()
    } else {
        let r = parsed_values(s.drop_last());
        match s.last() {
            Some(v) => r.push(v),
            None => r,
        }
    }
}

/// The tokens that read as unsigned decimal integers, read.
pub open spec fn parsed_indices(tokens: Seq<Seq<char>>) -> Seq<Option<u32>> {
    tokens.map_values(|t: Seq<char>| decimal_u32_spec(t))
}

pub open spec fn coord_of(v: Seq<u32>) -> Coord3 {
    Coord3 { x: v[0], y: v[1], z: v[2] }
}

/// A face is kept when exactly three of its tokens read as integers and none
/// of them is 0 (references are 1-based).
pub open spec fn face_accepted(refs: Seq<u32>) -> bool {
    refs.len() == 3 && refs[0] >= 1 && refs[1] >= 1 && refs[2] >= 1
}

/// The effect of one line. `values` holds, for each token, the bit pattern of
/// the single-precision value that it reads as, or `None`; it is used by
/// position and normal lines.
pub open spec fn line_step(
    st: MeshState,
    directive: Directive,
    tokens: Seq<Seq<char>>,
    values: Seq<Option<u32>>,
) -> MeshState {
    match directive {
        Directive::Vertex => {
            let v = parsed_values(values);
            if v.len() == 3 {
                MeshState { positions: st.positions.push(coord_of(v)), ..st }
            } else {
                MeshState { skipped: bump(st.skipped), ..st }
            }
        },
        Directive::VertexNormal => {
            let v = parsed_values(values);
            if v.len() == 3 {
                MeshState { normals: st.normals.push(coord_of(v)), ..st }
            } else {
                MeshState { skipped: bump(st.skipped), ..st }
            }
        },
        Directive::Face => {
            let refs = parsed_values(parsed_indices(tokens));
            if face_accepted(refs) {
                MeshState {
                    faces: st.faces + seq![
                        (refs[0] - 1) as u32,
                        (refs[1] - 1) as u32,
                        (refs[2] - 1) as u32,
                    ],
                    ..st
                }
            } else {
                MeshState { skipped: bump(st.skipped), ..st }
            }
        },
        Directive::Unknown => st,
    }
}

/// The state after a whole file: each line is given with the readings of its
/// tokens as single-precision values.
pub open spec fn ingest(lines: Seq<(Seq<char>, Seq<Option<u32>>)>) -> MeshState
    decreases lines.len(),
{
    if lines.len() == 0 {
        empty_state()
    } else {
        let (line, values) = lines.last();
        line_step(ingest(lines.drop_last()), directive_spec(line), tokens_spec(line), values)
    }
}

/// The values of `values` that are present, in order.
pub fn collect_parsed(values: &Vec<Option<u32>>) -> (r: Vec<u32>)
    ensures
        r@ == parsed_values(values@),
{
    let mut r: Vec<u32> = Vec::new();
    let mut i: usize = 0;
    while i < values.len()
        invariant
            i <= values@.len(),
            r@ == parsed_values(values@.take(i as int)),
        decreases values@.len() - i,
    {
        assert(values@.take(i + 1).drop_last() =~= values@.take(i as int));
        match values[i] {
            Some(v) => r.push(v),
            None => {},
        }
        i = i + 1;
    }
    assert(values@.take(values@.len() as int) =~= values@);
    r
}

/// Reads every token as an unsigned decimal integer.
pub fn read_indices(tokens: &Vec<Vec<char>>) -> (r: Vec<Option<u32>>)
    ensures
        r@ == parsed_indices(tokens@.map_values(|t: Vec<char>| t@)),
{
    let mut r: Vec<Option<u32>> = Vec::new();
    let mut i: usize = 0;
    while i < tokens.len()
        invariant
            i <= tokens@.len(),
            r@.len() == i,
            forall|k: int| 0 <= k < i ==> r@[k] == decimal_u32_spec(#[trigger] tokens@[k]@),
        decreases tokens@.len() - i,
    {
        r.push(parse_decimal_u32(tokens[i].as_slice()));
        i = i + 1;
    }
    assert(r@ =~= parsed_indices(tokens@.map_values(|t: Vec<char>| t@)));
    r
}

/// How many vertices are emitted: one per position when there are no normals,
/// else one per position that has a normal at the same place.
pub open spec fn emitted_count(positions: Seq<Coord3>, normals: Seq<Coord3>) -> nat {
    if normals.len() == 0 || positions.len() <= normals.len() {
        positions.len()
    } else {
        normals.len()
    }
}

/// Vertex `i`: position `i` with normal `i`, or with the up normal when
/// there are no normals at all.
pub open spec fn vertex_at(positions: Seq<Coord3>, normals: Seq<Coord3>, i: int) -> ModelVertex {
    ModelVertex {
        position: positions[i],
        normal: if normals.len() == 0 {
            up_normal()
        } else {
            normals[i]
        },
    }
}

pub open spec fn vertices_spec(positions: Seq<Coord3>, normals: Seq<Coord3>) -> Seq<ModelVertex> {
    Seq::new(emitted_count(positions, normals), |i: int| vertex_at(positions, normals, i))
}

/// The triangles of a flat stream whose three references all fall below `n`,
/// in their order.
pub open spec fn kept_faces(faces: Seq<u32>, n: nat) -> Seq<u32>
    decreases faces.len(),
{
    if faces.len() < 3 {
        Seq::empty()
    } else {
        let k = faces.len() - 3;
        let rest = kept_faces(faces.take(k), n);
        if faces[k] < n && faces[k + 1] < n && faces[k + 2] < n {
            rest + faces.skip(k)
        } else {
            rest
        }
    }
}

/// The reconciled output, as values.
pub struct MeshModel {
    pub vertices: Seq<ModelVertex>,
    pub indices: Seq<u32>,
    pub unpaired_vertices: nat,
    pub dropped_faces: nat,
}

/// Reconciliation: vertices paired by position in the file, triangles that
/// reference an emitted vertex on all three corners, and the counts of
/// positions left without a vertex and of triangles left out.
pub open spec fn reconcile_spec(positions: Seq<Coord3>, normals: Seq<Coord3>, faces: Seq<u32>) -> MeshModel {
    let n = emitted_count(positions, normals);
    let kept = kept_faces(faces, n);
    MeshModel {
        vertices: vertices_spec(positions, normals),
        indices: kept,
        unpaired_vertices: (positions.len() - n) as nat,
        dropped_faces: ((faces.len() - kept.len()) / 3) as nat,
    }
}

/// What a whole file yields.
pub open spec fn load_spec(lines: Seq<(Seq<char>, Seq<Option<u32>>)>) -> MeshModel {
    let st = ingest(lines);
    reconcile_spec(st.positions, st.normals, st.faces)
}

/// The arrays that are uploaded, and what reconciliation left out.
#[derive(Debug)]
pub struct MeshBuffers {
    pub vertices: Vec<ModelVertex>,
    pub indices: Vec<u32>,
    pub unpaired_vertices: usize,
    pub dropped_faces: usize,
}

impl MeshBuffers {
    pub open spec fn model(&self) -> MeshModel {
        MeshModel {
            vertices: self.vertices@,
            indices: self.indices@,
            unpaired_vertices: self.unpaired_vertices as nat,
            dropped_faces: self.dropped_faces as nat,
        }
    }

    /// The number of indices to draw.
    pub fn index_count(&self) -> (r: usize)
        ensures
            r == self.indices@.len(),
    {
        self.indices.len()
    }
}

proof fn lemma_kept_faces_shape(faces: Seq<u32>, n: nat)
    ensures
        kept_faces(faces, n).len() % 3 == 0,
        kept_faces(faces, n).len() <= faces.len(),
        forall|i: int| 0 <= i < kept_faces(faces, n).len() ==> #[trigger] kept_faces(faces, n)[i] < n,
    decreases faces.len(),
{
    if faces.len() >= 3 {
        let k = faces.len() - 3;
        lemma_kept_faces_shape(faces.take(k), n);
    }
}

/// Reconciles positions, normals and a stream of triangles into the uploaded
/// arrays.
pub fn reconcile(positions: &Vec<Coord3>, normals: &Vec<Coord3>, faces: &Vec<u32>) -> (r: MeshBuffers)
    requires
        faces@.len() % 3 == 0,
    ensures
        r.model() == reconcile_spec(positions@, normals@, faces@),
{
    let n: usize = if normals.len() == 0 || positions.len() <= normals.len() {
        positions.len()
    } else {
        normals.len()
    };
    let mut vertices: Vec<ModelVertex> = Vec::new();
    let mut i: usize = 0;
    while i < n
        invariant
            n == emitted_count(positions@, normals@),
            i <= n,
            vertices@ =~= vertices_spec(positions@, normals@).take(i as int),
        decreases n - i,
    {
        let normal = if normals.len() == 0 {
            Coord3 { x: 0, y: ONE_BITS, z: 0 }
        } else {
            normals[i]
        };
        vertices.push(ModelVertex { position: positions[i], normal });
        i = i + 1;
    }
    let mut indices: Vec<u32> = Vec::new();
    let mut j: usize = 0;
    while j < faces.len()
        invariant
            faces@.len() % 3 == 0,
            j % 3 == 0,
            j <= faces@.len(),
            indices@ == kept_faces(faces@.take(j as int), n as nat),
        decreases faces@.len() - j,
    {
        let a = faces[j];
        let b = faces[j + 1];
        let c = faces[j + 2];
        let ghost prefix = faces@.take(j + 3);
        assert(prefix.take(j as int) =~= faces@.take(j as int));
        if (a as usize) < n && (b as usize) < n && (c as usize) < n {
            let ghost before = indices@;
            indices.push(a);
            indices.push(b);
            indices.push(c);
            assert(prefix.skip(j as int) =~= seq![a, b, c]);
            assert(indices@ =~= before + prefix.skip(j as int));
        }
        j = j + 3;
    }
    assert(faces@.take(faces@.len() as int) =~= faces@);
    proof {
        lemma_kept_faces_shape(faces@, n as nat);
    }
    let unpaired_vertices = positions.len() - n;
    let dropped_faces = (faces.len() - indices.len()) / 3;
    assert(vertices@ =~= vertices_spec(positions@, normals@));
    MeshBuffers { vertices, indices, unpaired_vertices, dropped_faces }
}

/// Every file yields whole triangles: the index stream holds a multiple of
/// three entries.
pub proof fn lemma_indices_whole_triangles(lines: Seq<(Seq<char>, Seq<Option<u32>>)>)
    ensures
        load_spec(lines).indices.len() % 3 == 0,
{
    let st = ingest(lines);
    lemma_kept_faces_shape(st.faces, emitted_count(st.positions, st.normals));
}

/// Every file yields indices that all reference an emitted vertex.
pub proof fn lemma_indices_in_range(lines: Seq<(Seq<char>, Seq<Option<u32>>)>)
    ensures
        forall|i: int|
            0 <= i < load_spec(lines).indices.len() ==> #[trigger] load_spec(lines).indices[i]
                < load_spec(lines).vertices.len(),
{
    let st = ingest(lines);
    lemma_kept_faces_shape(st.faces, emitted_count(st.positions, st.normals));
}

/// A line that is a position line whose tokens read as exactly three values.
pub open spec fn is_position_line(line: (Seq<char>, Seq<Option<u32>>)) -> bool {
    directive_spec(line.0) == Directive::Vertex && parsed_values(line.1).len() == 3
}

proof fn lemma_ingest_positions_only(lines: Seq<(Seq<char>, Seq<Option<u32>>)>)
    requires
        forall|j: int| 0 <= j < lines.len() ==> is_position_line(#[trigger] lines[j]),
    ensures
        ingest(lines).normals.len() == 0,
        ingest(lines).faces.len() == 0,
        ingest(lines).positions == Seq::new(
            lines.len(),
            |j: int| coord_of(parsed_values(lines[j].1)),
        ),
    decreases lines.len(),
{
    if lines.len() > 0 {
        let init = lines.drop_last();
        assert forall|j: int| 0 <= j < init.len() implies is_position_line(#[trigger] init[j]) by {
            assert(init[j] == lines[j]);
        }
        lemma_ingest_positions_only(init);
        assert(is_position_line(lines[lines.len() - 1]));
        assert(ingest(lines).positions =~= Seq::new(
            lines.len(),
            |j: int| coord_of(parsed_values(lines[j].1)),
        ));
    }
}

/// A file of well-formed position lines only yields one vertex per line, in
/// order, each with the up normal, and no indices.
pub proof fn lemma_positions_only_file(lines: Seq<(Seq<char>, Seq<Option<u32>>)>)
    requires
        forall|j: int| 0 <= j < lines.len() ==> is_position_line(#[trigger] lines[j]),
    ensures
        load_spec(lines).vertices.len() == lines.len(),
        forall|i: int|
            0 <= i < lines.len() ==> #[trigger] load_spec(lines).vertices[i] == (ModelVertex {
                position: coord_of(parsed_values(lines[i].1)),
                normal: up_normal(),
            }),
        load_spec(lines).indices.len() == 0,
{
    lemma_ingest_positions_only(lines);
}

/// When a file has normals, vertex `i` pairs position `i` with normal `i`, and
/// there are as many vertices as the shorter of the two sequences.
pub proof fn lemma_pairing_by_order(lines: Seq<(Seq<char>, Seq<Option<u32>>)>)
    requires
        ingest(lines).normals.len() > 0,
    ensures
        load_spec(lines).vertices.len() == if ingest(lines).positions.len() <= ingest(
            lines,
        ).normals.len() {
            ingest(lines).positions.len()
        } else {
            ingest(lines).normals.len()
        },
        forall|i: int|
            0 <= i < load_spec(lines).vertices.len() ==> #[trigger] load_spec(lines).vertices[i]
                == (ModelVertex {
                position: ingest(lines).positions[i],
                normal: ingest(lines).normals[i],
            }),
{
}

/// Builds a mesh from the lines of a file, one call per line.
pub struct MeshBuilder {
    positions: Vec<Coord3>,
    normals: Vec<Coord3>,
    faces: Vec<u32>,
    skipped_lines: usize,
}

impl MeshBuilder {
    /// The state read so far; the count of dropped lines stops at `usize::MAX`.
    pub closed spec fn state(&self) -> MeshState {
        MeshState {
            positions: self.positions@,
            normals: self.normals@,
            faces: self.faces@,
            skipped: self.skipped_lines as nat,
        }
    }

    pub closed spec fn wf(&self) -> bool {
        self.faces@.len() % 3 == 0
    }

    pub fn new() -> (r: Self)
        ensures
            r.wf(),
            r.state() == empty_state(),
    {
        MeshBuilder {
            positions: Vec::new(),
            normals: Vec::new(),
            faces: Vec::new(),
            skipped_lines: 0,
        }
    }

    /// Takes in one line. `values` holds, for each token of the line, the bit
    /// pattern of the single-precision value that it reads as, or `None`.
    /// A position or normal line is kept when exactly three of its tokens read
    /// as values, a face line when exactly three read as integers, none of
    /// them 0; they are stored less one. Any other recognised line is dropped
    /// and counted; an unrecognised one is ignored.
    pub fn add_line(&mut self, line: &LineTokens, values: &Vec<Option<u32>>)
        requires
            old(self).wf(),
            values@.len() == line.tokens@.len(),
        ensures
            final(self).wf(),
            final(self).state() == line_step(
                old(self).state(),
                line.directive,
                line.tokens_view(),
                values@,
            ),
    {
        match line.directive {
            Directive::Vertex => {
                let v = collect_parsed(values);
                if v.len() == 3 {
                    self.positions.push(Coord3 { x: v[0], y: v[1], z: v[2] });
                } else {
                    self.skip_line();
                }
            },
            Directive::VertexNormal => {
                let v = collect_parsed(values);
                if v.len() == 3 {
                    self.normals.push(Coord3 { x: v[0], y: v[1], z: v[2] });
                } else {
                    self.skip_line();
                }
            },
            Directive::Face => {
                let read = read_indices(&line.tokens);
                let refs = collect_parsed(&read);
                if refs.len() == 3 && refs[0] >= 1 && refs[1] >= 1 && refs[2] >= 1 {
                    let ghost before = self.faces@;
                    self.faces.push(refs[0] - 1);
                    self.faces.push(refs[1] - 1);
                    self.faces.push(refs[2] - 1);
                    assert(self.faces@ =~= before + seq![
                        (refs@[0] - 1) as u32,
                        (refs@[1] - 1) as u32,
                        (refs@[2] - 1) as u32,
                    ]);
                } else {
                    self.skip_line();
                }
            },
            Directive::Unknown => {},
        }
    }

    /// Reconciles what has been read into the uploaded arrays.
    pub fn finish(&self) -> (r: MeshBuffers)
        requires
            self.wf(),
        ensures
            r.model() == reconcile_spec(
                self.state().positions,
                self.state().normals,
                self.state().faces,
            ),
    {
        reconcile(&self.positions, &self.normals, &self.faces)
    }

    fn skip_line(&mut self)
        ensures
            final(self).positions@ == old(self).positions@,
            final(self).normals@ == old(self).normals@,
            final(self).faces@ == old(self).faces@,
            final(self).skipped_lines as nat == bump(old(self).skipped_lines as nat),
    {
        self.skipped_lines = self.skipped_lines.saturating_add(1);
    }

    pub fn skipped_lines(&self) -> (r: usize)
        ensures
            r as nat == self.state().skipped,
    {
        self.skipped_lines
    }
}

} // verus!
