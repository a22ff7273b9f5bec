use simple_mesh::directive::{tokenize_line, Directive};
use simple_mesh::layout::{Mesh, Vertex, VertexFormat, VertexStepMode};
use simple_mesh::mesh::{reconcile, Coord3, MeshBuffers, MeshBuilder, ModelVertex, ONE_BITS};
use simple_mesh::text::{chars_of, parse_decimal_u32, split_on, trim};

fn read_value(token: &[char]) -> Option<u32> {
    let text: String = token.iter().collect();
    text.parse::<f32>().ok().map(f32::to_bits)
}

fn builder_for(text: &str) -> MeshBuilder {
    let mut builder = MeshBuilder::new();
    for line in text.split_inclusive('\n') {
        let tokens = tokenize_line(line);
        let values: Vec<Option<u32>> = tokens.tokens.iter().map(|t| read_value(t)).collect();
        builder.add_line(&tokens, &values);
    }
    builder
}

fn load(text: &str) -> MeshBuffers {
    builder_for(text).finish()
}

fn coord(x: f32, y: f32, z: f32) -> Coord3 {
    Coord3 { x: x.to_bits(), y: y.to_bits(), z: z.to_bits() }
}

fn up() -> Coord3 {
    coord(0.0, 1.0, 0.0)
}

#[test]
fn triangle_file_yields_default_normals_and_indices() {
    let mesh = load("v 0.0 0.0 0.0\nv 1.0 0.0 0.0\nv 0.0 1.0 0.0\nf 1 2 3\n");
    assert_eq!(
        mesh.vertices,
        vec![
            ModelVertex::new(coord(0.0, 0.0, 0.0), up()),
            ModelVertex::new(coord(1.0, 0.0, 0.0), up()),
            ModelVertex::new(coord(0.0, 1.0, 0.0), up()),
        ]
    );
    assert_eq!(mesh.indices, vec![0, 1, 2]);
    assert_eq!(mesh.index_count(), 3);
    assert_eq!(mesh.unpaired_vertices, 0);
    assert_eq!(mesh.dropped_faces, 0);
}

#[test]
fn face_one_two_three_is_zero_based() {
    let mesh = load("v 1 1 1\nv 2 2 2\nv 3 3 3\nv 4 4 4\nf 1 2 3\n");
    assert_eq!(mesh.indices, vec![0, 1, 2]);
}

#[test]
fn face_with_non_numeric_token_is_dropped() {
    let builder = builder_for("v 0 0 0\nv 1 0 0\nv 0 1 0\nf 1 2 x\n");
    assert_eq!(builder.skipped_lines(), 1);
    let mesh = builder.finish();
    assert!(mesh.indices.is_empty());
    assert_eq!(mesh.vertices.len(), 3);
}

#[test]
fn vertex_with_two_values_is_dropped() {
    let builder = builder_for("v 1.0 2.0\nv 1.0 2.0 3.0\n");
    assert_eq!(builder.skipped_lines(), 1);
    let mesh = builder.finish();
    assert_eq!(mesh.vertices, vec![ModelVertex::new(coord(1.0, 2.0, 3.0), up())]);
}

#[test]
fn vertex_with_four_values_is_dropped() {
    let mesh = load("v 1 2 3 4\n");
    assert!(mesh.vertices.is_empty());
}

#[test]
fn positions_only_file_has_one_vertex_per_line() {
    let mesh = load("v 1 2 3\nv -4 5.5 6e1\nv 0.25 0.5 0.75");
    assert_eq!(
        mesh.vertices,
        vec![
            ModelVertex::new(coord(1.0, 2.0, 3.0), up()),
            ModelVertex::new(coord(-4.0, 5.5, 60.0), up()),
            ModelVertex::new(coord(0.25, 0.5, 0.75), up()),
        ]
    );
    assert!(mesh.indices.is_empty());
}

#[test]
fn equal_counts_pair_by_order() {
    let mesh = load(
        "v 0 0 0\nv 1 0 0\nv 0 1 0\nv 0 0 1\nvn 1 0 0\nvn 0 1 0\nvn 0 0 1\nvn -1 0 0\n",
    );
    assert_eq!(
        mesh.vertices,
        vec![
            ModelVertex::new(coord(0.0, 0.0, 0.0), coord(1.0, 0.0, 0.0)),
            ModelVertex::new(coord(1.0, 0.0, 0.0), coord(0.0, 1.0, 0.0)),
            ModelVertex::new(coord(0.0, 1.0, 0.0), coord(0.0, 0.0, 1.0)),
            ModelVertex::new(coord(0.0, 0.0, 1.0), coord(-1.0, 0.0, 0.0)),
        ]
    );
    assert_eq!(mesh.unpaired_vertices, 0);
}

#[test]
fn more_positions_than_normals_truncates() {
    let mesh = load("v 0 0 0\nv 1 0 0\nv 2 0 0\nv 3 0 0\nv 4 0 0\nvn 0 0 1\nvn 0 1 0\nvn 1 0 0\n");
    assert_eq!(mesh.vertices.len(), 3);
    assert_eq!(mesh.vertices[2], ModelVertex::new(coord(2.0, 0.0, 0.0), coord(1.0, 0.0, 0.0)));
    assert_eq!(mesh.unpaired_vertices, 2);
}

#[test]
fn more_normals_than_positions_truncates() {
    let mesh = load("v 0 0 0\nvn 0 0 1\nvn 0 1 0\n");
    assert_eq!(mesh.vertices, vec![ModelVertex::new(coord(0.0, 0.0, 0.0), coord(0.0, 0.0, 1.0))]);
    assert_eq!(mesh.unpaired_vertices, 0);
}

#[test]
fn face_beyond_emitted_vertices_is_left_out() {
    let mesh = load("v 0 0 0\nv 1 0 0\nv 0 1 0\nf 1 2 3\nf 2 3 4\nf 3 2 1\n");
    assert_eq!(mesh.indices, vec![0, 1, 2, 2, 1, 0]);
    assert_eq!(mesh.dropped_faces, 1);
    assert_eq!(mesh.indices.len() % 3, 0);
    assert!(mesh.indices.iter().all(|&i| (i as usize) < mesh.vertices.len()));
}

#[test]
fn face_referencing_truncated_vertex_is_left_out() {
    let mesh = load("v 0 0 0\nv 1 0 0\nv 0 1 0\nvn 0 0 1\nvn 0 0 1\nf 1 2 3\nf 2 1 2\n");
    assert_eq!(mesh.vertices.len(), 2);
    assert_eq!(mesh.indices, vec![1, 0, 1]);
    assert_eq!(mesh.dropped_faces, 1);
}

#[test]
fn face_with_zero_reference_is_dropped() {
    let builder = builder_for("v 0 0 0\nv 1 0 0\nv 0 1 0\nf 0 1 2\n");
    assert_eq!(builder.skipped_lines(), 1);
    assert!(builder.finish().indices.is_empty());
}

#[test]
fn face_with_four_references_is_dropped() {
    let mesh = load("v 0 0 0\nv 1 0 0\nv 0 1 0\nv 1 1 0\nf 1 2 3 4\n");
    assert!(mesh.indices.is_empty());
}

#[test]
fn face_with_slashed_references_is_dropped() {
    let mesh = load("v 0 0 0\nv 1 0 0\nv 0 1 0\nf 1/1 2/2 3/3\n");
    assert!(mesh.indices.is_empty());
}

#[test]
fn crlf_and_unknown_lines() {
    let builder = builder_for("# comment\r\nv 1 2 3\r\nvt 0.5 0.5\r\n\r\nf 1 1 1\r\no name\r\n");
    assert_eq!(builder.skipped_lines(), 0);
    let mesh = builder.finish();
    assert_eq!(mesh.vertices, vec![ModelVertex::new(coord(1.0, 2.0, 3.0), up())]);
    assert_eq!(mesh.indices, vec![0, 0, 0]);
}

#[test]
fn empty_file_yields_nothing() {
    let mesh = load("");
    assert!(mesh.vertices.is_empty());
    assert!(mesh.indices.is_empty());
    assert_eq!(mesh.index_count(), 0);
}

#[test]
fn tokenize_tells_normal_from_position() {
    let n = tokenize_line("vn 1 2 3\n");
    assert_eq!(n.directive, Directive::VertexNormal);
    let v = tokenize_line("v 1 2 3\n");
    assert_eq!(v.directive, Directive::Vertex);
    let tokens: Vec<String> = v.tokens.iter().map(|t| t.iter().collect()).collect();
    assert_eq!(tokens, vec!["1", "2", "3"]);
    assert_eq!(tokenize_line("vt 1 2\n").directive, Directive::Unknown);
    assert_eq!(tokenize_line("v\n").directive, Directive::Unknown);
    assert_eq!(tokenize_line("v").directive, Directive::Unknown);
    assert_eq!(tokenize_line("").directive, Directive::Unknown);
    assert!(tokenize_line("# x").tokens.is_empty());
}

#[test]
fn tokenize_face_skips_one_separator() {
    let f = tokenize_line("f 4 5 6\n");
    assert_eq!(f.directive, Directive::Face);
    let tokens: Vec<String> = f.tokens.iter().map(|t| t.iter().collect()).collect();
    assert_eq!(tokens, vec!["4", "5", "6"]);
    let g = tokenize_line("f  1  2 3");
    let tokens: Vec<String> = g.tokens.iter().map(|t| t.iter().collect()).collect();
    assert_eq!(tokens, vec!["1", "", "2", "3"]);
    let h = tokenize_line("f");
    assert_eq!(h.directive, Directive::Face);
    assert_eq!(h.tokens.len(), 1);
    assert!(h.tokens[0].is_empty());
}

#[test]
fn trim_and_split() {
    let s: Vec<char> = " \t a b\u{3000}\r\n".chars().collect();
    let t = trim(&s);
    assert_eq!(t.iter().collect::<String>(), "a b");
    let parts = split_on(&t, ' ');
    assert_eq!(parts.len(), 2);
    let e: Vec<char> = Vec::new();
    assert!(trim(&e).is_empty());
    assert_eq!(split_on(&e, ' ').len(), 1);
    let w: Vec<char> = "  \n".chars().collect();
    assert!(trim(&w).is_empty());
}

#[test]
fn decimal_reading() {
    let read = |s: &str| parse_decimal_u32(&chars_of(s));
    assert_eq!(read("42"), Some(42));
    assert_eq!(read("+7"), Some(7));
    assert_eq!(read("007"), Some(7));
    assert_eq!(read("4294967295"), Some(u32::MAX));
    assert_eq!(read("4294967296"), None);
    assert_eq!(read("00000000000000004294967295"), Some(u32::MAX));
    assert_eq!(read(""), None);
    assert_eq!(read("+"), None);
    assert_eq!(read("-1"), None);
    assert_eq!(read("1x"), None);
    assert_eq!(read("1.0"), None);
    for s in ["0", "1", "12345", "+0", "99999999999", " 1", "x"] {
        assert_eq!(read(s), s.parse::<u32>().ok());
    }
}

#[test]
fn chars_of_keeps_every_char() {
    assert_eq!(chars_of("añ\u{1F600}"), vec!['a', 'ñ', '\u{1F600}']);
}

#[test]
fn model_vertex_layout() {
    let layout = ModelVertex::describe();
    assert_eq!(layout.array_stride, 24);
    assert_eq!(layout.array_stride as usize, std::mem::size_of::<[f32; 6]>());
    assert_eq!(layout.step_mode, VertexStepMode::Vertex);
    assert_eq!(layout.attributes.len(), 2);
    assert_eq!(layout.attributes[0].offset, 0);
    assert_eq!(layout.attributes[0].shader_location, 0);
    assert_eq!(layout.attributes[0].format, VertexFormat::Float32x3);
    assert_eq!(layout.attributes[1].offset, 12);
    assert_eq!(layout.attributes[1].shader_location, 1);
    assert_eq!(layout.attributes[1].format, VertexFormat::Float32x3);
    let mesh_layout = <MeshBuffers as Mesh>::describe();
    assert_eq!(mesh_layout.array_stride, 24);
    assert_eq!(mesh_layout.attributes, layout.attributes);
}

#[test]
fn index_bytes_are_native_words() {
    let mesh = reconcile(&vec![coord(0.0, 0.0, 0.0); 3], &Vec::new(), &vec![0, 1, 2]);
    let bytes = mesh.index_bytes();
    let mut expected: Vec<u8> = Vec::new();
    for i in [0u32, 1, 2] {
        expected.extend_from_slice(&i.to_ne_bytes());
    }
    assert_eq!(bytes, expected);
    assert_ne!(bytes[4..8], [0, 0, 0, 0]);
}

#[test]
fn vertex_bytes_follow_the_layout() {
    let mesh = load("v 1.5 -2 3\nv 4 5 6\nvn 0 0 1\nvn 0 1 0\n");
    let bytes = mesh.vertex_bytes();
    assert_eq!(bytes.len(), 2 * 24);
    let value = |k: usize| f32::from_ne_bytes([bytes[k], bytes[k + 1], bytes[k + 2], bytes[k + 3]]);
    assert_eq!(value(0), 1.5);
    assert_eq!(value(4), -2.0);
    assert_eq!(value(8), 3.0);
    assert_eq!(value(12), 0.0);
    assert_eq!(value(20), 1.0);
    assert_eq!(value(24 + 12 + 4), 1.0);
    assert_eq!(value(24), 4.0);
}

#[test]
fn up_normal_bits() {
    assert_eq!(f32::from_bits(ONE_BITS), 1.0);
    let mesh = load("v 0 0 0\n");
    assert_eq!(mesh.vertices[0].normal, up());
}
