use md5_model::error::{ParseError, ParseErrorKind};
use md5_model::md5::decimal::{Decimal, Quaternion, Vector2, Vector3};
use md5_model::md5::md5common_parser::{
    comments, escaped_string, parse_f32, parse_i32, parse_quaternionf32, parse_tuple3u32,
    parse_u32, parse_vector3f32, skip_whitespace, tag,
};
use md5_model::md5::md5mesh::{Triangle, Vertex, Weight};
use md5_model::md5::md5mesh_parser;
use md5_model::md5::md5mesh_parser::{
    parse_bias, parse_header, parse_triangles, parse_vertices, parse_weights,
};

fn number(d: &Decimal) -> f32 {
    let mut text = String::from_utf8(d.int_digits.clone()).unwrap();
    if !d.frac_digits.is_empty() {
        text.push('.');
        text.push_str(&String::from_utf8(d.frac_digits.clone()).unwrap());
    }
    let v: f32 = text.parse().unwrap();
    if d.negative {
        -v
    } else {
        v
    }
}

fn vec2(v: &Vector2) -> (f32, f32) {
    (number(&v.x), number(&v.y))
}

fn vec3(v: &Vector3) -> (f32, f32, f32) {
    (number(&v.x), number(&v.y), number(&v.z))
}

/// What is left of one after the squares of the three stored components
/// are taken away, never below zero, and the components themselves.
fn quat(q: &Quaternion) -> (f32, f32, f32, f32) {
    let (x, y, z) = (number(&q.x), number(&q.y), number(&q.z));
    let mut scal: f32 = 1.0 - x * x - y * y - z * z;
    if scal < 0.0 {
        scal = 0.0
    };
    (scal, x, y, z)
}

fn check_vertex(v: &Vertex, index: u32, tex: (f32, f32), start_weight: u32, weight_count: u32) {
    assert_eq!(v.index, index);
    assert_eq!(vec2(&v.tex_coords), tex);
    assert_eq!(v.start_weight, start_weight);
    assert_eq!(v.weight_count, weight_count);
}

fn check_weight(w: &Weight, index: u32, joint_index: u32, bias: f32, position: (f32, f32, f32)) {
    assert_eq!(w.index, index);
    assert_eq!(w.joint_index, joint_index);
    assert_eq!(number(&w.bias), bias);
    assert_eq!(vec3(&w.position), position);
}

fn fails<T: std::fmt::Debug>(r: Result<T, ParseError>, kind: ParseErrorKind, offset: usize) {
    assert_eq!(r.unwrap_err(), ParseError { kind, offset });
}

#[test]
fn md5mesh_parser_parse_header() {
    let string = b"MD5Version 10
            commandline \"Exported from Blender by io_export_md5.py by Paul Zirkle\"";

    let header = (10, String::from("Exported from Blender by io_export_md5.py by Paul Zirkle"));
    assert_eq!(parse_header(string, 0), Ok((header, string.len())));
}

#[test]
fn parse_joints() {
    let string = b"joints {
            	\"origin\"	-1 ( -0.000000 0.001643 -0.000604 ) ( -0.707107 -0.000242 -0.707107 )		// comment
            	\"sheath\"	0 ( 1.100481 -0.317714 3.170247 ) ( 0.307041 -0.578615 0.354181 )		// comment
              }";

    let (joints, end) = md5mesh_parser::parse_joints(string, 0).unwrap();
    assert_eq!(end, string.len());
    assert_eq!(joints.len(), 2);

    assert_eq!(joints[0].name, String::from("origin"));
    assert_eq!(joints[0].parent_index, -1);
    assert_eq!(vec3(&joints[0].position), (-0.000000, 0.001643, -0.000604));
    assert_eq!(quat(&joints[0].orientation), (0.0, -0.707107, -0.000242, -0.707107));

    assert_eq!(joints[1].name, String::from("sheath"));
    assert_eq!(joints[1].parent_index, 0);
    assert_eq!(vec3(&joints[1].position), (1.100481, -0.317714, 3.170247));
    assert_eq!(quat(&joints[1].orientation), (0.4454863, 0.307041, -0.578615, 0.354181));
}

#[test]
fn parse_vertex() {
    let string = b"vert 0 ( 0.683594 0.455078 ) 0 3";

    let (vertex, end) = md5mesh_parser::parse_vertex(string, 0).unwrap();
    assert_eq!(end, string.len());
    check_vertex(&vertex, 0, (0.683594, 0.455078), 0, 3);
}

#[test]
fn parse_mesh() {
    let string = b"mesh {
                shader \"bob_body\"

                numverts 1
                vert 0 ( 0.683594 0.455078 ) 0 3

                numtris 628
            	tri 0 0 2 1

                numweights 859
                weight 0 16 0.333333 ( -0.194917 0.111128 -0.362937 )
            }";

    let (mesh, end) = md5mesh_parser::parse_mesh(string, 0).unwrap();
    assert_eq!(end, string.len());
    assert_eq!(mesh.shader, String::from("bob_body"));
    assert_eq!(mesh.vertices.len(), 1);
    check_vertex(&mesh.vertices[0], 0, (0.683594, 0.455078), 0, 3);
    assert_eq!(mesh.triangles, vec![Triangle { index: 0, vertex_indices: (0, 2, 1) }]);
    assert_eq!(mesh.weights.len(), 1);
    check_weight(&mesh.weights[0], 0, 16, 0.333333, (-0.194917, 0.111128, -0.362937));
}

#[test]
fn parse_md5mesh() {
    let string = b"MD5Version 10
            commandline \"Exported from Blender by io_export_md5.py by Paul Zirkle\"

            numJoints 33
            numMeshes 6

            joints {
            	\"origin\"	-1 ( -0.000000 0.001643 -0.000604 ) ( -0.707107 -0.000242 -0.707107 )		//comment
            }

            mesh {
                shader \"bob_body\"

                numverts 1
                vert 0 ( 0.683594 0.455078 ) 0 3

                numtris 1
                tri 0 0 2 1

                numweights 1
                weight 0 16 0.333333 ( -0.194917 0.111128 -0.362937 )
            }

            ";

    let (md5mesh, end) = md5mesh_parser::parse_md5mesh(string, 0).unwrap();
    assert_eq!(end, string.len());
    assert_eq!(md5mesh.version, 10);
    assert_eq!(
        md5mesh.command_line,
        String::from("Exported from Blender by io_export_md5.py by Paul Zirkle")
    );
    assert_eq!(md5mesh.joints.len(), 1);
    assert_eq!(md5mesh.joints[0].name, String::from("origin"));
    assert_eq!(md5mesh.joints[0].parent_index, -1);
    assert_eq!(vec3(&md5mesh.joints[0].position), (-0.000000, 0.001643, -0.000604));
    assert_eq!(quat(&md5mesh.joints[0].orientation), (0.0, -0.707107, -0.000242, -0.707107));
    assert_eq!(md5mesh.meshes.len(), 1);
    let mesh = &md5mesh.meshes[0];
    assert_eq!(mesh.shader, String::from("bob_body"));
    assert_eq!(mesh.vertices.len(), 1);
    check_vertex(&mesh.vertices[0], 0, (0.683594, 0.455078), 0, 3);
    assert_eq!(mesh.triangles, vec![Triangle { index: 0, vertex_indices: (0, 2, 1) }]);
    assert_eq!(mesh.weights.len(), 1);
    check_weight(&mesh.weights[0], 0, 16, 0.333333, (-0.194917, 0.111128, -0.362937));
}

#[test]
fn blocks_come_out_sorted_by_index() {
    let string = b"numverts 3
        vert 2 ( 0.5 0.25 ) 4 1
        vert 0 ( 0.1 0.2 ) 0 3
        vert 1 ( 0.3 0.4 ) 3 1
        numtris";
    let (vertices, end) = parse_vertices(string, 0).unwrap();
    assert_eq!(&string[end..], b"numtris");
    let indices: Vec<u32> = vertices.iter().map(|v| v.index).collect();
    assert_eq!(indices, vec![0, 1, 2]);
    check_vertex(&vertices[2], 2, (0.5, 0.25), 4, 1);

    let string = b"numtris 2 tri 1 3 4 5 tri 0 0 1 2";
    let (triangles, _) = parse_triangles(string, 0).unwrap();
    assert_eq!(
        triangles,
        vec![
            Triangle { index: 0, vertex_indices: (0, 1, 2) },
            Triangle { index: 1, vertex_indices: (3, 4, 5) }
        ]
    );

    let string = b"numweights 2 weight 1 0 0.5 ( 1 2 3 ) weight 0 1 0.5 ( 4 5 6 )";
    let (weights, _) = parse_weights(string, 0).unwrap();
    check_weight(&weights[0], 0, 1, 0.5, (4.0, 5.0, 6.0));
    check_weight(&weights[1], 1, 0, 0.5, (1.0, 2.0, 3.0));
}

#[test]
fn records_with_one_index_keep_their_order() {
    let string = b"numtris 3 tri 1 9 9 9 tri 0 1 1 1 tri 0 2 2 2";
    let (triangles, _) = parse_triangles(string, 0).unwrap();
    assert_eq!(
        triangles,
        vec![
            Triangle { index: 0, vertex_indices: (1, 1, 1) },
            Triangle { index: 0, vertex_indices: (2, 2, 2) },
            Triangle { index: 1, vertex_indices: (9, 9, 9) }
        ]
    );
}

#[test]
fn integers() {
    assert_eq!(parse_u32(b"  42 rest", 0), Ok((42, 5)));
    assert_eq!(parse_u32(b"4294967295", 0), Ok((4294967295, 10)));
    fails(parse_u32(b"4294967296", 0), ParseErrorKind::InvalidInteger, 0);
    fails(parse_u32(b" x", 0), ParseErrorKind::InvalidInteger, 1);
    fails(parse_u32(b"  ", 0), ParseErrorKind::UnexpectedEof, 2);
    assert_eq!(parse_i32(b"-1 63", 0), Ok((-1, 3)));
    assert_eq!(parse_i32(b"- 17", 0), Ok((-17, 4)));
    assert_eq!(parse_i32(b"0007", 0), Ok((7, 4)));
    assert_eq!(parse_i32(b"2147483647", 0), Ok((2147483647, 10)));
    assert_eq!(parse_i32(b"-2147483647", 0), Ok((-2147483647, 11)));
    fails(parse_i32(b" 2147483648", 0), ParseErrorKind::InvalidInteger, 1);
    fails(parse_i32(b"-x", 0), ParseErrorKind::InvalidInteger, 1);
    fails(parse_i32(b"-", 0), ParseErrorKind::UnexpectedEof, 1);
    assert_eq!(parse_tuple3u32(b"0 2 1", 0), Ok(((0, 2, 1), 5)));
}

#[test]
fn decimals() {
    let (d, end) = parse_f32(b" -0.022398 ", 0).unwrap();
    assert_eq!(end, 11);
    assert_eq!(
        d,
        Decimal { negative: true, int_digits: b"0".to_vec(), frac_digits: b"022398".to_vec() }
    );
    assert_eq!(number(&d), -0.022398);
    let (d, end) = parse_f32(b"12.", 0).unwrap();
    assert_eq!(end, 2);
    assert_eq!(d, Decimal { negative: false, int_digits: b"12".to_vec(), frac_digits: vec![] });
    assert_eq!(number(&parse_f32(b"000000.001643", 0).unwrap().0), 0.001643);
    fails(parse_f32(b" .5", 0), ParseErrorKind::InvalidFloat, 1);
    fails(parse_f32(b"", 0), ParseErrorKind::UnexpectedEof, 0);
    let (v, end) = parse_vector3f32(b"1 2.5 -3", 0).unwrap();
    assert_eq!((vec3(&v), end), ((1.0, 2.5, -3.0), 8));
}

#[test]
fn strings_comments_and_tags() {
    assert_eq!(escaped_string(b" \"bob_body\" x", 0), Ok((String::from("bob_body"), 12)));
    assert_eq!(escaped_string(b"\"\"", 0), Ok((String::new(), 2)));
    assert_eq!(escaped_string("\"caf\u{e9}\"".as_bytes(), 0), Ok((String::from("caf\u{e9}"), 7)));
    fails(escaped_string(b" \"open", 0), ParseErrorKind::UnterminatedString, 1);
    fails(escaped_string(b"open\"", 0), ParseErrorKind::TagMismatch, 0);
    fails(escaped_string(b"\"\xff\"", 0), ParseErrorKind::InvalidUtf8, 1);
    fails(escaped_string(b"", 0), ParseErrorKind::UnexpectedEof, 0);
    assert_eq!(comments(b"// origin\n  \"x\"", 0), 12);
    assert_eq!(comments(b"// to the end", 0), 13);
    assert_eq!(comments(b"/ no comment", 0), 0);
    assert_eq!(skip_whitespace(b" \t\r\n x", 0), 5);
    assert_eq!(tag(b"  numtris 5", 0, "numtris"), Ok(((), 10)));
    fails(tag(b" numverts", 0, "numtris"), ParseErrorKind::TagMismatch, 1);
    fails(tag(b"  ", 0, "numtris"), ParseErrorKind::UnexpectedEof, 2);
}

#[test]
fn bias_must_lie_between_minus_one_and_one() {
    assert_eq!(number(&parse_bias(b"1.000", 0).unwrap().0), 1.0);
    assert_eq!(number(&parse_bias(b"-1", 0).unwrap().0), -1.0);
    assert_eq!(number(&parse_bias(b"0.999999", 0).unwrap().0), 0.999999);
    assert_eq!(number(&parse_bias(b"00.5", 0).unwrap().0), 0.5);
    fails(parse_bias(b" 1.000001", 0), ParseErrorKind::InvalidBias, 1);
    fails(parse_bias(b"-2", 0), ParseErrorKind::InvalidBias, 0);
    fails(parse_bias(b"10", 0), ParseErrorKind::InvalidBias, 0);
    fails(parse_bias(b"11.0", 0), ParseErrorKind::InvalidBias, 0);
    let string = b"numweights 1 weight 0 0 1.5 ( 0 0 0 )";
    fails(parse_weights(string, 0), ParseErrorKind::InvalidBias, 24);
}

#[test]
fn a_missing_tag_fails_the_mesh() {
    let string = b"mesh { shader \"s\" numverts 0 numweights 0 }";
    fails(md5mesh_parser::parse_mesh(string, 0), ParseErrorKind::TagMismatch, 29);
    let string = b"mesh { shader \"s\" numverts 0 numtris 0 numweights 0 ";
    fails(md5mesh_parser::parse_mesh(string, 0), ParseErrorKind::UnexpectedEof, string.len());
    let string = b"MD5Version 256 commandline \"\"";
    fails(parse_header(string, 0), ParseErrorKind::InvalidInteger, 11);
    let string = b"numverts 1 vert 0 ( 0.5 ) 0 1";
    fails(parse_vertices(string, 0), ParseErrorKind::InvalidFloat, 24);
}

#[test]
fn quaternion_keeps_the_three_stored_components() {
    let (q, end) = parse_quaternionf32(b"(-0.022398 0.133633 0.852234)", 0).unwrap();
    assert_eq!(end, 29);
    assert_eq!(quat(&q), (0.25533772, -0.022398, 0.133633, 0.852234));
}

#[test]
fn counts_are_not_held_against_the_lists() {
    let string = b"MD5Version 10 commandline \"\" numJoints 5 numMeshes 2 joints { }";
    let (doc, end) = md5mesh_parser::parse_md5mesh(string, 0).unwrap();
    assert_eq!(end, string.len());
    assert!(doc.joints.is_empty() && doc.meshes.is_empty());
    assert_eq!(md5mesh_parser::parse_vertex(b"vert 7 0.5 0.25 1 2 vert", 0).unwrap().1, 20);
}
