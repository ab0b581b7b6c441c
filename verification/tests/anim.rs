use md5_model::error::{ParseError, ParseErrorKind};
use md5_model::md5::decimal::{Decimal, Quaternion, Vector3};
use md5_model::md5::md5anim::{Bound, Frame, Joint, Md5Anim};
use md5_model::md5::md5anim_parser::scan_tag;

fn number(d: &Decimal) -> f32 {
    let mut text = String::from_utf8(d.int_digits.clone()).unwrap();
    if !d.frac_digits.is_empty() {
        text.push('.');
        text.push_str(&String::from_utf8(d.frac_digits.clone()).unwrap());
    }
    let v: f32 = text.parse().unwrap();
    if d.negative {
        -v
    } else {
        v
    }
}

fn vec3(v: &Vector3) -> (f32, f32, f32) {
    (number(&v.x), number(&v.y), number(&v.z))
}

/// What is left of one after the squares of the three stored components
/// are taken away, never below zero, and the components themselves.
fn quat(q: &Quaternion) -> (f32, f32, f32, f32) {
    let (x, y, z) = (number(&q.x), number(&q.y), number(&q.z));
    let mut scal: f32 = 1.0 - x * x - y * y - z * z;
    if scal < 0.0 {
        scal = 0.0
    };
    (scal, x, y, z)
}

fn bound(b: &Bound) -> ((f32, f32, f32), (f32, f32, f32)) {
    (vec3(&b.bound_min), vec3(&b.bound_max))
}

fn frame(f: &Frame) -> (u32, Vec<f32>) {
    (f.frame_number, f.frame_data.iter().map(number).collect())
}

fn joint(name: &str, index: i32, flag: i32, start_index: i32) -> Joint {
    Joint { name: String::from(name), index, flag, start_index }
}

fn frame_values() -> Vec<f32> {
    vec![
        0.001643, -0.000604, -0.707107, -0.000242, -0.707107, 3.12289, 0.625194, 0.923663,
        0.022398, -0.133633, -0.852234, 0.000386, -1.102681, 0.01009, -0.001203, 0.000819,
        -0.001678, 2.600285, -0.20302, 0.001408, 0.75074,
    ]
}

fn check_bounds(bounds: &Vec<Bound>) {
    assert_eq!(bounds.len(), 3);
    assert_eq!(
        bound(&bounds[0]),
        ((-1.634066, -1.634066, -1.634066), (-1.634066, 6.444685, 5.410537))
    );
    assert_eq!(
        bound(&bounds[1]),
        ((-1.634381, -1.634381, -1.634381), (-1.634381, 6.444589, 5.410597))
    );
    assert_eq!(bound(&bounds[2]), ((-1.63419, -1.63419, -1.63419), (-1.63419, 6.444603, 5.410734)));
}

fn check_baseframe(position: &Vec<Vector3>, orientation: &Vec<Quaternion>) {
    assert_eq!(position.len(), 2);
    assert_eq!(orientation.len(), 2);
    assert_eq!(vec3(&position[0]), (3.12289, 0.625194, 0.923663));
    assert_eq!(vec3(&position[1]), (0.000386, -1.102681, 0.01009));
    assert_eq!(quat(&orientation[0]), (0.25533772, -0.022398, 0.133633, 0.852234));
    assert_eq!(quat(&orientation[1]), (0.9999951, 0.001203, -0.000819, 0.001678));
}

fn fails<T: std::fmt::Debug>(r: Result<T, ParseError>, kind: ParseErrorKind, offset: usize) {
    assert_eq!(r.unwrap_err(), ParseError { kind, offset });
}

#[test]
fn md5anim_parser_parse_header() {
    let string = b"MD5Version 10
        commandline \"Exported from Blender by io_export_md5.py by Paul Zirkle\"

        numFrames 141
        numJoints 33
        frameRate 24
        numAnimatedComponents 198";
    let header = (
        10,
        String::from("Exported from Blender by io_export_md5.py by Paul Zirkle"),
        141,
        33,
        24,
        198,
    );
    assert_eq!(
        md5_model::md5::md5anim_parser::parse_header(string, 0),
        Ok((header, string.len()))
    );
}

#[test]
fn parse_joint() {
    let string = b"\"origin\"	-1 63 0	//\n";
    let header = Joint { name: String::from("origin"), index: -1, flag: 63, start_index: 0 };
    assert_eq!(
        md5_model::md5::md5anim_parser::parse_joint(string, 0),
        Ok((header, string.len()))
    );
}

#[test]
fn parse_hierarchy() {
    let string = b"hierarchy {
        \"origin\"	-1 63 0	//
        \"sheath\"	0 63 6	// origin
        \"sword\"	1 63 12	// sheath
        }";
    let mut res = Vec::new();
    res.push(Joint { name: String::from("origin"), index: -1, flag: 63, start_index: 0 });
    res.push(Joint { name: String::from("sheath"), index: 0, flag: 63, start_index: 6 });
    res.push(Joint { name: String::from("sword"), index: 1, flag: 63, start_index: 12 });
    assert_eq!(
        md5_model::md5::md5anim_parser::parse_hierarchy(string, 0),
        Ok((res, string.len()))
    );
}

#[test]
fn parse_bound() {
    let string = b"	( -1.634066 -1.634066 -1.634066 ) ( -1.634066 6.444685 5.410537 )";
    let (b, end) = md5_model::md5::md5anim_parser::parse_bound(string, 0).unwrap();
    assert_eq!(end, string.len());
    assert_eq!(bound(&b), ((-1.634066, -1.634066, -1.634066), (-1.634066, 6.444685, 5.410537)));
}

#[test]
fn parse_bounds() {
    let string = b"bounds {
        ( -1.634066 -1.634066 -1.634066 ) ( -1.634066 6.444685 5.410537 )
        ( -1.634381 -1.634381 -1.634381 ) ( -1.634381 6.444589 5.410597 )
        ( -1.634190 -1.634190 -1.634190 ) ( -1.634190 6.444603 5.410734 )
        }";
    let (bounds, end) = md5_model::md5::md5anim_parser::parse_bounds(string, 0).unwrap();
    assert_eq!(end, string.len());
    check_bounds(&bounds);
}

#[test]
fn pos_and_orientation() {
    let string = b"
	    ( 3.122890 0.625194 0.923663 ) ( -0.022398 0.133633 0.852234 )";

    let ((p, o), end) = md5_model::md5::md5anim_parser::pos_and_orientation(string, 0).unwrap();
    assert_eq!(end, string.len());
    assert_eq!(vec3(&p), (3.12289, 0.625194, 0.923663));
    assert_eq!(quat(&o), (0.25533772, -0.022398, 0.133633, 0.852234));
}

#[test]
fn parse_baseframe() {
    let string = b"baseframe {
        ( 3.122890 0.625194 0.923663 ) ( -0.022398 0.133633 0.852234 )
        ( 0.000386 -1.102681 0.010090 ) ( 0.001203 -0.000819 0.001678 )
        }";
    let (r, end) = md5_model::md5::md5anim_parser::parse_baseframe(string, 0).unwrap();
    assert_eq!(end, string.len());
    check_baseframe(&r.position, &r.orientation);
}

#[test]
fn parse_frame() {
    let string = b"frame 0 {
        000000.001643 -0.000604 -0.707107 -0.000242 -0.707107
        3.122890 0.625194 0.923663 0.022398 -0.133633 -0.852234
        0.000386 -1.102681 0.010090 -0.001203 0.000819 -0.001678
        2.600285 -0.203020 0.001408 0.750740 
        }";
    let (f, end) = md5_model::md5::md5anim_parser::parse_frame(string, 0).unwrap();
    assert_eq!(end, string.len());
    assert_eq!(frame(&f), (0, frame_values()));
}

#[test]
fn parse_frames() {
    let string = b"frame 0 {
        000000.001643 -0.000604 -0.707107 -0.000242 -0.707107
        3.122890 0.625194 0.923663 0.022398 -0.133633 -0.852234
        0.000386 -1.102681 0.010090 -0.001203 0.000819 -0.001678
        2.600285 -0.203020 0.001408 0.750740
        }
        
        frame 1 {
        000000.001643 -0.000604 -0.707107 -0.000242 -0.707107
        3.122890 0.625194 0.923663 0.022398 -0.133633 -0.852234
        0.000386 -1.102681 0.010090 -0.001203 0.000819 -0.001678
        2.600285 -0.203020 0.001408 0.750740
        }
        
        frame 2 {
        000000.001643 -0.000604 -0.707107 -0.000242 -0.707107
        3.122890 0.625194 0.923663 0.022398 -0.133633 -0.852234
        0.000386 -1.102681 0.010090 -0.001203 0.000819 -0.001678
        2.600285 -0.203020 0.001408 0.750740
        }";
    let (r, end) = md5_model::md5::md5anim_parser::parse_frames(string, 0).unwrap();
    assert_eq!(end, string.len());
    let frames: Vec<(u32, Vec<f32>)> = r.iter().map(frame).collect();
    assert_eq!(frames, vec![(0, frame_values()), (1, frame_values()), (2, frame_values())]);
}

#[test]
fn parse_anim() {
    let string = b"MD5Version 10
        commandline \"Exported from Blender by io_export_md5.py by Paul Zirkle\"

        numFrames 141
        numJoints 33
        frameRate 24
        numAnimatedComponents 198
        
        hierarchy {
        \"origin\"	-1 63 0	//
        \"sheath\"	0 63 6	// origin
        \"sword\"	1 63 12	// sheath
        }

        bounds {
        ( -1.634066 -1.634066 -1.634066 ) ( -1.634066 6.444685 5.410537 )
        ( -1.634381 -1.634381 -1.634381 ) ( -1.634381 6.444589 5.410597 )
        ( -1.634190 -1.634190 -1.634190 ) ( -1.634190 6.444603 5.410734 )
        }

        baseframe {
        ( 3.122890 0.625194 0.923663 ) ( -0.022398 0.133633 0.852234 )
        ( 0.000386 -1.102681 0.010090 ) ( 0.001203 -0.000819 0.001678 )
        }

        frame 0 {
        000000.001643 -0.000604 -0.707107 -0.000242 -0.707107
        3.122890 0.625194 0.923663 0.022398 -0.133633 -0.852234
        0.000386 -1.102681 0.010090 -0.001203 0.000819 -0.001678
        2.600285 -0.203020 0.001408 0.750740
        }
        
        frame 1 {
        000000.001643 -0.000604 -0.707107 -0.000242 -0.707107
        3.122890 0.625194 0.923663 0.022398 -0.133633 -0.852234
        0.000386 -1.102681 0.010090 -0.001203 0.000819 -0.001678
        2.600285 -0.203020 0.001408 0.750740
        }
        
        frame 2 {
        000000.001643 -0.000604 -0.707107 -0.000242 -0.707107
        3.122890 0.625194 0.923663 0.022398 -0.133633 -0.852234
        0.000386 -1.102681 0.010090 -0.001203 0.000819 -0.001678
        2.600285 -0.203020 0.001408 0.750740
        }
        ";

    let (res, end): (Md5Anim, usize) =
        md5_model::md5::md5anim_parser::parse_anim(string, 0).unwrap();
    assert_eq!(end, string.len());
    assert_eq!(res.version, 10);
    assert_eq!(
        res.command_line,
        String::from("Exported from Blender by io_export_md5.py by Paul Zirkle")
    );
    assert_eq!(res.num_frames, 141);
    assert_eq!(res.num_joints, 33);
    assert_eq!(res.frame_rate, 24);
    assert_eq!(res.num_animated_components, 198);
    assert_eq!(
        res.hierarchies,
        vec![joint("origin", -1, 63, 0), joint("sheath", 0, 63, 6), joint("sword", 1, 63, 12)]
    );
    check_bounds(&res.bounds);
    check_baseframe(&res.base_frame.position, &res.base_frame.orientation);
    let frames: Vec<(u32, Vec<f32>)> = res.frames.iter().map(frame).collect();
    assert_eq!(frames, vec![(0, frame_values()), (1, frame_values()), (2, frame_values())]);
}

#[test]
fn header_fields_are_found_by_scanning() {
    let string = b"// made by hand\nMD5Version 10 junk commandline \"\" x numFrames 1 numJoints 2 frameRate 3 numAnimatedComponents 4";
    let (header, end) = md5_model::md5::md5anim_parser::parse_header(string, 0).unwrap();
    assert_eq!(header, (10, String::new(), 1, 2, 3, 4));
    assert_eq!(end, string.len());
    assert_eq!(scan_tag(b"abc numFrames  7", 1, "numFrames"), Ok(((), 15)));
    fails(scan_tag(b"abc numFrame 7", 2, "numFrames"), ParseErrorKind::TagMismatch, 2);
    let string = b"MD5Version 10 commandline \"\" numFrames 1 numJoints 2 frameRate x";
    fails(
        md5_model::md5::md5anim_parser::parse_header(string, 0),
        ParseErrorKind::InvalidInteger,
        63,
    );
}

#[test]
fn blocks_need_one_record_and_a_closing_brace() {
    fails(
        md5_model::md5::md5anim_parser::parse_hierarchy(b"hierarchy { }", 0),
        ParseErrorKind::TagMismatch,
        12,
    );
    fails(
        md5_model::md5::md5anim_parser::parse_bounds(b"bounds { ( 1 2 3 ) ( 4 5 6 ) ", 0),
        ParseErrorKind::UnexpectedEof,
        29,
    );
    fails(
        md5_model::md5::md5anim_parser::parse_bounds(b"bounds { ( 1 2 3 ) ( 4 5 ) }", 0),
        ParseErrorKind::InvalidFloat,
        25,
    );
    fails(
        md5_model::md5::md5anim_parser::parse_frame(b"frame 0 { 1.5 x }", 0),
        ParseErrorKind::InvalidFloat,
        14,
    );
    let (f, end) = md5_model::md5::md5anim_parser::parse_frame(b"frame 4 { }", 0).unwrap();
    assert_eq!((frame(&f), end), ((4, vec![]), 11));
    fails(
        md5_model::md5::md5anim_parser::parse_frames(b"frames", 0),
        ParseErrorKind::InvalidInteger,
        5,
    );
}
