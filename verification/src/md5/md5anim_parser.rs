//! The grammar of the skeletal-animation document.
use crate::error::{ParseError, ParseErrorKind};
use crate::md5::decimal::{
    Decimal, DecimalView, Quaternion, QuaternionView, Vector3, Vector3View,
};
use crate::md5::md5anim::{
    BaseFrame, BaseFrameView, Bound, BoundView, Frame, FrameView, Joint, JointView, Md5Anim,
    Md5AnimView,
};
use crate::md5::md5common_parser::{
    agrees, comments, escaped_string, has_tag, many, many1, next_has_tag, next_is, next_is_not,
    parse_f32, parse_i32, parse_quaternionf32, parse_u32, parse_vector3f32, peek_is, peek_is_not,
    peek_tag, skip_spaces, skip_whitespace, spec_comment, spec_f32, spec_i32, spec_many,
    spec_many1, spec_quaternionf32, spec_string, spec_tag, spec_u32, spec_vector3f32, tag, tag_at,
    Parsed, Rule,
};
use vstd::prelude::*;
use vstd::string::StringSliceAdditionalSpecFns;

verus! {

/// The first position at or after `pos` at which `tag` stands.
pub open spec fn find_tag(s: Seq<u8>, pos: int, tag: Seq<u8>) -> Option<int>
    decreases s.len() - pos,
{
    if pos < 0 || pos >= s.len() {
        None
    } else if has_tag(s, pos, tag) {
        Some(pos)
    } else {
        find_tag(s, pos + 1, tag)
    }
}

/// A keyword found by scanning forward, over whatever stands before it.
pub open spec fn spec_scan_tag(s: Seq<u8>, pos: int, tag: Seq<u8>) -> Parsed<()> {
    match find_tag(s, pos, tag) {
        Some(p) => Ok(((), skip_spaces(s, p + tag.len()))),
        None => Err((ParseErrorKind::TagMismatch, pos)),
    }
}

/// Scans forward to the keyword `word` and reads it.
pub fn scan_tag(input: &[u8], pos: usize, word: &str) -> (r: Result<((), usize), ParseError>)
    ensures
        agrees(r, spec_scan_tag(input@, pos as int, word.spec_bytes())),
        r matches Ok((_, end)) ==> pos <= end <= input@.len(),
{
    let mut i: usize = pos;
    while i < input.len()
        invariant
            pos <= i,
            find_tag(input@, pos as int, word.spec_bytes()) == find_tag(
                input@,
                i as int,
                word.spec_bytes(),
            ),
        decreases input@.len() - i,
    {
        if tag_at(input, i, word) {
            let n = input.len();
            let end = skip_whitespace(input, i + word.as_bytes().len());
            return Ok(((), end));
        }
        i += 1;
    }
    Err(ParseError { kind: ParseErrorKind::TagMismatch, offset: pos })
}

/// A keyword found by scanning forward, and the integer after it.
pub open spec fn spec_field(s: Seq<u8>, pos: int, tag: Seq<u8>) -> Parsed<i32> {
    match spec_scan_tag(s, pos, tag) {
        Err(e) => Err(e),
        Ok((_, p)) => spec_i32(s, p),
    }
}

fn parse_field(input: &[u8], pos: usize, word: &str) -> (r: Result<(i32, usize), ParseError>)
    ensures
        agrees(r, spec_field(input@, pos as int, word.spec_bytes())),
        r matches Ok((_, end)) ==> pos <= end <= input@.len(),
{
    let (_, p) = scan_tag(input, pos, word)?;
    parse_i32(input, p)
}

/// The six header fields, each found by scanning forward to its keyword.
pub open spec fn spec_header(s: Seq<u8>, pos: int) -> Parsed<
    (i32, Seq<char>, i32, i32, i32, i32),
> {
    match spec_field(s, pos, "MD5Version".spec_bytes()) {
        Err(e) => Err(e),
        Ok((version, p0)) => match spec_scan_tag(s, p0, "commandline".spec_bytes()) {
            Err(e) => Err(e),
            Ok((_, p1)) => match spec_string(s, p1) {
                Err(e) => Err(e),
                Ok((line, p2)) => match spec_field(s, p2, "numFrames".spec_bytes()) {
                    Err(e) => Err(e),
                    Ok((frames, p3)) => match spec_field(s, p3, "numJoints".spec_bytes()) {
                        Err(e) => Err(e),
                        Ok((joints, p4)) => match spec_field(s, p4, "frameRate".spec_bytes()) {
                            Err(e) => Err(e),
                            Ok((rate, p5)) => match spec_field(
                                s,
                                p5,
                                "numAnimatedComponents".spec_bytes(),
                            ) {
                                Err(e) => Err(e),
                                Ok((components, p6)) => Ok(
                                    ((version, line, frames, joints, rate, components), p6),
                                ),
                            },
                        },
                    },
                },
            },
        },
    }
}

/// Reads the header of an animation document.
pub fn parse_header(input: &[u8], pos: usize) -> (r: Result<
    ((i32, String, i32, i32, i32, i32), usize),
    ParseError,
>)
    ensures
        agrees(r, spec_header(input@, pos as int)),
        r matches Ok((_, end)) ==> pos <= end <= input@.len(),
{
    let (version, p0) = parse_field(input, pos, "MD5Version")?;
    let (_, p1) = scan_tag(input, p0, "commandline")?;
    let (line, p2) = escaped_string(input, p1)?;
    let (frames, p3) = parse_field(input, p2, "numFrames")?;
    let (joints, p4) = parse_field(input, p3, "numJoints")?;
    let (rate, p5) = parse_field(input, p4, "frameRate")?;
    let (components, p6) = parse_field(input, p5, "numAnimatedComponents")?;
    Ok(((version, line, frames, joints, rate, components), p6))
}

/// One joint of the hierarchy: name, parent, flags, start index, and an
/// optional comment.
pub open spec fn spec_joint(s: Seq<u8>, pos: int) -> Parsed<JointView> {
    match spec_string(s, pos) {
        Err(e) => Err(e),
        Ok((name, p0)) => match spec_i32(s, p0) {
            Err(e) => Err(e),
            Ok((index, p1)) => match spec_i32(s, p1) {
                Err(e) => Err(e),
                Ok((flag, p2)) => match spec_i32(s, p2) {
                    Err(e) => Err(e),
                    Ok((start_index, p3)) => Ok(
                        (JointView { name, index, flag, start_index }, spec_comment(s, p3)),
                    ),
                },
            },
        },
    }
}

/// Reads one joint of the hierarchy.
pub fn parse_joint(input: &[u8], pos: usize) -> (r: Result<(Joint, usize), ParseError>)
    ensures
        agrees(r, spec_joint(input@, pos as int)),
        r matches Ok((_, end)) ==> pos <= end <= input@.len(),
{
    let (name, p0) = escaped_string(input, pos)?;
    let (index, p1) = parse_i32(input, p0)?;
    let (flag, p2) = parse_i32(input, p1)?;
    let (start_index, p3) = parse_i32(input, p2)?;
    let end = comments(input, p3);
    Ok((Joint { name, index, flag, start_index }, end))
}

pub struct JointRule;

impl Rule for JointRule {
    type Out = Joint;

    open spec fn starts(s: Seq<u8>, pos: int) -> bool {
        next_is(s, pos, 34u8)
    }

    open spec fn rule(s: Seq<u8>, pos: int) -> Parsed<JointView> {
        spec_joint(s, pos)
    }

    fn begins(input: &[u8], pos: usize) -> (b: bool) {
        peek_is(input, pos, 34)
    }

    fn parse(input: &[u8], pos: usize) -> (r: Result<(Joint, usize), ParseError>) {
        parse_joint(input, pos)
    }
}

/// `<word> { <record>+ }`.
pub open spec fn spec_block<R: Rule>(s: Seq<u8>, pos: int, word: Seq<u8>) -> Parsed<
    Seq<<R::Out as DeepView>::V>,
> {
    match spec_tag(s, pos, word) {
        Err(e) => Err(e),
        Ok((_, p0)) => match spec_tag(s, p0, "{".spec_bytes()) {
            Err(e) => Err(e),
            Ok((_, p1)) => match spec_many1::<R>(s, p1) {
                Err(e) => Err(e),
                Ok((records, p2)) => match spec_tag(s, p2, "}".spec_bytes()) {
                    Err(e) => Err(e),
                    Ok((_, p3)) => Ok((records, p3)),
                },
            },
        },
    }
}

fn parse_block<R: Rule>(input: &[u8], pos: usize, word: &str) -> (r: Result<
    (Vec<R::Out>, usize),
    ParseError,
>)
    ensures
        agrees(r, spec_block::<R>(input@, pos as int, word.spec_bytes())),
        r matches Ok((_, end)) ==> pos <= end <= input@.len(),
{
    let (_, p0) = tag(input, pos, word)?;
    let (_, p1) = tag(input, p0, "{")?;
    let (records, p2) = many1::<R>(input, p1)?;
    let (_, p3) = tag(input, p2, "}")?;
    Ok((records, p3))
}

/// Reads `hierarchy { <joint>+ }`.
pub fn parse_hierarchy(input: &[u8], pos: usize) -> (r: Result<(Vec<Joint>, usize), ParseError>)
    ensures
        agrees(r, spec_block::<JointRule>(input@, pos as int, "hierarchy".spec_bytes())),
        r matches Ok((_, end)) ==> pos <= end <= input@.len(),
{
    parse_block::<JointRule>(input, pos, "hierarchy")
}

/// Two vectors: the least and the greatest corner of a box.
pub open spec fn spec_bound(s: Seq<u8>, pos: int) -> Parsed<BoundView> {
    match spec_vector3f32(s, pos) {
        Err(e) => Err(e),
        Ok((bound_min, p0)) => match spec_vector3f32(s, p0) {
            Err(e) => Err(e),
            Ok((bound_max, p1)) => Ok((BoundView { bound_min, bound_max }, p1)),
        },
    }
}

/// Reads one bounding box.
pub fn parse_bound(input: &[u8], pos: usize) -> (r: Result<(Bound, usize), ParseError>)
    ensures
        agrees(r, spec_bound(input@, pos as int)),
        r matches Ok((_, end)) ==> pos <= end <= input@.len(),
{
    let (bound_min, p0) = parse_vector3f32(input, pos)?;
    let (bound_max, p1) = parse_vector3f32(input, p0)?;
    Ok((Bound { bound_min, bound_max }, p1))
}

/// The box rule as a list rule: a box begins wherever the block does not
/// end.
pub struct BoundRule;

impl Rule for BoundRule {
    type Out = Bound;

    open spec fn starts(s: Seq<u8>, pos: int) -> bool {
        next_is_not(s, pos, 125u8)
    }

    open spec fn rule(s: Seq<u8>, pos: int) -> Parsed<BoundView> {
        spec_bound(s, pos)
    }

    fn begins(input: &[u8], pos: usize) -> (b: bool) {
        peek_is_not(input, pos, 125)
    }

    fn parse(input: &[u8], pos: usize) -> (r: Result<(Bound, usize), ParseError>) {
        parse_bound(input, pos)
    }
}

/// Reads `bounds { <box>+ }`.
pub fn parse_bounds(input: &[u8], pos: usize) -> (r: Result<(Vec<Bound>, usize), ParseError>)
    ensures
        agrees(r, spec_block::<BoundRule>(input@, pos as int, "bounds".spec_bytes())),
        r matches Ok((_, end)) ==> pos <= end <= input@.len(),
{
    parse_block::<BoundRule>(input, pos, "bounds")
}

/// A position and an orientation.
pub open spec fn spec_pos_and_orientation(s: Seq<u8>, pos: int) -> Parsed<
    (Vector3View, QuaternionView),
> {
    match spec_vector3f32(s, pos) {
        Err(e) => Err(e),
        Ok((p, p0)) => match spec_quaternionf32(s, p0) {
            Err(e) => Err(e),
            Ok((o, p1)) => Ok(((p, o), p1)),
        },
    }
}

/// Reads a position and an orientation.
pub fn pos_and_orientation(input: &[u8], pos: usize) -> (r: Result<
    ((Vector3, Quaternion), usize),
    ParseError,
>)
    ensures
        agrees(r, spec_pos_and_orientation(input@, pos as int)),
        r matches Ok((_, end)) ==> pos <= end <= input@.len(),
{
    let (p, p0) = parse_vector3f32(input, pos)?;
    let (o, p1) = parse_quaternionf32(input, p0)?;
    Ok(((p, o), p1))
}

pub struct PoseRule;

impl Rule for PoseRule {
    type Out = (Vector3, Quaternion);

    open spec fn starts(s: Seq<u8>, pos: int) -> bool {
        next_is_not(s, pos, 125u8)
    }

    open spec fn rule(s: Seq<u8>, pos: int) -> Parsed<(Vector3View, QuaternionView)> {
        spec_pos_and_orientation(s, pos)
    }

    fn begins(input: &[u8], pos: usize) -> (b: bool) {
        peek_is_not(input, pos, 125)
    }

    fn parse(input: &[u8], pos: usize) -> (r: Result<((Vector3, Quaternion), usize), ParseError>) {
        pos_and_orientation(input, pos)
    }
}

/// The positions and the orientations of a list of poses, each in the
/// order of the list.
pub open spec fn split_poses(poses: Seq<(Vector3View, QuaternionView)>) -> BaseFrameView {
    BaseFrameView {
        position: Seq::new(poses.len(), |i: int| poses[i].0),
        orientation: Seq::new(poses.len(), |i: int| poses[i].1),
    }
}

/// `baseframe { <pose>+ }`.
pub open spec fn spec_baseframe(s: Seq<u8>, pos: int) -> Parsed<BaseFrameView> {
    match spec_block::<PoseRule>(s, pos, "baseframe".spec_bytes()) {
        Err(e) => Err(e),
        Ok((poses, p)) => Ok((split_poses(poses), p)),
    }
}

/// Reads the base pose.
pub fn parse_baseframe(input: &[u8], pos: usize) -> (r: Result<(BaseFrame, usize), ParseError>)
    ensures
        agrees(r, spec_baseframe(input@, pos as int)),
        r matches Ok((_, end)) ==> pos <= end <= input@.len(),
{
    let (poses, end) = parse_block::<PoseRule>(input, pos, "baseframe")?;
    let ghost all = poses.deep_view();
    let ghost n = all.len() as int;
    let mut rest = poses;
    let mut position: Vec<Vector3> = Vec::new();
    let mut orientation: Vec<Quaternion> = Vec::new();
    while rest.len() > 0
        invariant
            n == all.len(),
            rest.len() <= n,
            rest.deep_view() == all.subrange(0, rest.len() as int),
            position.len() == n - rest.len(),
            orientation.len() == n - rest.len(),
            forall|i: int|
                0 <= i < position.len() ==> (#[trigger] position@[i]).deep_view() == all[
                    rest.len() + i
                ].0,
            forall|i: int|
                0 <= i < orientation.len() ==> (#[trigger] orientation@[i]).deep_view() == all[
                    rest.len() + i
                ].1,
        decreases rest.len(),
    {
        let ghost before = rest.deep_view();
        let ghost m = rest.len() as int;
        let (p, o) = rest.pop().unwrap();
        proof {
            assert((p, o).deep_view() == before[m - 1]);
            assert(rest.deep_view() =~= all.subrange(0, m - 1));
        }
        position.insert(0, p);
        orientation.insert(0, o);
    }
    let frame = BaseFrame { position, orientation };
    proof {
        assert(frame.deep_view().position =~= split_poses(all).position);
        assert(frame.deep_view().orientation =~= split_poses(all).orientation);
    }
    Ok((frame, end))
}

/// The component rule as a list rule: a component begins wherever the
/// block does not end.
pub struct ComponentRule;

impl Rule for ComponentRule {
    type Out = Decimal;

    open spec fn starts(s: Seq<u8>, pos: int) -> bool {
        next_is_not(s, pos, 125u8)
    }

    open spec fn rule(s: Seq<u8>, pos: int) -> Parsed<DecimalView> {
        spec_f32(s, pos)
    }

    fn begins(input: &[u8], pos: usize) -> (b: bool) {
        peek_is_not(input, pos, 125)
    }

    fn parse(input: &[u8], pos: usize) -> (r: Result<(Decimal, usize), ParseError>) {
        parse_f32(input, pos)
    }
}

/// `frame <number> { <decimal>* }`.
pub open spec fn spec_frame(s: Seq<u8>, pos: int) -> Parsed<FrameView> {
    match spec_tag(s, pos, "frame".spec_bytes()) {
        Err(e) => Err(e),
        Ok((_, p0)) => match spec_u32(s, p0) {
            Err(e) => Err(e),
            Ok((frame_number, p1)) => match spec_tag(s, p1, "{".spec_bytes()) {
                Err(e) => Err(e),
                Ok((_, p2)) => match spec_many::<ComponentRule>(s, p2) {
                    Err(e) => Err(e),
                    Ok((frame_data, p3)) => match spec_tag(s, p3, "}".spec_bytes()) {
                        Err(e) => Err(e),
                        Ok((_, p4)) => Ok((FrameView { frame_number, frame_data }, p4)),
                    },
                },
            },
        },
    }
}

/// Reads one frame.
pub fn parse_frame(input: &[u8], pos: usize) -> (r: Result<(Frame, usize), ParseError>)
    ensures
        agrees(r, spec_frame(input@, pos as int)),
        r matches Ok((_, end)) ==> pos <= end <= input@.len(),
{
    let (_, p0) = tag(input, pos, "frame")?;
    let (frame_number, p1) = parse_u32(input, p0)?;
    let (_, p2) = tag(input, p1, "{")?;
    let (frame_data, p3) = many::<ComponentRule>(input, p2)?;
    let (_, p4) = tag(input, p3, "}")?;
    Ok((Frame { frame_number, frame_data }, p4))
}

pub struct FrameRule;

impl Rule for FrameRule {
    type Out = Frame;

    open spec fn starts(s: Seq<u8>, pos: int) -> bool {
        next_has_tag(s, pos, "frame".spec_bytes())
    }

    open spec fn rule(s: Seq<u8>, pos: int) -> Parsed<FrameView> {
        spec_frame(s, pos)
    }

    fn begins(input: &[u8], pos: usize) -> (b: bool) {
        peek_tag(input, pos, "frame")
    }

    fn parse(input: &[u8], pos: usize) -> (r: Result<(Frame, usize), ParseError>) {
        parse_frame(input, pos)
    }
}

/// Reads one frame or more.
pub fn parse_frames(input: &[u8], pos: usize) -> (r: Result<(Vec<Frame>, usize), ParseError>)
    ensures
        agrees(r, spec_many1::<FrameRule>(input@, pos as int)),
        r matches Ok((_, end)) ==> pos <= end <= input@.len(),
{
    many1::<FrameRule>(input, pos)
}

/// The whole document: header, hierarchy, bounds, base pose, frames.
pub open spec fn spec_anim(s: Seq<u8>, pos: int) -> Parsed<Md5AnimView> {
    match spec_header(s, pos) {
        Err(e) => Err(e),
        Ok((header, p0)) => match spec_block::<JointRule>(s, p0, "hierarchy".spec_bytes()) {
            Err(e) => Err(e),
            Ok((hierarchies, p1)) => match spec_block::<BoundRule>(s, p1, "bounds".spec_bytes()) {
                Err(e) => Err(e),
                Ok((bounds, p2)) => match spec_baseframe(s, p2) {
                    Err(e) => Err(e),
                    Ok((base_frame, p3)) => match spec_many1::<FrameRule>(s, p3) {
                        Err(e) => Err(e),
                        Ok((frames, p4)) => Ok(
                            (
                                Md5AnimView {
                                    version: header.0,
                                    command_line: header.1,
                                    num_frames: header.2,
                                    num_joints: header.3,
                                    frame_rate: header.4,
                                    num_animated_components: header.5,
                                    hierarchies,
                                    bounds,
                                    base_frame,
                                    frames,
                                },
                                p4,
                            ),
                        ),
                    },
                },
            },
        },
    }
}

/// Reads an animation document from `pos` on and returns it with the
/// position at which it ends.
pub fn parse_anim(input: &[u8], pos: usize) -> (r: Result<(Md5Anim, usize), ParseError>)
    ensures
        agrees(r, spec_anim(input@, pos as int)),
        r matches Ok((_, end)) ==> pos <= end <= input@.len(),
{
    let (header, p0) = parse_header(input, pos)?;
    let (hierarchies, p1) = parse_hierarchy(input, p0)?;
    let (bounds, p2) = parse_bounds(input, p1)?;
    let (base_frame, p3) = parse_baseframe(input, p2)?;
    let (frames, p4) = parse_frames(input, p3)?;
    Ok(
        (
            Md5Anim {
                version: header.0,
                command_line: header.1,
                num_frames: header.2,
                num_joints: header.3,
                frame_rate: header.4,
                num_animated_components: header.5,
                hierarchies,
                bounds,
                base_frame,
                frames,
            },
            p4,
        ),
    )
}

} // verus!
