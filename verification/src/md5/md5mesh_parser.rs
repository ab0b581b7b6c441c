//! The grammar of the skeletal-mesh document.
use crate::error::{ParseError, ParseErrorKind};
use crate::md5::decimal::{Decimal, DecimalView};
use crate::md5::md5common_parser::{
    agrees, comments, escaped_string, lemma_many_elements, many, yields, next_has_tag, next_is, parse_f32, parse_i32,
    parse_quaternionf32, parse_tuple3u32, parse_u32, parse_vector2f32, parse_vector3f32, peek_is,
    peek_tag, skip_spaces, skip_whitespace, spec_comment, spec_f32, spec_i32, spec_many,
    spec_quaternionf32, spec_string, spec_tag, spec_tuple3u32, spec_u32, spec_vector2f32,
    spec_vector3f32, tag, Parsed, Rule,
};
use crate::md5::md5mesh::{
    Joint, JointView, Md5Mesh, Md5MeshView, Mesh, MeshView, Triangle, Vertex, VertexView, Weight,
    WeightView,
};
use crate::md5::sorting::{
    ascending, distinct_indices, indices_in_range, lemma_sort_by_index,
    lemma_sorted_indices_are_positions, sort_by_index, sort_records, Indexed,
};
use vstd::prelude::*;
use vstd::string::StringSliceAdditionalSpecFns;

verus! {

/// `MD5Version <int>`, then `commandline <string>`. The version fits
/// eight bits.
pub open spec fn spec_header(s: Seq<u8>, pos: int) -> Parsed<(u8, Seq<char>)> {
    match spec_tag(s, pos, "MD5Version".spec_bytes()) {
        Err(e) => Err(e),
        Ok((_, p0)) => match spec_u32(s, p0) {
            Err(e) => Err(e),
            Ok((version, p1)) => if version > 255 {
                Err((ParseErrorKind::InvalidInteger, skip_spaces(s, p0)))
            } else {
                match spec_tag(s, p1, "commandline".spec_bytes()) {
                    Err(e) => Err(e),
                    Ok((_, p2)) => match spec_string(s, p2) {
                        Err(e) => Err(e),
                        Ok((line, p3)) => Ok(((version as u8, line), p3)),
                    },
                }
            },
        },
    }
}

/// Reads the header of a mesh document.
pub fn parse_header(input: &[u8], pos: usize) -> (r: Result<((u8, String), usize), ParseError>)
    ensures
        agrees(r, spec_header(input@, pos as int)),
        r matches Ok((_, end)) ==> pos <= end <= input@.len(),
{
    let (_, p0) = tag(input, pos, "MD5Version")?;
    let (version, p1) = parse_u32(input, p0)?;
    if version > 255 {
        return Err(
            ParseError { kind: ParseErrorKind::InvalidInteger, offset: skip_whitespace(input, p0) },
        );
    }
    let (_, p2) = tag(input, p1, "commandline")?;
    let (line, p3) = escaped_string(input, p2)?;
    Ok(((version as u8, line), p3))
}

/// One joint: name, parent, position, orientation, and an optional
/// comment.
pub open spec fn spec_joint(s: Seq<u8>, pos: int) -> Parsed<JointView> {
    match spec_string(s, pos) {
        Err(e) => Err(e),
        Ok((name, p0)) => match spec_i32(s, p0) {
            Err(e) => Err(e),
            Ok((parent_index, p1)) => match spec_vector3f32(s, p1) {
                Err(e) => Err(e),
                Ok((position, p2)) => match spec_quaternionf32(s, p2) {
                    Err(e) => Err(e),
                    Ok((orientation, p3)) => Ok(
                        (
                            JointView { name, parent_index, position, orientation },
                            spec_comment(s, p3),
                        ),
                    ),
                },
            },
        },
    }
}

/// Reads one joint of the bind pose.
pub fn parse_joint(input: &[u8], pos: usize) -> (r: Result<(Joint, usize), ParseError>)
    ensures
        agrees(r, spec_joint(input@, pos as int)),
        r matches Ok((_, end)) ==> pos <= end <= input@.len(),
{
    let (name, p0) = escaped_string(input, pos)?;
    let (parent_index, p1) = parse_i32(input, p0)?;
    let (position, p2) = parse_vector3f32(input, p1)?;
    let (orientation, p3) = parse_quaternionf32(input, p2)?;
    let end = comments(input, p3);
    Ok((Joint { name, parent_index, position, orientation }, end))
}

/// The joint rule as a list rule: a joint begins with a quote.
pub struct JointRule;

impl Rule for JointRule {
    type Out = Joint;

    open spec fn starts(s: Seq<u8>, pos: int) -> bool {
        next_is(s, pos, 34u8)
    }

    open spec fn rule(s: Seq<u8>, pos: int) -> Parsed<JointView> {
        spec_joint(s, pos)
    }

    fn begins(input: &[u8], pos: usize) -> (b: bool) {
        peek_is(input, pos, 34)
    }

    fn parse(input: &[u8], pos: usize) -> (r: Result<(Joint, usize), ParseError>) {
        parse_joint(input, pos)
    }
}

/// `joints { <joint>* }`.
pub open spec fn spec_joints(s: Seq<u8>, pos: int) -> Parsed<Seq<JointView>> {
    match spec_tag(s, pos, "joints".spec_bytes()) {
        Err(e) => Err(e),
        Ok((_, p0)) => match spec_tag(s, p0, "{".spec_bytes()) {
            Err(e) => Err(e),
            Ok((_, p1)) => match spec_many::<JointRule>(s, p1) {
                Err(e) => Err(e),
                Ok((joints, p2)) => match spec_tag(s, p2, "}".spec_bytes()) {
                    Err(e) => Err(e),
                    Ok((_, p3)) => Ok((joints, p3)),
                },
            },
        },
    }
}

/// Reads the joint block.
pub fn parse_joints(input: &[u8], pos: usize) -> (r: Result<(Vec<Joint>, usize), ParseError>)
    ensures
        agrees(r, spec_joints(input@, pos as int)),
        r matches Ok((_, end)) ==> pos <= end <= input@.len(),
{
    let (_, p0) = tag(input, pos, "joints")?;
    let (_, p1) = tag(input, p0, "{")?;
    let (joints, p2) = many::<JointRule>(input, p1)?;
    let (_, p3) = tag(input, p2, "}")?;
    Ok((joints, p3))
}

/// `vert <index> <texcoords> <start_weight> <weight_count>`.
pub open spec fn spec_vertex(s: Seq<u8>, pos: int) -> Parsed<VertexView> {
    match spec_tag(s, pos, "vert".spec_bytes()) {
        Err(e) => Err(e),
        Ok((_, p0)) => match spec_u32(s, p0) {
            Err(e) => Err(e),
            Ok((index, p1)) => match spec_vector2f32(s, p1) {
                Err(e) => Err(e),
                Ok((tex_coords, p2)) => match spec_u32(s, p2) {
                    Err(e) => Err(e),
                    Ok((start_weight, p3)) => match spec_u32(s, p3) {
                        Err(e) => Err(e),
                        Ok((weight_count, p4)) => Ok(
                            (VertexView { index, tex_coords, start_weight, weight_count }, p4),
                        ),
                    },
                },
            },
        },
    }
}

/// Reads one vertex record.
pub fn parse_vertex(input: &[u8], pos: usize) -> (r: Result<(Vertex, usize), ParseError>)
    ensures
        agrees(r, spec_vertex(input@, pos as int)),
        r matches Ok((_, end)) ==> pos <= end <= input@.len(),
{
    let (_, p0) = tag(input, pos, "vert")?;
    let (index, p1) = parse_u32(input, p0)?;
    let (tex_coords, p2) = parse_vector2f32(input, p1)?;
    let (start_weight, p3) = parse_u32(input, p2)?;
    let (weight_count, p4) = parse_u32(input, p3)?;
    Ok((Vertex { index, tex_coords, start_weight, weight_count }, p4))
}

pub struct VertexRule;

impl Rule for VertexRule {
    type Out = Vertex;

    open spec fn starts(s: Seq<u8>, pos: int) -> bool {
        next_has_tag(s, pos, "vert".spec_bytes())
    }

    open spec fn rule(s: Seq<u8>, pos: int) -> Parsed<VertexView> {
        spec_vertex(s, pos)
    }

    fn begins(input: &[u8], pos: usize) -> (b: bool) {
        peek_tag(input, pos, "vert")
    }

    fn parse(input: &[u8], pos: usize) -> (r: Result<(Vertex, usize), ParseError>) {
        parse_vertex(input, pos)
    }
}

/// `<word> <int>`, then the records of rule `R` in the order of the file.
/// The count is read and not held against the number of records.
pub open spec fn spec_records<R: Rule>(s: Seq<u8>, pos: int, word: Seq<u8>) -> Parsed<
    Seq<<R::Out as DeepView>::V>,
> {
    match spec_tag(s, pos, word) {
        Err(e) => Err(e),
        Ok((_, p0)) => match spec_u32(s, p0) {
            Err(e) => Err(e),
            Ok((_, p1)) => spec_many::<R>(s, p1),
        },
    }
}

/// The records of a block, sorted by their stored index.
pub open spec fn spec_sorted_block<R: Rule>(s: Seq<u8>, pos: int, word: Seq<u8>) -> Parsed<
    Seq<<R::Out as DeepView>::V>,
> where R::Out: Indexed {
    match spec_records::<R>(s, pos, word) {
        Err(e) => Err(e),
        Ok((records, p)) => Ok((sort_by_index::<R::Out>(records), p)),
    }
}

/// Where the records of a block carry each of the indices `0..n` once,
/// in whatever order the file has them, the block that is read holds at
/// every position the record with that index.
pub proof fn lemma_block_indices_are_positions<R: Rule>(s: Seq<u8>, pos: int, word: Seq<u8>) where
    R::Out: Indexed,

    requires
        spec_records::<R>(s, pos, word) matches Ok((records, _)) && distinct_indices::<R::Out>(
            records,
        ) && indices_in_range::<R::Out>(records, records.len() as int),
    ensures
        spec_sorted_block::<R>(s, pos, word) matches Ok((sorted, _)) && sorted.len()
            == spec_records::<R>(s, pos, word)->Ok_0.0.len() && forall|i: int|
            0 <= i < sorted.len() ==> <R::Out as Indexed>::key_of(#[trigger] sorted[i]) == i,
{
    lemma_sorted_indices_are_positions::<R::Out>(spec_records::<R>(s, pos, word)->Ok_0.0);
}

fn parse_sorted_block<R: Rule>(input: &[u8], pos: usize, word: &str) -> (r: Result<
    (Vec<R::Out>, usize),
    ParseError,
>) where R::Out: Indexed
    ensures
        agrees(r, spec_sorted_block::<R>(input@, pos as int, word.spec_bytes())),
        r matches Ok((v, _)) ==> ascending::<R::Out>(v.deep_view()),
        r matches Ok((_, end)) ==> pos <= end <= input@.len(),
{
    let (_, p0) = tag(input, pos, word)?;
    let (_, p1) = parse_u32(input, p0)?;
    let (records, p2) = many::<R>(input, p1)?;
    Ok((sort_records(records), p2))
}

/// `numverts <int>`, then the vertex records, sorted by index.
pub open spec fn spec_vertices(s: Seq<u8>, pos: int) -> Parsed<Seq<VertexView>> {
    spec_sorted_block::<VertexRule>(s, pos, "numverts".spec_bytes())
}

/// Reads the vertex block and sorts it by index.
pub fn parse_vertices(input: &[u8], pos: usize) -> (r: Result<(Vec<Vertex>, usize), ParseError>)
    ensures
        agrees(r, spec_vertices(input@, pos as int)),
        r matches Ok((v, _)) ==> ascending::<Vertex>(v.deep_view()),
        r matches Ok((_, end)) ==> pos <= end <= input@.len(),
{
    parse_sorted_block::<VertexRule>(input, pos, "numverts")
}

/// `tri <index> <v0> <v1> <v2>`.
pub open spec fn spec_triangle(s: Seq<u8>, pos: int) -> Parsed<Triangle> {
    match spec_tag(s, pos, "tri".spec_bytes()) {
        Err(e) => Err(e),
        Ok((_, p0)) => match spec_u32(s, p0) {
            Err(e) => Err(e),
            Ok((index, p1)) => match spec_tuple3u32(s, p1) {
                Err(e) => Err(e),
                Ok((vertex_indices, p2)) => Ok((Triangle { index, vertex_indices }, p2)),
            },
        },
    }
}

/// Reads one triangle record.
pub fn parse_triangle(input: &[u8], pos: usize) -> (r: Result<(Triangle, usize), ParseError>)
    ensures
        agrees(r, spec_triangle(input@, pos as int)),
        r matches Ok((_, end)) ==> pos <= end <= input@.len(),
{
    let (_, p0) = tag(input, pos, "tri")?;
    let (index, p1) = parse_u32(input, p0)?;
    let (vertex_indices, p2) = parse_tuple3u32(input, p1)?;
    Ok((Triangle { index, vertex_indices }, p2))
}

pub struct TriangleRule;

impl Rule for TriangleRule {
    type Out = Triangle;

    open spec fn starts(s: Seq<u8>, pos: int) -> bool {
        next_has_tag(s, pos, "tri".spec_bytes())
    }

    open spec fn rule(s: Seq<u8>, pos: int) -> Parsed<Triangle> {
        spec_triangle(s, pos)
    }

    fn begins(input: &[u8], pos: usize) -> (b: bool) {
        peek_tag(input, pos, "tri")
    }

    fn parse(input: &[u8], pos: usize) -> (r: Result<(Triangle, usize), ParseError>) {
        parse_triangle(input, pos)
    }
}

/// `numtris <int>`, then the triangle records, sorted by index.
pub open spec fn spec_triangles(s: Seq<u8>, pos: int) -> Parsed<Seq<Triangle>> {
    spec_sorted_block::<TriangleRule>(s, pos, "numtris".spec_bytes())
}

/// Reads the triangle block and sorts it by index.
pub fn parse_triangles(input: &[u8], pos: usize) -> (r: Result<(Vec<Triangle>, usize), ParseError>)
    ensures
        agrees(r, spec_triangles(input@, pos as int)),
        r matches Ok((v, _)) ==> ascending::<Triangle>(v.deep_view()),
        r matches Ok((_, end)) ==> pos <= end <= input@.len(),
{
    parse_sorted_block::<TriangleRule>(input, pos, "numtris")
}

/// A decimal in [-1, 1].
pub open spec fn spec_bias(s: Seq<u8>, pos: int) -> Parsed<DecimalView> {
    match spec_f32(s, pos) {
        Err(e) => Err(e),
        Ok((bias, p)) => if bias.magnitude_at_most_one() {
            Ok((bias, p))
        } else {
            Err((ParseErrorKind::InvalidBias, skip_spaces(s, pos)))
        },
    }
}

/// Reads a bias and rejects one outside [-1, 1].
pub fn parse_bias(input: &[u8], pos: usize) -> (r: Result<(Decimal, usize), ParseError>)
    ensures
        agrees(r, spec_bias(input@, pos as int)),
        r matches Ok((_, end)) ==> pos <= end <= input@.len(),
{
    let (bias, p) = parse_f32(input, pos)?;
    if bias.magnitude_at_most_one() {
        Ok((bias, p))
    } else {
        Err(ParseError { kind: ParseErrorKind::InvalidBias, offset: skip_whitespace(input, pos) })
    }
}

/// `weight <index> <joint_index> <bias> <position>`.
pub open spec fn spec_weight(s: Seq<u8>, pos: int) -> Parsed<WeightView> {
    match spec_tag(s, pos, "weight".spec_bytes()) {
        Err(e) => Err(e),
        Ok((_, p0)) => match spec_u32(s, p0) {
            Err(e) => Err(e),
            Ok((index, p1)) => match spec_u32(s, p1) {
                Err(e) => Err(e),
                Ok((joint_index, p2)) => match spec_bias(s, p2) {
                    Err(e) => Err(e),
                    Ok((bias, p3)) => match spec_vector3f32(s, p3) {
                        Err(e) => Err(e),
                        Ok((position, p4)) => Ok(
                            (WeightView { index, joint_index, bias, position }, p4),
                        ),
                    },
                },
            },
        },
    }
}

/// Reads one weight record.
pub fn parse_weight(input: &[u8], pos: usize) -> (r: Result<(Weight, usize), ParseError>)
    ensures
        agrees(r, spec_weight(input@, pos as int)),
        r matches Ok((_, end)) ==> pos <= end <= input@.len(),
{
    let (_, p0) = tag(input, pos, "weight")?;
    let (index, p1) = parse_u32(input, p0)?;
    let (joint_index, p2) = parse_u32(input, p1)?;
    let (bias, p3) = parse_bias(input, p2)?;
    let (position, p4) = parse_vector3f32(input, p3)?;
    Ok((Weight { index, joint_index, bias, position }, p4))
}

pub struct WeightRule;

impl Rule for WeightRule {
    type Out = Weight;

    open spec fn starts(s: Seq<u8>, pos: int) -> bool {
        next_has_tag(s, pos, "weight".spec_bytes())
    }

    open spec fn rule(s: Seq<u8>, pos: int) -> Parsed<WeightView> {
        spec_weight(s, pos)
    }

    fn begins(input: &[u8], pos: usize) -> (b: bool) {
        peek_tag(input, pos, "weight")
    }

    fn parse(input: &[u8], pos: usize) -> (r: Result<(Weight, usize), ParseError>) {
        parse_weight(input, pos)
    }
}

/// `numweights <int>`, then the weight records, sorted by index.
pub open spec fn spec_weights(s: Seq<u8>, pos: int) -> Parsed<Seq<WeightView>> {
    spec_sorted_block::<WeightRule>(s, pos, "numweights".spec_bytes())
}

/// Reads the weight block and sorts it by index.
pub fn parse_weights(input: &[u8], pos: usize) -> (r: Result<(Vec<Weight>, usize), ParseError>)
    ensures
        agrees(r, spec_weights(input@, pos as int)),
        r matches Ok((v, _)) ==> ascending::<Weight>(v.deep_view()),
        r matches Ok((_, end)) ==> pos <= end <= input@.len(),
{
    parse_sorted_block::<WeightRule>(input, pos, "numweights")
}

/// `mesh { shader <string> <vertices> <triangles> <weights> }`.
pub open spec fn spec_mesh(s: Seq<u8>, pos: int) -> Parsed<MeshView> {
    match spec_tag(s, pos, "mesh".spec_bytes()) {
        Err(e) => Err(e),
        Ok((_, p0)) => match spec_tag(s, p0, "{".spec_bytes()) {
            Err(e) => Err(e),
            Ok((_, p1)) => match spec_tag(s, p1, "shader".spec_bytes()) {
                Err(e) => Err(e),
                Ok((_, p2)) => match spec_string(s, p2) {
                    Err(e) => Err(e),
                    Ok((shader, p3)) => match spec_vertices(s, p3) {
                        Err(e) => Err(e),
                        Ok((vertices, p4)) => match spec_triangles(s, p4) {
                            Err(e) => Err(e),
                            Ok((triangles, p5)) => match spec_weights(s, p5) {
                                Err(e) => Err(e),
                                Ok((weights, p6)) => match spec_tag(s, p6, "}".spec_bytes()) {
                                    Err(e) => Err(e),
                                    Ok((_, p7)) => Ok(
                                        (MeshView { shader, vertices, triangles, weights }, p7),
                                    ),
                                },
                            },
                        },
                    },
                },
            },
        },
    }
}

/// Reads one submesh.
pub fn parse_mesh(input: &[u8], pos: usize) -> (r: Result<(Mesh, usize), ParseError>)
    ensures
        agrees(r, spec_mesh(input@, pos as int)),
        r matches Ok((m, _)) ==> m.deep_view().sorted(),
        r matches Ok((_, end)) ==> pos <= end <= input@.len(),
{
    let (_, p0) = tag(input, pos, "mesh")?;
    let (_, p1) = tag(input, p0, "{")?;
    let (_, p2) = tag(input, p1, "shader")?;
    let (shader, p3) = escaped_string(input, p2)?;
    let (vertices, p4) = parse_vertices(input, p3)?;
    let (triangles, p5) = parse_triangles(input, p4)?;
    let (weights, p6) = parse_weights(input, p5)?;
    let (_, p7) = tag(input, p6, "}")?;
    Ok((Mesh { shader, vertices, triangles, weights }, p7))
}

pub struct MeshRule;

impl Rule for MeshRule {
    type Out = Mesh;

    open spec fn starts(s: Seq<u8>, pos: int) -> bool {
        next_has_tag(s, pos, "mesh".spec_bytes())
    }

    open spec fn rule(s: Seq<u8>, pos: int) -> Parsed<MeshView> {
        spec_mesh(s, pos)
    }

    fn begins(input: &[u8], pos: usize) -> (b: bool) {
        peek_tag(input, pos, "mesh")
    }

    fn parse(input: &[u8], pos: usize) -> (r: Result<(Mesh, usize), ParseError>) {
        parse_mesh(input, pos)
    }
}

/// Reads submeshes for as long as one begins.
pub fn parse_meshes(input: &[u8], pos: usize) -> (r: Result<(Vec<Mesh>, usize), ParseError>)
    ensures
        agrees(r, spec_many::<MeshRule>(input@, pos as int)),
        r matches Ok((_, end)) ==> pos <= end && (pos <= input@.len() ==> end <= input@.len()),
{
    many::<MeshRule>(input, pos)
}

/// The whole document: header, the two counts, the joint block, and the
/// submeshes. The counts are read and not held against the lists.
pub open spec fn spec_md5mesh(s: Seq<u8>, pos: int) -> Parsed<Md5MeshView> {
    match spec_preamble(s, pos) {
        Err(e) => Err(e),
        Ok(((header, joints), p5)) => match spec_many::<MeshRule>(s, p5) {
            Err(e) => Err(e),
            Ok((meshes, p6)) => Ok(
                (Md5MeshView { version: header.0, command_line: header.1, joints, meshes }, p6),
            ),
        },
    }
}

/// A block that is read is in ascending order of index.
pub proof fn lemma_block_sorted<R: Rule>(s: Seq<u8>, pos: int, word: Seq<u8>) where
    R::Out: Indexed,

    ensures
        spec_sorted_block::<R>(s, pos, word) matches Ok((sorted, _)) ==> ascending::<R::Out>(
            sorted,
        ),
{
    if let Ok((records, _)) = spec_records::<R>(s, pos, word) {
        lemma_sort_by_index::<R::Out>(records);
    }
}

/// A submesh that is read has its vertices, triangles and weights in
/// ascending order of index.
pub proof fn lemma_mesh_sorted(s: Seq<u8>, pos: int)
    ensures
        spec_mesh(s, pos) matches Ok((m, _)) ==> m.sorted(),
{
    if let Ok((_, p0)) = spec_tag(s, pos, "mesh".spec_bytes()) {
        if let Ok((_, p1)) = spec_tag(s, p0, "{".spec_bytes()) {
            if let Ok((_, p2)) = spec_tag(s, p1, "shader".spec_bytes()) {
                if let Ok((_, p3)) = spec_string(s, p2) {
                    lemma_block_sorted::<VertexRule>(s, p3, "numverts".spec_bytes());
                    if let Ok((_, p4)) = spec_vertices(s, p3) {
                        lemma_block_sorted::<TriangleRule>(s, p4, "numtris".spec_bytes());
                        if let Ok((_, p5)) = spec_triangles(s, p4) {
                            lemma_block_sorted::<WeightRule>(s, p5, "numweights".spec_bytes());
                        }
                    }
                }
            }
        }
    }
}

/// Where the submeshes of a document begin.
pub open spec fn spec_preamble(s: Seq<u8>, pos: int) -> Parsed<((u8, Seq<char>), Seq<JointView>)> {
    match spec_header(s, pos) {
        Err(e) => Err(e),
        Ok((header, p0)) => match spec_tag(s, p0, "numJoints".spec_bytes()) {
            Err(e) => Err(e),
            Ok((_, p1)) => match spec_u32(s, p1) {
                Err(e) => Err(e),
                Ok((_, p2)) => match spec_tag(s, p2, "numMeshes".spec_bytes()) {
                    Err(e) => Err(e),
                    Ok((_, p3)) => match spec_u32(s, p3) {
                        Err(e) => Err(e),
                        Ok((_, p4)) => match spec_joints(s, p4) {
                            Err(e) => Err(e),
                            Ok((joints, p5)) => Ok(((header, joints), p5)),
                        },
                    },
                },
            },
        },
    }
}

/// Every submesh of a document that is read has its vertices, triangles
/// and weights in ascending order of index.
pub proof fn lemma_document_sorted(s: Seq<u8>, pos: int)
    ensures
        spec_md5mesh(s, pos) matches Ok((doc, _)) ==> doc.sorted(),
{
    reveal(Md5MeshView::sorted);
    if let Ok((doc, _)) = spec_md5mesh(s, pos) {
        let p = spec_preamble(s, pos)->Ok_0.1;
        assert(spec_many::<MeshRule>(s, p) matches Ok((meshes, _)) && meshes == doc.meshes);
        assert forall|k: int| 0 <= k < doc.meshes.len() implies (#[trigger] doc.meshes[k]).sorted() by {
            lemma_many_elements::<MeshRule>(s, p, k);
            let at = choose|at: int| #[trigger] yields::<MeshRule>(s, at, doc.meshes[k]);
            lemma_mesh_sorted(s, at);
        }
    }
}

/// Reads what stands before the submeshes: the header, the two counts
/// and the joint block.
fn parse_preamble(input: &[u8], pos: usize) -> (r: Result<
    (((u8, String), Vec<Joint>), usize),
    ParseError,
>)
    ensures
        agrees(r, spec_preamble(input@, pos as int)),
        r matches Ok((_, end)) ==> pos <= end <= input@.len(),
{
    let (header, p0) = parse_header(input, pos)?;
    let (_, p1) = tag(input, p0, "numJoints")?;
    let (_, p2) = parse_u32(input, p1)?;
    let (_, p3) = tag(input, p2, "numMeshes")?;
    let (_, p4) = parse_u32(input, p3)?;
    let (joints, p5) = parse_joints(input, p4)?;
    Ok(((header, joints), p5))
}

/// Reads a mesh document from `pos` on and returns it with the position
/// at which it ends. Every submesh of it is sorted by index.
pub fn parse_md5mesh(input: &[u8], pos: usize) -> (r: Result<(Md5Mesh, usize), ParseError>)
    ensures
        agrees(r, spec_md5mesh(input@, pos as int)),
        r matches Ok((doc, _)) ==> doc.deep_view().sorted(),
        r matches Ok((_, end)) ==> pos <= end <= input@.len(),
{
    let ((header, joints), p5) = parse_preamble(input, pos)?;
    let (meshes, p6) = parse_meshes(input, p5)?;
    let doc = Md5Mesh { version: header.0, command_line: header.1, joints, meshes };
    proof {
        let view = doc.deep_view();
        assert(spec_md5mesh(input@, pos as int) == Ok::<(Md5MeshView, int), (ParseErrorKind, int)>(
            (view, p6 as int),
        ));
        lemma_document_sorted(input@, pos as int);
    }
    Ok((doc, p6))
}

} // verus!
