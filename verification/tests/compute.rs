use md5_model::error::ComputeError;
use md5_model::md5::decimal::{Decimal, Quaternion, Vector2, Vector3};
use md5_model::md5::md5mesh::{Joint, Md5Mesh, Mesh, Triangle, Vertex, Weight};
use md5_model::vertex_computation::compute::{
    prepare_full_mesh, prepare_mesh, prepare_normals, touched_vertices, Influence,
};
use md5_model::vertex_computation::convert::generate_indices;

fn zero() -> Decimal {
    Decimal { negative: false, int_digits: b"0".to_vec(), frac_digits: vec![] }
}

fn one() -> Decimal {
    Decimal { negative: false, int_digits: b"1".to_vec(), frac_digits: b"0".to_vec() }
}

fn origin() -> Vector3 {
    Vector3 { x: zero(), y: zero(), z: zero() }
}

fn joint(name: &str) -> Joint {
    Joint {
        name: String::from(name),
        parent_index: -1,
        position: origin(),
        orientation: Quaternion { x: zero(), y: zero(), z: zero() },
    }
}

fn vertex(index: u32, start_weight: u32, weight_count: u32) -> Vertex {
    Vertex { index, tex_coords: Vector2 { x: zero(), y: zero() }, start_weight, weight_count }
}

fn weight(index: u32, joint_index: u32) -> Weight {
    Weight { index, joint_index, bias: one(), position: origin() }
}

fn triangle(index: u32, a: u32, b: u32, c: u32) -> Triangle {
    Triangle { index, vertex_indices: (a, b, c) }
}

fn mesh(vertices: Vec<Vertex>, triangles: Vec<Triangle>, weights: Vec<Weight>) -> Mesh {
    Mesh { shader: String::from("s"), vertices, triangles, weights }
}

fn quad() -> Mesh {
    mesh(
        vec![vertex(0, 0, 1), vertex(1, 1, 2), vertex(2, 3, 0), vertex(3, 3, 1)],
        vec![triangle(0, 0, 2, 1), triangle(1, 1, 2, 3)],
        vec![weight(0, 0), weight(1, 1), weight(2, 0), weight(3, 1)],
    )
}

fn tri() -> Mesh {
    mesh(
        vec![vertex(0, 0, 1), vertex(1, 0, 1), vertex(2, 0, 1)],
        vec![triangle(0, 2, 1, 0)],
        vec![weight(0, 1)],
    )
}

fn document(meshes: Vec<Mesh>) -> Md5Mesh {
    Md5Mesh {
        version: 10,
        command_line: String::new(),
        joints: vec![joint("a"), joint("b")],
        meshes,
    }
}

#[test]
fn indices_are_flattened_in_corner_order() {
    assert_eq!(generate_indices(&quad()), Ok(vec![0, 2, 1, 1, 2, 3]));
    assert_eq!(generate_indices(&mesh(vec![], vec![], vec![])), Ok(vec![]));
    let wide = mesh(vec![], vec![triangle(0, 0, 65535, 1)], vec![]);
    assert_eq!(generate_indices(&wide), Ok(vec![0, 65535, 1]));
}

#[test]
fn an_index_beyond_sixteen_bits_overflows() {
    let wide = mesh(vec![], vec![triangle(0, 0, 1, 2), triangle(1, 0, 65536, 1)], vec![]);
    assert_eq!(generate_indices(&wide), Err(ComputeError::IndexOverflow));
}

#[test]
fn each_vertex_gets_the_weights_of_its_run() {
    let joints = vec![joint("a"), joint("b")];
    let plan = prepare_mesh(&quad(), &joints).unwrap();
    assert_eq!(
        plan,
        vec![
            vec![Influence { weight: 0, joint: 0 }],
            vec![Influence { weight: 1, joint: 1 }, Influence { weight: 2, joint: 0 }],
            vec![],
            vec![Influence { weight: 3, joint: 1 }],
        ]
    );
}

#[test]
fn a_run_or_a_joint_out_of_range_is_a_bounds_error() {
    let joints = vec![joint("a"), joint("b")];
    let long_run = mesh(vec![vertex(0, 1, 1)], vec![], vec![weight(0, 0)]);
    assert_eq!(prepare_mesh(&long_run, &joints), Err(ComputeError::BoundsError));
    let huge_run = mesh(vec![vertex(0, 4294967295, 4294967295)], vec![], vec![weight(0, 0)]);
    assert_eq!(prepare_mesh(&huge_run, &joints), Err(ComputeError::BoundsError));
    let no_joint = mesh(vec![vertex(0, 0, 1)], vec![], vec![weight(0, 2)]);
    assert_eq!(prepare_mesh(&no_joint, &joints), Err(ComputeError::BoundsError));
    let unused = mesh(vec![vertex(0, 0, 1)], vec![], vec![weight(0, 1), weight(1, 9)]);
    assert_eq!(prepare_mesh(&unused, &joints), Ok(vec![vec![Influence { weight: 0, joint: 1 }]]));
}

#[test]
fn corners_must_name_vertices() {
    assert_eq!(prepare_normals(&quad(), 4), Ok(vec![(0, 2, 1), (1, 2, 3)]));
    assert_eq!(prepare_normals(&quad(), 3), Err(ComputeError::BoundsError));
    assert_eq!(prepare_normals(&quad(), 0), Err(ComputeError::BoundsError));
}

#[test]
fn second_submesh_is_moved_up_by_the_first_vertex_count() {
    let plan = prepare_full_mesh(&document(vec![quad(), tri()])).unwrap();
    assert_eq!(plan.indices, vec![0, 2, 1, 1, 2, 3, 6, 5, 4]);
    let own = generate_indices(&tri()).unwrap();
    for i in 0..own.len() {
        assert_eq!(plan.indices[6 + i], own[i] + 4);
    }
    assert_eq!(plan.submeshes.len(), 2);
    assert_eq!(plan.submeshes[1].corners, vec![(2, 1, 0)]);
    assert_eq!(plan.submeshes[1].influences.len(), 3);
    assert_eq!(plan.submeshes[0].corners, vec![(0, 2, 1), (1, 2, 3)]);

    let plan = prepare_full_mesh(&document(vec![tri(), quad(), tri()])).unwrap();
    assert_eq!(plan.indices, vec![2, 1, 0, 3, 5, 4, 4, 5, 6, 9, 8, 7]);
    assert_eq!(prepare_full_mesh(&document(vec![])).unwrap().indices, vec![]);
}

#[test]
fn the_first_stopped_submesh_stops_the_document() {
    let mut broken = tri();
    broken.triangles[0].vertex_indices.1 = 3;
    assert_eq!(
        prepare_full_mesh(&document(vec![quad(), broken])).err(),
        Some(ComputeError::BoundsError)
    );
    let mut many = Vec::new();
    for i in 0..65534 {
        many.push(vertex(i, 0, 0));
    }
    let big = mesh(many, vec![triangle(0, 0, 1, 65533)], vec![]);
    let plan = prepare_full_mesh(&document(vec![tri(), big.clone()])).err();
    assert_eq!(plan, Some(ComputeError::IndexOverflow));
    let plan = prepare_full_mesh(&document(vec![big.clone(), tri()])).err();
    assert_eq!(plan, Some(ComputeError::IndexOverflow));
    let mut fits = big.clone();
    fits.triangles[0].vertex_indices.2 = 65532;
    let plan = prepare_full_mesh(&document(vec![tri(), fits])).unwrap();
    assert_eq!(plan.indices, vec![2, 1, 0, 3, 4, 65535]);
}

#[test]
fn a_vertex_is_touched_where_a_triangle_names_it() {
    let lone = mesh(
        vec![vertex(0, 0, 0), vertex(1, 0, 0), vertex(2, 0, 0), vertex(3, 0, 0)],
        vec![triangle(0, 0, 3, 0), triangle(1, 3, 0, 7)],
        vec![],
    );
    assert_eq!(touched_vertices(&lone, 4), vec![true, false, false, true]);
    assert_eq!(touched_vertices(&lone, 0), vec![]);
    assert_eq!(touched_vertices(&mesh(vec![], vec![], vec![]), 2), vec![false, false]);
    let plan = prepare_full_mesh(&document(vec![quad()])).unwrap();
    assert_eq!(plan.submeshes[0].touched, vec![true, true, true, true]);
}
