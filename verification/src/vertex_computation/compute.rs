//! The plan of bind-pose skinning: which weights and joints make each
//! vertex, which vertices make each triangle, and the indices of the
//! merged buffer. The arithmetic on positions is the caller's.
use crate::error::ComputeError;
use crate::md5::md5mesh::{Joint, Md5Mesh, Md5MeshView, Mesh, MeshView, Triangle, VertexView};
use crate::vertex_computation::convert::{
    append_indices, corner, fits_narrow, flat_indices, shifted, widened,
};
use vstd::prelude::*;

verus! {

/// One term of a vertex's blend: a weight, by its position in the weight
/// list, and the joint that it refers to.
#[derive(Clone, Copy, Debug, PartialEq, Eq)]
pub struct Influence {
    pub weight: usize,
    pub joint: usize,
}

/// The weight run of `v` lies inside a list of `weights` weights.
pub open spec fn run_in_range(v: VertexView, weights: int) -> bool {
    v.start_weight + v.weight_count <= weights
}

/// Every weight of the run of `v` refers to one of `joints` joints.
pub open spec fn run_joints_in_range(m: MeshView, v: VertexView, joints: int) -> bool {
    forall|k: int|
        0 <= k < v.weight_count ==> (#[trigger] m.weights[v.start_weight + k]).joint_index < joints
}

/// Every vertex of `m` can be blended from `joints` joints.
pub open spec fn skinnable(m: MeshView, joints: int) -> bool {
    forall|i: int|
        0 <= i < m.vertices.len() ==> run_in_range(#[trigger] m.vertices[i], m.weights.len() as int)
            && run_joints_in_range(m, m.vertices[i], joints)
}

/// The terms of vertex `v`: its weights in the order of its run.
pub open spec fn influences_of(m: MeshView, v: VertexView) -> Seq<Influence> {
    Seq::new(
        v.weight_count as nat,
        |k: int|
            Influence {
                weight: (v.start_weight + k) as usize,
                joint: m.weights[v.start_weight + k].joint_index as usize,
            },
    )
}

/// The terms of every vertex of `m`.
pub open spec fn blend_plan(m: MeshView) -> Seq<Seq<Influence>> {
    Seq::new(m.vertices.len(), |i: int| influences_of(m, m.vertices[i]))
}

/// What a list of lists holds.
pub open spec fn rows(plan: Seq<Vec<Influence>>) -> Seq<Seq<Influence>> {
    Seq::new(plan.len(), |i: int| plan[i]@)
}

/// The terms of one vertex, or `None` where its run or one of its joints
/// is out of range.
fn vertex_influences(m: &Mesh, at: usize, joints: usize) -> (r: Option<Vec<Influence>>)
    requires
        at < m.vertices@.len(),
    ensures
        r is Some <==> run_in_range(m.deep_view().vertices[at as int], m.weights@.len() as int)
            && run_joints_in_range(m.deep_view(), m.deep_view().vertices[at as int], joints as int),
        r matches Some(v) ==> v@ == influences_of(m.deep_view(), m.deep_view().vertices[at as int]),
{
    let ghost mv = m.deep_view();
    let ghost vv = mv.vertices[at as int];
    let start = m.vertices[at].start_weight;
    let count = m.vertices[at].weight_count;
    proof {
        assert(vv == m.vertices@[at as int].deep_view());
        assert(mv.weights.len() == m.weights@.len());
    }
    if start as u64 + count as u64 > m.weights.len() as u64 {
        return None;
    }
    let n = m.weights.len();
    let mut out: Vec<Influence> = Vec::new();
    let mut k: u32 = 0;
    while k < count
        invariant
            k <= count,
            n == m.weights@.len(),
            at < m.vertices@.len(),
            mv == m.deep_view(),
            vv == mv.vertices[at as int],
            vv.start_weight == start,
            vv.weight_count == count,
            start + count <= m.weights@.len(),
            out@.len() == k,
            forall|j: int|
                0 <= j < k ==> (#[trigger] mv.weights[start + j]).joint_index < joints,
            forall|j: int| 0 <= j < k ==> #[trigger] out@[j] == influences_of(mv, vv)[j],
        decreases count - k,
    {
        let w = start as usize + k as usize;
        let joint = m.weights[w].joint_index;
        proof {
            assert(mv.weights[start + k] == m.weights@[w as int].deep_view());
        }
        if joint as u64 >= joints as u64 {
            return None;
        }
        out.push(Influence { weight: w, joint: joint as usize });
        k += 1;
    }
    proof {
        assert(out@ =~= influences_of(mv, vv));
    }
    Some(out)
}

/// For each vertex of `m`, the weights and joints that it is blended
/// from. Fails with `BoundsError` exactly where a weight run leaves the
/// weight list or a weight of a run names a joint that `v_joints` lacks.
/// A vertex with no weights has no terms.
pub fn prepare_mesh(m: &Mesh, v_joints: &Vec<Joint>) -> (r: Result<
    Vec<Vec<Influence>>,
    ComputeError,
>)
    ensures
        r is Ok <==> skinnable(m.deep_view(), v_joints@.len() as int),
        r matches Ok(plan) ==> rows(plan@) == blend_plan(m.deep_view()),
        r is Err ==> r == Err::<Vec<Vec<Influence>>, ComputeError>(ComputeError::BoundsError),
{
    let ghost mv = m.deep_view();
    let joints = v_joints.len();
    let mut plan: Vec<Vec<Influence>> = Vec::new();
    let mut i: usize = 0;
    while i < m.vertices.len()
        invariant
            i <= m.vertices@.len(),
            mv == m.deep_view(),
            joints == v_joints@.len(),
            plan@.len() == i,
            forall|j: int|
                0 <= j < i ==> run_in_range(#[trigger] mv.vertices[j], mv.weights.len() as int)
                    && run_joints_in_range(mv, mv.vertices[j], joints as int),
            forall|j: int| 0 <= j < i ==> (#[trigger] plan@[j])@ == influences_of(mv, mv.vertices[j]),
        decreases m.vertices@.len() - i,
    {
        match vertex_influences(m, i, joints) {
            None => {
                return Err(ComputeError::BoundsError);
            },
            Some(row) => {
                plan.push(row);
            },
        }
        i += 1;
    }
    proof {
        assert(rows(plan@) =~= blend_plan(mv));
    }
    Ok(plan)
}

/// Every corner of every triangle names one of `vertices` vertices.
pub open spec fn corners_in_range(triangles: Seq<Triangle>, vertices: int) -> bool {
    forall|i: int, c: int|
        0 <= i < triangles.len() && 0 <= c < 3 ==> #[trigger] corner(triangles[i], c) < vertices
}

/// The corners of every triangle as positions in the vertex list.
pub open spec fn corner_plan(triangles: Seq<Triangle>) -> Seq<(usize, usize, usize)> {
    Seq::new(
        triangles.len(),
        |i: int|
            (
                triangles[i].vertex_indices.0 as usize,
                triangles[i].vertex_indices.1 as usize,
                triangles[i].vertex_indices.2 as usize,
            ),
    )
}

/// For each triangle of `m`, the three vertices whose normals it adds to.
/// Fails with `BoundsError` exactly where a corner names a vertex at or
/// beyond `vertex_count`.
pub fn prepare_normals(m: &Mesh, vertex_count: usize) -> (r: Result<
    Vec<(usize, usize, usize)>,
    ComputeError,
>)
    ensures
        r is Ok <==> corners_in_range(m.triangles@, vertex_count as int),
        r matches Ok(plan) ==> plan@ == corner_plan(m.triangles@),
        r is Err ==> r == Err::<Vec<(usize, usize, usize)>, ComputeError>(
            ComputeError::BoundsError,
        ),
{
    let mut plan: Vec<(usize, usize, usize)> = Vec::new();
    let mut i: usize = 0;
    while i < m.triangles.len()
        invariant
            i <= m.triangles@.len(),
            plan@.len() == i,
            forall|j: int, c: int|
                0 <= j < i && 0 <= c < 3 ==> #[trigger] corner(m.triangles@[j], c) < vertex_count,
            forall|j: int| 0 <= j < i ==> #[trigger] plan@[j] == corner_plan(m.triangles@)[j],
        decreases m.triangles@.len() - i,
    {
        let (a, b, c) = m.triangles[i].vertex_indices;
        if a as u64 >= vertex_count as u64 || b as u64 >= vertex_count as u64 || c as u64
            >= vertex_count as u64 {
            proof {
                let t = m.triangles@[i as int];
                assert(corner(t, 0) == a && corner(t, 1) == b && corner(t, 2) == c);
            }
            return Err(ComputeError::BoundsError);
        }
        plan.push((a as usize, b as usize, c as usize));
        proof {
            let t = m.triangles@[i as int];
            assert(corner(t, 0) == a && corner(t, 1) == b && corner(t, 2) == c);
        }
        i += 1;
    }
    proof {
        assert(plan@ =~= corner_plan(m.triangles@));
    }
    Ok(plan)
}

/// Vertex `v` is a corner of one of the first `n` triangles.
pub open spec fn touched_within(triangles: Seq<Triangle>, n: int, v: int) -> bool {
    exists|i: int, c: int| 0 <= i < n && 0 <= c < 3 && #[trigger] corner(triangles[i], c) == v
}

/// Vertex `v` is a corner of a triangle.
pub open spec fn touched(triangles: Seq<Triangle>, v: int) -> bool {
    touched_within(triangles, triangles.len() as int, v)
}

/// For each of `vertex_count` vertices, whether a triangle of `m` has it
/// as a corner. The normal of a vertex that no triangle touches is the
/// zero vector and has no direction.
pub fn touched_vertices(m: &Mesh, vertex_count: usize) -> (r: Vec<bool>)
    ensures
        r@.len() == vertex_count,
        forall|v: int| 0 <= v < vertex_count ==> r@[v] == touched(m.triangles@, v),
{
    let mut out: Vec<bool> = Vec::new();
    while out.len() < vertex_count
        invariant
            out@.len() <= vertex_count,
            forall|v: int| 0 <= v < out@.len() ==> !out@[v],
        decreases vertex_count - out@.len(),
    {
        out.push(false);
    }
    let mut i: usize = 0;
    while i < m.triangles.len()
        invariant
            i <= m.triangles@.len(),
            out@.len() == vertex_count,
            forall|v: int| 0 <= v < vertex_count ==> out@[v] == touched_within(m.triangles@, i as int, v),
        decreases m.triangles@.len() - i,
    {
        let (a, b, c) = m.triangles[i].vertex_indices;
        let ghost before = out@;
        let ghost t = m.triangles@[i as int];
        if (a as usize) < vertex_count {
            out.set(a as usize, true);
        }
        if (b as usize) < vertex_count {
            out.set(b as usize, true);
        }
        if (c as usize) < vertex_count {
            out.set(c as usize, true);
        }
        proof {
            assert(corner(t, 0) == a && corner(t, 1) == b && corner(t, 2) == c);
            assert forall|v: int| 0 <= v < vertex_count implies out@[v] == touched_within(
                m.triangles@,
                i + 1,
                v,
            ) by {
                assert(out@[v] == (before[v] || v == a || v == b || v == c));
                if before[v] {
                    let (j, k) = choose|j: int, k: int|
                        0 <= j < i && 0 <= k < 3 && #[trigger] corner(m.triangles@[j], k) == v;
                    assert(0 <= j < i + 1 && 0 <= k < 3 && corner(m.triangles@[j], k) == v);
                }
                if touched_within(m.triangles@, i + 1, v) {
                    let (j, k) = choose|j: int, k: int|
                        0 <= j < i + 1 && 0 <= k < 3 && #[trigger] corner(m.triangles@[j], k) == v;
                    if j < i {
                        assert(touched_within(m.triangles@, i as int, v));
                    }
                }
            }
        }
        i += 1;
    }
    out
}

/// The number of vertices of the first `k` submeshes.
pub open spec fn vertex_total(meshes: Seq<MeshView>, k: int) -> int
    decreases k,
{
    if k <= 0 {
        0
    } else {
        vertex_total(meshes, k - 1) + meshes[k - 1].vertices.len()
    }
}

/// The indices of the first `k` submeshes in the merged buffer: those of
/// each submesh, moved up by the number of vertices before it.
pub open spec fn merged_indices(meshes: Seq<MeshView>, k: int) -> Seq<int>
    decreases k,
{
    if k <= 0 {
        Seq::empty()
    } else {
        merged_indices(meshes, k - 1) + shifted(
            flat_indices(meshes[k - 1].triangles),
            vertex_total(meshes, k - 1),
        )
    }
}

/// What stops submesh `m`, whose vertices come after `before` others.
pub open spec fn submesh_error(m: MeshView, joints: int, before: int) -> Option<ComputeError> {
    if !skinnable(m, joints) || !corners_in_range(m.triangles, m.vertices.len() as int) {
        Some(ComputeError::BoundsError)
    } else if !fits_narrow(flat_indices(m.triangles), before) {
        Some(ComputeError::IndexOverflow)
    } else {
        None
    }
}

/// What stops the first of the first `k` submeshes that is stopped.
pub open spec fn first_error(ms: Md5MeshView, k: int) -> Option<ComputeError>
    decreases k,
{
    if k <= 0 {
        None
    } else {
        match first_error(ms, k - 1) {
            Some(e) => Some(e),
            None => submesh_error(
                ms.meshes[k - 1],
                ms.joints.len() as int,
                vertex_total(ms.meshes, k - 1),
            ),
        }
    }
}

/// The plan of one submesh.
pub struct SubmeshPlan {
    /// For each vertex, the weights and joints that it is blended from.
    pub influences: Vec<Vec<Influence>>,
    /// For each triangle, the vertices whose normals it adds to.
    pub corners: Vec<(usize, usize, usize)>,
    /// For each vertex, whether a triangle touches it.
    pub touched: Vec<bool>,
}

impl SubmeshPlan {
    pub open spec fn plans(self, m: MeshView) -> bool {
        rows(self.influences@) == blend_plan(m) && self.corners@ == corner_plan(m.triangles)
            && self.touched@.len() == m.vertices.len() && forall|v: int|
            0 <= v < m.vertices.len() ==> self.touched@[v] == touched(m.triangles, v)
    }
}

/// The plan of a whole document: one plan per submesh, in the order of
/// the document, and the index list of the merged buffer.
pub struct FullPlan {
    pub submeshes: Vec<SubmeshPlan>,
    pub indices: Vec<u16>,
}

/// In the merged index list, index `i` of submesh `k` stands after the
/// indices of the submeshes before it, and is the index that the submesh
/// has of its own plus the number of vertices of the submeshes before it.
pub proof fn lemma_merged_index(meshes: Seq<MeshView>, n: int, k: int, i: int)
    requires
        0 <= k < n <= meshes.len(),
        0 <= i < flat_indices(meshes[k].triangles).len(),
    ensures
        merged_indices(meshes, k).len() + i < merged_indices(meshes, n).len(),
        merged_indices(meshes, n)[merged_indices(meshes, k).len() + i] == flat_indices(
            meshes[k].triangles,
        )[i] + vertex_total(meshes, k),
    decreases n,
{
    if k < n - 1 {
        lemma_merged_index(meshes, n - 1, k, i);
    }
}

/// Where two submeshes are merged, every index of the second is the
/// index that the second has of its own plus the vertex count of the
/// first.
pub proof fn lemma_second_submesh_index(meshes: Seq<MeshView>, i: int)
    requires
        meshes.len() == 2,
        0 <= i < flat_indices(meshes[1].triangles).len(),
    ensures
        merged_indices(meshes, 2).len() == flat_indices(meshes[0].triangles).len() + flat_indices(
            meshes[1].triangles,
        ).len(),
        merged_indices(meshes, 2)[flat_indices(meshes[0].triangles).len() + i] == flat_indices(
            meshes[1].triangles,
        )[i] + meshes[0].vertices.len(),
{
    lemma_merged_index(meshes, 2, 1, i);
    assert(vertex_total(meshes, 1) == vertex_total(meshes, 0) + meshes[0].vertices.len());
    assert(merged_indices(meshes, 1) == merged_indices(meshes, 0) + shifted(
        flat_indices(meshes[0].triangles),
        vertex_total(meshes, 0),
    ));
    assert(merged_indices(meshes, 0).len() == 0);
}

/// Once a submesh is stopped, the document is.
pub proof fn lemma_first_error_stays(ms: Md5MeshView, k: int, n: int)
    requires
        0 <= k <= n,
        first_error(ms, k) is Some,
    ensures
        first_error(ms, n) == first_error(ms, k),
    decreases n - k,
{
    if k < n {
        lemma_first_error_stays(ms, k + 1, n);
    }
}

/// Nothing stops the document exactly where nothing stops any of its
/// submeshes.
pub proof fn lemma_no_error(ms: Md5MeshView, n: int)
    requires
        0 <= n,
    ensures
        first_error(ms, n) is None <==> (forall|k: int|
            0 <= k < n ==> #[trigger] submesh_error(
                ms.meshes[k],
                ms.joints.len() as int,
                vertex_total(ms.meshes, k),
            ) is None),
    decreases n,
{
    if n > 0 {
        lemma_no_error(ms, n - 1);
    }
}

/// Plans every submesh and merges the index lists. Fails with the error
/// of the first submesh that is stopped: `BoundsError` where a weight
/// run, a joint or a corner is out of range, `IndexOverflow` where an
/// index of the merged buffer does not fit 16 bits.
pub fn prepare_full_mesh(ms: &Md5Mesh) -> (r: Result<FullPlan, ComputeError>)
    ensures
        match r {
            Ok(plan) => first_error(ms.deep_view(), ms.meshes@.len() as int) is None
                && plan.submeshes@.len() == ms.meshes@.len() && (forall|k: int|
                0 <= k < ms.meshes@.len() ==> (#[trigger] plan.submeshes@[k]).plans(
                    ms.deep_view().meshes[k],
                )) && widened(plan.indices@) == merged_indices(
                ms.deep_view().meshes,
                ms.meshes@.len() as int,
            ),
            Err(e) => first_error(ms.deep_view(), ms.meshes@.len() as int) == Some(e),
        },
{
    let ghost mv = ms.deep_view();
    let mut submeshes: Vec<SubmeshPlan> = Vec::new();
    let mut indices: Vec<u16> = Vec::new();
    let mut before: u32 = 0;
    let mut k: usize = 0;
    proof {
        assert(widened(indices@) =~= merged_indices(mv.meshes, 0));
    }
    while k < ms.meshes.len()
        invariant
            k <= ms.meshes@.len(),
            mv == ms.deep_view(),
            first_error(mv, k as int) is None,
            submeshes@.len() == k,
            forall|j: int| 0 <= j < k ==> (#[trigger] submeshes@[j]).plans(mv.meshes[j]),
            widened(indices@) == merged_indices(mv.meshes, k as int),
            before <= 0x1_0000,
            before < 0x1_0000 ==> before == vertex_total(mv.meshes, k as int),
            before == 0x1_0000 ==> vertex_total(mv.meshes, k as int) >= 0x1_0000,
        decreases ms.meshes@.len() - k,
    {
        let m = &ms.meshes[k];
        let ghost v = mv.meshes[k as int];
        let ghost total = vertex_total(mv.meshes, k as int);
        proof {
            assert(v == m.deep_view());
            assert(mv.joints.len() == ms.joints@.len());
            assert(v.triangles =~= m.triangles@);
            assert(v.vertices.len() == m.vertices@.len());
        }
        let influences = match prepare_mesh(m, &ms.joints) {
            Ok(p) => p,
            Err(e) => {
                proof {
                    lemma_first_error_stays(mv, k + 1, ms.meshes@.len() as int);
                }
                return Err(e);
            },
        };
        let corners = match prepare_normals(m, m.vertices.len()) {
            Ok(p) => p,
            Err(e) => {
                proof {
                    lemma_first_error_stays(mv, k + 1, ms.meshes@.len() as int);
                }
                return Err(e);
            },
        };
        proof {
            let flat = flat_indices(v.triangles);
            if before == 0x1_0000 {
                assert(fits_narrow(flat, before as int) == fits_narrow(flat, total)) by {
                    if flat.len() > 0 {
                        assert(flat[0] + before > u16::MAX);
                        assert(flat[0] + total > u16::MAX);
                    }
                }
            }
        }
        match append_indices(&mut indices, &m.triangles, before) {
            Ok(_) => {},
            Err(e) => {
                proof {
                    lemma_first_error_stays(mv, k + 1, ms.meshes@.len() as int);
                }
                return Err(e);
            },
        }
        proof {
            let flat = flat_indices(v.triangles);
            assert(shifted(flat, before as int) =~= shifted(flat, total)) by {
                if flat.len() > 0 {
                    assert(flat[0] + before <= u16::MAX);
                }
            }
        }
        let touched = touched_vertices(m, m.vertices.len());
        submeshes.push(SubmeshPlan { influences, corners, touched });
        let count = m.vertices.len();
        if count as u64 >= 0x1_0000 - before as u64 {
            before = 0x1_0000;
        } else {
            before = before + count as u32;
        }
        k += 1;
    }
    Ok(FullPlan { submeshes, indices })
}

} // verus!
