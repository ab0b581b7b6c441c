//! Flattening of triangles into a list of 16-bit indices.
use crate::error::ComputeError;
use crate::md5::md5mesh::{Mesh, Triangle};
use vstd::prelude::*;

verus! {

/// Corner `c` of a triangle, for `c` in 0, 1, 2.
pub open spec fn corner(t: Triangle, c: int) -> int {
    if c == 0 {
        t.vertex_indices.0 as int
    } else if c == 1 {
        t.vertex_indices.1 as int
    } else {
        t.vertex_indices.2 as int
    }
}

/// The corners of all triangles, three per triangle, in the order of the
/// list.
pub open spec fn flat_indices(triangles: Seq<Triangle>) -> Seq<int> {
    Seq::new(3 * triangles.len(), |i: int| corner(triangles[i / 3], i % 3))
}

/// Every index of `indices`, moved up by `by`, fits 16 bits.
pub open spec fn fits_narrow(indices: Seq<int>, by: int) -> bool {
    forall|i: int| 0 <= i < indices.len() ==> #[trigger] indices[i] + by <= u16::MAX
}

/// `indices`, each moved up by `by`.
pub open spec fn shifted(indices: Seq<int>, by: int) -> Seq<int> {
    Seq::new(indices.len(), |i: int| indices[i] + by)
}

/// The numbers that a list of 16-bit indices holds.
pub open spec fn widened(indices: Seq<u16>) -> Seq<int> {
    Seq::new(indices.len(), |i: int| indices[i] as int)
}

/// Appends to `out` the corners of `triangles`, each moved up by `by`.
/// Fails, and says nothing of `out`, where one does not fit 16 bits.
pub fn append_indices(out: &mut Vec<u16>, triangles: &Vec<Triangle>, by: u32) -> (r: Result<
    (),
    ComputeError,
>)
    ensures
        r is Ok <==> fits_narrow(flat_indices(triangles@), by as int),
        r is Ok ==> widened(final(out)@) == widened(old(out)@) + shifted(
            flat_indices(triangles@),
            by as int,
        ),
        r is Err ==> r == Err::<(), ComputeError>(ComputeError::IndexOverflow),
{
    let ghost start = widened(out@);
    let ghost flat = flat_indices(triangles@);
    let limit: u64 = 0xffff;
    let mut k: usize = 0;
    proof {
        assert(widened(out@) =~= start + shifted(flat, by as int).subrange(0, 0));
    }
    while k < triangles.len()
        invariant
            k <= triangles@.len(),
            limit == 0xffff,
            flat == flat_indices(triangles@),
            forall|i: int| 0 <= i < 3 * k ==> #[trigger] flat[i] + by <= u16::MAX,
            widened(out@) == start + shifted(flat, by as int).subrange(0, 3 * k),
        decreases triangles@.len() - k,
    {
        let t = triangles[k];
        let a: u64 = t.vertex_indices.0 as u64 + by as u64;
        let b: u64 = t.vertex_indices.1 as u64 + by as u64;
        let c: u64 = t.vertex_indices.2 as u64 + by as u64;
        proof {
            assert(flat[3 * k] == corner(triangles@[k as int], 0));
            assert(flat[3 * k + 1] == corner(triangles@[k as int], 1));
            assert(flat[3 * k + 2] == corner(triangles@[k as int], 2));
        }
        if a > limit || b > limit || c > limit {
            return Err(ComputeError::IndexOverflow);
        }
        let ghost before = widened(out@);
        out.push(a as u16);
        out.push(b as u16);
        out.push(c as u16);
        proof {
            let moved = shifted(flat, by as int);
            assert(widened(out@) =~= before.push(a as int).push(b as int).push(c as int));
            assert(moved.subrange(0, 3 * (k + 1)) =~= moved.subrange(0, 3 * k).push(
                a as int,
            ).push(b as int).push(c as int));
            assert(widened(out@) =~= start + moved.subrange(0, 3 * (k + 1)));
            assert forall|i: int| 0 <= i < 3 * (k + 1) implies #[trigger] flat[i] + by
                <= u16::MAX by {
                if i >= 3 * k {
                    assert(i == 3 * k || i == 3 * k + 1 || i == 3 * k + 2);
                }
            }
        }
        k += 1;
    }
    proof {
        let moved = shifted(flat, by as int);
        assert(moved.subrange(0, 3 * k) =~= moved);
    }
    Ok(())
}

/// The corners of the mesh's triangles as 16-bit indices, in the order
/// `(v0, v1, v2)` of each triangle. Fails with `IndexOverflow` exactly
/// where a corner does not fit 16 bits.
pub fn generate_indices(m: &Mesh) -> (r: Result<Vec<u16>, ComputeError>)
    ensures
        r is Ok <==> fits_narrow(flat_indices(m.triangles@), 0),
        r matches Ok(v) ==> widened(v@) == flat_indices(m.triangles@),
        r is Err ==> r == Err::<Vec<u16>, ComputeError>(ComputeError::IndexOverflow),
{
    let mut out: Vec<u16> = Vec::new();
    match append_indices(&mut out, &m.triangles, 0) {
        Err(e) => Err(e),
        Ok(_) => {
            proof {
                let flat = flat_indices(m.triangles@);
                assert(shifted(flat, 0) =~= flat);
                assert(Seq::<int>::empty() + flat =~= flat);
                assert(widened(Seq::<u16>::empty()) =~= Seq::<int>::empty());
            }
            Ok(out)
        },
    }
}

} // verus!
