//! Triangle indices for mesh colliders.
//!
//! A generic collider is built from a child mesh's vertex and index
//! buffers. The vertex positions stay with the mesh subsystem; the
//! index buffer's grouping into triangles is plain integer work and
//! is done here: three consecutive indices make one triangle, and a
//! buffer whose length is not a multiple of three is malformed.

use vstd::prelude::*;

verus! {

/// Group a flat index buffer into triangles, three consecutive
/// indices each, in order; `None` exactly when the buffer cannot be
/// grouped evenly.
pub fn triangle_indices(indices: &Vec<u32>) -> (r: Option<Vec<(u32, u32, u32)>>)
    ensures
        match r {
            Some(tris) => {
                &&& indices@.len() % 3 == 0
                &&& tris@.len() == indices@.len() / 3
                &&& forall|k: int|
                    0 <= k < tris@.len() ==> #[trigger] tris@[k] == (
                        indices@[3 * k],
                        indices@[3 * k + 1],
                        indices@[3 * k + 2],
                    )
            },
            None => indices@.len() % 3 != 0,
        },
{
    let n = indices.len();
    if n % 3 != 0 {
        return None;
    }
    let mut tris: Vec<(u32, u32, u32)> = Vec::new();
    let mut i: usize = 0;
    while i < n
        invariant
            n == indices@.len(),
            n % 3 == 0,
            0 <= i <= n,
            i % 3 == 0,
            tris@.len() == i / 3,
            forall|k: int|
                0 <= k < tris@.len() ==> #[trigger] tris@[k] == (
                    indices@[3 * k],
                    indices@[3 * k + 1],
                    indices@[3 * k + 2],
                ),
        decreases n - i,
    {
        proof {
            assert(i + 3 <= n) by {
                assert(i as int % 3 == 0 && n as int % 3 == 0 && i < n);
            }
        }
        tris.push((indices[i], indices[i + 1], indices[i + 2]));
        i += 3;
    }
    Some(tris)
}

} // verus!
