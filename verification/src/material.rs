use vstd::prelude::*;

use crate::compute::SoftBodyComputeView;
use crate::mesh::vertex_ids;

verus! {

/// Registers the soft-body material, its buffers and compute pass for meshes
/// with `N` vertices per instance.
#[derive(Default)]
pub struct SoftBodyMaterial2dPlugin<const N: usize>;

/// The shared circle mesh (behind a handle of type `H`) that every soft body
/// with `N` vertices per instance is drawn with.
pub struct SoftBody2dMeshHandle<const N: usize, H>(pub H);

impl<const N: usize, H> SoftBody2dMeshHandle<N, H> {
    /// Sides of the circle n-gon: the center plus the perimeter give `N` vertices.
    pub fn circle_sides() -> (sides: usize)
        requires
            N >= 1,
        ensures
            sides == N - 1,
    {
        N - 1
    }
}

/// Vertices per instance that the soft-body material passes to its shader:
/// `N` (as a `u32`), as the compute pass does.
pub fn material_vertices_per_instance<const N: usize>() -> (n: u32)
    ensures
        n == N as u32,
{
    N as u32
}

/// The shared mesh has exactly as many vertices, each tagged with its own
/// soft-body index, as the compute pass writes for every instance.
pub proof fn lemma_mesh_vertices_match_compute<const N: usize, H>(compute: SoftBodyComputeView<H>)
    requires
        1 <= N <= u32::MAX,
        compute.num_vertices_per_instance == N as u32,
    ensures
        vertex_ids((N - 1) as nat).len() == compute.num_vertices_per_instance,
        forall|k: int|
            0 <= k < compute.num_vertices_per_instance ==> #[trigger] vertex_ids((N - 1) as nat)[k]
                == k,
{
}

} // verus!
