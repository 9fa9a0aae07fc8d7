use vstd::prelude::*;

verus! {

/// Registers the per-instance buffer for meshes with `N` vertices per instance.
#[derive(Default)]
pub struct SoftBodyInstancesPlugin<const N: usize>;

/// Where one soft-body instance finds its nodes in the packed node buffer:
/// `node_length` entries starting at `node_offset`.
#[derive(Default, Copy, Clone, Debug, PartialEq, Eq, Structural)]
pub struct SoftBody2dInstanceData {
    pub node_offset: u32,
    pub node_length: u32,
}

} // verus!
