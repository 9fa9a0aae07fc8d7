use vstd::prelude::*;

pub mod compute;
pub mod instances;
pub mod material;
pub mod mesh;
pub mod nodes;
pub mod vertices;

pub use crate::compute::{SoftBodyCompute, SoftBodyComputePlugin, SoftBodyComputeUniform};
pub use crate::instances::{SoftBody2dInstanceData, SoftBodyInstancesPlugin};
pub use crate::material::{SoftBody2dMeshHandle, SoftBodyMaterial2dPlugin};
pub use crate::nodes::{SoftBodyNodes, SoftBodyNodesPlugin, MAX_INSTANCES, MAX_NODES};
pub use crate::vertices::{SoftBody2dVertexBuffer, SoftBodyVerticesPlugin};

verus! {

/// Plugin that registers the soft-body shader libraries.
pub struct SoftBodyPlugin;

} // verus!
