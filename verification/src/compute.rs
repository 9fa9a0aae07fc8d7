use vstd::prelude::*;

verus! {

/// Registers the compute pass that shrink-wraps the soft-body vertices
/// around their nodes, for meshes with `N` vertices per instance.
#[derive(Default)]
pub struct SoftBodyComputePlugin<const N: usize>;

/// Smoothing passes the compute shader runs by default.
pub const DEFAULT_SMOOTH_STEPS: u32 = 2;

/// Uniform parameters handed to the compute shader.
#[derive(Clone, Copy, Debug, PartialEq, Eq, Structural)]
pub struct SoftBodyComputeUniform {
    pub smooth_steps: u32,
}

impl Default for SoftBodyComputeUniform {
    fn default() -> (uniform: Self)
        ensures
            uniform.smooth_steps == DEFAULT_SMOOTH_STEPS,
    {
        SoftBodyComputeUniform { smooth_steps: DEFAULT_SMOOTH_STEPS }
    }
}

/// State of the soft-body compute pass: the bound buffers (of handle type `H`)
/// and the number of instances that the next dispatch covers.
pub struct SoftBodyCompute<const N: usize, H> {
    num_vertices_per_instance: u32,
    uniforms: SoftBodyComputeUniform,
    vertices: H,
    nodes: H,
    instances: H,
    num_instances: u32,
}

/// What the compute pass holds, as plain values.
pub struct SoftBodyComputeView<H> {
    /// Vertices per instance as the shader sees them.
    pub num_vertices_per_instance: u32,
    pub uniforms: SoftBodyComputeUniform,
    pub vertices: H,
    pub nodes: H,
    pub instances: H,
    /// Number of soft-body instances, which sets the dispatched workgroup count.
    pub num_instances: u32,
}

impl<H> SoftBodyComputeView<H> {
    /// The same state with the instance counter set to `n`.
    pub open spec fn with_instances(self, n: u32) -> Self {
        SoftBodyComputeView { num_instances: n, ..self }
    }
}

impl<const N: usize, H> View for SoftBodyCompute<N, H> {
    type V = SoftBodyComputeView<H>;

    closed spec fn view(&self) -> SoftBodyComputeView<H> {
        SoftBodyComputeView {
            num_vertices_per_instance: self.num_vertices_per_instance,
            uniforms: self.uniforms,
            vertices: self.vertices,
            nodes: self.nodes,
            instances: self.instances,
            num_instances: self.num_instances,
        }
    }
}

impl<const N: usize, H> SoftBodyCompute<N, H> {
    /// The shader always sees `N` (as a `u32`) vertices per instance.
    #[verifier::type_invariant]
    spec fn vertices_match_n(&self) -> bool {
        self.num_vertices_per_instance == N as u32
    }

    /// Fresh compute state over the given buffers: `N` vertices per instance
    /// (as a `u32`), default uniforms, and no instances yet.
    pub fn new(vertices: H, nodes: H, instances: H) -> (compute: Self)
        ensures
            compute@.num_vertices_per_instance == N as u32,
            compute@.uniforms.smooth_steps == DEFAULT_SMOOTH_STEPS,
            compute@.vertices == vertices,
            compute@.nodes == nodes,
            compute@.instances == instances,
            compute@.num_instances == 0,
    {
        Self::from_parts(
            SoftBodyComputeUniform { smooth_steps: DEFAULT_SMOOTH_STEPS },
            vertices,
            nodes,
            instances,
            0,
        )
    }

    /// Compute state over the given parts; the vertices per instance are
    /// always `N` (as a `u32`).
    pub fn from_parts(
        uniforms: SoftBodyComputeUniform,
        vertices: H,
        nodes: H,
        instances: H,
        num_instances: u32,
    ) -> (compute: Self)
        ensures
            compute@ == (SoftBodyComputeView {
                num_vertices_per_instance: N as u32,
                uniforms,
                vertices,
                nodes,
                instances,
                num_instances,
            }),
    {
        SoftBodyCompute {
            num_vertices_per_instance: N as u32,
            uniforms,
            vertices,
            nodes,
            instances,
            num_instances,
        }
    }

    /// Vertices per instance as the shader sees them: always `N` (as a `u32`).
    pub fn num_vertices_per_instance(&self) -> (n: u32)
        ensures
            n == self@.num_vertices_per_instance,
            n == N as u32,
    {
        proof {
            use_type_invariant(self);
        }
        self.num_vertices_per_instance
    }

    pub fn uniforms(&self) -> (uniforms: SoftBodyComputeUniform)
        ensures
            uniforms == self@.uniforms,
    {
        self.uniforms
    }

    pub fn vertices(&self) -> (vertices: &H)
        ensures
            *vertices == self@.vertices,
    {
        &self.vertices
    }

    pub fn nodes(&self) -> (nodes: &H)
        ensures
            *nodes == self@.nodes,
    {
        &self.nodes
    }

    pub fn instances(&self) -> (instances: &H)
        ensures
            *instances == self@.instances,
    {
        &self.instances
    }

    /// Number of instances that the next dispatch covers.
    pub fn num_instances(&self) -> (n: u32)
        ensures
            n == self@.num_instances,
    {
        self.num_instances
    }

    /// Sets the number of instances that the next dispatch covers.
    pub fn set_num_instances(&mut self, n: u32)
        ensures
            final(self)@ == old(self)@.with_instances(n),
    {
        proof {
            use_type_invariant(&*self);
        }
        self.num_instances = n;
    }

    /// Counts one more instance and returns the new count.
    pub fn add_instance(&mut self) -> (count: u32)
        requires
            old(self)@.num_instances < u32::MAX,
        ensures
            count == old(self)@.num_instances + 1,
            final(self)@ == old(self)@.with_instances(count),
    {
        proof {
            use_type_invariant(&*self);
        }
        self.num_instances = self.num_instances + 1;
        self.num_instances
    }

    /// Counts one instance less and returns the new count.
    pub fn remove_instance(&mut self) -> (count: u32)
        requires
            old(self)@.num_instances > 0,
        ensures
            count == old(self)@.num_instances - 1,
            final(self)@ == old(self)@.with_instances(count),
    {
        proof {
            use_type_invariant(&*self);
        }
        self.num_instances = self.num_instances - 1;
        self.num_instances
    }

    /// Size of one workgroup: one invocation per vertex of an instance.
    pub fn workgroup_size() -> (size: (u32, u32, u32))
        ensures
            size == (N as u32, 1u32, 1u32),
    {
        (N as u32, 1, 1)
    }

    /// Workgroups dispatched: one per instance.
    pub fn workgroup_count(&self) -> (count: (u32, u32, u32))
        ensures
            count == (1u32, self@.num_instances, 1u32),
    {
        (1, self.num_instances, 1)
    }
}

/// Setting the instance counter sets it to exactly that value and leaves
/// everything else as it was.
pub proof fn lemma_with_instances_sets_only_count<H>(compute: SoftBodyComputeView<H>, n: u32)
    ensures
        compute.with_instances(n).num_instances == n,
        compute.with_instances(n).num_vertices_per_instance == compute.num_vertices_per_instance,
        compute.with_instances(n).uniforms == compute.uniforms,
        compute.with_instances(n).vertices == compute.vertices,
        compute.with_instances(n).nodes == compute.nodes,
        compute.with_instances(n).instances == compute.instances,
{
}

/// Removing an instance undoes adding one.
pub proof fn lemma_remove_undoes_add<H>(compute: SoftBodyComputeView<H>)
    requires
        compute.num_instances < u32::MAX,
    ensures
        compute.with_instances((compute.num_instances + 1) as u32).with_instances(
            compute.num_instances,
        ) == compute,
{
}

/// Adding an instance undoes removing one.
pub proof fn lemma_add_undoes_remove<H>(compute: SoftBodyComputeView<H>)
    requires
        compute.num_instances > 0,
    ensures
        compute.with_instances((compute.num_instances - 1) as u32).with_instances(
            compute.num_instances,
        ) == compute,
{
}

} // verus!
