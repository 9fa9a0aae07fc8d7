use vstd::prelude::*;

use crate::compute::{SoftBodyCompute, SoftBodyComputeView};
use crate::instances::SoftBody2dInstanceData;
use crate::vertices::{
    buffer_bytes, resized_bytes, vertex_buffer_size, vertex_buffer_size_fits,
    SoftBody2dVertexBuffer,
};

verus! {

/// Registers the node buffers and the systems that keep them up to date.
#[derive(Default)]
pub struct SoftBodyNodesPlugin<const N: usize>;

/// Capacity of the packed node buffer.
pub const MAX_NODES: usize = 1024;

/// Capacity of the per-instance buffer.
pub const MAX_INSTANCES: usize = 256;

/// The node entities (of type `E`) around which one soft body is wrapped.
pub struct SoftBodyNodes<const N: usize, E>(pub Vec<E>);

/// The nodes of one soft body that could be looked up, in order.
pub open spec fn resolved_nodes<T>(lookups: Seq<Option<T>>) -> Seq<T>
    decreases lookups.len(),
{
    if lookups.len() == 0 {
        Seq::empty()
    } else {
        match lookups.last() {
            Some(node) => resolved_nodes(lookups.drop_last()).push(node),
            None => resolved_nodes(lookups.drop_last()),
        }
    }
}

/// The lookups of every soft body, as sequences.
pub open spec fn lookups_view<T>(bodies: Seq<Vec<Option<T>>>) -> Seq<Seq<Option<T>>> {
    bodies.map_values(|body: Vec<Option<T>>| body@)
}

/// The node buffer: the resolved nodes of every soft body, one body after the other.
pub open spec fn packed_nodes<T>(bodies: Seq<Seq<Option<T>>>) -> Seq<T>
    decreases bodies.len(),
{
    if bodies.len() == 0 {
        Seq::empty()
    } else {
        packed_nodes(bodies.drop_last()) + resolved_nodes(bodies.last())
    }
}

/// The entry of soft body `i` in the instance buffer: its nodes start after
/// those of the bodies before it.
pub open spec fn instance_entry<T>(bodies: Seq<Seq<Option<T>>>, i: int) -> SoftBody2dInstanceData {
    SoftBody2dInstanceData {
        node_offset: packed_nodes(bodies.take(i)).len() as u32,
        node_length: resolved_nodes(bodies[i]).len() as u32,
    }
}

/// The instance buffer: one entry per soft body.
pub open spec fn packed_instances<T>(bodies: Seq<Seq<Option<T>>>) -> Seq<SoftBody2dInstanceData> {
    Seq::new(bodies.len(), |i: int| instance_entry(bodies, i))
}

/// The bodies and their resolved nodes fit the fixed-size buffers.
pub open spec fn fits_buffers<T>(bodies: Seq<Seq<Option<T>>>) -> bool {
    &&& bodies.len() <= MAX_INSTANCES
    &&& packed_nodes(bodies).len() <= MAX_NODES
}

proof fn lemma_resolved_prefix<T>(lookups: Seq<Option<T>>, j: int)
    requires
        0 <= j <= lookups.len(),
    ensures
        resolved_nodes(lookups.take(j)).len() <= resolved_nodes(lookups).len(),
    decreases lookups.len(),
{
    if j < lookups.len() {
        let rest = lookups.drop_last();
        assert(rest.take(j) =~= lookups.take(j));
        lemma_resolved_prefix(rest, j);
    } else {
        assert(lookups.take(j) =~= lookups);
    }
}

/// The nodes packed for the first `j` bodies are a prefix of those packed for all.
proof fn lemma_packed_prefix<T>(bodies: Seq<Seq<Option<T>>>, j: int)
    requires
        0 <= j <= bodies.len(),
    ensures
        packed_nodes(bodies.take(j)).len() <= packed_nodes(bodies).len(),
        packed_nodes(bodies).take(packed_nodes(bodies.take(j)).len() as int) =~= packed_nodes(
            bodies.take(j),
        ),
    decreases bodies.len(),
{
    if j < bodies.len() {
        let k = (bodies.len() - 1) as int;
        let rest = bodies.drop_last();
        assert(rest.take(j) =~= bodies.take(j));
        assert(bodies.take(k) =~= rest);
        assert(bodies.take(k + 1) =~= bodies);
        lemma_packed_prefix(rest, j);
    } else {
        assert(bodies.take(j) =~= bodies);
    }
}


/// Packing the first `i + 1` bodies appends the resolved nodes of body `i`
/// to the packing of the first `i` bodies.
proof fn lemma_packed_take_succ<T>(bodies: Seq<Seq<Option<T>>>, i: int)
    requires
        0 <= i < bodies.len(),
    ensures
        packed_nodes(bodies.take(i + 1)) == packed_nodes(bodies.take(i)) + resolved_nodes(bodies[i]),
{
    assert(bodies.take(i + 1).drop_last() =~= bodies.take(i));
}

/// The instance entries tile the node buffer: the first starts at 0, each
/// starts where the one before it ends, and the last ends at the end of the
/// node buffer.
pub proof fn lemma_instances_tile_nodes<T>(bodies: Seq<Seq<Option<T>>>)
    requires
        fits_buffers(bodies),
    ensures
        packed_instances(bodies).len() == bodies.len(),
        bodies.len() > 0 ==> packed_instances(bodies)[0].node_offset == 0,
        forall|i: int|
            0 <= i < bodies.len() - 1 ==> #[trigger] packed_instances(bodies)[i].node_offset
                + packed_instances(bodies)[i].node_length == packed_instances(bodies)[i
                + 1].node_offset,
        bodies.len() > 0 ==> packed_instances(bodies)[bodies.len() - 1].node_offset
            + packed_instances(bodies)[bodies.len() - 1].node_length == packed_nodes(bodies).len(),
{
    let insts = packed_instances(bodies);
    if bodies.len() > 0 {
        assert(bodies.take(0) =~= Seq::<Seq<Option<T>>>::empty());
    }
    assert forall|i: int| 0 <= i < bodies.len() implies #[trigger] insts[i].node_offset
        + insts[i].node_length == packed_nodes(bodies.take(i + 1)).len() by {
        lemma_packed_take_succ(bodies, i);
        lemma_packed_prefix(bodies, i + 1);
        lemma_packed_prefix(bodies, i);
    }
    if bodies.len() > 0 {
        assert(bodies.take(bodies.len() as int) =~= bodies);
    }
    assert forall|i: int| 0 <= i < bodies.len() - 1 implies #[trigger] insts[i].node_offset
        + insts[i].node_length == insts[i + 1].node_offset by {
        lemma_packed_prefix(bodies, i + 1);
        assert(insts[i].node_offset + insts[i].node_length == packed_nodes(bodies.take(i + 1)).len());
    }
}

/// The nodes that instance `i` reads from the node buffer are exactly the
/// resolved nodes of soft body `i`, in their order.
pub proof fn lemma_instance_reads_its_nodes<T>(bodies: Seq<Seq<Option<T>>>, i: int)
    requires
        fits_buffers(bodies),
        0 <= i < bodies.len(),
    ensures
        packed_nodes(bodies).subrange(
            packed_instances(bodies)[i].node_offset as int,
            packed_instances(bodies)[i].node_offset + packed_instances(bodies)[i].node_length,
        ) == resolved_nodes(bodies[i]),
{
    lemma_packed_take_succ(bodies, i);
    lemma_packed_prefix(bodies, i + 1);
    let before = packed_nodes(bodies.take(i));
    let upto = packed_nodes(bodies.take(i + 1));
    let all = packed_nodes(bodies);
    assert(all.subrange(before.len() as int, upto.len() as int) =~= resolved_nodes(bodies[i])) by {
        assert forall|k: int| 0 <= k < resolved_nodes(bodies[i]).len() implies all[before.len()
            + k] == resolved_nodes(bodies[i])[k] by {
            assert(all.take(upto.len() as int)[before.len() + k] == upto[before.len() + k]);
        }
    }
}

/// Resolving a body's lookups keeps exactly the nodes that were found, in
/// order: nothing from no lookups, one more node for each found lookup, and
/// nothing for a missing one.
pub proof fn lemma_resolved_nodes_steps<T>(lookups: Seq<Option<T>>, node: T)
    ensures
        resolved_nodes(Seq::<Option<T>>::empty()) == Seq::<T>::empty(),
        resolved_nodes(lookups.push(Some(node))) == resolved_nodes(lookups).push(node),
        resolved_nodes(lookups.push(None)) == resolved_nodes(lookups),
{
    assert(lookups.push(Some(node)).drop_last() =~= lookups);
    assert(lookups.push(None::<T>).drop_last() =~= lookups);
}

/// Resolving a body's lookups is dropping every missing lookup and
/// unwrapping the others.
pub proof fn lemma_resolved_nodes_drops_missing<T>(lookups: Seq<Option<T>>)
    ensures
        resolved_nodes(lookups) == lookups.filter_map(|lookup: Option<T>| lookup),
    decreases lookups.len(),
{
    if lookups.len() > 0 {
        lemma_resolved_nodes_drops_missing(lookups.drop_last());
        assert(resolved_nodes(lookups) =~= lookups.filter_map(|lookup: Option<T>| lookup));
    }
}

/// When every node of a body is found, all of them are kept, in order.
pub proof fn lemma_all_found_all_kept<T>(lookups: Seq<Option<T>>)
    requires
        forall|k: int| 0 <= k < lookups.len() ==> #[trigger] lookups[k] is Some,
    ensures
        resolved_nodes(lookups).len() == lookups.len(),
        forall|k: int|
            0 <= k < lookups.len() ==> #[trigger] resolved_nodes(lookups)[k] == lookups[k]->0,
    decreases lookups.len(),
{
    if lookups.len() > 0 {
        let rest = lookups.drop_last();
        assert forall|k: int| 0 <= k < rest.len() implies #[trigger] rest[k] is Some by {
            assert(rest[k] == lookups[k]);
        }
        lemma_all_found_all_kept(rest);
        assert(lookups[lookups.len() - 1] is Some);
    }
}

/// The node buffer holds the kept nodes of each body after those of the
/// bodies before it, and nothing else.
pub proof fn lemma_packed_nodes_steps<T>(bodies: Seq<Seq<Option<T>>>, body: Seq<Option<T>>)
    ensures
        packed_nodes(Seq::<Seq<Option<T>>>::empty()) == Seq::<T>::empty(),
        packed_nodes(bodies.push(body)) == packed_nodes(bodies) + resolved_nodes(body),
{
    assert(bodies.push(body).drop_last() =~= bodies);
}

/// The compute state and mesh tags after `m` spawn hooks, one after the
/// other: each tags the new soft body with the count before it and counts it.
pub open spec fn spawns<H>(compute: SoftBodyComputeView<H>, m: nat) -> (
    SoftBodyComputeView<H>,
    Seq<u32>,
)
    decreases m,
{
    if m == 0 {
        (compute, Seq::empty())
    } else {
        let (before, tags) = spawns(compute, (m - 1) as nat);
        (before.with_instances((before.num_instances + 1) as u32), tags.push(before.num_instances))
    }
}

/// From no instances, `m` spawns tag the soft bodies 0 to `m - 1` in order
/// and leave `m` instances.
pub proof fn lemma_successive_spawns<H>(compute: SoftBodyComputeView<H>, m: nat)
    requires
        compute.num_instances == 0,
        m <= u32::MAX,
    ensures
        spawns(compute, m).0 == compute.with_instances(m as u32),
        spawns(compute, m).1 == Seq::new(m, |i: int| i as u32),
    decreases m,
{
    if m > 0 {
        lemma_successive_spawns(compute, (m - 1) as nat);
        assert(spawns(compute, m).1 =~= Seq::new(m, |i: int| i as u32));
    }
}

/// A spawn followed by a despawn leaves the count and the vertex bytes as
/// they were, when the bytes held exactly the instances counted before.
pub proof fn lemma_spawn_then_despawn_restores<H>(
    compute: SoftBodyComputeView<H>,
    vertex_data: Option<Seq<u8>>,
    element_size: nat,
    n: nat,
)
    requires
        compute.num_instances < u32::MAX,
        vertex_data is Some ==> vertex_data->0.len() == vertex_buffer_size(
            element_size,
            compute.num_instances as nat,
            n,
        ),
    ensures
        compute.with_instances((compute.num_instances + 1) as u32).with_instances(
            compute.num_instances,
        ) == compute,
        resized_bytes(
            resized_bytes(
                vertex_data,
                vertex_buffer_size(element_size, (compute.num_instances + 1) as nat, n),
            ),
            vertex_buffer_size(element_size, compute.num_instances as nat, n),
        ) == vertex_data,
{
    crate::vertices::lemma_grow_then_shrink_restores(
        vertex_data,
        element_size,
        compute.num_instances as nat,
        n,
    );
}

impl<const N: usize, E> SoftBodyNodes<N, E> {
    /// A soft body was spawned: count it, resize the vertex bytes (where
    /// there are any) to `N` vertices of `element_size` bytes for every
    /// instance, and return its mesh tag, the index of the new instance.
    pub fn on_add<H>(
        compute: &mut SoftBodyCompute<N, H>,
        element_size: usize,
        vertex_data: &mut Option<Vec<u8>>,
    ) -> (tag: u32)
        requires
            old(compute)@.num_instances < u32::MAX,
            vertex_buffer_size_fits(
                element_size as nat,
                (old(compute)@.num_instances + 1) as nat,
                N as nat,
            ),
        ensures
            tag == old(compute)@.num_instances,
            final(compute)@ == old(compute)@.with_instances((tag + 1) as u32),
            buffer_bytes(*final(vertex_data)) == resized_bytes(
                buffer_bytes(*old(vertex_data)),
                vertex_buffer_size(element_size as nat, (tag + 1) as nat, N as nat),
            ),
    {
        let num_instances = compute.add_instance();
        SoftBody2dVertexBuffer::<N, H>::resize_buffer(element_size, num_instances, vertex_data);
        num_instances - 1
    }

    /// A soft body was despawned: count it out, resize the vertex bytes (where
    /// there are any) to the remaining instances, and return how many remain.
    pub fn on_remove<H>(
        compute: &mut SoftBodyCompute<N, H>,
        element_size: usize,
        vertex_data: &mut Option<Vec<u8>>,
    ) -> (count: u32)
        requires
            old(compute)@.num_instances > 0,
            vertex_buffer_size_fits(
                element_size as nat,
                (old(compute)@.num_instances - 1) as nat,
                N as nat,
            ),
        ensures
            count == old(compute)@.num_instances - 1,
            final(compute)@ == old(compute)@.with_instances(count),
            buffer_bytes(*final(vertex_data)) == resized_bytes(
                buffer_bytes(*old(vertex_data)),
                vertex_buffer_size(element_size as nat, count as nat, N as nat),
            ),
    {
        let num_instances = compute.remove_instance();
        SoftBody2dVertexBuffer::<N, H>::resize_buffer(element_size, num_instances, vertex_data);
        num_instances
    }

    /// Packs the node buffer and the instance buffer from the node lookups of
    /// every soft body (`None` where a node could not be found), and sets the
    /// instance count of the compute pass.
    pub fn update_buffers<H, T: Copy>(
        compute: &mut SoftBodyCompute<N, H>,
        bodies: &Vec<Vec<Option<T>>>,
    ) -> (buffers: (Vec<T>, Vec<SoftBody2dInstanceData>))
        requires
            fits_buffers(lookups_view(bodies@)),
        ensures
            buffers.0@ == packed_nodes(lookups_view(bodies@)),
            buffers.1@ == packed_instances(lookups_view(bodies@)),
            final(compute)@ == old(compute)@.with_instances(bodies.len() as u32),
            final(compute)@.num_instances == buffers.1.len(),
    {
        let ghost all = lookups_view(bodies@);
        let mut nodes: Vec<T> = Vec::new();
        let mut instances: Vec<SoftBody2dInstanceData> = Vec::new();
        let mut instance_i: usize = 0;
        while instance_i < bodies.len()
            invariant
                all == lookups_view(bodies@),
                fits_buffers(all),
                instance_i <= bodies.len(),
                nodes@ == packed_nodes(all.take(instance_i as int)),
                instances@ == packed_instances(all).take(instance_i as int),
            decreases bodies.len() - instance_i,
        {
            let body = &bodies[instance_i];
            let ghost before = nodes@;
            proof {
                assert(all[instance_i as int] == body@);
                lemma_packed_prefix(all, instance_i + 1);
                assert(all.take(instance_i + 1).drop_last() =~= all.take(instance_i as int));
            }
            let node_offset = nodes.len();
            let mut j: usize = 0;
            while j < body.len()
                invariant
                    all == lookups_view(bodies@),
                    fits_buffers(all),
                    instance_i < bodies.len(),
                    all[instance_i as int] == body@,
                    j <= body.len(),
                    before == packed_nodes(all.take(instance_i as int)),
                    node_offset == before.len(),
                    nodes@ == before + resolved_nodes(body@.take(j as int)),
                    packed_nodes(all.take(instance_i + 1)) == before + resolved_nodes(body@),
                    packed_nodes(all.take(instance_i + 1)).len() <= packed_nodes(all).len(),
                decreases body.len() - j,
            {
                proof {
                    assert(body@.take(j + 1).drop_last() =~= body@.take(j as int));
                    lemma_resolved_prefix(body@, j + 1);
                }
                match &body[j] {
                    Some(node) => {
                        nodes.push(*node);
                    },
                    None => {},
                }
                j = j + 1;
            }
            proof {
                assert(body@.take(j as int) =~= body@);
            }
            let entry = SoftBody2dInstanceData {
                node_offset: node_offset as u32,
                node_length: (nodes.len() - node_offset) as u32,
            };
            instances.push(entry);
            instance_i = instance_i + 1;
            proof {
                assert(instances@ =~= packed_instances(all).take(instance_i as int));
            }
        }
        proof {
            assert(all.take(bodies.len() as int) =~= all);
            assert(instances@ =~= packed_instances(all));
        }
        compute.set_num_instances(instance_i as u32);
        (nodes, instances)
    }
}

} // verus!
