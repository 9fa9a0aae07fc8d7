use bevy_softbody2d::compute::{SoftBodyCompute, SoftBodyComputeUniform, DEFAULT_SMOOTH_STEPS};
use bevy_softbody2d::instances::SoftBody2dInstanceData;
use bevy_softbody2d::material::{material_vertices_per_instance, SoftBody2dMeshHandle};
use bevy_softbody2d::mesh::{circle_ngon_triangle_indices, circle_ngon_vertex_ids};
use bevy_softbody2d::nodes::{SoftBodyNodes, MAX_INSTANCES, MAX_NODES};
use bevy_softbody2d::vertices::SoftBody2dVertexBuffer;

type Compute = SoftBodyCompute<32, u8>;
type Nodes = SoftBodyNodes<32, u64>;

fn entry(node_offset: u32, node_length: u32) -> SoftBody2dInstanceData {
    SoftBody2dInstanceData { node_offset, node_length }
}

#[test]
fn new_compute_starts_empty() {
    let compute = Compute::new(1, 2, 3);
    assert_eq!(compute.num_vertices_per_instance(), 32);
    assert_eq!(compute.uniforms().smooth_steps, 2);
    assert_eq!(compute.num_instances(), 0);
    assert_eq!((*compute.vertices(), *compute.nodes(), *compute.instances()), (1, 2, 3));
}

#[test]
fn default_uniform_smooths_twice() {
    let uniform = SoftBodyComputeUniform::default();
    assert_eq!(uniform.smooth_steps, 2);
    assert_eq!(DEFAULT_SMOOTH_STEPS, 2);
}

#[test]
fn add_and_remove_instances_count() {
    let mut compute = Compute::new(0, 0, 0);
    assert_eq!(compute.add_instance(), 1);
    assert_eq!(compute.add_instance(), 2);
    assert_eq!(compute.remove_instance(), 1);
    assert_eq!(compute.num_instances(), 1);
}

#[test]
fn remove_undoes_add() {
    let mut compute = Compute::new(0, 0, 0);
    compute.set_num_instances(7);
    compute.add_instance();
    compute.remove_instance();
    assert_eq!(compute.num_instances(), 7);
    compute.remove_instance();
    compute.add_instance();
    assert_eq!(compute.num_instances(), 7);
}

#[test]
fn workgroups_cover_vertices_and_instances() {
    assert_eq!(Compute::workgroup_size(), (32, 1, 1));
    assert_eq!(SoftBodyCompute::<64, u8>::workgroup_size(), (64, 1, 1));
    let mut compute = Compute::new(0, 0, 0);
    compute.set_num_instances(5);
    assert_eq!(compute.workgroup_count(), (1, 5, 1));
}

#[test]
fn on_add_tags_with_instance_index() {
    let mut compute = Compute::new(0, 0, 0);
    let mut data = Some(vec![]);
    assert_eq!(Nodes::on_add(&mut compute, 8, &mut data), 0);
    assert_eq!(Nodes::on_add(&mut compute, 8, &mut data), 1);
    assert_eq!(Nodes::on_add(&mut compute, 8, &mut data), 2);
    assert_eq!(compute.num_instances(), 3);
    assert_eq!(Nodes::on_remove(&mut compute, 8, &mut data), 2);
    assert_eq!(compute.num_instances(), 2);
}

#[test]
fn successive_spawns_tag_in_order() {
    let mut compute = Compute::new(0, 0, 0);
    let mut data: Option<Vec<u8>> = None;
    let tags: Vec<u32> = (0..10).map(|_| Nodes::on_add(&mut compute, 8, &mut data)).collect();
    assert_eq!(tags, (0..10).collect::<Vec<u32>>());
    assert_eq!(compute.num_instances(), 10);
    assert_eq!(data, None);
}

#[test]
fn spawn_and_despawn_resize_vertex_bytes() {
    let mut compute = Compute::new(0, 0, 0);
    let mut data = Some(vec![]);
    Nodes::on_add(&mut compute, 8, &mut data);
    assert_eq!(data.as_ref().unwrap().len(), 8 * 32);
    Nodes::on_add(&mut compute, 8, &mut data);
    assert_eq!(data.as_ref().unwrap().len(), 8 * 32 * 2);
    Nodes::on_remove(&mut compute, 8, &mut data);
    assert_eq!(data.as_ref().unwrap().len(), 8 * 32);
    assert!(data.unwrap().iter().all(|b| *b == 0));
}

#[test]
fn spawn_then_despawn_restores_bytes() {
    let mut compute = Compute::new(0, 0, 0);
    compute.set_num_instances(2);
    let original: Vec<u8> = (0..(8 * 32 * 2)).map(|i| (i % 251) as u8).collect();
    let mut data = Some(original.clone());
    let tag = Nodes::on_add(&mut compute, 8, &mut data);
    assert_eq!(tag, 2);
    assert_eq!(data.as_ref().unwrap().len(), 8 * 32 * 3);
    Nodes::on_remove(&mut compute, 8, &mut data);
    assert_eq!(compute.num_instances(), 2);
    assert_eq!(data, Some(original));
}

#[test]
fn update_buffers_packs_found_nodes() {
    let mut compute = Compute::new(0, 0, 0);
    compute.set_num_instances(9);
    let bodies: Vec<Vec<Option<u16>>> = vec![
        vec![Some(10), None, Some(11)],
        vec![],
        vec![None],
        vec![Some(12)],
    ];
    let (nodes, instances) = Nodes::update_buffers(&mut compute, &bodies);
    assert_eq!(nodes, vec![10, 11, 12]);
    assert_eq!(instances, vec![entry(0, 2), entry(2, 0), entry(2, 0), entry(2, 1)]);
    assert_eq!(compute.num_instances(), 4);
    assert_eq!(compute.workgroup_count(), (1, instances.len() as u32, 1));
}

#[test]
fn instance_ranges_tile_node_buffer() {
    let mut compute = Compute::new(0, 0, 0);
    let bodies: Vec<Vec<Option<u32>>> = vec![
        vec![Some(1), Some(2)],
        vec![None, Some(3), None, Some(4), Some(5)],
        vec![Some(6)],
    ];
    let (nodes, instances) = Nodes::update_buffers(&mut compute, &bodies);
    assert_eq!(instances[0].node_offset, 0);
    for i in 0..instances.len() - 1 {
        assert_eq!(
            instances[i].node_offset + instances[i].node_length,
            instances[i + 1].node_offset
        );
    }
    let last = instances[instances.len() - 1];
    assert_eq!((last.node_offset + last.node_length) as usize, nodes.len());
    for (i, body) in bodies.iter().enumerate() {
        let start = instances[i].node_offset as usize;
        let end = start + instances[i].node_length as usize;
        let found: Vec<u32> = body.iter().flatten().copied().collect();
        assert_eq!(nodes[start..end].to_vec(), found);
    }
}

#[test]
fn update_buffers_with_no_bodies() {
    let mut compute = Compute::new(0, 0, 0);
    compute.set_num_instances(3);
    let bodies: Vec<Vec<Option<u8>>> = vec![];
    let (nodes, instances) = Nodes::update_buffers(&mut compute, &bodies);
    assert!(nodes.is_empty());
    assert!(instances.is_empty());
    assert_eq!(compute.num_instances(), 0);
}

#[test]
fn update_buffers_fills_to_capacity() {
    let mut compute = Compute::new(0, 0, 0);
    let per_body = MAX_NODES / MAX_INSTANCES;
    let bodies: Vec<Vec<Option<u32>>> = (0..MAX_INSTANCES)
        .map(|b| (0..per_body).map(|k| Some((b * per_body + k) as u32)).collect())
        .collect();
    let (nodes, instances) = Nodes::update_buffers(&mut compute, &bodies);
    assert_eq!(nodes.len(), MAX_NODES);
    assert_eq!(nodes[MAX_NODES - 1], (MAX_NODES - 1) as u32);
    assert_eq!(instances.len(), MAX_INSTANCES);
    assert_eq!(instances[MAX_INSTANCES - 1], entry((MAX_NODES - per_body) as u32, per_body as u32));
    assert_eq!(compute.num_instances(), MAX_INSTANCES as u32);
}

#[test]
fn resize_grows_with_zeros() {
    let mut data = Some(vec![7u8, 7, 7]);
    SoftBody2dVertexBuffer::<3, u8>::resize_buffer(8, 2, &mut data);
    let bytes = data.unwrap();
    assert_eq!(bytes.len(), 48);
    assert_eq!(&bytes[..3], &[7, 7, 7]);
    assert!(bytes[3..].iter().all(|b| *b == 0));
}

#[test]
fn resize_shrinks() {
    let mut data = Some((0u8..100).collect::<Vec<u8>>());
    SoftBody2dVertexBuffer::<2, u8>::resize_buffer(8, 1, &mut data);
    assert_eq!(data, Some((0u8..16).collect::<Vec<u8>>()));
    SoftBody2dVertexBuffer::<2, u8>::resize_buffer(8, 0, &mut data);
    assert_eq!(data, Some(vec![]));
}

#[test]
fn resize_without_bytes_stays_empty() {
    let mut data: Option<Vec<u8>> = None;
    SoftBody2dVertexBuffer::<32, u8>::resize_buffer(8, 4, &mut data);
    assert_eq!(data, None);
}

#[test]
fn resize_after_add_holds_n_vertices_per_instance() {
    let mut compute = Compute::new(0, 0, 0);
    let mut data = Some(vec![]);
    let mut ignored: Option<Vec<u8>> = None;
    Nodes::on_add(&mut compute, 8, &mut ignored);
    Nodes::on_add(&mut compute, 8, &mut ignored);
    SoftBody2dVertexBuffer::<32, u8>::resize_buffer(8, compute.num_instances(), &mut data);
    assert_eq!(data.unwrap().len(), 8 * 32 * 2);
}

#[test]
fn square_fan_indices() {
    assert_eq!(
        circle_ngon_triangle_indices(4),
        vec![0, 1, 2, 0, 2, 3, 0, 3, 4, 0, 4, 1]
    );
}

#[test]
fn degenerate_fans() {
    assert_eq!(circle_ngon_triangle_indices(0), vec![0, 0, 1]);
    assert_eq!(circle_ngon_triangle_indices(1), vec![0, 1, 1]);
    assert_eq!(circle_ngon_triangle_indices(2), vec![0, 1, 2, 0, 2, 1]);
}

#[test]
fn fan_uses_existing_vertices_and_closes() {
    let n = 31;
    let indices = circle_ngon_triangle_indices(n);
    assert_eq!(indices.len(), 3 * n);
    assert!(indices.iter().all(|i| *i as usize <= n));
    for t in 0..n {
        assert_eq!(indices[3 * t], 0);
        let next = (t + 1) % n;
        assert_eq!(indices[3 * t + 2], indices[3 * next + 1]);
    }
}

#[test]
fn vertex_ids_number_every_vertex() {
    assert_eq!(circle_ngon_vertex_ids(3), vec![0, 1, 2, 3]);
    assert_eq!(circle_ngon_vertex_ids(0), vec![0]);
}

#[test]
fn mesh_matches_compute_vertex_count() {
    let sides = SoftBody2dMeshHandle::<32, u8>::circle_sides();
    assert_eq!(sides, 31);
    let compute = Compute::new(0, 0, 0);
    assert_eq!(circle_ngon_vertex_ids(sides).len(), compute.num_vertices_per_instance() as usize);
    assert_eq!(material_vertices_per_instance::<32>(), compute.num_vertices_per_instance());
    assert_eq!(SoftBody2dMeshHandle::<1, u8>::circle_sides(), 0);
}
