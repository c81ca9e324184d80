use vkawaii::models::spring_bone_parser::{joint_slot, triangle_index_buffer};
use vkawaii::models::vrm_loader::{mesh_index_buffer, mesh_skin_index};
use vkawaii::physics::spring_bones::self_collision_pairs;
use vkawaii::rendering::skinning::hierarchy_walk;

#[test]
fn index_buffer_cuts_read_indices_to_16_bits() {
    assert_eq!(mesh_index_buffer(Some(vec![0, 1, 2, 65535, 65536, 70000]), 3), vec![0, 1, 2, 65535, 0, 4464]);
    assert!(mesh_index_buffer(Some(vec![]), 10).is_empty());
}

#[test]
fn index_buffer_without_indices_counts_vertices() {
    assert_eq!(mesh_index_buffer(None, 4), vec![0, 1, 2, 3]);
    assert!(mesh_index_buffer(None, 0).is_empty());
    assert_eq!(mesh_index_buffer(None, 65537), vec![0]);
    assert_eq!(mesh_index_buffer(None, 65536).len(), 0);
}

#[test]
fn mesh_skin_comes_from_first_drawing_node() {
    let nodes = vec![(None, Some(5)), (Some(2), None), (Some(1), Some(3)), (Some(1), Some(4))];
    assert_eq!(mesh_skin_index(&nodes, 1), 3);
    assert_eq!(mesh_skin_index(&nodes, 2), 0);
    assert_eq!(mesh_skin_index(&nodes, 7), 0);
    assert_eq!(mesh_skin_index(&vec![], 0), 0);
}

#[test]
fn joint_slots_are_first_positions() {
    let joints = vec![4, 9, 2, 9];
    assert_eq!(joint_slot(&joints, 9), Some(1));
    assert_eq!(joint_slot(&joints, 4), Some(0));
    assert_eq!(joint_slot(&joints, 3), None);
    assert_eq!(joint_slot(&vec![], 0), None);
}

#[test]
fn triangle_buffers_flatten_in_order() {
    let tris = vec![[0u32, 1, 2], [2, 65537, 3]];
    assert_eq!(triangle_index_buffer(&tris), vec![0, 1, 2, 2, 1, 3]);
    assert!(triangle_index_buffer(&vec![]).is_empty());
}

#[test]
fn self_collision_skips_own_chain_and_excluded() {
    let groups = vec![0, 0, 1, 2, 1];
    let excluded = vec![false, false, false, true, false];
    assert_eq!(
        self_collision_pairs(&groups, &excluded),
        vec![(0, 2), (0, 4), (1, 2), (1, 4)]
    );
    assert!(self_collision_pairs(&vec![3, 3, 3], &vec![false, false, false]).is_empty());
    assert!(self_collision_pairs(&vec![], &vec![]).is_empty());
    assert_eq!(self_collision_pairs(&vec![0, 1, 2], &vec![false, false, false]), vec![(0, 1), (0, 2), (1, 2)]);
}

#[test]
fn hierarchy_walk_is_depth_first_from_each_root() {
    // 0 -> [1, 2], 1 -> [3], 2 -> [], 3 -> [], 4 -> [0]
    let children = vec![vec![1, 2], vec![3], vec![], vec![], vec![0]];
    assert_eq!(
        hierarchy_walk(&children, &vec![0]),
        vec![(0, None), (1, Some(0)), (3, Some(1)), (2, Some(0))]
    );
    assert_eq!(
        hierarchy_walk(&children, &vec![4, 2]),
        vec![(4, None), (0, Some(4)), (1, Some(0)), (3, Some(1)), (2, Some(0)), (2, None)]
    );
    assert!(hierarchy_walk(&children, &vec![]).is_empty());
}

#[test]
fn hierarchy_walk_skips_missing_nodes() {
    let children = vec![vec![7, 1], vec![]];
    assert_eq!(hierarchy_walk(&children, &vec![9, 0]), vec![(0, None), (1, Some(0))]);
}

#[test]
fn hierarchy_walk_stops_on_cycles() {
    let children = vec![vec![1], vec![0]];
    assert_eq!(hierarchy_walk(&children, &vec![0]), vec![(0, None), (1, Some(0))]);
}
