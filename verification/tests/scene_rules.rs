use vkawaii::events::Event;
use vkawaii::models::spring_bone_parser::{
    active_colliders, body_hull_role, excluded_by_default, hull_sample_stride, parent_index,
    uv_sphere_indices,
};
use vkawaii::rendering::armature_test::{
    find_armature_bones, find_bone, object_visibility, ArmatureBones, BoneRule, KeyToggle, VisibilityToggles,
};
use vkawaii::streaming::websocket_server::{websocket_step, WsFrame, WsStep};
use vkawaii::text::{chars_of, text_contains, text_starts_with, to_lowercase};
use vkawaii::ui::orbit_camera::{drag_mode, DragMode};

#[test]
fn text_search() {
    assert!(text_contains("J_Bip_C_Head", "Head"));
    assert!(!text_contains("J_Bip_C_Head", "head"));
    assert!(text_contains("abc", ""));
    assert!(text_contains("", ""));
    assert!(!text_contains("ab", "abc"));
    assert!(text_contains("aab", "ab"));
    assert!(text_starts_with("HullVis_12", "HullVis_"));
    assert!(!text_starts_with("BodyHullVis_12", "HullVis_"));
    assert_eq!(to_lowercase("J_Bip_L_Hand"), "j_bip_l_hand");
    assert_eq!(chars_of("héllo"), vec!['h', 'é', 'l', 'l', 'o']);
}

fn names(list: &[Option<&str>]) -> Vec<Option<String>> {
    list.iter().map(|n| n.map(|s| s.to_string())).collect()
}

#[test]
fn armature_bones_are_found_by_name() {
    let nodes = names(&[
        Some("Root"),
        None,
        Some("J_Bip_C_Spine"),
        Some("J_Bip_C_Chest"),
        Some("J_Bip_C_Head"),
        Some("HandL"),
        Some("Hand_Right"),
        Some("handle"),
    ]);
    assert_eq!(
        find_armature_bones(&nodes),
        ArmatureBones { head: Some(4), chest: Some(2), left_hand: Some(5), right_hand: Some(6) }
    );
    assert_eq!(find_bone(&nodes, BoneRule::Head), Some(4));
    assert_eq!(find_bone(&names(&[Some("Body"), None]), BoneRule::Chest), None);
}

#[test]
fn hand_rules_need_one_side_letter_only() {
    // "J_Bip_L_Hand" lowercases to "j_bip_l_hand", which holds no "r".
    let nodes = names(&[Some("J_Bip_R_Hand"), Some("J_Bip_L_Hand")]);
    let bones = find_armature_bones(&nodes);
    assert_eq!(bones.left_hand, Some(1));
    assert_eq!(bones.right_hand, Some(0));
    // "RightHandLower" holds both letters, so it is neither hand.
    assert_eq!(find_bone(&names(&[Some("RightHandLower")]), BoneRule::RightHand), None);
}

#[test]
fn scene_object_visibility() {
    let t = VisibilityToggles {
        show_hulls: true,
        show_meshes: false,
        show_body_hulls: true,
        show_spring_bone_hulls: false,
        show_spring_colliders: true,
    };
    assert_eq!(object_visibility("HullVis_3", &t), Some(false));
    assert_eq!(object_visibility("BodyHullVis_3", &t), Some(true));
    assert_eq!(object_visibility("SpringColVis_0", &t), Some(true));
    assert_eq!(object_visibility("Face", &t), Some(false));
    assert_eq!(object_visibility("MainCamera", &t), None);
    assert_eq!(object_visibility("Light_0", &t), None);
    let hidden = VisibilityToggles { show_hulls: false, ..t };
    assert_eq!(object_visibility("BodyHullVis_3", &hidden), Some(false));
}

#[test]
fn key_toggle_flips_on_press_only() {
    let mut t = KeyToggle { on: false, was_down: false };
    t.update(true);
    assert!(t.on);
    t.update(true);
    t.update(true);
    assert!(t.on);
    t.update(false);
    assert!(t.on);
    t.update(true);
    assert!(!t.on);
}

#[test]
fn spring_bone_parents_and_exclusions() {
    let children = vec![vec![1, 2], vec![3], vec![], vec![]];
    assert_eq!(parent_index(&children, 3), 1);
    assert_eq!(parent_index(&children, 2), 0);
    assert_eq!(parent_index(&children, 0), 0);
    assert!(excluded_by_default(&Some("J_Sec_L_Bust1".to_string())));
    assert!(excluded_by_default(&Some("SkirtBack".to_string())));
    assert!(!excluded_by_default(&Some("HairFront".to_string())));
    assert!(!excluded_by_default(&None));
}

#[test]
fn body_hull_roles() {
    assert_eq!(body_hull_role("J_Bip_C_Head"), Some(true));
    assert_eq!(body_hull_role("J_Bip_L_UpperArm"), Some(false));
    assert_eq!(body_hull_role("J_Bip_L_Foot"), None);
    assert_eq!(hull_sample_stride(425_000, true), 212);
    assert_eq!(hull_sample_stride(425_000, false), 1);
    assert_eq!(hull_sample_stride(2000, true), 1);
    assert_eq!(hull_sample_stride(3999, true), 1);
    assert_eq!(hull_sample_stride(4000, true), 2);
}

#[test]
fn collider_groups_resolve_in_order() {
    let groups = vec![vec![0, 1], vec![2], vec![3, 4, 5]];
    assert_eq!(active_colliders(&groups, &vec![Some(2), None, Some(7), Some(0)]), vec![3, 4, 5, 0, 1]);
    assert!(active_colliders(&groups, &vec![]).is_empty());
}

#[test]
fn camera_drag_modes() {
    assert_eq!(drag_mode(true, false, false, false), DragMode::Orbit);
    assert_eq!(drag_mode(false, true, false, false), DragMode::Orbit);
    assert_eq!(drag_mode(false, true, true, false), DragMode::Pan);
    assert_eq!(drag_mode(true, true, true, false), DragMode::Orbit);
    assert_eq!(drag_mode(true, true, false, true), DragMode::Idle);
    assert_eq!(drag_mode(false, false, false, false), DragMode::Idle);
}

#[test]
fn websocket_frames() {
    assert_eq!(
        websocket_step(WsFrame::Text("hello".to_string())),
        WsStep::Forward(Event::WebSocketMessage("hello".to_string()))
    );
    assert_eq!(websocket_step(WsFrame::Close), WsStep::Stop);
    assert_eq!(websocket_step(WsFrame::Error), WsStep::Stop);
    assert_eq!(websocket_step(WsFrame::Other), WsStep::Skip);
}

#[test]
fn uv_sphere_index_buffer() {
    assert_eq!(uv_sphere_indices(1, 1), vec![0, 2, 1, 2, 3, 1]);
    assert_eq!(uv_sphere_indices(2, 1), vec![0, 2, 1, 2, 3, 1, 2, 4, 3, 4, 5, 3]);
    assert!(uv_sphere_indices(0, 5).is_empty());
    let buffer = uv_sphere_indices(12, 12);
    assert_eq!(buffer.len(), 864);
    assert!(buffer.iter().all(|&k| k < 169));
    assert_eq!(&buffer[..6], &[0, 13, 1, 13, 14, 1]);
}

#[test]
fn uv_sphere_indices_wrap_past_u16() {
    let buffer = uv_sphere_indices(1, 65536);
    assert_eq!(buffer.len(), 6 * 65536);
    let last = 6 * 65535;
    assert_eq!(&buffer[last..last + 6], &[65535, 0, 0, 0, 1, 0]);
}
