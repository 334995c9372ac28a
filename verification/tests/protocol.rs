use physics_mujoco_frontend::protocol::{
    body_offset, contact_offset, inertia_offset, joint_offset, pose_block_bytes, BlockLayout,
    ModelCounts, Region, ResizeMsg, SceneChoice, CONTACT_STRIDE, JOINT_STRIDE, MAX_CONTACTS, NCON_SLOT,
    POSE_HEADER, POSE_STRIDE, SEQ_SLOT,
};

fn layout(ngeom: usize, njnt: usize, nbody: usize) -> Option<BlockLayout> {
    BlockLayout::new(ModelCounts { ngeom, njnt, nbody })
}

#[test]
fn pose_block_holds_header_and_poses() {
    assert_eq!(pose_block_bytes(0), 16);
    assert_eq!(pose_block_bytes(1), 44);
    assert_eq!(pose_block_bytes(20), (4 + 20 * 7) * 4);
}

#[test]
fn strides_and_header() {
    assert_eq!((POSE_STRIDE, POSE_HEADER), (7, 4));
    assert_eq!((CONTACT_STRIDE, MAX_CONTACTS, JOINT_STRIDE), (7, 256, 6));
    assert_eq!((SEQ_SLOT, NCON_SLOT), (0, 3));
}

#[test]
fn offsets_are_sums_of_what_stands_before() {
    assert_eq!(contact_offset(2), 18);
    assert_eq!(joint_offset(2), 18 + 256 * 7);
    assert_eq!(inertia_offset(2, 3), 18 + 256 * 7 + 18);
    assert_eq!(body_offset(2, 3, 4), 18 + 256 * 7 + 18 + 28);
}

#[test]
fn regions_follow_one_another() {
    let block = layout(2, 3, 4).unwrap();
    assert_eq!(block.poses(), Region { start: 4, end: 18 });
    assert_eq!(block.contacts(), Region { start: 18, end: 1810 });
    assert_eq!(block.joints(), Region { start: 1810, end: 1828 });
    assert_eq!(block.inertia(), Region { start: 1828, end: 1856 });
    assert_eq!(block.bodies(), Region { start: 1856, end: 1884 });
    assert_eq!(block.bytes(), 1884 * 4);
    assert_eq!(block.bodies().slots(), 28);
    assert_eq!(pose_block_bytes(2) as u32, block.contacts().start * 4);
}

#[test]
fn cloth_costs_one_frame_per_body() {
    let block = layout(1, 0, 171).unwrap();
    assert_eq!(block.bodies().slots(), 171 * 7);
}

#[test]
fn block_that_cannot_be_allocated_has_no_layout() {
    assert!(layout(usize::MAX, 0, 0).is_none());
    assert!(layout(0, usize::MAX, 0).is_none());
    assert!(layout(0, 0, usize::MAX).is_none());
    // The largest geom count whose block still has a u32 length.
    let most = ((u32::MAX as usize) / 4 - 4 - 256 * 7) / 7;
    assert!(layout(most, 0, 0).is_some());
    assert!(layout(most + 1, 0, 0).is_none());
}

#[test]
fn resize_without_area_is_neither_sent_nor_applied() {
    assert_eq!(ResizeMsg::measured(0, 5), None);
    assert_eq!(ResizeMsg::measured(5, 0), None);
    assert_eq!(ResizeMsg::Canvas { width: 0, height: 9 }.accepted(), None);
    assert_eq!(ResizeMsg::Canvas { width: 9, height: 0 }.accepted(), None);
}

#[test]
fn sent_resize_is_applied() {
    let msg = ResizeMsg::measured(800, 600).unwrap();
    assert_eq!(msg, ResizeMsg::Canvas { width: 800, height: 600 });
    assert_eq!(msg.accepted(), Some((800, 600)));
}

#[test]
fn query_picks_model_and_bundle_together() {
    let plain = SceneChoice::from_param(None);
    assert_eq!(plain, SceneChoice::Humanoid);
    assert_eq!(plain.model_path(), "mujoco/humanoid.xml");
    assert_eq!(plain.bundle_dir(), "bundle");
    let flag = SceneChoice::from_param(Some("flag"));
    assert_eq!(flag, SceneChoice::Flag);
    assert_eq!(flag.model_path(), "mujoco/flag.xml");
    assert_ne!(flag.bundle_dir(), plain.bundle_dir());
    assert_eq!(SceneChoice::from_param(Some("flags")), SceneChoice::Humanoid);
    assert_eq!(SceneChoice::from_param(Some("")), SceneChoice::Humanoid);
}
