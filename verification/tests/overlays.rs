use physics_mujoco_frontend::overlays::{
    mass_rows, Contact, ContactOverlay, InertiaFrame, InertiaOverlay, JointOverlay, MassRow,
    QuatBits, Vec3Bits,
};

fn numbered(n: u32) -> Vec<u32> {
    (0..n).collect()
}

#[test]
fn inertia_box_takes_its_bodys_frame() {
    let overlay = InertiaOverlay { boxes: vec![false, true, false, true] };
    let placed = overlay.apply(&numbered(28));
    assert_eq!(placed.len(), 2);
    assert_eq!(placed[0].index, 1);
    assert_eq!(
        placed[0].frame,
        InertiaFrame {
            translation: Vec3Bits { x: 7, y: 8, z: 9 },
            rotation: QuatBits { w: 10, x: 11, y: 12, z: 13 },
        }
    );
    assert_eq!(placed[1].index, 3);
    assert_eq!(placed[1].frame.translation, Vec3Bits { x: 21, y: 22, z: 23 });
}

#[test]
fn only_slides_and_hinges_have_an_axis() {
    let overlay = JointOverlay::new(6, &vec![0, 1, 2, 3, 4]);
    assert_eq!(overlay.bars, vec![false, false, true, true, false, false]);
}

#[test]
fn joint_bar_takes_anchor_and_axis() {
    let overlay = JointOverlay::new(3, &vec![0, 3, 2]);
    let placed = overlay.apply(&numbered(18));
    assert_eq!(placed.len(), 2);
    assert_eq!(placed[0].index, 1);
    assert_eq!(placed[0].frame.anchor, Vec3Bits { x: 6, y: 7, z: 8 });
    assert_eq!(placed[0].frame.axis, Vec3Bits { x: 9, y: 10, z: 11 });
    assert_eq!(placed[1].index, 2);
}

#[test]
fn overlay_without_nodes_shows_nothing() {
    assert!(InertiaOverlay { boxes: vec![false; 5] }.apply(&vec![]).is_empty());
    assert!(JointOverlay { bars: vec![] }.apply(&vec![]).is_empty());
}

#[test]
fn live_contacts_are_placed() {
    let mut overlay = ContactOverlay::new(4);
    let frame = overlay.apply(2, &numbered(28));
    assert_eq!(frame.live.len(), 2);
    assert_eq!(
        frame.live[1],
        Contact {
            position: Vec3Bits { x: 7, y: 8, z: 9 },
            normal: Vec3Bits { x: 10, y: 11, z: 12 },
            force: 13,
        }
    );
    assert_eq!((frame.first, frame.end, frame.hide), (0, 2, false));
}

#[test]
fn only_visibility_edges_are_reported() {
    let mut overlay = ContactOverlay::new(4);
    let slots = numbered(28);
    overlay.apply(3, &slots);
    let same = overlay.apply(3, &slots);
    assert_eq!(same.first, same.end);
    let fewer = overlay.apply(1, &slots);
    assert_eq!((fewer.first, fewer.end, fewer.hide), (1, 3, true));
    let more = overlay.apply(4, &slots);
    assert_eq!((more.first, more.end, more.hide), (1, 4, false));
}

#[test]
fn contacts_past_the_pool_are_left_out() {
    let mut overlay = ContactOverlay::new(2);
    let frame = overlay.apply(1000, &numbered(14));
    assert_eq!(frame.live.len(), 2);
    assert_eq!(frame.end, 2);
}

#[test]
fn missing_mass_and_inertia_count_as_zero() {
    let one = 1.0f64.to_bits();
    let two = 2.0f64.to_bits();
    let rows = mass_rows(3, &vec![0, one], &vec![0, 0, 0, one, two]);
    assert_eq!(rows[0], MassRow { mass: 0, ixx: 0, iyy: 0, izz: 0 });
    assert_eq!(rows[1], MassRow { mass: one, ixx: one, iyy: two, izz: 0 });
    assert_eq!(rows[2], MassRow { mass: 0, ixx: 0, iyy: 0, izz: 0 });
    assert_eq!(f64::from_bits(rows[2].mass), 0.0);
    assert_eq!(rows.len(), 3);
}
