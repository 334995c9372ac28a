use physics_mujoco_frontend::overlays::{ContactOverlay, InertiaOverlay, JointOverlay, Vec3Bits};
use physics_mujoco_frontend::sim_link::{OverlayCopies, SimLink};

fn copies() -> OverlayCopies {
    OverlayCopies {
        contacts: (0..14).collect(),
        joints: (100..106).collect(),
        inertia: (200..207).collect(),
    }
}

fn link() -> SimLink {
    SimLink::new(
        Some(ContactOverlay::new(2)),
        Some(JointOverlay { bars: vec![true] }),
        Some(InertiaOverlay { boxes: vec![true] }),
    )
}

#[test]
fn whole_frame_reaches_every_overlay() {
    let mut link = link();
    let start = link.reader.begin(Some(2)).unwrap();
    let frame = link.finish(start, Some(2), Some(1), &copies()).unwrap();
    let contacts = frame.contacts.unwrap();
    assert_eq!(contacts.live.len(), 1);
    assert_eq!(contacts.live[0].force, 6);
    assert_eq!((contacts.first, contacts.end, contacts.hide), (0, 1, false));
    let joints = frame.joints.unwrap();
    assert_eq!(joints[0].frame.axis, Vec3Bits { x: 103, y: 104, z: 105 });
    let inertia = frame.inertia.unwrap();
    assert_eq!(inertia[0].frame.rotation.w, 203);
    assert_eq!(link.reader.begin(Some(2)), None);
}

#[test]
fn torn_frame_keeps_the_last_one() {
    let mut link = link();
    link.finish(2, Some(2), Some(2), &copies());
    assert!(link.finish(4, Some(5), Some(0), &copies()).is_none());
    assert!(link.finish(4, None, Some(0), &copies()).is_none());
    assert_eq!(link.reader.begin(Some(4)), Some(4));
    let frame = link.finish(4, Some(4), Some(0), &copies()).unwrap();
    let contacts = frame.contacts.unwrap();
    assert_eq!((contacts.first, contacts.end, contacts.hide), (0, 2, true));
}

#[test]
fn overlays_that_were_not_built_show_nothing() {
    let mut link = SimLink::new(None, None, None);
    let none = OverlayCopies { contacts: vec![], joints: vec![], inertia: vec![] };
    let frame = link.finish(2, Some(2), Some(9), &none).unwrap();
    assert!(frame.contacts.is_none());
    assert!(frame.joints.is_none());
    assert!(frame.inertia.is_none());
}
