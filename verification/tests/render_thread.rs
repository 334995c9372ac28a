use physics_mujoco_frontend::protocol::{ModelCounts, Region};
use physics_mujoco_frontend::render_thread::{
    check_sim, is_model_message, link_sim, FrameCounter, LinkError, ModelOutcome, OverlayPlan,
    PendingInstance, ProgressFilter, SimInstance,
};
use physics_mujoco_frontend::urls::OverlayToggles;

fn humanoid() -> SimInstance {
    SimInstance {
        filename: "humanoid.xml".to_string(),
        sha256: "abc".to_string(),
        model_name: Some("Humanoid".to_string()),
        geoms: vec![true, false],
        bodies: vec![0, 0, 0, 0, 0],
        has_root: true,
    }
}

fn all_overlays() -> OverlayToggles {
    OverlayToggles { contacts: true, joints: true, inertia: true }
}

#[test]
fn rigid_model_reads_poses_only() {
    let sim = ModelCounts { ngeom: 2, njnt: 3, nbody: 4 };
    let plan = link_sim(&humanoid(), sim, None, OverlayToggles::default()).unwrap();
    assert_eq!(plan.poses, Region { start: 4, end: 18 });
    assert_eq!(plan.bodies, None);
    assert_eq!(plan.contacts, OverlayPlan::Off);
    assert_eq!(plan.joints, OverlayPlan::Off);
    assert_eq!(plan.inertia, OverlayPlan::Off);
}

#[test]
fn overlays_show_their_regions() {
    let sim = ModelCounts { ngeom: 2, njnt: 3, nbody: 4 };
    let plan = link_sim(&humanoid(), sim, Some("abc"), all_overlays()).unwrap();
    assert_eq!(plan.contacts, OverlayPlan::Build(Region { start: 18, end: 1810 }));
    assert_eq!(plan.joints, OverlayPlan::Build(Region { start: 1810, end: 1828 }));
    assert_eq!(plan.inertia, OverlayPlan::Build(Region { start: 1828, end: 1856 }));
}

#[test]
fn overlays_need_a_root() {
    let sim = ModelCounts { ngeom: 2, njnt: 3, nbody: 4 };
    let mut instance = humanoid();
    instance.has_root = false;
    let plan = link_sim(&instance, sim, None, all_overlays()).unwrap();
    assert_eq!(plan.contacts, OverlayPlan::NoRoot);
    assert_eq!(plan.joints, OverlayPlan::NoRoot);
    assert_eq!(plan.inertia, OverlayPlan::NoRoot);
}

#[test]
fn deformable_reads_body_poses() {
    let sim = ModelCounts { ngeom: 2, njnt: 3, nbody: 4 };
    let mut instance = humanoid();
    instance.bodies = vec![0, 2, 1, 0];
    let plan = link_sim(&instance, sim, None, OverlayToggles::default()).unwrap();
    assert_eq!(plan.bodies, Some(Region { start: 1856, end: 1884 }));
    assert_eq!(plan.bodies.unwrap().slots(), instance.bodies.len() * 7);
}

#[test]
fn other_geom_count_is_refused() {
    let sim = ModelCounts { ngeom: 10, njnt: 3, nbody: 4 };
    let error = link_sim(&humanoid(), sim, Some("other"), all_overlays()).unwrap_err();
    assert_eq!(error, LinkError::Geoms { sim: 10, instance: 2 });
    assert_eq!(
        error.message("humanoid.xml"),
        "the sim is running a 10-geom model but the scene's instance (humanoid.xml) has 2 geoms \
         — re-export the scene from the same model file"
    );
}

#[test]
fn other_content_hash_is_refused() {
    let sim = ModelCounts { ngeom: 2, njnt: 3, nbody: 4 };
    let error = link_sim(&humanoid(), sim, Some("other"), all_overlays()).unwrap_err();
    assert_eq!(error, LinkError::Fingerprint);
    assert_eq!(
        error.message("humanoid.xml"),
        "the sim is running a different model than the scene's instance (humanoid.xml) was \
         imported from — re-export the scene from the same model file"
    );
}

#[test]
fn other_body_count_is_refused_for_a_deformable() {
    let sim = ModelCounts { ngeom: 2, njnt: 3, nbody: 4 };
    let mut instance = humanoid();
    instance.bodies = vec![1, 0, 0];
    let error = link_sim(&instance, sim, None, all_overlays()).unwrap_err();
    assert_eq!(error, LinkError::Bodies { sim: 4, instance: 3 });
    assert_eq!(
        error.message("flag.xml"),
        "the sim is running a 4-body model but the scene's instance (flag.xml) has 3 bodies \
         — re-export the scene from the same model file"
    );
}

#[test]
fn instance_is_used_up_by_the_first_model() {
    let sim = ModelCounts { ngeom: 2, njnt: 3, nbody: 4 };
    let mut pending = PendingInstance::new(Some(humanoid()));
    let outcome = pending.on_model(sim, None, OverlayToggles::default());
    assert!(matches!(
        outcome,
        ModelOutcome::Linked { progress, .. } if progress == "sim linked (1/2 geoms) — running"
    ));
    let again = pending.on_model(sim, None, OverlayToggles::default());
    assert_eq!(
        again,
        ModelOutcome::NoInstance {
            message: "the loaded bundle has no MuJoCo sim instance — export a scene with one \
                      imported via import_mujoco_from_url"
                .to_string(),
        }
    );
}

#[test]
fn refused_model_uses_the_instance_up_too() {
    let sim = ModelCounts { ngeom: 9, njnt: 0, nbody: 0 };
    let mut pending = PendingInstance::new(Some(humanoid()));
    let outcome = pending.on_model(sim, None, OverlayToggles::default());
    assert!(matches!(
        outcome,
        ModelOutcome::Refused { message } if message.starts_with("the sim is running a 9-geom")
    ));
    let good = ModelCounts { ngeom: 2, njnt: 3, nbody: 4 };
    let again = pending.on_model(good, None, OverlayToggles::default());
    assert!(matches!(again, ModelOutcome::NoInstance { .. }));
}

#[test]
fn bundle_without_an_instance() {
    let sim = ModelCounts { ngeom: 2, njnt: 3, nbody: 4 };
    let mut pending = PendingInstance::new(None);
    let outcome = pending.on_model(sim, None, OverlayToggles::default());
    assert!(matches!(outcome, ModelOutcome::NoInstance { .. }));
}

#[test]
fn instance_is_called_by_its_model_or_its_file() {
    let mut instance = humanoid();
    assert_eq!(instance.label(), "Humanoid");
    assert_eq!(instance.bound(), 1);
    instance.model_name = None;
    assert_eq!(instance.label(), "humanoid.xml");
}

#[test]
fn model_messages_are_told_by_their_kind() {
    assert!(is_model_message(Some("mujoco-model")));
    assert!(!is_model_message(Some("model")));
    assert!(!is_model_message(None));
}

#[test]
fn progress_is_reported_when_it_changes() {
    let mut filter = ProgressFilter::new();
    assert!(!filter.offer(""));
    assert!(!filter.offer("meshes 0/0"));
    assert!(filter.offer("meshes 1/3"));
    assert!(!filter.offer("meshes 1/3"));
    assert!(!filter.offer("textures 10/05"));
    assert!(!filter.offer("meshes 1/3"));
    assert!(filter.offer("meshes 2/3"));
    assert!(filter.offer("meshes 1/3"));
}

#[test]
fn third_presented_frame_is_told() {
    let mut counter = FrameCounter::new();
    let told: Vec<bool> = (0..6).map(|_| counter.frame(true)).collect();
    assert_eq!(told, vec![false, false, true, false, false, false]);
}

#[test]
fn failed_frames_do_not_count() {
    let mut counter = FrameCounter::new();
    assert!((0..10).all(|_| !counter.frame(false)));
    assert!(!counter.frame(true));
    assert!(!counter.frame(false));
    assert!(!counter.frame(true));
    assert!(!counter.frame(false));
    assert!(counter.frame(true));
    assert!(!counter.frame(false));
}

#[test]
fn counts_too_large_to_lay_out_are_still_compared() {
    let sim = ModelCounts { ngeom: usize::MAX, njnt: usize::MAX, nbody: usize::MAX };
    assert_eq!(
        check_sim(&humanoid(), sim, None),
        Some(LinkError::Geoms { sim: usize::MAX, instance: 2 })
    );
    let mut pending = PendingInstance::new(Some(humanoid()));
    let outcome = pending.on_model(sim, None, all_overlays());
    assert!(matches!(outcome, ModelOutcome::Refused { .. }));
    let same = ModelCounts { ngeom: 2, njnt: usize::MAX, nbody: 4 };
    assert_eq!(check_sim(&humanoid(), same, Some("abc")), Some(LinkError::TooLarge));
    assert_eq!(check_sim(&humanoid(), same, Some("other")), Some(LinkError::Fingerprint));
    assert_eq!(
        link_sim(&humanoid(), same, Some("abc"), all_overlays()),
        Err(LinkError::TooLarge)
    );
    let mut pending = PendingInstance::new(Some(humanoid()));
    assert_eq!(
        pending.on_model(same, None, all_overlays()),
        ModelOutcome::Refused {
            message: "the pose block of the scene's instance (humanoid.xml) is too large to exist"
                .to_string(),
        }
    );
}

#[test]
fn link_tells_whether_the_fingerprint_was_compared() {
    let sim = ModelCounts { ngeom: 2, njnt: 3, nbody: 4 };
    assert_eq!(check_sim(&humanoid(), sim, Some("abc")), None);
    let mut pending = PendingInstance::new(Some(humanoid()));
    assert!(matches!(
        pending.on_model(sim, Some("abc"), all_overlays()),
        ModelOutcome::Linked { fingerprint_compared: true, .. }
    ));
    let mut pending = PendingInstance::new(Some(humanoid()));
    assert!(matches!(
        pending.on_model(sim, None, all_overlays()),
        ModelOutcome::Linked { fingerprint_compared: false, .. }
    ));
}
