use physics_mujoco_frontend::main_thread::{MainAction, MainThread};
use physics_mujoco_frontend::protocol::{ModelCounts, RenderMsg};

fn counts(ngeom: usize, njnt: usize, nbody: usize) -> ModelCounts {
    ModelCounts { ngeom, njnt, nbody }
}

fn log(line: &str) -> MainAction {
    MainAction::Log(line.to_string())
}

fn status(line: &str) -> MainAction {
    MainAction::Status(line.to_string())
}

#[test]
fn scene_first_then_model() {
    let mut main = MainThread::new();
    assert_eq!(
        main.on_render(RenderMsg::SceneReady),
        vec![log("scene ready — waiting on the MuJoCo model…")]
    );
    assert_eq!(
        main.on_sim("model", None, counts(2, 3, 4)),
        vec![
            log("MuJoCo model loaded (2 geoms)"),
            MainAction::Handoff { bytes: 1884 * 4 },
            log("pose block allocated — sim + mirror starting"),
        ]
    );
}

#[test]
fn model_first_then_scene() {
    let mut main = MainThread::new();
    assert_eq!(
        main.on_sim("model", None, counts(2, 3, 4)),
        vec![log("MuJoCo model loaded (2 geoms)")]
    );
    assert_eq!(
        main.on_render(RenderMsg::SceneReady),
        vec![
            log("scene ready — waiting on the MuJoCo model…"),
            MainAction::Handoff { bytes: 1884 * 4 },
            log("pose block allocated — sim + mirror starting"),
        ]
    );
}

#[test]
fn model_is_handed_over_once() {
    let mut main = MainThread::new();
    main.on_sim("model", None, counts(1, 0, 0));
    main.on_render(RenderMsg::SceneReady);
    let again = main.on_render(RenderMsg::SceneReady);
    assert_eq!(again, vec![log("scene ready — waiting on the MuJoCo model…")]);
}

#[test]
fn render_worker_messages() {
    let mut main = MainThread::new();
    assert_eq!(
        main.on_render(RenderMsg::Progress { message: "compiling".to_string() }),
        vec![log("compiling")]
    );
    assert_eq!(
        main.on_render(RenderMsg::Ready),
        vec![
            log("first frames rendered — ready"),
            MainAction::DismissLoading,
            status("running — drag orbits, wheel zooms"),
        ]
    );
    assert_eq!(
        main.on_render(RenderMsg::Error { message: "lost".to_string() }),
        vec![log("ERROR: lost"), status("render error: lost")]
    );
}

#[test]
fn sim_worker_messages() {
    let mut main = MainThread::new();
    assert_eq!(main.on_sim("progress", Some("half"), counts(0, 0, 0)), vec![log("half")]);
    assert_eq!(main.on_sim("progress", None, counts(0, 0, 0)), vec![log("")]);
    assert_eq!(
        main.on_sim("error", Some("bad xml"), counts(0, 0, 0)),
        vec![log("MUJOCO ERROR: bad xml"), status("mujoco error: bad xml")]
    );
    assert_eq!(
        main.on_sim("error", None, counts(0, 0, 0)),
        vec![log("MUJOCO ERROR: "), status("mujoco error: ")]
    );
    assert_eq!(main.on_sim("telemetry", Some("x"), counts(0, 0, 0)), vec![]);
    assert_eq!(main.on_sim("", None, counts(0, 0, 0)), vec![]);
}

#[test]
fn later_model_replaces_one_that_waits() {
    let mut main = MainThread::new();
    main.on_sim("model", None, counts(1, 0, 0));
    main.on_sim("model", None, counts(2, 3, 4));
    let actions = main.on_render(RenderMsg::SceneReady);
    assert_eq!(actions[1], MainAction::Handoff { bytes: 1884 * 4 });
    assert_eq!(actions.len(), 3);
}

#[test]
fn looking_again_does_nothing() {
    let mut main = MainThread::new();
    assert_eq!(main.maybe_start(), vec![]);
    main.on_sim("model", None, counts(2, 3, 4));
    assert_eq!(main.maybe_start(), vec![]);
    let actions = main.on_render(RenderMsg::SceneReady);
    assert_eq!(actions[1], MainAction::Handoff { bytes: 1884 * 4 });
    assert_eq!(main.maybe_start(), vec![]);
    assert_eq!(main.maybe_start(), vec![]);
}

#[test]
fn block_that_cannot_be_allocated_is_found_at_the_handoff() {
    let mut main = MainThread::new();
    let waiting = main.on_sim("model", None, counts(usize::MAX, 0, 0));
    assert_eq!(waiting.len(), 1);
    assert_eq!(
        main.on_render(RenderMsg::SceneReady),
        vec![
            log("scene ready — waiting on the MuJoCo model…"),
            log("MUJOCO ERROR: the pose block is too large to allocate"),
            status("mujoco error: the pose block is too large to allocate"),
        ]
    );
    assert_eq!(main.maybe_start(), vec![]);
}
