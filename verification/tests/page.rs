use physics_mujoco_frontend::boot::{boot, isolation_error, worker_role, Boot, Role};
use physics_mujoco_frontend::pointer::{Drag, DragStep, Point};

#[test]
fn worker_waits_for_its_role() {
    assert_eq!(boot(true, false, false), Boot::Wait);
    assert_eq!(boot(true, true, true), Boot::Wait);
}

#[test]
fn main_thread_needs_shared_memory() {
    assert_eq!(boot(false, true, true), Boot::StartMain);
    assert_eq!(boot(false, false, true), Boot::Refuse);
    assert_eq!(boot(false, true, false), Boot::Refuse);
    assert_eq!(boot(false, false, false), Boot::Refuse);
    assert!(isolation_error().starts_with("Cross-origin isolation is OFF"));
}

#[test]
fn only_the_render_role_is_known() {
    assert_eq!(worker_role("render"), Role::Render);
    assert_eq!(worker_role("Render"), Role::Unknown);
    assert_eq!(worker_role(""), Role::Unknown);
}

fn at(x: f32, y: f32) -> Point {
    Point { x: x.to_bits(), y: y.to_bits() }
}

#[test]
fn hovering_does_nothing() {
    let mut drag = Drag::new();
    assert_eq!(drag.moved(at(5.0, 5.0)), None);
    assert_eq!(drag, Drag::new());
    assert_eq!(drag.last, at(0.0, 0.0));
}

#[test]
fn drag_steps_join_up() {
    let mut drag = Drag::new();
    drag.down(at(10.0, 20.5));
    let first = drag.moved(at(13.0, 18.0)).unwrap();
    assert_eq!(first, DragStep { from: at(10.0, 20.5), to: at(13.0, 18.0) });
    assert_eq!(f32::from_bits(first.to.y) - f32::from_bits(first.from.y), -2.5);
    let second = drag.moved(at(-4.0, 0.0));
    assert_eq!(second, Some(DragStep { from: at(13.0, 18.0), to: at(-4.0, 0.0) }));
    drag.up();
    assert_eq!(drag.moved(at(100.0, 100.0)), None);
    drag.down(at(1.0, 2.0));
    assert_eq!(
        drag.moved(at(1.0, 3.0)),
        Some(DragStep { from: at(1.0, 2.0), to: at(1.0, 3.0) })
    );
}
