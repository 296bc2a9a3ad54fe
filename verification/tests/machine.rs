//! The manipulation state machine: pausing and the refused unpause, picking
//! shapes up and dropping them, deleting, the insert and move buttons, the
//! live manipulation pass, and a full running frame.

use shape_sandbox::vec2::Vec2;
use shape_sandbox::circle::Circle;
use shape_sandbox::rect::{Rect, Rot};
use shape_sandbox::shape::Shape;
use shape_sandbox::sim::{
    SimulationState, Mode, ManipMode, PointerButton, DEFAULT_RADIUS, SPAWN_X, SPAWN_Y,
};

fn paused_with(shapes: Vec<Shape>) -> SimulationState {
    let mut sim = SimulationState::new();
    for s in shapes {
        sim.add_shape(s);
    }
    sim
}

#[test]
fn unpause_refused_while_overlapping() {
    // Two overlapping circles: the unpause request is refused and nothing
    // changes; the false return is the diagnostic cue.
    let a = Shape::Circle(Circle::new(Vec2::zero(), 100_000_000));
    let b = Shape::Circle(Circle::new(Vec2::new(50_000_000, 0), 100_000_000));
    let mut sim = paused_with(vec![a, b]);
    let accepted = sim.pause_toggle();
    assert!(!accepted);
    assert_eq!(sim.mode, Mode::Paused(ManipMode::Move));
    assert_eq!(sim.objects, vec![a, b]);
}

#[test]
fn unpause_granted_when_clear() {
    let a = Shape::Circle(Circle::new(Vec2::zero(), 100_000_000));
    let b = Shape::Circle(Circle::new(Vec2::new(500_000_000, 0), 100_000_000));
    let mut sim = paused_with(vec![a, b]);
    assert!(sim.pause_toggle());
    assert_eq!(sim.mode, Mode::Unpaused);
    // Pausing again always succeeds and lands in Move mode.
    assert!(sim.pause_toggle());
    assert_eq!(sim.mode, Mode::Paused(ManipMode::Move));
}

#[test]
fn carry_and_drop_restores_collection() {
    // Pointer-down inside the first circle with no modifiers: the circle is
    // held, the collection shrinks by one; pointer-up restores it.
    let a = Shape::Circle(Circle::new(Vec2::zero(), 100_000_000));
    let b = Shape::Circle(Circle::new(Vec2::new(400_000_000, 0), 50_000_000));
    let mut sim = paused_with(vec![a, b]);
    let click = Vec2::new(10_000_000, -20_000_000);
    sim.pointer_down(click, PointerButton::Left, false, false);
    assert_eq!(sim.objects.len(), 1);
    assert_eq!(sim.objects[0], b);
    match sim.mode {
        Mode::Paused(ManipMode::Carrying(held, grab)) => {
            assert_eq!(held, a);
            assert_eq!(grab, click);
        },
        _ => panic!("expected a carried shape"),
    }
    sim.pointer_up();
    assert_eq!(sim.objects.len(), 2);
    assert_eq!(sim.objects, vec![b, a]);
    assert_eq!(sim.mode, Mode::Paused(ManipMode::Move));
}

#[test]
fn click_misses_do_nothing() {
    let a = Shape::Circle(Circle::new(Vec2::zero(), 100_000_000));
    let mut sim = paused_with(vec![a]);
    sim.pointer_down(Vec2::new(300_000_000, 0), PointerButton::Left, false, false);
    assert_eq!(sim.objects.len(), 1);
    assert_eq!(sim.mode, Mode::Paused(ManipMode::Move));
}

#[test]
fn first_matching_shape_is_picked() {
    let a = Shape::Circle(Circle::new(Vec2::zero(), 100_000_000));
    let b = Shape::Circle(Circle::new(Vec2::new(50_000_000, 0), 100_000_000));
    let mut sim = paused_with(vec![a, b]);
    // The click lands inside both; collection order decides.
    sim.pointer_down(Vec2::new(40_000_000, 0), PointerButton::Left, false, false);
    match sim.mode {
        Mode::Paused(ManipMode::Carrying(held, _)) => assert_eq!(held, a),
        _ => panic!("expected a carried shape"),
    }
}

#[test]
fn shift_right_click_deletes() {
    let a = Shape::Circle(Circle::new(Vec2::zero(), 100_000_000));
    let mut sim = paused_with(vec![a]);
    sim.pointer_down(Vec2::zero(), PointerButton::Right, true, false);
    assert!(sim.objects.is_empty());
    assert_eq!(sim.mode, Mode::Paused(ManipMode::Move));
}

#[test]
fn modifier_combinations_choose_manipulations() {
    let a = Shape::Circle(Circle::new(Vec2::zero(), 100_000_000));
    let click = Vec2::new(1_000_000, 0);

    let mut sim = paused_with(vec![a]);
    sim.pointer_down(click, PointerButton::Left, true, false);
    assert!(matches!(sim.mode, Mode::Paused(ManipMode::Resizing(_, _, _))));

    let mut sim = paused_with(vec![a]);
    sim.pointer_down(click, PointerButton::Left, false, true);
    assert!(matches!(sim.mode, Mode::Paused(ManipMode::VelSetting(_, _))));

    let mut sim = paused_with(vec![a]);
    sim.pointer_down(click, PointerButton::Right, false, true);
    assert!(matches!(sim.mode, Mode::Paused(ManipMode::AngVelSetting(_, _))));

    let mut sim = paused_with(vec![a]);
    sim.pointer_down(click, PointerButton::Right, false, false);
    assert!(matches!(sim.mode, Mode::Paused(ManipMode::Rotating(_, _, _))));
}

#[test]
fn ignores_pointer_down_while_running() {
    let a = Shape::Circle(Circle::new(Vec2::zero(), 100_000_000));
    let mut sim = paused_with(vec![a]);
    assert!(sim.pause_toggle());
    sim.pointer_down(Vec2::zero(), PointerButton::Left, false, false);
    assert_eq!(sim.mode, Mode::Unpaused);
    assert_eq!(sim.objects.len(), 1);
}

#[test]
fn insert_buttons_require_pause() {
    let mut sim = SimulationState::new();
    assert!(sim.pause_toggle());
    assert!(!sim.insert_circle());
    assert!(!sim.insert_rect());
    assert_eq!(sim.mode, Mode::Unpaused);
    assert!(sim.pause_toggle());
    assert!(sim.insert_circle());
    match sim.mode {
        Mode::Paused(ManipMode::Carrying(Shape::Circle(c), grab)) => {
            assert_eq!(c.centre(), Vec2::new(SPAWN_X, SPAWN_Y));
            assert_eq!(c.radius(), DEFAULT_RADIUS);
            assert_eq!(grab, Vec2::zero());
        },
        _ => panic!("expected a carried circle"),
    }
    assert!(sim.insert_rect());
    assert!(matches!(sim.mode, Mode::Paused(ManipMode::Carrying(Shape::Rect(_), _))));
}

#[test]
fn move_button_resets_manipulation() {
    let a = Shape::Circle(Circle::new(Vec2::zero(), 100_000_000));
    let mut sim = paused_with(vec![a]);
    sim.pointer_down(Vec2::zero(), PointerButton::Left, false, false);
    assert!(matches!(sim.mode, Mode::Paused(ManipMode::Carrying(_, _))));
    sim.set_move_mode();
    assert_eq!(sim.mode, Mode::Paused(ManipMode::Move));
}

#[test]
fn carried_shape_tracks_pointer() {
    let a = Shape::Circle(Circle::new(Vec2::zero(), 100_000_000));
    let mut sim = paused_with(vec![a]);
    let click = Vec2::new(10_000_000, 0);
    sim.pointer_down(click, PointerButton::Left, false, false);
    let mouse = Vec2::new(250_000_000, 40_000_000);
    sim.frame_manipulate(mouse, 0, 0, Rot::identity());
    match sim.mode {
        Mode::Paused(ManipMode::Carrying(held, _)) => {
            // The shape follows the pointer minus the grab offset.
            assert_eq!(held.position(), Vec2::new(240_000_000, 40_000_000));
        },
        _ => panic!("expected a carried shape"),
    }
}

#[test]
fn velocity_setting_aims_at_pointer() {
    let a = Shape::Circle(Circle::new(Vec2::zero(), 100_000_000));
    let mut sim = paused_with(vec![a]);
    let click = Vec2::new(10_000_000, 0);
    sim.pointer_down(click, PointerButton::Left, false, true);
    let mouse = Vec2::new(70_000_000, -30_000_000);
    sim.frame_manipulate(mouse, 0, 0, Rot::identity());
    match sim.mode {
        Mode::Paused(ManipMode::VelSetting(held, _)) => {
            // Target velocity: pointer relative to the shape, minus grab.
            assert_eq!(held.velocity(), Vec2::new(60_000_000, -30_000_000));
        },
        _ => panic!("expected a velocity-setting shape"),
    }
}

#[test]
fn angular_velocity_follows_swept_angle() {
    let a = Shape::Circle(Circle::new(Vec2::zero(), 100_000_000));
    let mut sim = paused_with(vec![a]);
    sim.pointer_down(Vec2::new(1_000_000, 0), PointerButton::Right, false, true);
    // The target angular velocity is the grab angle minus the pointer angle.
    sim.frame_manipulate(Vec2::new(50_000_000, 0), 785_398, 1_570_796, Rot::identity());
    match sim.mode {
        Mode::Paused(ManipMode::AngVelSetting(held, _)) => {
            assert_eq!(held.angular_velocity(), 785_398);
        },
        _ => panic!("expected an angular-velocity-setting shape"),
    }
}

#[test]
fn running_frame_moves_and_bounces() {
    // One circle drifting left: a frame advances it by v/60.
    let mut sim = SimulationState::new();
    let mut c = Shape::Circle(Circle::new(Vec2::zero(), 10_000_000));
    c.impulse(&Vec2::new(0, -5_000_000));
    sim.add_shape(c);
    assert!(sim.pause_toggle());
    sim.step(&Vec2::zero());
    assert_eq!(sim.objects[0].position(), Vec2::new(0, -83_333));
    assert_eq!(sim.objects[0].velocity(), Vec2::new(0, -5_000_000));

    // Two circles already overlapping after the step: the motion is
    // discarded and both bounce off each other instead (head-on equal
    // masses exchange velocities).
    let mut sim = SimulationState::new();
    let mut a = Shape::Circle(Circle::new(Vec2::zero(), 100_000_000));
    let mut b = Shape::Circle(Circle::new(Vec2::new(150_000_000, 0), 100_000_000));
    a.impulse(&Vec2::new(5_000_000, 0));
    b.impulse(&Vec2::new(-5_000_000, 0));
    sim.add_shape(a);
    sim.add_shape(b);
    sim.mode = Mode::Unpaused;
    sim.step(&Vec2::zero());
    assert_eq!(sim.objects[0].position(), Vec2::zero());
    assert_eq!(sim.objects[1].position(), Vec2::new(150_000_000, 0));
    assert_eq!(sim.objects[0].velocity(), Vec2::new(-5_000_000, 0));
    assert_eq!(sim.objects[1].velocity(), Vec2::new(5_000_000, 0));
}

#[test]
fn paused_step_is_inert() {
    let a = Shape::Circle(Circle::new(Vec2::zero(), 100_000_000));
    let mut sim = paused_with(vec![a]);
    sim.step(&Vec2::zero());
    assert_eq!(sim.objects, vec![a]);
    assert_eq!(sim.mode, Mode::Paused(ManipMode::Move));
}
