//! Per-shape behaviour: containment of the own centroid, translation,
//! integration, resizing, and the two halves of the collision response.

use shape_sandbox::vec2::Vec2;
use shape_sandbox::circle::Circle;
use shape_sandbox::rect::{Rect, Rot};
use shape_sandbox::shape::Shape;

#[test]
fn circle_contains_own_centre() {
    let c = Circle::new(Vec2::new(10_000_000, -5_000_000), 100_000_000);
    assert!(c.pointIn(&c.position()));
    let s = Shape::Circle(c);
    assert!(s.pointIn(&s.position()));
}

#[test]
fn rect_contains_own_centre() {
    let r = Rect::from_centre(
        Vec2::new(3_000_000, 4_000_000),
        Vec2::new(2_000_000, 1_000_000),
        Rot::identity(),
    );
    assert!(r.pointIn(&r.position()));
    // A 3-4-5 rotation (cos 0.6, sin 0.8), still exactly representable.
    let tilted = Rect::from_centre(
        Vec2::new(-20_000_000, 7_000_000),
        Vec2::new(10_000_000, 4_000_000),
        Rot::new(927_295, 600_000, 800_000),
    );
    assert!(tilted.pointIn(&tilted.position()));
}

#[test]
fn diamond_centroid_slips_through_open_edges() {
    // A corner exactly at the centroid's height defeats the crossing-number
    // test: the horizontal ray meets only closed edge endpoints, which the
    // open-interval test excludes. This is the documented degenerate case
    // left out of the centroid-containment law.
    let s: i64 = 10_000_000;
    let diamond = Rect {
        p0: Vec2::new(-s, 0),
        p1: Vec2::new(0, -s),
        p2: Vec2::new(s, 0),
        p3: Vec2::new(0, s),
        rot: Rot::identity(),
        velocity: Vec2::zero(),
        angular_velocity: 0,
        mass: 1,
    };
    assert!(!diamond.pointIn(&Vec2::zero()));
}

#[test]
fn containment_survives_translation() {
    let mut s = Shape::Circle(Circle::new(Vec2::zero(), 50_000_000));
    let target = Vec2::new(123_456_789, -987_654_321);
    s.translateTo(&target);
    assert_eq!(s.position(), target);
    assert!(s.pointIn(&target));
    let mut r = Shape::Rect(
        Rect::from_centre(Vec2::zero(), Vec2::new(30_000_000, 20_000_000), Rot::identity()),
    );
    r.translateTo(&target);
    assert_eq!(r.position(), target);
    assert!(r.pointIn(&target));
}

#[test]
fn point_in_rect_edges() {
    let r = Rect::from_centre(Vec2::zero(), Vec2::new(20_000_000, 10_000_000), Rot::identity());
    assert!(r.pointIn(&Vec2::new(9_000_000, 4_000_000)));
    assert!(!r.pointIn(&Vec2::new(11_000_000, 0)));
    assert!(!r.pointIn(&Vec2::new(0, 6_000_000)));
}

#[test]
fn integrate_advances_without_consuming_momentum() {
    // A circle at the origin with velocity (0, -5) units/s: after one
    // 1/60 s step the centre is 5/60 of a unit lower (truncated at
    // subunit resolution) and the velocity is unchanged.
    let mut c = Circle::new(Vec2::zero(), 10_000_000);
    c.impulse(&Vec2::new(0, -5_000_000));
    c.integrate(&Vec2::zero());
    assert_eq!(c.position(), Vec2::new(0, -83_333));
    assert_eq!(c.velocity(), Vec2::new(0, -5_000_000));
    c.integrate(&Vec2::zero());
    assert_eq!(c.position(), Vec2::new(0, -166_666));
}

#[test]
fn gravity_feeds_velocity_before_position() {
    let mut c = Circle::new(Vec2::zero(), 10_000_000);
    c.integrate(&Vec2::new(0, -60_000_000));
    assert_eq!(c.velocity(), Vec2::new(0, -1_000_000));
    assert_eq!(c.position(), Vec2::new(0, -16_666));
}

#[test]
fn circle_resize_follows_drag_lengths() {
    let archive = Circle::new(Vec2::zero(), 100_000_000);
    let mut c = archive;
    // Grab at distance 50 units, release at distance 100: radius grows by 50.
    c.resize(&Vec2::new(30_000_000, 40_000_000), &Vec2::new(60_000_000, 80_000_000), &archive);
    assert_eq!(c.radius(), 150_000_000);
    // Shrinking below zero saturates at the smallest representable radius.
    let mut d = archive;
    d.resize(&Vec2::new(300_000_000, 400_000_000), &Vec2::zero(), &archive);
    assert_eq!(d.radius(), 1);
}

#[test]
fn default_masses() {
    assert_eq!(Circle::new(Vec2::zero(), 100_000_000).mass(), 31_415_926);
    let r = Rect::from_centre(
        Vec2::zero(),
        Vec2::new(100_000_000, 100_000_000),
        Rot::identity(),
    );
    assert_eq!(r.mass(), 10_000_000);
    assert_eq!(Circle::new_with_mass(Vec2::zero(), 1_000_000, 42).mass(), 42);
}

#[test]
fn from_centre_corner_layout() {
    // Corners in order: bottom-left, bottom-right, top-right, top-left.
    let r = Rect::from_centre(
        Vec2::new(10_000_000, 20_000_000),
        Vec2::new(4_000_000, 2_000_000),
        Rot::identity(),
    );
    let pts = r.points();
    assert_eq!(pts[0], Vec2::new(8_000_000, 19_000_000));
    assert_eq!(pts[1], Vec2::new(12_000_000, 19_000_000));
    assert_eq!(pts[2], Vec2::new(12_000_000, 21_000_000));
    assert_eq!(pts[3], Vec2::new(8_000_000, 21_000_000));
    assert_eq!(r.bottomLeft(), pts[0]);
    assert_eq!(r.size(), Vec2::new(4_000_000, 2_000_000));
    assert_eq!(r.rotation(), 0);
}

#[test]
fn size_round_trips_under_rotation() {
    // The size read back through de-rotation reproduces the constructed
    // extents, also at nonzero rotations. A quarter turn (cos 0, sin 1)
    // and a 3-4-5 rotation (cos 0.6, sin 0.8) are both exact in fixed
    // point.
    let quarter = Rect::from_centre(
        Vec2::new(5_000_000, 6_000_000),
        Vec2::new(4_000_000, 2_000_000),
        Rot::new(1_570_796, 0, 1_000_000),
    );
    assert_eq!(quarter.size(), Vec2::new(4_000_000, 2_000_000));
    assert_eq!(quarter.position(), Vec2::new(5_000_000, 6_000_000));
    let tilted = Rect::from_centre(
        Vec2::new(-20_000_000, 7_000_000),
        Vec2::new(10_000_000, 4_000_000),
        Rot::new(927_295, 600_000, 800_000),
    );
    assert_eq!(tilted.size(), Vec2::new(10_000_000, 4_000_000));
}

#[test]
fn resize_in_local_frame_under_rotation() {
    // A 10x10 square a quarter turn round: a grab right of the centre
    // dragged further out lies on the rectangle's local y axis, so the
    // local y extent grows by twice the drag; the x extent, centre and
    // rotation are untouched.
    let archive = Rect::from_centre(
        Vec2::zero(),
        Vec2::new(10_000_000, 10_000_000),
        Rot::new(1_570_796, 0, 1_000_000),
    );
    let mut r = archive;
    r.resize(&Vec2::new(3_000_000, 0), &Vec2::new(5_000_000, 0), &archive);
    assert_eq!(r.size(), Vec2::new(10_000_000, 14_000_000));
    assert_eq!(r.position(), Vec2::zero());
    assert_eq!(r.rotation(), 1_570_796);
}

#[test]
fn rotate_preserves_extents() {
    // Rotating a quarter-turned 10x10 square back to the identity keeps
    // its centre and extents and lands the corners axis-aligned.
    let mut s = Shape::Rect(
        Rect::from_centre(
            Vec2::new(5_000_000, 6_000_000),
            Vec2::new(10_000_000, 10_000_000),
            Rot::new(1_570_796, 0, 1_000_000),
        ),
    );
    s.rotate(Rot::identity());
    assert_eq!(s.position(), Vec2::new(5_000_000, 6_000_000));
    if let Shape::Rect(inner) = s {
        assert_eq!(inner.size(), Vec2::new(10_000_000, 10_000_000));
        let pts = inner.points();
        assert_eq!(pts[0], Vec2::new(0, 1_000_000));
        assert_eq!(pts[1], Vec2::new(10_000_000, 1_000_000));
        assert_eq!(pts[2], Vec2::new(10_000_000, 11_000_000));
        assert_eq!(pts[3], Vec2::new(0, 11_000_000));
    } else {
        panic!("rotation changed the variant");
    }
}

#[test]
fn equal_circles_exchange_velocities_head_on() {
    let mut a = Shape::Circle(Circle::new(Vec2::zero(), 100_000_000));
    let mut b = Shape::Circle(Circle::new(Vec2::new(100_000_000, 0), 100_000_000));
    a.impulse(&Vec2::new(5_000_000, 0));
    b.impulse(&Vec2::new(-5_000_000, 0));
    let a_before = a;
    a.bounce(&b);
    b.bounce(&a_before);
    assert_eq!(a.velocity(), Vec2::new(-5_000_000, 0));
    assert_eq!(b.velocity(), Vec2::new(5_000_000, 0));
}

#[test]
fn rect_collision_reflects_circle_at_window_wall() {
    // Against a rectangle a circle treats the window border as the
    // obstacle: heading through the left wall line flips the x velocity.
    let mut c = Shape::Circle(Circle::new(Vec2::new(-460_000_000, 0), 40_000_000));
    c.impulse(&Vec2::new(-600_000_000, 0));
    let wall = Shape::Rect(
        Rect::from_centre(
            Vec2::new(-500_000_000, 0),
            Vec2::new(1_000_000, 100_000_000),
            Rot::identity(),
        ),
    );
    c.bounce(&wall);
    assert_eq!(c.velocity(), Vec2::new(600_000_000, 0));
    // A rectangle's own response is reserved: bouncing leaves it unchanged.
    let mut w2 = wall;
    w2.bounce(&c);
    assert_eq!(w2, wall);
}

#[test]
fn rotate_is_noop_for_circles() {
    let mut c = Shape::Circle(Circle::new(Vec2::new(1_000_000, 2_000_000), 3_000_000));
    let before = c;
    c.rotate(Rot::new(785_398, 707_107, 707_107));
    assert_eq!(c, before);
}

#[test]
fn rotating_a_rect_rebuilds_about_its_centroid() {
    let mut r = Shape::Rect(
        Rect::from_centre(
            Vec2::new(5_000_000, 6_000_000),
            Vec2::new(10_000_000, 10_000_000),
            Rot::identity(),
        ),
    );
    // A quarter turn with exact trigonometry (cos 0, sin 1).
    r.rotate(Rot::new(1_570_796, 0, 1_000_000));
    assert_eq!(r.position(), Vec2::new(5_000_000, 6_000_000));
    if let Shape::Rect(inner) = r {
        assert_eq!(inner.size(), Vec2::new(10_000_000, 10_000_000));
        let pts = inner.points();
        assert_eq!(pts[0], Vec2::new(10_000_000, 1_000_000));
        assert_eq!(pts[2], Vec2::new(0, 11_000_000));
    } else {
        panic!("rotation changed the variant");
    }
}
