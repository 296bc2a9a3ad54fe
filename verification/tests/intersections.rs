//! The narrow-phase predicates and the all-pairs detector: strictness at
//! the touching boundary, the separating-axis cases, symmetry, and the
//! detector's ordered output.

use shape_sandbox::vec2::Vec2;
use shape_sandbox::circle::Circle;
use shape_sandbox::rect::{Rect, Rot};
use shape_sandbox::shape::{Shape, Intersect, detectIntersections};

#[test]
fn circle_circle_strict_distance() {
    let a = Shape::Circle(Circle::new(Vec2::zero(), 100_000_000));
    let near = Shape::Circle(Circle::new(Vec2::new(199_000_000, 0), 100_000_000));
    let touching = Shape::Circle(Circle::new(Vec2::new(200_000_000, 0), 100_000_000));
    let apart = Shape::Circle(Circle::new(Vec2::new(201_000_000, 0), 100_000_000));
    assert!(a.intersect(&near));
    assert!(!a.intersect(&touching));
    assert!(!a.intersect(&apart));
}

#[test]
fn sat_unit_squares() {
    let unit = Vec2::new(1_000_000, 1_000_000);
    let a = Shape::Rect(Rect::from_centre(Vec2::zero(), unit, Rot::identity()));
    let half_off = Shape::Rect(
        Rect::from_centre(Vec2::new(500_000, 0), unit, Rot::identity()),
    );
    let touching = Shape::Rect(
        Rect::from_centre(Vec2::new(1_000_000, 0), unit, Rot::identity()),
    );
    assert!(a.intersect(&half_off));
    assert!(!a.intersect(&touching));
}

#[test]
fn sat_rotated_rect() {
    // A diamond (a square rotated an eighth of a turn) against an
    // axis-aligned square that clearly shares interior with it.
    let diamond = Shape::Rect(
        Rect::from_centre(
            Vec2::zero(),
            Vec2::new(100_000_000, 100_000_000),
            Rot::new(785_398, 707_107, 707_107),
        ),
    );
    let square = Shape::Rect(
        Rect::from_centre(
            Vec2::new(60_000_000, 0),
            Vec2::new(100_000_000, 100_000_000),
            Rot::identity(),
        ),
    );
    let far_square = Shape::Rect(
        Rect::from_centre(
            Vec2::new(300_000_000, 0),
            Vec2::new(100_000_000, 100_000_000),
            Rot::identity(),
        ),
    );
    assert!(diamond.intersect(&square));
    assert!(square.intersect(&diamond));
    assert!(!diamond.intersect(&far_square));
}

#[test]
fn circle_rect_regions() {
    let rect = Shape::Rect(
        Rect::from_centre(
            Vec2::zero(),
            Vec2::new(200_000_000, 100_000_000),
            Rot::identity(),
        ),
    );
    // Edge region: closest point is the perpendicular foot on the right edge.
    let by_edge = Shape::Circle(Circle::new(Vec2::new(150_000_000, 0), 60_000_000));
    assert!(rect.intersect(&by_edge));
    let off_edge = Shape::Circle(Circle::new(Vec2::new(150_000_000, 0), 40_000_000));
    assert!(!rect.intersect(&off_edge));
    // Corner region: closest point is the top-right corner at (100, 50).
    let by_corner = Shape::Circle(Circle::new(Vec2::new(130_000_000, 90_000_000), 50_000_000));
    assert!(rect.intersect(&by_corner));
    let off_corner = Shape::Circle(Circle::new(Vec2::new(130_000_000, 90_000_000), 49_000_000));
    assert!(!rect.intersect(&off_corner));
    // Centre inside the rectangle: always intersecting.
    let inside = Shape::Circle(Circle::new(Vec2::new(50_000_000, 10_000_000), 1_000_000));
    assert!(rect.intersect(&inside));
}

#[test]
fn circle_rect_under_rotation() {
    // A 20x10 rectangle a quarter turn round stands 10 wide and 20 tall
    // in the world; a circle two units past its true top edge meets it
    // only if its radius covers the gap.
    let rect = Shape::Rect(
        Rect::from_centre(
            Vec2::zero(),
            Vec2::new(200_000_000, 100_000_000),
            Rot::new(1_570_796, 0, 1_000_000),
        ),
    );
    let reaching = Shape::Circle(Circle::new(Vec2::new(0, 120_000_000), 30_000_000));
    let short = Shape::Circle(Circle::new(Vec2::new(0, 120_000_000), 15_000_000));
    assert!(rect.intersect(&reaching));
    assert!(reaching.intersect(&rect));
    assert!(!rect.intersect(&short));
    assert!(!short.intersect(&rect));
}

#[test]
fn intersection_is_symmetric() {
    let circle = Shape::Circle(Circle::new(Vec2::new(150_000_000, 0), 60_000_000));
    let rect = Shape::Rect(
        Rect::from_centre(
            Vec2::zero(),
            Vec2::new(200_000_000, 100_000_000),
            Rot::identity(),
        ),
    );
    let far_circle = Shape::Circle(Circle::new(Vec2::new(500_000_000, 0), 60_000_000));
    assert_eq!(circle.intersect(&rect), rect.intersect(&circle));
    assert!(rect.intersect(&circle));
    assert_eq!(far_circle.intersect(&rect), rect.intersect(&far_circle));
    assert!(!rect.intersect(&far_circle));
    assert_eq!(circle.intersect(&far_circle), far_circle.intersect(&circle));
}

#[test]
fn detector_reports_each_pair_once_in_order() {
    // Three circles where only the first and the third overlap.
    let objects = vec![
        Shape::Circle(Circle::new(Vec2::zero(), 100_000_000)),
        Shape::Circle(Circle::new(Vec2::new(500_000_000, 0), 100_000_000)),
        Shape::Circle(Circle::new(Vec2::new(50_000_000, 0), 100_000_000)),
    ];
    assert_eq!(detectIntersections(&objects), vec![(0, 2)]);
    let none = vec![
        Shape::Circle(Circle::new(Vec2::zero(), 100_000_000)),
        Shape::Circle(Circle::new(Vec2::new(500_000_000, 0), 100_000_000)),
    ];
    assert!(detectIntersections(&none).is_empty());
    // A cluster where every pair overlaps: ascending lexicographic order.
    let cluster = vec![
        Shape::Circle(Circle::new(Vec2::zero(), 100_000_000)),
        Shape::Circle(Circle::new(Vec2::new(50_000_000, 0), 100_000_000)),
        Shape::Circle(Circle::new(Vec2::new(100_000_000, 0), 100_000_000)),
    ];
    assert_eq!(detectIntersections(&cluster), vec![(0, 1), (0, 2), (1, 2)]);
}
