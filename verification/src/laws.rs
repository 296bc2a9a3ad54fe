//! The library's stated laws, proved once and for all: a shape contains its
//! own centroid (also after any rigid translation), the intersection
//! predicate is symmetric, and the circle-circle criterion is exactly the
//! strict distance test.

use vstd::prelude::*;
use crate::vec2::{Vec2, in_mag, lemma_square_nonneg};
use crate::circle::{Circle, circle_contains_s, circles_intersect_s};
use crate::rect::{
    Rect, rect_pos_x, rect_pos_y, rect_contains_s, rects_intersect_s, edge_crossing_s,
    crossing_count_s, axis_overlap_s,
};
use crate::shape::{Shape, shapes_intersect_s, shape_translated_s};
use crate::POS_LIMIT;

verus! {

/// A well-formed circle contains its own centre.
pub proof fn lemma_circle_contains_centre(c: Circle)
    requires
        c.wf(),
    ensures
        circle_contains_s(c, c.centre),
{
    lemma_square_nonneg(c.radius as int);
}

/// A rectangle is degenerate for the centroid test when a corner lies at
/// the centroid's height (the horizontal ray then slips between the open
/// edges) or when the two corner offsets are collinear (zero area).
pub open spec fn rect_centroid_degenerate(r: Rect) -> bool {
    let ay = r.p0.y - rect_pos_y(r);
    let by = r.p1.y - rect_pos_y(r);
    let ax = r.p0.x - rect_pos_x(r);
    let bx = r.p1.x - rect_pos_x(r);
    ay == 0 || by == 0 || ax * by - ay * bx == 0
}

/// A well-formed, non-degenerate rectangle contains its own centroid: of
/// the four open edges, the horizontal ray from the centroid crosses
/// exactly one. The corners sit at `q + a`, `q + b`, `q - a`, `q - b`
/// around the centroid `q`; every edge's orientation product reduces to the
/// same cross product of `a` and `b`, and the sign analysis of the corner
/// heights leaves exactly one crossing edge.
pub proof fn lemma_rect_contains_centroid(r: Rect)
    requires
        r.wf(),
        !rect_centroid_degenerate(r),
    ensures
        rect_contains_s(r, Vec2 { x: rect_pos_x(r) as i64, y: rect_pos_y(r) as i64 }),
{
    let q = Vec2 { x: rect_pos_x(r) as i64, y: rect_pos_y(r) as i64 };
    let ax = r.p0.x - q.x as int;
    let ay = r.p0.y - q.y as int;
    let bx = r.p1.x - q.x as int;
    let by = r.p1.y - q.y as int;
    let d = ax * by - ay * bx;
    assert(r.p2.x - q.x == -ax && r.p2.y - q.y == -ay);
    assert(r.p3.x - q.x == -bx && r.p3.y - q.y == -by);
    let c0 = edge_crossing_s(q, r.p0, r.p1);
    let c1 = edge_crossing_s(q, r.p1, r.p2);
    let c2 = edge_crossing_s(q, r.p2, r.p3);
    let c3 = edge_crossing_s(q, r.p3, r.p0);
    assert((r.p1.x - q.x) * (r.p0.y - r.p1.y) + (q.y - r.p1.y) * (r.p0.x - r.p1.x) == -d)
        by (nonlinear_arith)
        requires
            ax == r.p0.x - q.x,
            ay == r.p0.y - q.y,
            bx == r.p1.x - q.x,
            by == r.p1.y - q.y,
            d == ax * by - ay * bx,
    ;
    assert((r.p2.x - q.x) * (r.p1.y - r.p2.y) + (q.y - r.p2.y) * (r.p1.x - r.p2.x) == -d)
        by (nonlinear_arith)
        requires
            r.p2.x - q.x == -ax,
            r.p2.y - q.y == -ay,
            bx == r.p1.x - q.x,
            by == r.p1.y - q.y,
            d == ax * by - ay * bx,
    ;
    assert((r.p3.x - q.x) * (r.p2.y - r.p3.y) + (q.y - r.p3.y) * (r.p2.x - r.p3.x) == -d)
        by (nonlinear_arith)
        requires
            r.p2.x - q.x == -ax,
            r.p2.y - q.y == -ay,
            r.p3.x - q.x == -bx,
            r.p3.y - q.y == -by,
            d == ax * by - ay * bx,
    ;
    assert((r.p0.x - q.x) * (r.p3.y - r.p0.y) + (q.y - r.p0.y) * (r.p3.x - r.p0.x) == -d)
        by (nonlinear_arith)
        requires
            ax == r.p0.x - q.x,
            ay == r.p0.y - q.y,
            r.p3.x - q.x == -bx,
            r.p3.y - q.y == -by,
            d == ax * by - ay * bx,
    ;
    if (ay > 0 && by < 0) || (ay < 0 && by > 0) {
        assert(!c1 && !c3);
        assert(c0 != c2);
    } else {
        assert(ay != 0 && by != 0);
        assert(!c0 && !c2);
        assert(c1 != c3);
    }
    assert(crossing_count_s(r, q) == 1);
}

/// Every shape contains its own centroid (for rectangles: every
/// non-degenerate one).
pub proof fn lemma_shape_contains_centre(s: Shape)
    requires
        s.wf(),
        s matches Shape::Rect(r) ==> !rect_centroid_degenerate(r),
    ensures
        s.contains_s(Vec2 { x: s.pos_x_s() as i64, y: s.pos_y_s() as i64 }),
{
    match s {
        Shape::Circle(c) => {
            lemma_circle_contains_centre(c);
        },
        Shape::Rect(r) => {
            lemma_rect_contains_centroid(r);
        },
    }
}

/// Containment of the centroid is invariant under rigid translation: after
/// `translateTo(p)` the shape contains `p`, its new centroid.
pub proof fn lemma_contains_centre_after_translate(s: Shape, p: Vec2)
    requires
        s.wf(),
        in_mag(p, POS_LIMIT as int),
        s matches Shape::Rect(r) ==> !rect_centroid_degenerate(r),
    ensures
        shape_translated_s(s, p).contains_s(p),
{
    match s {
        Shape::Circle(c) => {
            lemma_circle_contains_centre(Circle { centre: p, ..c });
        },
        Shape::Rect(r) => {
            let s2 = shape_translated_s(s, p);
            let r2 = shape_translated_s(s, p)->Rect_0;
            let dx = p.x - rect_pos_x(r);
            let dy = p.y - rect_pos_y(r);
            assert(rect_pos_x(r2) == p.x && rect_pos_y(r2) == p.y) by {
                crate::vec2::lemma_tdiv_even_half(r.p0.x + r.p2.x);
                crate::vec2::lemma_tdiv_even_half(r.p0.y + r.p2.y);
                vstd::arithmetic::div_mod::lemma_div_multiples_vanish(p.x as int, 2);
                vstd::arithmetic::div_mod::lemma_div_multiples_vanish(p.y as int, 2);
                vstd::arithmetic::div_mod::lemma_mod_multiples_basic(p.x as int, 2);
                vstd::arithmetic::div_mod::lemma_mod_multiples_basic(p.y as int, 2);
                assert(r2.p0.x + r2.p2.x == 2 * p.x);
                assert(r2.p0.y + r2.p2.y == 2 * p.y);
            }
            assert(r2.wf());
            assert(!rect_centroid_degenerate(r2));
            lemma_rect_contains_centroid(r2);
        },
    }
}

/// The intersection predicate is symmetric: `a` meets `b` exactly when `b`
/// meets `a`, whatever the two shapes are.
pub proof fn lemma_intersect_symmetric(a: Shape, b: Shape)
    ensures
        shapes_intersect_s(a, b) == shapes_intersect_s(b, a),
{
    match (a, b) {
        (Shape::Circle(c1), Shape::Circle(c2)) => {
            lemma_circles_intersect_symmetric(c1, c2);
        },
        (Shape::Circle(_), Shape::Rect(_)) => (),
        (Shape::Rect(_), Shape::Circle(_)) => (),
        (Shape::Rect(r1), Shape::Rect(r2)) => {
            lemma_rects_intersect_symmetric(r1, r2);
        },
    }
}

/// Circle-circle intersection is symmetric: both squared distances and the
/// radius sums agree.
pub proof fn lemma_circles_intersect_symmetric(c1: Circle, c2: Circle)
    ensures
        circles_intersect_s(c1, c2) == circles_intersect_s(c2, c1),
{
    let dx = c1.centre.x - c2.centre.x;
    let dy = c1.centre.y - c2.centre.y;
    assert(dx * dx == (-dx) * (-dx) && dy * dy == (-dy) * (-dy)) by (nonlinear_arith);
}

/// The separating-axis test is symmetric: the interval-overlap test on each
/// axis does not care which rectangle came first, and both orders test the
/// same four axes.
pub proof fn lemma_rects_intersect_symmetric(r1: Rect, r2: Rect)
    ensures
        rects_intersect_s(r1, r2) == rects_intersect_s(r2, r1),
{
    assert forall|nx: int, ny: int| #[trigger]
        axis_overlap_s(nx, ny, r1, r2) == axis_overlap_s(nx, ny, r2, r1) by {
    }
}

/// The circle-circle criterion: with `d` the distance between the centres
/// (given by its floor and the defining square bounds), two circles
/// intersect exactly when `d` is strictly below the sum of the radii;
/// circles touching at exactly the radius sum do not intersect.
pub proof fn lemma_circle_circle_criterion(a: Circle, b: Circle, d: int)
    requires
        a.wf(),
        b.wf(),
        d >= 0,
        d * d <= (a.centre.x - b.centre.x) * (a.centre.x - b.centre.x) + (a.centre.y - b.centre.y)
            * (a.centre.y - b.centre.y),
        (a.centre.x - b.centre.x) * (a.centre.x - b.centre.x) + (a.centre.y - b.centre.y) * (
        a.centre.y - b.centre.y) < (d + 1) * (d + 1),
    ensures
        circles_intersect_s(a, b) <==> d < a.radius + b.radius,
{
    let s = a.radius + b.radius as int;
    let d2 = (a.centre.x - b.centre.x) * (a.centre.x - b.centre.x) + (a.centre.y - b.centre.y) * (
    a.centre.y - b.centre.y);
    if d < s {
        vstd::arithmetic::mul::lemma_mul_inequality(d + 1, s, d + 1);
        vstd::arithmetic::mul::lemma_mul_inequality(d + 1, s, s);
        vstd::arithmetic::mul::lemma_mul_is_commutative(d + 1, s);
        assert(d2 < s * s);
    } else {
        vstd::arithmetic::mul::lemma_mul_inequality(s, d, s);
        vstd::arithmetic::mul::lemma_mul_inequality(s, d, d);
        vstd::arithmetic::mul::lemma_mul_is_commutative(s, d);
        assert(s * s <= d2);
    }
}

} // verus!
