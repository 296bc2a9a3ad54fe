//! The closed shape union: every physics and intersection operation
//! dispatches on the active variant, so the rest of the system can treat
//! heterogeneous shapes uniformly in one ordered collection. The all-pairs
//! intersection detector lives here too.

use vstd::prelude::*;
use crate::vec2::{Vec2, in_mag};
use crate::circle::{
    Circle, circle_contains_s, circles_intersect_s, circle_resize_radius_s, bounce_velocity_s,
    wall_bounce_velocity_s, step_velocity_s, step_position_s,
};
use crate::rect::{
    Rect, Rot, rect_pos_x, rect_pos_y, rect_contains_s, rects_intersect_s,
    rect_circle_intersects_s, rect_resize_size_s, rect_size_clamped_s, rect_mass_s, from_centre_s,
};
use crate::vec2::{tdiv, clamp_s};
use crate::{POS_LIMIT, VEL_LIMIT, ANGLE_LIMIT, STEPS_PER_SECOND};

verus! {

/// A shape: a tagged choice between an oriented rectangle and a circle.
#[derive(Clone, Copy, Debug, PartialEq, Eq, Structural)]
pub enum Shape {
    Rect(Rect),
    Circle(Circle),
}

/// The intersection predicate over the closed union: circle-circle by
/// centre distance, circle-rectangle by region classification (evaluated
/// identically from either operand, which makes symmetry structural), and
/// rectangle-rectangle by separating axes.
pub open spec fn shapes_intersect_s(a: Shape, b: Shape) -> bool {
    match (a, b) {
        (Shape::Circle(c1), Shape::Circle(c2)) => circles_intersect_s(c1, c2),
        (Shape::Circle(c), Shape::Rect(r)) => rect_circle_intersects_s(r, c),
        (Shape::Rect(r), Shape::Circle(c)) => rect_circle_intersects_s(r, c),
        (Shape::Rect(r1), Shape::Rect(r2)) => rects_intersect_s(r1, r2),
    }
}

/// The intersection contract: an implementor reports exactly its spec-level
/// predicate against any shape.
pub trait Intersect {
    /// The mathematical intersection predicate this type answers for.
    spec fn intersects_s(&self, other: Shape) -> bool;

    /// What the implementor needs of itself to decide the predicate.
    spec fn intersect_wf(&self) -> bool;

    fn intersect(&self, other: &Shape) -> (r: bool)
        requires
            self.intersect_wf(),
            other.wf(),
        ensures
            r == self.intersects_s(*other),
    ;
}

/// The value of a shape after a rigid translation to `p`.
pub open spec fn shape_translated_s(s: Shape, p: Vec2) -> Shape {
    match s {
        Shape::Circle(c) => Shape::Circle(Circle { centre: p, ..c }),
        Shape::Rect(r) => Shape::Rect(
            Rect {
                p0: Vec2 {
                    x: (r.p0.x + p.x - rect_pos_x(r)) as i64,
                    y: (r.p0.y + p.y - rect_pos_y(r)) as i64,
                },
                p1: Vec2 {
                    x: (r.p1.x + p.x - rect_pos_x(r)) as i64,
                    y: (r.p1.y + p.y - rect_pos_y(r)) as i64,
                },
                p2: Vec2 {
                    x: (r.p2.x + p.x - rect_pos_x(r)) as i64,
                    y: (r.p2.y + p.y - rect_pos_y(r)) as i64,
                },
                p3: Vec2 {
                    x: (r.p3.x + p.x - rect_pos_x(r)) as i64,
                    y: (r.p3.y + p.y - rect_pos_y(r)) as i64,
                },
                ..r
            },
        ),
    }
}

/// The value of a shape after a velocity kick.
pub open spec fn shape_impulsed_s(s: Shape, dv: Vec2) -> Shape {
    match s {
        Shape::Circle(c) => Shape::Circle(
            Circle {
                velocity: Vec2 {
                    x: (c.velocity.x + dv.x) as i64,
                    y: (c.velocity.y + dv.y) as i64,
                },
                ..c
            },
        ),
        Shape::Rect(r) => Shape::Rect(
            Rect {
                velocity: Vec2 {
                    x: (r.velocity.x + dv.x) as i64,
                    y: (r.velocity.y + dv.y) as i64,
                },
                ..r
            },
        ),
    }
}

/// The value of a shape after an angular velocity kick.
pub open spec fn shape_ang_impulsed_s(s: Shape, di: i64) -> Shape {
    match s {
        Shape::Circle(c) => Shape::Circle(
            Circle { angular_velocity: (c.angular_velocity + di) as i64, ..c },
        ),
        Shape::Rect(r) => Shape::Rect(
            Rect { angular_velocity: (r.angular_velocity + di) as i64, ..r },
        ),
    }
}

/// The value of a shape after one fixed timestep under `g`.
pub open spec fn shape_integrated_s(s: Shape, g: Vec2) -> Shape {
    match s {
        Shape::Circle(c) => Shape::Circle(
            Circle {
                centre: Vec2 {
                    x: step_position_s(c.centre.x as int, c.velocity.x as int, g.x as int) as i64,
                    y: step_position_s(c.centre.y as int, c.velocity.y as int, g.y as int) as i64,
                },
                velocity: Vec2 {
                    x: step_velocity_s(c.velocity.x as int, g.x as int) as i64,
                    y: step_velocity_s(c.velocity.y as int, g.y as int) as i64,
                },
                ..c
            },
        ),
        Shape::Rect(r) => {
            let dx = step_position_s(rect_pos_x(r), r.velocity.x as int, g.x as int) - rect_pos_x(
                r,
            );
            let dy = step_position_s(rect_pos_y(r), r.velocity.y as int, g.y as int) - rect_pos_y(
                r,
            );
            Shape::Rect(
                Rect {
                    p0: Vec2 { x: (r.p0.x + dx) as i64, y: (r.p0.y + dy) as i64 },
                    p1: Vec2 { x: (r.p1.x + dx) as i64, y: (r.p1.y + dy) as i64 },
                    p2: Vec2 { x: (r.p2.x + dx) as i64, y: (r.p2.y + dy) as i64 },
                    p3: Vec2 { x: (r.p3.x + dx) as i64, y: (r.p3.y + dy) as i64 },
                    rot: Rot {
                        angle: clamp_s(
                            r.rot.angle + tdiv(r.angular_velocity as int, STEPS_PER_SECOND as int),
                            ANGLE_LIMIT as int,
                        ) as i64,
                        cos: r.rot.cos,
                        sin: r.rot.sin,
                    },
                    velocity: Vec2 {
                        x: step_velocity_s(r.velocity.x as int, g.x as int) as i64,
                        y: step_velocity_s(r.velocity.y as int, g.y as int) as i64,
                    },
                    ..r
                },
            )
        },
    }
}

/// The value of a shape after a resize drag against its archived snapshot.
pub open spec fn shape_resized_s(s: Shape, archive: Shape, p: Vec2, np: Vec2) -> Shape {
    match (s, archive) {
        (Shape::Circle(c), Shape::Circle(ac)) => Shape::Circle(
            Circle { radius: circle_resize_radius_s(ac.radius as int, p, np) as i64, ..c },
        ),
        (Shape::Rect(r), Shape::Rect(ar)) => Shape::Rect(
            from_centre_s(
                Vec2 { x: rect_pos_x(r) as i64, y: rect_pos_y(r) as i64 },
                Vec2 {
                    x: rect_resize_size_s(r, ar, p, np).0 as i64,
                    y: rect_resize_size_s(r, ar, p, np).1 as i64,
                },
                r.rot,
                rect_mass_s(rect_resize_size_s(r, ar, p, np).0, rect_resize_size_s(r, ar, p, np).1),
            ),
        ),
        _ => s,
    }
}

/// The value of a shape after a rotate drag to the rotation `rot`.
pub open spec fn shape_rotated_s(s: Shape, rot: Rot) -> Shape {
    match s {
        Shape::Circle(_) => s,
        Shape::Rect(r) => Shape::Rect(
            from_centre_s(
                Vec2 { x: rect_pos_x(r) as i64, y: rect_pos_y(r) as i64 },
                Vec2 { x: rect_size_clamped_s(r).0 as i64, y: rect_size_clamped_s(r).1 as i64 },
                rot,
                rect_mass_s(rect_size_clamped_s(r).0, rect_size_clamped_s(r).1),
            ),
        ),
    }
}

/// The value of a shape after its collision response against `other`.
pub open spec fn shape_bounced_s(s: Shape, other: Shape) -> Shape {
    match s {
        Shape::Rect(_) => s,
        Shape::Circle(c) => match other {
            Shape::Circle(o) => Shape::Circle(
                Circle {
                    velocity: Vec2 {
                        x: bounce_velocity_s(c, o).0 as i64,
                        y: bounce_velocity_s(c, o).1 as i64,
                    },
                    ..c
                },
            ),
            Shape::Rect(_) => Shape::Circle(
                Circle {
                    velocity: Vec2 {
                        x: wall_bounce_velocity_s(c).0 as i64,
                        y: wall_bounce_velocity_s(c).1 as i64,
                    },
                    ..c
                },
            ),
        },
    }
}

impl Shape {
    /// Well-formed: the active variant is.
    pub open spec fn wf(&self) -> bool {
        match *self {
            Shape::Rect(r) => r.wf(),
            Shape::Circle(c) => c.wf(),
        }
    }

    /// The centroid's x coordinate.
    pub open spec fn pos_x_s(&self) -> int {
        match *self {
            Shape::Rect(r) => rect_pos_x(r),
            Shape::Circle(c) => c.centre.x as int,
        }
    }

    pub open spec fn pos_y_s(&self) -> int {
        match *self {
            Shape::Rect(r) => rect_pos_y(r),
            Shape::Circle(c) => c.centre.y as int,
        }
    }

    /// Containment of a point, by the active variant's test.
    pub open spec fn contains_s(&self, p: Vec2) -> bool {
        match *self {
            Shape::Rect(r) => rect_contains_s(r, p),
            Shape::Circle(c) => circle_contains_s(c, p),
        }
    }

    pub open spec fn velocity_s(&self) -> Vec2 {
        match *self {
            Shape::Rect(r) => r.velocity,
            Shape::Circle(c) => c.velocity,
        }
    }

    pub open spec fn angular_velocity_s(&self) -> i64 {
        match *self {
            Shape::Rect(r) => r.angular_velocity,
            Shape::Circle(c) => c.angular_velocity,
        }
    }

    pub open spec fn mass_s(&self) -> i64 {
        match *self {
            Shape::Rect(r) => r.mass,
            Shape::Circle(c) => c.mass,
        }
    }

    /// The centroid of the active variant.
    pub fn position(&self) -> (r: Vec2)
        requires
            self.wf(),
        ensures
            r.x == self.pos_x_s(),
            r.y == self.pos_y_s(),
    {
        match self {
            Shape::Rect(rect) => rect.position(),
            Shape::Circle(circle) => circle.position(),
        }
    }

    pub fn velocity(&self) -> (r: Vec2)
        ensures
            r == self.velocity_s(),
    {
        match self {
            Shape::Rect(rect) => rect.velocity(),
            Shape::Circle(circle) => circle.velocity(),
        }
    }

    pub fn angular_velocity(&self) -> (r: i64)
        ensures
            r == self.angular_velocity_s(),
    {
        match self {
            Shape::Rect(rect) => rect.angular_velocity(),
            Shape::Circle(circle) => circle.angular_velocity(),
        }
    }

    pub fn mass(&self) -> (r: i64)
        ensures
            r == self.mass_s(),
    {
        match self {
            Shape::Rect(rect) => rect.mass(),
            Shape::Circle(circle) => circle.mass(),
        }
    }

    /// Velocity kick on the active variant.
    pub fn impulse(&mut self, impulse: &Vec2)
        requires
            -VEL_LIMIT <= old(self).velocity_s().x + impulse.x <= VEL_LIMIT,
            -VEL_LIMIT <= old(self).velocity_s().y + impulse.y <= VEL_LIMIT,
        ensures
            *final(self) == shape_impulsed_s(*old(self), *impulse),
    {
        match self {
            Shape::Rect(rect) => rect.impulse(impulse),
            Shape::Circle(circle) => circle.impulse(impulse),
        }
    }

    /// Angular velocity kick on the active variant.
    pub fn angular_impulse(&mut self, impulse: i64)
        requires
            -VEL_LIMIT <= old(self).angular_velocity_s() + impulse <= VEL_LIMIT,
        ensures
            *final(self) == shape_ang_impulsed_s(*old(self), impulse),
    {
        match self {
            Shape::Rect(rect) => rect.angular_impulse(impulse),
            Shape::Circle(circle) => circle.angular_impulse(impulse),
        }
    }

    /// One fixed timestep on the active variant.
    pub fn integrate(&mut self, gravity: &Vec2)
        requires
            old(self).wf(),
            in_mag(*gravity, VEL_LIMIT as int),
        ensures
            *final(self) == shape_integrated_s(*old(self), *gravity),
            final(self).wf(),
    {
        match self {
            Shape::Rect(rect) => rect.integrate(gravity),
            Shape::Circle(circle) => circle.integrate(gravity),
        }
    }

    /// Containment of a point by the active variant's test.
    pub fn pointIn(&self, point: &Vec2) -> (r: bool)
        requires
            self.wf(),
            in_mag(*point, POS_LIMIT as int),
        ensures
            r == self.contains_s(*point),
    {
        match self {
            Shape::Rect(rect) => rect.pointIn(point),
            Shape::Circle(circle) => circle.pointIn(point),
        }
    }

    /// Rigid translation of the active variant: its centroid becomes
    /// `point`.
    pub fn translateTo(&mut self, point: &Vec2)
        requires
            old(self).wf(),
            in_mag(*point, POS_LIMIT as int),
        ensures
            *final(self) == shape_translated_s(*old(self), *point),
            final(self).wf(),
    {
        match self {
            Shape::Rect(rect) => rect.translateTo(point),
            Shape::Circle(circle) => circle.translateTo(point),
        }
    }

    /// A resize drag on the active variant, relative to the archived
    /// snapshot; the archive must hold the same variant (the manipulation
    /// machine only ever pairs a shape with its own snapshot).
    pub fn resize(&mut self, point: &Vec2, newPoint: &Vec2, archive: &Shape)
        requires
            old(self).wf(),
            archive.wf(),
            in_mag(*point, 2 * POS_LIMIT as int),
            in_mag(*newPoint, 2 * POS_LIMIT as int),
            *old(self) matches Shape::Circle(_) <==> *archive matches Shape::Circle(_),
        ensures
            *final(self) == shape_resized_s(*old(self), *archive, *point, *newPoint),
            final(self).wf(),
    {
        match (self, archive) {
            (Shape::Rect(rect), Shape::Rect(rArchive)) => rect.resize(point, newPoint, rArchive),
            (Shape::Circle(circle), Shape::Circle(cArchive)) => circle.resize(
                point,
                newPoint,
                cArchive,
            ),
            _ => {
                proof {
                    assert(false);
                }
            },
        }
    }

    /// A rotate drag on the active variant: a circle is rotationally
    /// symmetric and unchanged; a rectangle is rebuilt about its centroid at
    /// the supplied rotation (the caller derives it from the archived angle
    /// plus the polar angle swept from the grab to the pointer, trigonometry
    /// the core does not own).
    pub fn rotate(&mut self, rot: Rot)
        requires
            old(self).wf(),
            rot.wf(),
        ensures
            *final(self) == shape_rotated_s(*old(self), rot),
            final(self).wf(),
    {
        match self {
            Shape::Rect(rect) => rect.set_rotation(rot),
            Shape::Circle(_) => (),
        }
    }

    /// Collision response of the active variant: a circle bounces
    /// elastically off another circle, reflects off the window walls that a
    /// rectangle stands in for, and a rectangle's response is reserved (a
    /// no-op).
    pub fn bounce(&mut self, other: &Shape)
        requires
            old(self).wf(),
            other.wf(),
        ensures
            *final(self) == shape_bounced_s(*old(self), *other),
            final(self).wf(),
    {
        match self {
            Shape::Rect(_) => (),
            Shape::Circle(circle) => match other {
                Shape::Circle(o) => circle.bounce_circle(o),
                Shape::Rect(_) => circle.bounce_wall(),
            },
        }
    }
}

impl Intersect for Shape {
    open spec fn intersects_s(&self, other: Shape) -> bool {
        shapes_intersect_s(*self, other)
    }

    open spec fn intersect_wf(&self) -> bool {
        self.wf()
    }

    fn intersect(&self, other: &Shape) -> (r: bool) {
        match (self, other) {
            (Shape::Circle(c1), Shape::Circle(c2)) => c1.intersect_circle(c2),
            (Shape::Circle(c), Shape::Rect(r)) => r.intersect_circle(c),
            (Shape::Rect(r), Shape::Circle(c)) => r.intersect_circle(c),
            (Shape::Rect(r1), Shape::Rect(r2)) => r1.intersect_rect(r2),
        }
    }
}

impl Intersect for Circle {
    open spec fn intersects_s(&self, other: Shape) -> bool {
        shapes_intersect_s(Shape::Circle(*self), other)
    }

    open spec fn intersect_wf(&self) -> bool {
        self.wf()
    }

    fn intersect(&self, other: &Shape) -> (r: bool) {
        match other {
            Shape::Circle(c2) => self.intersect_circle(c2),
            Shape::Rect(r) => r.intersect_circle(self),
        }
    }
}

impl Intersect for Rect {
    open spec fn intersects_s(&self, other: Shape) -> bool {
        shapes_intersect_s(Shape::Rect(*self), other)
    }

    open spec fn intersect_wf(&self) -> bool {
        self.wf()
    }

    fn intersect(&self, other: &Shape) -> (r: bool) {
        match other {
            Shape::Circle(c) => self.intersect_circle(c),
            Shape::Rect(r2) => self.intersect_rect(r2),
        }
    }
}

/// Strict lexicographic order on index pairs.
pub open spec fn pair_lt(a: (usize, usize), b: (usize, usize)) -> bool {
    a.0 < b.0 || (a.0 == b.0 && a.1 < b.1)
}

/// The intersecting pairs at or after scan position `(i, j)`, in ascending
/// lexicographic order: the tail of the all-pairs scan.
pub open spec fn pairs_from_s(objs: Seq<Shape>, i: int, j: int) -> Seq<(usize, usize)>
    decreases objs.len() - i, objs.len() - j,
{
    if i < 0 || j <= i || i >= objs.len() {
        Seq::empty()
    } else if j >= objs.len() {
        pairs_from_s(objs, i + 1, i + 2)
    } else if shapes_intersect_s(objs[i], objs[j]) {
        seq![(i as usize, j as usize)] + pairs_from_s(objs, i, j + 1)
    } else {
        pairs_from_s(objs, i, j + 1)
    }
}

/// The complete list of intersecting pairs `(i, j)` with `i < j`, ascending.
pub open spec fn detect_pairs_s(objs: Seq<Shape>) -> Seq<(usize, usize)> {
    pairs_from_s(objs, 0, 1)
}

/// Every shape of the collection is well-formed.
pub open spec fn all_wf(objects: Seq<Shape>) -> bool {
    forall|i: int| 0 <= i < objects.len() ==> (#[trigger] objects[i]).wf()
}

/// The exhaustive all-pairs scan: every unordered pair of intersecting
/// shapes, reported exactly once as `(i, j)` with `i < j`, in ascending
/// lexicographic order.
pub fn detectIntersections(objects: &Vec<Shape>) -> (r: Vec<(usize, usize)>)
    requires
        all_wf(objects@),
    ensures
        forall|k: int|
            0 <= k < r@.len() ==> (#[trigger] r@[k]).0 < r@[k].1 && r@[k].1 < objects@.len()
                && shapes_intersect_s(objects@[r@[k].0 as int], objects@[r@[k].1 as int]),
        forall|i: int, j: int|
            0 <= i < j < objects@.len() && shapes_intersect_s(objects@[i], objects@[j])
                ==> r@.contains((i as usize, j as usize)),
        forall|k1: int, k2: int| 0 <= k1 < k2 < r@.len() ==> pair_lt(r@[k1], r@[k2]),
        r@ == detect_pairs_s(objects@),
{
    let n: usize = objects.len();
    let mut intersections: Vec<(usize, usize)> = Vec::new();
    let mut i: usize = 0;
    while i < n
        invariant
            all_wf(objects@),
            n == objects@.len(),
            i <= n,
            forall|k: int|
                0 <= k < intersections@.len() ==> (#[trigger] intersections@[k]).0
                    < intersections@[k].1 && intersections@[k].1 < n && intersections@[k].0 < i
                    && shapes_intersect_s(
                    objects@[intersections@[k].0 as int],
                    objects@[intersections@[k].1 as int],
                ),
            forall|i0: int, j0: int|
                0 <= i0 < j0 < n && i0 < i && shapes_intersect_s(objects@[i0], objects@[j0])
                    ==> intersections@.contains((i0 as usize, j0 as usize)),
            forall|k1: int, k2: int|
                0 <= k1 < k2 < intersections@.len() ==> pair_lt(
                    intersections@[k1],
                    intersections@[k2],
                ),
            intersections@ + pairs_from_s(objects@, i as int, i + 1) == detect_pairs_s(objects@),
        decreases n - i,
    {
        let mut j: usize = i + 1;
        while j < n
            invariant
                all_wf(objects@),
                n == objects@.len(),
                i < n,
                i < j <= n,
                forall|k: int|
                    0 <= k < intersections@.len() ==> (#[trigger] intersections@[k]).0
                        < intersections@[k].1 && intersections@[k].1 < n && (intersections@[k].0 < i
                        || (intersections@[k].0 == i && intersections@[k].1 < j))
                        && shapes_intersect_s(
                        objects@[intersections@[k].0 as int],
                        objects@[intersections@[k].1 as int],
                    ),
                forall|i0: int, j0: int|
                    0 <= i0 < j0 < n && (i0 < i || (i0 == i && j0 < j)) && shapes_intersect_s(
                        objects@[i0],
                        objects@[j0],
                    ) ==> intersections@.contains((i0 as usize, j0 as usize)),
                forall|k1: int, k2: int|
                    0 <= k1 < k2 < intersections@.len() ==> pair_lt(
                        intersections@[k1],
                        intersections@[k2],
                    ),
                intersections@ + pairs_from_s(objects@, i as int, j as int) == detect_pairs_s(
                    objects@,
                ),
            decreases n - j,
        {
            let oi = objects[i];
            let oj = objects[j];
            assert(oi.wf() && oj.wf());
            let ghost pre = intersections@;
            if oi.intersect(&oj) {
                intersections.push((i, j));
            }
            proof {
                assert(pairs_from_s(objects@, i as int, j as int) =~= (
                if shapes_intersect_s(objects@[i as int], objects@[j as int]) {
                    seq![(i, j)] + pairs_from_s(objects@, i as int, j as int + 1)
                } else {
                    pairs_from_s(objects@, i as int, j as int + 1)
                }));
                if shapes_intersect_s(objects@[i as int], objects@[j as int]) {
                    assert(intersections@ =~= pre + seq![(i, j)]);
                    assert((pre + seq![(i, j)]) + pairs_from_s(objects@, i as int, j as int + 1)
                        =~= pre + (seq![(i, j)] + pairs_from_s(objects@, i as int, j as int + 1)));
                }
                assert forall|i0: int, j0: int|
                    0 <= i0 < j0 < n && (i0 < i || (i0 == i && j0 < j + 1)) && shapes_intersect_s(
                        objects@[i0],
                        objects@[j0],
                    ) implies intersections@.contains((i0 as usize, j0 as usize)) by {
                    if i0 == i && j0 == j {
                        assert(intersections@[intersections@.len() - 1] == (i, j));
                    } else {
                        assert(pre.contains((i0 as usize, j0 as usize)));
                        let k = choose|k: int|
                            0 <= k < pre.len() && pre[k] == (i0 as usize, j0 as usize);
                        assert(intersections@[k] == (i0 as usize, j0 as usize));
                    }
                }
            }
            j = j + 1;
        }
        proof {
            assert(pairs_from_s(objects@, i as int, n as int) =~= pairs_from_s(
                objects@,
                i as int + 1,
                i as int + 2,
            ));
        }
        i = i + 1;
    }
    intersections
}

} // verus!
