//! Oriented rectangles: four corner points kept consistent as a
//! parallelogram, a tracked rotation, kinematics, the crossing-number
//! containment test, and the two rectangle intersection predicates
//! (circle-rectangle by region classification, rectangle-rectangle by
//! separating axes).
//!
//! A rotation enters the core as a ready-made fixed-point cosine/sine pair
//! (`Rot`): the trigonometry that produces it lives outside the verified
//! core, while everything computed from it here is exact integer
//! arithmetic.

use vstd::prelude::*;
use vstd::arithmetic::div_mod::*;
use vstd::arithmetic::mul::*;
use crate::vec2::{
    Vec2, tdiv, clamp_s, in_mag, div_i64, div_i128, clamp_i64, lemma_tdiv_le,
    lemma_tdiv_bound, lemma_tdiv_even_half, lemma_mul_mag_bound, lemma_mul_mag_bound2,
    lemma_square_nonneg,
};
use crate::circle::{Circle, step_velocity_s, step_position_s};
use crate::{ONE, POS_LIMIT, SIZE_LIMIT, VEL_LIMIT, MASS_LIMIT, ANGLE_LIMIT, TRIG_LIMIT,
    CORNER_LIMIT, STEPS_PER_SECOND};

verus! {

/// A rotation: the accumulated angle in microradians, with its fixed-point
/// cosine and sine in millionths. The pair is supplied by the caller (the
/// core has no trigonometry) and is only ever consumed multiplicatively, so
/// nothing here depends on it lying exactly on the unit circle.
#[derive(Clone, Copy, Debug, PartialEq, Eq, Structural)]
pub struct Rot {
    pub angle: i64,
    pub cos: i64,
    pub sin: i64,
}

impl Rot {
    pub open spec fn wf(&self) -> bool {
        &&& -ANGLE_LIMIT <= self.angle <= ANGLE_LIMIT
        &&& -TRIG_LIMIT <= self.cos <= TRIG_LIMIT
        &&& -TRIG_LIMIT <= self.sin <= TRIG_LIMIT
    }

    /// The zero rotation, exactly on the unit circle.
    pub fn identity() -> (r: Rot)
        ensures
            r == (Rot { angle: 0, cos: ONE, sin: 0 }),
            r.wf(),
    {
        Rot { angle: 0, cos: ONE, sin: 0 }
    }

    pub fn new(angle: i64, cos: i64, sin: i64) -> (r: Rot)
        requires
            -ANGLE_LIMIT <= angle <= ANGLE_LIMIT,
            -TRIG_LIMIT <= cos <= TRIG_LIMIT,
            -TRIG_LIMIT <= sin <= TRIG_LIMIT,
        ensures
            r == (Rot { angle, cos, sin }),
            r.wf(),
    {
        Rot { angle, cos, sin }
    }
}

/// One component of a fixed-point rotation: `(a * cos - b * sin) / ONE`,
/// truncating.
pub open spec fn rot_comp_s(a: int, b: int, c: int, s: int) -> int {
    tdiv(a * c - b * s, ONE as int)
}

/// Magnitude cap on the vector handed to `rot_comp`.
pub const ROT_IN_LIMIT: i64 = 2_400_000_000_000;

/// Magnitude cap on what `rot_comp` returns: `2 * ROT_IN_LIMIT * TRIG_LIMIT / ONE`.
pub const ROT_OUT_LIMIT: i64 = 9_600_000_000_000;

/// One component of a rotation applied in fixed point.
fn rot_comp(a: i64, b: i64, c: i64, s: i64) -> (r: i64)
    requires
        -ROT_IN_LIMIT <= a <= ROT_IN_LIMIT,
        -ROT_IN_LIMIT <= b <= ROT_IN_LIMIT,
        -TRIG_LIMIT <= c <= TRIG_LIMIT,
        -TRIG_LIMIT <= s <= TRIG_LIMIT,
    ensures
        r == rot_comp_s(a as int, b as int, c as int, s as int),
        -ROT_OUT_LIMIT <= r <= ROT_OUT_LIMIT,
{
    proof {
        lemma_mul_mag_bound2(a as int, c as int, ROT_IN_LIMIT as int, TRIG_LIMIT as int);
        lemma_mul_mag_bound2(b as int, s as int, ROT_IN_LIMIT as int, TRIG_LIMIT as int);
        lemma_tdiv_bound(
            a * c - b * s,
            ONE as int,
            ROT_OUT_LIMIT as int,
        );
    }
    let num: i128 = (a as i128) * (c as i128) - (b as i128) * (s as i128);
    div_i128(num, ONE as i128) as i64
}

/// An oriented rectangle: the four corners (under zero rotation: `p0`
/// bottom-left, `p1` bottom-right, `p2` top-right, `p3` top-left), the
/// tracked rotation, and the kinematic state. Every constructor derives all
/// four corners from a centre, a size and a rotation, so the corners always
/// form a parallelogram with an even coordinate sum across each diagonal
/// (which makes the centroid exact).
#[derive(Clone, Copy, Debug, PartialEq, Eq, Structural)]
pub struct Rect {
    pub p0: Vec2,
    pub p1: Vec2,
    pub p2: Vec2,
    pub p3: Vec2,
    pub rot: Rot,
    pub velocity: Vec2,
    pub angular_velocity: i64,
    pub mass: i64,
}

/// The x coordinate of the centroid of the `p0`/`p2` diagonal; exact, since
/// well-formedness makes the sum even.
pub open spec fn rect_pos_x(r: Rect) -> int {
    (r.p0.x + r.p2.x) / 2
}

pub open spec fn rect_pos_y(r: Rect) -> int {
    (r.p0.y + r.p2.y) / 2
}

/// The size read back from the corners: the diagonal `p2 - p0` carried into
/// the rectangle's own (de-rotated) frame.
pub open spec fn rect_size_x(r: Rect) -> int {
    rot_comp_s(
        r.p2.x - r.p0.x,
        -(r.p2.y - r.p0.y),
        r.rot.cos as int,
        r.rot.sin as int,
    )
}

pub open spec fn rect_size_y(r: Rect) -> int {
    rot_comp_s(r.p2.y - r.p0.y, r.p2.x - r.p0.x, r.rot.cos as int, r.rot.sin as int)
}

/// The default mass of a rectangle: its area, expressed in thousandths of a
/// square unit (sizes are in subunits).
pub open spec fn rect_mass_s(sx: int, sy: int) -> int {
    tdiv(sx * sy, 1_000_000_000)
}

/// The half-extent vectors of a freshly built rectangle: half the size along
/// each local axis, rotated into world space.
pub open spec fn half_e_x(sx: int, rot: Rot) -> int {
    rot_comp_s(tdiv(sx, 2), 0, rot.cos as int, rot.sin as int)
}

pub open spec fn half_e_y(sx: int, rot: Rot) -> int {
    rot_comp_s(0, -tdiv(sx, 2), rot.cos as int, rot.sin as int)
}

pub open spec fn half_f_x(sy: int, rot: Rot) -> int {
    rot_comp_s(0, tdiv(sy, 2), rot.cos as int, rot.sin as int)
}

pub open spec fn half_f_y(sy: int, rot: Rot) -> int {
    rot_comp_s(tdiv(sy, 2), 0, rot.cos as int, rot.sin as int)
}

/// The rectangle built from a centre, a size and a rotation, with the given
/// mass and everything else at rest.
pub open spec fn from_centre_s(centre: Vec2, size: Vec2, rot: Rot, mass: int) -> Rect {
    let ex = half_e_x(size.x as int, rot);
    let ey = half_e_y(size.x as int, rot);
    let fx = half_f_x(size.y as int, rot);
    let fy = half_f_y(size.y as int, rot);
    Rect {
        p0: Vec2 { x: (centre.x - ex - fx) as i64, y: (centre.y - ey - fy) as i64 },
        p1: Vec2 { x: (centre.x + ex - fx) as i64, y: (centre.y + ey - fy) as i64 },
        p2: Vec2 { x: (centre.x + ex + fx) as i64, y: (centre.y + ey + fy) as i64 },
        p3: Vec2 { x: (centre.x - ex + fx) as i64, y: (centre.y - ey + fy) as i64 },
        rot,
        velocity: Vec2 { x: 0, y: 0 },
        angular_velocity: 0,
        mass: mass as i64,
    }
}

impl Rect {
    /// Well-formed: the corners form a parallelogram whose diagonal sums are
    /// even (so the centroid is exact), the centroid lies in the position
    /// band, each corner stays within a whole size of the centroid, and all
    /// scalar state lies in its band.
    pub open spec fn wf(&self) -> bool {
        &&& self.p0.x + self.p2.x == self.p1.x + self.p3.x
        &&& self.p0.y + self.p2.y == self.p1.y + self.p3.y
        &&& (self.p0.x + self.p2.x) % 2 == 0
        &&& (self.p0.y + self.p2.y) % 2 == 0
        &&& -POS_LIMIT <= rect_pos_x(*self) <= POS_LIMIT
        &&& -POS_LIMIT <= rect_pos_y(*self) <= POS_LIMIT
        &&& self.corner_near_centroid(self.p0)
        &&& self.corner_near_centroid(self.p1)
        &&& self.corner_near_centroid(self.p2)
        &&& self.corner_near_centroid(self.p3)
        &&& self.rot.wf()
        &&& in_mag(self.velocity, VEL_LIMIT as int)
        &&& -VEL_LIMIT <= self.angular_velocity <= VEL_LIMIT
        &&& 0 <= self.mass <= MASS_LIMIT
    }

    /// A corner stays within two size limits of the centroid.
    pub open spec fn corner_near_centroid(&self, p: Vec2) -> bool {
        &&& -2 * SIZE_LIMIT <= p.x - rect_pos_x(*self) <= 2 * SIZE_LIMIT
        &&& -2 * SIZE_LIMIT <= p.y - rect_pos_y(*self) <= 2 * SIZE_LIMIT
    }

    /// Every corner of a well-formed rectangle lies in the corner band.
    pub proof fn lemma_corners_in_mag(&self)
        requires
            self.wf(),
        ensures
            in_mag(self.p0, POS_LIMIT + 2 * SIZE_LIMIT),
            in_mag(self.p1, POS_LIMIT + 2 * SIZE_LIMIT),
            in_mag(self.p2, POS_LIMIT + 2 * SIZE_LIMIT),
            in_mag(self.p3, POS_LIMIT + 2 * SIZE_LIMIT),
    {
    }

    pub fn from_centre(centre: Vec2, size: Vec2, rot: Rot) -> (r: Rect)
        requires
            in_mag(centre, POS_LIMIT as int),
            0 <= size.x <= SIZE_LIMIT,
            0 <= size.y <= SIZE_LIMIT,
            rot.wf(),
        ensures
            r == from_centre_s(centre, size, rot, rect_mass_s(size.x as int, size.y as int)),
            r.wf(),
            rect_pos_x(r) == centre.x,
            rect_pos_y(r) == centre.y,
    {
        let mass: i64 = rect_mass(size.x, size.y);
        Rect::from_centre_with_mass(centre, size, rot, mass)
    }

    pub fn from_centre_with_mass(centre: Vec2, size: Vec2, rot: Rot, mass: i64) -> (r: Rect)
        requires
            in_mag(centre, POS_LIMIT as int),
            0 <= size.x <= SIZE_LIMIT,
            0 <= size.y <= SIZE_LIMIT,
            rot.wf(),
            0 <= mass <= MASS_LIMIT,
        ensures
            r == from_centre_s(centre, size, rot, mass as int),
            r.wf(),
            rect_pos_x(r) == centre.x,
            rect_pos_y(r) == centre.y,
    {
        let hx: i64 = div_i64(size.x, 2);
        let hy: i64 = div_i64(size.y, 2);
        proof {
            lemma_tdiv_le(size.x as int, 2);
            lemma_tdiv_le(size.y as int, 2);
        }
        let ex: i64 = rot_comp(hx, 0, rot.cos, rot.sin);
        let ey: i64 = rot_comp(0, -hx, rot.cos, rot.sin);
        let fx: i64 = rot_comp(0, hy, rot.cos, rot.sin);
        let fy: i64 = rot_comp(hy, 0, rot.cos, rot.sin);
        proof {
            lemma_half_extent_bounds(size.x as int, size.y as int, rot);
        }
        let r = Rect {
            p0: Vec2 { x: centre.x - ex - fx, y: centre.y - ey - fy },
            p1: Vec2 { x: centre.x + ex - fx, y: centre.y + ey - fy },
            p2: Vec2 { x: centre.x + ex + fx, y: centre.y + ey + fy },
            p3: Vec2 { x: centre.x - ex + fx, y: centre.y - ey + fy },
            rot,
            velocity: Vec2::zero(),
            angular_velocity: 0,
            mass,
        };
        proof {
            lemma_div_multiples_vanish(centre.x as int, 2);
            lemma_div_multiples_vanish(centre.y as int, 2);
            lemma_mod_multiples_basic(centre.x as int, 2);
            lemma_mod_multiples_basic(centre.y as int, 2);
        }
        r
    }

    /// The centroid of the `p0`/`p2` diagonal.
    pub fn position(&self) -> (r: Vec2)
        requires
            self.wf(),
        ensures
            r.x == rect_pos_x(*self),
            r.y == rect_pos_y(*self),
    {
        proof {
            lemma_tdiv_even_half(self.p0.x + self.p2.x);
            lemma_tdiv_even_half(self.p0.y + self.p2.y);
        }
        Vec2 {
            x: div_i64(self.p0.x + self.p2.x, 2),
            y: div_i64(self.p0.y + self.p2.y, 2),
        }
    }

    /// Rigid translation: every corner moves so that the centroid becomes
    /// `point`; rotation, size and kinematics are untouched.
    pub fn translateTo(&mut self, point: &Vec2)
        requires
            old(self).wf(),
            in_mag(*point, POS_LIMIT as int),
        ensures
            *final(self) == (Rect {
                p0: Vec2 {
                    x: (old(self).p0.x + point.x - rect_pos_x(*old(self))) as i64,
                    y: (old(self).p0.y + point.y - rect_pos_y(*old(self))) as i64,
                },
                p1: Vec2 {
                    x: (old(self).p1.x + point.x - rect_pos_x(*old(self))) as i64,
                    y: (old(self).p1.y + point.y - rect_pos_y(*old(self))) as i64,
                },
                p2: Vec2 {
                    x: (old(self).p2.x + point.x - rect_pos_x(*old(self))) as i64,
                    y: (old(self).p2.y + point.y - rect_pos_y(*old(self))) as i64,
                },
                p3: Vec2 {
                    x: (old(self).p3.x + point.x - rect_pos_x(*old(self))) as i64,
                    y: (old(self).p3.y + point.y - rect_pos_y(*old(self))) as i64,
                },
                ..*old(self)
            }),
            rect_pos_x(*final(self)) == point.x,
            rect_pos_y(*final(self)) == point.y,
            final(self).wf(),
    {
        let pos = self.position();
        let dx: i64 = point.x - pos.x;
        let dy: i64 = point.y - pos.y;
        self.p0 = Vec2 { x: self.p0.x + dx, y: self.p0.y + dy };
        self.p1 = Vec2 { x: self.p1.x + dx, y: self.p1.y + dy };
        self.p2 = Vec2 { x: self.p2.x + dx, y: self.p2.y + dy };
        self.p3 = Vec2 { x: self.p3.x + dx, y: self.p3.y + dy };
        proof {
            lemma_shift_centroid(
                old(self).p0.x as int,
                old(self).p2.x as int,
                dx as int,
                point.x as int,
            );
            lemma_shift_centroid(
                old(self).p0.y as int,
                old(self).p2.y as int,
                dy as int,
                point.y as int,
            );
        }
    }

    pub fn velocity(&self) -> (r: Vec2)
        ensures
            r == self.velocity,
    {
        self.velocity
    }

    pub fn angular_velocity(&self) -> (r: i64)
        ensures
            r == self.angular_velocity,
    {
        self.angular_velocity
    }

    pub fn mass(&self) -> (r: i64)
        ensures
            r == self.mass,
    {
        self.mass
    }

    /// Velocity kick: `velocity += impulse`.
    pub fn impulse(&mut self, impulse: &Vec2)
        requires
            -VEL_LIMIT <= old(self).velocity.x + impulse.x <= VEL_LIMIT,
            -VEL_LIMIT <= old(self).velocity.y + impulse.y <= VEL_LIMIT,
        ensures
            *final(self) == (Rect {
                velocity: Vec2 {
                    x: (old(self).velocity.x + impulse.x) as i64,
                    y: (old(self).velocity.y + impulse.y) as i64,
                },
                ..*old(self)
            }),
    {
        self.velocity = self.velocity.add(impulse);
    }

    /// Angular velocity kick: `angular_velocity += impulse`.
    pub fn angular_impulse(&mut self, impulse: i64)
        requires
            -VEL_LIMIT <= old(self).angular_velocity + impulse <= VEL_LIMIT,
        ensures
            *final(self) == (Rect {
                angular_velocity: (old(self).angular_velocity + impulse) as i64,
                ..*old(self)
            }),
    {
        self.angular_velocity = self.angular_velocity + impulse;
    }

    pub fn bottomLeft(&self) -> (r: Vec2)
        ensures
            r == self.p0,
    {
        self.p0
    }

    /// The corners in winding order.
    pub fn points(&self) -> (r: [Vec2; 4])
        ensures
            r@ == seq![self.p0, self.p1, self.p2, self.p3],
    {
        let r = [self.p0, self.p1, self.p2, self.p3];
        proof {
            assert(r@ =~= seq![self.p0, self.p1, self.p2, self.p3]);
        }
        r
    }

    pub fn rotation(&self) -> (r: i64)
        ensures
            r == self.rot.angle,
    {
        self.rot.angle
    }

    pub fn rot(&self) -> (r: Rot)
        ensures
            r == self.rot,
    {
        self.rot
    }

    /// The size read back from the corners, in the rectangle's own frame.
    pub fn size(&self) -> (r: Vec2)
        requires
            self.wf(),
        ensures
            r.x == rect_size_x(*self),
            r.y == rect_size_y(*self),
            in_mag(r, ROT_OUT_LIMIT as int),
    {
        let dx: i64 = self.p2.x - self.p0.x;
        let dy: i64 = self.p2.y - self.p0.y;
        Vec2 {
            x: rot_comp(dx, -dy, self.rot.cos, self.rot.sin),
            y: rot_comp(dy, dx, self.rot.cos, self.rot.sin),
        }
    }
}

/// One edge of the crossing-number test: the horizontal ray from `p` toward
/// positive x crosses the open edge from `a` to `b`. With
/// `t = (p.y - b.y) / (a.y - b.y)`, the ray crosses when `t` lies strictly
/// in (0, 1) and the edge's x at `t` exceeds `p.x`; both conditions are
/// stated multiplied out, so the test is exact (a horizontal edge never
/// crosses).
pub open spec fn edge_crossing_s(p: Vec2, a: Vec2, b: Vec2) -> bool {
    let dy = a.y - b.y;
    let ty = p.y - b.y;
    let n = (b.x - p.x) * dy + ty * (a.x - b.x);
    &&& ((dy > 0 && 0 < ty && ty < dy) || (dy < 0 && dy < ty && ty < 0))
    &&& ((dy > 0 && n > 0) || (dy < 0 && n < 0))
}

/// How many of the four edges the ray from `p` crosses.
pub open spec fn crossing_count_s(r: Rect, p: Vec2) -> int {
    (if edge_crossing_s(p, r.p0, r.p1) { 1int } else { 0int }) + (if edge_crossing_s(
        p,
        r.p1,
        r.p2,
    ) { 1int } else { 0int }) + (if edge_crossing_s(p, r.p2, r.p3) { 1int } else { 0int }) + (
    if edge_crossing_s(p, r.p3, r.p0) { 1int } else { 0int })
}

/// Containment by crossing number: an odd number of edge crossings.
pub open spec fn rect_contains_s(r: Rect, p: Vec2) -> bool {
    crossing_count_s(r, p) % 2 == 1
}

/// The projection of a corner onto a separating-axis candidate.
pub open spec fn proj_s(nx: int, ny: int, p: Vec2) -> int {
    nx * p.x + ny * p.y
}

pub open spec fn min2(a: int, b: int) -> int {
    if a < b { a } else { b }
}

pub open spec fn max2(a: int, b: int) -> int {
    if a > b { a } else { b }
}

pub open spec fn proj_min_s(nx: int, ny: int, r: Rect) -> int {
    min2(
        min2(proj_s(nx, ny, r.p0), proj_s(nx, ny, r.p1)),
        min2(proj_s(nx, ny, r.p2), proj_s(nx, ny, r.p3)),
    )
}

pub open spec fn proj_max_s(nx: int, ny: int, r: Rect) -> int {
    max2(
        max2(proj_s(nx, ny, r.p0), proj_s(nx, ny, r.p1)),
        max2(proj_s(nx, ny, r.p2), proj_s(nx, ny, r.p3)),
    )
}

/// The projection intervals of the two rectangles onto the axis `(nx, ny)`
/// overlap; intervals that only touch at an endpoint do not, consistent
/// with the strictness of the circle-circle test.
pub open spec fn axis_overlap_s(nx: int, ny: int, a: Rect, b: Rect) -> bool {
    let smin = proj_min_s(nx, ny, a);
    let smax = proj_max_s(nx, ny, a);
    let omin = proj_min_s(nx, ny, b);
    let omax = proj_max_s(nx, ny, b);
    smin < omax && omin < smax
}

/// The separating-axis test over the four candidate axes: the two edge
/// normals of each rectangle. The rectangles intersect exactly when every
/// axis shows overlapping projections.
pub open spec fn rects_intersect_s(a: Rect, b: Rect) -> bool {
    &&& axis_overlap_s(-(a.p0.y - a.p1.y), a.p0.x - a.p1.x, a, b)
    &&& axis_overlap_s(-(a.p1.y - a.p2.y), a.p1.x - a.p2.x, a, b)
    &&& axis_overlap_s(-(b.p0.y - b.p1.y), b.p0.x - b.p1.x, a, b)
    &&& axis_overlap_s(-(b.p1.y - b.p2.y), b.p1.x - b.p2.x, a, b)
}

/// The circle-rectangle intersection: the circle's centre is carried into
/// the rectangle's own frame about the centroid; the de-rotated rectangle is
/// the axis-aligned box of half-extents `size / 2` about the centroid. The
/// local centre is classified into one of nine regions; inside the box the
/// shapes intersect outright, otherwise the nearest corner or the
/// perpendicular foot on the nearest edge must lie within the radius.
pub open spec fn rect_circle_intersects_s(r: Rect, c: Circle) -> bool {
    let px = rect_pos_x(r);
    let py = rect_pos_y(r);
    let lx = px + rot_comp_s(
        c.centre.x - px,
        -(c.centre.y - py),
        r.rot.cos as int,
        r.rot.sin as int,
    );
    let ly = py + rot_comp_s(c.centre.y - py, c.centre.x - px, r.rot.cos as int, r.rot.sin as int);
    let hx = tdiv(rect_size_x(r), 2);
    let hy = tdiv(rect_size_y(r), 2);
    let lo_x = px - hx;
    let hi_x = px + hx;
    let lo_y = py - hy;
    let hi_y = py + hy;
    if lo_x <= lx && lx <= hi_x && lo_y <= ly && ly <= hi_y {
        true
    } else {
        let cx = if lx < lo_x { lo_x } else if lx > hi_x { hi_x } else { lx };
        let cy = if ly > hi_y { hi_y } else if ly < lo_y { lo_y } else { ly };
        let dx = cx - lx;
        let dy = cy - ly;
        dx * dx + dy * dy <= c.radius * c.radius
    }
}

/// The resized extents of a rectangle: the drag from `p` to `np` (both in
/// the rectangle's frame after de-rotation) moves the edge(s) on the grabbed
/// quadrant's side, so the archived size changes by twice the drag, signed
/// by the quadrant; the result is taken absolute and saturated at the size
/// band.
pub open spec fn rect_resize_size_s(r: Rect, archive: Rect, p: Vec2, np: Vec2) -> (int, int) {
    let rpx = rot_comp_s(p.x as int, -(p.y as int), r.rot.cos as int, r.rot.sin as int);
    let rpy = rot_comp_s(p.y as int, p.x as int, r.rot.cos as int, r.rot.sin as int);
    let rnx = rot_comp_s(np.x as int, -(np.y as int), r.rot.cos as int, r.rot.sin as int);
    let rny = rot_comp_s(np.y as int, np.x as int, r.rot.cos as int, r.rot.sin as int);
    let sx0 = if rpx > 0 {
        rect_size_x(archive) + 2 * (rnx - rpx)
    } else if rpx < 0 {
        rect_size_x(archive) - 2 * (rnx - rpx)
    } else {
        rect_size_x(archive)
    };
    let sy0 = if rpy > 0 {
        rect_size_y(archive) + 2 * (rny - rpy)
    } else if rpy < 0 {
        rect_size_y(archive) - 2 * (rny - rpy)
    } else {
        rect_size_y(archive)
    };
    let sx1 = if sx0 < 0 { -sx0 } else { sx0 };
    let sy1 = if sy0 < 0 { -sy0 } else { sy0 };
    (
        if sx1 > SIZE_LIMIT as int { SIZE_LIMIT as int } else { sx1 },
        if sy1 > SIZE_LIMIT as int { SIZE_LIMIT as int } else { sy1 },
    )
}

/// The size of a rectangle saturated into the constructor's band.
pub open spec fn rect_size_clamped_s(r: Rect) -> (int, int) {
    let sx = rect_size_x(r);
    let sy = rect_size_y(r);
    (
        if sx < 0 { 0int } else if sx > SIZE_LIMIT as int { SIZE_LIMIT as int } else { sx },
        if sy < 0 { 0int } else if sy > SIZE_LIMIT as int { SIZE_LIMIT as int } else { sy },
    )
}

impl Rect {
    /// One fixed 1/60 s step: gravity feeds the velocity, the new velocity
    /// rigidly translates the corners (saturating at the position band), and
    /// the angular velocity accumulates into the rotation angle (saturating
    /// at the angle band). Re-deriving the corner orientation of a spinning
    /// rectangle needs the sine and cosine of the new angle, which the
    /// caller supplies through `set_rotation` when the angular velocity is
    /// nonzero.
    pub fn integrate(&mut self, gravity: &Vec2)
        requires
            old(self).wf(),
            in_mag(*gravity, VEL_LIMIT as int),
        ensures
            final(self).velocity.x == step_velocity_s(
                old(self).velocity.x as int,
                gravity.x as int,
            ),
            final(self).velocity.y == step_velocity_s(
                old(self).velocity.y as int,
                gravity.y as int,
            ),
            rect_pos_x(*final(self)) == step_position_s(
                rect_pos_x(*old(self)),
                old(self).velocity.x as int,
                gravity.x as int,
            ),
            rect_pos_y(*final(self)) == step_position_s(
                rect_pos_y(*old(self)),
                old(self).velocity.y as int,
                gravity.y as int,
            ),
            final(self).p0.x - old(self).p0.x == rect_pos_x(*final(self)) - rect_pos_x(
                *old(self),
            ),
            final(self).p0.y - old(self).p0.y == rect_pos_y(*final(self)) - rect_pos_y(
                *old(self),
            ),
            final(self).p1.x - old(self).p1.x == final(self).p0.x - old(self).p0.x,
            final(self).p2.x - old(self).p2.x == final(self).p0.x - old(self).p0.x,
            final(self).p3.x - old(self).p3.x == final(self).p0.x - old(self).p0.x,
            final(self).p1.y - old(self).p1.y == final(self).p0.y - old(self).p0.y,
            final(self).p2.y - old(self).p2.y == final(self).p0.y - old(self).p0.y,
            final(self).p3.y - old(self).p3.y == final(self).p0.y - old(self).p0.y,
            final(self).rot.angle == clamp_s(
                old(self).rot.angle + tdiv(
                    old(self).angular_velocity as int,
                    STEPS_PER_SECOND as int,
                ),
                ANGLE_LIMIT as int,
            ),
            final(self).rot.cos == old(self).rot.cos,
            final(self).rot.sin == old(self).rot.sin,
            final(self).angular_velocity == old(self).angular_velocity,
            final(self).mass == old(self).mass,
            final(self).wf(),
    {
        proof {
            lemma_tdiv_le(gravity.x as int, STEPS_PER_SECOND as int);
            lemma_tdiv_le(gravity.y as int, STEPS_PER_SECOND as int);
        }
        let vx: i64 = clamp_i64(self.velocity.x + div_i64(gravity.x, STEPS_PER_SECOND), VEL_LIMIT);
        let vy: i64 = clamp_i64(self.velocity.y + div_i64(gravity.y, STEPS_PER_SECOND), VEL_LIMIT);
        proof {
            lemma_tdiv_le(vx as int, STEPS_PER_SECOND as int);
            lemma_tdiv_le(vy as int, STEPS_PER_SECOND as int);
            lemma_tdiv_le(self.angular_velocity as int, STEPS_PER_SECOND as int);
        }
        let pos = self.position();
        let npx: i64 = clamp_i64(pos.x + div_i64(vx, STEPS_PER_SECOND), POS_LIMIT);
        let npy: i64 = clamp_i64(pos.y + div_i64(vy, STEPS_PER_SECOND), POS_LIMIT);
        let dx: i64 = npx - pos.x;
        let dy: i64 = npy - pos.y;
        let angle: i64 = clamp_i64(
            self.rot.angle + div_i64(self.angular_velocity, STEPS_PER_SECOND),
            ANGLE_LIMIT,
        );
        self.p0 = Vec2 { x: self.p0.x + dx, y: self.p0.y + dy };
        self.p1 = Vec2 { x: self.p1.x + dx, y: self.p1.y + dy };
        self.p2 = Vec2 { x: self.p2.x + dx, y: self.p2.y + dy };
        self.p3 = Vec2 { x: self.p3.x + dx, y: self.p3.y + dy };
        self.rot = Rot { angle, cos: self.rot.cos, sin: self.rot.sin };
        self.velocity = Vec2 { x: vx, y: vy };
        proof {
            lemma_shift_centroid(
                old(self).p0.x as int,
                old(self).p2.x as int,
                dx as int,
                npx as int,
            );
            lemma_shift_centroid(
                old(self).p0.y as int,
                old(self).p2.y as int,
                dy as int,
                npy as int,
            );
        }
    }

    /// Containment by the crossing-number test over the four edges.
    pub fn pointIn(&self, point: &Vec2) -> (r: bool)
        requires
            self.wf(),
            in_mag(*point, POS_LIMIT as int),
        ensures
            r == rect_contains_s(*self, *point),
    {
        proof {
            self.lemma_corners_in_mag();
        }
        let c0: bool = edge_crossing(point, &self.p0, &self.p1);
        let c1: bool = edge_crossing(point, &self.p1, &self.p2);
        let c2: bool = edge_crossing(point, &self.p2, &self.p3);
        let c3: bool = edge_crossing(point, &self.p3, &self.p0);
        let mut cn: u64 = 0;
        if c0 {
            cn = cn + 1;
        }
        if c1 {
            cn = cn + 1;
        }
        if c2 {
            cn = cn + 1;
        }
        if c3 {
            cn = cn + 1;
        }
        cn % 2 == 1
    }

    /// A resize drag from `p` to `np` (both relative to the centroid):
    /// rebuilds the rectangle about its centroid with the resized extents
    /// computed against the archived geometry, at the current rotation. Like
    /// every rebuild, this re-derives the mass from the new extents and
    /// leaves the rebuilt rectangle at rest.
    pub fn resize(&mut self, point: &Vec2, newPoint: &Vec2, archive: &Rect)
        requires
            old(self).wf(),
            archive.wf(),
            in_mag(*point, 2 * POS_LIMIT as int),
            in_mag(*newPoint, 2 * POS_LIMIT as int),
        ensures
            *final(self) == (from_centre_s(
                Vec2 {
                    x: rect_pos_x(*old(self)) as i64,
                    y: rect_pos_y(*old(self)) as i64,
                },
                Vec2 {
                    x: rect_resize_size_s(*old(self), *archive, *point, *newPoint).0 as i64,
                    y: rect_resize_size_s(*old(self), *archive, *point, *newPoint).1 as i64,
                },
                old(self).rot,
                rect_mass_s(
                    rect_resize_size_s(*old(self), *archive, *point, *newPoint).0,
                    rect_resize_size_s(*old(self), *archive, *point, *newPoint).1,
                ),
            )),
            final(self).wf(),
    {
        let rpx: i64 = rot_comp(point.x, -point.y, self.rot.cos, self.rot.sin);
        let rpy: i64 = rot_comp(point.y, point.x, self.rot.cos, self.rot.sin);
        let rnx: i64 = rot_comp(newPoint.x, -newPoint.y, self.rot.cos, self.rot.sin);
        let rny: i64 = rot_comp(newPoint.y, newPoint.x, self.rot.cos, self.rot.sin);
        let asize = archive.size();
        let dx2: i64 = 2 * (rnx - rpx);
        let dy2: i64 = 2 * (rny - rpy);
        let adjx: i64 = if rpx > 0 {
            dx2
        } else if rpx < 0 {
            -dx2
        } else {
            0
        };
        let adjy: i64 = if rpy > 0 {
            dy2
        } else if rpy < 0 {
            -dy2
        } else {
            0
        };
        let sx0: i64 = asize.x + adjx;
        let sy0: i64 = asize.y + adjy;
        let sx1: i64 = if sx0 < 0 {
            -sx0
        } else {
            sx0
        };
        let sy1: i64 = if sy0 < 0 {
            -sy0
        } else {
            sy0
        };
        let sx: i64 = if sx1 > SIZE_LIMIT {
            SIZE_LIMIT
        } else {
            sx1
        };
        let sy: i64 = if sy1 > SIZE_LIMIT {
            SIZE_LIMIT
        } else {
            sy1
        };
        let pos = self.position();
        let rot = self.rot;
        *self = Rect::from_centre(pos, Vec2 { x: sx, y: sy }, rot);
    }

    /// Rebuild about the centroid at a new rotation, keeping the current
    /// extents (saturated into the constructor's band). The caller computes
    /// the new rotation's angle and trigonometry; a rotate drag uses the
    /// archived angle plus the polar angle swept between the grab and the
    /// pointer. Like every rebuild, this re-derives the mass and leaves the
    /// rectangle at rest.
    pub fn set_rotation(&mut self, rot: Rot)
        requires
            old(self).wf(),
            rot.wf(),
        ensures
            *final(self) == (from_centre_s(
                Vec2 {
                    x: rect_pos_x(*old(self)) as i64,
                    y: rect_pos_y(*old(self)) as i64,
                },
                Vec2 {
                    x: rect_size_clamped_s(*old(self)).0 as i64,
                    y: rect_size_clamped_s(*old(self)).1 as i64,
                },
                rot,
                rect_mass_s(rect_size_clamped_s(*old(self)).0, rect_size_clamped_s(*old(self)).1),
            )),
            final(self).wf(),
    {
        let size = self.size();
        let sx: i64 = if size.x < 0 {
            0
        } else if size.x > SIZE_LIMIT {
            SIZE_LIMIT
        } else {
            size.x
        };
        let sy: i64 = if size.y < 0 {
            0
        } else if size.y > SIZE_LIMIT {
            SIZE_LIMIT
        } else {
            size.y
        };
        let pos = self.position();
        *self = Rect::from_centre(pos, Vec2 { x: sx, y: sy }, rot);
    }

    /// The separating-axis test against another rectangle.
    pub fn intersect_rect(&self, other: &Rect) -> (r: bool)
        requires
            self.wf(),
            other.wf(),
        ensures
            r == rects_intersect_s(*self, *other),
    {
        proof {
            self.lemma_corners_in_mag();
            other.lemma_corners_in_mag();
        }
        let a1 = axis_overlap(-(self.p0.y - self.p1.y), self.p0.x - self.p1.x, self, other);
        let a2 = axis_overlap(-(self.p1.y - self.p2.y), self.p1.x - self.p2.x, self, other);
        let a3 = axis_overlap(-(other.p0.y - other.p1.y), other.p0.x - other.p1.x, self, other);
        let a4 = axis_overlap(-(other.p1.y - other.p2.y), other.p1.x - other.p2.x, self, other);
        a1 && a2 && a3 && a4
    }

    /// The region-classified circle test against this rectangle.
    pub fn intersect_circle(&self, circle: &Circle) -> (r: bool)
        requires
            self.wf(),
            circle.wf(),
        ensures
            r == rect_circle_intersects_s(*self, *circle),
    {
        let pos = self.position();
        let ox: i64 = circle.centre.x - pos.x;
        let oy: i64 = circle.centre.y - pos.y;
        let lx: i64 = pos.x + rot_comp(ox, -oy, self.rot.cos, self.rot.sin);
        let ly: i64 = pos.y + rot_comp(oy, ox, self.rot.cos, self.rot.sin);
        let size = self.size();
        let hx: i64 = div_i64(size.x, 2);
        let hy: i64 = div_i64(size.y, 2);
        proof {
            lemma_tdiv_le(size.x as int, 2);
            lemma_tdiv_le(size.y as int, 2);
        }
        let lo_x: i64 = pos.x - hx;
        let hi_x: i64 = pos.x + hx;
        let lo_y: i64 = pos.y - hy;
        let hi_y: i64 = pos.y + hy;
        if lo_x <= lx && lx <= hi_x && lo_y <= ly && ly <= hi_y {
            return true;
        }
        let cx: i64 = if lx < lo_x {
            lo_x
        } else if lx > hi_x {
            hi_x
        } else {
            lx
        };
        let cy: i64 = if ly > hi_y {
            hi_y
        } else if ly < lo_y {
            lo_y
        } else {
            ly
        };
        let dx: i64 = cx - lx;
        let dy: i64 = cy - ly;
        proof {
            lemma_mul_mag_bound(dx as int, dx as int, 26_000_000_000_000int);
            lemma_mul_mag_bound(dy as int, dy as int, 26_000_000_000_000int);
            lemma_mul_mag_bound(circle.radius as int, circle.radius as int, SIZE_LIMIT as int);
        }
        let d2: i128 = (dx as i128) * (dx as i128) + (dy as i128) * (dy as i128);
        let r2: i128 = (circle.radius as i128) * (circle.radius as i128);
        d2 <= r2
    }
}

/// One edge of the crossing-number test, exactly `edge_crossing_s`.
fn edge_crossing(p: &Vec2, a: &Vec2, b: &Vec2) -> (r: bool)
    requires
        in_mag(*p, POS_LIMIT as int),
        in_mag(*a, CORNER_LIMIT as int),
        in_mag(*b, CORNER_LIMIT as int),
    ensures
        r == edge_crossing_s(*p, *a, *b),
{
    let dy: i64 = a.y - b.y;
    let ty: i64 = p.y - b.y;
    let bx: i64 = b.x - p.x;
    let ax: i64 = a.x - b.x;
    proof {
        lemma_mul_mag_bound(bx as int, dy as int, 3_000_000_000_000int);
        lemma_mul_mag_bound(ty as int, ax as int, 3_000_000_000_000int);
    }
    let n: i128 = (bx as i128) * (dy as i128) + (ty as i128) * (ax as i128);
    let straddle: bool = (dy > 0 && 0 < ty && ty < dy) || (dy < 0 && dy < ty && ty < 0);
    straddle && ((dy > 0 && n > 0) || (dy < 0 && n < 0))
}

/// The projection of a corner onto an axis, exactly `proj_s`.
fn proj(nx: i64, ny: i64, p: &Vec2) -> (r: i128)
    requires
        -3_000_000_000_000 <= nx <= 3_000_000_000_000,
        -3_000_000_000_000 <= ny <= 3_000_000_000_000,
        in_mag(*p, CORNER_LIMIT as int),
    ensures
        r == proj_s(nx as int, ny as int, *p),
{
    proof {
        lemma_mul_mag_bound2(nx as int, p.x as int, 3_000_000_000_000int, CORNER_LIMIT as int);
        lemma_mul_mag_bound2(ny as int, p.y as int, 3_000_000_000_000int, CORNER_LIMIT as int);
    }
    (nx as i128) * (p.x as i128) + (ny as i128) * (p.y as i128)
}

/// The overlap test of the two projection intervals on one axis, exactly
/// `axis_overlap_s`.
fn axis_overlap(nx: i64, ny: i64, a: &Rect, b: &Rect) -> (r: bool)
    requires
        -3_000_000_000_000 <= nx <= 3_000_000_000_000,
        -3_000_000_000_000 <= ny <= 3_000_000_000_000,
        in_mag(a.p0, CORNER_LIMIT as int),
        in_mag(a.p1, CORNER_LIMIT as int),
        in_mag(a.p2, CORNER_LIMIT as int),
        in_mag(a.p3, CORNER_LIMIT as int),
        in_mag(b.p0, CORNER_LIMIT as int),
        in_mag(b.p1, CORNER_LIMIT as int),
        in_mag(b.p2, CORNER_LIMIT as int),
        in_mag(b.p3, CORNER_LIMIT as int),
    ensures
        r == axis_overlap_s(nx as int, ny as int, *a, *b),
{
    let s0: i128 = proj(nx, ny, &a.p0);
    let s1: i128 = proj(nx, ny, &a.p1);
    let s2: i128 = proj(nx, ny, &a.p2);
    let s3: i128 = proj(nx, ny, &a.p3);
    let o0: i128 = proj(nx, ny, &b.p0);
    let o1: i128 = proj(nx, ny, &b.p1);
    let o2: i128 = proj(nx, ny, &b.p2);
    let o3: i128 = proj(nx, ny, &b.p3);
    let smin: i128 = min_i128(min_i128(s0, s1), min_i128(s2, s3));
    let smax: i128 = max_i128(max_i128(s0, s1), max_i128(s2, s3));
    let omin: i128 = min_i128(min_i128(o0, o1), min_i128(o2, o3));
    let omax: i128 = max_i128(max_i128(o0, o1), max_i128(o2, o3));
    smin < omax && omin < smax
}

fn min_i128(a: i128, b: i128) -> (r: i128)
    ensures
        r == min2(a as int, b as int),
{
    if a < b {
        a
    } else {
        b
    }
}

fn max_i128(a: i128, b: i128) -> (r: i128)
    ensures
        r == max2(a as int, b as int),
{
    if a > b {
        a
    } else {
        b
    }
}

/// The default mass of a rectangle, computed from its extents.
pub fn rect_mass(sx: i64, sy: i64) -> (r: i64)
    requires
        0 <= sx <= SIZE_LIMIT,
        0 <= sy <= SIZE_LIMIT,
    ensures
        r == rect_mass_s(sx as int, sy as int),
        0 <= r <= MASS_LIMIT,
{
    proof {
        lemma_mul_mag_bound(sx as int, sy as int, SIZE_LIMIT as int);
        lemma_square_nonneg(sx as int);
        assert(sx * sy >= 0) by (nonlinear_arith)
            requires
                sx >= 0,
                sy >= 0,
        ;
        lemma_tdiv_le(sx * sy, 1_000_000_000);
        lemma_tdiv_bound(sx * sy, 1_000_000_000, MASS_LIMIT as int);
    }
    div_i128((sx as i128) * (sy as i128), 1_000_000_000) as i64
}

/// The half-extent components of a fresh rectangle stay within one size
/// limit each.
proof fn lemma_half_extent_bounds(sx: int, sy: int, rot: Rot)
    requires
        0 <= sx <= SIZE_LIMIT,
        0 <= sy <= SIZE_LIMIT,
        rot.wf(),
    ensures
        -SIZE_LIMIT <= half_e_x(sx, rot) <= SIZE_LIMIT,
        -SIZE_LIMIT <= half_e_y(sx, rot) <= SIZE_LIMIT,
        -SIZE_LIMIT <= half_f_x(sy, rot) <= SIZE_LIMIT,
        -SIZE_LIMIT <= half_f_y(sy, rot) <= SIZE_LIMIT,
{
    let hx = tdiv(sx, 2);
    let hy = tdiv(sy, 2);
    lemma_tdiv_le(sx, 2);
    lemma_tdiv_le(sy, 2);
    lemma_mul_mag_bound2(hx, rot.cos as int, SIZE_LIMIT as int / 2, TRIG_LIMIT as int);
    lemma_mul_mag_bound2(hx, rot.sin as int, SIZE_LIMIT as int / 2, TRIG_LIMIT as int);
    lemma_mul_mag_bound2(hy, rot.cos as int, SIZE_LIMIT as int / 2, TRIG_LIMIT as int);
    lemma_mul_mag_bound2(hy, rot.sin as int, SIZE_LIMIT as int / 2, TRIG_LIMIT as int);
    lemma_mul_mag_bound2(-hx, rot.sin as int, SIZE_LIMIT as int / 2, TRIG_LIMIT as int);
    lemma_tdiv_bound(hx * rot.cos - 0 * rot.sin, ONE as int, SIZE_LIMIT as int);
    lemma_tdiv_bound(0 * rot.cos - (-hx) * rot.sin, ONE as int, SIZE_LIMIT as int);
    lemma_tdiv_bound(0 * rot.cos - hy * rot.sin, ONE as int, SIZE_LIMIT as int);
    lemma_tdiv_bound(hy * rot.cos - 0 * rot.sin, ONE as int, SIZE_LIMIT as int);
}

/// Shifting both diagonal ends by `d` shifts the exact centroid by `d`.
proof fn lemma_shift_centroid(a: int, b: int, d: int, target: int)
    requires
        (a + b) % 2 == 0,
        d == target - (a + b) / 2,
    ensures
        ((a + d) + (b + d)) / 2 == target,
        ((a + d) + (b + d)) % 2 == 0,
{
    let s = a + b;
    lemma_fundamental_div_mod(s, 2);
    assert(s == 2 * (s / 2));
    assert(a + d + b + d == 2 * (s / 2 + d));
    lemma_div_multiples_vanish(s / 2 + d, 2);
    lemma_mod_multiples_basic(s / 2 + d, 2);
}

} // verus!
