//! Circles: geometric state, kinematics, containment, the circle-circle
//! intersection predicate, and both halves of the circle collision response
//! (the elastic circle-circle exchange and the window-wall reflection).

use vstd::prelude::*;
use vstd::arithmetic::mul::*;
use crate::vec2::{
    Vec2, tdiv, clamp_s, sqrt_s, len2_s, in_mag, div_i64, div_i128, clamp_i64, clamp_i128,
    lemma_tdiv_le, lemma_tdiv_bound, lemma_mul_mag_bound, lemma_mul_mag_bound2,
    lemma_square_nonneg, lemma_square_pos,
};
use crate::{ONE, POS_LIMIT, SIZE_LIMIT, VEL_LIMIT, MASS_LIMIT, HALF_W, HALF_H, STEPS_PER_SECOND};

verus! {

/// Fixed-point approximation of pi in nanounits, used for the default mass.
pub const PI_NANO: i64 = 3_141_592_653;

/// Bound on the dot product of a velocity and a centre offset: each velocity
/// coordinate is at most `VEL_LIMIT`, each offset coordinate at most
/// `2 * POS_LIMIT`, and two such products are summed.
pub const DOT_VD_LIMIT: i128 = 400_000_000_000_000_000_000_000;

#[derive(Clone, Copy, Debug, PartialEq, Eq, Structural)]
pub struct Circle {
    pub centre: Vec2,
    pub radius: i64,
    pub velocity: Vec2,
    pub angular_velocity: i64,
    pub mass: i64,
}

/// The default mass of a circle: pi times the squared radius, expressed in
/// thousandths of a square unit (radius is in subunits).
pub open spec fn circle_mass_s(radius: int) -> int {
    tdiv(PI_NANO * radius * radius, 1_000_000_000_000_000_000)
}

/// Containment: squared distance from the centre at most squared radius.
pub open spec fn circle_contains_s(c: Circle, p: Vec2) -> bool {
    let dx = p.x - c.centre.x;
    let dy = p.y - c.centre.y;
    dx * dx + dy * dy <= c.radius * c.radius
}

/// Strict intersection of two circles: centre distance below the sum of the
/// radii (touching circles do not intersect).
pub open spec fn circles_intersect_s(a: Circle, b: Circle) -> bool {
    let dx = a.centre.x - b.centre.x;
    let dy = a.centre.y - b.centre.y;
    dx * dx + dy * dy < (a.radius + b.radius) * (a.radius + b.radius)
}

/// The new radius after a resize drag: the archived radius, shrunk by the
/// length of the grab vector and grown by the length of the release vector,
/// saturated into the representable radius band.
pub open spec fn circle_resize_radius_s(archive_radius: int, p: Vec2, np: Vec2) -> int {
    let raw = archive_radius - sqrt_s(len2_s(p)) + sqrt_s(len2_s(np));
    if raw < 1 {
        1
    } else if raw > SIZE_LIMIT as int {
        SIZE_LIMIT as int
    } else {
        raw
    }
}

/// One integration step of a velocity coordinate: gravity over the timestep,
/// saturated at the velocity band.
pub open spec fn step_velocity_s(v: int, g: int) -> int {
    clamp_s(v + tdiv(g, STEPS_PER_SECOND as int), VEL_LIMIT as int)
}

/// One integration step of a position coordinate: the stepped velocity over
/// the timestep, saturated at the position band.
pub open spec fn step_position_s(p: int, v: int, g: int) -> int {
    clamp_s(p + tdiv(step_velocity_s(v, g), STEPS_PER_SECOND as int), POS_LIMIT as int)
}

/// The elastic collision response of `c1` against `c2`, decomposed along the
/// line of centres: the classic two-body exchange
/// `((v1.n)(m1-m2) + 2 m2 (v2.n)) / (m1+m2)` along the centre direction `n`,
/// keeping the tangential component of `v1`, carried out in integer
/// arithmetic over the unnormalised centre offset (the two divisions by the
/// offset's length appear as one truncating division by its squared length)
/// and saturated into the velocity band. Coincident centres fall back to the
/// unit x direction; a zero total mass leaves the velocity unchanged.
pub open spec fn bounce_velocity_s(c1: Circle, c2: Circle) -> (int, int) {
    let ddx = c2.centre.x - c1.centre.x;
    let ddy = c2.centre.y - c1.centre.y;
    let dx = if ddx == 0 && ddy == 0 { 1int } else { ddx };
    let dy = if ddx == 0 && ddy == 0 { 0int } else { ddy };
    let d2 = dx * dx + dy * dy;
    let msum = c1.mass + c2.mass;
    if msum == 0 {
        (c1.velocity.x as int, c1.velocity.y as int)
    } else {
        let a = c1.velocity.x * dx + c1.velocity.y * dy;
        let b = c2.velocity.x * dx + c2.velocity.y * dy;
        let c = c1.velocity.x * (-dy) + c1.velocity.y * dx;
        let t = tdiv(a * (c1.mass - c2.mass) + 2 * c2.mass * b, msum);
        (
            clamp_s(tdiv(t * dx + c * (-dy), d2), VEL_LIMIT as int),
            clamp_s(tdiv(t * dy + c * dx, d2), VEL_LIMIT as int),
        )
    }
}

/// The wall reflection of a circle against the window border: the centre is
/// previewed one gravity-free step ahead, and the first border line it has
/// crossed (left, right, bottom, top, each offset inward by the radius plus
/// one unit) flips the corresponding velocity component toward the inside.
pub open spec fn wall_bounce_velocity_s(c: Circle) -> (int, int) {
    let nx = step_position_s(c.centre.x as int, c.velocity.x as int, 0);
    let ny = step_position_s(c.centre.y as int, c.velocity.y as int, 0);
    let left = -(HALF_W as int) + c.radius + ONE;
    let right = HALF_W - c.radius - ONE;
    let bottom = -(HALF_H as int) + c.radius + ONE;
    let top = HALF_H - c.radius - ONE;
    let vx = c.velocity.x as int;
    let vy = c.velocity.y as int;
    if nx < left {
        (if vx < 0 { -vx } else { vx }, vy)
    } else if nx > right {
        (if vx < 0 { vx } else { -vx }, vy)
    } else if ny < bottom {
        (vx, if vy < 0 { -vy } else { vy })
    } else if ny > top {
        (vx, if vy < 0 { vy } else { -vy })
    } else {
        (vx, vy)
    }
}

impl Circle {
    /// Well-formed: everything within the fixed-point bands, radius positive.
    pub open spec fn wf(&self) -> bool {
        &&& in_mag(self.centre, POS_LIMIT as int)
        &&& 0 < self.radius <= SIZE_LIMIT
        &&& in_mag(self.velocity, VEL_LIMIT as int)
        &&& -VEL_LIMIT <= self.angular_velocity <= VEL_LIMIT
        &&& 0 <= self.mass <= MASS_LIMIT
    }

    pub fn new(centre: Vec2, radius: i64) -> (c: Circle)
        requires
            in_mag(centre, POS_LIMIT as int),
            0 < radius <= SIZE_LIMIT,
        ensures
            c == (Circle {
                centre,
                radius,
                velocity: Vec2 { x: 0, y: 0 },
                angular_velocity: 0,
                mass: circle_mass_s(radius as int) as i64,
            }),
            c.mass == circle_mass_s(radius as int),
            c.wf(),
    {
        proof {
            lemma_circle_mass_bounds(radius as int);
        }
        let r2: i128 = (radius as i128) * (radius as i128);
        let mass: i64 = div_i128((PI_NANO as i128) * r2, 1_000_000_000_000_000_000) as i64;
        proof {
            lemma_mul_is_associative(PI_NANO as int, radius as int, radius as int);
        }
        Circle { centre, radius, velocity: Vec2::zero(), angular_velocity: 0, mass }
    }

    pub fn new_with_mass(centre: Vec2, radius: i64, mass: i64) -> (c: Circle)
        requires
            in_mag(centre, POS_LIMIT as int),
            0 < radius <= SIZE_LIMIT,
            0 <= mass <= MASS_LIMIT,
        ensures
            c == (Circle {
                centre,
                radius,
                velocity: Vec2 { x: 0, y: 0 },
                angular_velocity: 0,
                mass,
            }),
            c.wf(),
    {
        Circle { centre, radius, velocity: Vec2::zero(), angular_velocity: 0, mass }
    }

    pub fn centre(&self) -> (r: Vec2)
        ensures
            r == self.centre,
    {
        self.centre
    }

    pub fn radius(&self) -> (r: i64)
        ensures
            r == self.radius,
    {
        self.radius
    }

    pub fn position(&self) -> (r: Vec2)
        ensures
            r == self.centre,
    {
        self.centre
    }

    pub fn velocity(&self) -> (r: Vec2)
        ensures
            r == self.velocity,
    {
        self.velocity
    }

    pub fn angular_velocity(&self) -> (r: i64)
        ensures
            r == self.angular_velocity,
    {
        self.angular_velocity
    }

    pub fn mass(&self) -> (r: i64)
        ensures
            r == self.mass,
    {
        self.mass
    }

    /// Rigid translation: the centre becomes `point`, nothing else moves.
    pub fn translateTo(&mut self, point: &Vec2)
        requires
            in_mag(*point, POS_LIMIT as int),
        ensures
            *final(self) == (Circle { centre: *point, ..*old(self) }),
    {
        self.centre = *point;
    }

    /// Velocity kick: `velocity += impulse`.
    pub fn impulse(&mut self, impulse: &Vec2)
        requires
            -VEL_LIMIT <= old(self).velocity.x + impulse.x <= VEL_LIMIT,
            -VEL_LIMIT <= old(self).velocity.y + impulse.y <= VEL_LIMIT,
        ensures
            *final(self) == (Circle {
                velocity: Vec2 {
                    x: (old(self).velocity.x + impulse.x) as i64,
                    y: (old(self).velocity.y + impulse.y) as i64,
                },
                ..*old(self)
            }),
    {
        self.velocity = self.velocity.add(impulse);
    }

    /// Angular velocity kick: `angular_velocity += impulse`.
    pub fn angular_impulse(&mut self, impulse: i64)
        requires
            -VEL_LIMIT <= old(self).angular_velocity + impulse <= VEL_LIMIT,
        ensures
            *final(self) == (Circle {
                angular_velocity: (old(self).angular_velocity + impulse) as i64,
                ..*old(self)
            }),
    {
        self.angular_velocity = self.angular_velocity + impulse;
    }

    /// One fixed 1/60 s step: gravity feeds the velocity, the new velocity
    /// feeds the centre; both saturate at their bands, and the velocity is
    /// otherwise conserved (undamped kinematics).
    pub fn integrate(&mut self, gravity: &Vec2)
        requires
            old(self).wf(),
            in_mag(*gravity, VEL_LIMIT as int),
        ensures
            *final(self) == (Circle {
                centre: Vec2 {
                    x: step_position_s(
                        old(self).centre.x as int,
                        old(self).velocity.x as int,
                        gravity.x as int,
                    ) as i64,
                    y: step_position_s(
                        old(self).centre.y as int,
                        old(self).velocity.y as int,
                        gravity.y as int,
                    ) as i64,
                },
                velocity: Vec2 {
                    x: step_velocity_s(old(self).velocity.x as int, gravity.x as int) as i64,
                    y: step_velocity_s(old(self).velocity.y as int, gravity.y as int) as i64,
                },
                ..*old(self)
            }),
            final(self).wf(),
    {
        proof {
            lemma_tdiv_le(gravity.x as int, STEPS_PER_SECOND as int);
            lemma_tdiv_le(gravity.y as int, STEPS_PER_SECOND as int);
        }
        let vx: i64 = clamp_i64(self.velocity.x + div_i64(gravity.x, STEPS_PER_SECOND), VEL_LIMIT);
        let vy: i64 = clamp_i64(self.velocity.y + div_i64(gravity.y, STEPS_PER_SECOND), VEL_LIMIT);
        proof {
            lemma_tdiv_le(vx as int, STEPS_PER_SECOND as int);
            lemma_tdiv_le(vy as int, STEPS_PER_SECOND as int);
        }
        let cx: i64 = clamp_i64(self.centre.x + div_i64(vx, STEPS_PER_SECOND), POS_LIMIT);
        let cy: i64 = clamp_i64(self.centre.y + div_i64(vy, STEPS_PER_SECOND), POS_LIMIT);
        self.velocity = Vec2 { x: vx, y: vy };
        self.centre = Vec2 { x: cx, y: cy };
    }

    /// Containment test: squared centre distance at most squared radius.
    pub fn pointIn(&self, point: &Vec2) -> (r: bool)
        requires
            self.wf(),
            in_mag(*point, POS_LIMIT as int),
        ensures
            r == circle_contains_s(*self, *point),
    {
        let dx: i64 = point.x - self.centre.x;
        let dy: i64 = point.y - self.centre.y;
        proof {
            lemma_mul_mag_bound(dx as int, dx as int, 2 * POS_LIMIT as int);
            lemma_mul_mag_bound(dy as int, dy as int, 2 * POS_LIMIT as int);
            lemma_mul_mag_bound(self.radius as int, self.radius as int, SIZE_LIMIT as int);
        }
        let d2: i128 = (dx as i128) * (dx as i128) + (dy as i128) * (dy as i128);
        let r2: i128 = (self.radius as i128) * (self.radius as i128);
        d2 <= r2
    }

    /// A resize drag from `point` to `newPoint` (both relative to the
    /// centre): the radius changes by the difference of the two fixed-point
    /// lengths against the archived radius, saturating at the radius band.
    pub fn resize(&mut self, point: &Vec2, newPoint: &Vec2, archive: &Circle)
        requires
            archive.wf(),
            in_mag(*point, 2 * POS_LIMIT as int),
            in_mag(*newPoint, 2 * POS_LIMIT as int),
        ensures
            *final(self) == (Circle {
                radius: circle_resize_radius_s(archive.radius as int, *point, *newPoint) as i64,
                ..*old(self)
            }),
            0 < final(self).radius <= SIZE_LIMIT,
    {
        let lp: i64 = point.len();
        let lnp: i64 = newPoint.len();
        proof {
            lemma_mul_mag_bound(point.x as int, point.x as int, 2 * POS_LIMIT as int);
            lemma_mul_mag_bound(point.y as int, point.y as int, 2 * POS_LIMIT as int);
            lemma_mul_mag_bound(newPoint.x as int, newPoint.x as int, 2 * POS_LIMIT as int);
            lemma_mul_mag_bound(newPoint.y as int, newPoint.y as int, 2 * POS_LIMIT as int);
            lemma_len_bound(lp as int, len2_s(*point), 2 * POS_LIMIT as int);
            lemma_len_bound(lnp as int, len2_s(*newPoint), 2 * POS_LIMIT as int);
        }
        let raw: i64 = archive.radius - lp + lnp;
        let radius: i64 = if raw < 1 {
            1
        } else if raw > SIZE_LIMIT {
            SIZE_LIMIT
        } else {
            raw
        };
        self.radius = radius;
    }

    /// Rotation is a no-op: a circle is rotationally symmetric.
    pub fn rotate(&mut self, _point: &Vec2, _newPoint: &Vec2, _archive: &Circle)
        ensures
            *final(self) == *old(self),
    {
    }

    /// Strict circle-circle intersection.
    pub fn intersect_circle(&self, other: &Circle) -> (r: bool)
        requires
            self.wf(),
            other.wf(),
        ensures
            r == circles_intersect_s(*self, *other),
    {
        let dx: i64 = self.centre.x - other.centre.x;
        let dy: i64 = self.centre.y - other.centre.y;
        let rsum: i64 = self.radius + other.radius;
        proof {
            lemma_mul_mag_bound(dx as int, dx as int, 2 * POS_LIMIT as int);
            lemma_mul_mag_bound(dy as int, dy as int, 2 * POS_LIMIT as int);
            lemma_mul_mag_bound(rsum as int, rsum as int, 2 * SIZE_LIMIT as int);
        }
        let d2: i128 = (dx as i128) * (dx as i128) + (dy as i128) * (dy as i128);
        let r2: i128 = (rsum as i128) * (rsum as i128);
        d2 < r2
    }

    /// The elastic circle-circle response: sets this circle's velocity to
    /// `bounce_velocity_s(self, other)`; the caller bounces the other circle
    /// against a snapshot of this one to complete the symmetric exchange.
    pub fn bounce_circle(&mut self, other: &Circle)
        requires
            old(self).wf(),
            other.wf(),
        ensures
            *final(self) == (Circle {
                velocity: Vec2 {
                    x: bounce_velocity_s(*old(self), *other).0 as i64,
                    y: bounce_velocity_s(*old(self), *other).1 as i64,
                },
                ..*old(self)
            }),
            final(self).wf(),
    {
        let ddx: i64 = other.centre.x - self.centre.x;
        let ddy: i64 = other.centre.y - self.centre.y;
        let (dx, dy): (i64, i64) = if ddx == 0 && ddy == 0 {
            (1, 0)
        } else {
            (ddx, ddy)
        };
        proof {
            lemma_mul_mag_bound(dx as int, dx as int, 2 * POS_LIMIT as int);
            lemma_mul_mag_bound(dy as int, dy as int, 2 * POS_LIMIT as int);
            if dx != 0 {
                lemma_square_pos(dx as int);
                lemma_square_nonneg(dy as int);
            } else {
                lemma_square_pos(dy as int);
                lemma_square_nonneg(dx as int);
            }
        }
        let d2: i128 = (dx as i128) * (dx as i128) + (dy as i128) * (dy as i128);
        let msum: i64 = self.mass + other.mass;
        if msum == 0 {
            return ;
        }
        proof {
            lemma_mul_mag_bound2(
                self.velocity.x as int,
                dx as int,
                VEL_LIMIT as int,
                2 * POS_LIMIT as int,
            );
            lemma_mul_mag_bound2(
                self.velocity.y as int,
                dy as int,
                VEL_LIMIT as int,
                2 * POS_LIMIT as int,
            );
            lemma_mul_mag_bound2(
                other.velocity.x as int,
                dx as int,
                VEL_LIMIT as int,
                2 * POS_LIMIT as int,
            );
            lemma_mul_mag_bound2(
                other.velocity.y as int,
                dy as int,
                VEL_LIMIT as int,
                2 * POS_LIMIT as int,
            );
            lemma_mul_mag_bound2(
                self.velocity.x as int,
                -dy as int,
                VEL_LIMIT as int,
                2 * POS_LIMIT as int,
            );
            lemma_mul_mag_bound2(
                self.velocity.y as int,
                dx as int,
                VEL_LIMIT as int,
                2 * POS_LIMIT as int,
            );
        }
        let a: i128 = (self.velocity.x as i128) * (dx as i128) + (self.velocity.y as i128) * (
        dy as i128);
        let b: i128 = (other.velocity.x as i128) * (dx as i128) + (other.velocity.y as i128) * (
        dy as i128);
        let c: i128 = (self.velocity.x as i128) * (-(dy as i128)) + (self.velocity.y as i128) * (
        dx as i128);
        proof {
            lemma_bounce_numerator_bound(a as int, b as int, self.mass as int, other.mass as int);
            lemma_mul_is_associative(2, other.mass as int, b as int);
        }
        let t: i128 = div_i128(
            a * ((self.mass as i128) - (other.mass as i128)) + 2 * (other.mass as i128) * b,
            msum as i128,
        );
        proof {
            lemma_mul_mag_bound2(t as int, dx as int, 3 * DOT_VD_LIMIT as int, 2 * POS_LIMIT as int);
            lemma_mul_mag_bound2(t as int, dy as int, 3 * DOT_VD_LIMIT as int, 2 * POS_LIMIT as int);
            lemma_mul_mag_bound2(c as int, dx as int, DOT_VD_LIMIT as int, 2 * POS_LIMIT as int);
            lemma_mul_mag_bound2(c as int, -dy as int, DOT_VD_LIMIT as int, 2 * POS_LIMIT as int);
        }
        let vx: i64 = clamp_i128(div_i128(t * (dx as i128) + c * (-(dy as i128)), d2), VEL_LIMIT);
        let vy: i64 = clamp_i128(div_i128(t * (dy as i128) + c * (dx as i128), d2), VEL_LIMIT);
        self.velocity = Vec2 { x: vx, y: vy };
    }

    /// The window-wall reflection used when a circle meets a rectangle: the
    /// rectangle stands in for the window border, and the velocity component
    /// that would carry the previewed centre across a border line is flipped
    /// inward.
    pub fn bounce_wall(&mut self)
        requires
            old(self).wf(),
        ensures
            *final(self) == (Circle {
                velocity: Vec2 {
                    x: wall_bounce_velocity_s(*old(self)).0 as i64,
                    y: wall_bounce_velocity_s(*old(self)).1 as i64,
                },
                ..*old(self)
            }),
            final(self).wf(),
    {
        proof {
            lemma_tdiv_le(self.velocity.x as int, STEPS_PER_SECOND as int);
            lemma_tdiv_le(self.velocity.y as int, STEPS_PER_SECOND as int);
            lemma_tdiv_le(0, STEPS_PER_SECOND as int);
        }
        let nx: i64 = clamp_i64(
            self.centre.x + div_i64(self.velocity.x, STEPS_PER_SECOND),
            POS_LIMIT,
        );
        let ny: i64 = clamp_i64(
            self.centre.y + div_i64(self.velocity.y, STEPS_PER_SECOND),
            POS_LIMIT,
        );
        let left: i64 = -HALF_W + self.radius + ONE;
        let right: i64 = HALF_W - self.radius - ONE;
        let bottom: i64 = -HALF_H + self.radius + ONE;
        let top: i64 = HALF_H - self.radius - ONE;
        let vx: i64 = self.velocity.x;
        let vy: i64 = self.velocity.y;
        if nx < left {
            self.velocity = Vec2 { x: if vx < 0 { -vx } else { vx }, y: vy };
        } else if nx > right {
            self.velocity = Vec2 { x: if vx < 0 { vx } else { -vx }, y: vy };
        } else if ny < bottom {
            self.velocity = Vec2 { x: vx, y: if vy < 0 { -vy } else { vy } };
        } else if ny > top {
            self.velocity = Vec2 { x: vx, y: if vy < 0 { vy } else { -vy } };
        }
    }
}

/// The default circle mass lies in the mass band.
proof fn lemma_circle_mass_bounds(radius: int)
    requires
        0 < radius <= SIZE_LIMIT,
    ensures
        0 <= circle_mass_s(radius) <= MASS_LIMIT,
        0 <= radius * radius <= 10_000_000_000_000_000_000_000int,
        0 <= PI_NANO * radius * radius <= 40_000_000_000_000_000_000_000_000_000_000int,
        0 <= PI_NANO * (radius * radius) <= 40_000_000_000_000_000_000_000_000_000_000int,
{
    lemma_mul_mag_bound(radius, radius, SIZE_LIMIT as int);
    lemma_square_nonneg(radius);
    lemma_mul_is_associative(PI_NANO as int, radius, radius);
    assert(0 <= PI_NANO * (radius * radius) <= 40_000_000_000_000_000_000_000_000_000_000int)
        by (nonlinear_arith)
        requires
            0 <= radius * radius <= 10_000_000_000_000_000_000_000int,
    ;
    lemma_tdiv_le(PI_NANO * radius * radius, 1_000_000_000_000_000_000);
    lemma_tdiv_bound(PI_NANO * radius * radius, 1_000_000_000_000_000_000, MASS_LIMIT as int);
}

/// A nonnegative number whose square is at most `2 * m * m` is at most
/// `2 * m`.
proof fn lemma_len_bound(r: int, n: int, m: int)
    requires
        0 <= m,
        0 <= r,
        r * r <= n,
        n <= 2 * (m * m),
    ensures
        r <= 2 * m,
{
    if r > 2 * m {
        assert(r * r > (2 * m) * (2 * m)) by (nonlinear_arith)
            requires
                r > 2 * m >= 0,
        ;
        assert((2 * m) * (2 * m) >= 2 * (m * m)) by (nonlinear_arith)
            requires
                m >= 0,
        ;
        assert(false);
    }
}

/// The collision quotient is bounded by three times the dot-product bound.
proof fn lemma_bounce_numerator_bound(a: int, b: int, m1: int, m2: int)
    requires
        -(DOT_VD_LIMIT as int) <= a <= DOT_VD_LIMIT as int,
        -(DOT_VD_LIMIT as int) <= b <= DOT_VD_LIMIT as int,
        0 <= m1 <= MASS_LIMIT,
        0 <= m2 <= MASS_LIMIT,
        m1 + m2 >= 1,
    ensures
        -130000000000000000000000000000000000000 <= a * (m1 - m2) + 2 * m2 * b
            <= 130000000000000000000000000000000000000,
        -43000000000000000000000000000000000000 <= a * (m1 - m2)
            <= 43000000000000000000000000000000000000,
        -43000000000000000000000000000000000000 <= m2 * b <= 43000000000000000000000000000000000000,
        -(3 * DOT_VD_LIMIT as int) <= tdiv(a * (m1 - m2) + 2 * m2 * b, m1 + m2) <= 3
            * DOT_VD_LIMIT as int,
{
    let k = DOT_VD_LIMIT as int;
    let msum = m1 + m2;
    assert(-(k * msum) <= a * (m1 - m2) <= k * msum) by (nonlinear_arith)
        requires
            -k <= a <= k,
            -msum <= m1 - m2 <= msum,
            0 <= k,
            0 <= msum,
    ;
    assert(-(k * msum) <= m2 * b <= k * msum) by (nonlinear_arith)
        requires
            -k <= b <= k,
            0 <= m2 <= msum,
            0 <= k,
    ;
    assert(-(3 * k * msum) <= a * (m1 - m2) + 2 * m2 * b <= 3 * k * msum) by (nonlinear_arith)
        requires
            -(k * msum) <= a * (m1 - m2) <= k * msum,
            -(k * msum) <= m2 * b <= k * msum,
    ;
    lemma_mul_is_commutative(3 * k, msum);
    lemma_tdiv_bound(a * (m1 - m2) + 2 * m2 * b, msum, 3 * k);
    assert(k * msum <= 43000000000000000000000000000000000000int && 3 * k * msum
        <= 130000000000000000000000000000000000000int) by (nonlinear_arith)
        requires
            0 <= k == DOT_VD_LIMIT as int,
            0 <= msum <= 2 * MASS_LIMIT,
    ;
}

} // verus!
