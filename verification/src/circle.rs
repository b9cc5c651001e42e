//! The circular body: a radius around a Verlet particle state, with the
//! pairwise penetration test.

use crate::math::{lemma_abs_le_sqrt, mul_div_tz, sqrt_floor, isqrt_u128, scale_frac};
use crate::particle::{integrate_model, ParticleModel, ParticleState};
use crate::vector::{v2_norm_sq, v2_sub, Vec2Model, Vector2};
use crate::{ACCEL_LIMIT, COLLIDE_LIMIT, DT_LIMIT_NANOS, GEOM_LIMIT, INTEGRATED_LIMIT, POS_LIMIT};
use vstd::prelude::*;

verus! {

/// A circle of fixed radius around a Verlet particle state, together
/// with the constant acceleration (gravity) the owner re-applies after
/// every integration step.
#[derive(Clone, Copy, Debug, PartialEq, Eq, Structural)]
pub struct Circle {
    pub radius: i64,
    pub gravity: Vector2,
    pub state: ParticleState,
}

/// The mathematical value of a `Circle`.
pub ghost struct CircleModel {
    pub radius: int,
    pub gravity: Vec2Model,
    pub state: ParticleModel,
}

impl View for Circle {
    type V = CircleModel;

    open spec fn view(&self) -> CircleModel {
        CircleModel { radius: self.radius as int, gravity: self.gravity@, state: self.state@ }
    }
}

/// One integration step of a body: the particle state advances by one
/// Verlet step, then the stored gravity is re-accumulated into the
/// consumed acceleration.
pub open spec fn circle_integrate_model(c: CircleModel, dt: int) -> CircleModel {
    let stepped = integrate_model(c.state, dt);
    CircleModel {
        radius: c.radius,
        gravity: c.gravity,
        state: ParticleModel {
            position: stepped.position,
            previous_position: stepped.previous_position,
            acceleration: c.gravity,
        },
    }
}

/// The penetration vector of `a` against `b`, if any: the vector from
/// `b`'s center toward `a`'s, scaled to the penetration depth. No
/// vector is reported when the circles do not overlap, nor when the
/// centers coincide (there is no direction to separate along).
pub open spec fn collide_model(a: CircleModel, b: CircleModel) -> Option<Vec2Model> {
    let delta = v2_sub(a.state.position, b.state.position);
    let d = sqrt_floor(v2_norm_sq(delta));
    let overlap = a.radius + b.radius - d;
    if overlap > 0 && d > 0 {
        Some(Vec2Model { x: mul_div_tz(delta.x, overlap, d), y: mul_div_tz(delta.y, overlap, d) })
    } else {
        None
    }
}

/// The view of an optional vector.
pub open spec fn option_model(r: Option<Vector2>) -> Option<Vec2Model> {
    match r {
        Some(v) => Some(v@),
        None => None,
    }
}

impl Circle {
    /// A body of the given radius, at rest at `position`, accelerated
    /// by the constant `gravity`.
    pub fn new(radius: i64, position: Vector2, gravity: Vector2) -> (c: Circle)
        requires
            0 <= radius,
        ensures
            c@.radius == radius as int,
            c@.gravity == gravity@,
            c@.state.position == position@,
            c@.state.previous_position == position@,
            c@.state.acceleration == gravity@,
    {
        Circle { radius, gravity, state: ParticleState::new(position, gravity) }
    }

    /// The body's radius.
    pub fn radius(&self) -> (r: i64)
        ensures
            r as int == self@.radius,
    {
        self.radius
    }

    /// The body's current position.
    pub fn position(&self) -> (p: Vector2)
        ensures
            p@ == self@.state.position,
    {
        self.state.position
    }

    /// Advance the body by one Verlet step of `dt_nanos` nanoseconds
    /// and re-apply its gravity.
    pub fn integrate(&mut self, dt_nanos: u64)
        requires
            dt_nanos <= DT_LIMIT_NANOS,
            -POS_LIMIT <= old(self)@.state.position.x <= POS_LIMIT,
            -POS_LIMIT <= old(self)@.state.position.y <= POS_LIMIT,
            -POS_LIMIT <= old(self)@.state.previous_position.x <= POS_LIMIT,
            -POS_LIMIT <= old(self)@.state.previous_position.y <= POS_LIMIT,
            -ACCEL_LIMIT <= old(self)@.state.acceleration.x <= ACCEL_LIMIT,
            -ACCEL_LIMIT <= old(self)@.state.acceleration.y <= ACCEL_LIMIT,
            -ACCEL_LIMIT <= old(self)@.gravity.x <= ACCEL_LIMIT,
            -ACCEL_LIMIT <= old(self)@.gravity.y <= ACCEL_LIMIT,
        ensures
            final(self)@ == circle_integrate_model(old(self)@, dt_nanos as int),
            -INTEGRATED_LIMIT <= final(self)@.state.position.x <= INTEGRATED_LIMIT,
            -INTEGRATED_LIMIT <= final(self)@.state.position.y <= INTEGRATED_LIMIT,
    {
        let g = self.gravity;
        self.state.integrate(dt_nanos);
        self.state.accelerate(g);
    }

    /// The penetration vector of `self` against `other`, if the two
    /// circles overlap; a pure geometric test that mutates nothing.
    pub fn collide(&self, other: &Circle) -> (r: Option<Vector2>)
        requires
            0 <= self@.radius <= GEOM_LIMIT,
            0 <= other@.radius <= GEOM_LIMIT,
            -COLLIDE_LIMIT <= self@.state.position.x <= COLLIDE_LIMIT,
            -COLLIDE_LIMIT <= self@.state.position.y <= COLLIDE_LIMIT,
            -COLLIDE_LIMIT <= other@.state.position.x <= COLLIDE_LIMIT,
            -COLLIDE_LIMIT <= other@.state.position.y <= COLLIDE_LIMIT,
        ensures
            option_model(r) == collide_model(self@, other@),
            r is Some ==> -2 * GEOM_LIMIT <= r->0@.x <= 2 * GEOM_LIMIT && -2 * GEOM_LIMIT
                <= r->0@.y <= 2 * GEOM_LIMIT,
    {
        let dx = self.state.position.x - other.state.position.x;
        let dy = self.state.position.y - other.state.position.y;
        let delta = Vector2 { x: dx, y: dy };
        let n: u128 = delta.norm_sq();
        assert(n as int <= 800_000_000_000_000_000_000_000_000_000_000int) by (nonlinear_arith)
            requires
                n as int == (dx as int) * (dx as int) + (dy as int) * (dy as int),
                -20_000_000_000_000_000 <= dx as int <= 20_000_000_000_000_000,
                -20_000_000_000_000_000 <= dy as int <= 20_000_000_000_000_000,
        ;
        assert(n < 0x4000_0000_0000_0000_0000_0000_0000_0000u128) by (nonlinear_arith)
            requires
                n as int == (dx as int) * (dx as int) + (dy as int) * (dy as int),
                -20_000_000_000_000_000 <= dx as int <= 20_000_000_000_000_000,
                -20_000_000_000_000_000 <= dy as int <= 20_000_000_000_000_000,
        ;
        let d128 = isqrt_u128(n);
        assert(d128 <= 30_000_000_000_000_000u128) by (nonlinear_arith)
            requires
                (d128 as int) * (d128 as int) <= n as int,
                n as int <= 800_000_000_000_000_000_000_000_000_000_000int,
        ;
        let d = d128 as i64;
        let overlap = self.radius + other.radius - d;
        if overlap > 0 && d > 0 {
            proof {
                assert((dx as int) * (dx as int) <= n as int && (dy as int) * (dy as int)
                    <= n as int) by (nonlinear_arith)
                    requires
                        n as int == (dx as int) * (dx as int) + (dy as int) * (dy as int),
                ;
                lemma_abs_le_sqrt(dx as int, n as int, d as int);
                lemma_abs_le_sqrt(dy as int, n as int, d as int);
            }
            let cx = scale_frac(dx, overlap, d);
            let cy = scale_frac(dy, overlap, d);
            Some(Vector2 { x: cx, y: cy })
        } else {
            None
        }
    }
}

} // verus!
