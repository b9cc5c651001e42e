//! The Verlet kinematic state of one body, and its integration step.

use crate::math::lemma_div_bounds;
use crate::vector::{v2_sub, v2_zero, Vec2Model, Vector2};
use crate::{ACCEL_LIMIT, DISP_LIMIT, DT_LIMIT_NANOS, INTEGRATED_LIMIT, POS_LIMIT,
    SECOND_NANOS_SQUARED};
use vstd::arithmetic::div_mod::lemma_div_is_ordered;
use vstd::prelude::*;

verus! {

/// Position, previous position and pending acceleration of one body.
///
/// The previous position is the value the position had before the last
/// integration step, so `position - previous_position` is the implicit
/// velocity. The acceleration is accumulated by the owner between steps
/// and consumed (reset to zero) by each integration step.
#[derive(Clone, Copy, Debug, PartialEq, Eq, Structural)]
pub struct ParticleState {
    pub position: Vector2,
    pub previous_position: Vector2,
    pub acceleration: Vector2,
}

/// The mathematical value of a `ParticleState`.
pub ghost struct ParticleModel {
    pub position: Vec2Model,
    pub previous_position: Vec2Model,
    pub acceleration: Vec2Model,
}

impl View for ParticleState {
    type V = ParticleModel;

    open spec fn view(&self) -> ParticleModel {
        ParticleModel {
            position: self.position@,
            previous_position: self.previous_position@,
            acceleration: self.acceleration@,
        }
    }
}

/// The implicit velocity of a state: how far the last integration step
/// moved it.
pub open spec fn velocity_model(s: ParticleModel) -> Vec2Model {
    v2_sub(s.position, s.previous_position)
}

/// One component of the displacement contributed by acceleration `a`
/// over `dt` nanoseconds: `a * dt^2`, brought from nanoseconds squared
/// to seconds squared and rounded toward zero.
pub open spec fn accel_term(a: int, dt: int) -> int {
    if a >= 0 {
        (a * dt * dt) / (SECOND_NANOS_SQUARED as int)
    } else {
        -(((-a) * dt * dt) / (SECOND_NANOS_SQUARED as int))
    }
}

/// One Verlet integration step of `dt` nanoseconds: the position
/// advances by the implicit velocity plus the acceleration term, the
/// previous position becomes the pre-step position, and the
/// acceleration is consumed.
pub open spec fn integrate_model(s: ParticleModel, dt: int) -> ParticleModel {
    ParticleModel {
        position: Vec2Model {
            x: s.position.x + velocity_model(s).x + accel_term(s.acceleration.x, dt),
            y: s.position.y + velocity_model(s).y + accel_term(s.acceleration.y, dt),
        },
        previous_position: s.position,
        acceleration: v2_zero(),
    }
}

/// The acceleration term stays within `DISP_LIMIT` whenever the inputs
/// obey the component limits.
pub proof fn lemma_accel_term_bound(a: int, dt: int)
    requires
        -ACCEL_LIMIT <= a <= ACCEL_LIMIT,
        0 <= dt <= DT_LIMIT_NANOS,
    ensures
        -DISP_LIMIT <= accel_term(a, dt) <= DISP_LIMIT,
{
    let m = if a >= 0 {
        a
    } else {
        -a
    };
    assert(0 <= m * dt * dt <= 100_000_000_000_000_000_000_000_000_000) by (nonlinear_arith)
        requires
            0 <= m <= 1_000_000_000,
            0 <= dt <= 10_000_000_000,
    ;
    lemma_div_bounds(m * dt * dt, SECOND_NANOS_SQUARED as int);
    lemma_div_is_ordered(
        m * dt * dt,
        100_000_000_000_000_000_000_000_000_000,
        SECOND_NANOS_SQUARED as int,
    );
}

/// Integration is deterministic: two states with equal position,
/// previous position and acceleration integrate, for the same time
/// step, to equal states.
pub proof fn lemma_integrate_deterministic(a: ParticleModel, b: ParticleModel, dt: int)
    requires
        a.position == b.position,
        a.previous_position == b.previous_position,
        a.acceleration == b.acceleration,
    ensures
        integrate_model(a, dt) == integrate_model(b, dt),
{
}

/// A state at rest under no acceleration does not move: integration
/// leaves the position in place.
pub proof fn lemma_integrate_stationary(s: ParticleModel, dt: int)
    requires
        s.previous_position == s.position,
        s.acceleration == v2_zero(),
        0 <= dt,
    ensures
        integrate_model(s, dt).position == s.position,
{
    vstd::arithmetic::div_mod::lemma_div_of0(SECOND_NANOS_SQUARED as int);
    assert(accel_term(0, dt) == (0 * dt * dt) / (SECOND_NANOS_SQUARED as int));
    assert(0 * dt * dt == 0) by (nonlinear_arith);
}

/// One component of the acceleration displacement, exact per `accel_term`.
fn accel_displacement(a: i64, dt_nanos: u64) -> (r: i64)
    requires
        -ACCEL_LIMIT <= a <= ACCEL_LIMIT,
        dt_nanos <= DT_LIMIT_NANOS,
    ensures
        r as int == accel_term(a as int, dt_nanos as int),
        -DISP_LIMIT <= r <= DISP_LIMIT,
{
    proof {
        lemma_accel_term_bound(a as int, dt_nanos as int);
    }
    let mag: u128 = crate::math::abs_u64(a) as u128;
    let dt: u128 = dt_nanos as u128;
    assert(mag * dt <= 10_000_000_000_000_000_000u128) by (nonlinear_arith)
        requires
            mag <= 1_000_000_000u128,
            dt <= 10_000_000_000u128,
    ;
    assert(mag * dt * dt <= 100_000_000_000_000_000_000_000_000_000u128) by (nonlinear_arith)
        requires
            mag <= 1_000_000_000u128,
            dt <= 10_000_000_000u128,
    ;
    let disp: u128 = mag * dt * dt / SECOND_NANOS_SQUARED;
    proof {
        lemma_div_bounds((mag * dt * dt) as int, SECOND_NANOS_SQUARED as int);
        lemma_div_is_ordered(
            (mag * dt * dt) as int,
            100_000_000_000_000_000_000_000_000_000,
            SECOND_NANOS_SQUARED as int,
        );
    }
    if a >= 0 {
        disp as i64
    } else {
        -(disp as i64)
    }
}

impl ParticleState {
    /// A state at the given position, at rest, with the given pending
    /// acceleration.
    pub fn new(position: Vector2, acceleration: Vector2) -> (s: ParticleState)
        ensures
            s@.position == position@,
            s@.previous_position == position@,
            s@.acceleration == acceleration@,
    {
        ParticleState { position, previous_position: position, acceleration }
    }

    /// Accumulate a force into the pending acceleration.
    pub fn accelerate(&mut self, f: Vector2)
        requires
            i64::MIN <= old(self)@.acceleration.x + f@.x <= i64::MAX,
            i64::MIN <= old(self)@.acceleration.y + f@.y <= i64::MAX,
        ensures
            final(self)@.acceleration == crate::vector::v2_add(old(self)@.acceleration, f@),
            final(self)@.position == old(self)@.position,
            final(self)@.previous_position == old(self)@.previous_position,
    {
        self.acceleration = self.acceleration.add(&f);
    }

    /// Advance the state by one Verlet step of `dt_nanos` nanoseconds.
    pub fn integrate(&mut self, dt_nanos: u64)
        requires
            dt_nanos <= DT_LIMIT_NANOS,
            -POS_LIMIT <= old(self)@.position.x <= POS_LIMIT,
            -POS_LIMIT <= old(self)@.position.y <= POS_LIMIT,
            -POS_LIMIT <= old(self)@.previous_position.x <= POS_LIMIT,
            -POS_LIMIT <= old(self)@.previous_position.y <= POS_LIMIT,
            -ACCEL_LIMIT <= old(self)@.acceleration.x <= ACCEL_LIMIT,
            -ACCEL_LIMIT <= old(self)@.acceleration.y <= ACCEL_LIMIT,
        ensures
            final(self)@ == integrate_model(old(self)@, dt_nanos as int),
            -INTEGRATED_LIMIT <= final(self)@.position.x <= INTEGRATED_LIMIT,
            -INTEGRATED_LIMIT <= final(self)@.position.y <= INTEGRATED_LIMIT,
    {
        let ax = accel_displacement(self.acceleration.x, dt_nanos);
        let ay = accel_displacement(self.acceleration.y, dt_nanos);
        let new_x = self.position.x + (self.position.x - self.previous_position.x) + ax;
        let new_y = self.position.y + (self.position.y - self.previous_position.y) + ay;
        self.previous_position = self.position;
        self.position = Vector2 { x: new_x, y: new_y };
        self.acceleration = Vector2 { x: 0, y: 0 };
    }
}

} // verus!
