//! The planar vector the simulation computes with, and its exact
//! integer model.

use crate::math::{half_tz, is_sqrt_floor, mul_div_tz, sqrt_floor, half_i64, isqrt_u128};
use vstd::prelude::*;

verus! {

/// A two-component column vector in caller-chosen fixed-point units.
#[derive(Clone, Copy, Debug, PartialEq, Eq, Structural)]
pub struct Vector2 {
    pub x: i64,
    pub y: i64,
}

/// The mathematical value of a `Vector2`.
pub ghost struct Vec2Model {
    pub x: int,
    pub y: int,
}

impl View for Vector2 {
    type V = Vec2Model;

    open spec fn view(&self) -> Vec2Model {
        Vec2Model { x: self.x as int, y: self.y as int }
    }
}

pub open spec fn v2(x: int, y: int) -> Vec2Model {
    Vec2Model { x: x, y: y }
}

pub open spec fn v2_zero() -> Vec2Model {
    Vec2Model { x: 0, y: 0 }
}

pub open spec fn v2_add(a: Vec2Model, b: Vec2Model) -> Vec2Model {
    Vec2Model { x: a.x + b.x, y: a.y + b.y }
}

pub open spec fn v2_sub(a: Vec2Model, b: Vec2Model) -> Vec2Model {
    Vec2Model { x: a.x - b.x, y: a.y - b.y }
}

pub open spec fn v2_scale(a: Vec2Model, k: int) -> Vec2Model {
    Vec2Model { x: a.x * k, y: a.y * k }
}

/// Componentwise division by a positive scalar, rounded toward zero.
pub open spec fn v2_div_tz(a: Vec2Model, k: int) -> Vec2Model {
    Vec2Model { x: mul_div_tz(a.x, 1, k), y: mul_div_tz(a.y, 1, k) }
}

/// Componentwise halving, rounded toward zero.
pub open spec fn v2_half(a: Vec2Model) -> Vec2Model {
    Vec2Model { x: half_tz(a.x), y: half_tz(a.y) }
}

/// The squared Euclidean norm.
pub open spec fn v2_norm_sq(a: Vec2Model) -> int {
    a.x * a.x + a.y * a.y
}

impl Vector2 {
    /// Construct a vector from its two components.
    pub fn new(x: i64, y: i64) -> (v: Vector2)
        ensures
            v@ == v2(x as int, y as int),
    {
        Vector2 { x, y }
    }

    /// Componentwise sum.
    pub fn add(&self, other: &Vector2) -> (r: Vector2)
        requires
            i64::MIN <= self@.x + other@.x <= i64::MAX,
            i64::MIN <= self@.y + other@.y <= i64::MAX,
        ensures
            r@ == v2_add(self@, other@),
    {
        Vector2 { x: self.x + other.x, y: self.y + other.y }
    }

    /// Componentwise difference.
    pub fn sub(&self, other: &Vector2) -> (r: Vector2)
        requires
            i64::MIN <= self@.x - other@.x <= i64::MAX,
            i64::MIN <= self@.y - other@.y <= i64::MAX,
        ensures
            r@ == v2_sub(self@, other@),
    {
        Vector2 { x: self.x - other.x, y: self.y - other.y }
    }

    /// Multiplication by a scalar.
    pub fn scale(&self, k: i64) -> (r: Vector2)
        requires
            i64::MIN <= self@.x * k <= i64::MAX,
            i64::MIN <= self@.y * k <= i64::MAX,
        ensures
            r@ == v2_scale(self@, k as int),
    {
        Vector2 { x: self.x * k, y: self.y * k }
    }

    /// Division by a positive scalar, rounded toward zero.
    pub fn div_scalar(&self, k: i64) -> (r: Vector2)
        requires
            k >= 1,
            self@.x != i64::MIN,
            self@.y != i64::MIN,
        ensures
            r@ == v2_div_tz(self@, k as int),
    {
        let x = div_scalar_i64(self.x, k);
        let y = div_scalar_i64(self.y, k);
        Vector2 { x, y }
    }

    /// Componentwise halving, rounded toward zero.
    pub fn halved(&self) -> (r: Vector2)
        requires
            self@.x != i64::MIN,
            self@.y != i64::MIN,
        ensures
            r@ == v2_half(self@),
    {
        Vector2 { x: half_i64(self.x), y: half_i64(self.y) }
    }

    /// The squared Euclidean norm, exact.
    pub fn norm_sq(&self) -> (r: u128)
        ensures
            r as int == v2_norm_sq(self@),
    {
        let ax: u128 = abs_to_u128(self.x);
        let ay: u128 = abs_to_u128(self.y);
        assert(ax * ax == self@.x * self@.x && ay * ay == self@.y * self@.y) by (nonlinear_arith)
            requires
                ax as int == if self@.x >= 0 {
                    self@.x
                } else {
                    (-self@.x)
                },
                ay as int == if self@.y >= 0 {
                    self@.y
                } else {
                    (-self@.y)
                },
        ;
        assert(ax * ax + ay * ay < u128::MAX) by (nonlinear_arith)
            requires
                ax <= 0x8000_0000_0000_0000u128,
                ay <= 0x8000_0000_0000_0000u128,
        ;
        ax * ax + ay * ay
    }

    /// The Euclidean norm, rounded down.
    pub fn norm(&self) -> (r: i64)
        requires
            -4_000_000_000_000_000_000 <= self@.x <= 4_000_000_000_000_000_000,
            -4_000_000_000_000_000_000 <= self@.y <= 4_000_000_000_000_000_000,
        ensures
            r as int == sqrt_floor(v2_norm_sq(self@)),
            is_sqrt_floor(v2_norm_sq(self@), r as int),
    {
        let n = self.norm_sq();
        assert(n < 0x4000_0000_0000_0000_0000_0000_0000_0000u128) by (nonlinear_arith)
            requires
                n as int == self@.x * self@.x + self@.y * self@.y,
                -4_000_000_000_000_000_000 <= self@.x <= 4_000_000_000_000_000_000,
                -4_000_000_000_000_000_000 <= self@.y <= 4_000_000_000_000_000_000,
        ;
        let r = isqrt_u128(n);
        assert(r <= 6_000_000_000_000_000_000u128) by (nonlinear_arith)
            requires
                r * r <= n,
                n as int == self@.x * self@.x + self@.y * self@.y,
                -4_000_000_000_000_000_000 <= self@.x <= 4_000_000_000_000_000_000,
                -4_000_000_000_000_000_000 <= self@.y <= 4_000_000_000_000_000_000,
        ;
        r as i64
    }
}

/// Division of one component by a positive scalar, rounded toward zero.
fn div_scalar_i64(a: i64, k: i64) -> (r: i64)
    requires
        k >= 1,
        a != i64::MIN,
    ensures
        r as int == mul_div_tz(a as int, 1, k as int),
{
    let mag: u64 = crate::math::abs_u64(a);
    let m: u64 = mag / k as u64;
    proof {
        let ai = if a as int >= 0 {
            a as int
        } else {
            -(a as int)
        };
        assert(ai * 1 == ai) by (nonlinear_arith);
    }
    if a >= 0 {
        m as i64
    } else {
        -(m as i64)
    }
}

/// The magnitude of a component, widened so that its square always fits.
fn abs_to_u128(x: i64) -> (r: u128)
    ensures
        x >= 0 ==> r as int == x as int,
        x < 0 ==> r as int == -(x as int),
        r <= 0x8000_0000_0000_0000u128,
{
    let w: i128 = x as i128;
    if w >= 0 {
        w as u128
    } else {
        (-w) as u128
    }
}

} // verus!
