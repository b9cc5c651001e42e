//! The per-frame step driver: sub-stepped integration, boundary
//! constraint and pairwise collision resolution over a collection of
//! circles, with the laws the three phases obey.

use crate::circle::{circle_integrate_model, collide_model, Circle, CircleModel};
use crate::math::{
    half_tz, lemma_abs_le_sqrt, lemma_mul_div_tz_bounds, lemma_scaled_offset_within,
    lemma_sqrt_floor_exists, lemma_sqrt_floor_le, mul_div_tz, sqrt_floor, isqrt_u128, scale_frac,
};
use crate::particle::ParticleModel;
use crate::vector::{
    v2_add, v2_half, v2_norm_sq, v2_sub, v2_zero, Vec2Model, Vector2,
};
use crate::{
    ACCEL_LIMIT, COLLIDE_LIMIT, COLLISION_ENTRY_LIMIT, COLLISION_EXIT_LIMIT, CONSTRAINED_LIMIT,
    CONSTRAIN_IN_LIMIT, COUNT_LIMIT, DT_LIMIT_NANOS, GEOM_LIMIT, INTEGRATED_LIMIT, POS_LIMIT,
    SUB_STEPS,
};
use vstd::prelude::*;

verus! {

/// The mathematical value of a collection of bodies.
pub open spec fn circles_model(s: Seq<Circle>) -> Seq<CircleModel> {
    s.map_values(|c: Circle| c@)
}

/// The same body with its position replaced.
pub open spec fn with_position(c: CircleModel, p: Vec2Model) -> CircleModel {
    CircleModel {
        radius: c.radius,
        gravity: c.gravity,
        state: ParticleModel {
            position: p,
            previous_position: c.state.previous_position,
            acceleration: c.state.acceleration,
        },
    }
}

/// Phase one: every body integrates independently.
pub open spec fn integrate_all_model(s: Seq<CircleModel>, dt: int) -> Seq<CircleModel> {
    s.map_values(|c: CircleModel| circle_integrate_model(c, dt))
}

/// Phase two, for one body: if the body pokes out of the arena, pull
/// its center back onto the circle of radius `arena_radius - c.radius`
/// around the arena center; otherwise leave it alone. A body exactly at
/// the center has no direction to be pulled along and is left alone.
pub open spec fn constrain_model(c: CircleModel, mid: Vec2Model, arena_radius: int) -> CircleModel {
    let off = v2_sub(c.state.position, mid);
    let d = sqrt_floor(v2_norm_sq(off));
    let k = arena_radius - c.radius;
    if d > k {
        with_position(
            c,
            v2_add(mid, Vec2Model { x: mul_div_tz(off.x, k, d), y: mul_div_tz(off.y, k, d) }),
        )
    } else {
        c
    }
}

/// Phase two: every body is constrained independently.
pub open spec fn constrain_all_model(s: Seq<CircleModel>, mid: Vec2Model, arena_radius: int) -> Seq<
    CircleModel,
> {
    s.map_values(|c: CircleModel| constrain_model(c, mid, arena_radius))
}

/// Phase three, for one pair: if the two circles interpenetrate, split
/// the (halved, truncated) penetration vector evenly between them.
pub open spec fn resolve_pair_model(s: Seq<CircleModel>, i: int, j: int) -> Seq<CircleModel> {
    if 0 <= i < s.len() && 0 <= j < s.len() && i != j {
        match collide_model(s[i], s[j]) {
            Some(delta) => {
                let h = v2_half(delta);
                s.update(i, with_position(s[i], v2_add(s[i].state.position, h))).update(
                    j,
                    with_position(s[j], v2_sub(s[j].state.position, h)),
                )
            },
            None => s,
        }
    } else {
        s
    }
}

/// Phase three, inner walk: body `i` against every later body, in
/// order, each correction applied before the next pair is visited.
pub open spec fn pairs_from_model(s: Seq<CircleModel>, i: int, j: int) -> Seq<CircleModel>
    decreases s.len() - j,
{
    if 0 <= j < s.len() {
        pairs_from_model(resolve_pair_model(s, i, j), i, j + 1)
    } else {
        s
    }
}

/// `pairs_from_model` never changes the number of bodies.
pub proof fn lemma_pairs_from_len(s: Seq<CircleModel>, i: int, j: int)
    ensures
        pairs_from_model(s, i, j).len() == s.len(),
    decreases s.len() - j,
{
    if 0 <= j < s.len() {
        lemma_pairs_from_len(resolve_pair_model(s, i, j), i, j + 1);
    }
}

/// Phase three, outer walk: each body in sequence order against all
/// later ones.
pub open spec fn outer_pass_model(s: Seq<CircleModel>, i: int) -> Seq<CircleModel>
    decreases s.len() - i,
        via outer_pass_model_decreases
{
    if 0 <= i < s.len() {
        outer_pass_model(pairs_from_model(s, i, i + 1), i + 1)
    } else {
        s
    }
}

#[via_fn]
proof fn outer_pass_model_decreases(s: Seq<CircleModel>, i: int) {
    if 0 <= i < s.len() {
        lemma_pairs_from_len(s, i, i + 1);
    }
}

/// Phase three: one full pass over all unordered pairs, in sequence
/// order, corrections applied immediately.
pub open spec fn collision_pass_model(s: Seq<CircleModel>) -> Seq<CircleModel> {
    outer_pass_model(s, 0)
}

/// One sub-step: integrate all, constrain all, resolve all pairs once.
pub open spec fn substep_model(
    s: Seq<CircleModel>,
    mid: Vec2Model,
    arena_radius: int,
    dt: int,
) -> Seq<CircleModel> {
    collision_pass_model(constrain_all_model(integrate_all_model(s, dt), mid, arena_radius))
}

/// `n` sub-steps, each of `dt` nanoseconds, applied in order.
pub open spec fn run_substeps_model(
    s: Seq<CircleModel>,
    mid: Vec2Model,
    arena_radius: int,
    dt: int,
    n: nat,
) -> Seq<CircleModel>
    decreases n,
{
    if n == 0 {
        s
    } else {
        run_substeps_model(substep_model(s, mid, arena_radius, dt), mid, arena_radius, dt, (n
            - 1) as nat)
    }
}

/// Bounds under which a body may enter an integration phase.
pub open spec fn body_step_bounds(c: CircleModel) -> bool {
    &&& -POS_LIMIT <= c.state.position.x <= POS_LIMIT
    &&& -POS_LIMIT <= c.state.position.y <= POS_LIMIT
    &&& -POS_LIMIT <= c.state.previous_position.x <= POS_LIMIT
    &&& -POS_LIMIT <= c.state.previous_position.y <= POS_LIMIT
    &&& -ACCEL_LIMIT <= c.state.acceleration.x <= ACCEL_LIMIT
    &&& -ACCEL_LIMIT <= c.state.acceleration.y <= ACCEL_LIMIT
    &&& -ACCEL_LIMIT <= c.gravity.x <= ACCEL_LIMIT
    &&& -ACCEL_LIMIT <= c.gravity.y <= ACCEL_LIMIT
}

/// Bounds that hold right after an integration phase.
pub open spec fn post_integrate_bounds(c: CircleModel) -> bool {
    &&& -INTEGRATED_LIMIT <= c.state.position.x <= INTEGRATED_LIMIT
    &&& -INTEGRATED_LIMIT <= c.state.position.y <= INTEGRATED_LIMIT
    &&& -POS_LIMIT <= c.state.previous_position.x <= POS_LIMIT
    &&& -POS_LIMIT <= c.state.previous_position.y <= POS_LIMIT
    &&& -ACCEL_LIMIT <= c.state.acceleration.x <= ACCEL_LIMIT
    &&& -ACCEL_LIMIT <= c.state.acceleration.y <= ACCEL_LIMIT
    &&& -ACCEL_LIMIT <= c.gravity.x <= ACCEL_LIMIT
    &&& -ACCEL_LIMIT <= c.gravity.y <= ACCEL_LIMIT
}

/// Position components within `b`.
pub open spec fn position_within(c: CircleModel, b: int) -> bool {
    &&& -b <= c.state.position.x <= b
    &&& -b <= c.state.position.y <= b
}

/// How many pair corrections can have moved body `k` while the
/// collision pass stands at outer index `i`, inner index `j`, over `n`
/// bodies. Each correction moves a position component by at most
/// `GEOM_LIMIT`.
pub open spec fn collision_cap(k: int, i: int, j: int, n: int) -> int {
    if k < i {
        n + 1
    } else if k == i {
        j
    } else if k < j {
        i + 1
    } else {
        i
    }
}

/// Everything of a body but its position: what the constraint and
/// collision phases leave untouched.
pub open spec fn same_but_position(c: CircleModel, d: CircleModel) -> bool {
    &&& c.radius == d.radius
    &&& c.gravity == d.gravity
    &&& c.state.previous_position == d.state.previous_position
    &&& c.state.acceleration == d.state.acceleration
}

/// Containment: after the constraint phase, a body's distance from the
/// arena center (rounded down) is at most `arena_radius - c.radius`, so
/// the body lies inside the arena up to less than one fixed-point unit.
pub proof fn lemma_constraint_containment(c: CircleModel, mid: Vec2Model, arena_radius: int)
    requires
        0 <= c.radius <= arena_radius,
    ensures
        sqrt_floor(
            v2_norm_sq(v2_sub(constrain_model(c, mid, arena_radius).state.position, mid)),
        ) <= arena_radius - c.radius,
{
    let off = v2_sub(c.state.position, mid);
    let nsq = v2_norm_sq(off);
    assert(off.x * off.x >= 0 && off.y * off.y >= 0) by (nonlinear_arith);
    lemma_sqrt_floor_exists(nsq);
    let d = sqrt_floor(nsq);
    let k = arena_radius - c.radius;
    if d > k {
        lemma_scaled_offset_within(off.x, off.y, k, d);
        let p = constrain_model(c, mid, arena_radius).state.position;
        let t = v2_sub(p, mid);
        assert(t.x == mul_div_tz(off.x, k, d) && t.y == mul_div_tz(off.y, k, d));
        assert(t.x * t.x >= 0 && t.y * t.y >= 0) by (nonlinear_arith);
        lemma_sqrt_floor_le(v2_norm_sq(t), k);
    }
}

/// Collision symmetry: when a pair overlaps, the first body moves by
/// exactly half the penetration vector, the second by exactly its
/// negation, so the pair's combined displacement is zero.
pub proof fn lemma_collision_symmetry(s: Seq<CircleModel>, i: int, j: int)
    requires
        0 <= i < s.len(),
        0 <= j < s.len(),
        i != j,
        collide_model(s[i], s[j]) is Some,
    ensures
        ({
            let delta = collide_model(s[i], s[j])->0;
            let t = resolve_pair_model(s, i, j);
            &&& t[i].state.position == v2_add(s[i].state.position, v2_half(delta))
            &&& t[j].state.position == v2_sub(s[j].state.position, v2_half(delta))
            &&& v2_add(
                v2_sub(t[i].state.position, s[i].state.position),
                v2_sub(t[j].state.position, s[j].state.position),
            ) == v2_zero()
        }),
{
}

/// A pair that does not overlap (or whose centers coincide) is left
/// exactly as it was by the resolution phase.
pub proof fn lemma_no_overlap_no_motion(s: Seq<CircleModel>, i: int, j: int)
    requires
        collide_model(s[i], s[j]) is None,
    ensures
        resolve_pair_model(s, i, j) == s,
{
}

/// Separation: resolving an overlapping pair never decreases the
/// squared center-to-center distance — the positional correction can
/// only push the two bodies apart, never deeper into each other.
pub proof fn lemma_resolution_separates(s: Seq<CircleModel>, i: int, j: int)
    requires
        0 <= i < s.len(),
        0 <= j < s.len(),
        i != j,
        collide_model(s[i], s[j]) is Some,
    ensures
        ({
            let t = resolve_pair_model(s, i, j);
            v2_norm_sq(v2_sub(t[i].state.position, t[j].state.position)) >= v2_norm_sq(
                v2_sub(s[i].state.position, s[j].state.position),
            )
        }),
{
    let delta = v2_sub(s[i].state.position, s[j].state.position);
    let nsq = v2_norm_sq(delta);
    assert(delta.x * delta.x >= 0 && delta.y * delta.y >= 0) by (nonlinear_arith);
    lemma_sqrt_floor_exists(nsq);
    let d = sqrt_floor(nsq);
    let overlap = s[i].radius + s[j].radius - d;
    assert(delta.x * delta.x <= nsq && delta.y * delta.y <= nsq) by (nonlinear_arith)
        requires
            nsq == delta.x * delta.x + delta.y * delta.y,
            delta.x * delta.x >= 0 && delta.y * delta.y >= 0,
    ;
    lemma_abs_le_sqrt(delta.x, nsq, d);
    lemma_abs_le_sqrt(delta.y, nsq, d);
    lemma_mul_div_tz_bounds(delta.x, overlap, d);
    lemma_mul_div_tz_bounds(delta.y, overlap, d);
    let tx = mul_div_tz(delta.x, overlap, d);
    let ty = mul_div_tz(delta.y, overlap, d);
    let t = resolve_pair_model(s, i, j);
    let dx2 = v2_sub(t[i].state.position, t[j].state.position).x;
    let dy2 = v2_sub(t[i].state.position, t[j].state.position).y;
    assert(dx2 == delta.x + 2 * half_tz(tx));
    assert(dy2 == delta.y + 2 * half_tz(ty));
    lemma_same_sign_growth(delta.x, tx);
    lemma_same_sign_growth(delta.y, ty);
}

/// Adding twice the truncated half of a same-signed correction to a
/// component never shrinks its square.
proof fn lemma_same_sign_growth(dx: int, tx: int)
    requires
        dx >= 0 ==> tx >= 0,
        dx <= 0 ==> tx <= 0,
    ensures
        (dx + 2 * half_tz(tx)) * (dx + 2 * half_tz(tx)) >= dx * dx,
{
    let h = half_tz(tx);
    if dx >= 0 {
        assert(h >= 0);
        assert((dx + 2 * h) * (dx + 2 * h) >= dx * dx) by (nonlinear_arith)
            requires
                dx >= 0,
                h >= 0,
        ;
    } else {
        assert(h <= 0);
        assert((dx + 2 * h) * (dx + 2 * h) >= dx * dx) by (nonlinear_arith)
            requires
                dx <= 0,
                h <= 0,
        ;
    }
}

/// No interpenetration growth, for a whole sub-step: a pair of
/// stationary, force-free bodies that both lie inside the arena never
/// ends a sub-step closer together than it began — integration leaves
/// them in place, the constraint leaves them alone, and resolution can
/// only push them apart (or, once they no longer overlap, not move them
/// at all).
pub proof fn lemma_substep_separates(
    s: Seq<CircleModel>,
    mid: Vec2Model,
    arena_radius: int,
    dt: int,
)
    requires
        s.len() == 2,
        0 <= dt,
        forall|k: int|
            0 <= k < 2 ==> {
                let c = #[trigger] s[k];
                &&& c.state.previous_position == c.state.position
                &&& c.state.acceleration == v2_zero()
                &&& c.gravity == v2_zero()
                &&& 0 <= c.radius <= arena_radius
                &&& sqrt_floor(v2_norm_sq(v2_sub(c.state.position, mid))) <= arena_radius
                    - c.radius
            },
    ensures
        ({
            let t = substep_model(s, mid, arena_radius, dt);
            v2_norm_sq(v2_sub(t[0].state.position, t[1].state.position)) >= v2_norm_sq(
                v2_sub(s[0].state.position, s[1].state.position),
            )
        }),
{
    // Phase one is the identity on a stationary, force-free body.
    assert forall|k: int| 0 <= k < 2 implies circle_integrate_model(#[trigger] s[k], dt)
        == s[k] by {
        crate::particle::lemma_integrate_stationary(s[k].state, dt);
    }
    assert(integrate_all_model(s, dt) =~= s);
    // Phase two is the identity on a body already inside the arena.
    assert forall|k: int| 0 <= k < 2 implies constrain_model(#[trigger] s[k], mid, arena_radius)
        == s[k] by {
        let off = v2_sub(s[k].state.position, mid);
        assert(off.x * off.x >= 0 && off.y * off.y >= 0) by (nonlinear_arith);
        lemma_sqrt_floor_exists(v2_norm_sq(off));
    }
    assert(constrain_all_model(s, mid, arena_radius) =~= s);
    // Phase three visits the one pair exactly once.
    let t = resolve_pair_model(s, 0, 1);
    assert(pairs_from_model(t, 0, 2) == t);
    assert(pairs_from_model(s, 0, 1) == t);
    lemma_pairs_from_len(s, 0, 1);
    assert(pairs_from_model(t, 1, 2) == t);
    assert(outer_pass_model(t, 2) == t);
    assert(outer_pass_model(s, 0) == outer_pass_model(pairs_from_model(s, 0, 1), 1));
    assert(outer_pass_model(t, 1) == outer_pass_model(pairs_from_model(t, 1, 2), 2));
    assert(collision_pass_model(s) == t);
    if collide_model(s[0], s[1]) is Some {
        lemma_resolution_separates(s, 0, 1);
    } else {
        lemma_no_overlap_no_motion(s, 0, 1);
    }
}

/// Sub-step equivalence: one driver step of `SUB_STEPS == 8` sub-steps
/// is exactly the three phases — integrate, constrain, resolve — run
/// by hand eight times, each with the same `dt`.
pub proof fn lemma_substep_equivalence(
    s: Seq<CircleModel>,
    mid: Vec2Model,
    arena_radius: int,
    dt: int,
)
    ensures
        run_substeps_model(s, mid, arena_radius, dt, 8) == substep_model(
            substep_model(
                substep_model(
                    substep_model(
                        substep_model(
                            substep_model(
                                substep_model(
                                    substep_model(s, mid, arena_radius, dt),
                                    mid,
                                    arena_radius,
                                    dt,
                                ),
                                mid,
                                arena_radius,
                                dt,
                            ),
                            mid,
                            arena_radius,
                            dt,
                        ),
                        mid,
                        arena_radius,
                        dt,
                    ),
                    mid,
                    arena_radius,
                    dt,
                ),
                mid,
                arena_radius,
                dt,
            ),
            mid,
            arena_radius,
            dt,
        ),
{
    let s1 = substep_model(s, mid, arena_radius, dt);
    let s2 = substep_model(s1, mid, arena_radius, dt);
    let s3 = substep_model(s2, mid, arena_radius, dt);
    let s4 = substep_model(s3, mid, arena_radius, dt);
    let s5 = substep_model(s4, mid, arena_radius, dt);
    let s6 = substep_model(s5, mid, arena_radius, dt);
    let s7 = substep_model(s6, mid, arena_radius, dt);
    assert(run_substeps_model(s, mid, arena_radius, dt, 8) == run_substeps_model(
        s1,
        mid,
        arena_radius,
        dt,
        7,
    ));
    assert(run_substeps_model(s1, mid, arena_radius, dt, 7) == run_substeps_model(
        s2,
        mid,
        arena_radius,
        dt,
        6,
    ));
    assert(run_substeps_model(s2, mid, arena_radius, dt, 6) == run_substeps_model(
        s3,
        mid,
        arena_radius,
        dt,
        5,
    ));
    assert(run_substeps_model(s3, mid, arena_radius, dt, 5) == run_substeps_model(
        s4,
        mid,
        arena_radius,
        dt,
        4,
    ));
    assert(run_substeps_model(s4, mid, arena_radius, dt, 4) == run_substeps_model(
        s5,
        mid,
        arena_radius,
        dt,
        3,
    ));
    assert(run_substeps_model(s5, mid, arena_radius, dt, 3) == run_substeps_model(
        s6,
        mid,
        arena_radius,
        dt,
        2,
    ));
    assert(run_substeps_model(s6, mid, arena_radius, dt, 2) == run_substeps_model(
        s7,
        mid,
        arena_radius,
        dt,
        1,
    ));
    assert(run_substeps_model(s7, mid, arena_radius, dt, 1) == run_substeps_model(
        substep_model(s7, mid, arena_radius, dt),
        mid,
        arena_radius,
        dt,
        0,
    ));
}

impl Circle {
    /// Phase one of a sub-step: integrate every body by `dt_nanos`.
    pub fn update_positions(circles: &mut Vec<Circle>, dt_nanos: u64)
        requires
            dt_nanos <= DT_LIMIT_NANOS,
            forall|k: int|
                0 <= k < old(circles)@.len() ==> body_step_bounds(#[trigger] old(circles)@[k]@),
        ensures
            final(circles)@.len() == old(circles)@.len(),
            circles_model(final(circles)@) == integrate_all_model(
                circles_model(old(circles)@),
                dt_nanos as int,
            ),
            forall|k: int|
                0 <= k < final(circles)@.len() ==> post_integrate_bounds(
                    #[trigger] final(circles)@[k]@,
                ),
            forall|k: int|
                0 <= k < final(circles)@.len() ==> {
                    let after = #[trigger] final(circles)@[k]@;
                    let prior = old(circles)@[k]@;
                    after.radius == prior.radius && after.gravity == prior.gravity
                        && after.state.previous_position == prior.state.position
                },
    {
        let n = circles.len();
        let mut idx: usize = 0;
        while idx < n
            invariant
                n == circles@.len(),
                n == old(circles)@.len(),
                idx <= n,
                dt_nanos <= DT_LIMIT_NANOS,
                forall|k: int| idx <= k < n ==> #[trigger] circles@[k] == old(circles)@[k],
                forall|k: int|
                    0 <= k < idx ==> #[trigger] circles@[k]@ == circle_integrate_model(
                        old(circles)@[k]@,
                        dt_nanos as int,
                    ),
                forall|k: int|
                    0 <= k < n ==> body_step_bounds(#[trigger] old(circles)@[k]@),
                forall|k: int| 0 <= k < idx ==> post_integrate_bounds(#[trigger] circles@[k]@),
            decreases n - idx,
        {
            let mut c = circles[idx];
            c.integrate(dt_nanos);
            circles.set(idx, c);
            idx += 1;
        }
        proof {
            assert(circles_model(circles@) =~= integrate_all_model(
                circles_model(old(circles)@),
                dt_nanos as int,
            ));
        }
    }

    /// Phase two of a sub-step: clamp every body into the arena.
    pub fn apply_constraints(circles: &mut Vec<Circle>, middle: &Vector2, arena_radius: i64)
        requires
            0 <= arena_radius <= GEOM_LIMIT,
            -GEOM_LIMIT <= middle@.x <= GEOM_LIMIT,
            -GEOM_LIMIT <= middle@.y <= GEOM_LIMIT,
            forall|k: int|
                0 <= k < old(circles)@.len() ==> 0 <= (#[trigger] old(circles)@[k]@).radius
                    <= arena_radius as int,
            forall|k: int|
                0 <= k < old(circles)@.len() ==> position_within(
                    #[trigger] old(circles)@[k]@,
                    CONSTRAIN_IN_LIMIT as int,
                ),
        ensures
            final(circles)@.len() == old(circles)@.len(),
            circles_model(final(circles)@) == constrain_all_model(
                circles_model(old(circles)@),
                middle@,
                arena_radius as int,
            ),
            forall|k: int|
                0 <= k < final(circles)@.len() ==> position_within(
                    #[trigger] final(circles)@[k]@,
                    CONSTRAINED_LIMIT as int,
                ),
            forall|k: int|
                0 <= k < final(circles)@.len() ==> same_but_position(
                    #[trigger] final(circles)@[k]@,
                    old(circles)@[k]@,
                ),
            // Containment: every body ends up inside the arena, up to
            // less than one fixed-point unit.
            forall|k: int|
                0 <= k < final(circles)@.len() ==> sqrt_floor(
                    v2_norm_sq(
                        v2_sub((#[trigger] final(circles)@[k]@).state.position, middle@),
                    ),
                ) <= arena_radius - final(circles)@[k]@.radius,
    {
        let n = circles.len();
        let mut idx: usize = 0;
        while idx < n
            invariant
                n == circles@.len(),
                n == old(circles)@.len(),
                idx <= n,
                0 <= arena_radius <= GEOM_LIMIT,
                -GEOM_LIMIT <= middle@.x <= GEOM_LIMIT,
                -GEOM_LIMIT <= middle@.y <= GEOM_LIMIT,
                forall|k: int| idx <= k < n ==> #[trigger] circles@[k] == old(circles)@[k],
                forall|k: int|
                    0 <= k < idx ==> #[trigger] circles@[k]@ == constrain_model(
                        old(circles)@[k]@,
                        middle@,
                        arena_radius as int,
                    ),
                forall|k: int|
                    0 <= k < n ==> 0 <= (#[trigger] old(circles)@[k]@).radius
                        <= arena_radius as int,
                forall|k: int|
                    0 <= k < n ==> position_within(
                        #[trigger] old(circles)@[k]@,
                        CONSTRAIN_IN_LIMIT as int,
                    ),
                forall|k: int|
                    0 <= k < idx ==> position_within(
                        #[trigger] circles@[k]@,
                        CONSTRAINED_LIMIT as int,
                    ),
                forall|k: int|
                    0 <= k < idx ==> same_but_position(#[trigger] circles@[k]@, old(circles)@[k]@),
            decreases n - idx,
        {
            let c = circles[idx];
            proof {
                assert(circles@[idx as int] == old(circles)@[idx as int]);
                assert(position_within(old(circles)@[idx as int]@, CONSTRAIN_IN_LIMIT as int));
            }
            let off_x = c.state.position.x - middle.x;
            let off_y = c.state.position.y - middle.y;
            let off = Vector2 { x: off_x, y: off_y };
            let nsq: u128 = off.norm_sq();
            proof {
                assert(nsq as int <= 900_000_000_000_000_000_000_000_000_000_000int)
                    by (nonlinear_arith)
                    requires
                        nsq as int == (off_x as int) * (off_x as int) + (off_y as int) * (off_y
                            as int),
                        -21_000_000_000_000_000 <= off_x as int <= 21_000_000_000_000_000,
                        -21_000_000_000_000_000 <= off_y as int <= 21_000_000_000_000_000,
                ;
            }
            let d128 = isqrt_u128(nsq);
            proof {
                assert(d128 as int <= 30_000_000_000_000_000int) by (nonlinear_arith)
                    requires
                        (d128 as int) * (d128 as int) <= nsq as int,
                        nsq as int <= 900_000_000_000_000_000_000_000_000_000_000int,
                ;
            }
            let d = d128 as i64;
            let k = arena_radius - c.radius;
            if d > k {
                proof {
                    assert((off_x as int) * (off_x as int) <= nsq as int && (off_y as int) * (off_y
                        as int) <= nsq as int) by (nonlinear_arith)
                        requires
                            nsq as int == (off_x as int) * (off_x as int) + (off_y as int) * (off_y
                                as int),
                    ;
                    lemma_abs_le_sqrt(off_x as int, nsq as int, d as int);
                    lemma_abs_le_sqrt(off_y as int, nsq as int, d as int);
                }
                let tx = scale_frac(off_x, k, d);
                let ty = scale_frac(off_y, k, d);
                let mut c2 = c;
                c2.state.position = Vector2 { x: middle.x + tx, y: middle.y + ty };
                circles.set(idx, c2);
            } else {
                proof {
                    assert(-(k as int) <= off_x as int <= k as int && -(k as int) <= off_y as int
                        <= k as int) by (nonlinear_arith)
                        requires
                            nsq as int == (off_x as int) * (off_x as int) + (off_y as int) * (off_y
                                as int),
                            (nsq as int) < (d as int + 1) * (d as int + 1),
                            0 <= d as int <= k as int,
                    ;
                    assert(circles@[idx as int]@ == constrain_model(
                        old(circles)@[idx as int]@,
                        middle@,
                        arena_radius as int,
                    ));
                }
            }
            idx += 1;
        }
        proof {
            assert(circles_model(circles@) =~= constrain_all_model(
                circles_model(old(circles)@),
                middle@,
                arena_radius as int,
            ));
            assert forall|k: int| 0 <= k < n implies sqrt_floor(
                v2_norm_sq(v2_sub((#[trigger] circles@[k]@).state.position, middle@)),
            ) <= arena_radius - circles@[k]@.radius by {
                assert(circles@[k]@ == constrain_model(
                    old(circles)@[k]@,
                    middle@,
                    arena_radius as int,
                ));
                lemma_constraint_containment(old(circles)@[k]@, middle@, arena_radius as int);
            }
        }
    }

    /// Phase three of a sub-step: one pass of pairwise collision
    /// resolution over all unordered pairs, in sequence order,
    /// corrections applied as soon as each pair is visited.
    pub fn collisions(circles: &mut Vec<Circle>)
        requires
            old(circles)@.len() <= COUNT_LIMIT,
            forall|k: int|
                0 <= k < old(circles)@.len() ==> 0 <= (#[trigger] old(circles)@[k]@).radius
                    <= GEOM_LIMIT as int,
            forall|k: int|
                0 <= k < old(circles)@.len() ==> position_within(
                    #[trigger] old(circles)@[k]@,
                    COLLISION_ENTRY_LIMIT as int,
                ),
        ensures
            final(circles)@.len() == old(circles)@.len(),
            circles_model(final(circles)@) == collision_pass_model(circles_model(old(circles)@)),
            forall|k: int|
                0 <= k < final(circles)@.len() ==> position_within(
                    #[trigger] final(circles)@[k]@,
                    COLLISION_EXIT_LIMIT as int,
                ),
            forall|k: int|
                0 <= k < final(circles)@.len() ==> same_but_position(
                    #[trigger] final(circles)@[k]@,
                    old(circles)@[k]@,
                ),
    {
        let n = circles.len();
        let ghost m0 = circles_model(old(circles)@);
        let mut i: usize = 0;
        while i < n
            invariant
                n == circles@.len(),
                n == old(circles)@.len(),
                n <= COUNT_LIMIT,
                i <= n,
                collision_pass_model(m0) == outer_pass_model(circles_model(circles@), i as int),
                m0 == circles_model(old(circles)@),
                forall|k: int|
                    0 <= k < n ==> 0 <= (#[trigger] old(circles)@[k]@).radius <= GEOM_LIMIT as int,
                forall|k: int|
                    0 <= k < n ==> position_within(
                        #[trigger] old(circles)@[k]@,
                        COLLISION_ENTRY_LIMIT as int,
                    ),
                forall|k: int|
                    0 <= k < n ==> same_but_position(#[trigger] circles@[k]@, old(circles)@[k]@),
                forall|k: int|
                    0 <= k < n ==> position_within(
                        #[trigger] circles@[k]@,
                        COLLISION_ENTRY_LIMIT as int + collision_cap(k, i as int, i as int + 1, n as int)
                            * (GEOM_LIMIT as int),
                    ),
            decreases n - i,
        {
            let mut j: usize = i + 1;
            while j < n
                invariant
                    n == circles@.len(),
                    n == old(circles)@.len(),
                    n <= COUNT_LIMIT,
                    i < n,
                    i < j <= n,
                    collision_pass_model(m0) == outer_pass_model(
                        pairs_from_model(circles_model(circles@), i as int, j as int),
                        i as int + 1,
                    ),
                    m0 == circles_model(old(circles)@),
                    forall|k: int|
                        0 <= k < n ==> 0 <= (#[trigger] old(circles)@[k]@).radius
                            <= GEOM_LIMIT as int,
                    forall|k: int|
                        0 <= k < n ==> position_within(
                            #[trigger] old(circles)@[k]@,
                            COLLISION_ENTRY_LIMIT as int,
                        ),
                    forall|k: int|
                        0 <= k < n ==> same_but_position(
                            #[trigger] circles@[k]@,
                            old(circles)@[k]@,
                        ),
                    forall|k: int|
                        0 <= k < n ==> position_within(
                            #[trigger] circles@[k]@,
                            COLLISION_ENTRY_LIMIT as int + collision_cap(
                                k,
                                i as int,
                                j as int,
                                n as int,
                            ) * (GEOM_LIMIT as int),
                        ),
                decreases n - j,
            {
                let ghost before = circles_model(circles@);
                let ci = circles[i];
                let cj = circles[j];
                proof {
                    assert(position_within(
                        circles@[i as int]@,
                        COLLISION_ENTRY_LIMIT as int + collision_cap(
                            i as int,
                            i as int,
                            j as int,
                            n as int,
                        ) * (GEOM_LIMIT as int),
                    ));
                    assert(position_within(
                        circles@[j as int]@,
                        COLLISION_ENTRY_LIMIT as int + collision_cap(
                            j as int,
                            i as int,
                            j as int,
                            n as int,
                        ) * (GEOM_LIMIT as int),
                    ));
                    assert(same_but_position(circles@[i as int]@, old(circles)@[i as int]@));
                    assert(same_but_position(circles@[j as int]@, old(circles)@[j as int]@));
                }
                let r = ci.collide(&cj);
                match r {
                    Some(delta) => {
                        let h = delta.halved();
                        let mut c1 = ci;
                        c1.state.position = ci.state.position.add(&h);
                        let mut c2 = cj;
                        c2.state.position = cj.state.position.sub(&h);
                        circles.set(i, c1);
                        circles.set(j, c2);
                        proof {
                            assert(circles_model(circles@) =~= resolve_pair_model(
                                before,
                                i as int,
                                j as int,
                            ));
                            assert forall|k: int| 0 <= k < n implies position_within(
                                #[trigger] circles@[k]@,
                                COLLISION_ENTRY_LIMIT as int + collision_cap(
                                    k,
                                    i as int,
                                    j as int + 1,
                                    n as int,
                                ) * (GEOM_LIMIT as int),
                            ) by {
                                if k != i && k != j {
                                    assert(circles@[k]@ == before[k]);
                                }
                            }
                        }
                    },
                    None => {
                        proof {
                            assert(circles_model(circles@) =~= resolve_pair_model(
                                before,
                                i as int,
                                j as int,
                            ));
                            assert forall|k: int| 0 <= k < n implies position_within(
                                #[trigger] circles@[k]@,
                                COLLISION_ENTRY_LIMIT as int + collision_cap(
                                    k,
                                    i as int,
                                    j as int + 1,
                                    n as int,
                                ) * (GEOM_LIMIT as int),
                            ) by {
                                assert(position_within(
                                    circles@[k]@,
                                    COLLISION_ENTRY_LIMIT as int + collision_cap(
                                        k,
                                        i as int,
                                        j as int,
                                        n as int,
                                    ) * (GEOM_LIMIT as int),
                                ));
                            }
                        }
                    },
                }
                proof {
                    assert(pairs_from_model(before, i as int, j as int) == pairs_from_model(
                        circles_model(circles@),
                        i as int,
                        j as int + 1,
                    ));
                }
                j += 1;
            }
            proof {
                assert(pairs_from_model(circles_model(circles@), i as int, n as int)
                    == circles_model(circles@));
            }
            i += 1;
        }
        proof {
            assert(outer_pass_model(circles_model(circles@), n as int) == circles_model(
                circles@,
            ));
        }
    }

    /// Advance the whole system by `dt_nanos` nanoseconds: split the
    /// time into `SUB_STEPS` equal pieces and, for each piece, run the
    /// three phases in their fixed order.
    pub fn update_all(circles: &mut Vec<Circle>, middle: &Vector2, arena_radius: i64, dt_nanos: u64)
        requires
            old(circles)@.len() <= COUNT_LIMIT,
            0 <= arena_radius <= GEOM_LIMIT,
            -GEOM_LIMIT <= middle@.x <= GEOM_LIMIT,
            -GEOM_LIMIT <= middle@.y <= GEOM_LIMIT,
            dt_nanos <= DT_LIMIT_NANOS,
            forall|k: int|
                0 <= k < old(circles)@.len() ==> 0 <= (#[trigger] old(circles)@[k]@).radius
                    <= arena_radius as int,
            forall|k: int|
                0 <= k < old(circles)@.len() ==> body_step_bounds(#[trigger] old(circles)@[k]@),
        ensures
            final(circles)@.len() == old(circles)@.len(),
            circles_model(final(circles)@) == run_substeps_model(
                circles_model(old(circles)@),
                middle@,
                arena_radius as int,
                (dt_nanos / SUB_STEPS) as int,
                SUB_STEPS as nat,
            ),
            forall|k: int|
                0 <= k < final(circles)@.len() ==> 0 <= (#[trigger] final(circles)@[k]@).radius
                    <= arena_radius as int,
            forall|k: int|
                0 <= k < final(circles)@.len() ==> body_step_bounds(#[trigger] final(circles)@[k]@),
            forall|k: int|
                0 <= k < final(circles)@.len() ==> {
                    let after = #[trigger] final(circles)@[k]@;
                    let prior = old(circles)@[k]@;
                    after.radius == prior.radius && after.gravity == prior.gravity
                },
    {
        let n = circles.len();
        let dt_sub = dt_nanos / SUB_STEPS;
        let ghost m0 = circles_model(old(circles)@);
        let mut s: u64 = 0;
        while s < SUB_STEPS
            invariant
                n == circles@.len(),
                n == old(circles)@.len(),
                n <= COUNT_LIMIT,
                s <= SUB_STEPS,
                0 <= arena_radius <= GEOM_LIMIT,
                -GEOM_LIMIT <= middle@.x <= GEOM_LIMIT,
                -GEOM_LIMIT <= middle@.y <= GEOM_LIMIT,
                dt_sub == dt_nanos / SUB_STEPS,
                dt_sub <= DT_LIMIT_NANOS,
                m0 == circles_model(old(circles)@),
                run_substeps_model(
                    m0,
                    middle@,
                    arena_radius as int,
                    dt_sub as int,
                    SUB_STEPS as nat,
                ) == run_substeps_model(
                    circles_model(circles@),
                    middle@,
                    arena_radius as int,
                    dt_sub as int,
                    (SUB_STEPS - s) as nat,
                ),
                forall|k: int|
                    0 <= k < n ==> 0 <= (#[trigger] circles@[k]@).radius <= arena_radius as int,
                forall|k: int| 0 <= k < n ==> body_step_bounds(#[trigger] circles@[k]@),
                forall|k: int|
                    0 <= k < n ==> (#[trigger] circles@[k]@).radius == old(circles)@[k]@.radius
                        && circles@[k]@.gravity == old(circles)@[k]@.gravity,
            decreases SUB_STEPS - s,
        {
            let ghost entry = circles_model(circles@);
            Self::update_positions(circles, dt_sub);
            Self::apply_constraints(circles, middle, arena_radius);
            Self::collisions(circles);
            proof {
                assert(circles_model(circles@) == substep_model(
                    entry,
                    middle@,
                    arena_radius as int,
                    dt_sub as int,
                ));
                assert(run_substeps_model(
                    entry,
                    middle@,
                    arena_radius as int,
                    dt_sub as int,
                    (SUB_STEPS - s) as nat,
                ) == run_substeps_model(
                    circles_model(circles@),
                    middle@,
                    arena_radius as int,
                    dt_sub as int,
                    (SUB_STEPS - s - 1) as nat,
                ));
            }
            s += 1;
        }
        proof {
            assert(run_substeps_model(
                circles_model(circles@),
                middle@,
                arena_radius as int,
                dt_sub as int,
                0,
            ) == circles_model(circles@));
        }
    }
}

} // verus!
