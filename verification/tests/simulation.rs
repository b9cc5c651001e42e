// Scenarios over the full step driver, the boundary constraint and the
// collision pass. Coordinates are in micro-units: 1_000_000 fixed-point
// units stand for one world unit.

use verlet_circles::circle::Circle;
use verlet_circles::vector::Vector2;

const UNIT: i64 = 1_000_000;

fn center_distance(a: &Circle, b: &Circle) -> i64 {
    a.position().sub(&b.position()).norm()
}

#[test]
fn collide_reports_penetration_vector() {
    // Radii 5, centers 8 apart: overlap 2, pointing from b toward a.
    let a = Circle::new(5 * UNIT, Vector2::new(0, 0), Vector2::new(0, 0));
    let b = Circle::new(5 * UNIT, Vector2::new(0, 8 * UNIT), Vector2::new(0, 0));
    let delta = a.collide(&b).unwrap();
    assert_eq!((delta.x, delta.y), (0, -2 * UNIT));
}

#[test]
fn collide_scales_along_the_center_line() {
    // Centers 5 apart along a 3-4-5 triangle, radii 3: overlap 1.
    let a = Circle::new(3 * UNIT, Vector2::new(0, 0), Vector2::new(0, 0));
    let b = Circle::new(3 * UNIT, Vector2::new(3 * UNIT, 4 * UNIT), Vector2::new(0, 0));
    let delta = a.collide(&b).unwrap();
    assert_eq!((delta.x, delta.y), (-600_000, -800_000));
}

#[test]
fn collide_reports_nothing_without_overlap() {
    let a = Circle::new(5 * UNIT, Vector2::new(0, 0), Vector2::new(0, 0));
    let apart = Circle::new(5 * UNIT, Vector2::new(0, 20 * UNIT), Vector2::new(0, 0));
    assert!(a.collide(&apart).is_none());
    // Touching exactly: overlap is zero, no penetration.
    let touching = Circle::new(5 * UNIT, Vector2::new(0, 10 * UNIT), Vector2::new(0, 0));
    assert!(a.collide(&touching).is_none());
    // Coincident centers: no direction to separate along.
    let coincident = Circle::new(5 * UNIT, Vector2::new(0, 0), Vector2::new(0, 0));
    assert!(a.collide(&coincident).is_none());
}

#[test]
fn collision_pass_splits_overlap_evenly() {
    // Radii 5 at (0,0) and (0,8): overlap 2, so each body moves 1 and
    // the pair ends up separated by exactly the radius sum, 10.
    let mut v = vec![
        Circle::new(5 * UNIT, Vector2::new(0, 0), Vector2::new(0, 0)),
        Circle::new(5 * UNIT, Vector2::new(0, 8 * UNIT), Vector2::new(0, 0)),
    ];
    Circle::collisions(&mut v);
    assert_eq!((v[0].position().x, v[0].position().y), (0, -UNIT));
    assert_eq!((v[1].position().x, v[1].position().y), (0, 9 * UNIT));
    assert_eq!(center_distance(&v[0], &v[1]), 10 * UNIT);
}

#[test]
fn collision_pass_rounds_odd_overlap_toward_zero() {
    // Radii 5 at (0,0) and (0,7): overlap 3, halved toward zero.
    let mut v = vec![
        Circle::new(5 * UNIT, Vector2::new(0, 0), Vector2::new(0, 0)),
        Circle::new(5 * UNIT, Vector2::new(0, 7 * UNIT), Vector2::new(0, 0)),
    ];
    Circle::collisions(&mut v);
    assert_eq!((v[0].position().x, v[0].position().y), (0, -1_500_000));
    assert_eq!((v[1].position().x, v[1].position().y), (0, 8_500_000));
}

#[test]
fn collision_displacements_cancel() {
    let a = Circle::new(5 * UNIT, Vector2::new(UNIT, 2 * UNIT), Vector2::new(0, 0));
    let b = Circle::new(5 * UNIT, Vector2::new(UNIT, 9 * UNIT), Vector2::new(0, 0));
    let delta = a.collide(&b).unwrap();
    let half = delta.halved();
    let mut v = vec![a, b];
    Circle::collisions(&mut v);
    // a moved by +delta/2, b by -delta/2: the pair's center of mass
    // displacement is zero.
    let moved_a = v[0].position().sub(&a.position());
    let moved_b = v[1].position().sub(&b.position());
    assert_eq!((moved_a.x, moved_a.y), (half.x, half.y));
    assert_eq!((moved_b.x, moved_b.y), (-half.x, -half.y));
    assert_eq!((moved_a.x + moved_b.x, moved_a.y + moved_b.y), (0, 0));
}

#[test]
fn collision_pass_ignores_single_and_empty() {
    let mut none: Vec<Circle> = vec![];
    Circle::collisions(&mut none);
    assert!(none.is_empty());
    let mut one = vec![Circle::new(5 * UNIT, Vector2::new(3, 4), Vector2::new(0, 0))];
    Circle::collisions(&mut one);
    assert_eq!((one[0].position().x, one[0].position().y), (3, 4));
}

#[test]
fn constraint_clamps_to_the_arena() {
    // Arena radius 100, body radius 5 at distance 500 (a 3-4-5 line):
    // it is pulled back onto the circle of radius 95.
    let mid = Vector2::new(0, 0);
    let mut v = vec![Circle::new(
        5 * UNIT,
        Vector2::new(300 * UNIT, 400 * UNIT),
        Vector2::new(0, 0),
    )];
    Circle::apply_constraints(&mut v, &mid, 100 * UNIT);
    assert_eq!((v[0].position().x, v[0].position().y), (57 * UNIT, 76 * UNIT));
    assert_eq!(v[0].position().norm(), 95 * UNIT);
}

#[test]
fn constraint_leaves_contained_bodies_alone() {
    let mid = Vector2::new(10 * UNIT, 10 * UNIT);
    let inside = Vector2::new(12 * UNIT, 9 * UNIT);
    let mut v = vec![Circle::new(5 * UNIT, inside, Vector2::new(0, 0))];
    Circle::apply_constraints(&mut v, &mid, 100 * UNIT);
    assert_eq!((v[0].position().x, v[0].position().y), (inside.x, inside.y));
    // A body exactly at the center has no offset direction: untouched.
    let mut w = vec![Circle::new(99 * UNIT, mid, Vector2::new(0, 0))];
    Circle::apply_constraints(&mut w, &mid, 100 * UNIT);
    assert_eq!((w[0].position().x, w[0].position().y), (mid.x, mid.y));
}

#[test]
fn constraint_containment_for_many_bodies() {
    let mid = Vector2::new(2 * UNIT, -3 * UNIT);
    let arena = 100 * UNIT;
    let mut v = vec![
        Circle::new(5 * UNIT, Vector2::new(1000 * UNIT, 0), Vector2::new(0, 0)),
        Circle::new(20 * UNIT, Vector2::new(-400 * UNIT, 900 * UNIT), Vector2::new(0, 0)),
        Circle::new(0, Vector2::new(0, -100_000 * UNIT), Vector2::new(0, 0)),
        Circle::new(50 * UNIT, Vector2::new(2 * UNIT, -2 * UNIT), Vector2::new(0, 0)),
    ];
    Circle::apply_constraints(&mut v, &mid, arena);
    for c in v.iter() {
        let dist = c.position().sub(&mid).norm();
        assert!(dist <= arena - c.radius());
    }
}

#[test]
fn step_scenario_falls_and_stays_contained() {
    // Arena centered at the origin with radius 100; one body of radius
    // 5 at (0, 90), at rest, accelerated downward by (0, 30). One frame
    // of 1/60 s in 8 sub-steps must keep it within distance 95 of the
    // center, and it must have fallen.
    let mid = Vector2::new(0, 0);
    let gravity = Vector2::new(0, 30 * UNIT);
    let mut v = vec![Circle::new(5 * UNIT, Vector2::new(0, 90 * UNIT), gravity)];
    Circle::update_all(&mut v, &mid, 100 * UNIT, 16_666_666);
    let p = v[0].position();
    assert_eq!(p.x, 0);
    assert!(p.y > 90 * UNIT);
    assert!(p.sub(&mid).norm() <= 95 * UNIT);
}

#[test]
fn step_keeps_every_body_inside_over_time() {
    let mid = Vector2::new(0, 0);
    let arena = 100 * UNIT;
    let gravity = Vector2::new(0, 30 * UNIT);
    let mut v = vec![
        Circle::new(5 * UNIT, Vector2::new(0, 90 * UNIT), gravity),
        Circle::new(5 * UNIT, Vector2::new(-60 * UNIT, 40 * UNIT), gravity),
        Circle::new(10 * UNIT, Vector2::new(60 * UNIT, -40 * UNIT), gravity),
    ];
    for _ in 0..120 {
        Circle::update_all(&mut v, &mid, arena, 16_666_666);
        for c in v.iter() {
            let dist = c.position().sub(&mid).norm();
            // Containment up to one fixed-point unit of rounding.
            assert!(dist <= arena - c.radius() + 1);
        }
    }
}

#[test]
fn substep_equivalence() {
    // One driver call equals eight manual phase cycles at dt/8.
    let mid = Vector2::new(0, 0);
    let arena = 100 * UNIT;
    let gravity = Vector2::new(0, 30 * UNIT);
    let bodies = vec![
        Circle::new(5 * UNIT, Vector2::new(0, 80 * UNIT), gravity),
        Circle::new(5 * UNIT, Vector2::new(0, 73 * UNIT), gravity),
        Circle::new(8 * UNIT, Vector2::new(-30 * UNIT, 0), gravity),
    ];
    let dt: u64 = 16_666_666;
    let mut driver = bodies.clone();
    Circle::update_all(&mut driver, &mid, arena, dt);
    let mut manual = bodies.clone();
    for _ in 0..8 {
        Circle::update_positions(&mut manual, dt / 8);
        Circle::apply_constraints(&mut manual, &mid, arena);
        Circle::collisions(&mut manual);
    }
    assert_eq!(driver, manual);
}

#[test]
fn overlapping_pair_separates_monotonically() {
    // Two stationary overlapping bodies, no gravity: under repeated
    // steps the center distance never decreases until they no longer
    // overlap.
    let mid = Vector2::new(0, 0);
    let arena = 1000 * UNIT;
    let no_force = Vector2::new(0, 0);
    let mut v = vec![
        Circle::new(5 * UNIT, Vector2::new(0, 0), no_force),
        Circle::new(5 * UNIT, Vector2::new(0, 4 * UNIT), no_force),
    ];
    let mut last = center_distance(&v[0], &v[1]);
    for _ in 0..10 {
        Circle::update_all(&mut v, &mid, arena, 16_666_666);
        let dist = center_distance(&v[0], &v[1]);
        if last < 10 * UNIT {
            assert!(dist >= last);
        }
        last = dist;
    }
    assert!(last >= 10 * UNIT - 2);
}

#[test]
fn step_with_zero_dt_and_no_forces_is_still() {
    let mid = Vector2::new(0, 0);
    let mut v = vec![Circle::new(5 * UNIT, Vector2::new(10 * UNIT, 20 * UNIT), Vector2::new(0, 0))];
    Circle::update_all(&mut v, &mid, 100 * UNIT, 0);
    assert_eq!((v[0].position().x, v[0].position().y), (10 * UNIT, 20 * UNIT));
}

#[test]
fn step_on_empty_collection_is_a_no_op() {
    let mid = Vector2::new(0, 0);
    let mut v: Vec<Circle> = vec![];
    Circle::update_all(&mut v, &mid, 100 * UNIT, 16_666_666);
    assert!(v.is_empty());
}

#[test]
fn new_body_starts_at_rest_with_gravity_pending() {
    let p = Vector2::new(7 * UNIT, -3 * UNIT);
    let g = Vector2::new(0, 30 * UNIT);
    let c = Circle::new(5 * UNIT, p, g);
    assert_eq!(c.radius(), 5 * UNIT);
    assert_eq!((c.position().x, c.position().y), (p.x, p.y));
    assert_eq!(
        (c.state.previous_position.x, c.state.previous_position.y),
        (p.x, p.y)
    );
    assert_eq!((c.state.acceleration.x, c.state.acceleration.y), (g.x, g.y));
}
