use verlet_circles::particle::ParticleState;
use verlet_circles::vector::Vector2;

#[test]
fn vector_new_and_components() {
    let v = Vector2::new(3, -7);
    assert_eq!(v.x, 3);
    assert_eq!(v.y, -7);
}

#[test]
fn vector_add_sub() {
    let a = Vector2::new(3, -7);
    let b = Vector2::new(10, 20);
    let s = a.add(&b);
    assert_eq!((s.x, s.y), (13, 13));
    let d = a.sub(&b);
    assert_eq!((d.x, d.y), (-7, -27));
}

#[test]
fn vector_scale_and_div() {
    let a = Vector2::new(3, -8);
    let m = a.scale(5);
    assert_eq!((m.x, m.y), (15, -40));
    let q = a.div_scalar(2);
    // Division rounds toward zero on both signs.
    assert_eq!((q.x, q.y), (1, -4));
    let h = Vector2::new(-7, 7).halved();
    assert_eq!((h.x, h.y), (-3, 3));
}

#[test]
fn vector_norm_exact_and_rounded() {
    assert_eq!(Vector2::new(3, 4).norm(), 5);
    assert_eq!(Vector2::new(-3, -4).norm(), 5);
    // sqrt(34) rounds down to 5.
    assert_eq!(Vector2::new(3, 5).norm(), 5);
    assert_eq!(Vector2::new(0, 0).norm(), 0);
    assert_eq!(Vector2::new(0, 0).norm_sq(), 0);
    assert_eq!(Vector2::new(5, -12).norm_sq(), 169);
}

#[test]
fn integrate_advances_by_velocity_and_acceleration() {
    // Velocity (100, 0); acceleration (0, 10^9) over one second adds
    // exactly 10^9 to y.
    let mut s = ParticleState {
        position: Vector2::new(1000, 2000),
        previous_position: Vector2::new(900, 2000),
        acceleration: Vector2::new(0, 1_000_000_000),
    };
    s.integrate(1_000_000_000);
    assert_eq!((s.position.x, s.position.y), (1100, 1_000_002_000));
    assert_eq!((s.previous_position.x, s.previous_position.y), (1000, 2000));
    // The acceleration was consumed.
    assert_eq!((s.acceleration.x, s.acceleration.y), (0, 0));
}

#[test]
fn integrate_is_deterministic() {
    let make = || ParticleState {
        position: Vector2::new(123_456, -654_321),
        previous_position: Vector2::new(123_000, -654_000),
        acceleration: Vector2::new(7, -9),
    };
    let mut a = make();
    let mut b = make();
    a.integrate(2_083_333);
    b.integrate(2_083_333);
    assert_eq!((a.position.x, a.position.y), (b.position.x, b.position.y));
    assert_eq!(
        (a.previous_position.x, a.previous_position.y),
        (b.previous_position.x, b.previous_position.y)
    );
}

#[test]
fn integrate_stationary_does_not_move() {
    let p = Vector2::new(42, -17);
    let mut s = ParticleState {
        position: p,
        previous_position: p,
        acceleration: Vector2::new(0, 0),
    };
    s.integrate(2_083_333);
    assert_eq!((s.position.x, s.position.y), (42, -17));
}

#[test]
fn integrate_zero_dt_keeps_velocity_only() {
    let mut s = ParticleState {
        position: Vector2::new(10, 0),
        previous_position: Vector2::new(7, 0),
        acceleration: Vector2::new(1_000_000_000, 1_000_000_000),
    };
    s.integrate(0);
    // dt = 0: the acceleration contributes nothing, velocity carries.
    assert_eq!((s.position.x, s.position.y), (13, 0));
}

#[test]
fn accelerate_accumulates() {
    let mut s = ParticleState {
        position: Vector2::new(0, 0),
        previous_position: Vector2::new(0, 0),
        acceleration: Vector2::new(1, 2),
    };
    s.accelerate(Vector2::new(10, -20));
    assert_eq!((s.acceleration.x, s.acceleration.y), (11, -18));
    assert_eq!((s.position.x, s.position.y), (0, 0));
}
