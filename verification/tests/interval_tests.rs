use ray_tracer::fixed::{FX_MAX, FX_ONE};
use ray_tracer::interval::Interval;

#[test]
fn test_const_intervals() {
    let empty = Interval::empty();
    let universe = Interval::universe();

    assert_eq!(empty.contains(FX_ONE), false);
    assert_eq!(empty.contains(FX_MAX), false);
    assert_eq!(empty.surrounds(FX_MAX), false);

    assert_eq!(universe.contains(FX_ONE), true);
    assert_eq!(universe.surrounds(FX_ONE), true);
}

#[test]
fn test_intervals() {
    let interval = Interval::new(10 * FX_ONE, 20 * FX_ONE);
    assert_eq!(interval.contains(FX_ONE), false);

    assert_eq!(interval.contains(11 * FX_ONE), true);
    assert_eq!(interval.surrounds(11 * FX_ONE), true);

    assert_eq!(interval.contains(9 * FX_ONE), false);
    assert_eq!(interval.surrounds(9 * FX_ONE), false);

    assert_eq!(interval.contains(10 * FX_ONE), true);
    assert_eq!(interval.surrounds(10 * FX_ONE), false);

    assert_eq!(interval.contains(21 * FX_ONE), false);
    assert_eq!(interval.surrounds(21 * FX_ONE), false);

    assert_eq!(interval.contains(20 * FX_ONE), true);
    assert_eq!(interval.surrounds(20 * FX_ONE), false);
}

#[test]
fn test_clamp() {
    let interval = Interval::new(10 * FX_ONE, 20 * FX_ONE);
    assert_eq!(interval.clamp(FX_ONE), 10 * FX_ONE);
    assert_eq!(interval.clamp(21 * FX_ONE), 20 * FX_ONE);
}

#[test]
fn test_size() {
    let interval = Interval::new(10 * FX_ONE, 20 * FX_ONE);
    assert_eq!(interval.size(), 10 * FX_ONE);
}
