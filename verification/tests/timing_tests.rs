use ranitask::timing::PrecisionTimer;

#[test]
fn ticks_to_micros_rounds_toward_zero() {
    let t = PrecisionTimer::new(10_000_000);
    assert_eq!(t.ticks_to_micros(10_000_000), 1_000_000);
    assert_eq!(t.ticks_to_micros(15), 1);
    assert_eq!(t.ticks_to_micros(-15), -1);
    assert_eq!(t.ticks_to_micros(0), 0);
    let t = PrecisionTimer::new(3);
    assert_eq!(t.ticks_to_micros(1), 333_333);
}

#[test]
fn wait_plans() {
    let t = PrecisionTimer::new(1_000_000);
    assert_eq!(t.wait_plan(0), None);
    assert_eq!(t.wait_plan(-10), None);
    assert_eq!(t.wait_plan(1_500), Some((1_500, 0)));
    assert_eq!(t.wait_plan(2_000), Some((2_000, 0)));
    assert_eq!(t.wait_plan(10_000), Some((10_000, 8)));
    let t = PrecisionTimer::new(10_000_000);
    assert_eq!(t.wait_plan(2_600), Some((26_000, 1)));
}

#[test]
fn spin_ends_at_the_target() {
    let t = PrecisionTimer::new(1_000);
    assert!(!t.wait_is_over(9, 10));
    assert!(t.wait_is_over(10, 10));
    assert!(t.wait_is_over(11, 10));
}
