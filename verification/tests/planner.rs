use walk_scaling::planner::walk_count;
use walk_scaling::planner::Sampling;
use walk_scaling::planner::MIN_WALKS;

#[test]
fn walk_count_floor() {
    assert_eq!(MIN_WALKS, 500);
    assert_eq!(walk_count(0), 500);
    assert_eq!(walk_count(90), 500);
    assert_eq!(walk_count(499), 500);
    assert_eq!(walk_count(500), 500);
    assert_eq!(walk_count(501), 501);
    assert_eq!(walk_count(2000), 2000);
    assert_eq!(walk_count(-7), 500);
    assert_eq!(walk_count(i64::MIN), 500);
    assert_eq!(walk_count(i64::MAX), i64::MAX);
}

#[test]
fn walk_count_never_below_the_floor_and_never_decreasing() {
    let mut last = walk_count(-10);
    for demand in -10..2000 {
        let walks = walk_count(demand);
        assert!(walks >= 500);
        assert!(walks >= demand);
        assert!(walks >= last);
        last = walks;
    }
}

fn demand(total_steps: i32, coefficient: f64) -> i64 {
    ((total_steps as f64).sqrt() * coefficient).ceil() as i64
}

#[test]
fn walk_count_for_twenty_walks_per_root_step() {
    assert_eq!(walk_count(demand(20, 20.0)), 500);
    assert_eq!(walk_count(demand(400, 20.0)), 500);
    assert_eq!(walk_count(demand(625, 20.0)), 500);
    assert_eq!(walk_count(demand(626, 20.0)), 501);
    assert_eq!(walk_count(demand(10000, 20.0)), 2000);
    assert_eq!(walk_count(demand(1000000, 1.5)), 1500);
}

#[test]
fn walk_count_is_the_larger_of_floor_and_rounded_up_demand() {
    let coefficients =
        [20.0, 0.0, -3.0, 1e-9, 0.5, 499.999, 500.0, 1e15, 1e300, f64::INFINITY, f64::NAN];
    for coefficient in coefficients {
        for total_steps in [1, 2, 3, 4, 20, 625, 626, 10000, 999983, i32::MAX] {
            let exact = ((total_steps as f64).sqrt() * coefficient).ceil().max(500.0) as i64;
            assert_eq!(walk_count(demand(total_steps, coefficient)), exact);
        }
    }
}

#[test]
fn walk_count_never_decreases_with_the_step_budget() {
    for coefficient in [0.1, 1.0, 20.0, 37.5, 1000.0] {
        let mut last = 0;
        for total_steps in 1..20000 {
            let walks = walk_count(demand(total_steps, coefficient));
            assert!(walks >= 500);
            assert!(walks >= last);
            last = walks;
        }
    }
}

#[test]
fn total_steps_direct() {
    assert_eq!(Sampling::Direct.total_steps(20), Some(20));
    assert_eq!(Sampling::Direct.total_steps(1), Some(1));
    assert_eq!(Sampling::Direct.total_steps(i32::MAX), Some(i32::MAX));
    assert_eq!(Sampling::Direct.total_steps(0), None);
    assert_eq!(Sampling::Direct.total_steps(-5), None);
}

#[test]
fn total_steps_bucketed() {
    let sampling = Sampling::Bucketed { steps_per_sample: 3 };
    assert_eq!(sampling.total_steps(20), Some(60));
    assert_eq!(sampling.total_steps(1), Some(3));
    assert_eq!(sampling.total_steps(0), None);
    assert_eq!(sampling.total_steps(-1), None);
    assert_eq!(Sampling::Bucketed { steps_per_sample: 1 }.total_steps(i32::MAX), Some(i32::MAX));
    assert_eq!(Sampling::Bucketed { steps_per_sample: 0 }.total_steps(20), None);
    assert_eq!(Sampling::Bucketed { steps_per_sample: -3 }.total_steps(20), None);
}

#[test]
fn total_steps_beyond_the_largest_value() {
    assert_eq!(Sampling::Bucketed { steps_per_sample: 2 }.total_steps(1 << 30), None);
    assert_eq!(
        Sampling::Bucketed { steps_per_sample: 2 }.total_steps((1 << 30) - 1),
        Some(i32::MAX - 1)
    );
    assert_eq!(Sampling::Bucketed { steps_per_sample: i32::MAX }.total_steps(i32::MAX), None);
    assert_eq!(Sampling::Bucketed { steps_per_sample: 65536 }.total_steps(32768), None);
    assert_eq!(
        Sampling::Bucketed { steps_per_sample: 65536 }.total_steps(32767),
        Some(32767 * 65536)
    );
}
