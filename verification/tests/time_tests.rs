use transit_sim::time::Time;

#[test]
fn sub_second_accumulation() {
    let mut time = Time::new(4, 30, 0);
    assert!(!time.increase(400));
    assert_eq!((time.hour, time.minute, time.second), (4, 30, 0));
    assert_eq!(time.accumulator_ms, 400);
    assert!(!time.increase(700));
    assert_eq!((time.hour, time.minute, time.second), (4, 30, 1));
    assert_eq!(time.accumulator_ms, 100);
}

#[test]
fn carries_into_minutes_and_hours() {
    let mut time = Time::new(7, 59, 58);
    assert!(!time.increase(3_000));
    assert_eq!((time.hour, time.minute, time.second), (8, 0, 1));
}

#[test]
fn day_rollover_reported_once() {
    let mut time = Time::new(23, 59, 59);
    let day_over = time.increase(1_000);
    assert!(day_over);
    assert_eq!((time.hour, time.minute, time.second), (0, 0, 0));
    assert!(!time.increase(1_000));
    assert_eq!((time.hour, time.minute, time.second), (0, 0, 1));
}

#[test]
fn large_step_crosses_midnight() {
    let mut time = Time::new(23, 0, 0);
    // Two hours in one step: wraps past midnight to 01:00:00.
    let day_over = time.increase(2 * 3_600_000);
    assert!(day_over);
    assert_eq!((time.hour, time.minute, time.second), (1, 0, 0));
}
