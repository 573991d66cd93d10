use retro_rl::utils::{RollingAverage, AVERAGE_WINDOW_SIZE};

#[test]
fn empty_window_has_no_average() {
    let rewards = RollingAverage::new();
    assert_eq!(rewards.average(), None);
    assert_eq!(rewards.len(), 0);
    assert_eq!(rewards.total(), 0);
}

#[test]
fn average_of_a_partial_window() {
    let mut rewards = RollingAverage::new();
    for value in [1, 2, 3] {
        rewards.push(value);
    }
    assert_eq!(rewards.len(), 3);
    assert_eq!(rewards.total(), 6);
    assert_eq!(rewards.average(), Some(2));
}

#[test]
fn average_is_rounded_towards_zero() {
    let mut rewards = RollingAverage::new();
    rewards.push(3);
    rewards.push(4);
    assert_eq!(rewards.average(), Some(3));
    let mut losses = RollingAverage::new();
    losses.push(-3);
    losses.push(-4);
    assert_eq!(losses.average(), Some(-3));
}

#[test]
fn full_window_drops_the_oldest_value() {
    let mut rewards = RollingAverage::new();
    rewards.push(1000);
    for _ in 1..AVERAGE_WINDOW_SIZE {
        rewards.push(0);
    }
    assert_eq!(rewards.len(), AVERAGE_WINDOW_SIZE);
    assert_eq!(rewards.average(), Some(10));
    rewards.push(200);
    assert_eq!(rewards.len(), AVERAGE_WINDOW_SIZE);
    assert_eq!(rewards.total(), 200);
    assert_eq!(rewards.average(), Some(2));
}

#[test]
fn window_keeps_rolling_after_several_rounds() {
    let mut rewards = RollingAverage::new();
    for value in 0..250i64 {
        rewards.push(value);
    }
    // The window holds 150..=249.
    assert_eq!(rewards.total(), (150..250).sum::<i64>() as i128);
    assert_eq!(rewards.average(), Some(199));
}

#[test]
fn extreme_values_do_not_overflow() {
    let mut rewards = RollingAverage::new();
    for _ in 0..AVERAGE_WINDOW_SIZE {
        rewards.push(i64::MAX);
    }
    assert_eq!(rewards.average(), Some(i64::MAX));
    for _ in 0..AVERAGE_WINDOW_SIZE {
        rewards.push(i64::MIN);
    }
    assert_eq!(rewards.average(), Some(i64::MIN));
}
