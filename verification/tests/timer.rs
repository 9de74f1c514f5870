use bevy::time::{Timer, TimerMode};
use electroplating::timer::PlateSelectedAnimationTimer;
use std::time::Duration;

#[test]
fn fresh_timer_holds_nothing() {
    let timer = PlateSelectedAnimationTimer::new(250_000_000);
    assert_eq!(timer.period_nanos(), 250_000_000);
    assert_eq!(timer.elapsed_nanos(), 0);
}

#[test]
fn tick_below_the_period_accumulates() {
    let mut timer = PlateSelectedAnimationTimer::new(250_000_000);
    assert!(!timer.tick(100_000_000));
    assert_eq!(timer.elapsed_nanos(), 100_000_000);
    assert!(!timer.tick(149_999_999));
    assert_eq!(timer.elapsed_nanos(), 249_999_999);
    assert_eq!(timer.period_nanos(), 250_000_000);
}

#[test]
fn tick_that_reaches_the_period_fires_and_keeps_the_rest() {
    let mut timer = PlateSelectedAnimationTimer::new(250_000_000);
    assert!(!timer.tick(200_000_000));
    assert!(timer.tick(60_000_000));
    assert_eq!(timer.elapsed_nanos(), 10_000_000);
    assert!(!timer.tick(10_000_000));
    assert_eq!(timer.elapsed_nanos(), 20_000_000);
}

#[test]
fn tick_of_exactly_one_period_fires_and_leaves_nothing() {
    let mut timer = PlateSelectedAnimationTimer::new(250_000_000);
    assert!(timer.tick(250_000_000));
    assert_eq!(timer.elapsed_nanos(), 0);
}

#[test]
fn tick_over_several_periods_fires_once() {
    let mut timer = PlateSelectedAnimationTimer::new(250_000_000);
    assert!(timer.tick(1_000_000_001));
    assert_eq!(timer.elapsed_nanos(), 1);
}

#[test]
fn tick_of_nothing_changes_nothing() {
    let mut timer = PlateSelectedAnimationTimer::new(250_000_000);
    assert!(!timer.tick(0));
    assert_eq!(timer.elapsed_nanos(), 0);
    assert!(!timer.tick(7));
    assert!(!timer.tick(0));
    assert_eq!(timer.elapsed_nanos(), 7);
}

#[test]
fn timer_fires_once_per_period_of_frames() {
    let mut timer = PlateSelectedAnimationTimer::new(250_000_000);
    let mut fired: u32 = 0;
    let mut frame: u32 = 0;
    while frame < 100 {
        if timer.tick(16_000_000) {
            fired += 1;
        }
        frame += 1;
    }
    assert_eq!(fired, 6);
    assert_eq!(timer.elapsed_nanos(), 100_000_000);
}

#[test]
fn zero_period_fires_on_every_tick() {
    let mut timer = PlateSelectedAnimationTimer::new(0);
    assert!(timer.tick(0));
    assert_eq!(timer.elapsed_nanos(), 0);
    assert!(timer.tick(5));
    assert_eq!(timer.elapsed_nanos(), 0);
}

#[test]
fn tick_over_any_number_of_periods_fires() {
    let mut timer = PlateSelectedAnimationTimer::new(1);
    assert!(timer.tick(4_294_967_296));
    assert_eq!(timer.elapsed_nanos(), 0);
    assert!(timer.tick(4_294_967_297));
    assert_eq!(timer.elapsed_nanos(), 0);
    assert!(timer.tick(u64::MAX));
    assert_eq!(timer.elapsed_nanos(), 0);

    let mut slow = PlateSelectedAnimationTimer::new(3);
    assert!(slow.tick(3 * 4_294_967_296 + 2));
    assert_eq!(slow.elapsed_nanos(), 2);
    assert!(slow.tick(3 * 8_589_934_592 + 1));
    assert_eq!(slow.elapsed_nanos(), 0);
}

#[test]
fn largest_values_stay_in_range() {
    let mut timer = PlateSelectedAnimationTimer::new(u64::MAX);
    assert!(!timer.tick(u64::MAX - 1));
    assert_eq!(timer.elapsed_nanos(), u64::MAX - 1);
    assert!(timer.tick(u64::MAX));
    assert_eq!(timer.elapsed_nanos(), u64::MAX - 1);
}

#[test]
fn timer_agrees_with_a_repeating_bevy_timer() {
    let period: u64 = 250_000_000;
    let deltas: [u64; 8] = [16_000_000, 240_000_000, 0, 1, 999_999_999, 250_000_000, 3, 500_000_000];
    let mut timer = PlateSelectedAnimationTimer::new(period);
    let mut reference = Timer::new(Duration::from_nanos(period), TimerMode::Repeating);
    for delta in deltas {
        let fired = timer.tick(delta);
        reference.tick(Duration::from_nanos(delta));
        assert_eq!(fired, reference.finished());
        assert_eq!(u128::from(timer.elapsed_nanos()), reference.elapsed().as_nanos());
    }
}
