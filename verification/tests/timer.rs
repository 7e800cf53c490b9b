use game_of_life::timer::{TickTimer, DEFAULT_PERIOD_NANOS};

#[test]
fn default_period_is_half_a_second() {
    assert_eq!(DEFAULT_PERIOD_NANOS, 500_000_000);
    let timer = TickTimer::new(DEFAULT_PERIOD_NANOS);
    assert_eq!(timer.period(), 500_000_000);
    assert_eq!(timer.elapsed(), 0);
}

#[test]
fn fires_when_the_period_is_reached() {
    let mut timer = TickTimer::new(10);
    assert!(!timer.tick(9));
    assert_eq!(timer.elapsed(), 9);
    assert!(timer.tick(1));
    assert_eq!(timer.elapsed(), 0);
    assert!(timer.tick(10));
    assert_eq!(timer.elapsed(), 0);
    assert!(!timer.tick(0));
}

#[test]
fn remainder_is_carried_over() {
    let mut timer = TickTimer::new(10);
    assert!(!timer.tick(7));
    assert!(timer.tick(7));
    assert_eq!(timer.elapsed(), 4);
    assert!(timer.tick(7));
    assert_eq!(timer.elapsed(), 1);
    assert!(!timer.tick(7));
    assert_eq!(timer.elapsed(), 8);
}

#[test]
fn sixty_frames_a_second_give_two_generations_a_second() {
    let mut timer = TickTimer::new(DEFAULT_PERIOD_NANOS);
    let frame = 16_666_667;
    let mut fired_on = Vec::new();
    for n in 1..=120u64 {
        if timer.tick(frame) {
            fired_on.push(n);
        }
    }
    assert_eq!(fired_on, vec![30, 60, 90, 120]);
    assert_eq!(timer.elapsed(), 120 * frame - 4 * DEFAULT_PERIOD_NANOS);
}

#[test]
fn nothing_drifts_over_many_ticks() {
    let period = 500_000_000u64;
    let mut timer = TickTimer::new(period);
    let mut total: u128 = 0;
    let mut fired: u128 = 0;
    let mut delta = 1u64;
    for _ in 0..100_000 {
        // Frame times that wander between nothing and a whole period.
        delta = (delta * 48_271 + 11) % (period + 1);
        total += delta as u128;
        if timer.tick(delta) {
            fired += 1;
        }
        assert_eq!(timer.elapsed() as u128, total % period as u128);
        assert_eq!(fired, total / period as u128);
    }
}

#[test]
fn a_long_frame_fires_once_and_keeps_the_remainder() {
    let mut timer = TickTimer::new(10);
    assert!(timer.tick(37));
    assert_eq!(timer.elapsed(), 7);
    assert!(!timer.tick(2));
    assert!(timer.tick(1));
}

#[test]
fn largest_values_do_not_overflow() {
    let mut timer = TickTimer::new(u64::MAX);
    assert!(!timer.tick(u64::MAX - 1));
    assert_eq!(timer.elapsed(), u64::MAX - 1);
    // Two periods less one have gone by: one less than a period is left.
    assert!(timer.tick(u64::MAX));
    assert_eq!(timer.elapsed(), u64::MAX - 1);
    assert!(timer.tick(1));
    assert_eq!(timer.elapsed(), 0);
}

#[test]
fn zero_period_fires_on_every_tick() {
    let mut timer = TickTimer::new(0);
    assert!(timer.tick(0));
    assert!(timer.tick(5));
    assert_eq!(timer.elapsed(), 0);
}

#[test]
fn reset_drops_the_accumulated_time() {
    let mut timer = TickTimer::new(10);
    assert!(!timer.tick(9));
    timer.reset();
    assert_eq!(timer.elapsed(), 0);
    assert_eq!(timer.period(), 10);
    assert!(!timer.tick(9));
    assert!(timer.tick(1));
}
