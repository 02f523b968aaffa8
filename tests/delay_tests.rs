use try_again::delay::{ExponentialBackoff, Fixed, NoDelay};
use try_again::tracked_iterator::Sequence;
use try_again::{Duration, IntoStdDuration};

#[test]
fn uncapped_exponential_backoff_delay_strategy_returns_initial_delay_for_the_first_try_and_doubles_the_delay_for_each_retry_until_reaching_max_tries()
{
    let mut delay = ExponentialBackoff::of_initial_delay(50.millis())
        .uncapped()
        .take(4);

    assert_eq!(delay.next(), Some(50.millis()));
    assert_eq!(delay.next(), Some(100.millis()));
    assert_eq!(delay.next(), Some(200.millis()));
    assert_eq!(delay.next(), Some(400.millis()));
    assert_eq!(delay.next(), None);
}

#[test]
fn capped_exponential_backoff_delay_strategy_returns_initial_delay_for_the_first_try_and_doubles_the_delay_for_each_retry_until_capping_at_specified_max_delay_before_reaching_max_tries()
{
    let mut delay = ExponentialBackoff::of_initial_delay(50.millis())
        .capped_at(250.millis())
        .take(5);

    assert_eq!(delay.next(), Some(50.millis()));
    assert_eq!(delay.next(), Some(100.millis()));
    assert_eq!(delay.next(), Some(200.millis()));
    assert_eq!(delay.next(), Some(250.millis()));
    assert_eq!(delay.next(), Some(250.millis()));
    assert_eq!(delay.next(), None);
}

#[test]
fn static_delay_strategy_always_returns_the_configured_delay() {
    let mut delay = Fixed::of(50.millis()).take(3);

    assert_eq!(delay.next(), Some(50.millis()));
    assert_eq!(delay.next(), Some(50.millis()));
    assert_eq!(delay.next(), Some(50.millis()));
    assert_eq!(delay.next(), None);
}

#[test]
fn no_delay_strategy_always_returns_zero_duration() {
    let mut delay = NoDelay.take(3);

    assert_eq!(delay.next(), Some(Duration::zero()));
    assert_eq!(delay.next(), Some(Duration::zero()));
    assert_eq!(delay.next(), Some(Duration::zero()));
    assert_eq!(delay.next(), None);
}

#[test]
fn fixed_strategy_repeats_its_delay_for_many_elements() {
    let mut delay = Fixed::of(7.secs()).take(100);
    for _ in 0..100 {
        assert_eq!(delay.next(), Some(7.secs()));
    }
    assert_eq!(delay.next(), None);
    assert_eq!(delay.next(), None);
}

#[test]
fn take_zero_produces_nothing() {
    assert_eq!(NoDelay.take(0).next(), None);
    assert_eq!(Fixed::of(1.millis()).take(0).next(), None);
    assert_eq!(ExponentialBackoff::of_initial_delay(1.millis()).uncapped().take(0).next(), None);
}

#[test]
fn uncapped_backoff_is_initial_delay_times_powers_of_two() {
    let mut delay = ExponentialBackoff::of_initial_delay(3.nanos()).uncapped().take(10);
    let mut expected: u64 = 3;
    for _ in 0..10 {
        assert_eq!(delay.next(), Some(expected.nanos()));
        expected *= 2;
    }
    assert_eq!(delay.next(), None);
}

#[test]
fn capped_backoff_stays_at_cap_once_reached() {
    let mut delay = ExponentialBackoff::of_initial_delay(1.secs()).capped_at(5.secs()).take(6);
    assert_eq!(delay.next(), Some(1.secs()));
    assert_eq!(delay.next(), Some(2.secs()));
    assert_eq!(delay.next(), Some(4.secs()));
    assert_eq!(delay.next(), Some(5.secs()));
    assert_eq!(delay.next(), Some(5.secs()));
    assert_eq!(delay.next(), Some(5.secs()));
    assert_eq!(delay.next(), None);
}

#[test]
fn capped_backoff_equal_to_cap_after_exact_doubling() {
    let mut delay = ExponentialBackoff::of_initial_delay(100.millis()).capped_at(400.millis()).take(4);
    assert_eq!(delay.next(), Some(100.millis()));
    assert_eq!(delay.next(), Some(200.millis()));
    assert_eq!(delay.next(), Some(400.millis()));
    assert_eq!(delay.next(), Some(400.millis()));
}

#[test]
fn capped_backoff_keeps_initial_delay_above_cap_first() {
    let mut delay = ExponentialBackoff::of_initial_delay(10.secs()).capped_at(3.secs()).take(3);
    assert_eq!(delay.next(), Some(10.secs()));
    assert_eq!(delay.next(), Some(3.secs()));
    assert_eq!(delay.next(), Some(3.secs()));
}

#[test]
fn uncapped_backoff_saturates_at_longest_duration() {
    let start = Duration::max_value();
    let mut delay = ExponentialBackoff::of_initial_delay(start).uncapped().take(3);
    assert_eq!(delay.next(), Some(start));
    assert_eq!(delay.next(), Some(Duration::max_value()));
    assert_eq!(delay.next(), Some(Duration::max_value()));
}
