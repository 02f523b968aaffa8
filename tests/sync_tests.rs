use std::cell::{Cell, RefCell};
use std::marker::PhantomData;
use std::sync::atomic::{AtomicI32, Ordering};
use std::sync::Arc;
use try_again::delay::{ExponentialBackoff, Fixed, NoDelay};
use try_again::delay_executor::DelayExecutor;
use try_again::{retry_with_options, Duration, IntoStdDuration, RetryOptions};

/// Records each delay instead of waiting.
#[derive(Debug, Default)]
struct Recorder {
    delays: RefCell<Vec<Duration>>,
}

impl DelayExecutor<Duration> for &Recorder {
    fn delay_by(&self, by: Duration) {
        self.delays.borrow_mut().push(by);
    }
}

#[test]
fn sync_tests_accepts_closure() {
    let test = || -> Result<(), ()> { Ok(()) };
    let out = retry_with_options(
        test,
        RetryOptions {
            delay_strategy: NoDelay.take(0),
            delay_executor: &Recorder::default(),
            _marker: PhantomData,
        },
    );
    assert_eq!(out, Ok(()));
}

#[test]
fn sync_tests_accepts_function_pointer() {
    fn test() -> Result<(), ()> {
        Ok(())
    }
    let out = retry_with_options(
        test,
        RetryOptions {
            delay_strategy: NoDelay.take(0),
            delay_executor: &Recorder::default(),
            _marker: PhantomData,
        },
    );
    assert_eq!(out, Ok(()));
}

#[test]
fn sync_tests_on_success_never_retries() {
    fn successful(counter: Arc<AtomicI32>) -> Result<i32, ()> {
        counter.fetch_add(1, Ordering::SeqCst);
        Ok(42)
    }

    let counter = Arc::new(AtomicI32::new(0));

    let out = retry_with_options(
        || successful(counter.clone()),
        RetryOptions {
            delay_strategy: NoDelay.take(3),
            delay_executor: &Recorder::default(),
            _marker: PhantomData,
        },
    );

    assert_eq!(out, Ok(42));
    assert_eq!(
        counter.load(Ordering::SeqCst),
        1,
        "Function must have been called 1 time only!"
    );
}

#[test]
fn sync_tests_on_continuous_error_retries_expected_number_of_times() {
    fn erroneous(counter: Arc<AtomicI32>) -> Result<(), i32> {
        counter.fetch_add(1, Ordering::SeqCst);
        Err(42)
    }

    let counter = Arc::new(AtomicI32::new(0));

    let out = retry_with_options(
        || erroneous(counter.clone()),
        RetryOptions {
            delay_strategy: Fixed::of(50.millis()).take(3),
            delay_executor: &Recorder::default(),
            _marker: PhantomData,
        },
    );

    assert_eq!(out, Err(42));
    assert_eq!(counter.load(Ordering::SeqCst), 4, "Function");
}

#[test]
fn success_is_attempted_once_whatever_the_delay_count() {
    for n in [0usize, 1, 5, 50] {
        let calls = Cell::new(0u32);
        let recorder = Recorder::default();
        let out = retry_with_options(
            || {
                calls.set(calls.get() + 1);
                Some("done")
            },
            RetryOptions {
                delay_strategy: Fixed::of(1.secs()).take(n),
                delay_executor: &recorder,
                _marker: PhantomData,
            },
        );
        assert_eq!(out, Some("done"));
        assert_eq!(calls.get(), 1);
        assert!(recorder.delays.borrow().is_empty());
    }
}

#[test]
fn failure_is_attempted_once_more_than_there_are_delays() {
    for n in [0usize, 1, 2, 7] {
        let calls = Cell::new(0usize);
        let recorder = Recorder::default();
        let out: Option<u8> = retry_with_options(
            || {
                calls.set(calls.get() + 1);
                None
            },
            RetryOptions {
                delay_strategy: ExponentialBackoff::of_initial_delay(1.millis()).uncapped().take(n),
                delay_executor: &recorder,
                _marker: PhantomData,
            },
        );
        assert_eq!(out, None);
        assert_eq!(calls.get(), n + 1);
        assert_eq!(recorder.delays.borrow().len(), n);
    }
}

#[test]
fn take_zero_gives_one_attempt_and_no_wait_on_failure() {
    let calls = Cell::new(0u32);
    let recorder = Recorder::default();
    let out: Result<(), &str> = retry_with_options(
        || {
            calls.set(calls.get() + 1);
            Err("down")
        },
        RetryOptions {
            delay_strategy: Fixed::of(1.secs()).take(0),
            delay_executor: &recorder,
            _marker: PhantomData,
        },
    );
    assert_eq!(out, Err("down"));
    assert_eq!(calls.get(), 1);
    assert!(recorder.delays.borrow().is_empty());
}

#[test]
fn exhaustion_returns_outcome_of_last_attempt() {
    let counter = Cell::new(0i32);
    let recorder = Recorder::default();
    let out: Result<(), i32> = retry_with_options(
        || {
            counter.set(counter.get() + 1);
            Err(counter.get())
        },
        RetryOptions {
            delay_strategy: NoDelay.take(2),
            delay_executor: &recorder,
            _marker: PhantomData,
        },
    );
    assert_eq!(out, Err(3));
    assert_eq!(counter.get(), 3);
}

#[test]
fn waits_for_each_delay_in_order() {
    let recorder = Recorder::default();
    let out: Option<()> = retry_with_options(
        || None,
        RetryOptions {
            delay_strategy: ExponentialBackoff::of_initial_delay(50.millis())
                .capped_at(250.millis())
                .take(5),
            delay_executor: &recorder,
            _marker: PhantomData,
        },
    );
    assert_eq!(out, None);
    assert_eq!(
        *recorder.delays.borrow(),
        vec![50.millis(), 100.millis(), 200.millis(), 250.millis(), 250.millis()]
    );
}

#[test]
fn stops_at_first_success_after_failures() {
    let calls = Cell::new(0u32);
    let recorder = Recorder::default();
    let out = retry_with_options(
        || {
            calls.set(calls.get() + 1);
            if calls.get() < 3 {
                Err(calls.get())
            } else {
                Ok(calls.get())
            }
        },
        RetryOptions {
            delay_strategy: Fixed::of(5.millis()).take(10),
            delay_executor: &recorder,
            _marker: PhantomData,
        },
    );
    assert_eq!(out, Ok(3));
    assert_eq!(*recorder.delays.borrow(), vec![5.millis(), 5.millis()]);
}

#[test]
fn repeated_sessions_of_a_successful_operation_agree() {
    let op = || -> Result<u32, ()> { Ok(7) };
    let mut results = Vec::new();
    for _ in 0..3 {
        let calls = Cell::new(0u32);
        let out = retry_with_options(
            || {
                calls.set(calls.get() + 1);
                op()
            },
            RetryOptions {
                delay_strategy: Fixed::of(1.millis()).take(4),
                delay_executor: &Recorder::default(),
                _marker: PhantomData,
            },
        );
        results.push((out, calls.get()));
    }
    assert_eq!(results, vec![(Ok(7), 1), (Ok(7), 1), (Ok(7), 1)]);
}
