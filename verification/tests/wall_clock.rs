//! Waits run to their end against the system's monotonic clock.

use std::time::{Duration, Instant};

use waitfor::{wait_for, wait_until, Attempt, Poller, Step};

/// One tick is one nanosecond.
fn ticks(duration: Duration) -> u64 {
    u64::try_from(duration.as_nanos()).unwrap_or(u64::MAX)
}

/// Lets `ticks` nanoseconds pass.
fn pause(ticks: u64) {
    let begun = Instant::now();
    let length = Duration::from_nanos(ticks);
    while begun.elapsed() < length {
        std::hint::spin_loop();
    }
}

/// Carries out what the wait asks for until it is over. The clock counts the
/// nanoseconds since `start`.
fn block_on<T, E>(
    poller: Poller,
    start: Instant,
    mut op: impl FnMut() -> Result<Option<T>, E>,
) -> Result<Option<T>, E> {
    let mut step = Step::Attempt(poller);
    loop {
        step = match step {
            Step::Attempt(poller) => poller.attempted(Attempt::from_result(op())),
            Step::Sleep(sleeper) => {
                pause(sleeper.interval());
                sleeper.woke(ticks(start.elapsed()))
            }
            Step::Done(outcome) => return outcome.into_result(),
        };
    }
}

#[test]
fn wait_for_success() {
    let mut counter: u64 = 1;
    let start = Instant::now();
    let poller = wait_for(0, ticks(Duration::from_secs(5)), ticks(Duration::from_nanos(1)));
    let result = block_on::<_, ()>(poller, start, || {
        if counter == 5 {
            Ok(Some(5))
        } else {
            counter += 1;
            Ok(None)
        }
    });

    assert_eq!(result, Ok(Some(5)))
}

#[test]
fn wait_for_error() {
    let mut counter: u64 = 1;
    let start = Instant::now();
    let poller = wait_for(0, ticks(Duration::from_secs(5)), ticks(Duration::from_nanos(1)));
    let result = block_on::<(), _>(poller, start, || {
        if counter == 5 {
            Err("expected")
        } else {
            counter += 1;
            Ok(None)
        }
    });

    assert_eq!(result, Err("expected"))
}

#[test]
fn wait_for_timeout() {
    let start = Instant::now();
    let poller = wait_for(0, ticks(Duration::from_millis(10)), ticks(Duration::from_nanos(1)));
    let result = block_on::<(), ()>(poller, start, || Ok(None));

    assert_eq!(result, Ok(None))
}

#[test]
fn wait_for_timeout_takes_the_whole_timeout() {
    let start = Instant::now();
    let poller = wait_for(0, ticks(Duration::from_millis(10)), ticks(Duration::from_nanos(1)));
    let result = block_on::<(), ()>(poller, start, || Ok(None));

    assert_eq!(result, Ok(None));
    assert!(start.elapsed() >= Duration::from_millis(10));
}

#[test]
fn wait_until_past_deadline_still_attempts_once() {
    let start = Instant::now();
    let mut calls: u32 = 0;
    let result = block_on::<_, ()>(wait_until(0, 1), start, || {
        calls += 1;
        Ok(Some(7))
    });

    assert_eq!(result, Ok(Some(7)));
    assert_eq!(calls, 1);
}

#[test]
fn wait_until_past_deadline_times_out_after_one_pending_attempt() {
    let start = Instant::now();
    let mut calls: u32 = 0;
    let result = block_on::<(), ()>(wait_until(0, 1), start, || {
        calls += 1;
        Ok(None)
    });

    assert_eq!(result, Ok(None));
    assert_eq!(calls, 1);
}
