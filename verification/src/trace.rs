//! What a whole wait comes to, and the laws of waiting.
//!
//! A wait is played against a script: the reports that the operation's
//! successive attempts make, and the readings that the clock shows after the
//! successive sleeps. [`run`] follows the state machine along such a script,
//! and the laws below say what it comes to without following it step by step.

use crate::attempt::{Attempt, Outcome};
use crate::poller::expired;
use vstd::prelude::*;

verus! {

/// Where a wait stands once a script has been played to it.
pub struct Run<T, E> {
    /// How the wait ended, or `None` where the script ran out first.
    pub outcome: Option<Outcome<T, E>>,
    /// How many times the operation was run.
    pub attempts: nat,
    /// How many times the caller slept and read the clock.
    pub sleeps: nat,
}

impl<T, E> Run<T, E> {
    /// The run that opens with a pending attempt and a sleep that ends before
    /// the deadline, and then goes on as `self`.
    pub open spec fn after_retry(self) -> Self {
        Run { outcome: self.outcome, attempts: self.attempts + 1, sleeps: self.sleeps + 1 }
    }
}

/// The wait with the given deadline, played against a script.
///
/// `attempts[i]` is what the operation reports when it is run for the
/// `i + 1`-th time, `clock[i]` what the clock shows after the `i + 1`-th sleep.
/// The operation is run first. A report that settles the wait ends it there.
/// After a pending one the caller sleeps, and only then is the clock held
/// against the deadline.
///
/// This is the way along which [`Poller::attempted`](crate::Poller::attempted)
/// and [`Sleeper::woke`](crate::Sleeper::woke) lead a caller who starts from a
/// poller with this deadline and reports `attempts` and `clock` in order: each
/// branch here is one clause of their contracts.
pub open spec fn run<T, E>(deadline: int, attempts: Seq<Attempt<T, E>>, clock: Seq<int>) -> Run<
    T,
    E,
>
    decreases attempts.len(),
{
    if attempts.len() == 0 {
        Run { outcome: None, attempts: 0, sleeps: 0 }
    } else {
        match attempts[0].settled() {
            Some(outcome) => Run { outcome: Some(outcome), attempts: 1, sleeps: 0 },
            None => if clock.len() == 0 {
                Run { outcome: None, attempts: 1, sleeps: 0 }
            } else if expired(deadline, clock[0]) {
                Run { outcome: Some(Outcome::TimedOut), attempts: 1, sleeps: 1 }
            } else {
                run(deadline, attempts.drop_first(), clock.drop_first()).after_retry()
            },
        }
    }
}

/// Whether the first `count` attempts of a script are all pending.
pub open spec fn pending_before<T, E>(attempts: Seq<Attempt<T, E>>, count: int) -> bool {
    forall|i: int| 0 <= i < count ==> (#[trigger] attempts[i]) is Pending
}

/// Whether the first `count` readings of a clock all lie before the deadline.
pub open spec fn early_before(deadline: int, clock: Seq<int>, count: int) -> bool {
    forall|i: int| 0 <= i < count ==> !expired(deadline, #[trigger] clock[i])
}

proof fn lemma_settles_on_nth<T, E>(
    deadline: int,
    attempts: Seq<Attempt<T, E>>,
    clock: Seq<int>,
    n: nat,
    outcome: Outcome<T, E>,
)
    requires
        1 <= n <= attempts.len(),
        attempts[n - 1].settled() == Some(outcome),
        pending_before(attempts, n - 1),
        n - 1 <= clock.len(),
        early_before(deadline, clock, n - 1),
    ensures
        run(deadline, attempts, clock) == (Run {
            outcome: Some(outcome),
            attempts: n,
            sleeps: (n - 1) as nat,
        }),
    decreases n,
{
    if n > 1 {
        assert(attempts[0] is Pending);
        assert(!expired(deadline, clock[0]));
        let later = attempts.drop_first();
        let ticks = clock.drop_first();
        assert forall|i: int| 0 <= i < n - 2 implies (#[trigger] later[i]) is Pending by {
            assert(later[i] == attempts[i + 1]);
        }
        assert forall|i: int| 0 <= i < n - 2 implies !expired(deadline, #[trigger] ticks[i]) by {
            assert(ticks[i] == clock[i + 1]);
        }
        lemma_settles_on_nth(deadline, later, ticks, (n - 1) as nat, outcome);
    }
}

/// A success on the `n`-th attempt, after pending attempts only, ends the wait
/// with that value after exactly `n` attempts and `n - 1` sleeps: no sleep
/// follows the success. This holds as long as the deadline has not been
/// reached at any of the `n - 1` checks that come before.
pub proof fn law_success_on_nth_attempt<T, E>(
    deadline: int,
    attempts: Seq<Attempt<T, E>>,
    clock: Seq<int>,
    n: nat,
    value: T,
)
    requires
        1 <= n <= attempts.len(),
        attempts[n - 1] == Attempt::<T, E>::Success(value),
        pending_before(attempts, n - 1),
        n - 1 <= clock.len(),
        early_before(deadline, clock, n - 1),
    ensures
        run(deadline, attempts, clock) == (Run {
            outcome: Some(Outcome::<T, E>::Success(value)),
            attempts: n,
            sleeps: (n - 1) as nat,
        }),
{
    lemma_settles_on_nth(deadline, attempts, clock, n, Outcome::Success(value));
}

/// A failure on the `n`-th attempt, after pending attempts only, ends the wait
/// with that very error after exactly `n` attempts and `n - 1` sleeps: the
/// operation is not run again. This holds as long as the deadline has not been
/// reached at any of the `n - 1` checks that come before.
pub proof fn law_failure_on_nth_attempt<T, E>(
    deadline: int,
    attempts: Seq<Attempt<T, E>>,
    clock: Seq<int>,
    n: nat,
    error: E,
)
    requires
        1 <= n <= attempts.len(),
        attempts[n - 1] == Attempt::<T, E>::Failure(error),
        pending_before(attempts, n - 1),
        n - 1 <= clock.len(),
        early_before(deadline, clock, n - 1),
    ensures
        run(deadline, attempts, clock) == (Run {
            outcome: Some(Outcome::<T, E>::Failure(error)),
            attempts: n,
            sleeps: (n - 1) as nat,
        }),
{
    lemma_settles_on_nth(deadline, attempts, clock, n, Outcome::Failure(error));
}

/// A wait whose attempts are all pending times out at the first check at
/// which the deadline has been reached: if that is the `n`-th check, after
/// exactly `n` attempts and `n` sleeps.
pub proof fn law_times_out_at_first_late_check<T, E>(
    deadline: int,
    attempts: Seq<Attempt<T, E>>,
    clock: Seq<int>,
    n: nat,
)
    requires
        1 <= n <= attempts.len(),
        pending_before(attempts, n as int),
        n <= clock.len(),
        early_before(deadline, clock, n - 1),
        expired(deadline, clock[n - 1]),
    ensures
        run(deadline, attempts, clock) == (Run {
            outcome: Some(Outcome::<T, E>::TimedOut),
            attempts: n,
            sleeps: n,
        }),
    decreases n,
{
    assert(attempts[0] is Pending);
    if n > 1 {
        assert(!expired(deadline, clock[0]));
        let later = attempts.drop_first();
        let ticks = clock.drop_first();
        assert forall|i: int| 0 <= i < n - 1 implies (#[trigger] later[i]) is Pending by {
            assert(later[i] == attempts[i + 1]);
        }
        assert forall|i: int| 0 <= i < n - 2 implies !expired(deadline, #[trigger] ticks[i]) by {
            assert(ticks[i] == clock[i + 1]);
        }
        assert(ticks[n - 2] == clock[n - 1]);
        law_times_out_at_first_late_check(deadline, later, ticks, (n - 1) as nat);
    }
}

/// Whether each sleep of a wait that began at the tick `start` lasted at least
/// `interval` ticks on a clock that never runs backwards: the reading after
/// the `i + 1`-th sleep is at least `start + (i + 1) * interval`.
pub open spec fn sleeps_last(start: int, interval: int, clock: Seq<int>) -> bool {
    forall|i: int| 0 <= i < clock.len() ==> #[trigger] clock[i] >= start + (i + 1) * interval
}

proof fn lemma_pending_attempts_bounded<T, E>(
    start: int,
    timeout: int,
    interval: int,
    attempts: Seq<Attempt<T, E>>,
    clock: Seq<int>,
    slept: nat,
)
    requires
        interval > 0,
        slept * interval <= timeout,
        pending_before(attempts, attempts.len() as int),
        forall|i: int|
            0 <= i < clock.len() ==> #[trigger] clock[i] >= start + (slept + i + 1) * interval,
    ensures
        ({
            let played = run(start + timeout, attempts, clock);
            played.outcome is Some ==> {
                &&& played.outcome == Some(Outcome::<T, E>::TimedOut)
                &&& slept + played.attempts <= timeout / interval + 1
            }
        }),
    decreases attempts.len(),
{
    if attempts.len() > 0 {
        assert(attempts[0] is Pending);
        if clock.len() > 0 {
            if expired(start + timeout, clock[0]) {
                assert(slept <= timeout / interval) by (nonlinear_arith)
                    requires
                        interval > 0,
                        slept * interval <= timeout,
                ;
            } else {
                let later = attempts.drop_first();
                let ticks = clock.drop_first();
                assert((slept + 1) * interval <= timeout) by {
                    assert(clock[0] >= start + (slept + 0 + 1) * interval);
                }
                assert forall|i: int| 0 <= i < later.len() implies (#[trigger] later[i]) is Pending by {
                    assert(later[i] == attempts[i + 1]);
                }
                assert forall|i: int| 0 <= i < ticks.len() implies #[trigger] ticks[i] >= start
                    + (slept + 1 + i + 1) * interval by {
                    assert(ticks[i] == clock[i + 1]);
                    assert(clock[i + 1] >= start + (slept + (i + 1) + 1) * interval);
                }
                lemma_pending_attempts_bounded(start, timeout, interval, later, ticks, slept + 1);
            }
        }
    }
}

/// A wait of `timeout` ticks from the tick `start` whose attempts are all
/// pending can only time out, and it does so after at least one attempt and at
/// most `timeout / interval + 1` of them, provided that the interval is not
/// zero and that each sleep lasts at least that long.
pub proof fn law_pending_attempts_bounded<T, E>(
    start: int,
    timeout: int,
    interval: int,
    attempts: Seq<Attempt<T, E>>,
    clock: Seq<int>,
)
    requires
        timeout >= 0,
        interval > 0,
        pending_before(attempts, attempts.len() as int),
        sleeps_last(start, interval, clock),
        run(start + timeout, attempts, clock).outcome is Some,
    ensures
        run(start + timeout, attempts, clock).outcome == Some(Outcome::<T, E>::TimedOut),
        1 <= run(start + timeout, attempts, clock).attempts <= timeout / interval + 1,
{
    assert(0 * interval <= timeout);
    assert forall|i: int| 0 <= i < clock.len() implies #[trigger] clock[i] >= start + (0 + i
        + 1) * interval by {
        assert(clock[i] >= start + (i + 1) * interval);
    }
    lemma_pending_attempts_bounded(start, timeout, interval, attempts, clock, 0);
}

proof fn lemma_pending_wait_times_out<T, E>(
    start: int,
    timeout: int,
    interval: int,
    attempts: Seq<Attempt<T, E>>,
    clock: Seq<int>,
    slept: nat,
)
    requires
        interval > 0,
        slept * interval <= timeout,
        pending_before(attempts, attempts.len() as int),
        forall|i: int|
            0 <= i < clock.len() ==> #[trigger] clock[i] >= start + (slept + i + 1) * interval,
        slept + attempts.len() > timeout / interval,
        slept + clock.len() > timeout / interval,
    ensures
        run(start + timeout, attempts, clock).outcome == Some(Outcome::<T, E>::TimedOut),
    decreases attempts.len(),
{
    assert(slept <= timeout / interval) by (nonlinear_arith)
        requires
            interval > 0,
            slept * interval <= timeout,
    ;
    assert(attempts[0] is Pending);
    if !expired(start + timeout, clock[0]) {
        let later = attempts.drop_first();
        let ticks = clock.drop_first();
        assert((slept + 1) * interval <= timeout) by {
            assert(clock[0] >= start + (slept + 0 + 1) * interval);
        }
        assert forall|i: int| 0 <= i < later.len() implies (#[trigger] later[i]) is Pending by {
            assert(later[i] == attempts[i + 1]);
        }
        assert forall|i: int| 0 <= i < ticks.len() implies #[trigger] ticks[i] >= start + (slept
            + 1 + i + 1) * interval by {
            assert(ticks[i] == clock[i + 1]);
            assert(clock[i + 1] >= start + (slept + (i + 1) + 1) * interval);
        }
        lemma_pending_wait_times_out(start, timeout, interval, later, ticks, slept + 1);
    }
}

/// A wait of `timeout` ticks whose attempts are all pending does time out,
/// provided that the interval is not zero and that each sleep lasts at least
/// that long: `timeout / interval + 1` attempts and sleeps are enough to reach
/// the deadline.
pub proof fn law_pending_wait_times_out<T, E>(
    start: int,
    timeout: int,
    interval: int,
    attempts: Seq<Attempt<T, E>>,
    clock: Seq<int>,
)
    requires
        timeout >= 0,
        interval > 0,
        pending_before(attempts, attempts.len() as int),
        sleeps_last(start, interval, clock),
        attempts.len() > timeout / interval,
        clock.len() > timeout / interval,
    ensures
        run(start + timeout, attempts, clock).outcome == Some(Outcome::<T, E>::TimedOut),
{
    assert(0 * interval <= timeout);
    assert forall|i: int| 0 <= i < clock.len() implies #[trigger] clock[i] >= start + (0 + i
        + 1) * interval by {
        assert(clock[i] >= start + (i + 1) * interval);
    }
    lemma_pending_wait_times_out(start, timeout, interval, attempts, clock, 0);
}

/// The operation is run before the deadline is looked at. Whatever the
/// deadline and whatever the clock shows, a wait makes at least one attempt,
/// and a first attempt that settles it decides the outcome, with no sleep.
pub proof fn law_first_attempt_comes_first<T, E>(
    deadline: int,
    attempts: Seq<Attempt<T, E>>,
    clock: Seq<int>,
)
    requires
        attempts.len() >= 1,
    ensures
        run(deadline, attempts, clock).attempts >= 1,
        attempts[0].settled() is Some ==> run(deadline, attempts, clock) == (Run {
            outcome: attempts[0].settled(),
            attempts: 1,
            sleeps: 0,
        }),
{
}

/// Sleeps and attempts alternate. A wait that timed out has slept as often as
/// it ran the operation; one that ended with a value or an error has slept once
/// less, since no sleep follows the attempt that settled it. Neither count
/// goes beyond what the script holds.
pub proof fn law_sleeps_follow_pending_attempts<T, E>(
    deadline: int,
    attempts: Seq<Attempt<T, E>>,
    clock: Seq<int>,
)
    ensures
        ({
            let played = run(deadline, attempts, clock);
            &&& played.attempts <= attempts.len()
            &&& played.sleeps <= clock.len()
            &&& match played.outcome {
                Some(Outcome::TimedOut) => played.sleeps == played.attempts,
                Some(_) => played.sleeps + 1 == played.attempts,
                None => played.sleeps == played.attempts || played.sleeps + 1 == played.attempts,
            }
        }),
    decreases attempts.len(),
{
    if attempts.len() > 0 && attempts[0].settled() is None && clock.len() > 0 && !expired(
        deadline,
        clock[0],
    ) {
        law_sleeps_follow_pending_attempts(deadline, attempts.drop_first(), clock.drop_first());
    }
}

/// Whether two clocks, each held against its own deadline, give the same
/// answer at every check.
pub open spec fn same_checks(
    deadline_a: int,
    clock_a: Seq<int>,
    deadline_b: int,
    clock_b: Seq<int>,
) -> bool {
    &&& clock_a.len() == clock_b.len()
    &&& forall|i: int|
        0 <= i < clock_a.len() ==> expired(deadline_a, #[trigger] clock_a[i]) == expired(
            deadline_b,
            #[trigger] clock_b[i],
        )
}

/// A wait is determined by what the operation reports and by whether the
/// deadline has been reached at each check, and by nothing else: two waits
/// that agree in both come to the same end after the same number of attempts
/// and sleeps.
pub proof fn law_same_reports_same_run<T, E>(
    attempts: Seq<Attempt<T, E>>,
    deadline_a: int,
    clock_a: Seq<int>,
    deadline_b: int,
    clock_b: Seq<int>,
)
    requires
        same_checks(deadline_a, clock_a, deadline_b, clock_b),
    ensures
        run(deadline_a, attempts, clock_a) == run(deadline_b, attempts, clock_b),
    decreases attempts.len(),
{
    if attempts.len() > 0 && attempts[0].settled() is None && clock_a.len() > 0 {
        assert(expired(deadline_a, clock_a[0]) == expired(deadline_b, clock_b[0]));
        if !expired(deadline_a, clock_a[0]) {
            let ticks_a = clock_a.drop_first();
            let ticks_b = clock_b.drop_first();
            assert forall|i: int| 0 <= i < ticks_a.len() implies expired(
                deadline_a,
                #[trigger] ticks_a[i],
            ) == expired(deadline_b, #[trigger] ticks_b[i]) by {
                assert(ticks_a[i] == clock_a[i + 1]);
                assert(ticks_b[i] == clock_b[i + 1]);
            }
            law_same_reports_same_run(
                attempts.drop_first(),
                deadline_a,
                ticks_a,
                deadline_b,
                ticks_b,
            );
        }
    }
}

/// The reports of an operation that is a pure function `op` of a counter,
/// where the counter stands at `first` when the wait begins and goes up by one
/// with each of the `calls` attempts.
pub open spec fn counted<T, E>(op: spec_fn(int) -> Attempt<T, E>, first: int, calls: nat) -> Seq<
    Attempt<T, E>,
> {
    Seq::new(calls, |i: int| op(first + i))
}

/// Waiting on an operation that is a pure function of a counter is
/// repeatable: begun at the same count, two waits whose deadline checks agree
/// make the same number of attempts and sleeps and end alike.
pub proof fn law_counted_wait_repeats<T, E>(
    op: spec_fn(int) -> Attempt<T, E>,
    first: int,
    calls: nat,
    deadline_a: int,
    clock_a: Seq<int>,
    deadline_b: int,
    clock_b: Seq<int>,
)
    requires
        same_checks(deadline_a, clock_a, deadline_b, clock_b),
    ensures
        run(deadline_a, counted(op, first, calls), clock_a) == run(
            deadline_b,
            counted(op, first, calls),
            clock_b,
        ),
{
    law_same_reports_same_run(counted(op, first, calls), deadline_a, clock_a, deadline_b, clock_b);
}

} // verus!
