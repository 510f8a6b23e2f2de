//! The wait as a state machine: its two states and the transitions between
//! them.

use crate::attempt::{Attempt, Outcome};
use vstd::prelude::*;

verus! {

/// A wait in which the operation is due.
#[derive(Debug)]
pub struct Poller {
    deadline: u128,
    interval: u64,
}

/// A wait whose last attempt was pending: the caller sleeps for the interval
/// and then reports what its clock shows.
#[derive(Debug)]
pub struct Sleeper {
    deadline: u128,
    interval: u64,
}

/// What the caller of a wait does next.
#[derive(Debug)]
pub enum Step<T, E> {
    /// Run the operation once and report with [`Poller::attempted`].
    Attempt(Poller),
    /// Sleep for [`Sleeper::interval`], read the clock and report with
    /// [`Sleeper::woke`].
    Sleep(Sleeper),
    /// The wait is over.
    Done(Outcome<T, E>),
}

/// Whether a wait with this deadline is over at a clock reading of `now`.
pub open spec fn expired(deadline: int, now: int) -> bool {
    now >= deadline
}

impl Poller {
    /// The tick at which the wait times out.
    pub closed spec fn deadline(&self) -> nat {
        self.deadline as nat
    }

    /// The ticks to sleep after each pending attempt.
    pub closed spec fn interval(&self) -> u64 {
        self.interval
    }

    /// Takes the report of one attempt.
    ///
    /// A success or a failure ends the wait with that value or error, and the
    /// deadline is not looked at. After a pending attempt a sleep is due, with
    /// deadline and interval unchanged.
    pub fn attempted<T, E>(self, attempt: Attempt<T, E>) -> (step: Step<T, E>)
        ensures
            match attempt.settled() {
                Some(outcome) => step == Step::Done(outcome),
                None => step matches Step::Sleep(sleeper)
                    && sleeper.deadline() == self.deadline()
                    && sleeper.interval() == self.interval(),
            },
    {
        match attempt {
            Attempt::Success(value) => Step::Done(Outcome::Success(value)),
            Attempt::Failure(error) => Step::Done(Outcome::Failure(error)),
            Attempt::Pending => Step::Sleep(
                Sleeper { deadline: self.deadline, interval: self.interval },
            ),
        }
    }
}

impl Sleeper {
    /// The tick at which the wait times out.
    pub closed spec fn deadline(&self) -> nat {
        self.deadline as nat
    }

    /// The ticks to sleep before the clock is read.
    pub closed spec fn spec_interval(&self) -> u64 {
        self.interval
    }

    /// The ticks to sleep before the clock is read.
    #[verifier::when_used_as_spec(spec_interval)]
    pub fn interval(&self) -> (ticks: u64)
        ensures
            ticks == self.interval(),
    {
        self.interval
    }

    /// Takes the clock reading made after the sleep.
    ///
    /// At or past the deadline the wait has timed out. Before it the operation
    /// is due again, with deadline and interval unchanged.
    pub fn woke<T, E>(self, now: u64) -> (step: Step<T, E>)
        ensures
            if expired(self.deadline() as int, now as int) {
                step == Step::<T, E>::Done(Outcome::TimedOut)
            } else {
                step matches Step::Attempt(poller)
                    && poller.deadline() == self.deadline()
                    && poller.interval() == self.interval()
            },
    {
        if now as u128 >= self.deadline {
            Step::Done(Outcome::TimedOut)
        } else {
            Step::Attempt(Poller { deadline: self.deadline, interval: self.interval })
        }
    }
}

/// Starts a wait that times out at the tick `deadline`, sleeping `interval`
/// ticks after each pending attempt.
///
/// The operation is due first, even where the clock is already past
/// `deadline`: the deadline is looked at only after a sleep.
pub fn wait_until(deadline: u64, interval: u64) -> (poller: Poller)
    ensures
        poller.deadline() == deadline,
        poller.interval() == interval,
{
    Poller { deadline: deadline as u128, interval }
}

/// Starts a wait that times out `timeout` ticks after the clock reading `now`,
/// sleeping `interval` ticks after each pending attempt.
///
/// `now` is read once, before the first attempt, so that `timeout` bounds the
/// whole wait, the first attempt included. The deadline is the exact sum: where
/// it lies beyond every reading that the clock can show, the wait never times
/// out.
pub fn wait_for(now: u64, timeout: u64, interval: u64) -> (poller: Poller)
    ensures
        poller.deadline() == now + timeout,
        poller.interval() == interval,
{
    Poller { deadline: now as u128 + timeout as u128, interval }
}

} // verus!
