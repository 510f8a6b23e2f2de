//! Waiting for an operation to yield a result, polling it at a fixed interval
//! until it succeeds, fails for good, or a deadline passes.
//!
//! The wait is a small state machine. It decides what happens next; its
//! caller performs each step and reports back:
//!
//! 1. [`wait_until`] or [`wait_for`] starts a wait and hands out a [`Poller`]:
//!    the operation is due, whatever the deadline.
//! 2. The caller runs the operation once and reports the [`Attempt`] with
//!    [`Poller::attempted`]. A success or a failure ends the wait at once.
//!    After a pending attempt the caller is told to sleep.
//! 3. The caller sleeps for [`Sleeper::interval`], reads its clock and reports
//!    the reading with [`Sleeper::woke`]. If the deadline has been reached the
//!    wait has timed out; otherwise the operation is due again.
//!
//! Times are counts of ticks of one monotonic clock of the caller's choosing,
//! nanoseconds for instance. Nothing here blocks, reads a clock or calls the
//! operation: each transition is a total function of its arguments. A caller
//! that blocks its thread for the whole wait runs this loop:
//!
//! ```text
//! let mut step = Step::Attempt(wait_for(now(), timeout, interval));
//! loop {
//!     step = match step {
//!         Step::Attempt(poller) => poller.attempted(operation()),
//!         Step::Sleep(sleeper) => {
//!             sleep(sleeper.interval());
//!             sleeper.woke(now())
//!         }
//!         Step::Done(outcome) => return outcome,
//!     };
//! }
//! ```
//!
//! The module [`trace`] says what a whole wait comes to, given what the
//! attempts return and what the clock shows, and proves the laws that callers
//! rely on.

pub mod attempt;
pub mod poller;
pub mod trace;

pub use attempt::{Attempt, Outcome};
pub use poller::{wait_for, wait_until, Poller, Sleeper, Step};
