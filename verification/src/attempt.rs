//! What the operation reports on each attempt, and how a wait ends.

use vstd::prelude::*;

verus! {

/// What one call of the polled operation reported.
#[derive(Debug, PartialEq, Eq)]
pub enum Attempt<T, E> {
    /// No result yet: the wait goes on.
    Pending,
    /// The operation produced its value: the wait ends with it.
    Success(T),
    /// The operation failed for good: the wait ends with this error.
    Failure(E),
}

/// How a wait ended.
#[derive(Debug, PartialEq, Eq)]
pub enum Outcome<T, E> {
    /// The operation produced this value.
    Success(T),
    /// The operation reported this error. It is handed on untouched.
    Failure(E),
    /// The deadline was reached before the operation reported a value or an
    /// error. This is an ordinary outcome, not an error.
    TimedOut,
}

impl<T, E> Attempt<T, E> {
    /// The outcome that this attempt ends the wait with, or `None` where the
    /// wait goes on.
    pub open spec fn settled(self) -> Option<Outcome<T, E>> {
        match self {
            Attempt::Pending => None,
            Attempt::Success(value) => Some(Outcome::Success(value)),
            Attempt::Failure(error) => Some(Outcome::Failure(error)),
        }
    }

    /// Reads an attempt from the shape that fallible Rust operations usually
    /// return: `Ok(None)` is pending, `Ok(Some(value))` a success, `Err(error)`
    /// a failure.
    pub fn from_result(result: Result<Option<T>, E>) -> (attempt: Self)
        ensures
            match result {
                Ok(None) => attempt == Attempt::<T, E>::Pending,
                Ok(Some(value)) => attempt == Attempt::<T, E>::Success(value),
                Err(error) => attempt == Attempt::<T, E>::Failure(error),
            },
    {
        match result {
            Ok(None) => Attempt::Pending,
            Ok(Some(value)) => Attempt::Success(value),
            Err(error) => Attempt::Failure(error),
        }
    }
}

impl<T, E> Outcome<T, E> {
    /// The outcome in the shape of [`Attempt::from_result`]'s argument: a
    /// value is `Ok(Some(value))`, an error `Err(error)`, a timeout
    /// `Ok(None)`.
    pub fn into_result(self) -> (result: Result<Option<T>, E>)
        ensures
            match self {
                Outcome::Success(value) => result == Ok::<Option<T>, E>(Some(value)),
                Outcome::Failure(error) => result == Err::<Option<T>, E>(error),
                Outcome::TimedOut => result == Ok::<Option<T>, E>(None),
            },
    {
        match self {
            Outcome::Success(value) => Ok(Some(value)),
            Outcome::Failure(error) => Err(error),
            Outcome::TimedOut => Ok(None),
        }
    }
}

} // verus!
