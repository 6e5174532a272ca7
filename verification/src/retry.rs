//! Attempts that are made again where they fail.

use vstd::prelude::*;

verus! {

/// What to do after an attempt.
#[derive(Debug, PartialEq, Eq)]
pub enum RetryStep<R, E> {
    /// Make another attempt.
    Again,
    /// This is how it turned out.
    Done(Result<R, E>),
}

/// How often an attempt may still be made again.
#[derive(Debug, Clone, Copy, PartialEq, Eq, Structural)]
pub struct Retry {
    pub retries: usize,
}

impl Retry {
    pub fn new(retries: usize) -> (retry: Retry)
        ensures
            retry.retries == retries,
    {
        Retry { retries }
    }

    /// What an attempt that turned out in some way leads to: the first success
    /// counts, and else the last failure.
    pub open spec fn after<R, E>(self, result: Result<R, E>) -> (Retry, RetryStep<R, E>) {
        if result is Ok || self.retries == 0 {
            (self, RetryStep::Done(result))
        } else {
            (Retry { retries: (self.retries - 1) as usize }, RetryStep::Again)
        }
    }

    /// How a series of attempts turns out, and how many of them are made.
    pub open spec fn series<R, E>(self, results: Seq<Result<R, E>>) -> (Result<R, E>, nat)
        decreases self.retries,
    {
        match self.after(results[0]) {
            (_, RetryStep::Done(result)) => (result, 1),
            (retry, RetryStep::Again) => {
                let rest = retry.series(results.drop_first());
                (rest.0, rest.1 + 1)
            },
        }
    }

    /// Takes how an attempt turned out.
    pub fn attempted<R, E>(&mut self, result: Result<R, E>) -> (step: RetryStep<R, E>)
        ensures
            (*final(self), step) == old(self).after(result),
    {
        match result {
            Ok(value) => RetryStep::Done(Ok(value)),
            Err(error) => {
                if self.retries == 0 {
                    RetryStep::Done(Err(error))
                } else {
                    self.retries = self.retries - 1;
                    RetryStep::Again
                }
            },
        }
    }
}

/// Attempts are made until one succeeds, or one more than may be made again;
/// they only fail where all of them do.
pub proof fn series_is_bounded<R, E>(retry: Retry, results: Seq<Result<R, E>>)
    requires
        results.len() > retry.retries,
    ensures
        1 <= retry.series(results).1 <= retry.retries + 1,
        retry.series(results).0 == results[retry.series(results).1 - 1],
        forall|i: int| 0 <= i < retry.series(results).1 - 1 ==> #[trigger] results[i] is Err,
        retry.series(results).0 is Err ==> retry.series(results).1 == retry.retries + 1,
    decreases retry.retries,
{
    if !(results[0] is Ok || retry.retries == 0) {
        let rest = results.drop_first();
        let next = retry.after(results[0]).0;
        series_is_bounded(next, rest);
        assert forall|i: int|
            0 <= i < retry.series(results).1 - 1 implies #[trigger] results[i] is Err by {
            if i > 0 {
                assert(rest[i - 1] == results[i]);
            }
        }
    }
}

/// A success ends a series at once; a failure ends it only where it may not be made
/// again, and otherwise costs one of the times that it may be.
pub proof fn failures_are_made_again<R, E>(
    before: Retry,
    result: Result<R, E>,
    step: RetryStep<R, E>,
    after: Retry,
)
    requires
        exists|this: &mut Retry| #[trigger]
            call_ensures(Retry::attempted::<R, E>, (this, result), step) && *this == before
                && *final(this) == after,
    ensures
        step is Again <==> result is Err && before.retries > 0,
        step is Again ==> after.retries == before.retries - 1,
        step matches RetryStep::Done(own) ==> own == result && after.retries == before.retries,
{
}

} // verus!
