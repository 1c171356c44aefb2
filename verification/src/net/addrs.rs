//! Trying addresses one after the other.

use crate::error::{Error, ErrorKind};
use vstd::prelude::*;

verus! {

/// The error where there is no address to try.
pub open spec fn no_addresses() -> Error {
    Error::Custom(ErrorKind::InvalidInput, "no addresses")
}

/// What trying addresses in turn has come to so far.
pub struct AddressTrial {
    last_error: Option<Error>,
}

impl AddressTrial {
    /// The error of the last address that was tried, if any was.
    pub closed spec fn last_error(&self) -> Option<Error> {
        self.last_error
    }

    /// No address was tried.
    pub fn new() -> (trial: Self)
        ensures
            trial.last_error() is None,
    {
        AddressTrial { last_error: None }
    }

    /// Takes note of what an address came to: success ends the trial.
    pub fn on_result<T>(&mut self, result: Result<T, Error>) -> (done: Option<T>)
        ensures
            match result {
                Ok(value) => {
                    &&& done == Some(value)
                    &&& final(self).last_error() == old(self).last_error()
                },
                Err(error) => {
                    &&& done is None
                    &&& final(self).last_error() == Some(error)
                },
            },
    {
        match result {
            Ok(value) => Some(value),
            Err(error) => {
                self.last_error = Some(error);
                None
            },
        }
    }

    /// The error once all addresses have failed: the last one's, or that there was none to try.
    pub fn into_error(self) -> (error: Error)
        ensures
            error == match self.last_error() {
                Some(error) => error,
                None => no_addresses(),
            },
            self.last_error() is None ==> error == Error::Custom(
                ErrorKind::InvalidInput,
                "no addresses",
            ),
    {
        match self.last_error {
            Some(error) => error,
            None => Error::Custom(ErrorKind::InvalidInput, "no addresses"),
        }
    }
}

/// What trying addresses in turn comes to, by what each of them comes to: the first success, or
/// else the last error.
pub open spec fn first_success<T>(results: Seq<Result<T, Error>>) -> Result<T, Error>
    decreases results.len(),
{
    if results.len() == 0 {
        Err(no_addresses())
    } else {
        match results[0] {
            Ok(value) => Ok(value),
            Err(error) => if results.len() == 1 {
                Err(error)
            } else {
                first_success(results.drop_first())
            },
        }
    }
}

/// Trying addresses in turn fails only if all fail.
pub proof fn law_one_good_address_is_enough<T>(results: Seq<Result<T, Error>>, i: int)
    requires
        0 <= i < results.len(),
        results[i] is Ok,
    ensures
        first_success(results) is Ok,
    decreases results.len(),
{
    if results[0] is Err {
        assert(results.drop_first()[i - 1] == results[i]);
        law_one_good_address_is_enough(results.drop_first(), i - 1);
    }
}

/// The first address that is good counts, whatever comes after it.
pub proof fn law_the_first_good_address_counts<T>(results: Seq<Result<T, Error>>, i: int)
    requires
        0 <= i < results.len(),
        results[i] is Ok,
        forall|j: int| 0 <= j < i ==> #[trigger] results[j] is Err,
    ensures
        first_success(results) == results[i],
    decreases i,
{
    if i > 0 {
        let rest = results.drop_first();
        assert(results[0] is Err);
        assert(rest[i - 1] == results[i]);
        assert forall|j: int| 0 <= j < i - 1 implies #[trigger] rest[j] is Err by {
            assert(rest[j] == results[j + 1]);
        }
        law_the_first_good_address_counts(rest, i - 1);
    }
}

/// Where all addresses fail the last error is told, and where there are none that there are none.
pub proof fn law_the_last_error_is_told<T>(results: Seq<Result<T, Error>>)
    requires
        forall|j: int| 0 <= j < results.len() ==> #[trigger] results[j] is Err,
    ensures
        results.len() > 0 ==> first_success(results) == results.last(),
        results.len() == 0 ==> first_success(results) == Err::<T, Error>(
            Error::Custom(ErrorKind::InvalidInput, "no addresses"),
        ),
        no_addresses() == Error::Custom(ErrorKind::InvalidInput, "no addresses"),
    decreases results.len(),
{
    if results.len() > 1 {
        let rest = results.drop_first();
        assert(results[0] is Err);
        assert forall|j: int| 0 <= j < rest.len() implies #[trigger] rest[j] is Err by {
            assert(rest[j] == results[j + 1]);
        }
        law_the_last_error_is_told(rest);
        assert(rest.last() == results.last());
    } else if results.len() == 1 {
        assert(results[0] is Err);
    }
}

} // verus!
