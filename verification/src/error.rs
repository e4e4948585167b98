//! Failures: what went wrong, and whether the same attempt is worth making
//! again.

use vstd::prelude::*;

verus! {

/// What a failure says.
#[verifier::ext_equal]
pub struct Failure {
    pub message: Seq<char>,
    pub retryable: bool,
}

/// A failure that comes again however often the attempt is made.
pub open spec fn lasting(message: Seq<char>) -> Failure {
    Failure { message, retryable: false }
}

/// A failure that a later attempt may not meet.
pub open spec fn passing(message: Seq<char>) -> Failure {
    Failure { message, retryable: true }
}

#[derive(Debug, PartialEq, Eq)]
pub struct TransportError {
    pub message: String,
    pub retryable: bool,
}

impl View for TransportError {
    type V = Failure;

    open spec fn view(&self) -> Failure {
        Failure { message: self.message@, retryable: self.retryable }
    }
}

impl TransportError {
    /// A failure that repeating the attempt does not mend.
    #[must_use]
    pub fn permanent(message: &str) -> (error: Self)
        ensures
            error@ == lasting(message@),
    {
        Self { message: message.to_owned(), retryable: false }
    }

    /// A failure worth another attempt.
    #[must_use]
    pub fn retryable(message: &str) -> (error: Self)
        ensures
            error@ == passing(message@),
    {
        Self { message: message.to_owned(), retryable: true }
    }
}

/// The other side did not keep to the protocol. Sent again, the same would
/// be refused again.
#[must_use]
pub fn protocol_error(message: &str) -> (error: TransportError)
    ensures
        error@ == lasting(message@),
{
    TransportError::permanent(message)
}

/// A failure says its message, and whether the attempt is worth making again.
pub proof fn law_a_failure_says_what_it_holds(error: TransportError, message: Seq<char>)
    ensures
        error@.message == error.message@,
        error@.retryable == error.retryable,
        lasting(message).message == message,
        !lasting(message).retryable,
        passing(message).message == message,
        passing(message).retryable,
{
}

} // verus!
