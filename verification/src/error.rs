//! What can go wrong.
use vstd::prelude::*;

verus! {

/// A refusal of the runtime, in its words.
#[derive(Clone, PartialEq, Eq, Debug)]
pub struct RuntimeError(pub String);

/// What can go wrong while an application is built, set up or run.
#[derive(PartialEq, Eq, Debug)]
pub enum Error {
    /// The runtime refused a request.
    Runtime(RuntimeError),
    /// The setup hook failed.
    Setup(Box<Error>),
    /// Anything else that the host reports, in its words.
    Other(String),
}

impl From<RuntimeError> for Error {
    fn from(error: RuntimeError) -> (converted: Self) {
        Error::Runtime(error)
    }
}

impl vstd::std_specs::convert::FromSpecImpl<RuntimeError> for Error {
    open spec fn obeys_from_spec() -> bool {
        true
    }

    open spec fn from_spec(error: RuntimeError) -> Self {
        Error::Runtime(error)
    }
}

/// What the caller hears of the answer of the runtime: a value as it is, and a refusal as an
/// [`Error::Runtime`].
pub open spec fn runtime_result<T>(answer: Result<T, RuntimeError>) -> Result<T, Error> {
    match answer {
        Ok(value) => Ok(value),
        Err(error) => Err(Error::Runtime(error)),
    }
}

/// Hands the answer of the runtime on to the caller.
pub fn hand_on<T>(answer: Result<T, RuntimeError>) -> (result: Result<T, Error>)
    ensures
        result == runtime_result(answer),
{
    match answer {
        Ok(value) => Ok(value),
        Err(error) => Err(Error::from(error)),
    }
}

/// A value of the runtime reaches the caller as it is, and a refusal as what it is.
pub proof fn law_answers_are_handed_on<T>(answer: Result<T, RuntimeError>)
    ensures
        match runtime_result(answer) {
            Ok(value) => answer == Ok::<T, RuntimeError>(value),
            Err(Error::Runtime(error)) => answer == Err::<T, RuntimeError>(error),
            Err(_) => false,
        },
{
}

} // verus!
