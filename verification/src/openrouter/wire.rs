//! Shared helpers for reading hand-written wire formats.

use vstd::prelude::*;
use crate::text::str_eq;

verus! {

/// Why a value could not be read from its wire form.
#[derive(Clone, Debug, PartialEq, Eq)]
pub enum WireError {
    /// The `type` tag was missing or held another value than the one
    /// expected; carries the expected value.
    UnexpectedType(String),
    /// A required field was absent; carries its name.
    MissingField(String),
    /// A keyword was not one of the accepted ones; carries the keyword.
    UnknownVariant(String),
}

/// Whether an optional string is present and equal to `expected`.
pub fn opt_is(value: &Option<String>, expected: &str) -> (r: bool)
    ensures
        r == (value is Some && value->0@ == expected@),
{
    match value {
        Some(v) => str_eq(v.as_str(), expected),
        None => false,
    }
}

/// The error for a `type` tag that is not `expected`.
pub fn unexpected_type(expected: &str) -> (r: WireError)
    ensures
        r matches WireError::UnexpectedType(t) && t@ == expected@,
{
    WireError::UnexpectedType(expected.to_owned())
}

/// The error for a missing field called `name`.
pub fn missing_field(name: &str) -> (r: WireError)
    ensures
        r matches WireError::MissingField(t) && t@ == name@,
{
    WireError::MissingField(name.to_owned())
}

/// Why a response did not give the expected value.
#[derive(Clone, Debug, PartialEq, Eq)]
pub enum ResponseFailure<A, P> {
    /// The API reported an error.
    Api(A),
    /// The body could not be read.
    Parse(P),
}

/// The result of a response, from its status and from reading its body
/// as the expected value and as an API error: on success the value, or,
/// when the body is not such a value, the API error it holds, or else why
/// it could not be read as the value; on any other status the API error,
/// or why the body could not be read as one.
pub fn response_result<T, A, P>(status_ok: bool, as_value: Result<T, P>, as_error: Result<A, P>) -> (r: Result<T, ResponseFailure<A, P>>)
    ensures
        status_ok ==> match as_value {
            Ok(t) => r == Ok::<T, ResponseFailure<A, P>>(t),
            Err(p) => match as_error {
                Ok(a) => r == Err::<T, ResponseFailure<A, P>>(ResponseFailure::Api(a)),
                Err(_) => r == Err::<T, ResponseFailure<A, P>>(ResponseFailure::Parse(p)),
            },
        },
        !status_ok ==> match as_error {
            Ok(a) => r == Err::<T, ResponseFailure<A, P>>(ResponseFailure::Api(a)),
            Err(q) => r == Err::<T, ResponseFailure<A, P>>(ResponseFailure::Parse(q)),
        },
{
    if status_ok {
        match as_value {
            Ok(t) => Ok(t),
            Err(p) => match as_error {
                Ok(a) => Err(ResponseFailure::Api(a)),
                Err(_) => Err(ResponseFailure::Parse(p)),
            },
        }
    } else {
        match as_error {
            Ok(a) => Err(ResponseFailure::Api(a)),
            Err(q) => Err(ResponseFailure::Parse(q)),
        }
    }
}

} // verus!
