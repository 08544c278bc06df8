//! What the answers of the native library mean.
//!
//! The calls into the library are made by the caller; each function here
//! takes what a call returned.

use crate::error::QvOpenApiError;
use vstd::prelude::*;

verus! {

/// The meaning of a return code of the native library. The library's codes
/// have not proved reliable as a sign of failure, so every code counts as
/// success.
pub fn c_bool_to_result(val: i32) -> (result: Result<(), QvOpenApiError>)
    ensures
        result == Ok::<(), QvOpenApiError>(()),
{
    Ok(())
}

/// Whether the library reports a session, from the answer of its
/// `is_connected` call, or the error with which the library could not be
/// reached.
pub fn is_connected(answer: Result<i32, QvOpenApiError>) -> (connected: Result<bool, QvOpenApiError>)
    ensures
        connected == match answer {
            Ok(code) => Ok::<bool, QvOpenApiError>(code != 0),
            Err(error) => Err::<bool, QvOpenApiError>(error),
        },
{
    match answer {
        Ok(code) => Ok(code != 0),
        Err(error) => Err(error),
    }
}

/// Demands a session: with `connected` the answer of `is_connected`, the
/// lack of a session is `NotConnectedError`.
pub fn assert_connected(connected: Result<bool, QvOpenApiError>) -> (checked: Result<
    (),
    QvOpenApiError,
>)
    ensures
        checked == match connected {
            Ok(true) => Ok::<(), QvOpenApiError>(()),
            Ok(false) => Err::<(), QvOpenApiError>(QvOpenApiError::NotConnectedError),
            Err(error) => Err::<(), QvOpenApiError>(error),
        },
{
    match connected {
        Ok(true) => Ok(()),
        Ok(false) => Err(QvOpenApiError::NotConnectedError),
        Err(error) => Err(error),
    }
}

/// Demands that there be no session yet, as a connect request does: with
/// `connected` the answer of `is_connected`, a session is
/// `AlreadyConnectedError`.
pub fn assert_not_connected(connected: Result<bool, QvOpenApiError>) -> (checked: Result<
    (),
    QvOpenApiError,
>)
    ensures
        checked == match connected {
            Ok(true) => Err::<(), QvOpenApiError>(QvOpenApiError::AlreadyConnectedError),
            Ok(false) => Ok::<(), QvOpenApiError>(()),
            Err(error) => Err::<(), QvOpenApiError>(error),
        },
{
    match connected {
        Ok(true) => Err(QvOpenApiError::AlreadyConnectedError),
        Ok(false) => Ok(()),
        Err(error) => Err(error),
    }
}

/// The outcome of setting the server, from the answer of the library's call.
pub fn set_server(answer: Result<i32, QvOpenApiError>) -> (outcome: Result<(), QvOpenApiError>)
    ensures
        outcome == match answer {
            Ok(_) => Ok::<(), QvOpenApiError>(()),
            Err(error) => Err::<(), QvOpenApiError>(error),
        },
{
    match answer {
        Ok(code) => c_bool_to_result(code),
        Err(error) => Err(error),
    }
}

/// The outcome of setting the port, from the answer of the library's call.
pub fn set_port(answer: Result<i32, QvOpenApiError>) -> (outcome: Result<(), QvOpenApiError>)
    ensures
        outcome == match answer {
            Ok(_) => Ok::<(), QvOpenApiError>(()),
            Err(error) => Err::<(), QvOpenApiError>(error),
        },
{
    match answer {
        Ok(code) => c_bool_to_result(code),
        Err(error) => Err(error),
    }
}

} // verus!
