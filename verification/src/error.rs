//! The error type shared by every layer of the library.

use vstd::prelude::*;

verus! {

/// Everything that can go wrong between a consumer and the native transport.
///
/// Registration failures (`DuplicateIndexError`, `AlreadyInProgressError`,
/// `TransactionPoolFullError`) are returned synchronously by the call that
/// issues a request. The remaining engine errors (`NotConnectedError`,
/// `RequestTimeoutError`, `QvApiMessageError`, `UnknownError`) classify how a
/// registered transaction ended.
#[derive(Debug, PartialEq, Eq)]
pub enum QvOpenApiError {
    BadRequestError { message: String },
    WmcaDllLoadingError,
    WindowCreationError,
    WindowAlreadyCreatedError,
    WindowNotCreatedError,
    WindowUnknownEventError { wparam: usize },
    EventUnimplementedError { event: String },
    ReturnCodeError { code: i32 },
    NotConnectedError,
    QvApiMessageError { message_code: String, message: String },
    ParseDateTimeError,
    ParseNumberError { input: String },
    ParseRatioError { input: String },
    AlreadyConnectedError,
    UnimplementedBlockError { block_name: String },
    TransactionPoolFullError,
    JsonParseError { message: String },
    /// The correlation index is already owned by a live transaction.
    DuplicateIndexError { tr_index: i32 },
    /// A connect handshake is already outstanding.
    AlreadyInProgressError,
    /// The liveness sweeper ended the transaction.
    RequestTimeoutError,
    /// The engine was torn down while the transaction was live.
    UnknownError,
}

impl Clone for QvOpenApiError {
    fn clone(&self) -> (copy: Self)
        ensures
            copy == *self,
    {
        match self {
            QvOpenApiError::BadRequestError { message } => QvOpenApiError::BadRequestError {
                message: message.clone(),
            },
            QvOpenApiError::WmcaDllLoadingError => QvOpenApiError::WmcaDllLoadingError,
            QvOpenApiError::WindowCreationError => QvOpenApiError::WindowCreationError,
            QvOpenApiError::WindowAlreadyCreatedError => QvOpenApiError::WindowAlreadyCreatedError,
            QvOpenApiError::WindowNotCreatedError => QvOpenApiError::WindowNotCreatedError,
            QvOpenApiError::WindowUnknownEventError { wparam } => {
                QvOpenApiError::WindowUnknownEventError { wparam: *wparam }
            },
            QvOpenApiError::EventUnimplementedError { event } => {
                QvOpenApiError::EventUnimplementedError { event: event.clone() }
            },
            QvOpenApiError::ReturnCodeError { code } => QvOpenApiError::ReturnCodeError {
                code: *code,
            },
            QvOpenApiError::NotConnectedError => QvOpenApiError::NotConnectedError,
            QvOpenApiError::QvApiMessageError { message_code, message } => {
                QvOpenApiError::QvApiMessageError {
                    message_code: message_code.clone(),
                    message: message.clone(),
                }
            },
            QvOpenApiError::ParseDateTimeError => QvOpenApiError::ParseDateTimeError,
            QvOpenApiError::ParseNumberError { input } => QvOpenApiError::ParseNumberError {
                input: input.clone(),
            },
            QvOpenApiError::ParseRatioError { input } => QvOpenApiError::ParseRatioError {
                input: input.clone(),
            },
            QvOpenApiError::AlreadyConnectedError => QvOpenApiError::AlreadyConnectedError,
            QvOpenApiError::UnimplementedBlockError { block_name } => {
                QvOpenApiError::UnimplementedBlockError { block_name: block_name.clone() }
            },
            QvOpenApiError::TransactionPoolFullError => QvOpenApiError::TransactionPoolFullError,
            QvOpenApiError::JsonParseError { message } => QvOpenApiError::JsonParseError {
                message: message.clone(),
            },
            QvOpenApiError::DuplicateIndexError { tr_index } => {
                QvOpenApiError::DuplicateIndexError { tr_index: *tr_index }
            },
            QvOpenApiError::AlreadyInProgressError => QvOpenApiError::AlreadyInProgressError,
            QvOpenApiError::RequestTimeoutError => QvOpenApiError::RequestTimeoutError,
            QvOpenApiError::UnknownError => QvOpenApiError::UnknownError,
        }
    }
}

/// The HTTP status for a request that the library could not parse or that
/// came at the wrong time.
pub const STATUS_BAD_REQUEST: u16 = 400;

/// The HTTP status for every other failure.
pub const STATUS_INTERNAL_SERVER_ERROR: u16 = 500;

/// The HTTP status under which an error is reported: a connect request on an
/// open session is the caller's mistake, everything else the server's.
pub fn convert_error(err: &QvOpenApiError) -> (status: u16)
    ensures
        status == if err is AlreadyConnectedError {
            STATUS_BAD_REQUEST
        } else {
            STATUS_INTERNAL_SERVER_ERROR
        },
{
    match err {
        QvOpenApiError::AlreadyConnectedError => STATUS_BAD_REQUEST,
        _ => STATUS_INTERNAL_SERVER_ERROR,
    }
}

} // verus!
