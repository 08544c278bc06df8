//! Free-text notices and error reports that the transport attaches to a
//! correlation index.

use crate::error::QvOpenApiError;
use crate::utils::{cp949_decoded, from_cp949, trim, trimmed, until_nul};
use vstd::prelude::*;

verus! {

/// An informational message of the transport.
#[derive(Debug, PartialEq, Eq)]
pub struct MessageResponse {
    pub tr_index: i32,
    pub msg_code: String,
    pub msg: String,
}

impl Clone for MessageResponse {
    fn clone(&self) -> (copy: Self)
        ensures
            copy == *self,
    {
        MessageResponse {
            tr_index: self.tr_index,
            msg_code: self.msg_code.clone(),
            msg: self.msg.clone(),
        }
    }
}

/// An error event of the transport.
#[derive(Debug, PartialEq, Eq)]
pub struct ErrorResponse {
    pub tr_index: i32,
    pub error_msg: String,
}

impl Clone for ErrorResponse {
    fn clone(&self) -> (copy: Self)
        ensures
            copy == *self,
    {
        ErrorResponse { tr_index: self.tr_index, error_msg: self.error_msg.clone() }
    }
}

/// The message that the transport attached to `tr_index`, from the two
/// fields of its header: the code as it stands, the text without its
/// padding.
pub fn parse_message(tr_index: i32, message_code: &[u8], message: &[u8]) -> (response: Result<
    MessageResponse,
    QvOpenApiError,
>)
    ensures
        response matches Ok(found) && found.tr_index == tr_index && found.msg_code@
            == cp949_decoded(until_nul(message_code@)) && found.msg@ == trimmed(
            cp949_decoded(until_nul(message@)),
        ),
{
    let msg_code = from_cp949(message_code);
    let text = from_cp949(message);
    let msg = trim(text.as_str()).to_owned();
    Ok(MessageResponse { tr_index, msg_code, msg })
}

/// The error event that the transport attached to `tr_index`, from its
/// text, without the padding around it.
pub fn parse_error(tr_index: i32, error_msg: &[u8]) -> (response: Result<
    ErrorResponse,
    QvOpenApiError,
>)
    ensures
        response matches Ok(found) && found.tr_index == tr_index && found.error_msg@ == trimmed(
            cp949_decoded(until_nul(error_msg@)),
        ),
{
    let text = from_cp949(error_msg);
    let error_msg = trim(text.as_str()).to_owned();
    Ok(ErrorResponse { tr_index, error_msg })
}

} // verus!
