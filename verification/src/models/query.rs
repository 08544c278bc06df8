//! Query transactions: the requests a consumer posts and the data blocks the
//! transport answers with.

use crate::error::QvOpenApiError;
use serde_json::Value;
use vstd::prelude::*;

verus! {

/// The transaction code of the account balance query.
pub const TR_CODE_C8201: &'static str = "c8201";

/// The block that carries the balance summary.
pub const BLOCK_NAME_C8201_OUT: &'static str = "c8201OutBlock";

/// The block that carries the list of holdings.
pub const BLOCK_NAME_C8201_OUT1_ARRAY: &'static str = "c8201OutBlock1";

/// `serde_json::Value`: a decoded payload. The library never looks inside one;
/// it stores payloads under their block names and hands them back.
#[verifier::external_type_specification]
#[verifier::external_body]
pub struct ExValue(Value);

/// `<serde_json::Value as Clone>::clone`, which `serde_json` derives: the copy
/// is the same JSON value as the one it was made from.
pub assume_specification[ <Value as Clone>::clone ](value: &Value) -> (copy: Value)
    ensures
        copy == *value,
;

/// One block of data delivered for a query transaction.
#[derive(Debug, PartialEq, Eq)]
pub struct DataResponse {
    pub tr_index: i32,
    pub block_name: String,
    pub block_len: i32,
    pub block_data: Value,
}

impl Clone for DataResponse {
    fn clone(&self) -> (copy: Self)
        ensures
            copy == *self,
    {
        DataResponse {
            tr_index: self.tr_index,
            block_name: self.block_name.clone(),
            block_len: self.block_len,
            block_data: self.block_data.clone(),
        }
    }
}

/// A query whose input block is already laid out for the transport.
pub struct RawQueryRequest<T: ?Sized> {
    pub tr_code: &'static str,
    pub account_index: i32,
    pub raw_input: Box<T>,
}

impl<T> RawQueryRequest<T> {
    pub fn new(tr_code: &'static str, account_index: i32, raw_input: Box<T>) -> (request:
        RawQueryRequest<T>)
        ensures
            request.tr_code == tr_code,
            request.account_index == account_index,
            request.raw_input == raw_input,
    {
        RawQueryRequest { tr_code, account_index, raw_input }
    }

    /// The transaction code the request was made with.
    pub fn get_tr_code(&self) -> (code: &'static str)
        ensures
            code == self.tr_code,
    {
        self.tr_code
    }
}

/// A query that carries its own correlation index.
pub struct QueryRequest<T: ?Sized> {
    pub tr_index: i32,
    pub tr_code: &'static str,
    pub input: Box<T>,
    pub account_index: i32,
}

impl<T> QueryRequest<T> {
    /// The transaction code the request was made with.
    pub fn get_tr_code(&self) -> (code: &'static str)
        ensures
            code == self.tr_code,
    {
        self.tr_code
    }

    /// The correlation index the request was made with.
    pub fn get_tr_index(&self) -> (tr_index: i32)
        ensures
            tr_index == self.tr_index,
    {
        self.tr_index
    }
}

/// The request that ends the session.
#[derive(Debug, Clone, Copy, PartialEq, Eq)]
pub struct DisconnectRequest {}

/// The answer to a query that carries no data of its own.
#[derive(Debug, Clone, Copy, PartialEq, Eq)]
pub struct QueryResponse {}

/// The account balance query.
#[derive(Debug, Clone, Copy, PartialEq, Eq)]
pub struct C8201Request {
    pub account_index: i32,
    pub balance_type: char,
}

impl C8201Request {
    pub fn new(account_index: i32, balance_type: char) -> (request: C8201Request)
        ensures
            request.account_index == account_index,
            request.balance_type == balance_type,
    {
        C8201Request { account_index, balance_type }
    }
}

/// The input block of the account balance query, as the transport lays it
/// out: each field is followed by one separator.
#[derive(Debug, Clone, Copy, PartialEq, Eq)]
pub struct Tc8201InBlock {
    /// The password of the account; the native library fills it in.
    pub pswd_noz44: [u8; 44],
    pub _pswd_noz44: u8,
    /// The kind of balance asked for.
    pub bnc_bse_cdz1: [u8; 1],
    pub _bnc_bse_cdz1: u8,
}

/// The blank that fills the unused places of an input block.
pub const BLANK: u8 = 0x20;

impl C8201Request {
    /// The request as the transport takes it: the password left blank, the
    /// kind of balance as one byte, the low byte of its character.
    pub fn into_raw(&self) -> (raw: RawQueryRequest<Tc8201InBlock>)
        ensures
            raw.tr_code@ == TR_CODE_C8201@,
            raw.account_index == self.account_index,
            forall|i: int| 0 <= i < 44 ==> raw.raw_input.pswd_noz44[i] == BLANK,
            raw.raw_input._pswd_noz44 == BLANK,
            raw.raw_input.bnc_bse_cdz1[0] == (self.balance_type as u32 % 256) as u8,
            raw.raw_input._bnc_bse_cdz1 == BLANK,
    {
        let code = self.balance_type as u32;
        let kind = (code % 256) as u8;
        RawQueryRequest::new(
            TR_CODE_C8201,
            self.account_index,
            Box::new(
                Tc8201InBlock {
                    pswd_noz44: [BLANK;44],
                    _pswd_noz44: BLANK,
                    bnc_bse_cdz1: [kind],
                    _bnc_bse_cdz1: BLANK,
                },
            ),
        )
    }
}

/// The blocks of data that the library knows how to decode.
#[derive(Debug, Clone, Copy, PartialEq, Eq)]
pub enum BlockKind {
    /// The balance summary.
    C8201Out,
    /// The list of holdings.
    C8201Out1Array,
}

/// Which decoder a block of the name `block_name` takes. A name that the
/// library does not know is an `UnimplementedBlockError` that carries it.
pub fn parse_block(block_name: &str) -> (kind: Result<BlockKind, QvOpenApiError>)
    ensures
        block_name@ == BLOCK_NAME_C8201_OUT@ ==> kind == Ok::<BlockKind, QvOpenApiError>(
            BlockKind::C8201Out,
        ),
        block_name@ != BLOCK_NAME_C8201_OUT@ && block_name@ == BLOCK_NAME_C8201_OUT1_ARRAY@
            ==> kind == Ok::<BlockKind, QvOpenApiError>(BlockKind::C8201Out1Array),
        block_name@ != BLOCK_NAME_C8201_OUT@ && block_name@ != BLOCK_NAME_C8201_OUT1_ARRAY@
            ==> (kind matches Err(QvOpenApiError::UnimplementedBlockError { block_name: name })
            && name@ == block_name@),
{
    let name = block_name.to_owned();
    if name == BLOCK_NAME_C8201_OUT.to_owned() {
        Ok(BlockKind::C8201Out)
    } else if name == BLOCK_NAME_C8201_OUT1_ARRAY.to_owned() {
        Ok(BlockKind::C8201Out1Array)
    } else {
        Err(QvOpenApiError::UnimplementedBlockError { block_name: name })
    }
}

/// Assembles the data block that the transport attached to `tr_index` from
/// its decoded parts.
pub fn parse_data(tr_index: i32, block_name: String, block_len: i32, block_data: Value) -> (response:
    DataResponse)
    ensures
        response == (DataResponse { tr_index, block_name, block_len, block_data }),
{
    DataResponse { tr_index, block_name, block_len, block_data }
}

} // verus!
