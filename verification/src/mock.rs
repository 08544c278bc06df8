//! A transport that needs no native library: it accepts the operations that
//! the library knows and answers the connect handshake with a fixed session.

use crate::client::{AbstractQvOpenApiClient, QvOpenApiRequest};
use crate::error::QvOpenApiError;
use crate::models::connect::{
    AccountInfoResponse, AccountType, ConnectResponse, TR_CODE_CONNECT,
};
use crate::models::query::TR_CODE_C8201;
use vstd::prelude::*;

verus! {

/// What the mock answers to a request that it does not know.
pub const UNSUPPORTED_MOCK_REQUEST: &'static str = "Not supported mock request";

/// The mock transport.
#[derive(Debug, Clone, Copy, PartialEq, Eq)]
pub struct MockQvOpenApiClient {}

/// Whether `answer` is what the mock answers to a request with the
/// transaction code `tr_code`: it takes the connect request and the account
/// balance query, and refuses every other with a `BadRequestError`.
pub open spec fn mock_answers(tr_code: Seq<char>, answer: Result<(), QvOpenApiError>) -> bool {
    if tr_code == TR_CODE_CONNECT@ || tr_code == TR_CODE_C8201@ {
        answer == Ok::<(), QvOpenApiError>(())
    } else {
        answer matches Err(QvOpenApiError::BadRequestError { message }) && message@
            == UNSUPPORTED_MOCK_REQUEST@
    }
}

impl MockQvOpenApiClient {
    pub fn new() -> (client: MockQvOpenApiClient)
        ensures
            client == (MockQvOpenApiClient {  }),
    {
        MockQvOpenApiClient {  }
    }

    /// Whether the mock takes a request with the transaction code `tr_code`:
    /// it takes the connect request and the account balance query, and
    /// refuses every other with a `BadRequestError`.
    pub fn accepts(tr_code: &str) -> (accepted: Result<(), QvOpenApiError>)
        ensures
            mock_answers(tr_code@, accepted),
    {
        let code = tr_code.to_owned();
        if code == TR_CODE_CONNECT.to_owned() || code == TR_CODE_C8201.to_owned() {
            Ok(())
        } else {
            Err(QvOpenApiError::BadRequestError { message: UNSUPPORTED_MOCK_REQUEST.to_owned() })
        }
    }
}

impl AbstractQvOpenApiClient for MockQvOpenApiClient {
    /// The mock takes every connect handshake.
    fn connect(
        &self,
        new_hwnd: isize,
        account_type: AccountType,
        id: &str,
        password: &str,
        cert_password: &str,
    ) -> (started: Result<(), QvOpenApiError>)
        ensures
            started == Ok::<(), QvOpenApiError>(()),
    {
        Ok(())
    }

    /// The mock lets every session end.
    fn disconnect(&self) -> (ended: Result<(), QvOpenApiError>)
        ensures
            ended == Ok::<(), QvOpenApiError>(()),
    {
        Ok(())
    }

    /// The mock answers a request by the transaction code that the request
    /// gives of itself.
    fn query<R: QvOpenApiRequest + 'static>(&self, tr_index: i32, req: R) -> (posted: Result<
        (),
        QvOpenApiError,
    >)
        ensures
            exists|tr_code: &str|
                call_ensures(R::get_tr_code, (&req,), tr_code) && #[trigger] mock_answers(
                    tr_code@,
                    posted,
                ),
    {
        let tr_code = req.get_tr_code();
        let posted = MockQvOpenApiClient::accepts(tr_code);
        assert(call_ensures(R::get_tr_code, (&req,), tr_code) && mock_answers(tr_code@, posted));
        posted
    }
}

/// The session with which the mock answers the connect handshake: one
/// account, logged in at `login_timestamp`.
pub fn make_connect_response(login_timestamp: i64) -> (response: ConnectResponse)
    ensures
        response.login_timestamp == login_timestamp,
        response.server_name@ == "htsd49"@,
        response.user_id@ == "mockid"@,
        response.account_count == 1,
        response.account_infoes@.len() == 1,
        response.account_infoes@[0].account_no@ == "1234567"@,
        response.account_infoes@[0].account_name@ == "accountname"@,
        response.account_infoes@[0].act_pdt_cdz3@ == ""@,
        response.account_infoes@[0].amn_tab_cdz4@ == ""@,
        response.account_infoes@[0].expr_datez8@ == "20230505"@,
        !response.account_infoes@[0].bulk_granted,
{
    let mut account_infoes: Vec<AccountInfoResponse> = Vec::new();
    account_infoes.push(
        AccountInfoResponse {
            account_no: "1234567".to_owned(),
            account_name: "accountname".to_owned(),
            act_pdt_cdz3: "".to_owned(),
            amn_tab_cdz4: "".to_owned(),
            expr_datez8: "20230505".to_owned(),
            bulk_granted: false,
        },
    );
    ConnectResponse {
        login_timestamp,
        server_name: "htsd49".to_owned(),
        user_id: "mockid".to_owned(),
        account_count: account_infoes.len(),
        account_infoes,
    }
}

} // verus!
