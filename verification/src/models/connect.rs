//! The connect handshake: its request, and the session it yields.

use crate::error::QvOpenApiError;
use crate::utils::{
    count_of, cp949_decoded, from_cp949, parse_count_text, trim, trimmed, until_nul,
};
use chrono::{FixedOffset, ParseError, TimeZone};
use vstd::prelude::*;

verus! {

/// The correlation index reserved for the connect handshake.
pub const TR_INDEX_CONNECT: i32 = 1;

/// The transaction code under which a connect request is posted.
pub const TR_CODE_CONNECT: &'static str = "_connect";

/// Which brokerage front end the session logs into.
#[allow(non_camel_case_types)]
#[derive(Debug, Clone, Copy, PartialEq, Eq)]
pub enum AccountType {
    QV,
    NAMUH,
}

/// Credentials for a connect handshake.
#[derive(Debug, PartialEq, Eq)]
pub struct ConnectRequest {
    pub account_type: AccountType,
    pub id: String,
    pub password: String,
    pub cert_password: String,
}

impl ConnectRequest {
    /// The transaction code of a connect request.
    pub fn get_tr_code(&self) -> (code: &'static str)
        ensures
            code@ == TR_CODE_CONNECT@,
    {
        TR_CODE_CONNECT
    }
}

impl Clone for ConnectRequest {
    fn clone(&self) -> (copy: Self)
        ensures
            copy == *self,
    {
        ConnectRequest {
            account_type: self.account_type,
            id: self.id.clone(),
            password: self.password.clone(),
            cert_password: self.cert_password.clone(),
        }
    }
}

/// One account of the logged-in user.
#[derive(Debug, PartialEq, Eq)]
pub struct AccountInfoResponse {
    pub account_no: String,
    pub account_name: String,
    pub act_pdt_cdz3: String,
    pub amn_tab_cdz4: String,
    pub expr_datez8: String,
    pub bulk_granted: bool,
}

impl Clone for AccountInfoResponse {
    fn clone(&self) -> (copy: Self)
        ensures
            copy == *self,
    {
        AccountInfoResponse {
            account_no: self.account_no.clone(),
            account_name: self.account_name.clone(),
            act_pdt_cdz3: self.act_pdt_cdz3.clone(),
            amn_tab_cdz4: self.amn_tab_cdz4.clone(),
            expr_datez8: self.expr_datez8.clone(),
            bulk_granted: self.bulk_granted,
        }
    }
}

/// The session that a successful connect handshake reports.
#[derive(Debug, PartialEq, Eq)]
pub struct ConnectResponse {
    pub login_timestamp: i64,
    pub server_name: String,
    pub user_id: String,
    pub account_count: usize,
    pub account_infoes: Vec<AccountInfoResponse>,
}

/// What a `ConnectResponse` holds, with its account list as a sequence.
pub struct ConnectResponseView {
    pub login_timestamp: i64,
    pub server_name: String,
    pub user_id: String,
    pub account_count: usize,
    pub account_infoes: Seq<AccountInfoResponse>,
}

impl View for ConnectResponse {
    type V = ConnectResponseView;

    open spec fn view(&self) -> ConnectResponseView {
        ConnectResponseView {
            login_timestamp: self.login_timestamp,
            server_name: self.server_name,
            user_id: self.user_id,
            account_count: self.account_count,
            account_infoes: self.account_infoes@,
        }
    }
}

impl Clone for ConnectResponse {
    fn clone(&self) -> (copy: Self)
        ensures
            copy@ == self@,
    {
        let mut account_infoes: Vec<AccountInfoResponse> = Vec::new();
        let mut i: usize = 0;
        while i < self.account_infoes.len()
            invariant
                i <= self.account_infoes.len(),
                account_infoes@ == self.account_infoes@.take(i as int),
            decreases self.account_infoes.len() - i,
        {
            account_infoes.push(self.account_infoes[i].clone());
            i = i + 1;
        }
        assert(account_infoes@ =~= self.account_infoes@);
        ConnectResponse {
            login_timestamp: self.login_timestamp,
            server_name: self.server_name.clone(),
            user_id: self.user_id.clone(),
            account_count: self.account_count,
            account_infoes,
        }
    }
}

/// The offset of the time of Seoul from UTC, in seconds.
pub const SEOUL_OFFSET_SECONDS: i32 = 32_400;

/// The format in which the transport writes the time of the login.
pub const LOGIN_DATETIME_FORMAT: &'static str = "%Y%m%d%H%M%S";

/// `chrono::ParseError`: why a text is no date and time. The library maps
/// every such error to `ParseDateTimeError`.
#[verifier::external_type_specification]
#[verifier::external_body]
pub struct ExParseError(ParseError);

/// The seconds since the Unix epoch of the local date and time that `text`
/// writes in the `strftime` format `format`, at `offset_seconds` east of UTC;
/// `None` where `text` does not match the format or writes no such time.
pub uninterp spec fn timestamp_of(text: Seq<char>, format: Seq<char>, offset_seconds: int) -> Option<
    i64,
>;

/// `chrono::TimeZone::datetime_from_str` on `chrono::FixedOffset::east_opt`
/// of `offset_seconds`, then `DateTime::timestamp`: the time that `text`
/// writes in `format` at that offset. The offset must lie within a day, as
/// `east_opt` demands. The result depends on the three arguments alone.
#[verifier::external_body]
fn parse_timestamp(text: &str, format: &str, offset_seconds: i32) -> (parsed: Result<
    i64,
    ParseError,
>)
    requires
        -86_400 < offset_seconds < 86_400,
    ensures
        timestamp_of(text@, format@, offset_seconds as int) == match parsed {
            Ok(timestamp) => Some(timestamp),
            Err(_) => None::<i64>,
        },
{
    #[allow(deprecated)]
    let parsed = FixedOffset::east_opt(offset_seconds).unwrap().datetime_from_str(text, format);
    match parsed {
        Ok(datetime) => Ok(datetime.timestamp()),
        Err(error) => Err(error),
    }
}

/// One account as the transport lays it out in the login block.
#[derive(Debug, Clone, PartialEq, Eq)]
pub struct RawAccountInfo {
    pub account_no: Vec<u8>,
    pub account_name: Vec<u8>,
    pub act_pdt_cdz3: Vec<u8>,
    pub amn_tab_cdz4: Vec<u8>,
    pub expr_datez8: Vec<u8>,
    pub granted: u8,
}

/// The mark of an account for which bulk orders are allowed.
pub const GRANTED_MARK: u8 = 0x47;

/// Whether `account` is what the raw account `raw` decodes to.
pub open spec fn account_of(raw: RawAccountInfo, account: AccountInfoResponse) -> bool {
    &&& account.account_no@ == cp949_decoded(until_nul(raw.account_no@))
    &&& account.account_name@ == trimmed(cp949_decoded(until_nul(raw.account_name@)))
    &&& account.act_pdt_cdz3@ == cp949_decoded(until_nul(raw.act_pdt_cdz3@))
    &&& account.amn_tab_cdz4@ == cp949_decoded(until_nul(raw.amn_tab_cdz4@))
    &&& account.expr_datez8@ == trimmed(cp949_decoded(until_nul(raw.expr_datez8@)))
    &&& account.bulk_granted == (raw.granted == GRANTED_MARK)
}

/// Decodes one account of the login block.
pub fn parse_account(raw: &RawAccountInfo) -> (account: AccountInfoResponse)
    ensures
        account_of(*raw, account),
{
    let account_name = from_cp949(raw.account_name.as_slice());
    let expr_datez8 = from_cp949(raw.expr_datez8.as_slice());
    AccountInfoResponse {
        account_no: from_cp949(raw.account_no.as_slice()),
        account_name: trim(account_name.as_str()).to_owned(),
        act_pdt_cdz3: from_cp949(raw.act_pdt_cdz3.as_slice()),
        amn_tab_cdz4: from_cp949(raw.amn_tab_cdz4.as_slice()),
        expr_datez8: trim(expr_datez8.as_str()).to_owned(),
        bulk_granted: raw.granted == GRANTED_MARK,
    }
}

/// The number of accounts that a login block with the count `count` and
/// `available` account slots reports.
pub open spec fn reported_accounts(count: int, available: int) -> int {
    if count < available {
        count
    } else {
        available
    }
}

/// Assembles the session from the decoded fields of the login block: the
/// time of the login as `timestamp`, the outcome of reading it, and the
/// number of accounts as the text `account_count_text`.
///
/// The count is a plain decimal number; a text that is none is a
/// `ParseNumberError` that carries it. A time that could not be read is
/// `ParseDateTimeError`. The session lists as many accounts as the count
/// says, or all the slots if there are fewer.
pub fn make_connect_response(
    timestamp: Option<i64>,
    server_name: String,
    user_id: String,
    account_count_text: &str,
    accounts: &Vec<RawAccountInfo>,
) -> (response: Result<ConnectResponse, QvOpenApiError>)
    ensures
        match (count_of(account_count_text@), timestamp) {
            (Some(count), Some(login_timestamp)) => {
                &&& response matches Ok(session)
                &&& session.login_timestamp == login_timestamp
                &&& session.server_name == server_name
                &&& session.user_id == user_id
                &&& session.account_count == count
                &&& session.account_infoes@.len() == reported_accounts(
                    count as int,
                    accounts@.len() as int,
                )
                &&& forall|i: int|
                    0 <= i < session.account_infoes@.len() ==> account_of(
                        accounts@[i],
                        #[trigger] session.account_infoes@[i],
                    )
            },
            (Some(count), None) => response == Err::<ConnectResponse, QvOpenApiError>(
                QvOpenApiError::ParseDateTimeError,
            ),
            (None, _) => response matches Err(QvOpenApiError::ParseNumberError { input }) && input@
                == account_count_text@,
        },
{
    let account_count: usize = match parse_count_text(account_count_text) {
        Ok(count) => count,
        Err(error) => {
            return Err(error);
        },
    };
    let mut account_infoes: Vec<AccountInfoResponse> = Vec::new();
    let mut i: usize = 0;
    while i < accounts.len() && i < account_count
        invariant
            i <= accounts.len(),
            i <= account_count,
            account_infoes@.len() == i,
            forall|j: int|
                0 <= j < i ==> account_of(accounts@[j], #[trigger] account_infoes@[j]),
        decreases accounts.len() - i,
    {
        account_infoes.push(parse_account(&accounts[i]));
        i = i + 1;
    }
    match timestamp {
        Some(login_timestamp) => Ok(
            ConnectResponse {
                login_timestamp,
                server_name,
                user_id,
                account_count,
                account_infoes,
            },
        ),
        None => Err(QvOpenApiError::ParseDateTimeError),
    }
}

/// Decodes the login block of the transport: the time of the login in the
/// time of Seoul, the name of the server without its padding, the user, the
/// count of the accounts and the accounts themselves.
pub fn parse_connect(
    login_datetime: &[u8],
    server_name: &[u8],
    user_id: &[u8],
    account_count: &[u8],
    accounts: &Vec<RawAccountInfo>,
) -> (response: Result<ConnectResponse, QvOpenApiError>)
    ensures
        ({
            let count_text = cp949_decoded(until_nul(account_count@));
            let timestamp = timestamp_of(
                cp949_decoded(until_nul(login_datetime@)),
                LOGIN_DATETIME_FORMAT@,
                SEOUL_OFFSET_SECONDS as int,
            );
            match (count_of(count_text), timestamp) {
                (Some(count), Some(login_timestamp)) => {
                    &&& response matches Ok(session)
                    &&& session.login_timestamp == login_timestamp
                    &&& session.server_name@ == trimmed(cp949_decoded(until_nul(server_name@)))
                    &&& session.user_id@ == cp949_decoded(until_nul(user_id@))
                    &&& session.account_count == count
                    &&& session.account_infoes@.len() == reported_accounts(
                        count as int,
                        accounts@.len() as int,
                    )
                    &&& forall|i: int|
                        0 <= i < session.account_infoes@.len() ==> account_of(
                            accounts@[i],
                            #[trigger] session.account_infoes@[i],
                        )
                },
                (Some(count), None) => response == Err::<ConnectResponse, QvOpenApiError>(
                    QvOpenApiError::ParseDateTimeError,
                ),
                (None, _) => response matches Err(QvOpenApiError::ParseNumberError { input })
                    && input@ == count_text,
            }
        }),
{
    let login_datetime_text = from_cp949(login_datetime);
    let server_text = from_cp949(server_name);
    let server_name = trim(server_text.as_str()).to_owned();
    let user_id = from_cp949(user_id);
    let count_text = from_cp949(account_count);
    let timestamp = match parse_timestamp(
        login_datetime_text.as_str(),
        LOGIN_DATETIME_FORMAT,
        SEOUL_OFFSET_SECONDS,
    ) {
        Ok(timestamp) => Some(timestamp),
        Err(_) => None,
    };
    make_connect_response(timestamp, server_name, user_id, count_text.as_str(), accounts)
}

} // verus!
