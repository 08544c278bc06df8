//! The queue of commands that wait to be executed on the thread of the
//! window.

use crate::error::QvOpenApiError;
use crate::models::connect::AccountType;
use crate::window_mgr::{WindowMessage, CA_COMMAND, WM_CUSTOMEVENT};
use std::collections::VecDeque;
use vstd::prelude::*;

verus! {

/// Something to execute on the thread of the window.
pub trait WmcaCommand {
    fn execute(&self) -> Result<(), QvOpenApiError>;
}

/// The command that starts the connect handshake.
#[derive(Debug, PartialEq, Eq)]
pub struct ConnectCommand {
    pub account_type: AccountType,
    pub id: String,
    pub password: String,
    pub cert_password: String,
}

/// The command that posts a query.
#[derive(Debug, PartialEq, Eq)]
pub struct QueryCommand {
    pub tr_code: String,
    pub input: String,
    pub account_index: i32,
}

/// The command that connects with the given credentials.
pub fn connect(account_type: AccountType, id: &str, password: &str, cert_password: &str) -> (command:
    ConnectCommand)
    ensures
        command.account_type == account_type,
        command.id@ == id@,
        command.password@ == password@,
        command.cert_password@ == cert_password@,
{
    ConnectCommand {
        account_type,
        id: id.to_owned(),
        password: password.to_owned(),
        cert_password: cert_password.to_owned(),
    }
}

/// The command that posts the query `tr_code` with the input block `input`
/// for the account `account_index`.
pub fn query(tr_code: &str, input: &str, account_index: i32) -> (command: QueryCommand)
    ensures
        command.tr_code@ == tr_code@,
        command.input@ == input@,
        command.account_index == account_index,
{
    QueryCommand { tr_code: tr_code.to_owned(), input: input.to_owned(), account_index }
}

/// Puts `cmd` behind the commands that wait, and returns the message that
/// tells the window to execute one.
pub fn post_command<C: WmcaCommand>(queue: &mut VecDeque<C>, cmd: C) -> (message: WindowMessage)
    ensures
        final(queue)@ == old(queue)@.push(cmd),
        message == (WindowMessage { msg: WM_CUSTOMEVENT, wparam: CA_COMMAND, lparam: 0 }),
{
    queue.push_back(cmd);
    WindowMessage { msg: WM_CUSTOMEVENT, wparam: CA_COMMAND, lparam: 0 }
}

/// Executes the command that has waited longest and takes it off the queue.
/// The result is what that command's `execute` gave; with nothing waiting it
/// is `Ok`.
pub fn execute_command<C: WmcaCommand>(queue: &mut VecDeque<C>) -> (executed: Result<
    (),
    QvOpenApiError,
>)
    ensures
        old(queue)@.len() == 0 ==> executed == Ok::<(), QvOpenApiError>(()) && final(queue)@
            == old(queue)@,
        old(queue)@.len() > 0 ==> final(queue)@ == old(queue)@.drop_first() && call_ensures(
            C::execute,
            (&old(queue)@[0],),
            executed,
        ),
{
    match queue.pop_front() {
        None => Ok(()),
        Some(cmd) => cmd.execute(),
    }
}

} // verus!
