use qvopenapi::add;
use qvopenapi::client::{QvOpenApiAsyncClient, QvOpenApiRequest, TrTicket};
use qvopenapi::command::{
    connect, execute_command, post_command, query, ConnectCommand, QueryCommand, WmcaCommand,
};
use qvopenapi::error::{
    convert_error, QvOpenApiError, STATUS_BAD_REQUEST, STATUS_INTERNAL_SERVER_ERROR,
};
use qvopenapi::future::{ResponseFuture, ResponsePoll, TrPoll};
use qvopenapi::message_handler::{PostedMessage, QvOpenApiClientMessageHandler};
use qvopenapi::mock::{make_connect_response, MockQvOpenApiClient};
use qvopenapi::models::connect::{AccountType, ConnectRequest, TR_CODE_CONNECT, TR_INDEX_CONNECT};
use qvopenapi::models::query::{
    parse_block, parse_data, BlockKind, C8201Request, DisconnectRequest, QueryRequest,
    QueryResponse, RawQueryRequest, BLOCK_NAME_C8201_OUT, BLOCK_NAME_C8201_OUT1_ARRAY,
    TR_CODE_C8201,
};
use qvopenapi::window_mgr::{
    classify_custom_event, classify_wmca_event, WindowHelper, WindowMessage, WindowStatus, WmcaEvent, CA_COMMAND,
    CA_CONNECTED, CA_CUSTOM_EXECUTE_POSTED_COMMAND, CA_DISCONNECTED, CA_RECEIVECOMPLETE,
    CA_RECEIVEDATA, CA_RECEIVEERROR, CA_RECEIVEMESSAGE, CA_RECEIVESISE, CA_SOCKETERROR,
    WM_CUSTOMEVENT, WM_USER, WM_WMCAEVENT,
};
use qvopenapi::wmca_lib::{
    assert_connected, assert_not_connected, c_bool_to_result, is_connected, set_port, set_server,
};
use serde_json::Value;
use std::collections::VecDeque;
use std::sync::atomic::{AtomicUsize, Ordering};
use std::sync::{Arc, Mutex};
use std::task::{Wake, Waker};

struct Counter(AtomicUsize);

impl Wake for Counter {
    fn wake(self: Arc<Self>) {
        self.0.fetch_add(1, Ordering::SeqCst);
    }
}

fn counting_waker() -> (Arc<Counter>, Waker) {
    let counter = Arc::new(Counter(AtomicUsize::new(0)));
    (counter.clone(), Waker::from(counter))
}

struct Scripted {
    code: &'static str,
    check: Result<(), QvOpenApiError>,
    call: Result<(), QvOpenApiError>,
    log: Arc<Mutex<Vec<String>>>,
}

impl QvOpenApiRequest for Scripted {
    fn before_post(&self) -> Result<(), QvOpenApiError> {
        self.check.clone()
    }

    fn call_lib(&self, tr_index: i32, hwnd: isize) -> Result<(), QvOpenApiError> {
        self.log.lock().unwrap().push(format!("{} {} {}", self.code, tr_index, hwnd));
        self.call.clone()
    }

    fn get_tr_code(&self) -> &str {
        self.code
    }
}

fn scripted(
    code: &'static str,
    call: Result<(), QvOpenApiError>,
    log: &Arc<Mutex<Vec<String>>>,
) -> Scripted {
    Scripted { code, check: Ok(()), call, log: log.clone() }
}

struct Recorded {
    name: &'static str,
    outcome: Result<(), QvOpenApiError>,
    log: Arc<Mutex<Vec<String>>>,
}

impl WmcaCommand for Recorded {
    fn execute(&self) -> Result<(), QvOpenApiError> {
        self.log.lock().unwrap().push(String::from(self.name));
        self.outcome.clone()
    }
}

#[test]
fn add_sums_two_sizes() {
    assert_eq!(add(2, 2), 4);
    assert_eq!(add(0, usize::MAX), usize::MAX);
}

#[test]
fn the_event_codes_are_the_ones_of_the_native_library() {
    assert_eq!(WM_USER, 0x0400);
    assert_eq!(WM_WMCAEVENT, 0x0400 + 8400);
    assert_eq!(WM_CUSTOMEVENT, 0x0400 + 8410);
    assert_eq!(CA_CUSTOM_EXECUTE_POSTED_COMMAND, 0x0400 + 8410);
    assert_eq!(CA_CONNECTED, 0x0400 + 110);
    assert_eq!(CA_DISCONNECTED, 0x0400 + 120);
    assert_eq!(CA_SOCKETERROR, 0x0400 + 130);
    assert_eq!(CA_RECEIVEDATA, 0x0400 + 210);
    assert_eq!(CA_RECEIVESISE, 0x0400 + 220);
    assert_eq!(CA_RECEIVEMESSAGE, 0x0400 + 230);
    assert_eq!(CA_RECEIVECOMPLETE, 0x0400 + 240);
    assert_eq!(CA_RECEIVEERROR, 0x0400 + 250);
    assert_eq!(CA_COMMAND, 0x0400 + 110);
}

#[test]
fn every_event_code_is_classified() {
    let table = [
        (CA_CONNECTED, WmcaEvent::Connected),
        (CA_DISCONNECTED, WmcaEvent::Disconnected),
        (CA_SOCKETERROR, WmcaEvent::SocketError),
        (CA_RECEIVEDATA, WmcaEvent::ReceiveData),
        (CA_RECEIVESISE, WmcaEvent::ReceiveSise),
        (CA_RECEIVEMESSAGE, WmcaEvent::ReceiveMessage),
        (CA_RECEIVECOMPLETE, WmcaEvent::ReceiveComplete),
        (CA_RECEIVEERROR, WmcaEvent::ReceiveError),
        (CA_CUSTOM_EXECUTE_POSTED_COMMAND, WmcaEvent::ExecutePostedCommand),
    ];
    for (code, event) in table {
        assert_eq!(classify_wmca_event(code as usize), Ok(event));
    }
}

#[test]
fn an_unknown_event_code_is_an_error() {
    for code in [0usize, 1, 1133, 1135, 0x0400, u32::MAX as usize] {
        assert_eq!(
            classify_wmca_event(code),
            Err(QvOpenApiError::WindowUnknownEventError { wparam: code })
        );
    }
}

#[test]
fn only_the_command_code_is_a_custom_event() {
    assert_eq!(classify_custom_event(CA_COMMAND as usize), Ok(()));
    for code in [0usize, 1133, 1135, CA_CUSTOM_EXECUTE_POSTED_COMMAND as usize] {
        assert_eq!(
            classify_custom_event(code),
            Err(QvOpenApiError::WindowUnknownEventError { wparam: code })
        );
    }
}

#[test]
fn a_window_goes_from_init_to_created_to_destroyed() {
    let mut helper = WindowHelper::new();
    assert_eq!(helper, WindowHelper { hwnd: None, status: WindowStatus::Init });
    assert_eq!(helper.check_runnable(), Ok(()));
    assert_eq!(helper.run_result(), Err(QvOpenApiError::WindowCreationError));
    assert_eq!(helper.destroy(), None);
    assert_eq!(helper.on_create(Some(77)), Ok(77));
    assert_eq!(helper.status, WindowStatus::Created);
    assert_eq!(helper.check_runnable(), Err(QvOpenApiError::WindowAlreadyCreatedError));
    assert_eq!(helper.run_result(), Ok(77));
    assert_eq!(helper.destroy(), Some(77));
    helper.on_destroy();
    assert_eq!(helper.status, WindowStatus::Destroyed);
    assert_eq!(helper.destroy(), None);
    assert_eq!(helper.run_result(), Err(QvOpenApiError::WindowCreationError));
    assert_eq!(helper.check_runnable(), Err(QvOpenApiError::WindowAlreadyCreatedError));
}

#[test]
fn a_window_that_could_not_be_created_is_in_error() {
    let mut helper = WindowHelper::new();
    assert_eq!(helper.on_create(None), Err(QvOpenApiError::WindowCreationError));
    assert_eq!(helper, WindowHelper { hwnd: None, status: WindowStatus::Error });
    assert_eq!(helper.run_result(), Err(QvOpenApiError::WindowCreationError));
    assert_eq!(helper.check_runnable(), Err(QvOpenApiError::WindowAlreadyCreatedError));
}

#[test]
fn every_return_code_of_the_library_counts_as_success() {
    for code in [0, 1, -1, i32::MAX, i32::MIN] {
        assert_eq!(c_bool_to_result(code), Ok(()));
        assert_eq!(set_server(Ok(code)), Ok(()));
        assert_eq!(set_port(Ok(code)), Ok(()));
    }
    assert_eq!(
        set_server(Err(QvOpenApiError::WmcaDllLoadingError)),
        Err(QvOpenApiError::WmcaDllLoadingError)
    );
    assert_eq!(
        set_port(Err(QvOpenApiError::WmcaDllLoadingError)),
        Err(QvOpenApiError::WmcaDllLoadingError)
    );
}

#[test]
fn the_session_is_read_from_the_answer_of_the_library() {
    assert_eq!(is_connected(Ok(0)), Ok(false));
    assert_eq!(is_connected(Ok(1)), Ok(true));
    assert_eq!(is_connected(Ok(-5)), Ok(true));
    assert_eq!(
        is_connected(Err(QvOpenApiError::WmcaDllLoadingError)),
        Err(QvOpenApiError::WmcaDllLoadingError)
    );
    assert_eq!(assert_connected(Ok(true)), Ok(()));
    assert_eq!(assert_connected(Ok(false)), Err(QvOpenApiError::NotConnectedError));
    assert_eq!(
        assert_connected(Err(QvOpenApiError::WmcaDllLoadingError)),
        Err(QvOpenApiError::WmcaDllLoadingError)
    );
    assert_eq!(assert_not_connected(Ok(false)), Ok(()));
    assert_eq!(assert_not_connected(Ok(true)), Err(QvOpenApiError::AlreadyConnectedError));
    assert_eq!(
        assert_not_connected(Err(QvOpenApiError::WmcaDllLoadingError)),
        Err(QvOpenApiError::WmcaDllLoadingError)
    );
}

#[test]
fn commands_are_built_from_their_arguments() {
    assert_eq!(
        connect(AccountType::NAMUH, "id", "pw", "cert_pw"),
        ConnectCommand {
            account_type: AccountType::NAMUH,
            id: String::from("id"),
            password: String::from("pw"),
            cert_password: String::from("cert_pw"),
        }
    );
    assert_eq!(
        query("c8201", "input block", 2),
        QueryCommand {
            tr_code: String::from("c8201"),
            input: String::from("input block"),
            account_index: 2,
        }
    );
}

#[test]
fn commands_are_executed_in_the_order_in_which_they_were_posted() {
    let log = Arc::new(Mutex::new(Vec::new()));
    let mut queue = VecDeque::new();
    assert_eq!(execute_command(&mut queue), Ok(()));
    let message = post_command(
        &mut queue,
        Recorded { name: "first", outcome: Ok(()), log: log.clone() },
    );
    assert_eq!(message, WindowMessage { msg: WM_CUSTOMEVENT, wparam: CA_COMMAND, lparam: 0 });
    post_command(
        &mut queue,
        Recorded {
            name: "second",
            outcome: Err(QvOpenApiError::NotConnectedError),
            log: log.clone(),
        },
    );
    assert_eq!(queue.len(), 2);
    assert_eq!(execute_command(&mut queue), Ok(()));
    assert_eq!(queue.len(), 1);
    assert_eq!(execute_command(&mut queue), Err(QvOpenApiError::NotConnectedError));
    assert_eq!(queue.len(), 0);
    assert_eq!(execute_command(&mut queue), Ok(()));
    assert_eq!(*log.lock().unwrap(), vec![String::from("first"), String::from("second")]);
}

#[test]
fn a_request_is_queued_only_with_a_window_and_a_passed_check() {
    let log = Arc::new(Mutex::new(Vec::new()));
    let mut handler = QvOpenApiClientMessageHandler::new();
    assert_eq!(handler.get_hwnd(), None);
    assert_eq!(
        handler.query(3, scripted("c8201", Ok(()), &log)),
        Err(QvOpenApiError::WindowNotCreatedError)
    );
    assert_eq!(handler.pending(), 0);
    handler.set_hwnd(55);
    assert_eq!(handler.get_hwnd(), Some(55));
    let refused = Scripted {
        code: "c8201",
        check: Err(QvOpenApiError::NotConnectedError),
        call: Ok(()),
        log: log.clone(),
    };
    assert_eq!(handler.query(3, refused), Err(QvOpenApiError::NotConnectedError));
    assert_eq!(handler.pending(), 0);
    assert_eq!(
        handler.query(3, scripted("c8201", Ok(()), &log)),
        Ok(PostedMessage {
            hwnd: 55,
            message: WindowMessage {
                msg: WM_WMCAEVENT,
                wparam: CA_CUSTOM_EXECUTE_POSTED_COMMAND,
                lparam: 0,
            },
        })
    );
    assert_eq!(handler.pending(), 1);
    assert!(log.lock().unwrap().is_empty());
}

#[test]
fn enqueue_follows_the_outcome_of_the_check() {
    let log = Arc::new(Mutex::new(Vec::new()));
    let mut handler = QvOpenApiClientMessageHandler::new();
    handler.set_hwnd(9);
    assert_eq!(
        handler.enqueue(
            4,
            scripted("a", Ok(()), &log),
            Err(QvOpenApiError::AlreadyConnectedError)
        ),
        Err(QvOpenApiError::AlreadyConnectedError)
    );
    assert_eq!(handler.pending(), 0);
    assert!(handler.enqueue(4, scripted("a", Ok(()), &log), Ok(())).is_ok());
    assert_eq!(handler.pending(), 1);
    handler.on_destroy();
    assert_eq!(
        handler.enqueue(5, scripted("b", Ok(()), &log), Ok(())),
        Err(QvOpenApiError::WindowNotCreatedError)
    );
    assert_eq!(handler.pending(), 1);
}

#[test]
fn posted_requests_are_handed_over_until_one_fails() {
    let log = Arc::new(Mutex::new(Vec::new()));
    let mut handler = QvOpenApiClientMessageHandler::new();
    assert_eq!(handler.execute_posted(), Ok(()));
    handler.set_hwnd(55);
    handler.query(1, scripted("_connect", Ok(()), &log)).unwrap();
    handler.query(3, scripted("c8201", Err(QvOpenApiError::ReturnCodeError { code: 0 }), &log))
        .unwrap();
    handler.query(4, scripted("c8201", Ok(()), &log)).unwrap();
    assert_eq!(handler.execute_posted(), Err(QvOpenApiError::ReturnCodeError { code: 0 }));
    assert_eq!(handler.pending(), 1);
    assert_eq!(
        *log.lock().unwrap(),
        vec![String::from("_connect 1 55"), String::from("c8201 3 55")]
    );
    assert_eq!(handler.execute_posted(), Ok(()));
    assert_eq!(handler.pending(), 0);
    assert_eq!(log.lock().unwrap().len(), 3);
    assert_eq!(log.lock().unwrap()[2], "c8201 4 55");
}

#[test]
fn posted_requests_wait_while_there_is_no_window() {
    let log = Arc::new(Mutex::new(Vec::new()));
    let mut handler = QvOpenApiClientMessageHandler::new();
    handler.set_hwnd(55);
    handler.query(3, scripted("c8201", Ok(()), &log)).unwrap();
    handler.on_destroy();
    assert_eq!(handler.execute_posted(), Err(QvOpenApiError::WindowNotCreatedError));
    assert_eq!(handler.pending(), 1);
    assert!(log.lock().unwrap().is_empty());
}

#[test]
fn a_response_future_yields_its_response_on_every_poll() {
    let (counter, waker) = counting_waker();
    let mut future: ResponseFuture<QueryResponse> = ResponseFuture::new();
    assert_eq!(future.poll(&waker), ResponsePoll::Pending);
    assert_eq!(future.poll(&waker), ResponsePoll::Pending);
    assert_eq!(counter.0.load(Ordering::SeqCst), 0);
    future.resolve(Ok(QueryResponse {}));
    assert_eq!(counter.0.load(Ordering::SeqCst), 1);
    for _ in 0..3 {
        assert_eq!(future.poll(&waker), ResponsePoll::Ready(Ok(QueryResponse {})));
    }
    assert_eq!(counter.0.load(Ordering::SeqCst), 1);
}

#[test]
fn a_response_given_before_the_first_poll_is_kept() {
    let (counter, waker) = counting_waker();
    let mut future: ResponseFuture<i32> = ResponseFuture::new();
    future.resolve(Ok(1));
    assert_eq!(future.poll(&waker), ResponsePoll::Ready(Ok(1)));
    future.resolve(Err(QvOpenApiError::NotConnectedError));
    assert_eq!(counter.0.load(Ordering::SeqCst), 0);
    for _ in 0..2 {
        assert_eq!(
            future.poll(&waker),
            ResponsePoll::Ready(Err(QvOpenApiError::NotConnectedError))
        );
    }
}

#[test]
fn a_shared_response_is_handed_out_as_the_same_value() {
    let (_, waker) = counting_waker();
    let shared = Arc::new(String::from("response"));
    let mut future: ResponseFuture<Arc<String>> = ResponseFuture::new();
    future.resolve(Ok(shared.clone()));
    match (future.poll(&waker), future.poll(&waker)) {
        (ResponsePoll::Ready(Ok(first)), ResponsePoll::Ready(Ok(second))) => {
            assert!(Arc::ptr_eq(&first, &shared));
            assert!(Arc::ptr_eq(&second, &shared));
        },
        other => panic!("unexpected polls {:?}", other),
    }
}

#[test]
fn requests_are_built_from_their_arguments() {
    let request = C8201Request::new(2, '1');
    assert_eq!(request, C8201Request { account_index: 2, balance_type: '1' });
    let raw = RawQueryRequest::new("c8201", 2, Box::new(17u8));
    assert_eq!((raw.tr_code, raw.account_index, *raw.raw_input), ("c8201", 2, 17));
    assert_eq!(raw.get_tr_code(), "c8201");
    let query = QueryRequest { tr_index: 9, tr_code: "c8201", input: Box::new(1u8), account_index: 0 };
    assert_eq!((query.get_tr_index(), query.get_tr_code()), (9, "c8201"));
    let connect = ConnectRequest {
        account_type: AccountType::QV,
        id: String::from("id"),
        password: String::from("pw"),
        cert_password: String::from("cert"),
    };
    assert_eq!(connect.get_tr_code(), "_connect");
    assert_eq!(connect.clone(), connect);
    assert_eq!(DisconnectRequest {}, DisconnectRequest {});
    assert_eq!(TR_CODE_CONNECT, "_connect");
    assert_eq!(TR_INDEX_CONNECT, 1);
    assert_eq!(TR_CODE_C8201, "c8201");
}

#[test]
fn the_balance_query_is_laid_out_for_the_transport() {
    let raw = C8201Request::new(3, '2').into_raw();
    assert_eq!(raw.tr_code, "c8201");
    assert_eq!(raw.account_index, 3);
    assert_eq!(raw.raw_input.pswd_noz44, [b' '; 44]);
    assert_eq!(raw.raw_input._pswd_noz44, b' ');
    assert_eq!(raw.raw_input.bnc_bse_cdz1, [b'2']);
    assert_eq!(raw.raw_input._bnc_bse_cdz1, b' ');
    let wide = C8201Request::new(0, '가').into_raw();
    assert_eq!(wide.raw_input.bnc_bse_cdz1, [0x00]);
    let latin = C8201Request::new(0, 'é').into_raw();
    assert_eq!(latin.raw_input.bnc_bse_cdz1, [0xE9]);
}

#[test]
fn blocks_are_told_apart_by_their_names() {
    assert_eq!(parse_block(BLOCK_NAME_C8201_OUT), Ok(BlockKind::C8201Out));
    assert_eq!(parse_block("c8201OutBlock"), Ok(BlockKind::C8201Out));
    assert_eq!(parse_block(BLOCK_NAME_C8201_OUT1_ARRAY), Ok(BlockKind::C8201Out1Array));
    assert_eq!(parse_block("c8201OutBlock1"), Ok(BlockKind::C8201Out1Array));
    assert_eq!(
        parse_block("c8201OutBlock2"),
        Err(QvOpenApiError::UnimplementedBlockError { block_name: String::from("c8201OutBlock2") })
    );
    assert_eq!(
        parse_block(""),
        Err(QvOpenApiError::UnimplementedBlockError { block_name: String::new() })
    );
    let response = parse_data(3, String::from("c8201OutBlock"), 12, Value::from(1));
    assert_eq!(
        (response.tr_index, response.block_name.as_str(), response.block_len, response.block_data),
        (3, "c8201OutBlock", 12, Value::from(1))
    );
}

#[test]
fn errors_map_to_http_statuses() {
    assert_eq!(convert_error(&QvOpenApiError::AlreadyConnectedError), 400);
    assert_eq!(STATUS_BAD_REQUEST, 400);
    assert_eq!(STATUS_INTERNAL_SERVER_ERROR, 500);
    for error in [
        QvOpenApiError::NotConnectedError,
        QvOpenApiError::RequestTimeoutError,
        QvOpenApiError::AlreadyInProgressError,
        QvOpenApiError::TransactionPoolFullError,
        QvOpenApiError::BadRequestError { message: String::from("m") },
        QvOpenApiError::UnknownError,
    ] {
        assert_eq!(convert_error(&error), 500);
    }
}

#[test]
fn cloning_an_error_keeps_it() {
    for error in [
        QvOpenApiError::BadRequestError { message: String::from("m") },
        QvOpenApiError::WmcaDllLoadingError,
        QvOpenApiError::WindowCreationError,
        QvOpenApiError::WindowAlreadyCreatedError,
        QvOpenApiError::WindowNotCreatedError,
        QvOpenApiError::WindowUnknownEventError { wparam: 3 },
        QvOpenApiError::EventUnimplementedError { event: String::from("e") },
        QvOpenApiError::ReturnCodeError { code: -1 },
        QvOpenApiError::NotConnectedError,
        QvOpenApiError::QvApiMessageError {
            message_code: String::from("c"),
            message: String::from("m"),
        },
        QvOpenApiError::ParseDateTimeError,
        QvOpenApiError::ParseNumberError { input: String::from("x") },
        QvOpenApiError::ParseRatioError { input: String::from("y") },
        QvOpenApiError::AlreadyConnectedError,
        QvOpenApiError::UnimplementedBlockError { block_name: String::from("b") },
        QvOpenApiError::TransactionPoolFullError,
        QvOpenApiError::JsonParseError { message: String::from("j") },
        QvOpenApiError::DuplicateIndexError { tr_index: 4 },
        QvOpenApiError::AlreadyInProgressError,
        QvOpenApiError::RequestTimeoutError,
        QvOpenApiError::UnknownError,
    ] {
        assert_eq!(error.clone(), error);
    }
}

#[test]
fn the_mock_takes_the_requests_it_knows() {
    assert_eq!(MockQvOpenApiClient::accepts("_connect"), Ok(()));
    assert_eq!(MockQvOpenApiClient::accepts("c8201"), Ok(()));
    assert_eq!(
        MockQvOpenApiClient::accepts("c8202"),
        Err(QvOpenApiError::BadRequestError {
            message: String::from("Not supported mock request"),
        })
    );
    let log = Arc::new(Mutex::new(Vec::new()));
    let (_, waker) = counting_waker();
    let mut client = QvOpenApiAsyncClient::new_custom(MockQvOpenApiClient::new(), 0);
    let accepted = client.query(scripted("c8201", Ok(()), &log), 0);
    assert_eq!(accepted.ticket(), Some(TrTicket { tr_index: 3, serial: 0 }));
    let mut refused = client.query(scripted("x0000", Ok(()), &log), 0);
    assert_eq!(refused.ticket(), None);
    assert_eq!(
        refused.poll(&mut client, &waker),
        TrPoll::Ready(Err(QvOpenApiError::BadRequestError {
            message: String::from("Not supported mock request"),
        }))
    );
    assert_eq!(client.live_count(), 1);
}

#[test]
fn test() {
    let (_, waker) = counting_waker();
    let mut client = QvOpenApiAsyncClient::new_custom(MockQvOpenApiClient::new(), 0);
    let mut future = client.connect(AccountType::NAMUH, "id", "pw", "cert_pw", 0);
    client.on_connect(&make_connect_response(1_683_373_035));
    match future.poll(&mut client, &waker) {
        TrPoll::Ready(Ok(_)) => {},
        other => panic!("unexpected poll {:?}", other),
    }
    let connect_res = client.get_connect_info().unwrap();
    assert_eq!(connect_res.account_count, 1);
}

#[test]
fn the_mock_session_has_one_account() {
    let session = make_connect_response(5);
    assert_eq!(session.login_timestamp, 5);
    assert_eq!(session.server_name, "htsd49");
    assert_eq!(session.user_id, "mockid");
    assert_eq!(session.account_count, 1);
    assert_eq!(session.account_infoes.len(), 1);
    let account = &session.account_infoes[0];
    assert_eq!(account.account_no, "1234567");
    assert_eq!(account.account_name, "accountname");
    assert_eq!(account.act_pdt_cdz3, "");
    assert_eq!(account.amn_tab_cdz4, "");
    assert_eq!(account.expr_datez8, "20230505");
    assert!(!account.bulk_granted);
}
