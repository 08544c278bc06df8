use qvopenapi::context::{
    BlockData, TrContext, TrContextStatus, TrEvent, TrResultMap, TrSnapshot, TrType,
    CONNECT_BLOCK_NAME,
};
use qvopenapi::error::QvOpenApiError;
use qvopenapi::models::connect::ConnectResponse;
use qvopenapi::models::message::{ErrorResponse, MessageResponse};
use qvopenapi::models::query::DataResponse;
use qvopenapi::pattern::{
    contains_pattern, default_fatal_patterns, matches_fatal_pattern, to_chars,
    INVALID_ACCOUNT_INDEX_MESSAGE,
};
use qvopenapi::registry::TrRegistry;
use serde_json::Value;
use std::sync::atomic::{AtomicUsize, Ordering};
use std::sync::Arc;
use std::task::{Wake, Waker};

struct Counter(AtomicUsize);

impl Wake for Counter {
    fn wake(self: Arc<Self>) {
        self.0.fetch_add(1, Ordering::SeqCst);
    }
}

fn counting_waker() -> (Arc<Counter>, Waker) {
    let counter = Arc::new(Counter(AtomicUsize::new(0)));
    (counter.clone(), Waker::from(counter))
}

fn session() -> ConnectResponse {
    ConnectResponse {
        login_timestamp: 7,
        server_name: String::from("server"),
        user_id: String::from("user"),
        account_count: 0,
        account_infoes: Vec::new(),
    }
}

fn data(name: &str, value: Value) -> DataResponse {
    DataResponse { tr_index: 3, block_name: String::from(name), block_len: 4, block_data: value }
}

fn message(text: &str) -> MessageResponse {
    MessageResponse { tr_index: 3, msg_code: String::from("A0001"), msg: String::from(text) }
}

#[test]
fn a_new_context_is_pending_and_empty() {
    let context = TrContext::new(5, TrType::QUERY, 99);
    assert_eq!(context.tr_index, 5);
    assert_eq!(context.tr_type, TrType::QUERY);
    assert_eq!(context.request_timestamp, 99);
    assert_eq!(context.serial, 0);
    assert!(context.attached);
    assert!(!context.status.is_done());
    assert!(!context.status.has_waker());
    assert!(context.status.result().is_empty());
    assert!(context.status.messages().is_empty());
    assert!(context.status.errors().is_empty());
    assert_eq!(*context.status.error_type(), None);
}

#[test]
fn a_connect_result_ends_a_connect_context() {
    let mut context = TrContext::new(1, TrType::CONNECT, 0);
    assert!(context.on_connect(&session()));
    assert!(context.status.is_done());
    assert_eq!(
        context.status.result().get(CONNECT_BLOCK_NAME),
        Some(&BlockData::Connect(session()))
    );
    assert_eq!(*context.status.error_type(), None);
}

#[test]
fn a_connect_result_is_ignored_by_a_query_context() {
    let mut context = TrContext::new(3, TrType::QUERY, 0);
    assert!(!context.on_connect(&session()));
    assert!(!context.status.is_done());
    assert!(context.status.result().is_empty());
}

#[test]
fn data_and_completion_are_ignored_by_a_connect_context() {
    let mut context = TrContext::new(1, TrType::CONNECT, 0);
    assert!(!context.on_data(&data("blockA", Value::Null)));
    assert!(!context.on_complete());
    assert!(!context.status.is_done());
    assert!(context.status.result().is_empty());
}

#[test]
fn data_accumulates_by_name_and_later_blocks_replace_earlier_ones() {
    let mut context = TrContext::new(3, TrType::QUERY, 0);
    assert!(!context.on_data(&data("blockA", Value::from(1))));
    assert!(!context.on_data(&data("blockB", Value::from(2))));
    assert!(!context.on_data(&data("blockA", Value::from(3))));
    assert!(context.on_complete());
    let snapshot = context.into_snapshot();
    assert_eq!(snapshot.result.entries().len(), 2);
    assert_eq!(snapshot.result.get("blockA"), Some(&BlockData::Query(Value::from(3))));
    assert_eq!(snapshot.result.get("blockB"), Some(&BlockData::Query(Value::from(2))));
    assert_eq!(snapshot.result.get("blockC"), None);
    assert_eq!(snapshot.error_type, None);
}

#[test]
fn messages_and_errors_are_logged_in_order() {
    let mut context = TrContext::new(3, TrType::QUERY, 0);
    assert!(!context.on_message(message("first")));
    assert!(!context.on_error_response(ErrorResponse {
        tr_index: 3,
        error_msg: String::from("oops"),
    }));
    assert!(!context.on_message(message("second")));
    assert_eq!(*context.status.messages(), vec![message("first"), message("second")]);
    assert_eq!(
        *context.status.errors(),
        vec![ErrorResponse { tr_index: 3, error_msg: String::from("oops") }]
    );
    assert!(!context.status.is_done());
}

#[test]
fn the_fatal_phrase_ends_a_context_of_either_kind() {
    for tr_type in [TrType::CONNECT, TrType::QUERY] {
        let mut context = TrContext::new(3, tr_type, 0);
        assert!(context.on_message(message(INVALID_ACCOUNT_INDEX_MESSAGE)));
        assert!(context.status.is_done());
        assert_eq!(*context.status.messages(), vec![message(INVALID_ACCOUNT_INDEX_MESSAGE)]);
        assert_eq!(
            *context.status.error_type(),
            Some(QvOpenApiError::QvApiMessageError {
                message_code: String::from("A0001"),
                message: String::from(INVALID_ACCOUNT_INDEX_MESSAGE),
            })
        );
    }
}

#[test]
fn forced_ends_record_their_error() {
    let mut timed_out = TrContext::new(3, TrType::QUERY, 0);
    assert!(timed_out.on_timeout());
    assert_eq!(*timed_out.status.error_type(), Some(QvOpenApiError::RequestTimeoutError));
    let mut disconnected = TrContext::new(1, TrType::CONNECT, 0);
    assert!(disconnected.on_disconnect());
    assert_eq!(*disconnected.status.error_type(), Some(QvOpenApiError::NotConnectedError));
    let mut custom = TrContext::new(3, TrType::QUERY, 0);
    assert!(custom.on_custom_error(QvOpenApiError::UnknownError));
    assert_eq!(*custom.status.error_type(), Some(QvOpenApiError::UnknownError));
    assert!(custom.status.is_done());
}

#[test]
fn a_context_that_has_ended_takes_nothing_more() {
    let mut context = TrContext::new(3, TrType::QUERY, 0);
    assert!(!context.on_data(&data("blockA", Value::from(1))));
    assert!(context.on_complete());
    assert!(!context.on_complete());
    assert!(!context.on_data(&data("blockA", Value::from(2))));
    assert!(!context.on_message(message(INVALID_ACCOUNT_INDEX_MESSAGE)));
    assert!(!context.on_error_response(ErrorResponse {
        tr_index: 3,
        error_msg: String::from("late"),
    }));
    assert!(!context.on_timeout());
    assert!(!context.on_disconnect());
    assert!(!context.on_custom_error(QvOpenApiError::UnknownError));
    let snapshot = context.into_snapshot();
    assert_eq!(snapshot.result.get("blockA"), Some(&BlockData::Query(Value::from(1))));
    assert!(snapshot.messages.is_empty());
    assert!(snapshot.errors.is_empty());
    assert_eq!(snapshot.error_type, None);
}

#[test]
fn ending_wakes_the_registered_waker_once() {
    let (counter, waker) = counting_waker();
    let mut context = TrContext::new(3, TrType::QUERY, 0);
    context.status.register_waker(&waker);
    assert!(context.status.has_waker());
    assert!(context.on_complete());
    assert_eq!(counter.0.load(Ordering::SeqCst), 1);
    assert!(!context.status.has_waker());
    assert!(!context.on_timeout());
    assert_eq!(counter.0.load(Ordering::SeqCst), 1);
}

#[test]
fn handle_applies_each_kind_of_event() {
    let patterns = vec![String::from("fatal")];
    let mut query = TrContext::new(3, TrType::QUERY, 0);
    assert!(!query.handle(TrEvent::Data(data("blockA", Value::Bool(true))), &patterns));
    assert!(!query.handle(TrEvent::Message(message("fine")), &patterns));
    assert!(!query.handle(
        TrEvent::Error(ErrorResponse { tr_index: 3, error_msg: String::from("e") }),
        &patterns
    ));
    assert!(!query.handle(TrEvent::Connect(session()), &patterns));
    assert!(query.handle(TrEvent::Message(message("a fatal thing")), &patterns));
    assert_eq!(query.status.messages().len(), 2);
    assert_eq!(
        *query.status.error_type(),
        Some(QvOpenApiError::QvApiMessageError {
            message_code: String::from("A0001"),
            message: String::from("a fatal thing"),
        })
    );
    let mut other = TrContext::new(4, TrType::QUERY, 0);
    assert!(other.handle(TrEvent::Complete, &patterns));
    let mut connect = TrContext::new(1, TrType::CONNECT, 0);
    assert!(connect.handle(TrEvent::Connect(session()), &patterns));
}

#[test]
fn a_snapshot_resolves_to_itself_or_to_its_error() {
    let mut result = TrResultMap::new();
    result.insert(String::from("blockA"), BlockData::Query(Value::from(5)));
    let fine = TrSnapshot {
        result,
        messages: vec![message("m")],
        errors: Vec::new(),
        error_type: None,
    };
    match fine.into_result() {
        Ok(snapshot) => {
            assert_eq!(snapshot.result.get("blockA"), Some(&BlockData::Query(Value::from(5))));
            assert_eq!(snapshot.messages, vec![message("m")]);
        },
        Err(error) => panic!("unexpected error {:?}", error),
    }
    let failed = TrSnapshot {
        result: TrResultMap::new(),
        messages: Vec::new(),
        errors: Vec::new(),
        error_type: Some(QvOpenApiError::RequestTimeoutError),
    };
    assert_eq!(failed.into_result(), Err(QvOpenApiError::RequestTimeoutError));
}

#[test]
fn the_result_map_keeps_one_block_per_name() {
    let mut map = TrResultMap::new();
    assert!(map.is_empty());
    assert_eq!(map.get("a"), None);
    map.insert(String::from("a"), BlockData::Query(Value::from(1)));
    map.insert(String::from("b"), BlockData::Query(Value::from(2)));
    map.insert(String::from("a"), BlockData::Query(Value::from(3)));
    assert!(!map.is_empty());
    let names: Vec<&str> = map.entries().iter().map(|entry| entry.0.as_str()).collect();
    assert_eq!(names, vec!["a", "b"]);
    assert_eq!(map.get("a"), Some(&BlockData::Query(Value::from(3))));
    assert_eq!(map.get("b"), Some(&BlockData::Query(Value::from(2))));
    assert_eq!(map.get(""), None);
}

#[test]
fn a_status_of_its_own_starts_pending() {
    let status = TrContextStatus::new();
    assert!(!status.is_done());
    let snapshot = status.into_snapshot();
    assert!(snapshot.result.is_empty());
    assert_eq!(snapshot.error_type, None);
}

#[test]
fn substring_search_finds_what_is_there() {
    assert!(contains_pattern("hello world", "lo w"));
    assert!(contains_pattern("hello world", "hello world"));
    assert!(contains_pattern("hello world", "d"));
    assert!(contains_pattern("hello world", ""));
    assert!(contains_pattern("", ""));
    assert!(!contains_pattern("hello world", "worlds"));
    assert!(!contains_pattern("hello", "hello world"));
    assert!(!contains_pattern("", "a"));
    assert!(contains_pattern("가나다라", "나다"));
    assert!(!contains_pattern("가나다라", "다나"));
    assert!(contains_pattern("aab", "ab"));
}

#[test]
fn the_initial_table_holds_the_one_observed_phrase() {
    let patterns = default_fatal_patterns();
    assert_eq!(patterns, vec![String::from("잘못된 계좌 인덱스 번호")]);
    assert!(matches_fatal_pattern("잘못된 계좌 인덱스 번호", &patterns));
    assert!(matches_fatal_pattern("오류: 잘못된 계좌 인덱스 번호.", &patterns));
    assert!(!matches_fatal_pattern("잘못된 계좌 번호", &patterns));
    assert!(!matches_fatal_pattern("", &patterns));
    assert!(!matches_fatal_pattern("anything", &Vec::new()));
    assert!(matches_fatal_pattern("anything", &vec![String::from("x"), String::from("thing")]));
}

#[test]
fn to_chars_keeps_every_character() {
    assert_eq!(to_chars("a가b"), vec!['a', '가', 'b']);
    assert_eq!(to_chars(""), Vec::<char>::new());
}

#[test]
fn the_registry_files_one_context_per_index() {
    let mut registry = TrRegistry::new();
    assert!(registry.is_empty());
    assert_eq!(registry.register(3, TrType::QUERY, 10, 0), Ok(()));
    assert_eq!(
        registry.register(3, TrType::QUERY, 11, 1),
        Err(QvOpenApiError::DuplicateIndexError { tr_index: 3 })
    );
    assert_eq!(registry.register(4, TrType::QUERY, 12, 2), Ok(()));
    assert_eq!(registry.len(), 2);
    assert!(registry.contains(3));
    assert!(!registry.contains(5));
    let found = registry.lookup(3).expect("index 3 is owned");
    assert_eq!((found.tr_index, found.request_timestamp, found.serial), (3, 10, 0));
    assert!(registry.lookup(5).is_none());
}

#[test]
fn removing_from_the_registry_is_idempotent() {
    let mut registry = TrRegistry::new();
    registry.register(3, TrType::QUERY, 10, 0).unwrap();
    let removed = registry.remove(3).expect("index 3 was owned");
    assert_eq!(removed.tr_index, 3);
    assert!(registry.remove(3).is_none());
    assert!(registry.remove(9).is_none());
    assert!(registry.is_empty());
    registry.restore(removed);
    assert!(registry.contains(3));
}

#[test]
fn draining_the_registry_returns_everything_that_was_live() {
    let mut registry = TrRegistry::new();
    for index in [1, 3, 4, 200] {
        let kind = if index == 1 { TrType::CONNECT } else { TrType::QUERY };
        registry.register(index, kind, 10, index as u64).unwrap();
    }
    let mut drained: Vec<i32> = registry.drain().iter().map(|c| c.tr_index).collect();
    drained.sort();
    assert_eq!(drained, vec![1, 3, 4, 200]);
    assert!(registry.is_empty());
    assert!(registry.drain().is_empty());
}

#[test]
fn sweeping_the_registry_takes_only_what_is_older_than_the_age() {
    let mut registry = TrRegistry::new();
    registry.register(3, TrType::QUERY, 100, 0).unwrap();
    registry.register(4, TrType::QUERY, 200, 1).unwrap();
    registry.register(5, TrType::QUERY, 300, 2).unwrap();
    assert!(registry.sweep_expired(150, 50).is_empty());
    assert!(registry.sweep_expired(50, 0).is_empty());
    let mut swept: Vec<i32> = registry.sweep_expired(251, 50).iter().map(|c| c.tr_index).collect();
    swept.sort();
    assert_eq!(swept, vec![3, 4]);
    assert_eq!(registry.len(), 1);
    assert!(registry.contains(5));
    let swept: Vec<i32> = registry.sweep_expired(301, 0).iter().map(|c| c.tr_index).collect();
    assert_eq!(swept, vec![5]);
}
