//! One in-flight transaction: what it has accumulated and how it ends.

use crate::error::QvOpenApiError;
use crate::models::connect::{ConnectResponse, ConnectResponseView};
use crate::models::message::{ErrorResponse, MessageResponse};
use crate::models::query::DataResponse;
use serde_json::Value;
use std::task::Waker;
use crate::pattern::{matches_any, matches_fatal_pattern, pattern_texts, default_fatal_patterns, default_fatal_pattern_texts};
use vstd::prelude::*;

verus! {

/// `std::task::Waker`: the continuation of the task that awaits a
/// transaction. The library stores one, replaces it and wakes it, and never
/// looks inside.
#[verifier::external_type_specification]
#[verifier::external_body]
pub struct ExWaker(Waker);

/// `Waker::wake_by_ref`: schedules the waiting task to be polled again.
/// Nothing is claimed of it: its effect is on the task's executor.
pub assume_specification[ Waker::wake_by_ref ](waker: &Waker)
;

/// `Waker::will_wake`: a best-effort test of whether two wakers wake the same
/// task. Nothing is claimed of the answer.
pub assume_specification[ Waker::will_wake ](waker: &Waker, other: &Waker) -> (same: bool)
;

/// `<Waker as Clone>::clone`: another handle on the same task. Nothing is
/// claimed of the copy.
pub assume_specification[ <Waker as Clone>::clone ](waker: &Waker) -> (copy: Waker)
;

/// What a transaction is for; it decides which events the transaction accepts
/// and which of them end it.
#[allow(non_camel_case_types)]
#[derive(Debug, Clone, Copy, PartialEq, Eq)]
pub enum TrType {
    CONNECT,
    QUERY,
}

/// The name under which a connect transaction records the session it obtained.
pub const CONNECT_BLOCK_NAME: &'static str = "connect";

/// One recorded result block.
#[derive(Debug, PartialEq, Eq)]
pub enum BlockData {
    /// The session reported by a connect handshake.
    Connect(ConnectResponse),
    /// The decoded payload of a query's data block.
    Query(Value),
}

/// What a `BlockData` holds.
pub enum BlockDataView {
    Connect(ConnectResponseView),
    Query(Value),
}

impl View for BlockData {
    type V = BlockDataView;

    open spec fn view(&self) -> BlockDataView {
        match self {
            BlockData::Connect(response) => BlockDataView::Connect(response@),
            BlockData::Query(value) => BlockDataView::Query(*value),
        }
    }
}

impl Clone for BlockData {
    fn clone(&self) -> (copy: Self)
        ensures
            copy@ == self@,
    {
        match self {
            BlockData::Connect(response) => BlockData::Connect(response.clone()),
            BlockData::Query(value) => BlockData::Query(value.clone()),
        }
    }
}

/// The result blocks of one transaction, by block name. A block delivered
/// again under a name replaces the one recorded before.
#[derive(Debug, PartialEq, Eq)]
pub struct TrResultMap {
    entries: Vec<(String, BlockData)>,
}

impl TrResultMap {
    /// No two entries share a block name.
    pub closed spec fn wf(&self) -> bool {
        Self::distinct_names(self.entries@)
    }

    spec fn distinct_names(entries: Seq<(String, BlockData)>) -> bool {
        forall|i: int, j: int| 0 <= i < j < entries.len() ==> entries[i].0@ != entries[j].0@
    }

    spec fn has_name(entries: Seq<(String, BlockData)>, name: Seq<char>) -> bool {
        exists|i: int| 0 <= i < entries.len() && entries[i].0@ == name
    }

    spec fn position(entries: Seq<(String, BlockData)>, name: Seq<char>) -> int {
        choose|i: int| 0 <= i < entries.len() && entries[i].0@ == name
    }

    /// The empty map.
    pub fn new() -> (map: TrResultMap)
        ensures
            map.wf(),
            map@ == Map::<Seq<char>, BlockDataView>::empty(),
    {
        let map = TrResultMap { entries: Vec::new() };
        assert(map@ =~= Map::<Seq<char>, BlockDataView>::empty());
        map
    }

    /// Records `data` under `name`, in place of what was recorded there.
    pub fn insert(&mut self, name: String, data: BlockData)
        requires
            old(self).wf(),
        ensures
            final(self).wf(),
            final(self)@ == old(self)@.insert(name@, data@),
    {
        let ghost before = self.entries@;
        let mut i: usize = 0;
        while i < self.entries.len()
            invariant
                i <= self.entries.len(),
                self.entries@ == before,
                before == old(self).entries@,
                Self::distinct_names(before),
                forall|m: int| 0 <= m < i ==> before[m].0@ != name@,
            decreases self.entries.len() - i,
        {
            if self.entries[i].0 == name {
                self.entries[i] = (name, data);
                proof {
                    assert(self.entries@ == before.update(i as int, (name, data)));
                    Self::lemma_insert(before, self.entries@, name@, data@, i as int);
                }
                return ;
            }
            i = i + 1;
        }
        self.entries.push((name, data));
        proof {
            assert(self.entries@ == before.push((name, data)));
            Self::lemma_insert(before, self.entries@, name@, data@, before.len() as int);
        }
    }

    /// Writing `(name, data)` at `at`, over an entry of that name or behind the
    /// last entry when no entry has it, is an insertion into the map.
    proof fn lemma_insert(
        before: Seq<(String, BlockData)>,
        after: Seq<(String, BlockData)>,
        name: Seq<char>,
        data: BlockDataView,
        at: int,
    )
        requires
            Self::distinct_names(before),
            0 <= at <= before.len(),
            at < before.len() ==> before[at].0@ == name,
            at == before.len() ==> !Self::has_name(before, name),
            after.len() == if at < before.len() {
                before.len()
            } else {
                before.len() + 1
            },
            after[at].0@ == name,
            after[at].1@ == data,
            forall|m: int| 0 <= m < before.len() && m != at ==> after[m] == before[m],
        ensures
            Self::distinct_names(after),
            Self::as_map(after) == Self::as_map(before).insert(name, data),
    {
        assert(Self::distinct_names(after)) by {
            assert forall|i: int, j: int| 0 <= i < j < after.len() implies after[i].0@
                != after[j].0@ by {
                if at == before.len() && j == at {
                    assert(before[i].0@ != name);
                }
            }
        }
        assert forall|k: Seq<char>| #[trigger]
            Self::has_name(after, k) == (Self::has_name(before, k) || k == name) by {
            if Self::has_name(before, k) {
                let p = Self::position(before, k);
                assert(after[p].0@ == k);
            }
            if k == name {
                assert(after[at].0@ == k);
            }
            if Self::has_name(after, k) {
                let p = Self::position(after, k);
                if p != at {
                    assert(before[p].0@ == k);
                }
            }
        }
        assert forall|k: Seq<char>| #[trigger] Self::has_name(after, k) implies after[Self::position(
            after,
            k,
        )].1@ == (if k == name {
            data
        } else {
            before[Self::position(before, k)].1@
        }) by {
            let p = Self::position(after, k);
            if k == name {
                assert(p == at);
            } else {
                assert(before[p].0@ == k);
                let q = Self::position(before, k);
                assert(p == q);
            }
        }
        assert(Self::as_map(after) =~= Self::as_map(before).insert(name, data));
    }

    spec fn as_map(entries: Seq<(String, BlockData)>) -> Map<Seq<char>, BlockDataView> {
        Map::new(
            |name: Seq<char>| Self::has_name(entries, name),
            |name: Seq<char>| entries[Self::position(entries, name)].1@,
        )
    }

    /// The block recorded under `name`, if there is one.
    pub fn get(&self, name: &str) -> (found: Option<&BlockData>)
        requires
            self.wf(),
        ensures
            match found {
                Some(data) => self@.contains_key(name@) && self@[name@] == data@,
                None => !self@.contains_key(name@),
            },
    {
        let key = name.to_owned();
        let mut i: usize = 0;
        while i < self.entries.len()
            invariant
                i <= self.entries.len(),
                key@ == name@,
                self.wf(),
                forall|m: int| 0 <= m < i ==> self.entries@[m].0@ != name@,
            decreases self.entries.len() - i,
        {
            if self.entries[i].0 == key {
                proof {
                    let p = Self::position(self.entries@, name@);
                    assert(p == i);
                }
                return Some(&self.entries[i].1);
            }
            i = i + 1;
        }
        None
    }

    /// Whether no block is recorded.
    pub fn is_empty(&self) -> (empty: bool)
        ensures
            empty == (self@ == Map::<Seq<char>, BlockDataView>::empty()),
    {
        let empty = self.entries.len() == 0;
        proof {
            if empty {
                assert(self@ =~= Map::<Seq<char>, BlockDataView>::empty());
            } else {
                assert(Self::has_name(self.entries@, self.entries@[0].0@));
                assert(self@.contains_key(self.entries@[0].0@));
            }
        }
        empty
    }

    /// The recorded blocks with their names, each name once, in the order in
    /// which the names were first recorded.
    pub fn entries(&self) -> (entries: &Vec<(String, BlockData)>)
        requires
            self.wf(),
        ensures
            forall|i: int|
                0 <= i < entries@.len() ==> self@.contains_key(#[trigger] entries@[i].0@)
                    && self@[entries@[i].0@] == entries@[i].1@,
            forall|name: Seq<char>| #[trigger]
                self@.contains_key(name) ==> exists|i: int|
                    0 <= i < entries@.len() && entries@[i].0@ == name,
            forall|i: int, j: int|
                0 <= i < j < entries@.len() ==> entries@[i].0@ != entries@[j].0@,
    {
        proof {
            assert forall|i: int| 0 <= i < self.entries@.len() implies self@.contains_key(
                #[trigger] self.entries@[i].0@,
            ) && self@[self.entries@[i].0@] == self.entries@[i].1@ by {
                let name = self.entries@[i].0@;
                assert(Self::has_name(self.entries@, name));
                let p = Self::position(self.entries@, name);
                assert(p == i);
            }
        }
        &self.entries
    }
}

impl TrResultMap {
    /// Entries that agree in their names and in what their blocks hold make
    /// the same map.
    proof fn lemma_same_entries(
        first: Seq<(String, BlockData)>,
        second: Seq<(String, BlockData)>,
    )
        requires
            Self::distinct_names(first),
            first.len() == second.len(),
            forall|i: int|
                0 <= i < first.len() ==> first[i].0@ == (#[trigger] second[i]).0@ && first[i].1@
                    == second[i].1@,
        ensures
            Self::distinct_names(second),
            Self::as_map(first) == Self::as_map(second),
    {
        assert forall|k: Seq<char>| #[trigger]
            Self::has_name(first, k) == Self::has_name(second, k) by {
            if Self::has_name(first, k) {
                let p = Self::position(first, k);
                assert(second[p].0@ == k);
            }
            if Self::has_name(second, k) {
                let q = Self::position(second, k);
                assert(first[q].0@ == second[q].0@);
            }
        }
        assert forall|k: Seq<char>| #[trigger] Self::has_name(first, k) implies first[Self::position(
            first,
            k,
        )].1@ == second[Self::position(second, k)].1@ by {
            let p = Self::position(first, k);
            let q = Self::position(second, k);
            assert(first[q].0@ == second[q].0@);
            assert(p == q);
        }
        assert(Self::as_map(first) =~= Self::as_map(second));
    }
}

impl Clone for TrResultMap {
    fn clone(&self) -> (copy: Self)
        ensures
            self.wf() ==> copy.wf() && copy@ == self@,
    {
        let mut entries: Vec<(String, BlockData)> = Vec::new();
        let mut i: usize = 0;
        while i < self.entries.len()
            invariant
                i <= self.entries.len(),
                entries@.len() == i,
                forall|j: int|
                    0 <= j < i ==> self.entries@[j].0@ == (#[trigger] entries@[j]).0@
                        && self.entries@[j].1@ == entries@[j].1@,
            decreases self.entries.len() - i,
        {
            let name = self.entries[i].0.clone();
            let data = self.entries[i].1.clone();
            entries.push((name, data));
            i = i + 1;
        }
        proof {
            if self.wf() {
                Self::lemma_same_entries(self.entries@, entries@);
            }
        }
        TrResultMap { entries }
    }
}

impl View for TrResultMap {
    type V = Map<Seq<char>, BlockDataView>;

    closed spec fn view(&self) -> Map<Seq<char>, BlockDataView> {
        Self::as_map(self.entries@)
    }
}

/// The outcome of a transaction, as it stood when the transaction ended.
#[derive(Debug, PartialEq, Eq)]
pub struct TrSnapshot {
    pub result: TrResultMap,
    pub messages: Vec<MessageResponse>,
    pub errors: Vec<ErrorResponse>,
    pub error_type: Option<QvOpenApiError>,
}

/// What a `TrSnapshot` holds.
pub struct TrSnapshotView {
    pub result: Map<Seq<char>, BlockDataView>,
    pub messages: Seq<MessageResponse>,
    pub errors: Seq<ErrorResponse>,
    pub error_type: Option<QvOpenApiError>,
}

impl View for TrSnapshot {
    type V = TrSnapshotView;

    open spec fn view(&self) -> TrSnapshotView {
        TrSnapshotView {
            result: self.result@,
            messages: self.messages@,
            errors: self.errors@,
            error_type: self.error_type,
        }
    }
}

impl TrSnapshot {
    /// What the consumer of the transaction receives: the snapshot when the
    /// transaction ended without an error, and else the error it ended with.
    pub fn into_result(self) -> (resolution: Result<TrSnapshot, QvOpenApiError>)
        ensures
            match self.error_type {
                Some(error) => resolution == Err::<TrSnapshot, QvOpenApiError>(error),
                None => resolution == Ok::<TrSnapshot, QvOpenApiError>(self),
            },
            self.result.wf() ==> resolves_as(resolution, self@),
    {
        let TrSnapshot { result, messages, errors, error_type } = self;
        match error_type {
            Some(error) => Err(error),
            None => Ok(TrSnapshot { result, messages, errors, error_type: None }),
        }
    }
}

/// Whether `resolution` is what a consumer receives for a transaction that
/// ended as `outcome`: the error, if it ended with one, and else the whole
/// outcome.
pub open spec fn resolves_as(
    resolution: Result<TrSnapshot, QvOpenApiError>,
    outcome: TrSnapshotView,
) -> bool {
    match outcome.error_type {
        Some(error) => resolution == Err::<TrSnapshot, QvOpenApiError>(error),
        None => resolution matches Ok(snapshot) && snapshot@ == outcome && snapshot.result.wf(),
    }
}

/// Whether two resolutions are the same to their consumer: the same error,
/// or outcomes that hold the same.
pub open spec fn same_resolution(
    first: Result<TrSnapshot, QvOpenApiError>,
    second: Result<TrSnapshot, QvOpenApiError>,
) -> bool {
    match (first, second) {
        (Ok(a), Ok(b)) => a@ == b@,
        (Err(a), Err(b)) => a == b,
        _ => false,
    }
}

/// The mutable part of a transaction: its accumulator, its logs, how it
/// ended, and the continuation to wake when it ends.
#[derive(Debug)]
pub struct TrContextStatus {
    is_done: bool,
    waker: Option<Waker>,
    result: TrResultMap,
    messages: Vec<MessageResponse>,
    errors: Vec<ErrorResponse>,
    error_type: Option<QvOpenApiError>,
}

/// What a `TrContextStatus` holds.
pub struct TrStatusView {
    pub is_done: bool,
    pub waker: Option<Waker>,
    pub result: Map<Seq<char>, BlockDataView>,
    pub messages: Seq<MessageResponse>,
    pub errors: Seq<ErrorResponse>,
    pub error_type: Option<QvOpenApiError>,
}

impl TrStatusView {
    /// A transaction that has received nothing.
    pub open spec fn pending() -> TrStatusView {
        TrStatusView {
            is_done: false,
            waker: None,
            result: Map::empty(),
            messages: Seq::empty(),
            errors: Seq::empty(),
            error_type: None,
        }
    }

    /// The status after the transaction ends: done, its waiter released.
    pub open spec fn finished(self) -> TrStatusView {
        TrStatusView { is_done: true, waker: None, ..self }
    }

    /// The status after the transaction ends with `error`.
    pub open spec fn failed(self, error: QvOpenApiError) -> TrStatusView {
        TrStatusView { error_type: Some(error), ..self }.finished()
    }

    /// The outcome that a transaction in this status shows to its consumer.
    pub open spec fn snapshot(self) -> TrSnapshotView {
        TrSnapshotView {
            result: self.result,
            messages: self.messages,
            errors: self.errors,
            error_type: self.error_type,
        }
    }
}

impl View for TrContextStatus {
    type V = TrStatusView;

    closed spec fn view(&self) -> TrStatusView {
        TrStatusView {
            is_done: self.is_done,
            waker: self.waker,
            result: self.result@,
            messages: self.messages@,
            errors: self.errors@,
            error_type: self.error_type,
        }
    }
}

impl TrContextStatus {
    /// The accumulator is well formed, and a finished transaction holds no
    /// waiter.
    pub closed spec fn wf(&self) -> bool {
        &&& self.result.wf()
        &&& self.is_done ==> self.waker is None
    }

    pub fn new() -> (status: TrContextStatus)
        ensures
            status.wf(),
            status@ == TrStatusView::pending(),
    {
        TrContextStatus {
            is_done: false,
            waker: None,
            result: TrResultMap::new(),
            messages: Vec::new(),
            errors: Vec::new(),
            error_type: None,
        }
    }

    /// Ends the transaction and wakes the task that waits for it, if any.
    fn set_done(&mut self)
        requires
            old(self).wf(),
        ensures
            final(self).wf(),
            final(self)@ == old(self)@.finished(),
    {
        self.is_done = true;
        match self.waker.take() {
            Some(waker) => {
                waker.wake_by_ref();
            },
            None => {},
        }
    }

    pub fn is_done(&self) -> (done: bool)
        ensures
            done == self@.is_done,
    {
        self.is_done
    }

    pub fn has_waker(&self) -> (registered: bool)
        ensures
            registered == (self@.waker is Some),
    {
        self.waker.is_some()
    }

    pub fn result(&self) -> (result: &TrResultMap)
        requires
            self.wf(),
        ensures
            result.wf(),
            result@ == self@.result,
    {
        &self.result
    }

    pub fn messages(&self) -> (messages: &Vec<MessageResponse>)
        ensures
            messages@ == self@.messages,
    {
        &self.messages
    }

    pub fn errors(&self) -> (errors: &Vec<ErrorResponse>)
        ensures
            errors@ == self@.errors,
    {
        &self.errors
    }

    pub fn error_type(&self) -> (error_type: &Option<QvOpenApiError>)
        ensures
            *error_type == self@.error_type,
    {
        &self.error_type
    }

    /// Registers `waker` as the continuation of a transaction that has not
    /// ended, in place of the one registered before unless that one already
    /// wakes the same task.
    pub fn register_waker(&mut self, waker: &Waker)
        requires
            old(self).wf(),
            !old(self)@.is_done,
        ensures
            final(self).wf(),
            final(self)@.waker is Some,
            final(self)@ == (TrStatusView { waker: final(self)@.waker, ..old(self)@ }),
    {
        let replace = match &self.waker {
            Some(registered) => !registered.will_wake(waker),
            None => true,
        };
        if replace {
            self.waker = Some(waker.clone());
        }
    }

    /// A copy of the outcome of the transaction, as it stands.
    pub fn snapshot(&self) -> (snapshot: TrSnapshot)
        requires
            self.wf(),
        ensures
            snapshot.result.wf(),
            snapshot@ == self@.snapshot(),
    {
        let mut messages: Vec<MessageResponse> = Vec::new();
        let mut i: usize = 0;
        while i < self.messages.len()
            invariant
                i <= self.messages.len(),
                messages@ == self.messages@.take(i as int),
            decreases self.messages.len() - i,
        {
            messages.push(self.messages[i].clone());
            i = i + 1;
        }
        let mut errors: Vec<ErrorResponse> = Vec::new();
        let mut j: usize = 0;
        while j < self.errors.len()
            invariant
                j <= self.errors.len(),
                errors@ == self.errors@.take(j as int),
            decreases self.errors.len() - j,
        {
            errors.push(self.errors[j].clone());
            j = j + 1;
        }
        let error_type = match &self.error_type {
            Some(error) => Some(error.clone()),
            None => None,
        };
        assert(messages@ =~= self.messages@);
        assert(errors@ =~= self.errors@);
        TrSnapshot { result: self.result.clone(), messages, errors, error_type }
    }

    /// The outcome of the transaction.
    pub fn into_snapshot(self) -> (snapshot: TrSnapshot)
        requires
            self.wf(),
        ensures
            snapshot.result.wf(),
            snapshot@ == self@.snapshot(),
    {
        let TrContextStatus { is_done: _, waker: _, result, messages, errors, error_type } = self;
        TrSnapshot { result, messages, errors, error_type }
    }
}

/// One in-flight transaction.
#[derive(Debug)]
pub struct TrContext {
    /// The correlation index the transaction owns while it is live.
    pub tr_index: i32,
    pub tr_type: TrType,
    /// When the transaction was registered, in milliseconds on the engine's
    /// clock.
    pub request_timestamp: u64,
    /// The number of the registration, which no other transaction of the
    /// engine shares.
    pub serial: u64,
    /// Whether a consumer still holds the handle of the transaction.
    pub attached: bool,
    pub status: TrContextStatus,
}

/// What a `TrContext` holds.
pub struct TrContextView {
    pub tr_index: i32,
    pub tr_type: TrType,
    pub request_timestamp: u64,
    pub serial: u64,
    pub attached: bool,
    pub status: TrStatusView,
}

impl View for TrContext {
    type V = TrContextView;

    open spec fn view(&self) -> TrContextView {
        TrContextView {
            tr_index: self.tr_index,
            tr_type: self.tr_type,
            request_timestamp: self.request_timestamp,
            serial: self.serial,
            attached: self.attached,
            status: self.status@,
        }
    }
}

impl TrContextView {
    /// A transaction as it is registered.
    pub open spec fn fresh(tr_index: i32, tr_type: TrType, request_timestamp: u64) -> TrContextView {
        TrContextView {
            tr_index,
            tr_type,
            request_timestamp,
            serial: 0,
            attached: true,
            status: TrStatusView::pending(),
        }
    }

    pub open spec fn is_done(self) -> bool {
        self.status.is_done
    }

    /// The transaction with its status replaced.
    pub open spec fn with_status(self, status: TrStatusView) -> TrContextView {
        TrContextView { status, ..self }
    }

    /// A connect result ends a connect transaction and records the session;
    /// any other transaction ignores it.
    pub open spec fn after_connect(self, response: ConnectResponseView) -> TrContextView {
        if self.status.is_done || self.tr_type != TrType::CONNECT {
            self
        } else {
            self.with_status(
                TrStatusView {
                    result: self.status.result.insert(
                        CONNECT_BLOCK_NAME@,
                        BlockDataView::Connect(response),
                    ),
                    ..self.status
                }.finished(),
            )
        }
    }

    /// A data block is recorded by a query transaction under its name, over
    /// the block recorded there before; any other transaction ignores it.
    pub open spec fn after_data(self, name: Seq<char>, data: Value) -> TrContextView {
        if self.status.is_done || self.tr_type != TrType::QUERY {
            self
        } else {
            self.with_status(
                TrStatusView {
                    result: self.status.result.insert(name, BlockDataView::Query(data)),
                    ..self.status
                },
            )
        }
    }

    /// Completion ends a query transaction; any other transaction ignores it.
    pub open spec fn after_complete(self) -> TrContextView {
        if self.status.is_done || self.tr_type != TrType::QUERY {
            self
        } else {
            self.with_status(self.status.finished())
        }
    }

    /// A forced end with `error`. A transaction that has ended stays as it is.
    pub open spec fn after_custom_error(self, error: QvOpenApiError) -> TrContextView {
        if self.status.is_done {
            self
        } else {
            self.with_status(self.status.failed(error))
        }
    }

    /// Loss of the session ends every transaction.
    pub open spec fn after_disconnect(self) -> TrContextView {
        self.after_custom_error(QvOpenApiError::NotConnectedError)
    }

    /// The liveness sweeper ends a transaction that has waited too long.
    pub open spec fn after_timeout(self) -> TrContextView {
        self.after_custom_error(QvOpenApiError::RequestTimeoutError)
    }

    /// A message is appended to the log. One that contains a phrase of
    /// `patterns` also ends the transaction, with the message as its error.
    pub open spec fn after_message(
        self,
        message: MessageResponse,
        patterns: Seq<Seq<char>>,
    ) -> TrContextView {
        if self.status.is_done {
            self
        } else {
            let logged = TrStatusView {
                messages: self.status.messages.push(message),
                ..self.status
            };
            if matches_any(message.msg@, patterns) {
                self.with_status(
                    logged.failed(
                        QvOpenApiError::QvApiMessageError {
                            message_code: message.msg_code,
                            message: message.msg,
                        },
                    ),
                )
            } else {
                self.with_status(logged)
            }
        }
    }

    /// An error event is appended to the log.
    pub open spec fn after_error_response(self, error: ErrorResponse) -> TrContextView {
        if self.status.is_done {
            self
        } else {
            self.with_status(
                TrStatusView { errors: self.status.errors.push(error), ..self.status },
            )
        }
    }
}

/// One event of the transport, addressed to one transaction.
#[derive(Debug, PartialEq, Eq)]
pub enum TrEvent {
    /// The connect handshake succeeded.
    Connect(ConnectResponse),
    /// A block of query data arrived.
    Data(DataResponse),
    /// The query has delivered all its data.
    Complete,
    /// An informational message arrived.
    Message(MessageResponse),
    /// An error event arrived.
    Error(ErrorResponse),
}

/// What a `TrEvent` holds.
pub enum TrEventView {
    Connect(ConnectResponseView),
    Data { name: Seq<char>, data: Value },
    Complete,
    Message(MessageResponse),
    Error(ErrorResponse),
}

impl View for TrEvent {
    type V = TrEventView;

    open spec fn view(&self) -> TrEventView {
        match self {
            TrEvent::Connect(response) => TrEventView::Connect(response@),
            TrEvent::Data(response) => TrEventView::Data {
                name: response.block_name@,
                data: response.block_data,
            },
            TrEvent::Complete => TrEventView::Complete,
            TrEvent::Message(message) => TrEventView::Message(*message),
            TrEvent::Error(error) => TrEventView::Error(*error),
        }
    }
}

impl TrContextView {
    /// The transaction after `event`, with messages judged against
    /// `patterns`.
    pub open spec fn after_event(self, event: TrEventView, patterns: Seq<Seq<char>>) -> TrContextView {
        match event {
            TrEventView::Connect(response) => self.after_connect(response),
            TrEventView::Data { name, data } => self.after_data(name, data),
            TrEventView::Complete => self.after_complete(),
            TrEventView::Message(message) => self.after_message(message, patterns),
            TrEventView::Error(error) => self.after_error_response(error),
        }
    }
}

impl TrContext {
    pub open spec fn wf(&self) -> bool {
        self.status.wf()
    }

    /// A transaction registered at `request_timestamp` that has received
    /// nothing.
    pub fn new(tr_index: i32, tr_type: TrType, request_timestamp: u64) -> (context: TrContext)
        ensures
            context.wf(),
            context@ == TrContextView::fresh(tr_index, tr_type, request_timestamp),
    {
        TrContext {
            tr_index,
            tr_type,
            request_timestamp,
            serial: 0,
            attached: true,
            status: TrContextStatus::new(),
        }
    }

    /// Delivers a connect result. Returns whether this ended the transaction.
    pub fn on_connect(&mut self, response: &ConnectResponse) -> (terminal: bool)
        requires
            old(self).wf(),
        ensures
            final(self).wf(),
            final(self)@ == old(self)@.after_connect(response@),
            terminal == (!old(self)@.is_done() && final(self)@.is_done()),
    {
        if self.status.is_done {
            return false;
        }
        match self.tr_type {
            TrType::CONNECT => {
                self.status.result.insert(
                    CONNECT_BLOCK_NAME.to_owned(),
                    BlockData::Connect(response.clone()),
                );
                self.status.set_done();
                true
            },
            TrType::QUERY => false,
        }
    }

    /// Delivers a data block. It never ends the transaction.
    pub fn on_data(&mut self, response: &DataResponse) -> (terminal: bool)
        requires
            old(self).wf(),
        ensures
            final(self).wf(),
            final(self)@ == old(self)@.after_data(response.block_name@, response.block_data),
            terminal == (!old(self)@.is_done() && final(self)@.is_done()),
    {
        if self.status.is_done {
            return false;
        }
        match self.tr_type {
            TrType::QUERY => {
                self.status.result.insert(
                    response.block_name.clone(),
                    BlockData::Query(response.block_data.clone()),
                );
                false
            },
            TrType::CONNECT => false,
        }
    }

    /// Delivers the completion of a query. Returns whether this ended the
    /// transaction.
    pub fn on_complete(&mut self) -> (terminal: bool)
        requires
            old(self).wf(),
        ensures
            final(self).wf(),
            final(self)@ == old(self)@.after_complete(),
            terminal == (!old(self)@.is_done() && final(self)@.is_done()),
    {
        if self.status.is_done {
            return false;
        }
        match self.tr_type {
            TrType::QUERY => {
                self.status.set_done();
                true
            },
            TrType::CONNECT => false,
        }
    }

    /// Ends the transaction because the session was lost.
    pub fn on_disconnect(&mut self) -> (terminal: bool)
        requires
            old(self).wf(),
        ensures
            final(self).wf(),
            final(self)@ == old(self)@.after_disconnect(),
            terminal == (!old(self)@.is_done() && final(self)@.is_done()),
    {
        self.on_custom_error(QvOpenApiError::NotConnectedError)
    }

    /// Delivers a message, judged against the engine's initial table of fatal
    /// phrases.
    pub fn on_message(&mut self, message: MessageResponse) -> (terminal: bool)
        requires
            old(self).wf(),
        ensures
            final(self).wf(),
            final(self)@ == old(self)@.after_message(message, default_fatal_pattern_texts()),
            terminal == (!old(self)@.is_done() && final(self)@.is_done()),
    {
        let patterns = default_fatal_patterns();
        self.on_message_with(message, &patterns)
    }

    /// Delivers a message, judged against the table `patterns`. Returns
    /// whether this ended the transaction.
    pub fn on_message_with(&mut self, message: MessageResponse, patterns: &Vec<String>) -> (terminal:
        bool)
        requires
            old(self).wf(),
        ensures
            final(self).wf(),
            final(self)@ == old(self)@.after_message(message, pattern_texts(patterns@)),
            terminal == (!old(self)@.is_done() && final(self)@.is_done()),
    {
        if self.status.is_done {
            return false;
        }
        let fatal = matches_fatal_pattern(message.msg.as_str(), patterns);
        if fatal {
            let error = QvOpenApiError::QvApiMessageError {
                message_code: message.msg_code.clone(),
                message: message.msg.clone(),
            };
            self.status.messages.push(message);
            self.status.error_type = Some(error);
            self.status.set_done();
            true
        } else {
            self.status.messages.push(message);
            false
        }
    }

    /// Delivers an error event. It never ends the transaction.
    pub fn on_error_response(&mut self, error: ErrorResponse) -> (terminal: bool)
        requires
            old(self).wf(),
        ensures
            final(self).wf(),
            final(self)@ == old(self)@.after_error_response(error),
            terminal == (!old(self)@.is_done() && final(self)@.is_done()),
    {
        if self.status.is_done {
            return false;
        }
        self.status.errors.push(error);
        false
    }

    /// Ends the transaction because it has waited too long.
    pub fn on_timeout(&mut self) -> (terminal: bool)
        requires
            old(self).wf(),
        ensures
            final(self).wf(),
            final(self)@ == old(self)@.after_timeout(),
            terminal == (!old(self)@.is_done() && final(self)@.is_done()),
    {
        self.on_custom_error(QvOpenApiError::RequestTimeoutError)
    }

    /// Ends the transaction with `error`. Returns whether this ended it: a
    /// transaction that had ended before stays as it was.
    pub fn on_custom_error(&mut self, error: QvOpenApiError) -> (terminal: bool)
        requires
            old(self).wf(),
        ensures
            final(self).wf(),
            final(self)@ == old(self)@.after_custom_error(error),
            terminal == (!old(self)@.is_done() && final(self)@.is_done()),
    {
        if self.status.is_done {
            return false;
        }
        self.status.error_type = Some(error);
        self.status.set_done();
        true
    }

    /// A copy of the outcome of the transaction, as it stands.
    pub fn snapshot(&self) -> (snapshot: TrSnapshot)
        requires
            self.wf(),
        ensures
            snapshot.result.wf(),
            snapshot@ == self@.status.snapshot(),
    {
        self.status.snapshot()
    }

    /// The outcome of the transaction.
    pub fn into_snapshot(self) -> (snapshot: TrSnapshot)
        requires
            self.wf(),
        ensures
            snapshot.result.wf(),
            snapshot@ == self@.status.snapshot(),
    {
        self.status.into_snapshot()
    }

    /// Delivers `event`, with messages judged against the table `patterns`.
    /// Returns whether this ended the transaction.
    pub fn handle(&mut self, event: TrEvent, patterns: &Vec<String>) -> (terminal: bool)
        requires
            old(self).wf(),
        ensures
            final(self).wf(),
            final(self)@ == old(self)@.after_event(event@, pattern_texts(patterns@)),
            terminal == (!old(self)@.is_done() && final(self)@.is_done()),
    {
        match event {
            TrEvent::Connect(response) => self.on_connect(&response),
            TrEvent::Data(response) => self.on_data(&response),
            TrEvent::Complete => self.on_complete(),
            TrEvent::Message(message) => self.on_message_with(message, patterns),
            TrEvent::Error(error) => self.on_error_response(error),
        }
    }
}

} // verus!
