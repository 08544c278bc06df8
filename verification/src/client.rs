//! The engine: it hands out correlation indices, keeps the registry of live
//! transactions, routes the transport's events to them, and ends the ones
//! that cannot finish.
//!
//! The engine is a sequential state machine. Whoever shares it among threads
//! holds it behind one lock, so that each of its operations is one step.

use crate::context::{
    resolves_as, TrContext, TrContextView, TrEvent, TrEventView, TrStatusView, TrType,
};
use crate::error::QvOpenApiError;
use crate::future::{TrFuture, TrPoll};
use crate::models::connect::{AccountType, ConnectResponse, ConnectResponseView, TR_INDEX_CONNECT};
use crate::models::message::{ErrorResponse, MessageResponse};
use crate::models::query::DataResponse;
use crate::pattern::{default_fatal_pattern_texts, default_fatal_patterns, pattern_texts};
use crate::registry::{expired_indices, holds_exactly, registry_inv, TrRegistry};
use std::collections::HashMap;
use std::task::Waker;
use vstd::prelude::*;

verus! {

/// The first correlation index handed to a query.
pub const INITIAL_TR_INDEX: i32 = 3;

/// The last correlation index handed to a query; the one after it is
/// `INITIAL_TR_INDEX` again.
pub const MAX_TR_INDEX: i32 = 255;

/// The age, in milliseconds, beyond which the sweeper ends a transaction.
pub const DEFAULT_TIMEOUT: u64 = 10_000;

/// The pause, in milliseconds, between two runs of the sweeper.
pub const SWEEP_INTERVAL: u64 = 100;

/// A request that can be posted to the native transport.
pub trait QvOpenApiRequest: Send + Sync {
    /// Checks, before the request is queued, that the session allows it.
    fn before_post(&self) -> Result<(), QvOpenApiError>;

    /// Hands the request to the native library under `tr_index`.
    fn call_lib(&self, tr_index: i32, hwnd: isize) -> Result<(), QvOpenApiError>;

    /// The transaction code of the request.
    fn get_tr_code(&self) -> &str;
}

/// The native transport, as the engine uses it: it accepts an operation under
/// a correlation index, or refuses it at once.
pub trait AbstractQvOpenApiClient {
    /// Starts the connect handshake; its events arrive at window `new_hwnd`.
    fn connect(
        &self,
        new_hwnd: isize,
        account_type: AccountType,
        id: &str,
        password: &str,
        cert_password: &str,
    ) -> Result<(), QvOpenApiError>;

    /// Ends the session.
    fn disconnect(&self) -> Result<(), QvOpenApiError>;

    /// Posts `req` under `tr_index`.
    fn query<R: QvOpenApiRequest + 'static>(&self, tr_index: i32, req: R) -> Result<
        (),
        QvOpenApiError,
    >;
}

/// The handle of a registered transaction: the index it was given and the
/// number of its registration.
#[derive(Debug, Clone, Copy, PartialEq, Eq)]
pub struct TrTicket {
    pub tr_index: i32,
    pub serial: u64,
}

/// What became of an event that was routed to an index.
#[derive(Debug, Clone, Copy, PartialEq, Eq)]
pub enum Delivery {
    /// No live transaction owns the index; the event was dropped.
    NoContext,
    /// The transaction took the event and is still live.
    Accepted,
    /// The event ended the transaction, which has left the registry.
    Resolved,
    /// The event was addressed to every live transaction.
    Broadcast,
    /// The engine has no use for the event.
    Ignored,
}

/// One event of the native transport, decoded.
#[derive(Debug, PartialEq, Eq)]
pub enum TransportEvent {
    /// The connect handshake succeeded.
    Connected(ConnectResponse),
    /// The session was lost.
    Disconnected,
    /// The socket of the session failed.
    SocketError,
    /// A block of data arrived for a query.
    Data(DataResponse),
    /// A block of real-time data arrived.
    Sise(DataResponse),
    /// An informational message arrived.
    Message(MessageResponse),
    /// The query under the given index is complete.
    Complete(i32),
    /// An error event arrived.
    Error(ErrorResponse),
}

/// The engine.
pub struct QvOpenApiAsyncClient<D: AbstractQvOpenApiClient> {
    delegate: D,
    tr_context_map: TrRegistry,
    resolved: HashMap<u64, TrContext>,
    next_tr_index: i32,
    next_serial: u64,
    connected_info: Option<ConnectResponse>,
    is_connecting: bool,
    is_dropping: bool,
    hwnd: isize,
    fatal_patterns: Vec<String>,
    timeout: u64,
}

/// The state of the engine.
pub struct ClientView {
    /// The live transactions, by the index each owns.
    pub registry: Map<i32, TrContextView>,
    /// The transactions that have ended and wait for their consumer, by
    /// serial.
    pub resolved: Map<u64, TrContextView>,
    /// The index the next query will be given.
    pub next_tr_index: i32,
    /// The serial the next registration will be given.
    pub next_serial: u64,
    /// The session of the last successful connect, until it is lost.
    pub connected_info: Option<ConnectResponseView>,
    /// Whether a connect handshake is outstanding.
    pub is_connecting: bool,
    /// Whether the engine has been shut down.
    pub is_dropping: bool,
    pub hwnd: isize,
    /// The phrases that make a message fatal.
    pub fatal_patterns: Seq<Seq<char>>,
    /// The age beyond which a transaction is swept.
    pub timeout: u64,
}

/// The index that follows `tr_index` in the rotation of query indices.
pub open spec fn next_index(tr_index: i32) -> i32 {
    if tr_index + 1 > MAX_TR_INDEX {
        INITIAL_TR_INDEX
    } else {
        (tr_index + 1) as i32
    }
}

/// Whether a transaction of kind `tr_type` may own `tr_index`: the reserved
/// index belongs to the connect handshake, the rotation to queries.
pub open spec fn index_fits(tr_index: i32, tr_type: TrType) -> bool {
    match tr_type {
        TrType::CONNECT => tr_index == TR_INDEX_CONNECT,
        TrType::QUERY => INITIAL_TR_INDEX <= tr_index <= MAX_TR_INDEX,
    }
}

impl ClientView {
    /// What holds of the engine between any two of its operations.
    pub open spec fn inv(self) -> bool {
        &&& INITIAL_TR_INDEX <= self.next_tr_index <= MAX_TR_INDEX
        &&& registry_inv(self.registry)
        &&& forall|k: i32| #[trigger]
            self.registry.contains_key(k) ==> self.registry[k].serial < self.next_serial
                && index_fits(k, self.registry[k].tr_type)
        &&& forall|k1: i32, k2: i32|
            self.registry.contains_key(k1) && self.registry.contains_key(k2)
                && self.registry[k1].serial == self.registry[k2].serial ==> k1 == k2
        &&& forall|s: u64| #[trigger]
            self.resolved.contains_key(s) ==> self.resolved[s].serial == s
                && self.resolved[s].is_done() && s < self.next_serial
        &&& forall|k: i32, s: u64|
            self.registry.contains_key(k) && self.resolved.contains_key(s)
                ==> self.registry[k].serial != s
        &&& self.is_connecting == self.registry.contains_key(TR_INDEX_CONNECT)
    }

    /// The engine as it is made: nothing live, nothing resolved.
    pub open spec fn initial(hwnd: isize) -> ClientView {
        ClientView {
            registry: Map::empty(),
            resolved: Map::empty(),
            next_tr_index: INITIAL_TR_INDEX,
            next_serial: 0,
            connected_info: None,
            is_connecting: false,
            is_dropping: false,
            hwnd,
            fatal_patterns: default_fatal_pattern_texts(),
            timeout: DEFAULT_TIMEOUT,
        }
    }

    /// Whether `ticket` names a live transaction.
    pub open spec fn is_live(self, ticket: TrTicket) -> bool {
        self.registry.contains_key(ticket.tr_index) && self.registry[ticket.tr_index].serial
            == ticket.serial
    }

    /// The engine after the allocator has handed out its current index.
    pub open spec fn allocated(self) -> ClientView {
        ClientView { next_tr_index: next_index(self.next_tr_index), ..self }
    }

    /// Whether a transaction can be registered under `tr_index`.
    pub open spec fn can_register(self, tr_index: i32) -> bool {
        !self.registry.contains_key(tr_index) && self.next_serial < u64::MAX
    }

    /// The transaction that a registration at the time `now` creates.
    pub open spec fn new_context(self, tr_index: i32, tr_type: TrType, now: u64) -> TrContextView {
        TrContextView { serial: self.next_serial, ..TrContextView::fresh(tr_index, tr_type, now) }
    }

    /// The engine after a transaction has been registered under `tr_index`.
    pub open spec fn registered(self, tr_index: i32, tr_type: TrType, now: u64) -> ClientView {
        ClientView {
            registry: self.registry.insert(tr_index, self.new_context(tr_index, tr_type, now)),
            next_serial: (self.next_serial + 1) as u64,
            is_connecting: self.is_connecting || tr_index == TR_INDEX_CONNECT,
            ..self
        }
    }

    /// Whether issuing an operation of kind `tr_type` under the free index
    /// `tr_index` at the time `now`, with `accepted` the answer of the
    /// transport, yields the handle `handle` and leaves the engine as
    /// `after`: an operation that the transport took stays registered and
    /// its handle holds its ticket; one that the transport refused is
    /// released at once and its handle holds the transport's error.
    pub open spec fn issued(
        self,
        tr_index: i32,
        tr_type: TrType,
        now: u64,
        accepted: Result<(), QvOpenApiError>,
        handle: Result<TrTicket, QvOpenApiError>,
        after: ClientView,
    ) -> bool {
        match accepted {
            Ok(_) => handle == Ok::<TrTicket, QvOpenApiError>(
                TrTicket { tr_index, serial: self.next_serial },
            ) && after == self.registered(tr_index, tr_type, now),
            Err(error) => handle == Err::<TrTicket, QvOpenApiError>(error) && after
                == self.registered(tr_index, tr_type, now).released(tr_index),
        }
    }

    /// The engine after the transaction under `tr_index` has been taken out
    /// of the registry without a resolution, as when the transport refuses
    /// the operation.
    pub open spec fn released(self, tr_index: i32) -> ClientView {
        ClientView {
            registry: self.registry.remove(tr_index),
            is_connecting: self.is_connecting && tr_index != TR_INDEX_CONNECT,
            ..self
        }
    }

    /// The engine after the transaction under `tr_index` has ended as
    /// `ended`: it leaves the registry, and waits for its consumer if it
    /// still has one.
    pub open spec fn evicted(self, tr_index: i32, ended: TrContextView) -> ClientView {
        ClientView {
            registry: self.registry.remove(tr_index),
            resolved: if ended.attached {
                self.resolved.insert(ended.serial, ended)
            } else {
                self.resolved
            },
            is_connecting: self.is_connecting && tr_index != TR_INDEX_CONNECT,
            ..self
        }
    }

    /// The engine after `event` has been delivered to the index `tr_index`.
    /// Without a live transaction there the event is dropped.
    pub open spec fn after_event(self, tr_index: i32, event: TrEventView) -> ClientView {
        if !self.registry.contains_key(tr_index) {
            self
        } else {
            let context = self.registry[tr_index].after_event(event, self.fatal_patterns);
            if context.is_done() {
                self.evicted(tr_index, context)
            } else {
                ClientView { registry: self.registry.insert(tr_index, context), ..self }
            }
        }
    }

    /// What becomes of `event` when it is delivered to the index `tr_index`.
    pub open spec fn delivery(self, tr_index: i32, event: TrEventView) -> Delivery {
        if !self.registry.contains_key(tr_index) {
            Delivery::NoContext
        } else if self.registry[tr_index].after_event(event, self.fatal_patterns).is_done() {
            Delivery::Resolved
        } else {
            Delivery::Accepted
        }
    }

    /// The engine after the transport has reported the session `response`:
    /// an outstanding handshake ends with it, and the session is kept.
    /// Without an outstanding handshake the report is dropped.
    pub open spec fn after_connect_result(self, response: ConnectResponseView) -> ClientView {
        if self.registry.contains_key(TR_INDEX_CONNECT) {
            ClientView {
                connected_info: Some(response),
                ..self.after_event(TR_INDEX_CONNECT, TrEventView::Connect(response))
            }
        } else {
            self
        }
    }

    /// The engine after `event` of the transport has been dispatched.
    pub open spec fn after_transport_event(self, event: TransportEvent) -> ClientView {
        match event {
            TransportEvent::Connected(response) => self.after_connect_result(response@),
            TransportEvent::Disconnected => self.after_disconnect(),
            TransportEvent::SocketError => self.after_disconnect(),
            TransportEvent::Data(response) => self.after_event(
                response.tr_index,
                TrEventView::Data { name: response.block_name@, data: response.block_data },
            ),
            TransportEvent::Sise(_) => self,
            TransportEvent::Message(message) => self.after_event(
                self.routed(message.tr_index),
                TrEventView::Message(message),
            ),
            TransportEvent::Complete(tr_index) => self.after_event(
                tr_index,
                TrEventView::Complete,
            ),
            TransportEvent::Error(error) => self.after_event(
                self.routed(error.tr_index),
                TrEventView::Error(error),
            ),
        }
    }

    /// What becomes of `event` of the transport when it is dispatched.
    pub open spec fn transport_delivery(self, event: TransportEvent) -> Delivery {
        match event {
            TransportEvent::Connected(response) => self.delivery(
                TR_INDEX_CONNECT,
                TrEventView::Connect(response@),
            ),
            TransportEvent::Disconnected => Delivery::Broadcast,
            TransportEvent::SocketError => Delivery::Broadcast,
            TransportEvent::Data(response) => self.delivery(
                response.tr_index,
                TrEventView::Data { name: response.block_name@, data: response.block_data },
            ),
            TransportEvent::Sise(_) => Delivery::Ignored,
            TransportEvent::Message(message) => self.delivery(
                self.routed(message.tr_index),
                TrEventView::Message(message),
            ),
            TransportEvent::Complete(tr_index) => self.delivery(tr_index, TrEventView::Complete),
            TransportEvent::Error(error) => self.delivery(
                self.routed(error.tr_index),
                TrEventView::Error(error),
            ),
        }
    }

    /// The index an event with the attached index `tr_index` is delivered
    /// to: while a handshake is outstanding, messages and error events go to
    /// the connect transaction.
    pub open spec fn routed(self, tr_index: i32) -> i32 {
        if self.is_connecting {
            TR_INDEX_CONNECT
        } else {
            tr_index
        }
    }

    /// Whether polling `ticket` can leave the engine as `after` and yield
    /// `polled`.
    ///
    /// A live transaction gets a waker registered and yields nothing yet. A
    /// resolved one yields its resolution, on this poll and on every later
    /// one, and stays with the engine until its handle is given up. A ticket
    /// that the engine does not know yields nothing.
    pub open spec fn polled(self, ticket: TrTicket, after: ClientView, polled: TrPoll) -> bool {
        if self.is_live(ticket) {
            let context = self.registry[ticket.tr_index];
            &&& polled == TrPoll::Pending
            &&& after.registry.contains_key(ticket.tr_index)
            &&& after.registry[ticket.tr_index].status.waker is Some
            &&& after == (ClientView {
                registry: self.registry.insert(
                    ticket.tr_index,
                    context.with_status(
                        TrStatusView {
                            waker: after.registry[ticket.tr_index].status.waker,
                            ..context.status
                        },
                    ),
                ),
                ..self
            })
        } else if self.resolved.contains_key(ticket.serial) {
            &&& polled matches TrPoll::Ready(resolution)
            &&& resolves_as(resolution, self.resolved[ticket.serial].status.snapshot())
            &&& after == self
        } else {
            polled == TrPoll::Pending && after == self
        }
    }

    /// The engine after the consumer has given up the handle `ticket`: a
    /// live transaction stays in flight without a consumer, a resolved one
    /// is dropped.
    pub open spec fn detached(self, ticket: TrTicket) -> ClientView {
        if self.is_live(ticket) {
            ClientView {
                registry: self.registry.insert(
                    ticket.tr_index,
                    TrContextView { attached: false, ..self.registry[ticket.tr_index] },
                ),
                ..self
            }
        } else {
            ClientView { resolved: self.resolved.remove(ticket.serial), ..self }
        }
    }

    /// Whether a live transaction with an index in `keys` has the serial `s`
    /// and a consumer.
    pub open spec fn awaited_in(self, keys: Set<i32>, s: u64) -> bool {
        exists|k: i32| self.owns(keys, k, s)
    }

    pub open spec fn owns(self, keys: Set<i32>, k: i32, s: u64) -> bool {
        keys.contains(k) && self.registry.contains_key(k) && self.registry[k].serial == s
            && self.registry[k].attached
    }

    /// The index of that transaction.
    pub open spec fn owner_of(self, keys: Set<i32>, s: u64) -> i32 {
        choose|k: i32| self.owns(keys, k, s)
    }

    /// The engine after every live transaction with an index in `keys` has
    /// been ended with `error`.
    pub open spec fn after_fan_out(self, keys: Set<i32>, error: QvOpenApiError) -> ClientView {
        ClientView {
            registry: self.registry.remove_keys(keys),
            resolved: Map::new(
                |s: u64| self.resolved.contains_key(s) || self.awaited_in(keys, s),
                |s: u64|
                    if self.awaited_in(keys, s) {
                        self.registry[self.owner_of(keys, s)].after_custom_error(error)
                    } else {
                        self.resolved[s]
                    },
            ),
            is_connecting: self.is_connecting && !keys.contains(TR_INDEX_CONNECT),
            ..self
        }
    }

    /// The indices of the transactions that are older than the timeout at the
    /// time `now`.
    pub open spec fn expired_keys(self, now: u64) -> Set<i32> {
        expired_indices(self.registry, now, self.timeout)
    }

    /// The engine after the sweeper has run at the time `now`.
    pub open spec fn after_sweep(self, now: u64) -> ClientView {
        self.after_fan_out(self.expired_keys(now), QvOpenApiError::RequestTimeoutError)
    }

    /// The engine after every live transaction has been ended with `error`.
    pub open spec fn after_teardown(self, error: QvOpenApiError) -> ClientView {
        self.after_fan_out(self.registry.dom(), error)
    }

    /// The engine after the session has been lost.
    pub open spec fn after_disconnect(self) -> ClientView {
        ClientView {
            connected_info: None,
            ..self.after_teardown(QvOpenApiError::NotConnectedError)
        }
    }
}

/// Ending the transactions under `keys` keeps the invariant of the engine.
pub proof fn lemma_fan_out_keeps_inv(before: ClientView, keys: Set<i32>, error: QvOpenApiError)
    requires
        before.inv(),
    ensures
        before.after_fan_out(keys, error).inv(),
{
    let after = before.after_fan_out(keys, error);
    assert forall|s: u64| #[trigger] after.resolved.contains_key(s) implies after.resolved[s].serial
        == s && after.resolved[s].is_done() && s < after.next_serial by {
        if before.awaited_in(keys, s) {
            let k = before.owner_of(keys, s);
            assert(before.owns(keys, k, s));
        }
    }
    assert forall|k: i32, s: u64|
        after.registry.contains_key(k) && after.resolved.contains_key(s) implies after.registry[k].serial
        != s by {
        if before.awaited_in(keys, s) {
            let owner = before.owner_of(keys, s);
            assert(before.owns(keys, owner, s));
        }
    }
}

impl<D: AbstractQvOpenApiClient> View for QvOpenApiAsyncClient<D> {
    type V = ClientView;

    closed spec fn view(&self) -> ClientView {
        ClientView {
            registry: self.tr_context_map@,
            resolved: Map::new(
                |s: u64| self.resolved@.contains_key(s),
                |s: u64| self.resolved@[s]@,
            ),
            next_tr_index: self.next_tr_index,
            next_serial: self.next_serial,
            connected_info: match self.connected_info {
                Some(info) => Some(info@),
                None => None,
            },
            is_connecting: self.is_connecting,
            is_dropping: self.is_dropping,
            hwnd: self.hwnd,
            fatal_patterns: pattern_texts(self.fatal_patterns@),
            timeout: self.timeout,
        }
    }
}

impl<D: AbstractQvOpenApiClient> QvOpenApiAsyncClient<D> {
    /// The parts of the engine are well formed and its state keeps the
    /// invariant.
    pub closed spec fn wf(&self) -> bool {
        &&& self.tr_context_map.wf()
        &&& forall|s: u64| #[trigger] self.resolved@.contains_key(s) ==> self.resolved@[s].wf()
        &&& self@.inv()
    }

    /// The state of a well-formed engine keeps the invariant.
    pub proof fn lemma_wf_inv(&self)
        requires
            self.wf(),
        ensures
            self@.inv(),
    {
    }

    /// The transport that the engine issues its operations to: the one it
    /// was made with, which no operation replaces.
    pub closed spec fn transport(&self) -> D {
        self.delegate
    }

    /// An engine over the transport `delegate`, whose events arrive at the
    /// window `hwnd`.
    pub fn new_custom(delegate: D, hwnd: isize) -> (client: Self)
        ensures
            client.wf(),
            client@ == ClientView::initial(hwnd),
            client.transport() == delegate,
    {
        let client = QvOpenApiAsyncClient {
            delegate,
            tr_context_map: TrRegistry::new(),
            resolved: HashMap::new(),
            next_tr_index: INITIAL_TR_INDEX,
            next_serial: 0,
            connected_info: None,
            is_connecting: false,
            is_dropping: false,
            hwnd,
            fatal_patterns: default_fatal_patterns(),
            timeout: DEFAULT_TIMEOUT,
        };
        assert(client@.resolved =~= Map::<u64, TrContextView>::empty());
        client
    }

    /// Hands out the current index of the rotation and advances the
    /// rotation. It does not look at the registry.
    pub fn get_next_tr_index(&mut self) -> (tr_index: i32)
        requires
            old(self).wf(),
        ensures
            final(self).wf(),
            final(self).transport() == old(self).transport(),
            tr_index == old(self)@.next_tr_index,
            final(self)@ == old(self)@.allocated(),
    {
        let tr_index = self.next_tr_index;
        if tr_index >= MAX_TR_INDEX {
            self.next_tr_index = INITIAL_TR_INDEX;
        } else {
            self.next_tr_index = tr_index + 1;
        }
        tr_index
    }

    /// Registers a transaction of kind `tr_type` under `tr_index`.
    fn set_context(&mut self, tr_index: i32, tr_type: TrType, now: u64) -> (registered: Result<
        TrTicket,
        QvOpenApiError,
    >)
        requires
            old(self).wf(),
            index_fits(tr_index, tr_type),
        ensures
            final(self).wf(),
            final(self).transport() == old(self).transport(),
            old(self)@.registry.contains_key(tr_index) ==> registered == Err::<
                TrTicket,
                QvOpenApiError,
            >(QvOpenApiError::DuplicateIndexError { tr_index }) && final(self)@ == old(self)@,
            !old(self)@.registry.contains_key(tr_index) && old(self)@.next_serial == u64::MAX
                ==> registered == Err::<TrTicket, QvOpenApiError>(
                QvOpenApiError::TransactionPoolFullError,
            ) && final(self)@ == old(self)@,
            old(self)@.can_register(tr_index) ==> registered == Ok::<TrTicket, QvOpenApiError>(
                TrTicket { tr_index, serial: old(self)@.next_serial },
            ) && final(self)@ == old(self)@.registered(tr_index, tr_type, now),
    {
        if self.tr_context_map.contains(tr_index) {
            return Err(QvOpenApiError::DuplicateIndexError { tr_index });
        }
        if self.next_serial == u64::MAX {
            return Err(QvOpenApiError::TransactionPoolFullError);
        }
        let serial = self.next_serial;
        let _ = self.tr_context_map.register(tr_index, tr_type, now, serial);
        self.next_serial = serial + 1;
        match tr_type {
            TrType::CONNECT => {
                self.is_connecting = true;
            },
            TrType::QUERY => {},
        }
        proof {
            self.tr_context_map.lemma_wf_inv();
        }
        Ok(TrTicket { tr_index, serial })
    }

    /// Settles a registration once the transport has answered: an operation
    /// that the transport refused will bring no events, so its transaction
    /// leaves the registry at once and its index is free again.
    pub fn finish_issue(&mut self, ticket: TrTicket, accepted: Result<(), QvOpenApiError>) -> (issued:
        Result<TrTicket, QvOpenApiError>)
        requires
            old(self).wf(),
        ensures
            final(self).wf(),
            final(self).transport() == old(self).transport(),
            match accepted {
                Ok(_) => issued == Ok::<TrTicket, QvOpenApiError>(ticket) && final(self)@ == old(self)@,
                Err(error) => issued == Err::<TrTicket, QvOpenApiError>(error) && final(self)@
                    == if old(self)@.is_live(ticket) {
                    old(self)@.released(ticket.tr_index)
                } else {
                    old(self)@
                },
            },
    {
        match accepted {
            Ok(_) => Ok(ticket),
            Err(error) => {
                let live = match self.tr_context_map.lookup(ticket.tr_index) {
                    Some(context) => context.serial == ticket.serial,
                    None => false,
                };
                if live {
                    proof {
                        self.tr_context_map.lemma_wf_inv();
                    }
                    let _ = self.tr_context_map.remove(ticket.tr_index);
                    if ticket.tr_index == TR_INDEX_CONNECT {
                        self.is_connecting = false;
                    }
                    proof {
                        self.tr_context_map.lemma_wf_inv();
                    }
                }
                Err(error)
            },
        }
    }

    /// Issues the connect handshake at the time `now`.
    ///
    /// While a handshake is outstanding the call fails with
    /// `AlreadyInProgressError` and changes nothing. Otherwise the
    /// transaction is registered under the reserved index and the handshake
    /// is handed to the transport; if the transport refuses it, the
    /// transaction is released and the transport's error is the result.
    pub fn connect(
        &mut self,
        account_type: AccountType,
        id: &str,
        password: &str,
        cert_password: &str,
        now: u64,
    ) -> (future: TrFuture)
        requires
            old(self).wf(),
        ensures
            final(self).wf(),
            final(self).transport() == old(self).transport(),
            old(self)@.registry.contains_key(TR_INDEX_CONNECT) ==> future@ == Err::<
                TrTicket,
                QvOpenApiError,
            >(QvOpenApiError::AlreadyInProgressError) && final(self)@ == old(self)@,
            !old(self)@.registry.contains_key(TR_INDEX_CONNECT) && !old(self)@.can_register(
                TR_INDEX_CONNECT,
            ) ==> future@ == Err::<TrTicket, QvOpenApiError>(
                QvOpenApiError::TransactionPoolFullError,
            ) && final(self)@ == old(self)@,
            old(self)@.can_register(TR_INDEX_CONNECT) ==> exists|
                accepted: Result<(), QvOpenApiError>,
            |
                call_ensures(
                    D::connect,
                    (
                        &old(self).transport(),
                        old(self)@.hwnd,
                        account_type,
                        id,
                        password,
                        cert_password,
                    ),
                    accepted,
                ) && #[trigger] old(self)@.issued(
                    TR_INDEX_CONNECT,
                    TrType::CONNECT,
                    now,
                    accepted,
                    future@,
                    final(self)@,
                ),
    {
        match self.set_context(TR_INDEX_CONNECT, TrType::CONNECT, now) {
            Ok(ticket) => {
                let accepted = self.delegate.connect(
                    self.hwnd,
                    account_type,
                    id,
                    password,
                    cert_password,
                );
                let future = TrFuture::new(self.finish_issue(ticket, accepted));
                assert(call_ensures(
                    D::connect,
                    (
                        &old(self).transport(),
                        old(self)@.hwnd,
                        account_type,
                        id,
                        password,
                        cert_password,
                    ),
                    accepted,
                ) && old(self)@.issued(
                    TR_INDEX_CONNECT,
                    TrType::CONNECT,
                    now,
                    accepted,
                    future@,
                    self@,
                ));
                future
            },
            Err(QvOpenApiError::DuplicateIndexError { .. }) => TrFuture::new(
                Err(QvOpenApiError::AlreadyInProgressError),
            ),
            Err(error) => TrFuture::new(Err(error)),
        }
    }

    /// Issues a query at the time `now`.
    ///
    /// The query is given the current index of the rotation, which advances
    /// in any case. If a live transaction still owns that index the call
    /// fails with `TransactionPoolFullError`. Otherwise the transaction is
    /// registered and the request is handed to the transport; if the
    /// transport refuses it, the transaction is released and the transport's
    /// error is the result.
    pub fn query<R: QvOpenApiRequest + 'static>(&mut self, req: R, now: u64) -> (future: TrFuture)
        requires
            old(self).wf(),
        ensures
            final(self).wf(),
            final(self).transport() == old(self).transport(),
            !old(self)@.can_register(old(self)@.next_tr_index) ==> future@ == Err::<
                TrTicket,
                QvOpenApiError,
            >(QvOpenApiError::TransactionPoolFullError) && final(self)@ == old(self)@.allocated(),
            old(self)@.can_register(old(self)@.next_tr_index) ==> exists|
                accepted: Result<(), QvOpenApiError>,
            | #[trigger]
                old(self)@.allocated().issued(
                    old(self)@.next_tr_index,
                    TrType::QUERY,
                    now,
                    accepted,
                    future@,
                    final(self)@,
                ),
    {
        let tr_index = self.get_next_tr_index();
        match self.set_context(tr_index, TrType::QUERY, now) {
            Ok(ticket) => {
                let accepted = self.delegate.query(tr_index, req);
                let future = TrFuture::new(self.finish_issue(ticket, accepted));
                assert(old(self)@.allocated().issued(
                    tr_index,
                    TrType::QUERY,
                    now,
                    accepted,
                    future@,
                    self@,
                ));
                future
            },
            Err(_) => TrFuture::new(Err(QvOpenApiError::TransactionPoolFullError)),
        }
    }

    /// The session of the last successful connect, while it lasts.
    pub fn get_connect_info(&self) -> (info: Result<ConnectResponse, QvOpenApiError>)
        ensures
            match self@.connected_info {
                Some(session) => info matches Ok(found) && found@ == session,
                None => info == Err::<ConnectResponse, QvOpenApiError>(
                    QvOpenApiError::NotConnectedError,
                ),
            },
    {
        match &self.connected_info {
            Some(session) => Ok(session.clone()),
            None => Err(QvOpenApiError::NotConnectedError),
        }
    }

    /// Delivers `event` to the transaction that owns `tr_index`, and takes
    /// the transaction out of the registry in the same step if the event
    /// ended it. Without such a transaction the event is dropped.
    pub fn handle_callback(&mut self, tr_index: i32, event: TrEvent) -> (delivery: Delivery)
        requires
            old(self).wf(),
        ensures
            final(self).wf(),
            final(self).transport() == old(self).transport(),
            final(self)@ == old(self)@.after_event(tr_index, event@),
            delivery == old(self)@.delivery(tr_index, event@),
    {
        proof {
            self.tr_context_map.lemma_wf_inv();
        }
        match self.tr_context_map.remove(tr_index) {
            None => {
                assert(self@.registry =~= old(self)@.registry);
                Delivery::NoContext
            },
            Some(mut context) => {
                let terminal = context.handle(event, &self.fatal_patterns);
                if terminal {
                    if tr_index == TR_INDEX_CONNECT {
                        self.is_connecting = false;
                    }
                    if context.attached {
                        let ghost ended = context@;
                        self.resolved.insert(context.serial, context);
                        assert(self@.resolved =~= old(self)@.resolved.insert(ended.serial, ended));
                    }
                    proof {
                        self.tr_context_map.lemma_wf_inv();
                    }
                    Delivery::Resolved
                } else {
                    let ghost kept = context@;
                    self.tr_context_map.restore(context);
                    proof {
                        self.tr_context_map.lemma_wf_inv();
                        assert(self@.registry =~= old(self)@.registry.insert(tr_index, kept));
                    }
                    Delivery::Accepted
                }
            },
        }
    }

    /// The transport reports that the connect handshake succeeded.
    pub fn on_connect(&mut self, response: &ConnectResponse) -> (delivery: Delivery)
        requires
            old(self).wf(),
        ensures
            final(self).wf(),
            final(self).transport() == old(self).transport(),
            final(self)@ == old(self)@.after_connect_result(response@),
            !final(self)@.is_connecting,
            delivery == old(self)@.delivery(TR_INDEX_CONNECT, TrEventView::Connect(response@)),
    {
        proof {
            self.tr_context_map.lemma_wf_inv();
        }
        if self.tr_context_map.contains(TR_INDEX_CONNECT) {
            self.connected_info = Some(response.clone());
            self.handle_callback(TR_INDEX_CONNECT, TrEvent::Connect(response.clone()))
        } else {
            Delivery::NoContext
        }
    }

    /// The transport delivers a block of data for the query under
    /// `response.tr_index`.
    pub fn on_data(&mut self, response: &DataResponse) -> (delivery: Delivery)
        requires
            old(self).wf(),
        ensures
            final(self).wf(),
            final(self).transport() == old(self).transport(),
            final(self)@ == old(self)@.after_event(
                response.tr_index,
                TrEventView::Data { name: response.block_name@, data: response.block_data },
            ),
            delivery == old(self)@.delivery(
                response.tr_index,
                TrEventView::Data { name: response.block_name@, data: response.block_data },
            ),
    {
        self.handle_callback(response.tr_index, TrEvent::Data(response.clone()))
    }

    /// The transport reports that the query under `tr_index` is complete.
    pub fn on_complete(&mut self, tr_index: i32) -> (delivery: Delivery)
        requires
            old(self).wf(),
        ensures
            final(self).wf(),
            final(self).transport() == old(self).transport(),
            final(self)@ == old(self)@.after_event(tr_index, TrEventView::Complete),
            delivery == old(self)@.delivery(tr_index, TrEventView::Complete),
    {
        self.handle_callback(tr_index, TrEvent::Complete)
    }

    /// The transport delivers a message. While a handshake is outstanding it
    /// goes to the connect transaction, whatever index is attached to it.
    pub fn on_message(&mut self, message: &MessageResponse) -> (delivery: Delivery)
        requires
            old(self).wf(),
        ensures
            final(self).wf(),
            final(self).transport() == old(self).transport(),
            final(self)@ == old(self)@.after_event(
                old(self)@.routed(message.tr_index),
                TrEventView::Message(*message),
            ),
            delivery == old(self)@.delivery(
                old(self)@.routed(message.tr_index),
                TrEventView::Message(*message),
            ),
    {
        let tr_index = if self.is_connecting {
            TR_INDEX_CONNECT
        } else {
            message.tr_index
        };
        self.handle_callback(tr_index, TrEvent::Message(message.clone()))
    }

    /// The transport delivers an error event. While a handshake is
    /// outstanding it goes to the connect transaction, whatever index is
    /// attached to it.
    pub fn on_error(&mut self, error: &ErrorResponse) -> (delivery: Delivery)
        requires
            old(self).wf(),
        ensures
            final(self).wf(),
            final(self).transport() == old(self).transport(),
            final(self)@ == old(self)@.after_event(
                old(self)@.routed(error.tr_index),
                TrEventView::Error(*error),
            ),
            delivery == old(self)@.delivery(
                old(self)@.routed(error.tr_index),
                TrEventView::Error(*error),
            ),
    {
        let tr_index = if self.is_connecting {
            TR_INDEX_CONNECT
        } else {
            error.tr_index
        };
        self.handle_callback(tr_index, TrEvent::Error(error.clone()))
    }

    /// Ends each of `ended` with `error` and files those that still have a
    /// consumer among the resolved transactions.
    fn resolve_into(
        resolved: &mut HashMap<u64, TrContext>,
        ended: Vec<TrContext>,
        error: &QvOpenApiError,
    )
        requires
            forall|s: u64| #[trigger]
                old(resolved)@.contains_key(s) ==> old(resolved)@[s].wf() && old(resolved)@[s]@.is_done(),
            forall|j: int|
                0 <= j < ended@.len() ==> (#[trigger] ended@[j]).wf() && !ended@[j]@.is_done()
                    && !old(resolved)@.contains_key(ended@[j].serial),
            forall|i: int, j: int|
                0 <= i < j < ended@.len() ==> ended@[i].serial != ended@[j].serial,
        ensures
            forall|s: u64| #[trigger]
                final(resolved)@.contains_key(s) <==> (old(resolved)@.contains_key(s)
                    || Self::resolves(ended@, 0, s)),
            forall|s: u64| #[trigger]
                final(resolved)@.contains_key(s) ==> final(resolved)@[s].wf() && final(resolved)@[s]@.is_done(),
            forall|s: u64| #[trigger]
                old(resolved)@.contains_key(s) ==> final(resolved)@[s] == old(resolved)@[s],
            forall|j: int|
                0 <= j < ended@.len() && (#[trigger] ended@[j]).attached ==> final(resolved)@[ended@[j].serial]@ == ended@[j]@.after_custom_error(*error),
    {
        let ghost all = ended@;
        let mut ended = ended;
        while ended.len() > 0
            invariant
                ended@.len() <= all.len(),
                ended@ == all.take(ended@.len() as int),
                forall|j: int|
                    0 <= j < all.len() ==> (#[trigger] all[j]).wf() && !all[j]@.is_done() && !old(resolved)@.contains_key(all[j].serial),
                forall|i: int, j: int| 0 <= i < j < all.len() ==> all[i].serial != all[j].serial,
                forall|s: u64| #[trigger]
                    old(resolved)@.contains_key(s) ==> old(resolved)@[s].wf() && old(resolved)@[s]@.is_done(),
                forall|s: u64| #[trigger]
                    resolved@.contains_key(s) <==> (old(resolved)@.contains_key(s)
                        || Self::resolves(all, ended@.len() as int, s)),
                forall|s: u64| #[trigger]
                    resolved@.contains_key(s) ==> resolved@[s].wf() && resolved@[s]@.is_done(),
                forall|s: u64| #[trigger]
                    old(resolved)@.contains_key(s) ==> resolved@[s] == old(resolved)@[s],
                forall|j: int|
                    ended@.len() <= j < all.len() && (#[trigger] all[j]).attached
                        ==> resolved@[all[j].serial]@ == all[j]@.after_custom_error(*error),
            decreases ended@.len(),
        {
            let ghost at: int = ended@.len() - 1;
            let ghost filed = resolved@;
            let popped = ended.pop();
            let mut context = popped.unwrap();
            assert(context == all[at]);
            let _ = context.on_custom_error(error.clone());
            if context.attached {
                resolved.insert(context.serial, context);
            }
            proof {
                assert forall|s: u64| #[trigger]
                    resolved@.contains_key(s) <==> (old(resolved)@.contains_key(s)
                        || Self::resolves(all, at, s)) by {
                    assert(filed.contains_key(s) <==> (old(resolved)@.contains_key(s)
                        || Self::resolves(all, at + 1, s)));
                    if Self::resolves(all, at, s) {
                        let j = choose|j: int|
                            at <= j < all.len() && all[j].serial == s && all[j].attached;
                        if j > at {
                            assert(at + 1 <= j < all.len() && all[j].serial == s
                                && all[j].attached);
                        }
                    }
                    if Self::resolves(all, at + 1, s) {
                        let j = choose|j: int|
                            at + 1 <= j < all.len() && all[j].serial == s && all[j].attached;
                        assert(at <= j < all.len() && all[j].serial == s && all[j].attached);
                    }
                    if all[at].serial == s && all[at].attached {
                        assert(at <= at < all.len() && all[at].serial == s && all[at].attached);
                    }
                }
                assert forall|j: int| at <= j < all.len() && (#[trigger] all[j]).attached implies
                    resolved@[all[j].serial]@ == all[j]@.after_custom_error(*error) by {
                    if j > at {
                        assert(filed[all[j].serial]@ == all[j]@.after_custom_error(*error));
                    }
                }
                assert(ended@ == all.take(at));
            }
        }
    }

    /// Whether one of `ended`, from position `from` on, has the serial `s`
    /// and a consumer.
    spec fn resolves(ended: Seq<TrContext>, from: int, s: u64) -> bool {
        exists|j: int| from <= j < ended.len() && ended[j].serial == s && ended[j].attached
    }

    /// What `resolve_into` files for the transactions `ended`, taken from the
    /// indices `keys` of the registry of `before`, is what the fan-out over
    /// `keys` leaves among the resolved transactions.
    proof fn lemma_fan_out(
        before: ClientView,
        keys: Set<i32>,
        error: QvOpenApiError,
        ended: Seq<TrContext>,
        filed: Map<u64, TrContextView>,
    )
        requires
            before.inv(),
            holds_exactly(ended, before.registry.restrict(keys)),
            forall|s: u64| #[trigger]
                filed.contains_key(s) <==> (before.resolved.contains_key(s) || Self::resolves(
                    ended,
                    0,
                    s,
                )),
            forall|s: u64| #[trigger]
                before.resolved.contains_key(s) ==> filed[s] == before.resolved[s],
            forall|j: int|
                0 <= j < ended.len() && (#[trigger] ended[j]).attached ==> filed[ended[j].serial]
                    == ended[j]@.after_custom_error(error),
        ensures
            filed == before.after_fan_out(keys, error).resolved,
    {
        let swept = before.registry.restrict(keys);
        let target = before.after_fan_out(keys, error).resolved;
        assert forall|s: u64| Self::resolves(ended, 0, s) <==> before.awaited_in(keys, s) by {
            if Self::resolves(ended, 0, s) {
                let j = choose|j: int|
                    0 <= j < ended.len() && ended[j].serial == s && ended[j].attached;
                assert(swept.contains_key(ended[j].tr_index));
                assert(before.owns(keys, ended[j].tr_index, s));
            }
            if before.awaited_in(keys, s) {
                let k = before.owner_of(keys, s);
                assert(before.owns(keys, k, s));
                assert(swept.contains_key(k));
                let j = choose|j: int| 0 <= j < ended.len() && ended[j].tr_index == k;
                assert(swept[ended[j].tr_index] == ended[j]@);
                assert(0 <= j < ended.len() && ended[j].serial == s && ended[j].attached);
            }
        }
        assert forall|s: u64| filed.contains_key(s) implies #[trigger] filed[s] == target[s] by {
            if before.awaited_in(keys, s) {
                let k = before.owner_of(keys, s);
                assert(before.owns(keys, k, s));
                assert(swept.contains_key(k));
                let j = choose|j: int| 0 <= j < ended.len() && ended[j].tr_index == k;
                assert(swept[ended[j].tr_index] == ended[j]@);
                assert(ended[j].attached);
            }
        }
        assert(filed =~= target);
    }

    /// The transactions taken from the registry can be handed to
    /// `resolve_into`: they are live, and their serials are new to the
    /// resolved transactions and differ from one another.
    proof fn lemma_ended_serials(before: ClientView, keys: Set<i32>, ended: Seq<TrContext>)
        requires
            before.inv(),
            holds_exactly(ended, before.registry.restrict(keys)),
        ensures
            forall|j: int|
                0 <= j < ended.len() ==> (#[trigger] ended[j]).wf() && !ended[j]@.is_done()
                    && !before.resolved.contains_key(ended[j].serial),
            forall|i: int, j: int| 0 <= i < j < ended.len() ==> ended[i].serial != ended[j].serial,
    {
        let swept = before.registry.restrict(keys);
        assert forall|j: int| 0 <= j < ended.len() implies (#[trigger] ended[j]).wf()
            && !ended[j]@.is_done() && !before.resolved.contains_key(ended[j].serial) by {
            assert(swept.contains_key(ended[j].tr_index));
            assert(before.registry.contains_key(ended[j].tr_index));
        }
        assert forall|i: int, j: int| 0 <= i < j < ended.len() implies ended[i].serial
            != ended[j].serial by {
            assert(swept.contains_key(ended[i].tr_index));
            assert(swept.contains_key(ended[j].tr_index));
            assert(swept[ended[i].tr_index] == ended[i]@);
            assert(swept[ended[j].tr_index] == ended[j]@);
        }
    }

    /// Ends every live transaction with `error` and empties the registry, so
    /// that no consumer is left waiting. On an empty registry nothing
    /// changes.
    pub fn teardown(&mut self, error: QvOpenApiError)
        requires
            old(self).wf(),
        ensures
            final(self).wf(),
            final(self).transport() == old(self).transport(),
            final(self)@ == old(self)@.after_teardown(error),
    {
        let ghost before = self@;
        let ghost keys = before.registry.dom();
        let drained = self.tr_context_map.drain();
        proof {
            assert(before.registry.restrict(keys) =~= before.registry);
            Self::lemma_ended_serials(before, keys, drained@);
            assert forall|s: u64| #[trigger] self.resolved@.contains_key(s) implies self.resolved@[s]@.is_done() by {
                assert(before.resolved.contains_key(s));
            }
        }
        Self::resolve_into(&mut self.resolved, drained, &error);
        self.is_connecting = false;
        proof {
            Self::lemma_fan_out(before, keys, error, drained@, self@.resolved);
            assert(self@.registry =~= before.registry.remove_keys(keys));
            lemma_fan_out_keeps_inv(before, keys, error);
        }
    }

    /// Ends every transaction that is older than the timeout at the time
    /// `now` with `RequestTimeoutError` and takes it out of the registry.
    pub fn check_expired(&mut self, now: u64)
        requires
            old(self).wf(),
        ensures
            final(self).wf(),
            final(self).transport() == old(self).transport(),
            final(self)@ == old(self)@.after_sweep(now),
    {
        let ghost before = self@;
        let ghost keys = before.expired_keys(now);
        let expired = self.tr_context_map.sweep_expired(now, self.timeout);
        proof {
            Self::lemma_ended_serials(before, keys, expired@);
            assert forall|s: u64| #[trigger] self.resolved@.contains_key(s) implies self.resolved@[s]@.is_done() by {
                assert(before.resolved.contains_key(s));
            }
        }
        let error = QvOpenApiError::RequestTimeoutError;
        Self::resolve_into(&mut self.resolved, expired, &error);
        self.is_connecting = self.tr_context_map.contains(TR_INDEX_CONNECT);
        proof {
            Self::lemma_fan_out(before, keys, error, expired@, self@.resolved);
            lemma_fan_out_keeps_inv(before, keys, error);
        }
    }

    /// The transport reports that the session was lost: every live
    /// transaction ends with `NotConnectedError`, and the session is
    /// forgotten.
    pub fn on_disconnect(&mut self)
        requires
            old(self).wf(),
        ensures
            final(self).wf(),
            final(self).transport() == old(self).transport(),
            final(self)@ == old(self)@.after_disconnect(),
    {
        self.teardown(QvOpenApiError::NotConnectedError);
        self.connected_info = None;
    }

    /// The transport reports a socket error: the session is torn down as on
    /// a disconnect, and the transport is then told to disconnect. Returns
    /// the transport's answer.
    pub fn on_socket_error(&mut self) -> (told: Result<(), QvOpenApiError>)
        requires
            old(self).wf(),
        ensures
            final(self).wf(),
            final(self).transport() == old(self).transport(),
            final(self)@ == old(self)@.after_disconnect(),
            call_ensures(D::disconnect, (&old(self).transport(),), told),
    {
        self.on_disconnect();
        self.delegate.disconnect()
    }

    /// Ends the session on the consumer's request: the transport is told to
    /// disconnect, and every live transaction ends with `NotConnectedError`.
    /// Returns the transport's answer.
    pub fn disconnect(&mut self) -> (told: Result<(), QvOpenApiError>)
        requires
            old(self).wf(),
        ensures
            final(self).wf(),
            final(self).transport() == old(self).transport(),
            final(self)@ == old(self)@.after_disconnect(),
            call_ensures(D::disconnect, (&old(self).transport(),), told),
    {
        let told = self.delegate.disconnect();
        self.on_disconnect();
        told
    }

    /// Shuts the engine down: every live transaction ends with
    /// `UnknownError`.
    pub fn shutdown(&mut self)
        requires
            old(self).wf(),
        ensures
            final(self).wf(),
            final(self).transport() == old(self).transport(),
            final(self)@ == (ClientView {
                is_dropping: true,
                ..old(self)@.after_teardown(QvOpenApiError::UnknownError)
            }),
    {
        self.teardown(QvOpenApiError::UnknownError);
        self.is_dropping = true;
    }

    /// Whether the engine has been shut down, upon which the sweeper stops.
    pub fn is_dropping(&self) -> (dropping: bool)
        ensures
            dropping == self@.is_dropping,
    {
        self.is_dropping
    }

    /// Polls the transaction that `ticket` names, on behalf of the task that
    /// `waker` wakes.
    pub fn poll(&mut self, ticket: TrTicket, waker: &Waker) -> (polled: TrPoll)
        requires
            old(self).wf(),
        ensures
            final(self).wf(),
            final(self).transport() == old(self).transport(),
            old(self)@.polled(ticket, final(self)@, polled),
    {
        proof {
            self.tr_context_map.lemma_wf_inv();
        }
        let live = match self.tr_context_map.lookup(ticket.tr_index) {
            Some(context) => context.serial == ticket.serial,
            None => false,
        };
        if live {
            let mut context = self.tr_context_map.remove(ticket.tr_index).unwrap();
            context.status.register_waker(waker);
            let ghost kept = context@;
            self.tr_context_map.restore(context);
            proof {
                self.tr_context_map.lemma_wf_inv();
                assert(self@.registry =~= old(self)@.registry.insert(ticket.tr_index, kept));
            }
            TrPoll::Pending
        } else {
            match self.resolved.get(&ticket.serial) {
                Some(context) => {
                    assert(old(self)@.resolved.contains_key(ticket.serial));
                    TrPoll::Ready(context.snapshot().into_result())
                },
                None => TrPoll::Pending,
            }
        }
    }

    /// Records that the consumer has given up the handle `ticket`.
    pub fn detach(&mut self, ticket: TrTicket)
        requires
            old(self).wf(),
        ensures
            final(self).wf(),
            final(self).transport() == old(self).transport(),
            final(self)@ == old(self)@.detached(ticket),
    {
        proof {
            self.tr_context_map.lemma_wf_inv();
        }
        let live = match self.tr_context_map.lookup(ticket.tr_index) {
            Some(context) => context.serial == ticket.serial,
            None => false,
        };
        if live {
            let mut context = self.tr_context_map.remove(ticket.tr_index).unwrap();
            context.attached = false;
            let ghost kept = context@;
            self.tr_context_map.restore(context);
            proof {
                self.tr_context_map.lemma_wf_inv();
                assert(self@.registry =~= old(self)@.registry.insert(ticket.tr_index, kept));
            }
        } else {
            let _ = self.resolved.remove(&ticket.serial);
            assert(self@.resolved =~= old(self)@.resolved.remove(ticket.serial));
        }
    }

    /// Whether a connect handshake is outstanding.
    pub fn is_connecting(&self) -> (connecting: bool)
        ensures
            connecting == self@.is_connecting,
    {
        self.is_connecting
    }

    /// The live transaction that owns `tr_index`, if one does.
    pub fn lookup(&self, tr_index: i32) -> (found: Option<&TrContext>)
        requires
            self.wf(),
        ensures
            match found {
                Some(context) => self@.registry.contains_key(tr_index) && self@.registry[tr_index]
                    == context@ && context.wf(),
                None => !self@.registry.contains_key(tr_index),
            },
    {
        self.tr_context_map.lookup(tr_index)
    }

    /// The number of live transactions.
    pub fn live_count(&self) -> (count: usize)
        ensures
            count == self@.registry.dom().len(),
    {
        self.tr_context_map.len()
    }

    /// The number of transactions that have ended and wait for their
    /// consumer.
    pub fn resolved_count(&self) -> (count: usize)
        ensures
            count == self@.resolved.dom().len(),
    {
        assert(self@.resolved.dom() =~= self.resolved@.dom());
        self.resolved.len()
    }

    /// The index that the next query will be given.
    pub fn next_tr_index(&self) -> (tr_index: i32)
        ensures
            tr_index == self@.next_tr_index,
    {
        self.next_tr_index
    }

    /// The window at which the transport's events arrive.
    pub fn hwnd(&self) -> (hwnd: isize)
        ensures
            hwnd == self@.hwnd,
    {
        self.hwnd
    }

    /// The age, in milliseconds, beyond which a transaction is swept.
    pub fn timeout(&self) -> (timeout: u64)
        ensures
            timeout == self@.timeout,
    {
        self.timeout
    }

    /// Sets the age beyond which a transaction is swept.
    pub fn set_timeout(&mut self, timeout: u64)
        requires
            old(self).wf(),
        ensures
            final(self).wf(),
            final(self).transport() == old(self).transport(),
            final(self)@ == (ClientView { timeout, ..old(self)@ }),
    {
        self.timeout = timeout;
    }

    /// Replaces the table of phrases that make a message fatal.
    pub fn set_fatal_patterns(&mut self, patterns: Vec<String>)
        requires
            old(self).wf(),
        ensures
            final(self).wf(),
            final(self).transport() == old(self).transport(),
            final(self)@ == (ClientView {
                fatal_patterns: pattern_texts(patterns@),
                ..old(self)@
            }),
    {
        self.fatal_patterns = patterns;
    }

    /// The transport the engine issues its operations to.
    pub fn delegate(&self) -> (delegate: &D)
        ensures
            *delegate == self.transport(),
    {
        &self.delegate
    }

    /// Dispatches one event of the transport: an event that belongs to one
    /// transaction is routed to it, the loss of the session is told to all.
    /// The result is an error only where the transport, told to disconnect
    /// after a socket error, refused.
    pub fn dispatch(&mut self, event: TransportEvent) -> (delivery: Result<
        Delivery,
        QvOpenApiError,
    >)
        requires
            old(self).wf(),
        ensures
            final(self).wf(),
            final(self).transport() == old(self).transport(),
            final(self)@ == old(self)@.after_transport_event(event),
            event is SocketError || delivery == Ok::<Delivery, QvOpenApiError>(
                old(self)@.transport_delivery(event),
            ),
            delivery matches Ok(delivered) ==> delivered == old(self)@.transport_delivery(event),
            event is SocketError ==> exists|told: Result<(), QvOpenApiError>| #[trigger]
                call_ensures(D::disconnect, (&old(self).transport(),), told) && delivery
                    == match told {
                    Ok(_) => Ok::<Delivery, QvOpenApiError>(Delivery::Broadcast),
                    Err(error) => Err::<Delivery, QvOpenApiError>(error),
                },
    {
        match event {
            TransportEvent::Connected(response) => Ok(self.on_connect(&response)),
            TransportEvent::Disconnected => {
                self.on_disconnect();
                Ok(Delivery::Broadcast)
            },
            TransportEvent::SocketError => {
                match self.on_socket_error() {
                    Ok(_) => Ok(Delivery::Broadcast),
                    Err(error) => Err(error),
                }
            },
            TransportEvent::Data(response) => Ok(self.on_data(&response)),
            TransportEvent::Sise(_) => Ok(Delivery::Ignored),
            TransportEvent::Message(message) => Ok(self.on_message(&message)),
            TransportEvent::Complete(tr_index) => Ok(self.on_complete(tr_index)),
            TransportEvent::Error(error) => Ok(self.on_error(&error)),
        }
    }
}

} // verus!
