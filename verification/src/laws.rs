//! What holds of the engine across its operations, proved from the state
//! functions that the contracts of the operations use.

use crate::client::{
    index_fits, lemma_fan_out_keeps_inv, next_index, ClientView, TrTicket, INITIAL_TR_INDEX,
    MAX_TR_INDEX,
};
use crate::context::{
    resolves_as, same_resolution, BlockDataView, TrContextView, TrEventView, TrSnapshot, TrType,
};
use crate::error::QvOpenApiError;
use crate::future::TrPoll;
use crate::models::connect::{ConnectResponseView, TR_INDEX_CONNECT};
use crate::registry::is_expired;
use serde_json::Value;
use vstd::prelude::*;

verus! {

/// The number of indices in the rotation of query indices.
pub open spec fn pool_size() -> int {
    MAX_TR_INDEX - INITIAL_TR_INDEX + 1
}

/// An event leaves a transaction that has ended as it is: a transaction is
/// resolved once.
pub proof fn law_done_is_final(context: TrContextView, event: TrEventView, patterns: Seq<Seq<char>>)
    requires
        context.is_done(),
    ensures
        context.after_event(event, patterns) == context,
        context.after_custom_error(QvOpenApiError::RequestTimeoutError) == context,
        context.after_disconnect() == context,
{
}

/// A query that is completed before any data has arrived ends with an empty
/// result and without an error, and its consumer receives that outcome.
pub proof fn law_completion_without_data(
    tr_index: i32,
    now: u64,
    resolution: Result<TrSnapshot, QvOpenApiError>,
)
    ensures
        ({
            let ended = TrContextView::fresh(tr_index, TrType::QUERY, now).after_complete();
            &&& ended.is_done()
            &&& ended.status.result == Map::<Seq<char>, BlockDataView>::empty()
            &&& ended.status.error_type is None
            &&& resolves_as(resolution, ended.status.snapshot()) ==> resolution is Ok
        }),
{
}

/// Of two data blocks delivered to a live query under one name, only the
/// second is kept: the query is as if the first had never arrived, and it
/// completes with the second under that name.
pub proof fn law_data_overwrites(context: TrContextView, name: Seq<char>, first: Value, second: Value)
    requires
        !context.is_done(),
        context.tr_type == TrType::QUERY,
    ensures
        context.after_data(name, first).after_data(name, second) == context.after_data(
            name,
            second,
        ),
        ({
            let ended = context.after_data(name, first).after_data(name, second).after_complete();
            &&& ended.is_done()
            &&& ended.status.result == context.status.result.insert(
                name,
                BlockDataView::Query(second),
            )
            &&& ended.status.result[name] == BlockDataView::Query(second)
        }),
{
    let once = context.after_data(name, second);
    let twice = context.after_data(name, first).after_data(name, second);
    assert(twice.status.result =~= once.status.result);
}

/// No two live transactions own the same correlation index.
pub proof fn law_live_indices_distinct(state: ClientView, first: i32, second: i32)
    requires
        state.inv(),
        state.registry.contains_key(first),
        state.registry.contains_key(second),
        state.registry[first].tr_index == state.registry[second].tr_index,
    ensures
        first == second,
{
}

/// No two transactions that the engine holds, live or resolved, share a
/// serial: a ticket names at most one of them.
pub proof fn law_ticket_names_one(state: ClientView, ticket: TrTicket)
    requires
        state.inv(),
    ensures
        !(state.is_live(ticket) && state.resolved.contains_key(ticket.serial)),
        forall|k: i32| #[trigger]
            state.registry.contains_key(k) && state.registry[k].serial == ticket.serial
                && state.is_live(ticket) ==> k == ticket.tr_index,
{
}

/// Advancing the rotation keeps the invariant of the engine.
pub proof fn law_allocation_keeps_inv(state: ClientView)
    requires
        state.inv(),
    ensures
        state.allocated().inv(),
{
}

/// Registering a transaction under a free index that fits its kind keeps the
/// invariant of the engine.
pub proof fn law_registration_keeps_inv(state: ClientView, tr_index: i32, tr_type: TrType, now: u64)
    requires
        state.inv(),
        state.can_register(tr_index),
        index_fits(tr_index, tr_type),
    ensures
        state.registered(tr_index, tr_type, now).inv(),
{
}

/// Releasing a transaction keeps the invariant of the engine.
pub proof fn law_release_keeps_inv(state: ClientView, tr_index: i32)
    requires
        state.inv(),
    ensures
        state.released(tr_index).inv(),
{
}

/// Delivering an event keeps the invariant of the engine.
pub proof fn law_event_keeps_inv(state: ClientView, tr_index: i32, event: TrEventView)
    requires
        state.inv(),
    ensures
        state.after_event(tr_index, event).inv(),
{
}

/// The report of a session keeps the invariant of the engine and ends the
/// handshake.
pub proof fn law_connect_result_keeps_inv(state: ClientView, response: ConnectResponseView)
    requires
        state.inv(),
    ensures
        state.after_connect_result(response).inv(),
        !state.after_connect_result(response).is_connecting,
{
    if state.registry.contains_key(TR_INDEX_CONNECT) {
        let delivered = state.after_event(TR_INDEX_CONNECT, TrEventView::Connect(response));
        assert(delivered.inv());
    }
}

/// Polling a handle and giving one up keep the invariant of the engine.
pub proof fn law_consumer_keeps_inv(
    state: ClientView,
    ticket: TrTicket,
    after_poll: ClientView,
    polled: TrPoll,
)
    requires
        state.inv(),
        state.polled(ticket, after_poll, polled),
    ensures
        after_poll.inv(),
        state.detached(ticket).inv(),
{
}

/// A fan-out, the sweep, the teardown and the loss of the session keep the
/// invariant of the engine.
pub proof fn law_fan_out_keeps_inv(state: ClientView, now: u64, error: QvOpenApiError)
    requires
        state.inv(),
    ensures
        state.after_sweep(now).inv(),
        state.after_teardown(error).inv(),
        state.after_disconnect().inv(),
{
    lemma_fan_out_keeps_inv(state, state.expired_keys(now), QvOpenApiError::RequestTimeoutError);
    lemma_fan_out_keeps_inv(state, state.registry.dom(), error);
    lemma_fan_out_keeps_inv(state, state.registry.dom(), QvOpenApiError::NotConnectedError);
}

/// An event that ends a transaction takes it out of the registry in the same
/// step, so that its index is free at once.
pub proof fn law_terminal_event_frees_index(state: ClientView, tr_index: i32, event: TrEventView)
    requires
        state.inv(),
        state.registry.contains_key(tr_index),
        state.registry[tr_index].after_event(event, state.fatal_patterns).is_done(),
    ensures
        !state.after_event(tr_index, event).registry.contains_key(tr_index),
        state.after_event(tr_index, event).can_register(tr_index) == (state.next_serial
            < u64::MAX),
        state.registry[tr_index].attached ==> state.after_event(
            tr_index,
            event,
        ).resolved[state.registry[tr_index].serial] == state.registry[tr_index].after_event(
            event,
            state.fatal_patterns,
        ),
{
}

/// When the session is lost, every live transaction ends with
/// `NotConnectedError`, the registry is empty, and every consumer that polls
/// its handle afterwards receives that error.
pub proof fn law_disconnect_resolves_all(
    state: ClientView,
    ticket: TrTicket,
    after_poll: ClientView,
    polled: TrPoll,
)
    requires
        state.inv(),
        state.is_live(ticket),
        state.registry[ticket.tr_index].attached,
        state.after_disconnect().polled(ticket, after_poll, polled),
    ensures
        state.after_disconnect().registry == Map::<i32, TrContextView>::empty(),
        !state.after_disconnect().is_connecting,
        state.after_disconnect().connected_info is None,
        state.after_disconnect().resolved[ticket.serial] == state.registry[ticket.tr_index].after_disconnect(),
        polled == TrPoll::Ready(
            Err::<TrSnapshot, QvOpenApiError>(QvOpenApiError::NotConnectedError),
        ),
{
    let keys = state.registry.dom();
    let after = state.after_disconnect();
    assert(after.registry =~= Map::<i32, TrContextView>::empty());
    assert(state.owns(keys, ticket.tr_index, ticket.serial));
    let owner = state.owner_of(keys, ticket.serial);
    assert(state.owns(keys, owner, ticket.serial));
    assert(owner == ticket.tr_index);
}

/// A sweep at a time at which a live transaction is older than the timeout
/// ends it with `RequestTimeoutError` and takes it out of the registry; a
/// consumer that polls its handle afterwards receives that error. A
/// transaction that is not older stays as it is.
pub proof fn law_sweep_times_out(
    state: ClientView,
    ticket: TrTicket,
    now: u64,
    after_poll: ClientView,
    polled: TrPoll,
)
    requires
        state.inv(),
        state.is_live(ticket),
        state.registry[ticket.tr_index].attached,
        state.after_sweep(now).polled(ticket, after_poll, polled),
    ensures
        is_expired(state.registry[ticket.tr_index].request_timestamp, now, state.timeout) ==> {
            &&& !state.after_sweep(now).registry.contains_key(ticket.tr_index)
            &&& state.after_sweep(now).resolved[ticket.serial]
                == state.registry[ticket.tr_index].after_timeout()
            &&& polled == TrPoll::Ready(
                Err::<TrSnapshot, QvOpenApiError>(QvOpenApiError::RequestTimeoutError),
            )
        },
        !is_expired(state.registry[ticket.tr_index].request_timestamp, now, state.timeout) ==> {
            &&& state.after_sweep(now).registry.contains_key(ticket.tr_index)
            &&& state.after_sweep(now).registry[ticket.tr_index] == state.registry[ticket.tr_index]
            &&& polled == TrPoll::Pending
        },
{
    let keys = state.expired_keys(now);
    if is_expired(state.registry[ticket.tr_index].request_timestamp, now, state.timeout) {
        assert(keys.contains(ticket.tr_index));
        assert(state.owns(keys, ticket.tr_index, ticket.serial));
        let owner = state.owner_of(keys, ticket.serial);
        assert(state.owns(keys, owner, ticket.serial));
        assert(owner == ticket.tr_index);
    } else {
        assert(!keys.contains(ticket.tr_index));
    }
}

/// Once a poll of a handle has yielded a resolution, every later poll yields
/// the same resolution, and no such poll changes the engine: a request
/// resolves once, and its consumer never waits again.
pub proof fn law_resolution_is_stable(
    state: ClientView,
    ticket: TrTicket,
    after_first: ClientView,
    first: TrPoll,
    after_second: ClientView,
    second: TrPoll,
)
    requires
        state.polled(ticket, after_first, first),
        first is Ready,
        after_first.polled(ticket, after_second, second),
    ensures
        after_first == state,
        after_second == state,
        second is Ready,
        same_resolution(first->Ready_0, second->Ready_0),
{
}

/// A sweeper that runs every `interval` from the time `start` on runs at
/// some time at which a transaction registered at `registered_at` is older
/// than `timeout`, and no later than `timeout + interval` after the
/// registration.
pub proof fn law_sweep_deadline(start: nat, interval: nat, registered_at: nat, timeout: nat) -> (run:
    nat)
    requires
        interval > 0,
        start <= registered_at + timeout,
    ensures
        registered_at + timeout < start + run * interval <= registered_at + timeout + interval,
{
    let waited = (registered_at + timeout - start) as nat;
    let run = waited / interval + 1;
    assert(waited == interval * (waited / interval) + waited % interval) by (nonlinear_arith)
        requires
            interval > 0,
    ;
    assert(0 <= waited % interval < interval) by (nonlinear_arith)
        requires
            interval > 0,
    ;
    assert(run * interval == interval * (waited / interval) + interval) by (nonlinear_arith)
        requires
            run == waited / interval + 1,
    ;
    run
}

/// The index that the rotation reaches from `start` in `steps` steps.
pub open spec fn rotated(start: i32, steps: nat) -> i32
    decreases steps,
{
    if steps == 0 {
        start
    } else {
        next_index(rotated(start, (steps - 1) as nat))
    }
}

/// The engine after one query has been registered at each of `times`, in
/// order, each under the index the rotation gave it.
pub open spec fn issued(state: ClientView, times: Seq<u64>) -> ClientView
    decreases times.len(),
{
    if times.len() == 0 {
        state
    } else {
        let earlier = issued(state, times.drop_last());
        earlier.allocated().registered(earlier.next_tr_index, TrType::QUERY, times.last())
    }
}

/// The rotation stays among the query indices and returns to an index only
/// after it has passed all the others.
pub proof fn lemma_rotation(start: i32, steps: nat)
    requires
        INITIAL_TR_INDEX <= start <= MAX_TR_INDEX,
    ensures
        rotated(start, steps) == INITIAL_TR_INDEX + (start - INITIAL_TR_INDEX + steps)
            % pool_size(),
        INITIAL_TR_INDEX <= rotated(start, steps) <= MAX_TR_INDEX,
    decreases steps,
{
    if steps > 0 {
        lemma_rotation(start, (steps - 1) as nat);
        let offset = start - INITIAL_TR_INDEX + steps - 1;
        assert(0 <= offset % 253 < 253 && (offset + 1) % 253 == if offset % 253 == 252 {
            0int
        } else {
            offset % 253 + 1
        }) by (nonlinear_arith)
            requires
                offset >= 0,
        ;
        let previous = rotated(start, (steps - 1) as nat);
        assert(previous == 3 + offset % 253);
        assert(rotated(start, steps) == next_index(previous));
    } else {
        let offset = start - INITIAL_TR_INDEX;
        assert(offset % 253 == offset) by (nonlinear_arith)
            requires
                0 <= offset < 253,
        ;
    }
}

/// Two positions of the rotation that are less than a full turn apart hold
/// different indices.
pub proof fn lemma_rotation_distinct(start: i32, first: nat, second: nat)
    requires
        INITIAL_TR_INDEX <= start <= MAX_TR_INDEX,
        first < second < first + pool_size(),
    ensures
        rotated(start, first) != rotated(start, second),
{
    lemma_rotation(start, first);
    lemma_rotation(start, second);
    let a = start - INITIAL_TR_INDEX + first;
    let b = start - INITIAL_TR_INDEX + second;
    assert(a % 253 != b % 253) by (nonlinear_arith)
        requires
            0 <= a < b < a + 253,
    ;
}

/// The shape of the engine after a run of registrations that found their
/// indices free.
proof fn lemma_issued(state: ClientView, times: Seq<u64>)
    requires
        state.inv(),
        times.len() <= pool_size(),
        state.next_serial + times.len() < u64::MAX,
        forall|j: nat|
            j < times.len() ==> !state.registry.contains_key(
                #[trigger] rotated(state.next_tr_index, j),
            ),
    ensures
        issued(state, times).inv(),
        issued(state, times).next_tr_index == rotated(state.next_tr_index, times.len()),
        issued(state, times).next_serial == state.next_serial + times.len(),
        issued(state, times).resolved == state.resolved,
        forall|k: i32|
            issued(state, times).registry.contains_key(k) <==> (state.registry.contains_key(k)
                || exists|j: nat| j < times.len() && #[trigger] rotated(state.next_tr_index, j) == k),
        forall|k: i32| #[trigger]
            state.registry.contains_key(k) ==> issued(state, times).registry[k]
                == state.registry[k],
        forall|j: nat|
            j < times.len() ==> (#[trigger] issued(state, times).registry[rotated(
                state.next_tr_index,
                j,
            )]).request_timestamp == times[j as int] && issued(state, times).registry[rotated(
                state.next_tr_index,
                j,
            )].serial == state.next_serial + j,
    decreases times.len(),
{
    if times.len() > 0 {
        let head = times.drop_last();
        let count = head.len();
        lemma_issued(state, head);
        let earlier = issued(state, head);
        let tr_index = earlier.next_tr_index;
        lemma_rotation(state.next_tr_index, count);
        assert(!earlier.registry.contains_key(tr_index)) by {
            assert(!state.registry.contains_key(rotated(state.next_tr_index, count)));
            assert forall|j: nat| j < count implies rotated(state.next_tr_index, j)
                != tr_index by {
                lemma_rotation_distinct(state.next_tr_index, j, count);
            }
        }
        let later = issued(state, times);
        assert(later == earlier.allocated().registered(tr_index, TrType::QUERY, times.last()));
        law_allocation_keeps_inv(earlier);
        law_registration_keeps_inv(earlier.allocated(), tr_index, TrType::QUERY, times.last());
        assert forall|k: i32|
            later.registry.contains_key(k) <==> (state.registry.contains_key(k) || exists|j: nat|
                j < times.len() && #[trigger] rotated(state.next_tr_index, j) == k) by {
            if later.registry.contains_key(k) {
                if k == tr_index {
                    assert(count < times.len() && rotated(state.next_tr_index, count) == k);
                } else {
                    assert(earlier.registry.contains_key(k));
                    if !state.registry.contains_key(k) {
                        let j = choose|j: nat|
                            j < count && #[trigger] rotated(state.next_tr_index, j) == k;
                        assert(j < times.len() && rotated(state.next_tr_index, j) == k);
                    }
                }
            }
            if exists|j: nat| j < times.len() && #[trigger] rotated(state.next_tr_index, j) == k {
                let j = choose|j: nat|
                    j < times.len() && #[trigger] rotated(state.next_tr_index, j) == k;
                if j < count {
                    assert(earlier.registry.contains_key(k));
                }
            }
        }
        assert forall|j: nat| j < times.len() implies (#[trigger] later.registry[rotated(
            state.next_tr_index,
            j,
        )]).request_timestamp == times[j as int] && later.registry[rotated(
            state.next_tr_index,
            j,
        )].serial == state.next_serial + j by {
            if j < count {
                lemma_rotation_distinct(state.next_tr_index, j, count);
                assert(earlier.registry[rotated(state.next_tr_index, j)].request_timestamp
                    == head[j as int]);
            }
        }
    }
}

/// A run of queries that is no longer than the rotation, issued while the
/// indices it will be given are free, is admitted whole: none of the queries
/// fails for want of an index, and all of them are live together, each under
/// an index of its own.
pub proof fn law_pool_admits(state: ClientView, times: Seq<u64>, position: nat)
    requires
        state.inv(),
        times.len() <= pool_size(),
        state.next_serial + times.len() < u64::MAX,
        forall|j: nat|
            j < times.len() ==> !state.registry.contains_key(
                #[trigger] rotated(state.next_tr_index, j),
            ),
        position < times.len(),
    ensures
        issued(state, times.take(position as int)).can_register(
            issued(state, times.take(position as int)).next_tr_index,
        ),
        issued(state, times).inv(),
        issued(state, times).is_live(
            TrTicket {
                tr_index: rotated(state.next_tr_index, position),
                serial: (state.next_serial + position) as u64,
            },
        ),
        forall|other: nat|
            other < times.len() && other != position ==> rotated(state.next_tr_index, other)
                != rotated(state.next_tr_index, position),
{
    let head = times.take(position as int);
    lemma_issued(state, head);
    lemma_issued(state, times);
    let earlier = issued(state, head);
    assert(!earlier.registry.contains_key(earlier.next_tr_index)) by {
        assert(!state.registry.contains_key(rotated(state.next_tr_index, position)));
        assert forall|j: nat| j < position implies rotated(state.next_tr_index, j)
            != earlier.next_tr_index by {
            lemma_rotation_distinct(state.next_tr_index, j, position);
        }
    }
    assert forall|other: nat| other < times.len() && other != position implies rotated(
        state.next_tr_index,
        other,
    ) != rotated(state.next_tr_index, position) by {
        if other < position {
            lemma_rotation_distinct(state.next_tr_index, other, position);
        } else {
            lemma_rotation_distinct(state.next_tr_index, position, other);
        }
    }
    assert(issued(state, times).registry.contains_key(rotated(state.next_tr_index, position)));
}

} // verus!
