//! The consumer's side of a transaction: the handle that is polled until the
//! transaction has ended.

use crate::client::{AbstractQvOpenApiClient, QvOpenApiAsyncClient, TrTicket};
use crate::context::TrSnapshot;
use std::task::Waker;
use crate::error::QvOpenApiError;
use vstd::prelude::*;

verus! {

/// What polling a handle yields.
#[derive(Debug, PartialEq, Eq)]
pub enum TrPoll {
    /// The transaction has not ended; the caller's task will be woken when
    /// it does.
    Pending,
    /// The resolution of the request.
    Ready(Result<TrSnapshot, QvOpenApiError>),
}

/// The handle that issuing a request returns.
///
/// It holds the ticket of the registered transaction, or the error with
/// which the registration failed.
#[derive(Debug)]
pub struct TrFuture {
    context: Result<TrTicket, QvOpenApiError>,
}

impl View for TrFuture {
    type V = Result<TrTicket, QvOpenApiError>;

    closed spec fn view(&self) -> Result<TrTicket, QvOpenApiError> {
        self.context
    }
}

impl TrFuture {
    /// The handle of a request whose registration ended as `context`.
    pub fn new(context: Result<TrTicket, QvOpenApiError>) -> (future: TrFuture)
        ensures
            future@ == context,
    {
        TrFuture { context }
    }

    /// The ticket of the transaction, where the request was registered.
    pub fn ticket(&self) -> (ticket: Option<TrTicket>)
        ensures
            ticket == match self@ {
                Ok(ticket) => Some(ticket),
                Err(_) => None,
            },
    {
        match &self.context {
            Ok(ticket) => Some(*ticket),
            Err(_) => None,
        }
    }

    /// Polls the handle on behalf of the task that `waker` wakes.
    ///
    /// A request that could not be registered yields the error of its
    /// registration, on every poll, and leaves the engine alone. A request
    /// whose transaction is live registers `waker` with it and yields
    /// nothing yet. A request whose transaction has ended yields its
    /// resolution, on every poll, and leaves the engine as it is.
    pub fn poll<D: AbstractQvOpenApiClient>(
        &self,
        client: &mut QvOpenApiAsyncClient<D>,
        waker: &Waker,
    ) -> (polled: TrPoll)
        requires
            old(client).wf(),
        ensures
            final(client).wf(),
            final(client).transport() == old(client).transport(),
            match self@ {
                Err(error) => polled == TrPoll::Ready(Err::<TrSnapshot, QvOpenApiError>(error))
                    && final(client)@ == old(client)@,
                Ok(ticket) => old(client)@.polled(ticket, final(client)@, polled),
            },
    {
        match &self.context {
            Err(error) => TrPoll::Ready(Err(error.clone())),
            Ok(ticket) => client.poll(*ticket, waker),
        }
    }

    /// Gives the handle up. The transaction it waits for, if it is live,
    /// stays in flight until it ends, and is then dropped; one that has
    /// ended is dropped at once.
    pub fn abandon<D: AbstractQvOpenApiClient>(self, client: &mut QvOpenApiAsyncClient<D>)
        requires
            old(client).wf(),
        ensures
            final(client).wf(),
            final(client).transport() == old(client).transport(),
            final(client)@ == match self@ {
                Ok(ticket) => old(client)@.detached(ticket),
                Err(_) => old(client)@,
            },
    {
        match self.context {
            Ok(ticket) => {
                client.detach(ticket);
            },
            Err(_) => {},
        }
    }
}

/// What polling a `ResponseFuture` yields.
#[derive(Debug, PartialEq, Eq)]
pub enum ResponsePoll<T> {
    /// No response has been given; the caller's task will be woken when one
    /// is.
    Pending,
    /// The response.
    Ready(Result<T, QvOpenApiError>),
}

/// What a `ResponseFuture` holds: the response, once it has been given and
/// until it is taken, and the continuation of the task that waits for it.
pub struct ResponseFutureView<T> {
    pub response: Option<Result<T, QvOpenApiError>>,
    pub waker: Option<Waker>,
}

struct ResponseFutureInner<T> {
    response: Option<Result<T, QvOpenApiError>>,
    waker: Option<Waker>,
}

impl<T> ResponseFutureInner<T> {
    fn new() -> (inner: ResponseFutureInner<T>)
        ensures
            inner.response is None,
            inner.waker is None,
    {
        ResponseFutureInner { response: None, waker: None }
    }
}

/// A slot for one response that one party gives and another awaits.
pub struct ResponseFuture<T> {
    inner: ResponseFutureInner<T>,
}

impl<T> View for ResponseFuture<T> {
    type V = ResponseFutureView<T>;

    closed spec fn view(&self) -> ResponseFutureView<T> {
        ResponseFutureView { response: self.inner.response, waker: self.inner.waker }
    }
}

impl<T> ResponseFuture<T> {
    /// An empty slot.
    pub fn new() -> (future: ResponseFuture<T>)
        ensures
            future@.response is None,
            future@.waker is None,
    {
        ResponseFuture { inner: ResponseFutureInner::new() }
    }

    /// Gives the response `res`, in place of one given before and not yet
    /// taken, and wakes the task that waits.
    pub fn resolve(&mut self, res: Result<T, QvOpenApiError>)
        ensures
            final(self)@.response == Some(res),
            final(self)@.waker == old(self)@.waker,
    {
        self.inner.response = Some(res);
        match &self.inner.waker {
            Some(waker) => {
                waker.wake_by_ref();
            },
            None => {},
        }
    }

    /// Yields a copy of the response if one has been given, on this poll and
    /// on every later one; otherwise registers `waker` as the task to wake
    /// when one is. A poll that yields leaves the slot as it is.
    pub fn poll(&mut self, waker: &Waker) -> (polled: ResponsePoll<T>) where T: Clone
        ensures
            final(self)@.response == old(self)@.response,
            match old(self)@.response {
                Some(response) => polled matches ResponsePoll::Ready(copy) && copy_of(
                    response,
                    copy,
                ) && final(self)@ == old(self)@,
                None => polled == ResponsePoll::<T>::Pending && final(self)@.waker is Some,
            },
    {
        match &self.inner.response {
            Some(Ok(value)) => ResponsePoll::Ready(Ok(value.clone())),
            Some(Err(error)) => ResponsePoll::Ready(Err(error.clone())),
            None => {
                self.inner.waker = Some(waker.clone());
                ResponsePoll::Pending
            },
        }
    }
}

/// Whether `copy` is a copy of the response `response`: the same error, or
/// a value that `clone` makes of its value.
pub open spec fn copy_of<T: Clone>(
    response: Result<T, QvOpenApiError>,
    copy: Result<T, QvOpenApiError>,
) -> bool {
    match (response, copy) {
        (Ok(value), Ok(made)) => cloned::<T>(value, made),
        (Err(error), Err(same)) => error == same,
        _ => false,
    }
}

} // verus!
