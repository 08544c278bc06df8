//! The queue through which requests reach the thread of the window, where
//! the native library must be called.

use crate::client::QvOpenApiRequest;
use crate::error::QvOpenApiError;
use crate::window_mgr::{WindowMessage, CA_CUSTOM_EXECUTE_POSTED_COMMAND, WM_WMCAEVENT};
use std::collections::VecDeque;
use vstd::prelude::*;

verus! {

/// A message for a window.
#[derive(Debug, Clone, Copy, PartialEq, Eq)]
pub struct PostedMessage {
    pub hwnd: isize,
    pub message: WindowMessage,
}

/// The requests that wait for the thread of the window, each with the
/// correlation index it was posted under, and the window itself.
pub struct QvOpenApiClientMessageHandler<R: QvOpenApiRequest> {
    hwnd: Option<isize>,
    request_queue: VecDeque<(i32, R)>,
}

/// What a `QvOpenApiClientMessageHandler` holds.
pub struct MessageHandlerView<R> {
    pub hwnd: Option<isize>,
    pub request_queue: Seq<(i32, R)>,
}

impl<R: QvOpenApiRequest> View for QvOpenApiClientMessageHandler<R> {
    type V = MessageHandlerView<R>;

    closed spec fn view(&self) -> MessageHandlerView<R> {
        MessageHandlerView { hwnd: self.hwnd, request_queue: self.request_queue@ }
    }
}

/// The message that tells the window `hwnd` to hand the posted requests to
/// the native library.
pub open spec fn execute_message(hwnd: isize) -> PostedMessage {
    PostedMessage {
        hwnd,
        message: WindowMessage {
            msg: WM_WMCAEVENT,
            wparam: CA_CUSTOM_EXECUTE_POSTED_COMMAND,
            lparam: 0,
        },
    }
}

/// Whether posting `req` under `tr_index`, with `checked` the outcome of the
/// request's own check, takes the handler from `before` to `after` and
/// yields `posted`: a request whose check failed is refused with the error
/// of the check, one for which there is no window with
/// `WindowNotCreatedError`, and neither is queued; any other request is
/// queued behind those that wait, and the message that tells the window to
/// hand them over is returned.
pub open spec fn enqueued<R>(
    before: MessageHandlerView<R>,
    tr_index: i32,
    req: R,
    checked: Result<(), QvOpenApiError>,
    posted: Result<PostedMessage, QvOpenApiError>,
    after: MessageHandlerView<R>,
) -> bool {
    match (checked, before.hwnd) {
        (Err(error), _) => posted == Err::<PostedMessage, QvOpenApiError>(error) && after
            == before,
        (Ok(_), None) => posted == Err::<PostedMessage, QvOpenApiError>(
            QvOpenApiError::WindowNotCreatedError,
        ) && after == before,
        (Ok(_), Some(hwnd)) => posted == Ok::<PostedMessage, QvOpenApiError>(
            execute_message(hwnd),
        ) && after == (MessageHandlerView {
            request_queue: before.request_queue.push((tr_index, req)),
            ..before
        }),
    }
}

/// `after` is what is left of the queue `before` once its first `handed`
/// requests have been taken.
pub open spec fn handed_over<R>(before: Seq<(i32, R)>, after: Seq<(i32, R)>, handed: int) -> bool {
    0 <= handed <= before.len() && after == before.skip(handed)
}

/// Whether each of the first `count` requests of `queue` was handed to the
/// native library at the window `hwnd`, under the index it was posted
/// under, and was taken.
pub open spec fn all_taken<R: QvOpenApiRequest>(queue: Seq<(i32, R)>, hwnd: isize, count: int) -> bool {
    forall|j: int|
        0 <= j < count ==> call_ensures(
            R::call_lib,
            (&(#[trigger] queue[j]).1, queue[j].0, hwnd),
            Ok::<(), QvOpenApiError>(()),
        )
}

/// Whether handing over the queue `before` stopped at the request at
/// `failed`: the requests before it were taken, it was refused with `error`,
/// and `after` holds the requests behind it.
pub open spec fn stopped_at<R: QvOpenApiRequest>(
    before: Seq<(i32, R)>,
    after: Seq<(i32, R)>,
    hwnd: isize,
    failed: int,
    error: QvOpenApiError,
) -> bool {
    &&& 0 <= failed < before.len()
    &&& all_taken(before, hwnd, failed)
    &&& call_ensures(
        R::call_lib,
        (&before[failed].1, before[failed].0, hwnd),
        Err::<(), QvOpenApiError>(error),
    )
    &&& after == before.skip(failed + 1)
}

impl<R: QvOpenApiRequest> QvOpenApiClientMessageHandler<R> {
    /// A handler without a window and without requests.
    pub fn new() -> (handler: Self)
        ensures
            handler@.hwnd is None,
            handler@.request_queue == Seq::<(i32, R)>::empty(),
    {
        QvOpenApiClientMessageHandler { hwnd: None, request_queue: VecDeque::new() }
    }

    /// The window, once there is one.
    pub fn get_hwnd(&self) -> (hwnd: Option<isize>)
        ensures
            hwnd == self@.hwnd,
    {
        self.hwnd
    }

    pub fn set_hwnd(&mut self, new_hwnd: isize)
        ensures
            final(self)@ == (MessageHandlerView { hwnd: Some(new_hwnd), ..old(self)@ }),
    {
        self.hwnd = Some(new_hwnd);
    }

    /// Records that the window is gone.
    pub fn on_destroy(&mut self)
        ensures
            final(self)@ == (MessageHandlerView { hwnd: None, ..old(self)@ }),
    {
        self.hwnd = None;
    }

    /// The number of requests that wait.
    pub fn pending(&self) -> (count: usize)
        ensures
            count == self@.request_queue.len(),
    {
        self.request_queue.len()
    }

    /// Queues `req` under `tr_index` if its own check, whose outcome is
    /// `checked`, allowed it and there is a window, and returns the message
    /// to post to the window. A request whose check failed, or for which
    /// there is no window, is not queued.
    pub fn enqueue(&mut self, tr_index: i32, req: R, checked: Result<(), QvOpenApiError>) -> (posted:
        Result<PostedMessage, QvOpenApiError>)
        ensures
            enqueued(old(self)@, tr_index, req, checked, posted, final(self)@),
    {
        match checked {
            Err(error) => Err(error),
            Ok(_) => match self.hwnd {
                None => Err(QvOpenApiError::WindowNotCreatedError),
                Some(hwnd) => {
                    self.request_queue.push_back((tr_index, req));
                    Ok(
                        PostedMessage {
                            hwnd,
                            message: WindowMessage {
                                msg: WM_WMCAEVENT,
                                wparam: CA_CUSTOM_EXECUTE_POSTED_COMMAND,
                                lparam: 0,
                            },
                        },
                    )
                },
            },
        }
    }

    /// Posts `req` under `tr_index`: the request checks itself, and the
    /// outcome of that check decides, as in `enqueue`, whether it is queued
    /// and what is returned.
    pub fn query(&mut self, tr_index: i32, req: R) -> (posted: Result<
        PostedMessage,
        QvOpenApiError,
    >)
        ensures
            exists|checked: Result<(), QvOpenApiError>|
                call_ensures(R::before_post, (&req,), checked) && #[trigger] enqueued(
                    old(self)@,
                    tr_index,
                    req,
                    checked,
                    posted,
                    final(self)@,
                ),
            final(self)@.hwnd == old(self)@.hwnd,
            old(self)@.hwnd is None ==> posted is Err,
            match posted {
                Ok(message) => old(self)@.hwnd == Some(message.hwnd) && message == execute_message(
                    message.hwnd,
                ) && final(self)@.request_queue == old(self)@.request_queue.push((tr_index, req)),
                Err(_) => final(self)@.request_queue == old(self)@.request_queue,
            },
    {
        let checked = req.before_post();
        assert(call_ensures(R::before_post, (&req,), checked));
        let posted = self.enqueue(tr_index, req, checked);
        assert(enqueued(old(self)@, tr_index, req, checked, posted, self@));
        posted
    }

    /// Hands the requests that wait to the native library, in the order in
    /// which they were posted, until one fails. Each request that was handed
    /// over has left the queue, the failed one too; the requests behind a
    /// failed one stay, and its error is the result. Without a window
    /// nothing is handed over, and requests that wait are an error.
    pub fn execute_posted(&mut self) -> (executed: Result<(), QvOpenApiError>)
        ensures
            final(self)@.hwnd == old(self)@.hwnd,
            exists|handed: int| #[trigger]
                handed_over(old(self)@.request_queue, final(self)@.request_queue, handed),
            old(self)@.request_queue.len() == 0 ==> executed is Ok,
            old(self)@.hwnd is None ==> final(self)@ == old(self)@ && (executed matches Err(error)
                ==> error == QvOpenApiError::WindowNotCreatedError && old(self)@.request_queue.len()
                > 0),
            old(self)@.hwnd matches Some(hwnd) ==> match executed {
                Ok(_) => final(self)@.request_queue.len() == 0 && all_taken(
                    old(self)@.request_queue,
                    hwnd,
                    old(self)@.request_queue.len() as int,
                ),
                Err(error) => exists|failed: int| #[trigger]
                    stopped_at(
                        old(self)@.request_queue,
                        final(self)@.request_queue,
                        hwnd,
                        failed,
                        error,
                    ),
            },
    {
        let ghost before = self.request_queue@;
        let ghost mut handed: int = 0;
        proof {
            assert(before.skip(0) == before);
        }
        let hwnd = match self.hwnd {
            Some(hwnd) => hwnd,
            None => {
                assert(handed_over(old(self)@.request_queue, self@.request_queue, 0));
                if self.request_queue.len() > 0 {
                    return Err(QvOpenApiError::WindowNotCreatedError);
                } else {
                    return Ok(());
                }
            },
        };
        while self.request_queue.len() > 0
            invariant
                self.hwnd == old(self).hwnd,
                self.hwnd == Some(hwnd),
                before == old(self).request_queue@,
                0 <= handed <= before.len(),
                self.request_queue@ == before.skip(handed),
                all_taken(before, hwnd, handed),
            decreases self.request_queue@.len(),
        {
            let popped = self.request_queue.pop_front();
            proof {
                assert(before.skip(handed).drop_first() == before.skip(handed + 1));
                assert(before.skip(handed)[0] == before[handed]);
            }
            match popped {
                Some((tr_index, cmd)) => {
                    let called = cmd.call_lib(tr_index, hwnd);
                    proof {
                        assert(call_ensures(
                            R::call_lib,
                            (&before[handed].1, before[handed].0, hwnd),
                            called,
                        ));
                    }
                    match called {
                        Ok(taken) => {
                            proof {
                                assert(called == Ok::<(), QvOpenApiError>(taken));
                                handed = handed + 1;
                            }
                        },
                        Err(error) => {
                            assert(handed_over(
                                old(self)@.request_queue,
                                self@.request_queue,
                                handed + 1,
                            ));
                            assert(stopped_at(
                                old(self)@.request_queue,
                                self@.request_queue,
                                old(self)@.hwnd->0,
                                handed,
                                error,
                            ));
                            return Err(error);
                        },
                    }
                },
                None => {
                    proof {
                        handed = handed + 1;
                    }
                },
            }
        }
        assert(handed_over(old(self)@.request_queue, self@.request_queue, handed));
        Ok(())
    }
}

} // verus!
