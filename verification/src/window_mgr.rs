//! The hidden window through which the native library delivers its events:
//! the codes of its messages, and the life cycle of the window.
//!
//! Creating the window and pumping its messages is the caller's business;
//! the decisions in between are made here.

use crate::error::QvOpenApiError;
use vstd::prelude::*;

verus! {

/// The first message number that an application may use.
pub const WM_USER: u32 = 0x0400;

/// The window message that carries an event of the native library.
pub const WM_WMCAEVENT: u32 = WM_USER + 8400;

/// The window message that carries a request of this library to itself.
pub const WM_CUSTOMEVENT: u32 = WM_USER + 8410;

/// The event code that asks for the posted requests to be handed to the
/// native library.
pub const CA_CUSTOM_EXECUTE_POSTED_COMMAND: u32 = WM_USER + 8410;

pub const CA_CONNECTED: u32 = WM_USER + 110;

pub const CA_DISCONNECTED: u32 = WM_USER + 120;

pub const CA_SOCKETERROR: u32 = WM_USER + 130;

pub const CA_RECEIVEDATA: u32 = WM_USER + 210;

pub const CA_RECEIVESISE: u32 = WM_USER + 220;

pub const CA_RECEIVEMESSAGE: u32 = WM_USER + 230;

pub const CA_RECEIVECOMPLETE: u32 = WM_USER + 240;

pub const CA_RECEIVEERROR: u32 = WM_USER + 250;

/// The code under `WM_CUSTOMEVENT` that asks for the next queued command to
/// be executed.
pub const CA_COMMAND: u32 = WM_USER + 110;

/// A message to post to the window.
#[derive(Debug, Clone, Copy, PartialEq, Eq)]
pub struct WindowMessage {
    pub msg: u32,
    pub wparam: u32,
    pub lparam: isize,
}

/// The kinds of event that arrive under `WM_WMCAEVENT`.
#[derive(Debug, Clone, Copy, PartialEq, Eq)]
pub enum WmcaEvent {
    Connected,
    Disconnected,
    SocketError,
    ReceiveData,
    ReceiveSise,
    ReceiveMessage,
    ReceiveComplete,
    ReceiveError,
    ExecutePostedCommand,
}

/// The kind of event that an event code stands for, if it stands for one.
pub open spec fn event_of(code: int) -> Option<WmcaEvent> {
    if code == CA_CONNECTED {
        Some(WmcaEvent::Connected)
    } else if code == CA_DISCONNECTED {
        Some(WmcaEvent::Disconnected)
    } else if code == CA_SOCKETERROR {
        Some(WmcaEvent::SocketError)
    } else if code == CA_RECEIVEDATA {
        Some(WmcaEvent::ReceiveData)
    } else if code == CA_RECEIVESISE {
        Some(WmcaEvent::ReceiveSise)
    } else if code == CA_RECEIVEMESSAGE {
        Some(WmcaEvent::ReceiveMessage)
    } else if code == CA_RECEIVECOMPLETE {
        Some(WmcaEvent::ReceiveComplete)
    } else if code == CA_RECEIVEERROR {
        Some(WmcaEvent::ReceiveError)
    } else if code == CA_CUSTOM_EXECUTE_POSTED_COMMAND {
        Some(WmcaEvent::ExecutePostedCommand)
    } else {
        None
    }
}

/// Tells which event the `wparam` of a `WM_WMCAEVENT` message stands for.
/// A code that stands for none is an error.
pub fn classify_wmca_event(wparam: usize) -> (event: Result<WmcaEvent, QvOpenApiError>)
    requires
        wparam <= u32::MAX,
    ensures
        event == match event_of(wparam as int) {
            Some(kind) => Ok::<WmcaEvent, QvOpenApiError>(kind),
            None => Err::<WmcaEvent, QvOpenApiError>(
                QvOpenApiError::WindowUnknownEventError { wparam },
            ),
        },
{
    let code = wparam as u32;
    if code == CA_CONNECTED {
        Ok(WmcaEvent::Connected)
    } else if code == CA_DISCONNECTED {
        Ok(WmcaEvent::Disconnected)
    } else if code == CA_SOCKETERROR {
        Ok(WmcaEvent::SocketError)
    } else if code == CA_RECEIVEDATA {
        Ok(WmcaEvent::ReceiveData)
    } else if code == CA_RECEIVESISE {
        Ok(WmcaEvent::ReceiveSise)
    } else if code == CA_RECEIVEMESSAGE {
        Ok(WmcaEvent::ReceiveMessage)
    } else if code == CA_RECEIVECOMPLETE {
        Ok(WmcaEvent::ReceiveComplete)
    } else if code == CA_RECEIVEERROR {
        Ok(WmcaEvent::ReceiveError)
    } else if code == CA_CUSTOM_EXECUTE_POSTED_COMMAND {
        Ok(WmcaEvent::ExecutePostedCommand)
    } else {
        Err(QvOpenApiError::WindowUnknownEventError { wparam })
    }
}

/// Tells whether the `wparam` of a `WM_CUSTOMEVENT` message asks for the next
/// queued command to be executed. Any other code is an error.
pub fn classify_custom_event(wparam: usize) -> (command: Result<(), QvOpenApiError>)
    requires
        wparam <= u32::MAX,
    ensures
        command == if wparam == CA_COMMAND {
            Ok::<(), QvOpenApiError>(())
        } else {
            Err::<(), QvOpenApiError>(QvOpenApiError::WindowUnknownEventError { wparam })
        },
{
    if wparam as u32 == CA_COMMAND {
        Ok(())
    } else {
        Err(QvOpenApiError::WindowUnknownEventError { wparam })
    }
}

/// Where the window stands in its life.
#[derive(Debug, Clone, Copy, PartialEq, Eq)]
pub enum WindowStatus {
    Init,
    Created,
    Destroyed,
    Error,
}

/// The record of one window: its handle once it exists, and its status.
#[derive(Debug, Clone, Copy, PartialEq, Eq)]
pub struct WindowHelper {
    pub hwnd: Option<isize>,
    pub status: WindowStatus,
}

impl WindowHelper {
    /// The record of a window that has not been created.
    pub fn new() -> (helper: WindowHelper)
        ensures
            helper == (WindowHelper { hwnd: None, status: WindowStatus::Init }),
    {
        WindowHelper { hwnd: None, status: WindowStatus::Init }
    }

    /// Whether the window may be created now: only a window that has never
    /// been created may.
    pub fn check_runnable(&self) -> (runnable: Result<(), QvOpenApiError>)
        ensures
            runnable == if self.status == WindowStatus::Init {
                Ok::<(), QvOpenApiError>(())
            } else {
                Err::<(), QvOpenApiError>(QvOpenApiError::WindowAlreadyCreatedError)
            },
    {
        match self.status {
            WindowStatus::Init => Ok(()),
            _ => Err(QvOpenApiError::WindowAlreadyCreatedError),
        }
    }

    /// Records the outcome of creating the window: its handle, or that the
    /// creation failed.
    pub fn on_create(&mut self, created: Option<isize>) -> (outcome: Result<isize, QvOpenApiError>)
        ensures
            match created {
                Some(hwnd) => outcome == Ok::<isize, QvOpenApiError>(hwnd) && *final(self) == (
                WindowHelper { hwnd: Some(hwnd), status: WindowStatus::Created }),
                None => outcome == Err::<isize, QvOpenApiError>(
                    QvOpenApiError::WindowCreationError,
                ) && *final(self) == (WindowHelper {
                    hwnd: old(self).hwnd,
                    status: WindowStatus::Error,
                }),
            },
    {
        match created {
            Some(hwnd) => {
                self.hwnd = Some(hwnd);
                self.status = WindowStatus::Created;
                Ok(hwnd)
            },
            None => {
                self.status = WindowStatus::Error;
                Err(QvOpenApiError::WindowCreationError)
            },
        }
    }

    /// Records that the message loop of the window has ended.
    pub fn on_destroy(&mut self)
        ensures
            *final(self) == (WindowHelper { hwnd: old(self).hwnd, status: WindowStatus::Destroyed }),
    {
        self.status = WindowStatus::Destroyed;
    }

    /// What the one who asked for the window is told once the status has
    /// left `Init`: the handle of a created window, and else that the
    /// creation failed.
    pub fn run_result(&self) -> (outcome: Result<isize, QvOpenApiError>)
        ensures
            outcome == match (self.status, self.hwnd) {
                (WindowStatus::Created, Some(hwnd)) => Ok::<isize, QvOpenApiError>(hwnd),
                _ => Err::<isize, QvOpenApiError>(QvOpenApiError::WindowCreationError),
            },
    {
        match (self.status, self.hwnd) {
            (WindowStatus::Created, Some(hwnd)) => Ok(hwnd),
            _ => Err(QvOpenApiError::WindowCreationError),
        }
    }

    /// The window to destroy when the record is given up: the one that was
    /// created and has not been destroyed.
    pub fn destroy(&self) -> (target: Option<isize>)
        ensures
            target == if self.status != WindowStatus::Destroyed {
                self.hwnd
            } else {
                None
            },
    {
        match self.status {
            WindowStatus::Destroyed => None,
            _ => self.hwnd,
        }
    }
}

} // verus!
