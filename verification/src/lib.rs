//! A bridge between a native trading library that reports through the
//! messages of a hidden window and consumers that await their requests.
//!
//! The `client` module holds the engine: it gives each request a correlation
//! index, keeps the registry of the transactions in flight, routes the
//! events of the library to them, and ends those that cannot finish. The
//! `laws` module proves what holds of the engine across its operations. The
//! other modules hold the data that travels, its decoding, and the decisions
//! around the window and the native library.

pub mod client;
pub mod command;
pub mod context;
pub mod error;
pub mod future;
pub mod laws;
pub mod message_handler;
pub mod mock;
pub mod models;
pub mod pattern;
pub mod registry;
pub mod utils;
pub mod window_mgr;
pub mod wmca_lib;

use vstd::prelude::*;

verus! {

/// Sum of two sizes, for inputs whose sum fits in a `usize`.
pub fn add(left: usize, right: usize) -> (sum: usize)
    requires
        left + right <= usize::MAX,
    ensures
        sum == left + right,
{
    left + right
}

} // verus!
