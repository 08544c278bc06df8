//! Plain data exchanged with the native transport: requests, and the decoded
//! responses that the transport's callbacks deliver.

pub mod connect;
pub mod message;
pub mod query;
