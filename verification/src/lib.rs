//! A client for the Linux rtnetlink protocol.
//!
//! The crate holds the message codec, the request builder, the typed
//! entities (links, addresses, routes) and the rules by which one request
//! and its replies form a transaction. It never touches a socket: a caller
//! sends the bytes that the request builder produces and feeds every
//! datagram it receives to a [`handle::Transaction`].

pub mod addr;
pub mod bytes;
pub mod consts;
pub mod error;
pub mod handle;
pub mod ip;
pub mod link;
pub mod message;
pub mod request;
pub mod route;
pub mod utils;
