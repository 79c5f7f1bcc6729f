//! Searchlight is an mDNS server and client library: it advertises
//! services on the local network and discovers those that others
//! advertise, and it keeps track of their presence.
//!
//! This crate holds what a broadcaster and a browser decide, with proofs
//! of what those decisions are:
//!
//! - [`broadcast`]: services and how they are built, the response that
//!   answers a question about a service, the table of advertised services,
//!   and the answers to a datagram;
//! - [`discovery`]: the question that a browser asks, the table of the
//!   responders it knows, the events that a response or a silence brings
//!   about, and the order in which they come;
//! - [`socket`]: how a multicast socket is set up and on which interfaces,
//!   how a datagram is sent on each of them, and what becomes of the
//!   outcomes of the two families of IP;
//! - [`net`], [`name`], [`dns`], [`bytes`], [`errors`]: addresses and
//!   interfaces, DNS names, DNS messages, strings of bytes and errors.
//!
//! The sockets themselves, the timers and the threads are the caller's: the
//! caller tells this crate what arrived and what time it is, and does what
//! it is told to send.

pub mod broadcast;
pub mod bytes;
pub mod discovery;
pub mod dns;
pub mod errors;
pub mod name;
pub mod net;
pub mod socket;

pub use net::MDNS_PORT;
