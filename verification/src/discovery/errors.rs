//! Errors that can occur while initializing a discovery instance.

use crate::errors::MultiIpIoError;
use vstd::prelude::*;

verus! {

/// An error occurred while building a [`Discovery`](super::Discovery).
#[derive(Clone, Debug, PartialEq, Eq)]
pub enum DiscoveryBuilderError {
    /// An I/O error occurred (on potentially both IPv4 and IPv6 sockets).
    MultiIpIoError(MultiIpIoError),
}

} // verus!
