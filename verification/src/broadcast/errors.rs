//! Errors that can occur while broadcasting or initializing a broadcaster.

use crate::errors::{IoError, MultiIpIoError};
use vstd::prelude::*;

verus! {

/// An error occurred while building a [`Service`](super::Service).
#[derive(Clone, Copy, Debug, PartialEq, Eq, Structural)]
pub enum ServiceBuilderError {
    /// The broadcaster requires at least one advertisement address.
    MissingAdvertisementAddr,
    /// The TXT record is too long (max 255 bytes).
    RecordTooLong,
}

impl ServiceBuilderError {
    /// What to show a user.
    pub fn message(&self) -> (r: String)
        ensures
            r@ == match *self {
                ServiceBuilderError::MissingAdvertisementAddr =>
                    "The broadcaster requires at least one advertisement address"@,
                ServiceBuilderError::RecordTooLong => "TXT record too long (max 255 bytes)"@,
            },
    {
        match self {
            ServiceBuilderError::MissingAdvertisementAddr => {
                "The broadcaster requires at least one advertisement address".to_owned()
            },
            ServiceBuilderError::RecordTooLong => "TXT record too long (max 255 bytes)".to_owned(),
        }
    }
}

/// An error occurred while building a service DNS packet.
#[derive(Clone, Copy, Debug, PartialEq, Eq, Structural)]
pub enum ServiceDnsPacketBuilderError {
    /// There are too many IP addresses to advertise.
    TooManyIpAddresses,
}

impl ServiceDnsPacketBuilderError {
    /// What to show a user.
    pub fn message(&self) -> (r: String)
        ensures
            r@ == "There are too many IP addresses to advertise"@,
    {
        "There are too many IP addresses to advertise".to_owned()
    }
}

/// An error occurred while building a [`Broadcaster`](super::Broadcaster).
#[derive(Clone, Debug, PartialEq, Eq)]
pub enum BroadcasterBuilderError {
    /// An error occurred while building a service DNS packet.
    ServiceDnsPacketBuilderError(ServiceDnsPacketBuilderError),
    /// An I/O error occurred.
    IoError(IoError),
    /// An I/O error occurred (on potentially both IPv4 and IPv6 sockets).
    MultiIpIoError(MultiIpIoError),
}

impl From<ServiceDnsPacketBuilderError> for BroadcasterBuilderError {
    fn from(err: ServiceDnsPacketBuilderError) -> (r: Self) {
        BroadcasterBuilderError::ServiceDnsPacketBuilderError(err)
    }
}

impl vstd::std_specs::convert::FromSpecImpl<ServiceDnsPacketBuilderError> for BroadcasterBuilderError {
    open spec fn obeys_from_spec() -> bool {
        true
    }

    open spec fn from_spec(err: ServiceDnsPacketBuilderError) -> Self {
        BroadcasterBuilderError::ServiceDnsPacketBuilderError(err)
    }
}

impl From<IoError> for BroadcasterBuilderError {
    fn from(err: IoError) -> (r: Self) {
        BroadcasterBuilderError::IoError(err)
    }
}

impl vstd::std_specs::convert::FromSpecImpl<IoError> for BroadcasterBuilderError {
    open spec fn obeys_from_spec() -> bool {
        true
    }

    open spec fn from_spec(err: IoError) -> Self {
        BroadcasterBuilderError::IoError(err)
    }
}

} // verus!
