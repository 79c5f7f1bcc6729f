//! Building a browser from what it asks about and the settings of its
//! sockets.

use super::errors::DiscoveryBuilderError;
use super::Discovery;
use crate::errors::BadDnsNameError;
use crate::name::{spec_into_fqdn, DnsName, DnsNameView, IntoDnsName};
use crate::net::{IpVersion, TargetInterface, TargetInterfaceV4, TargetInterfaceV6};
use crate::socket::SocketSettings;
use std::time::Duration;
use vstd::prelude::*;

verus! {

/// The number of seconds between two questions unless another interval is
/// asked for.
pub const DEFAULT_INTERVAL_SECS: u64 = 10;

/// The number of questions that a responder may leave unanswered unless
/// another is asked for.
pub const DEFAULT_MAX_IGNORED_PACKETS: u8 = 2;

/// The span of time that `std::time::Duration::from_secs` makes of a number
/// of seconds.
pub uninterp spec fn spec_secs(secs: u64) -> Duration;

/// Calls `std::time::Duration::from_secs`, which makes a span of that many
/// whole seconds.
#[verifier::external_body]
fn from_secs(secs: u64) -> (r: Duration)
    ensures
        r == spec_secs(secs),
{
    Duration::from_secs(secs)
}

/// A builder as mathematical values.
pub struct DiscoveryBuilderView {
    /// The service to ask about.
    pub service_name: Option<DnsNameView>,
    /// How often to ask.
    pub interval: Duration,
    /// Whether what is sent comes back to the sender.
    pub loopback: bool,
    /// The interfaces of the IPv4 socket.
    pub interface_v4: TargetInterfaceV4,
    /// The interfaces of the IPv6 socket.
    pub interface_v6: TargetInterfaceV6,
    /// How many questions a responder may leave unanswered.
    pub max_ignored_packets: u8,
}

/// The builder that everything starts from: any service, a question every
/// ten seconds, no loopback, every interface of both families, and two
/// unanswered questions before a responder is lost.
pub open spec fn spec_default_builder() -> DiscoveryBuilderView {
    DiscoveryBuilderView {
        service_name: None,
        interval: spec_secs(DEFAULT_INTERVAL_SECS),
        loopback: false,
        interface_v4: TargetInterface::All,
        interface_v6: TargetInterface::All,
        max_ignored_packets: DEFAULT_MAX_IGNORED_PACKETS,
    }
}

/// A builder for [`Discovery`].
#[derive(Debug)]
pub struct DiscoveryBuilder {
    service_name: Option<DnsName>,
    interval: Duration,
    loopback: bool,
    interface_v4: TargetInterfaceV4,
    interface_v6: TargetInterfaceV6,
    max_ignored_packets: u8,
}

impl View for DiscoveryBuilder {
    type V = DiscoveryBuilderView;

    closed spec fn view(&self) -> DiscoveryBuilderView {
        DiscoveryBuilderView {
            service_name: match self.service_name {
                Some(name) => Some(name@),
                None => None,
            },
            interval: self.interval,
            loopback: self.loopback,
            interface_v4: self.interface_v4,
            interface_v6: self.interface_v6,
            max_ignored_packets: self.max_ignored_packets,
        }
    }
}

impl DiscoveryBuilder {
    /// Creates a new [`DiscoveryBuilder`].
    pub fn new() -> (r: Self)
        ensures
            r@ == spec_default_builder(),
    {
        DiscoveryBuilder {
            service_name: None,
            interval: from_secs(DEFAULT_INTERVAL_SECS),
            loopback: false,
            interface_v4: TargetInterface::All,
            interface_v6: TargetInterface::All,
            max_ignored_packets: DEFAULT_MAX_IGNORED_PACKETS,
        }
    }

    /// Sets the service name to discover.
    pub fn service<T: IntoDnsName>(self, service_name: T) -> (r: Result<Self, BadDnsNameError>)
        ensures
            match r {
                Ok(builder) => spec_into_fqdn(service_name.spec_text()) is Some && builder@ == (
                DiscoveryBuilderView {
                    service_name: spec_into_fqdn(service_name.spec_text()),
                    ..self@
                }),
                Err(_) => spec_into_fqdn(service_name.spec_text()) is None,
            },
    {
        let mut builder = self;
        match service_name.into_fqdn() {
            Ok(name) => {
                builder.service_name = Some(name);
                Ok(builder)
            },
            Err(err) => Err(err),
        }
    }

    /// How often to send discovery packets.
    pub fn interval(self, interval: Duration) -> (r: Self)
        ensures
            r@ == (DiscoveryBuilderView { interval, ..self@ }),
    {
        let mut builder = self;
        builder.interval = interval;
        builder
    }

    /// The number of discovery packets that a responder must ignore before
    /// it is considered to be offline.
    ///
    /// If set to zero, a responder will never go offline.
    pub fn max_ignored_packets(self, max: u8) -> (r: Self)
        ensures
            r@ == (DiscoveryBuilderView { max_ignored_packets: max, ..self@ }),
    {
        let mut builder = self;
        builder.max_ignored_packets = max;
        builder
    }

    /// If loopback is enabled, any multicast packets that are sent can be
    /// received by the same socket and any other local sockets bound to the
    /// same port.
    pub fn loopback(self) -> (r: Self)
        ensures
            r@ == (DiscoveryBuilderView { loopback: true, ..self@ }),
    {
        let mut builder = self;
        builder.loopback = true;
        builder
    }

    /// Selects the target interface for IPv4 discovery, if enabled.
    pub fn interface_v4(self, interface: TargetInterfaceV4) -> (r: Self)
        ensures
            r@ == (DiscoveryBuilderView { interface_v4: interface, ..self@ }),
    {
        let mut builder = self;
        builder.interface_v4 = interface;
        builder
    }

    /// Selects the target interface for IPv6 discovery, if enabled.
    pub fn interface_v6(self, interface: TargetInterfaceV6) -> (r: Self)
        ensures
            r@ == (DiscoveryBuilderView { interface_v6: interface, ..self@ }),
    {
        let mut builder = self;
        builder.interface_v6 = interface;
        builder
    }

    /// Builds the discoverer.
    ///
    /// You must specify whether to discover over IPv4, IPv6, or both.
    pub fn build(self, ip_version: IpVersion) -> (r: Result<Discovery, DiscoveryBuilderError>)
        ensures
            r is Ok,
            r.unwrap().socket.loopback == self@.loopback,
            r.unwrap().socket.ip_version == ip_version,
            r.unwrap().socket.interface_v4 == self@.interface_v4,
            r.unwrap().socket.interface_v6 == self@.interface_v6,
            r.unwrap().interval == self@.interval,
            r.unwrap().max_ignored_packets == self@.max_ignored_packets,
            match r.unwrap().service_name {
                Some(name) => self@.service_name == Some(name@),
                None => self@.service_name is None,
            },
    {
        let DiscoveryBuilder {
            service_name,
            interval,
            loopback,
            interface_v4,
            interface_v6,
            max_ignored_packets,
        } = self;
        Ok(
            Discovery {
                socket: SocketSettings { loopback, ip_version, interface_v4, interface_v6 },
                service_name,
                interval,
                max_ignored_packets,
            },
        )
    }
}

} // verus!
