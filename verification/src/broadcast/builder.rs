//! Building a broadcaster from its services and the settings of its
//! sockets.

use super::config::{
    spec_holds, spec_identity, spec_record_wf, spec_table_wf, BroadcasterConfig,
};
use super::errors::{BroadcasterBuilderError, ServiceDnsPacketBuilderError};
use super::service::{
    spec_fits, spec_service_record, Service, ServiceRecordView, ServiceView,
};
use super::Broadcaster;
use crate::net::{IpVersion, TargetInterface, TargetInterfaceV4, TargetInterfaceV6};
use crate::socket::SocketSettings;
use vstd::prelude::*;

verus! {

/// The services of a list as mathematical values.
pub open spec fn spec_service_views(services: Seq<Service>) -> Seq<ServiceView> {
    Seq::new(services.len(), |i: int| services[i]@)
}

/// Whether the service at a place in the list of those added is advertised:
/// none added after it has its type and name.
pub open spec fn spec_survives(services: Seq<ServiceView>, i: int) -> bool {
    &&& 0 <= i < services.len()
    &&& forall|j: int|
        i < j < services.len() ==> spec_identity(#[trigger] services[j]) != spec_identity(
            services[i],
        )
}

/// Whether a table holds the records of the services of a list that are
/// advertised, and nothing else.
pub open spec fn spec_table_of(services: Seq<ServiceView>, table: Seq<ServiceRecordView>) -> bool {
    &&& spec_table_wf(table)
    &&& forall|r: ServiceRecordView|
        table.contains(r) <==> exists|i: int|
            #[trigger] spec_survives(services, i) && r == spec_service_record(services[i])
}

/// Whether every service of a list that is advertised has a response that
/// can be counted in a header.
pub open spec fn spec_all_fit(services: Seq<ServiceView>) -> bool {
    forall|i: int| #[trigger] spec_survives(services, i) ==> spec_fits(services[i])
}

/// Whether a table holds the records of the advertised services among
/// those from place `n` on, and a record for the type and name of each
/// service from there on.
pub open spec fn spec_table_from(
    services: Seq<ServiceView>,
    n: int,
    table: Seq<ServiceRecordView>,
) -> bool {
    &&& spec_table_wf(table)
    &&& forall|r: ServiceRecordView|
        table.contains(r) <==> exists|i: int|
            n <= i && #[trigger] spec_survives(services, i) && r == spec_service_record(
                services[i],
            )
    &&& forall|j: int| n <= j < services.len() ==> #[trigger] spec_holds(table, services[j])
}

/// The empty table is the table of no services.
proof fn lemma_table_start(services: Seq<ServiceView>, table: Seq<ServiceRecordView>)
    requires
        table.len() == 0,
    ensures
        spec_table_from(services, services.len() as int, table),
{
}

/// A service whose type and name the table holds already is not
/// advertised: a later one takes its place.
proof fn lemma_table_skip(services: Seq<ServiceView>, n: int, table: Seq<ServiceRecordView>)
    requires
        0 < n <= services.len(),
        spec_table_from(services, n, table),
        spec_holds(table, services[n - 1]),
    ensures
        spec_table_from(services, n - 1, table),
{
    let s = services[n - 1];
    let held = choose|r: ServiceRecordView|
        table.contains(r) && spec_identity(r.service) == spec_identity(s);
    let at = choose|i: int|
        n <= i && #[trigger] spec_survives(services, i) && held == spec_service_record(services[i]);
    assert(spec_identity(services[at]) == spec_identity(s));
    assert(!spec_survives(services, n - 1));
    assert forall|r: ServiceRecordView|
        table.contains(r) <==> exists|i: int|
            n - 1 <= i && #[trigger] spec_survives(services, i) && r == spec_service_record(
                services[i],
            ) by {
        if table.contains(r) {
            let i = choose|i: int|
                n <= i && #[trigger] spec_survives(services, i) && r == spec_service_record(
                    services[i],
                );
            assert(n - 1 <= i && spec_survives(services, i));
        }
        if exists|i: int|
            n - 1 <= i && #[trigger] spec_survives(services, i) && r == spec_service_record(
                services[i],
            ) {
            let i = choose|i: int|
                n - 1 <= i && #[trigger] spec_survives(services, i) && r == spec_service_record(
                    services[i],
                );
            assert(n <= i && spec_survives(services, i));
        }
    }
    assert forall|j: int| n - 1 <= j < services.len() implies #[trigger] spec_holds(
        table,
        services[j],
    ) by {
        if j >= n {
            assert(spec_holds(table, services[j]));
        }
    }
}

/// A service whose type and name the table does not hold yet is
/// advertised.
proof fn lemma_table_survivor(services: Seq<ServiceView>, n: int, table: Seq<ServiceRecordView>)
    requires
        0 < n <= services.len(),
        spec_table_from(services, n, table),
        !spec_holds(table, services[n - 1]),
    ensures
        spec_survives(services, n - 1),
{
    assert forall|j: int| n - 1 < j < services.len() implies spec_identity(
        #[trigger] services[j],
    ) != spec_identity(services[n - 1]) by {
        assert(spec_holds(table, services[j]));
    }
}

/// Adding an advertised service to the table of those after it gives the
/// table of those from it on.
proof fn lemma_table_take(
    services: Seq<ServiceView>,
    n: int,
    table: Seq<ServiceRecordView>,
    after: Seq<ServiceRecordView>,
)
    requires
        0 < n <= services.len(),
        spec_table_from(services, n, table),
        !spec_holds(table, services[n - 1]),
        super::config::spec_added(table, services[n - 1], after),
    ensures
        spec_table_from(services, n - 1, after),
{
    let s = services[n - 1];
    lemma_table_survivor(services, n, table);
    assert forall|r: ServiceRecordView|
        after.contains(r) <==> exists|i: int|
            n - 1 <= i && #[trigger] spec_survives(services, i) && r == spec_service_record(
                services[i],
            ) by {
        if after.contains(r) {
            if r == spec_service_record(s) {
                assert(n - 1 <= n - 1 && spec_survives(services, n - 1));
            } else {
                assert(table.contains(r));
                let i = choose|i: int|
                    n <= i && #[trigger] spec_survives(services, i) && r == spec_service_record(
                        services[i],
                    );
                assert(n - 1 <= i && spec_survives(services, i));
            }
        }
        if exists|i: int|
            n - 1 <= i && #[trigger] spec_survives(services, i) && r == spec_service_record(
                services[i],
            ) {
            let i = choose|i: int|
                n - 1 <= i && #[trigger] spec_survives(services, i) && r == spec_service_record(
                    services[i],
                );
            if i != n - 1 {
                assert(n <= i && spec_survives(services, i));
                assert(table.contains(r));
                assert(r.service == services[i]);
                assert(spec_identity(r.service) != spec_identity(s));
            }
        }
    }
    assert forall|j: int| n - 1 <= j < services.len() implies #[trigger] spec_holds(
        after,
        services[j],
    ) by {
        if j == n - 1 {
            assert(after.contains(spec_service_record(s)));
        } else {
            assert(spec_holds(table, services[j]));
            let r = choose|r: ServiceRecordView|
                table.contains(r) && spec_identity(r.service) == spec_identity(services[j]);
            assert(after.contains(r));
        }
    }
}

/// The table of the services from the first on is the table of the list,
/// and each advertised service has a response that fits.
proof fn lemma_table_done(services: Seq<ServiceView>, table: Seq<ServiceRecordView>)
    requires
        spec_table_from(services, 0, table),
    ensures
        spec_table_of(services, table),
        spec_all_fit(services),
{
    assert forall|i: int| #[trigger] spec_survives(services, i) implies spec_fits(
        services[i],
    ) by {
        let r = spec_service_record(services[i]);
        assert(0 <= i && spec_survives(services, i));
        assert(table.contains(r));
        let k = choose|k: int| 0 <= k < table.len() && table[k] == r;
        assert(spec_record_wf(table[k]));
    }
    assert forall|r: ServiceRecordView|
        table.contains(r) <==> exists|i: int|
            #[trigger] spec_survives(services, i) && r == spec_service_record(services[i]) by {
        if table.contains(r) {
            let i = choose|i: int|
                0 <= i && #[trigger] spec_survives(services, i) && r == spec_service_record(
                    services[i],
                );
            assert(spec_survives(services, i));
        }
        if exists|i: int|
            #[trigger] spec_survives(services, i) && r == spec_service_record(services[i]) {
            let i = choose|i: int|
                #[trigger] spec_survives(services, i) && r == spec_service_record(services[i]);
            assert(0 <= i && spec_survives(services, i));
        }
    }
}

/// Builder for [`Broadcaster`].
#[derive(Debug)]
pub struct BroadcasterBuilder {
    services: Vec<Service>,
    interface_v4: TargetInterfaceV4,
    interface_v6: TargetInterfaceV6,
    loopback: bool,
}

/// A builder as mathematical values.
pub struct BroadcasterBuilderView {
    /// The services added, in the order in which they were added.
    pub services: Seq<ServiceView>,
    /// The interfaces of the IPv4 socket.
    pub interface_v4: TargetInterfaceV4,
    /// The interfaces of the IPv6 socket.
    pub interface_v6: TargetInterfaceV6,
    /// Whether what is sent comes back to the sender.
    pub loopback: bool,
}

impl View for BroadcasterBuilder {
    type V = BroadcasterBuilderView;

    closed spec fn view(&self) -> BroadcasterBuilderView {
        BroadcasterBuilderView {
            services: spec_service_views(self.services@),
            interface_v4: self.interface_v4,
            interface_v6: self.interface_v6,
            loopback: self.loopback,
        }
    }
}

impl BroadcasterBuilder {
    /// Creates a new [`BroadcasterBuilder`]: no service, every interface of
    /// both families, no loopback.
    pub fn new() -> (r: Self)
        ensures
            r@.services.len() == 0,
            r@.interface_v4 == TargetInterface::<crate::net::Ipv4Addr>::All,
            r@.interface_v6 == TargetInterface::<crate::net::Ipv6Interface>::All,
            !r@.loopback,
    {
        BroadcasterBuilder {
            services: Vec::new(),
            interface_v4: TargetInterface::All,
            interface_v6: TargetInterface::All,
            loopback: false,
        }
    }

    /// If loopback is enabled, any multicast packets that are sent can be
    /// received by the same socket and any other local sockets bound to the
    /// same port.
    pub fn loopback(self) -> (r: Self)
        ensures
            r@ == (BroadcasterBuilderView { loopback: true, ..self@ }),
    {
        let mut builder = self;
        builder.loopback = true;
        builder
    }

    /// Adds a service to the broadcaster. Of two services of one type and
    /// name, the one added last is advertised.
    pub fn add_service(self, service: Service) -> (r: Self)
        ensures
            r@ == (BroadcasterBuilderView { services: self@.services.push(service@), ..self@ }),
    {
        let mut builder = self;
        let ghost before = builder.services@;
        builder.services.push(service);
        assert(spec_service_views(builder.services@) =~= spec_service_views(before).push(service@));
        builder
    }

    /// Selects the target interface for IPv4 broadcasting, if enabled.
    pub fn interface_v4(self, interface: TargetInterfaceV4) -> (r: Self)
        ensures
            r@ == (BroadcasterBuilderView { interface_v4: interface, ..self@ }),
    {
        let mut builder = self;
        builder.interface_v4 = interface;
        builder
    }

    /// Selects the target interface for IPv6 broadcasting, if enabled.
    pub fn interface_v6(self, interface: TargetInterfaceV6) -> (r: Self)
        ensures
            r@ == (BroadcasterBuilderView { interface_v6: interface, ..self@ }),
    {
        let mut builder = self;
        builder.interface_v6 = interface;
        builder
    }

    /// Builds the broadcaster: the table of the services that are
    /// advertised, each with its response, and the settings of the sockets.
    ///
    /// You must specify whether to broadcast over IPv4, IPv6, or both.
    pub fn build(self, ip_version: IpVersion) -> (r: Result<Broadcaster, BroadcasterBuilderError>)
        ensures
            match r {
                Ok(broadcaster) => {
                    &&& spec_all_fit(self@.services)
                    &&& spec_table_of(self@.services, broadcaster.config@)
                    &&& broadcaster.socket.loopback == self@.loopback
                    &&& broadcaster.socket.ip_version == ip_version
                    &&& broadcaster.socket.interface_v4 == self@.interface_v4
                    &&& broadcaster.socket.interface_v6 == self@.interface_v6
                },
                Err(err) => !spec_all_fit(self@.services) && err
                    == BroadcasterBuilderError::ServiceDnsPacketBuilderError(
                    ServiceDnsPacketBuilderError::TooManyIpAddresses,
                ),
            },
    {
        let BroadcasterBuilder { services, interface_v4, interface_v6, loopback } = self;
        let ghost all = spec_service_views(services@);
        let mut rest = services;
        let mut config = BroadcasterConfig::new();
        proof {
            lemma_table_start(all, config@);
        }
        while rest.len() > 0
            invariant
                all == self@.services,
                rest@.len() <= all.len(),
                spec_service_views(rest@) == all.subrange(0, rest@.len() as int),
                spec_table_from(all, rest@.len() as int, config@),
            decreases rest@.len(),
        {
            let ghost n = rest@.len() as int;
            let ghost table = config@;
            let ghost before_rest = rest@;
            let service = rest.pop().unwrap();
            proof {
                assert(spec_service_views(before_rest)[n - 1] == service@);
                assert(all[n - 1] == service@);
                assert(spec_service_views(rest@) =~= all.subrange(0, n - 1));
            }
            if config.holds_identity(&service) {
                proof {
                    lemma_table_skip(all, n, table);
                }
            } else {
                proof {
                    lemma_table_survivor(all, n, table);
                }
                match config.add_service(service) {
                    Ok(()) => {
                        proof {
                            lemma_table_take(all, n, table, config@);
                        }
                    },
                    Err(err) => {
                        assert(spec_survives(all, n - 1) && !spec_fits(all[n - 1]));
                        return Err(BroadcasterBuilderError::ServiceDnsPacketBuilderError(err));
                    },
                }
            }
        }
        proof {
            lemma_table_done(all, config@);
        }
        Ok(
            Broadcaster {
                socket: SocketSettings { loopback, ip_version, interface_v4, interface_v6 },
                config,
            },
        )
    }
}

} // verus!
