use searchlight::errors::{
    reraise_on_drop, shutdown_outcome, IoError, IoErrorKind, MultiIpIoError, ShutdownError,
    WorkerExit,
};
use searchlight::net::{
    candidates_v4, candidates_v6, mdns_v4_ip, mdns_v6_ip, single_address, InterfaceId,
    InterfaceInfo, IpAddr, IpVersion, Ipv4Addr, Ipv6Addr, Ipv6Interface, SocketAddr, SocketAddrV4,
    SocketAddrV6, MDNS_PORT,
};

fn entry(name: &str, ip: IpAddr, index: u32, loopback: bool) -> InterfaceInfo {
    InterfaceInfo { name: name.to_string(), ip, index, loopback }
}

fn six(last: u16) -> Ipv6Addr {
    Ipv6Addr::new([0xfe80, 0, 0, 0, 0, 0, 0, last])
}

fn listing() -> Vec<InterfaceInfo> {
    vec![
        entry("lo", IpAddr::V4(Ipv4Addr::new(127, 0, 0, 1)), 1, true),
        entry("lo", IpAddr::V6(Ipv6Addr::new([0, 0, 0, 0, 0, 0, 0, 1])), 1, true),
        entry("eth0", IpAddr::V4(Ipv4Addr::new(192, 168, 1, 2)), 2, false),
        entry("eth0", IpAddr::V6(six(2)), 2, false),
        entry("ghost", IpAddr::V6(six(3)), 0, false),
        entry("wlan0", IpAddr::V6(six(3)), 3, false),
        entry("wlan0", IpAddr::V6(six(4)), 3, false),
        entry("wlan0", IpAddr::V4(Ipv4Addr::new(10, 0, 0, 3)), 3, false),
    ]
}

#[test]
fn an_ipv4_address_is_its_four_octets() {
    let addr = Ipv4Addr::new(192, 168, 1, 69);
    assert_eq!(addr.bits, 0xC0A8_0145);
    assert_eq!(addr.octets(), [192, 168, 1, 69]);
    assert_eq!(Ipv4Addr::new(255, 255, 255, 255).bits, u32::MAX);
    assert_eq!(Ipv4Addr { bits: u32::MAX }.octets(), [255, 255, 255, 255]);
    assert_eq!(Ipv4Addr::unspecified().octets(), [0, 0, 0, 0]);
}

#[test]
fn an_ipv6_address_is_its_eight_groups() {
    let addr = Ipv6Addr::new([0xfe80, 0, 0, 0, 0x18e4, 0xb943, 0x8756, 0xd855]);
    assert_eq!(addr.bits, 0xfe80_0000_0000_0000_18e4_b943_8756_d855);
    assert_eq!(Ipv6Addr::new([0xffff; 8]).bits, u128::MAX);
    assert_eq!(Ipv6Addr::unspecified().bits, 0);
}

#[test]
fn the_group_addresses() {
    assert_eq!(MDNS_PORT, 5353);
    assert_eq!(mdns_v4_ip().octets(), [224, 0, 0, 251]);
    assert_eq!(mdns_v6_ip().bits, 0xff02_0000_0000_0000_0000_0000_0000_00fb);
}

#[test]
fn addresses_are_ordered_ipv4_first() {
    let low4 = IpAddr::V4(Ipv4Addr::new(10, 0, 0, 1));
    let high4 = IpAddr::V4(Ipv4Addr::new(255, 255, 255, 255));
    let low6 = IpAddr::V6(Ipv6Addr::unspecified());
    let high6 = IpAddr::V6(six(1));
    assert!(low4.precedes(&high4));
    assert!(!high4.precedes(&low4));
    assert!(!low4.precedes(&low4));
    assert!(high4.precedes(&low6));
    assert!(!low6.precedes(&high4));
    assert!(low6.precedes(&high6));
    assert!(low4.is_ipv4());
    assert!(!low6.is_ipv4());
}

#[test]
fn socket_addresses() {
    let four = SocketAddr::new(IpAddr::V4(Ipv4Addr::new(1, 2, 3, 4)), 53);
    assert_eq!(four, SocketAddr::V4(SocketAddrV4 { ip: Ipv4Addr::new(1, 2, 3, 4), port: 53 }));
    assert!(four.is_ipv4());
    assert_eq!(four.port(), 53);
    let sixth = SocketAddr::new(IpAddr::V6(six(1)), 5353);
    assert_eq!(
        sixth,
        SocketAddr::V6(SocketAddrV6 { ip: six(1), port: 5353, flowinfo: 0, scope_id: 0 })
    );
    assert!(!sixth.is_ipv4());
    assert_eq!(sixth.port(), 5353);
}

#[test]
fn an_interface_index_is_never_zero() {
    assert_eq!(Ipv6Interface::from_raw(7).as_u32(), 7);
    assert_eq!(Ipv6Interface::from_index(7), Some(Ipv6Interface::from_raw(7)));
    assert_eq!(Ipv6Interface::from_index(0), None);
    assert_eq!(Ipv6Interface::from_raw(u32::MAX).as_u32(), u32::MAX);
    assert_eq!(Ipv6Interface::from_raw(9).exec_id(), 9);
    assert_eq!(Ipv4Addr::new(0, 0, 1, 0).exec_id(), 256);
}

#[test]
fn ip_versions() {
    assert!(IpVersion::V4.wants_v4() && !IpVersion::V4.wants_v6());
    assert!(!IpVersion::V6.wants_v4() && IpVersion::V6.wants_v6());
    assert!(IpVersion::Both.wants_v4() && IpVersion::Both.wants_v6());
}

#[test]
fn an_interface_is_found_by_its_address() {
    let found = Ipv6Interface::from_addr(&six(2), &listing()).unwrap();
    assert_eq!(found.as_u32(), 2);
    // The first entry with the address has no index: the next one counts.
    assert_eq!(Ipv6Interface::from_addr(&six(3), &listing()).unwrap().as_u32(), 3);
    let missing = Ipv6Interface::from_addr(&six(99), &listing()).unwrap_err();
    assert_eq!(missing, IoError::new(IoErrorKind::NotFound, "Interface not found"));
}

#[test]
fn an_interface_is_found_by_its_name() {
    assert_eq!(Ipv6Interface::from_name("wlan0", &listing()).unwrap().as_u32(), 3);
    assert_eq!(Ipv6Interface::from_name("lo", &listing()).unwrap().as_u32(), 1);
    for unknown in ["ghost", "eth1", ""] {
        assert_eq!(
            Ipv6Interface::from_name(unknown, &listing()).unwrap_err(),
            IoError::new(IoErrorKind::NotFound, "Interface not found")
        );
    }
}

#[test]
fn the_addresses_and_the_name_of_an_interface() {
    let wlan = Ipv6Interface::from_raw(3);
    assert_eq!(wlan.addrs(&listing()), vec![six(3), six(4)]);
    assert_eq!(wlan.name(&listing()).unwrap(), "wlan0");
    let eth = Ipv6Interface::from_raw(2);
    assert_eq!(eth.addrs(&listing()), vec![six(2)]);
    assert_eq!(eth.name(&listing()).unwrap(), "eth0");
    let none = Ipv6Interface::from_raw(42);
    assert!(none.addrs(&listing()).is_empty());
    assert_eq!(
        none.name(&listing()).unwrap_err(),
        IoError::new(IoErrorKind::NotFound, "Interface not found")
    );
}

#[test]
fn the_interfaces_to_try_leave_loopback_out() {
    let listed = Ok(listing());
    assert_eq!(
        candidates_v4(&listed),
        vec![Ipv4Addr::new(192, 168, 1, 2), Ipv4Addr::new(10, 0, 0, 3)]
    );
    let indexes: Vec<u32> = candidates_v6(&listed).iter().map(|i| i.as_u32()).collect();
    assert_eq!(indexes, vec![2, 3, 3]);
    let failed = Err(IoError::new(IoErrorKind::Other, "no listing"));
    assert!(candidates_v4(&failed).is_empty());
    assert!(candidates_v6(&failed).is_empty());
}

#[test]
fn the_only_address_of_an_interface() {
    assert_eq!(single_address(&vec![six(1)]), Some(six(1)));
    assert_eq!(single_address(&vec![six(1), six(2)]), None);
    assert_eq!(single_address(&vec![]), None);
}

#[test]
fn what_shutting_down_reports() {
    let failure = MultiIpIoError::V4(IoError::new(IoErrorKind::Other, "closed"));
    assert_eq!(shutdown_outcome(WorkerExit::Finished), Ok(()));
    assert_eq!(
        shutdown_outcome(WorkerExit::Failed(failure.clone())),
        Err(ShutdownError::MultiIpIoError(failure.clone()))
    );
    assert_eq!(shutdown_outcome(WorkerExit::Panicked), Err(ShutdownError::ThreadJoinError));
    assert!(reraise_on_drop(&Err(ShutdownError::ThreadJoinError)));
    assert!(!reraise_on_drop(&Err(ShutdownError::MultiIpIoError(failure.clone()))));
    assert!(!reraise_on_drop(&Ok(())));
    assert_eq!(ShutdownError::from(failure.clone()), ShutdownError::MultiIpIoError(failure));
    let plain = IoError::new(IoErrorKind::InvalidInput, "plain");
    assert_eq!(MultiIpIoError::from(plain.clone()), MultiIpIoError::IoError(plain));
}
