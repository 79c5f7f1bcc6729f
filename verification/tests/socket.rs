use searchlight::errors::{IoError, IoErrorKind, MultiIpIoError};
use searchlight::net::{
    Ipv4Addr, Ipv6Addr, Ipv6Interface, SocketAddr, SocketAddrV4, SocketAddrV6, TargetInterface,
};
use searchlight::socket::{
    attempt, dedup, family_error, finish, has_iface, join_plan, retain_joined, run,
    send_to_multicast_result, set_up, setup_options, Family, InterfacedMdnsSocket, Joins,
    MdnsSocket, MdnsSocketRecv, Race, SendStep, Sent, SetupOp, SetupPlan, READ_TIMEOUT_MILLIS,
};
use std::cell::RefCell;

fn io(message: &str) -> IoError {
    IoError::new(IoErrorKind::Other, message)
}

fn v4(last: u8) -> Ipv4Addr {
    Ipv4Addr::new(10, 0, 0, last)
}

fn v6(index: u32) -> Ipv6Interface {
    Ipv6Interface::from_raw(index)
}

fn to_v4() -> SocketAddr {
    SocketAddr::V4(SocketAddrV4 { ip: v4(9), port: 5353 })
}

fn to_v6() -> SocketAddr {
    SocketAddr::V6(SocketAddrV6 {
        ip: Ipv6Addr::new([0xfe80, 0, 0, 0, 0, 0, 0, 9]),
        port: 5353,
        flowinfo: 0,
        scope_id: 1,
    })
}

fn uni4(socket: &'static str) -> InterfacedMdnsSocket<&'static str, Ipv4Addr> {
    InterfacedMdnsSocket::new(socket, vec![])
}

fn uni6(socket: &'static str) -> InterfacedMdnsSocket<&'static str, Ipv6Interface> {
    InterfacedMdnsSocket::new(socket, vec![])
}

fn ops_text<I: std::fmt::Debug>(ops: &[SetupOp<I>]) -> Vec<String> {
    ops.iter().map(|op| format!("{op:?}")).collect()
}

#[test]
fn a_socket_is_marked_by_the_number_of_its_interfaces() {
    assert!(matches!(
        InterfacedMdnsSocket::<u8, Ipv4Addr>::new(1, vec![]),
        InterfacedMdnsSocket::UniInterface(1)
    ));
    assert!(matches!(
        InterfacedMdnsSocket::new(2u8, vec![v4(1)]),
        InterfacedMdnsSocket::UniInterface(2)
    ));
    match InterfacedMdnsSocket::new(3u8, vec![v4(1), v4(2)]) {
        InterfacedMdnsSocket::MultiInterface { socket, ifaces } => {
            assert_eq!(socket, 3);
            assert_eq!(ifaces, vec![v4(1), v4(2)]);
        }
        other => panic!("not a socket of several interfaces: {other:?}"),
    }
}

#[test]
fn a_multicast_is_one_send_or_a_send_on_each_interface() {
    let one = InterfacedMdnsSocket::new(0u8, vec![v4(1)]);
    assert_eq!(format!("{:?}", one.send_to_multicast()), "[Send]");
    assert_eq!(*one.socket(), 0);
    let three = InterfacedMdnsSocket::new(0u8, vec![v6(4), v6(2), v6(9)]);
    let steps = three.send_to_multicast();
    assert_eq!(steps.len(), 6);
    for (i, index) in [4u32, 2, 9].into_iter().enumerate() {
        assert!(matches!(steps[2 * i], SendStep::SetMulticastIf(iface) if iface.as_u32() == index));
        assert!(matches!(steps[2 * i + 1], SendStep::Send));
    }
}

#[test]
fn a_multicast_fails_with_its_first_failure() {
    assert_eq!(send_to_multicast_result(vec![]), Ok(()));
    assert_eq!(send_to_multicast_result(vec![Ok(()), Ok(())]), Ok(()));
    assert_eq!(
        send_to_multicast_result(vec![Ok(()), Err(io("first")), Ok(()), Err(io("second"))]),
        Err(io("first"))
    );
}

#[test]
fn both_families_make_a_dual_socket() {
    assert!(matches!(
        MdnsSocket::new(Ok(uni4("four")), Ok(uni6("six"))),
        Ok(MdnsSocket::Multicol { .. })
    ));
}

#[test]
fn one_family_is_enough() {
    assert!(matches!(
        MdnsSocket::new(Ok(uni4("four")), Err(io("no v6"))),
        Ok(MdnsSocket::V4(InterfacedMdnsSocket::UniInterface("four")))
    ));
    assert!(matches!(
        MdnsSocket::new(Err(io("no v4")), Ok(uni6("six"))),
        Ok(MdnsSocket::V6(InterfacedMdnsSocket::UniInterface("six")))
    ));
}

#[test]
fn no_family_gives_both_errors() {
    match MdnsSocket::<&str>::new(Err(io("no v4")), Err(io("no v6"))) {
        Err((first, second)) => {
            assert_eq!(first, io("no v4"));
            assert_eq!(second, io("no v6"));
        }
        Ok(other) => panic!("not an error: {other:?}"),
    }
}

#[test]
fn single_family_sockets() {
    assert!(matches!(MdnsSocket::new_v4(Ok(uni4("four"))), Ok(MdnsSocket::V4(_))));
    assert!(matches!(MdnsSocket::new_v6(Ok(uni6("six"))), Ok(MdnsSocket::V6(_))));
    assert_eq!(MdnsSocket::<&str>::new_v4(Err(io("x"))).err(), Some(io("x")));
    assert_eq!(MdnsSocket::<&str>::new_v6(Err(io("y"))).err(), Some(io("y")));
}

#[test]
fn a_datagram_leaves_by_the_socket_of_its_family() {
    let dual = MdnsSocket::new(Ok(uni4("four")), Ok(uni6("six"))).unwrap();
    assert_eq!(dual.send_to(&to_v4()).unwrap(), (Family::V4, &"four"));
    assert_eq!(dual.send_to(&to_v6()).unwrap(), (Family::V6, &"six"));
    let only4 = MdnsSocket::new_v4(Ok(uni4("four"))).unwrap();
    assert_eq!(only4.send_to(&to_v4()).unwrap(), (Family::V4, &"four"));
    let only6 = MdnsSocket::new_v6(Ok(uni6("six"))).unwrap();
    assert_eq!(only6.send_to(&to_v6()).unwrap(), (Family::V6, &"six"));
}

#[test]
fn an_address_of_a_family_that_is_not_served_is_invalid_input() {
    let only4 = MdnsSocket::new_v4(Ok(uni4("four"))).unwrap();
    assert_eq!(
        only4.send_to(&to_v6()).err(),
        Some(MultiIpIoError::V4(IoError::new(
            IoErrorKind::InvalidInput,
            "Invalid address (only IPv4 available, got IPv6 address)"
        )))
    );
    let only6 = MdnsSocket::new_v6(Ok(uni6("six"))).unwrap();
    assert_eq!(
        only6.send_to(&to_v4()).err(),
        Some(MultiIpIoError::V4(IoError::new(
            IoErrorKind::InvalidInput,
            "Invalid address (only IPv6 available, got IPv4 address)"
        )))
    );
}

#[test]
fn a_send_error_is_filed_under_its_family() {
    assert_eq!(MdnsSocket::<u8>::send_to_result(Family::V4, Ok(())), Ok(()));
    assert_eq!(
        MdnsSocket::<u8>::send_to_result(Family::V4, Err(io("a"))),
        Err(MultiIpIoError::V4(io("a")))
    );
    assert_eq!(
        MdnsSocket::<u8>::send_to_result(Family::V6, Err(io("b"))),
        Err(MultiIpIoError::V6(io("b")))
    );
    assert_eq!(family_error(Family::V6, io("c")), MultiIpIoError::V6(io("c")));
}

#[test]
fn a_multicast_on_both_families_succeeds_if_either_does() {
    let send = MdnsSocket::<u8>::send_multicast;
    assert_eq!(send(Sent::Both { v4: Ok(()), v6: Ok(()) }), Ok(()));
    assert_eq!(send(Sent::Both { v4: Ok(()), v6: Err(io("six")) }), Ok(()));
    assert_eq!(send(Sent::Both { v4: Err(io("four")), v6: Ok(()) }), Ok(()));
    assert_eq!(
        send(Sent::Both { v4: Err(io("four")), v6: Err(io("six")) }),
        Err(MultiIpIoError::Both { v4: io("four"), v6: io("six") })
    );
}

#[test]
fn a_multicast_on_one_family_has_its_outcome() {
    let send = MdnsSocket::<u8>::send_multicast;
    assert_eq!(send(Sent::V4(Ok(()))), Ok(()));
    assert_eq!(send(Sent::V6(Ok(()))), Ok(()));
    assert_eq!(send(Sent::V4(Err(io("four")))), Err(MultiIpIoError::V4(io("four"))));
    assert_eq!(send(Sent::V6(Err(io("six")))), Err(MultiIpIoError::V6(io("six"))));
}

#[test]
fn dual_family_without_ipv6_works_on_ipv4_alone() {
    // IPv6 is switched off: its socket cannot be opened.
    let socket = MdnsSocket::new(Ok(uni4("four")), Err(io("Address family not supported")));
    let socket = socket.unwrap();
    assert!(matches!(socket, MdnsSocket::V4(_)));
    assert_eq!(MdnsSocket::<&str>::send_multicast(Sent::V4(Ok(()))), Ok(()));
    // Or its socket opens and every send on it fails.
    assert_eq!(
        MdnsSocket::<&str>::send_multicast(Sent::Both { v4: Ok(()), v6: Err(io("unreachable")) }),
        Ok(())
    );
}

#[test]
fn each_socket_receives_into_a_buffer_of_its_own() {
    let only4 = MdnsSocket::new_v4(Ok(uni4("four"))).unwrap();
    assert!(matches!(
        only4.recv(vec![0; 8]),
        MdnsSocketRecv::V4(&"four", buffer) if buffer == vec![0; 8]
    ));
    let only6 = MdnsSocket::new_v6(Ok(uni6("six"))).unwrap();
    assert!(matches!(
        only6.recv(vec![1; 4]),
        MdnsSocketRecv::V6(&"six", buffer) if buffer == vec![1; 4]
    ));
    let dual = MdnsSocket::new(Ok(uni4("four")), Ok(uni6("six"))).unwrap();
    match dual.recv(vec![2; 16]) {
        MdnsSocketRecv::Multicol { v4: (s4, b4), v6: (s6, b6) } => {
            assert_eq!((*s4, *s6), ("four", "six"));
            assert_eq!(b4, vec![2; 16]);
            assert_eq!(b6, vec![2; 16]);
        }
        other => panic!("not a receive on both: {other:?}"),
    }
}

#[test]
fn the_first_datagram_wins_the_race() {
    match MdnsSocketRecv::<u8>::recv_multicast(Family::V6, Ok((12, to_v6()))) {
        Race::Done(Ok((family, count, from))) => {
            assert_eq!((family, count, from), (Family::V6, 12, to_v6()))
        }
        other => panic!("not done: {other:?}"),
    }
}

#[test]
fn a_failure_waits_for_the_other_family() {
    let (failed, error) = match MdnsSocketRecv::<u8>::recv_multicast(Family::V4, Err(io("four"))) {
        Race::AwaitOther { failed, error } => (failed, error),
        other => panic!("not waiting: {other:?}"),
    };
    assert_eq!(failed, Family::V4);
    assert_eq!(
        MdnsSocketRecv::<u8>::recv_other(failed, error.clone(), Ok((3, to_v6()))),
        Ok((Family::V6, 3, to_v6()))
    );
    assert_eq!(
        MdnsSocketRecv::<u8>::recv_other(failed, error, Err(io("six"))),
        Err(MultiIpIoError::Both { v4: io("four"), v6: io("six") })
    );
    assert_eq!(
        MdnsSocketRecv::<u8>::recv_other(Family::V6, io("six"), Err(io("four"))),
        Err(MultiIpIoError::Both { v4: io("four"), v6: io("six") })
    );
    assert_eq!(
        MdnsSocketRecv::<u8>::recv_other(Family::V6, io("six"), Ok((1, to_v4()))),
        Ok((Family::V4, 1, to_v4()))
    );
}

#[test]
fn a_receive_on_one_family_files_its_error() {
    assert_eq!(
        MdnsSocketRecv::<u8>::recv_single(Family::V4, Ok((5, to_v4()))),
        Ok((Family::V4, 5, to_v4()))
    );
    assert_eq!(
        MdnsSocketRecv::<u8>::recv_single(Family::V6, Err(io("six"))),
        Err(MultiIpIoError::V6(io("six")))
    );
}

#[test]
fn the_options_of_a_new_socket() {
    assert_eq!(
        ops_text(&setup_options::<Ipv4Addr>(Family::V4, true, true)),
        vec![
            "Create(V4)",
            "SetReadTimeout(100)",
            "SetReuseAddress(true)",
            "SetMulticastLoop(true)",
            "SetReusePort(true)",
        ]
    );
    assert_eq!(
        ops_text(&setup_options::<Ipv6Interface>(Family::V6, false, false)),
        vec![
            "Create(V6)",
            "SetReadTimeout(100)",
            "SetReuseAddress(true)",
            "SetOnlyV6(true)",
            "SetMulticastLoop(false)",
        ]
    );
    assert_eq!(READ_TIMEOUT_MILLIS, 100);
}

#[test]
fn how_each_selection_joins() {
    let listed = vec![v4(7), v4(8), v4(7)];
    match join_plan(&TargetInterface::Default, &listed) {
        Joins::Required(joins) => assert_eq!(ops_text(&joins), vec!["JoinGroup(None)"]),
        other => panic!("{other:?}"),
    }
    match join_plan(&TargetInterface::Specific(v6(1)), &vec![]) {
        Joins::Required(joins) => assert_eq!(
            ops_text(&joins),
            vec!["JoinGroup(Some(Ipv6Interface { index: 1 }))"]
        ),
        other => panic!("{other:?}"),
    }
    match join_plan(&TargetInterface::Multi(vec![v6(2), v6(1), v6(2)]), &vec![]) {
        Joins::Required(joins) => assert_eq!(
            ops_text(&joins),
            vec![
                "JoinGroup(Some(Ipv6Interface { index: 2 }))",
                "JoinGroup(Some(Ipv6Interface { index: 1 }))",
            ]
        ),
        other => panic!("{other:?}"),
    }
    assert_eq!(
        ops_text(&attempt(v6(5))),
        vec![
            "SetMulticastIf(Some(Ipv6Interface { index: 5 }))",
            "JoinGroup(Some(Ipv6Interface { index: 5 }))",
        ]
    );
    match join_plan(&TargetInterface::All, &listed) {
        Joins::BestEffort(tried) => assert_eq!(tried, vec![v4(7), v4(8)]),
        other => panic!("{other:?}"),
    }
}

#[test]
fn an_interface_named_twice_counts_once() {
    assert_eq!(dedup(&vec![v6(3), v6(1), v6(3), v6(2), v6(1)]), vec![v6(3), v6(1), v6(2)]);
    assert_eq!(dedup::<Ipv4Addr>(&vec![]), vec![]);
    assert!(has_iface(&vec![v4(1), v4(2)], &v4(2)));
    assert!(!has_iface(&vec![v4(1), v4(2)], &v4(3)));
}

#[test]
fn the_interfaces_that_were_joined_are_retained() {
    assert_eq!(
        retain_joined(&vec![v4(1), v4(2), v4(3)], &vec![true, false, true]),
        vec![v4(1), v4(3)]
    );
    assert_eq!(retain_joined(&vec![v4(1)], &vec![false]), vec![]);
}

#[test]
fn the_end_of_a_set_up_by_default() {
    let end = finish::<Ipv4Addr>(&TargetInterface::Default, vec![], true);
    assert!(end.ifaces.is_empty());
    assert_eq!(ops_text(&end.ops), vec!["Bind(None)", "SetMulticastIf(None)", "SendProbe"]);
}

#[test]
fn the_end_of_a_set_up_with_one_interface() {
    let end = finish(&TargetInterface::Specific(v6(4)), vec![], false);
    assert_eq!(end.ifaces, vec![v6(4)]);
    assert_eq!(
        ops_text(&end.ops),
        vec![
            "Bind(None)",
            "SetMulticastIf(None)",
            "SendProbe",
            "SetMulticastIf(Some(Ipv6Interface { index: 4 }))",
        ]
    );
    // Where the system wants it, such a socket is bound to its interface.
    let bound = finish(&TargetInterface::Specific(v6(4)), vec![], true);
    assert_eq!(ops_text(&bound.ops)[0], "Bind(Some(Ipv6Interface { index: 4 }))");
}

#[test]
fn the_end_of_a_set_up_with_several_interfaces() {
    let end = finish(&TargetInterface::Multi(vec![v4(2), v4(1), v4(2)]), vec![], true);
    assert_eq!(end.ifaces, vec![v4(2), v4(1)]);
    assert_eq!(ops_text(&end.ops), vec!["Bind(None)", "SetMulticastIf(None)", "SendProbe"]);
    assert!(matches!(
        InterfacedMdnsSocket::new((), end.ifaces),
        InterfacedMdnsSocket::MultiInterface { .. }
    ));
}

#[test]
fn all_interfaces_fall_back_to_the_default_join() {
    let none = finish::<Ipv4Addr>(&TargetInterface::All, vec![], false);
    assert!(none.ifaces.is_empty());
    assert_eq!(
        ops_text(&none.ops),
        vec!["JoinGroup(None)", "Bind(None)", "SetMulticastIf(None)", "SendProbe"]
    );
    let some = finish(&TargetInterface::All, vec![v4(1), v4(2)], false);
    assert_eq!(some.ifaces, vec![v4(1), v4(2)]);
    assert_eq!(ops_text(&some.ops), vec!["Bind(None)", "SetMulticastIf(None)", "SendProbe"]);
    let one = finish(&TargetInterface::All, vec![v4(1)], true);
    assert_eq!(one.ifaces, vec![v4(1)]);
    assert_eq!(ops_text(&one.ops).len(), 4);
    assert!(matches!(
        InterfacedMdnsSocket::new((), one.ifaces),
        InterfacedMdnsSocket::UniInterface(())
    ));
}

#[test]
fn sockets_are_converted_and_keep_their_interfaces() {
    let several = InterfacedMdnsSocket::new(20u32, vec![v4(1), v4(2)]);
    match several.into_async(|socket| Ok(u64::from(socket) + 1)) {
        Ok(InterfacedMdnsSocket::MultiInterface { socket, ifaces }) => {
            assert_eq!(socket, 21u64);
            assert_eq!(ifaces, vec![v4(1), v4(2)]);
        }
        other => panic!("{other:?}"),
    }
    let one = InterfacedMdnsSocket::new(5u32, vec![v4(1)]);
    assert_eq!(one.into_async(|_| Err::<u64, _>(io("no"))).err(), Some(io("no")));
}

#[test]
fn converting_files_the_error_under_the_family() {
    let dual = |a, b| {
        MdnsSocket::new(
            Ok(InterfacedMdnsSocket::new(a, vec![])),
            Ok(InterfacedMdnsSocket::new(b, vec![])),
        )
        .unwrap()
    };
    let refuse = |bad: u8| move |socket: u8| if socket == bad { Err(io("bad")) } else { Ok(socket) };
    assert!(matches!(dual(4u8, 6u8).into_async(refuse(0)), Ok(MdnsSocket::Multicol { .. })));
    assert_eq!(dual(4, 6).into_async(refuse(4)).err(), Some(MultiIpIoError::V4(io("bad"))));
    assert_eq!(dual(4, 6).into_async(refuse(6)).err(), Some(MultiIpIoError::V6(io("bad"))));
    let only6 = MdnsSocket::new_v6(Ok(InterfacedMdnsSocket::new(6u8, vec![]))).unwrap();
    assert_eq!(only6.into_async(refuse(6)).err(), Some(MultiIpIoError::V6(io("bad"))));
    let only4 = MdnsSocket::new_v4(Ok(InterfacedMdnsSocket::new(4u8, vec![]))).unwrap();
    assert!(matches!(only4.into_async(refuse(0)), Ok(MdnsSocket::V4(_))));
}

fn plan_v4(interface: TargetInterface<Ipv4Addr>, candidates: Vec<Ipv4Addr>) -> SetupPlan<Ipv4Addr> {
    SetupPlan {
        family: Family::V4,
        loopback: true,
        reuse_port: true,
        bind_to_interface: false,
        interface,
        candidates,
    }
}

/// Sets a socket up with steps that fail where `fails` says so, and tells
/// the steps that were taken.
fn set_up_with(
    plan: &SetupPlan<Ipv4Addr>,
    fails: impl Fn(&str) -> bool,
) -> (Result<Vec<Ipv4Addr>, IoError>, Vec<String>) {
    let taken = RefCell::new(Vec::new());
    let outcome = set_up(plan, &|op: SetupOp<Ipv4Addr>| {
        let text = format!("{op:?}");
        taken.borrow_mut().push(text.clone());
        if fails(&text) {
            Err(io(&text))
        } else {
            Ok(())
        }
    });
    (outcome, taken.into_inner())
}

const OPTIONS: [&str; 5] = [
    "Create(V4)",
    "SetReadTimeout(100)",
    "SetReuseAddress(true)",
    "SetMulticastLoop(true)",
    "SetReusePort(true)",
];

fn with_options(rest: &[&str]) -> Vec<String> {
    OPTIONS.iter().chain(rest.iter()).map(|op| op.to_string()).collect()
}

#[test]
fn steps_are_taken_in_order_until_one_fails() {
    let taken = RefCell::new(Vec::new());
    let ops = vec![
        SetupOp::<Ipv4Addr>::SetReuseAddress(true),
        SetupOp::SendProbe,
        SetupOp::SetOnlyV6(true),
    ];
    let outcome = run(&ops, &|op: SetupOp<Ipv4Addr>| {
        taken.borrow_mut().push(format!("{op:?}"));
        if matches!(op, SetupOp::SendProbe) {
            Err(io("probe"))
        } else {
            Ok(())
        }
    });
    assert_eq!(outcome, Err(io("probe")));
    assert_eq!(taken.into_inner(), vec!["SetReuseAddress(true)", "SendProbe"]);
    assert_eq!(run(&ops, &|_| Ok(())), Ok(()));
    assert_eq!(run(&Vec::<SetupOp<Ipv4Addr>>::new(), &|_| Err(io("never"))), Ok(()));
}

#[test]
fn set_up_by_default() {
    let (outcome, taken) = set_up_with(&plan_v4(TargetInterface::Default, vec![v4(1)]), |_| false);
    assert_eq!(outcome, Ok(vec![]));
    assert_eq!(
        taken,
        with_options(&["JoinGroup(None)", "Bind(None)", "SetMulticastIf(None)", "SendProbe"])
    );
}

#[test]
fn set_up_with_several_interfaces() {
    let plan = plan_v4(TargetInterface::Multi(vec![v4(2), v4(1), v4(2)]), vec![]);
    let (outcome, taken) = set_up_with(&plan, |_| false);
    assert_eq!(outcome, Ok(vec![v4(2), v4(1)]));
    assert_eq!(
        taken,
        with_options(&[
            "JoinGroup(Some(Ipv4Addr { bits: 167772162 }))",
            "JoinGroup(Some(Ipv4Addr { bits: 167772161 }))",
            "Bind(None)",
            "SetMulticastIf(None)",
            "SendProbe",
        ])
    );
}

#[test]
fn set_up_with_all_interfaces_keeps_those_that_join() {
    let plan = plan_v4(TargetInterface::All, vec![v4(1), v4(2), v4(3), v4(1)]);
    let (outcome, taken) = set_up_with(&plan, |op| {
        op == "SetMulticastIf(Some(Ipv4Addr { bits: 167772161 }))"
            || op == "JoinGroup(Some(Ipv4Addr { bits: 167772163 }))"
    });
    assert_eq!(outcome, Ok(vec![v4(2)]));
    assert_eq!(
        taken,
        with_options(&[
            "SetMulticastIf(Some(Ipv4Addr { bits: 167772161 }))",
            "SetMulticastIf(Some(Ipv4Addr { bits: 167772162 }))",
            "JoinGroup(Some(Ipv4Addr { bits: 167772162 }))",
            "SetMulticastIf(Some(Ipv4Addr { bits: 167772163 }))",
            "JoinGroup(Some(Ipv4Addr { bits: 167772163 }))",
            "Bind(None)",
            "SetMulticastIf(None)",
            "SendProbe",
            "SetMulticastIf(Some(Ipv4Addr { bits: 167772162 }))",
        ])
    );
}

#[test]
fn set_up_with_all_interfaces_falls_back_to_the_default() {
    let plan = plan_v4(TargetInterface::All, vec![v4(1)]);
    let (outcome, taken) = set_up_with(&plan, |op| op.starts_with("JoinGroup(Some"));
    assert_eq!(outcome, Ok(vec![]));
    assert_eq!(
        taken,
        with_options(&[
            "SetMulticastIf(Some(Ipv4Addr { bits: 167772161 }))",
            "JoinGroup(Some(Ipv4Addr { bits: 167772161 }))",
            "JoinGroup(None)",
            "Bind(None)",
            "SetMulticastIf(None)",
            "SendProbe",
        ])
    );
    // Where the fallback fails too, the set-up fails.
    let (outcome, _) = set_up_with(&plan, |op| op.starts_with("JoinGroup"));
    assert_eq!(outcome, Err(io("JoinGroup(None)")));
}

#[test]
fn set_up_fails_with_the_first_step_that_must_succeed() {
    let plan = plan_v4(TargetInterface::Specific(v4(1)), vec![]);
    let (outcome, taken) = set_up_with(&plan, |op| op == "SetReuseAddress(true)");
    assert_eq!(outcome, Err(io("SetReuseAddress(true)")));
    assert_eq!(taken.len(), 3);
    let (outcome, taken) = set_up_with(&plan, |op| op.starts_with("JoinGroup"));
    assert_eq!(outcome, Err(io("JoinGroup(Some(Ipv4Addr { bits: 167772161 }))")));
    assert_eq!(taken.len(), 6);
    let (outcome, taken) = set_up_with(&plan, |op| op == "SendProbe");
    assert_eq!(outcome, Err(io("SendProbe")));
    assert_eq!(taken.len(), 9);
    let (outcome, taken) = set_up_with(&plan, |_| false);
    assert_eq!(outcome, Ok(vec![v4(1)]));
    assert_eq!(taken.len(), 10);
    assert_eq!(taken[9], "SetMulticastIf(Some(Ipv4Addr { bits: 167772161 }))");
}
