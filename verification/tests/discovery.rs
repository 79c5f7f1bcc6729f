use searchlight::broadcast::{BroadcasterConfig, ReplyTarget, Service, ServiceBuilder};
use searchlight::discovery::builder::{DEFAULT_INTERVAL_SECS, DEFAULT_MAX_IGNORED_PACKETS};
use searchlight::discovery::presence::ResponderMemory;
use searchlight::discovery::{
    accept, discovery_packet, recv_multicast, Discovery, DiscoveryBuilder, DiscoveryEvent,
    DiscoveryLoop, Responder, GRACE_WINDOW_MILLIS,
};
use searchlight::dns::{InboundMessage, MessageKind};
use searchlight::name::{DnsName, IntoDnsName};
use searchlight::net::{
    IpAddr, IpVersion, Ipv4Addr, Ipv6Addr, Ipv6Interface, SocketAddr, SocketAddrV4, SocketAddrV6,
    TargetInterface,
};
use std::sync::Arc;
use std::time::Duration;
use trust_dns_client::op::{Message, MessageType};
use trust_dns_client::rr::{DNSClass, Name, RecordType};
use trust_dns_client::serialize::binary::{BinDecodable, BinEncodable};

fn test_service(name: &str) -> Service {
    ServiceBuilder::new("_searchlight-test._udp.local", name, 1337)
        .unwrap()
        .add_ip_address(IpAddr::V4(Ipv4Addr::new(192, 168, 1, 69)))
        .add_txt("key=value")
        .add_txt_truncated("key2=value2")
        .build()
        .unwrap()
}

fn response_bytes(name: &str) -> Vec<u8> {
    test_service(name).dns_response().unwrap().to_bytes().unwrap()
}

fn peer(last: u8) -> SocketAddr {
    SocketAddr::V4(SocketAddrV4 { ip: Ipv4Addr::new(192, 168, 1, last), port: 5353 })
}

fn found(event: &Option<DiscoveryEvent>) -> Arc<Responder> {
    match event {
        Some(DiscoveryEvent::ResponderFound(responder)) => responder.clone(),
        other => panic!("not a ResponderFound: {other:?}"),
    }
}

#[test]
fn client_and_server() {
    // The server: a table with one service. The client: a browser for that
    // service. What one sends is handed to the other as it would arrive.
    let server_addr = peer(69);
    let client_addr = peer(7);
    let mut server = BroadcasterConfig::new();
    server.add_service(test_service("searchlighttest")).unwrap();

    let service_name = "_searchlight-test._udp.local".into_fqdn().unwrap();
    let mut client = DiscoveryLoop::new(Some(service_name), 2).unwrap();

    let mut got_found = false;
    let mut got_lost = false;
    let mut now: u64 = 0;
    let mut server_running = true;

    for round in 0..8 {
        if round == 2 {
            // Shutting down server
            server_running = false;
        }
        let tick = client.tick(now);
        assert_eq!(tick.grace_deadline, Some(now + GRACE_WINDOW_MILLIS));
        if server_running {
            let replies = server.handle_packet(&tick.packet, tick.packet.len(), client_addr);
            assert_eq!(replies.len(), 1);
            for reply in replies {
                assert_eq!(reply.target, ReplyTarget::Multicast);
                let event = client.packet(reply.packet.len(), server_addr, &reply.packet, now + 1);
                match event {
                    Some(DiscoveryEvent::ResponderFound(responder)) => {
                        assert!(!got_found);
                        let names: Vec<String> = Message::from_bytes(&responder.packet)
                            .unwrap()
                            .additionals()
                            .iter()
                            .map(|record| record.name().to_string())
                            .collect();
                        assert!(names
                            .iter()
                            .any(|name| name == "searchlighttest._searchlight-test._udp.local."));
                        assert!(responder.last_response.additional_names.iter().any(|name| {
                            name.text() == b"searchlighttest._searchlight-test._udp.local."
                        }));
                        assert_eq!(responder.addr, server_addr);
                        got_found = true;
                    }
                    Some(DiscoveryEvent::ResponseUpdate { old, new }) => {
                        assert!(got_found);
                        assert_eq!(old.addr, new.addr);
                    }
                    other => panic!("unexpected event: {other:?}"),
                }
            }
        }
        for event in client.grace_expired() {
            match event {
                DiscoveryEvent::ResponderLost(responder) => {
                    assert!(got_found);
                    assert!(!got_lost);
                    assert_eq!(responder.addr, server_addr);
                    got_lost = true;
                }
                other => panic!("unexpected event: {other:?}"),
            }
        }
        now += 1000;
    }

    assert!(got_found);
    assert!(got_lost);
    assert_eq!(client.responder_memory().len(), 0);
}

#[test]
fn the_question_asks_for_ptr_records_without_the_unicast_bit() {
    let name = "_test._udp.local".into_fqdn().unwrap();
    let packet = discovery_packet(false, Some(&name)).unwrap();
    let decoded = Message::from_bytes(&packet).unwrap();
    assert_eq!(decoded.message_type(), MessageType::Query);
    assert_eq!(decoded.queries().len(), 1);
    assert!(decoded.answers().is_empty());
    let query = &decoded.queries()[0];
    assert_eq!(query.name(), &Name::from_utf8("_test._udp.local.").unwrap());
    assert_eq!(query.query_type(), RecordType::PTR);
    assert_eq!(query.query_class(), DNSClass::IN);
    assert!(!query.mdns_unicast_response());

    let unicast = discovery_packet(true, Some(&name)).unwrap();
    assert!(Message::from_bytes(&unicast).unwrap().queries()[0].mdns_unicast_response());
    assert_ne!(packet, unicast);
}

#[test]
fn the_question_about_every_service_has_the_empty_name() {
    let packet = discovery_packet(false, None).unwrap();
    let decoded = Message::from_bytes(&packet).unwrap();
    assert_eq!(decoded.queries().len(), 1);
    assert_eq!(decoded.queries()[0].name().num_labels(), 0);
    assert_eq!(decoded.queries()[0].query_type(), RecordType::PTR);
}

#[test]
fn only_responses_are_taken() {
    let name = "_searchlight-test._udp.local".into_fqdn().unwrap();
    let response = response_bytes("host");
    assert!(accept(Some(&name), &response, response.len()).is_some());
    assert!(accept(None, &response, response.len()).is_some());
    // A question is no response.
    let question = discovery_packet(false, Some(&name)).unwrap();
    assert!(accept(Some(&name), &question, question.len()).is_none());
    assert!(accept(None, &question, question.len()).is_none());
    // Nothing, or no message.
    assert!(accept(None, &response, 0).is_none());
    assert!(accept(None, &[7, 7, 7], 3).is_none());
    assert!(accept(None, &response, response.len() + 1).is_none());
}

#[test]
fn a_response_must_answer_at_the_service_name() {
    let response = response_bytes("host");
    let other = "_other._udp.local".into_fqdn().unwrap();
    assert!(accept(Some(&other), &response, response.len()).is_none());
    let upper = DnsName::from_bytes(b"_SEARCHLIGHT-TEST._udp.local.").unwrap();
    let taken = accept(Some(&upper), &response, response.len()).unwrap();
    assert_eq!(taken.kind, MessageKind::Response);
    assert_eq!(taken.answer_names.len(), 1);
    assert_eq!(taken.answer_names[0].text(), b"_searchlight-test._udp.local.");
    assert_eq!(taken.additional_names.len(), 3);
    // The name of an additional record does not count.
    let host = "host.local".into_fqdn().unwrap();
    assert!(accept(Some(&host), &response, response.len()).is_none());
}

#[test]
fn first_response_finds_and_the_next_updates() {
    let mut memory = ResponderMemory::new();
    let first = response_bytes("one");
    let event = recv_multicast(None, &mut memory, first.len(), peer(1), &first, 10);
    let known = found(&event);
    assert_eq!(known.addr, peer(1));
    assert_eq!(known.last_responded, 10);
    assert_eq!(known.packet, first);
    assert_eq!(memory.len(), 1);
    assert_eq!(memory.get(&peer(1)).unwrap().ignored_packets, 0);
    assert!(memory.get(&peer(2)).is_none());

    let second = response_bytes("two");
    match recv_multicast(None, &mut memory, second.len(), peer(1), &second, 20) {
        Some(DiscoveryEvent::ResponseUpdate { old, new }) => {
            assert!(Arc::ptr_eq(&old, &known));
            assert_eq!(new.addr, peer(1));
            assert_eq!(new.last_responded, 20);
            assert_eq!(new.packet, second);
        }
        other => panic!("not a ResponseUpdate: {other:?}"),
    }
    assert_eq!(memory.len(), 1);
    assert_eq!(memory.get(&peer(1)).unwrap().inner.packet, second);
}

#[test]
fn two_peers_at_one_address_are_one_responder() {
    let mut memory = ResponderMemory::new();
    let v6 = SocketAddr::V6(SocketAddrV6 {
        ip: Ipv6Addr::new([0xfe80, 0, 0, 0, 0, 0, 0, 1]),
        port: 5353,
        flowinfo: 0,
        scope_id: 2,
    });
    let a = response_bytes("a");
    let b = response_bytes("b");
    found(&recv_multicast(None, &mut memory, a.len(), v6, &a, 1));
    found(&recv_multicast(None, &mut memory, a.len(), peer(1), &a, 2));
    assert!(matches!(
        recv_multicast(None, &mut memory, b.len(), v6, &b, 3),
        Some(DiscoveryEvent::ResponseUpdate { .. })
    ));
    assert_eq!(memory.len(), 2);
    // The entry is replaced where it stood.
    assert_eq!(memory.entries()[0].inner.addr, v6);
    assert_eq!(memory.entries()[0].inner.packet, b);
    assert_eq!(memory.entries()[1].inner.addr, peer(1));
}

#[test]
fn what_is_not_taken_leaves_the_table_alone() {
    let mut memory = ResponderMemory::new();
    let response = response_bytes("one");
    found(&recv_multicast(None, &mut memory, response.len(), peer(1), &response, 0));
    let question = discovery_packet(false, None).unwrap();
    assert!(recv_multicast(None, &mut memory, question.len(), peer(2), &question, 1).is_none());
    assert!(recv_multicast(None, &mut memory, 0, peer(3), &response, 1).is_none());
    assert_eq!(memory.len(), 1);
}

#[test]
fn a_silent_responder_counts_up_and_is_lost_after_the_limit() {
    let mut memory = ResponderMemory::new();
    let response = response_bytes("one");
    let known = found(&recv_multicast(None, &mut memory, response.len(), peer(1), &response, 0));
    for tick in 1..=2u8 {
        assert!(memory.sweep(2).is_empty());
        assert_eq!(memory.get(&peer(1)).unwrap().ignored_packets, tick);
    }
    let lost = memory.sweep(2);
    assert_eq!(lost.len(), 1);
    assert!(Arc::ptr_eq(&lost[0], &known));
    assert!(memory.get(&peer(1)).is_none());
    assert_eq!(memory.len(), 0);
    assert!(memory.sweep(2).is_empty());
}

#[test]
fn a_response_starts_the_count_anew() {
    let mut memory = ResponderMemory::new();
    let response = response_bytes("one");
    found(&recv_multicast(None, &mut memory, response.len(), peer(1), &response, 0));
    found(&recv_multicast(None, &mut memory, response.len(), peer(2), &response, 0));
    assert!(memory.sweep(1).is_empty());
    assert!(recv_multicast(None, &mut memory, response.len(), peer(1), &response, 5).is_some());
    assert_eq!(memory.get(&peer(1)).unwrap().ignored_packets, 0);
    assert_eq!(memory.get(&peer(2)).unwrap().ignored_packets, 1);
    let lost = memory.sweep(1);
    assert_eq!(lost.len(), 1);
    assert_eq!(lost[0].addr, peer(2));
    assert_eq!(memory.len(), 1);
    assert_eq!(memory.get(&peer(1)).unwrap().ignored_packets, 1);
}

#[test]
fn a_limit_of_255_does_not_overflow() {
    let mut memory = ResponderMemory::new();
    let response = response_bytes("one");
    found(&recv_multicast(None, &mut memory, response.len(), peer(1), &response, 0));
    for _ in 0..255 {
        assert!(memory.sweep(255).is_empty());
    }
    assert_eq!(memory.get(&peer(1)).unwrap().ignored_packets, 255);
    assert_eq!(memory.sweep(255).len(), 1);
}

#[test]
fn events_of_an_address_come_in_order() {
    // Found, updates, lost, and after that found again.
    let mut browser = DiscoveryLoop::new(None, 1).unwrap();
    let response = response_bytes("one");
    let mut heard: Vec<&str> = Vec::new();
    let mut hear = |event: &DiscoveryEvent| {
        heard.push(match event {
            DiscoveryEvent::ResponderFound(_) => "found",
            DiscoveryEvent::ResponseUpdate { .. } => "update",
            DiscoveryEvent::ResponderLost(_) => "lost",
        })
    };
    for now in [0u64, 10, 20] {
        browser.tick(now);
        hear(&browser.packet(response.len(), peer(1), &response, now).unwrap());
        browser.grace_expired().iter().for_each(&mut hear);
    }
    for now in [30u64, 40, 50] {
        browser.tick(now);
        browser.grace_expired().iter().for_each(&mut hear);
    }
    browser.tick(60);
    hear(&browser.packet(response.len(), peer(1), &response, 60).unwrap());
    assert_eq!(heard, vec!["found", "update", "update", "lost", "found"]);
}

#[test]
fn a_limit_of_zero_never_opens_a_window() {
    let mut browser = DiscoveryLoop::new(None, 0).unwrap();
    let response = response_bytes("one");
    assert!(browser.packet(response.len(), peer(1), &response, 0).is_some());
    for now in 0..5u64 {
        let tick = browser.tick(now);
        assert_eq!(tick.grace_deadline, None);
        assert_eq!(browser.grace_deadline(), None);
        assert!(browser.grace_expired().is_empty());
    }
    assert_eq!(browser.responder_memory().len(), 1);
    assert_eq!(browser.responder_memory().get(&peer(1)).unwrap().ignored_packets, 0);
}

#[test]
fn the_window_is_two_seconds_and_grows_by_the_time_spent() {
    let mut browser = DiscoveryLoop::new(None, 2).unwrap();
    assert_eq!(browser.grace_deadline(), None);
    browser.processed(50);
    assert_eq!(browser.grace_deadline(), None);
    let tick = browser.tick(1_000);
    assert_eq!(tick.packet, discovery_packet(false, None).unwrap());
    assert_eq!(tick.grace_deadline, Some(3_000));
    browser.processed(7);
    browser.processed(13);
    assert_eq!(browser.grace_deadline(), Some(3_020));
    browser.grace_expired();
    assert_eq!(browser.grace_deadline(), None);
    // At the end of time the deadline stays there.
    assert_eq!(browser.tick(u64::MAX - 5).grace_deadline, Some(u64::MAX));
    browser.processed(1);
    assert_eq!(browser.grace_deadline(), Some(u64::MAX));
    assert_eq!(GRACE_WINDOW_MILLIS, 2000);
}

#[test]
fn sweeping_happens_only_at_the_end_of_a_window() {
    let mut browser = DiscoveryLoop::new(None, 1).unwrap();
    let response = response_bytes("one");
    assert!(browser.packet(response.len(), peer(1), &response, 0).is_some());
    assert!(browser.grace_expired().is_empty());
    assert_eq!(browser.responder_memory().get(&peer(1)).unwrap().ignored_packets, 0);
    browser.tick(0);
    assert!(browser.grace_expired().is_empty());
    assert_eq!(browser.responder_memory().get(&peer(1)).unwrap().ignored_packets, 1);
}

#[test]
fn builder_defaults() {
    let discovery = Discovery::builder().build(IpVersion::Both).unwrap();
    assert!(discovery.service_name.is_none());
    assert_eq!(discovery.interval, Duration::from_secs(10));
    assert_eq!(discovery.max_ignored_packets, 2);
    assert!(!discovery.socket.loopback);
    assert_eq!(discovery.socket.ip_version, IpVersion::Both);
    assert_eq!(discovery.socket.interface_v4, TargetInterface::All);
    assert_eq!(discovery.socket.interface_v6, TargetInterface::All);
    assert_eq!(DEFAULT_INTERVAL_SECS, 10);
    assert_eq!(DEFAULT_MAX_IGNORED_PACKETS, 2);
}

#[test]
fn builder_settings() {
    let discovery = DiscoveryBuilder::new()
        .service("_test._udp.local")
        .unwrap()
        .interval(Duration::from_secs(1))
        .max_ignored_packets(5)
        .loopback()
        .interface_v4(TargetInterface::Default)
        .interface_v6(TargetInterface::Specific(Ipv6Interface::from_raw(3)))
        .build(IpVersion::V6)
        .unwrap();
    assert_eq!(discovery.service_name.unwrap().text(), b"_test._udp.local.");
    assert_eq!(discovery.interval, Duration::from_secs(1));
    assert_eq!(discovery.max_ignored_packets, 5);
    assert!(discovery.socket.loopback);
    assert_eq!(discovery.socket.ip_version, IpVersion::V6);
    assert_eq!(discovery.socket.interface_v4, TargetInterface::Default);
    assert_eq!(
        discovery.socket.interface_v6,
        TargetInterface::Specific(Ipv6Interface::from_raw(3))
    );
    assert!(DiscoveryBuilder::new().service("bad name").is_err());
}

#[test]
fn reading_a_response() {
    let response = response_bytes("host");
    let message = InboundMessage::read(&response, response.len()).unwrap();
    assert_eq!(message.kind, MessageKind::Response);
    assert!(message.question.is_none());
    let additional: Vec<&[u8]> = message.additional_names.iter().map(|n| n.text()).collect();
    assert_eq!(
        additional,
        vec![
            &b"host.local."[..],
            &b"host._searchlight-test._udp.local."[..],
            &b"host._searchlight-test._udp.local."[..],
        ]
    );
}
