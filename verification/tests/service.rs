use searchlight::broadcast::errors::{ServiceBuilderError, ServiceDnsPacketBuilderError};
use searchlight::broadcast::service::{IntoServiceTxt, ServiceBuilder, ServiceDnsResponse};
use searchlight::dns::{MessageKind, RecordData};
use searchlight::name::{DnsName, IntoDnsName};
use searchlight::net::{IpAddr, Ipv4Addr, Ipv6Addr};
use trust_dns_client::op::{Message, MessageType, OpCode};
use trust_dns_client::rr::{DNSClass, RData, RecordType};
use trust_dns_client::serialize::binary::BinDecodable;

fn sample_builder() -> ServiceBuilder {
    ServiceBuilder::new("_venner-test._udp.local", "helloworld", 1337)
        .unwrap()
        .add_ip_address(IpAddr::V4(Ipv4Addr::new(192, 168, 1, 69)))
        .add_ip_address(IpAddr::V6(Ipv6Addr::new([
            0xfe80, 0, 0, 0, 0x18e4, 0xb943, 0x8756, 0xd855,
        ])))
        .add_txt("key=value")
        .add_txt_truncated("key2=value2")
}

#[test]
fn test_dns_parser_backwards_compatibility() {
    let dns_message = sample_builder().build().unwrap().dns_response().unwrap();

    println!("========== OURS ==========\n{dns_message:#?}\n");

    let buf = dns_message.to_bytes().unwrap();

    println!(
        "========== THEIRS ==========\n{:#?}",
        dns_parser::Packet::parse(&buf).unwrap()
    );
}

#[test]
fn names_are_made_fully_qualified() {
    let service = sample_builder().build().unwrap();
    assert_eq!(service.service_type().text(), b"_venner-test._udp.local.");
    assert_eq!(service.service_name().text(), b"helloworld.");
    assert_eq!(service.service_id().text(), b"helloworld._venner-test._udp.local.");
    assert_eq!(service.service_hostname().text(), b"helloworld.local.");
    assert_eq!(service.port(), 1337);
    assert_eq!(service.ttl(), 120);
}

#[test]
fn a_name_that_ends_in_the_root_is_kept() {
    let given = "_test._udp.local.".into_fqdn().unwrap();
    let completed = "_test._udp.local".into_fqdn().unwrap();
    assert_eq!(given.text(), b"_test._udp.local.");
    assert_eq!(completed.text(), given.text());
    assert!(given.same(&completed));
}

#[test]
fn names_do_not_tell_case_apart() {
    let upper = "_Test._UDP.Local".into_fqdn().unwrap();
    let lower = DnsName::from_bytes(b"_test._udp.local.").unwrap();
    assert!(upper.same(&lower));
    assert_eq!(upper.folded(), b"_test._udp.local.");
    let other = "_other._udp.local".into_fqdn().unwrap();
    assert!(!upper.same(&other));
}

#[test]
fn a_bad_name_is_refused() {
    assert!("has space.local".into_fqdn().is_err());
    assert!(ServiceBuilder::new("bad name", "host", 1).is_err());
    assert!(ServiceBuilder::new("_a._udp.local", "bad name", 1).is_err());
    assert!(DnsName::from_bytes(&[0xff, 0xfe]).is_err());
}

#[test]
fn build_wants_an_address() {
    let built = ServiceBuilder::new("_test._udp.local", "host", 80).unwrap().build();
    assert_eq!(built.err(), Some(ServiceBuilderError::MissingAdvertisementAddr));
}

#[test]
fn build_refuses_a_long_txt() {
    let long = vec![b'x'; 256];
    let built = ServiceBuilder::new("_test._udp.local", "host", 80)
        .unwrap()
        .add_ip_address(IpAddr::V4(Ipv4Addr::new(10, 0, 0, 1)))
        .add_txt(long)
        .build();
    assert_eq!(built.err(), Some(ServiceBuilderError::RecordTooLong));
}

#[test]
fn build_takes_a_txt_of_255_bytes() {
    let edge = vec![b'x'; 255];
    let built = ServiceBuilder::new("_test._udp.local", "host", 80)
        .unwrap()
        .add_ip_address(IpAddr::V4(Ipv4Addr::new(10, 0, 0, 1)))
        .add_txt(edge.clone())
        .build()
        .unwrap();
    assert_eq!(built.txt(), &vec![edge]);
}

#[test]
fn a_truncated_txt_has_255_bytes() {
    let long: Vec<u8> = (0..300).map(|i| (i % 251) as u8).collect();
    let built = ServiceBuilder::new("_test._udp.local", "host", 80)
        .unwrap()
        .add_ip_address(IpAddr::V4(Ipv4Addr::new(10, 0, 0, 1)))
        .add_txt_truncated(long.clone())
        .build()
        .unwrap();
    assert_eq!(built.txt().len(), 1);
    assert_eq!(built.txt()[0], long[..255].to_vec());
}

#[test]
fn into_service_txt_of_each_kind() {
    assert_eq!("key=value".into_service_txt(), b"key=value".to_vec());
    assert_eq!(String::from("a=b").into_service_txt(), b"a=b".to_vec());
    assert_eq!(vec![1u8, 2, 3].into_service_txt(), vec![1u8, 2, 3]);
    let slice: &[u8] = &[9u8, 8];
    assert_eq!(slice.into_service_txt(), vec![9u8, 8]);
    assert_eq!(b"k=v".into_service_txt(), vec![b'k', b'=', b'v']);
    assert_eq!((&[7u8; 300]).into_service_txt_truncated(), vec![7u8; 255]);
    let long = "y".repeat(400);
    assert_eq!(long.as_str().into_service_txt_truncated().len(), 255);
    assert_eq!(long.clone().into_service_txt_truncated().len(), 255);
    assert_eq!(long.into_service_txt().len(), 400);
    assert_eq!("short".into_service_txt_truncated(), b"short".to_vec());
}

#[test]
fn addresses_are_an_ordered_set() {
    let built = ServiceBuilder::new("_test._udp.local", "host", 80)
        .unwrap()
        .add_ip_address(IpAddr::V6(Ipv6Addr::new([0xfe80, 0, 0, 0, 0, 0, 0, 1])))
        .add_ip_address(IpAddr::V4(Ipv4Addr::new(10, 0, 0, 2)))
        .add_ip_address(IpAddr::V4(Ipv4Addr::new(10, 0, 0, 1)))
        .add_ip_address(IpAddr::V4(Ipv4Addr::new(10, 0, 0, 2)))
        .build()
        .unwrap();
    assert_eq!(
        built.ip_addresses(),
        &vec![
            IpAddr::V4(Ipv4Addr::new(10, 0, 0, 1)),
            IpAddr::V4(Ipv4Addr::new(10, 0, 0, 2)),
            IpAddr::V6(Ipv6Addr::new([0xfe80, 0, 0, 0, 0, 0, 0, 1])),
        ]
    );
}

#[test]
fn subtype_suffix_is_made_of_the_type() {
    let plain = sample_builder().build().unwrap();
    assert!(!plain.can_subtype());
    assert_eq!(plain.subtype_suffix(), None);
    let sub = sample_builder().can_subtype().unwrap().build().unwrap();
    assert!(sub.can_subtype());
    assert_eq!(sub.subtype_suffix(), Some(&b"._sub._venner-test._udp.local."[..]));
}

#[test]
fn response_has_one_answer_and_two_more_additionals_than_addresses() {
    let service = sample_builder().ttl(77).build().unwrap();
    let response = service.dns_response().unwrap();
    assert_eq!(response.header.kind, MessageKind::Response);
    assert!(response.header.authoritative);
    assert_eq!(response.header.answer_count, 1);
    assert_eq!(response.header.additional_count, 4);
    assert_eq!(response.answers.len(), 1);
    assert_eq!(response.additionals.len(), service.ip_addresses().len() + 2);

    let ptr = &response.answers[0];
    assert_eq!(ptr.name.text(), b"_venner-test._udp.local.");
    assert_eq!(ptr.ttl, 77);
    assert!(!ptr.cache_flush);
    match &ptr.data {
        RecordData::Ptr(target) => {
            assert_eq!(target.text(), b"helloworld._venner-test._udp.local.")
        }
        other => panic!("not a PTR record: {other:?}"),
    }

    let a = &response.additionals[0];
    assert_eq!(a.name.text(), b"helloworld.local.");
    assert!(a.cache_flush);
    assert_eq!(a.ttl, 77);
    assert!(matches!(a.data, RecordData::A(ip) if ip == Ipv4Addr::new(192, 168, 1, 69)));

    let aaaa = &response.additionals[1];
    assert_eq!(aaaa.name.text(), b"helloworld.local.");
    assert!(aaaa.cache_flush);
    assert!(matches!(aaaa.data, RecordData::Aaaa(_)));

    let srv = &response.additionals[2];
    assert_eq!(srv.name.text(), b"helloworld._venner-test._udp.local.");
    assert!(!srv.cache_flush);
    assert_eq!(srv.ttl, 77);
    match &srv.data {
        RecordData::Srv { priority, weight, port, target } => {
            assert_eq!((*priority, *weight, *port), (0, 0, 1337));
            assert_eq!(target.text(), b"helloworld.local.");
        }
        other => panic!("not an SRV record: {other:?}"),
    }

    let txt = &response.additionals[3];
    assert_eq!(txt.name.text(), b"helloworld._venner-test._udp.local.");
    assert!(txt.cache_flush);
    assert_eq!(txt.ttl, 77);
    match &txt.data {
        RecordData::Txt(entries) => {
            assert_eq!(entries, &vec![b"key=value".to_vec(), b"key2=value2".to_vec()])
        }
        other => panic!("not a TXT record: {other:?}"),
    }
}

#[test]
fn encoded_response_decodes_to_the_declared_records() {
    let service = sample_builder().build().unwrap();
    let bytes = service.dns_response().unwrap().to_bytes().unwrap();
    let decoded = Message::from_bytes(&bytes).unwrap();

    assert_eq!(decoded.message_type(), MessageType::Response);
    assert_eq!(decoded.op_code(), OpCode::Query);
    assert!(decoded.authoritative());
    assert_eq!(decoded.answers().len(), 1);
    assert_eq!(decoded.additionals().len(), 4);

    let ptr = &decoded.answers()[0];
    assert_eq!(ptr.record_type(), RecordType::PTR);
    assert_eq!(ptr.dns_class(), DNSClass::IN);
    assert_eq!(ptr.ttl(), 120);
    assert_eq!(ptr.name().to_utf8(), "_venner-test._udp.local.");
    match ptr.data() {
        Some(RData::PTR(target)) => {
            assert_eq!(target.to_utf8(), "helloworld._venner-test._udp.local.")
        }
        other => panic!("not a PTR record: {other:?}"),
    }

    let a = &decoded.additionals()[0];
    assert_eq!(a.record_type(), RecordType::A);
    assert_eq!(a.name().to_utf8(), "helloworld.local.");
    assert_eq!(a.ttl(), 120);
    assert!(a.mdns_cache_flush());
    match a.data() {
        Some(RData::A(ip)) => assert_eq!(ip.octets(), [192, 168, 1, 69]),
        other => panic!("not an A record: {other:?}"),
    }

    let aaaa = &decoded.additionals()[1];
    assert_eq!(aaaa.record_type(), RecordType::AAAA);
    assert_eq!(aaaa.ttl(), 120);
    assert!(aaaa.mdns_cache_flush());
    match aaaa.data() {
        Some(RData::AAAA(ip)) => assert_eq!(
            ip.segments(),
            [0xfe80, 0, 0, 0, 0x18e4, 0xb943, 0x8756, 0xd855]
        ),
        other => panic!("not an AAAA record: {other:?}"),
    }

    let srv = &decoded.additionals()[2];
    assert_eq!(srv.record_type(), RecordType::SRV);
    assert_eq!(srv.name().to_utf8(), "helloworld._venner-test._udp.local.");
    assert_eq!(srv.ttl(), 120);
    match srv.data() {
        Some(RData::SRV(data)) => {
            assert_eq!(data.priority(), 0);
            assert_eq!(data.weight(), 0);
            assert_eq!(data.port(), 1337);
            assert_eq!(data.target().to_utf8(), "helloworld.local.");
        }
        other => panic!("not an SRV record: {other:?}"),
    }

    let txt = &decoded.additionals()[3];
    assert_eq!(txt.record_type(), RecordType::TXT);
    assert_eq!(txt.name().to_utf8(), "helloworld._venner-test._udp.local.");
    assert_eq!(txt.ttl(), 120);
    assert!(txt.mdns_cache_flush());
    match txt.data() {
        Some(RData::TXT(data)) => {
            let entries: Vec<Vec<u8>> = data.iter().map(|e| e.to_vec()).collect();
            assert_eq!(entries, vec![b"key=value".to_vec(), b"key2=value2".to_vec()]);
        }
        other => panic!("not a TXT record: {other:?}"),
    }
}

#[test]
fn service_record_keeps_service_and_packet() {
    let service = sample_builder().build().unwrap();
    let expected = service.dns_response().unwrap().to_bytes().unwrap();
    let record = ServiceDnsResponse::try_from(service).unwrap();
    assert_eq!(record.service().port(), 1337);
    assert_eq!(record.packet(), Some(&expected[..]));
    assert_eq!(record.dns_response().additionals.len(), 4);
}

#[test]
fn too_many_addresses_are_refused() {
    let mut builder = ServiceBuilder::new("_test._udp.local", "host", 80).unwrap();
    for i in 0..65534u32 {
        builder = builder.add_ip_address(IpAddr::V4(Ipv4Addr { bits: i }));
    }
    let service = builder.build().unwrap();
    assert_eq!(
        service.dns_response().err(),
        Some(ServiceDnsPacketBuilderError::TooManyIpAddresses)
    );
    assert_eq!(
        ServiceDnsResponse::try_from(service).err(),
        Some(ServiceDnsPacketBuilderError::TooManyIpAddresses)
    );
}

#[test]
fn as_many_addresses_as_fit_are_taken() {
    let mut builder = ServiceBuilder::new("_test._udp.local", "host", 80).unwrap();
    for i in 0..65533u32 {
        builder = builder.add_ip_address(IpAddr::V4(Ipv4Addr { bits: i }));
    }
    let response = builder.build().unwrap().dns_response().unwrap();
    assert_eq!(response.header.additional_count, 65535);
    assert_eq!(response.additionals.len(), 65535);
}

#[test]
fn error_messages() {
    assert_eq!(
        ServiceBuilderError::MissingAdvertisementAddr.message(),
        "The broadcaster requires at least one advertisement address"
    );
    assert_eq!(
        ServiceBuilderError::RecordTooLong.message(),
        "TXT record too long (max 255 bytes)"
    );
    assert_eq!(
        ServiceDnsPacketBuilderError::TooManyIpAddresses.message(),
        "There are too many IP addresses to advertise"
    );
    assert_eq!(searchlight::errors::BadDnsNameError.message(), "Bad DNS name");
}
