use madness::dns::{Class, PacketBuilder, QueryClass, QueryType, RData, ResourceRecord};
use madness::error::ServiceError;
use madness::inbound::{parse, Inbound, InboundQuestion};
use madness::service::{
    build_discovery_query, Action, DiscoveryTicker, Event, MdnsService, Packet, SourceAddr,
    IPV4_MDNS_GROUP, IPV6_MDNS_GROUP, MDNS_PORT,
};
use madness::{MdnsService as Service, META_QUERY_SERVICE};
use mdns::RecordKind;
use std::time::Duration;

fn v4() -> SourceAddr {
    SourceAddr::V4 { ipv4: [10, 0, 0, 1], port: 5353 }
}

fn v6() -> SourceAddr {
    SourceAddr::V6 { ipv6: [0xfe, 0x80, 0, 0, 0, 0, 0, 0, 0, 0, 0, 0, 0, 0, 0, 1], port: 5353, flowinfo: 0, scope_id: 2 }
}

fn question(name: &str, qtype: QueryType) -> InboundQuestion {
    InboundQuestion { name: name.to_string(), prefer_unicast: false, qtype, qclass: QueryClass::IN }
}

fn no_records() -> mdns::Response {
    mdns::Response { answers: vec![], nameservers: vec![], additional: vec![] }
}

fn names(packet: &Packet) -> Vec<String> {
    match packet {
        Packet::Query(queries) => queries.iter().map(|q| q.name.clone()).collect(),
        Packet::Response(_) => panic!("expected a query"),
    }
}

#[test]
fn multicast_groups() {
    assert_eq!(MDNS_PORT, 5353);
    assert_eq!(IPV4_MDNS_GROUP, [224, 0, 0, 251]);
    assert_eq!(IPV6_MDNS_GROUP, [0xff, 0x02, 0, 0, 0, 0, 0, 0, 0, 0, 0, 0, 0, 0, 0, 0xfb]);
    assert_eq!(META_QUERY_SERVICE, "_services._dns-sd._udp.local");
}

#[test]
fn register_and_unregister_are_idempotent() {
    let mut service = Service::new(false);
    assert!(!service.loopback());
    assert!(!service.is_registered("_a._tcp.local"));
    service.register("_a._tcp.local");
    service.register("_a._tcp.local");
    service.register("_b._tcp.local");
    assert!(service.is_registered("_a._tcp.local"));
    assert!(service.is_registered("_b._tcp.local"));
    service.unregister("_a._tcp.local");
    assert!(!service.is_registered("_a._tcp.local"));
    assert!(service.is_registered("_b._tcp.local"));
    service.unregister("_a._tcp.local");
    service.unregister("_c._tcp.local");
    assert!(!service.is_registered("_a._tcp.local"));
    assert!(service.is_registered("_b._tcp.local"));
}

#[test]
fn questions_are_filtered_in_order() {
    let mut service = MdnsService::new(true);
    service.register("_b._tcp.local");
    service.register("_a._tcp.local");
    let inbound = Inbound {
        id: 9,
        query: true,
        questions: vec![
            question("_a._tcp.local", QueryType::PTR),
            question("_x._tcp.local", QueryType::PTR),
            question(META_QUERY_SERVICE, QueryType::All),
            question("_b._tcp.local", QueryType::SRV),
            question("_a._tcp.local", QueryType::TXT),
            question("_A._tcp.local", QueryType::PTR),
        ],
        response: no_records(),
    };
    let packet = service.classify(inbound, v6());
    assert_eq!(
        names(&packet),
        vec!["_a._tcp.local", META_QUERY_SERVICE, "_b._tcp.local", "_a._tcp.local"]
    );
    match packet {
        Packet::Query(queries) => {
            assert!(!queries[0].is_meta_service_query());
            assert!(queries[1].is_meta_service_query());
            assert_eq!(queries[1].qtype, QueryType::All);
            assert_eq!(queries[2].qtype, QueryType::SRV);
            assert_eq!(queries[3].qtype, QueryType::TXT);
            for query in queries.iter() {
                assert_eq!(query.id, 9);
                assert_eq!(query.from, v6());
                assert_eq!(query.qclass, QueryClass::IN);
            }
        }
        Packet::Response(_) => unreachable!(),
    }
}

#[test]
fn query_without_questions_gives_empty_query() {
    let service = MdnsService::new(true);
    let inbound = Inbound { id: 1, query: true, questions: vec![], response: no_records() };
    assert_eq!(names(&service.classify(inbound, v4())).len(), 0);
}

#[test]
fn response_is_handed_on() {
    let service = MdnsService::new(true);
    let record = mdns::Record {
        name: "a.local".to_string(),
        class: dns_parser::Class::IN,
        ttl: 3,
        kind: RecordKind::PTR("b.local".to_string()),
    };
    let response = mdns::Response { answers: vec![record], nameservers: vec![], additional: vec![] };
    let inbound = Inbound {
        id: 1,
        query: false,
        questions: vec![question(META_QUERY_SERVICE, QueryType::PTR)],
        response: response.clone(),
    };
    match service.classify(inbound, v4()) {
        Packet::Response(handed) => assert_eq!(handed, response),
        Packet::Query(_) => panic!("expected a response"),
    }
}

#[test]
fn datagram_is_parsed() {
    let mut packet = PacketBuilder::new();
    packet.header_mut().set_id(0x0102);
    packet.add_question(false, "_a._tcp.local", QueryClass::IN, QueryType::PTR);
    packet.add_question(true, "b.local", QueryClass::Any, QueryType::AAAA);
    let bytes = packet.build().unwrap();
    let inbound = parse(&bytes).unwrap();
    assert_eq!(inbound.id, 0x0102);
    assert!(inbound.query);
    assert_eq!(inbound.questions.len(), 2);
    assert_eq!(inbound.questions[0].name, "_a._tcp.local");
    assert_eq!(inbound.questions[0].qtype, QueryType::PTR);
    assert_eq!(inbound.questions[0].qclass, QueryClass::IN);
    assert!(!inbound.questions[0].prefer_unicast);
    assert_eq!(inbound.questions[1].name, "b.local");
    assert_eq!(inbound.questions[1].qtype, QueryType::AAAA);
    assert_eq!(inbound.questions[1].qclass, QueryClass::Any);
    assert!(inbound.questions[1].prefer_unicast);
    assert!(inbound.response.answers.is_empty());
}

#[test]
fn compressed_names_are_resolved() {
    // one question for a.local, then one for b.<pointer to local>
    let mut bytes = vec![0, 5, 0, 0, 0, 2, 0, 0, 0, 0, 0, 0];
    bytes.extend_from_slice(b"\x01a\x05local\x00\x00\x0c\x00\x01");
    bytes.extend_from_slice(b"\x01b\xc0\x0e\x00\x0c\x00\x01");
    let mut service = MdnsService::new(true);
    service.register("b.local");
    let packet = service.parse_mdns_packets(&bytes, v4()).unwrap();
    assert_eq!(names(&packet), vec!["b.local"]);
}

#[test]
fn datagram_that_does_not_parse_is_dropped() {
    let mut service = MdnsService::new(true);
    service.enqueue_response(vec![1]);
    assert!(matches!(parse(&[0; 11]), Err(ServiceError::Parse(dns_parser::Error::HeaderTooShort))));
    assert!(matches!(service.parse_mdns_packets(&[], v4()), Err(ServiceError::Parse(_))));
    assert!(service.handle(Event::Datagram { buf: &[0; 11], from: v4() }).is_none());
    // a question that is cut short
    let mut packet = PacketBuilder::new();
    packet.add_question(false, "_a._tcp.local", QueryClass::IN, QueryType::PTR);
    let bytes = packet.build().unwrap();
    assert!(service.handle(Event::Datagram { buf: &bytes[..bytes.len() - 1], from: v4() }).is_none());
    // a type that stands for nothing
    let mut unknown = bytes.clone();
    let at = unknown.len() - 3;
    unknown[at] = 3;
    assert!(service.handle(Event::Datagram { buf: &unknown, from: v4() }).is_none());
    // the queue is as it was
    match service.next_action() {
        Action::SendResponse(bytes) => assert_eq!(bytes, vec![1]),
        other => panic!("unexpected {:?}", other),
    }
}

#[test]
fn response_datagram_gives_response() {
    let mut packet = PacketBuilder::new();
    packet.header_mut().set_id(3).set_query(false);
    packet.add_answer(ResourceRecord::new(
        "_a._tcp.local",
        Duration::from_secs(10),
        Class::IN,
        RData::ptr("x._a._tcp.local"),
    ));
    let bytes = packet.build().unwrap();
    let mut service = MdnsService::new(true);
    match service.handle(Event::Datagram { buf: &bytes, from: v4() }) {
        Some(Packet::Response(response)) => {
            assert_eq!(response.answers.len(), 1);
            assert_eq!(response.answers[0].name, "_a._tcp.local");
            assert_eq!(response.answers[0].ttl, 10);
            assert_eq!(response.answers[0].kind, RecordKind::PTR("x._a._tcp.local".to_string()));
        }
        other => panic!("expected a response, got {:?}", other),
    }
    // a response without answers is a response too
    let mut packet = PacketBuilder::new();
    packet.header_mut().set_query(false);
    let bytes = packet.build().unwrap();
    match service.handle(Event::Datagram { buf: &bytes, from: v4() }) {
        Some(Packet::Response(response)) => assert!(response.is_empty()),
        other => panic!("expected a response, got {:?}", other),
    }
}

#[test]
fn queues_are_drained_in_order() {
    let mut service = MdnsService::new(true);
    assert!(matches!(service.next_action(), Action::Wait));
    service.handle(Event::Tick { service_name: "_q._tcp.local" });
    service.enqueue_response(vec![1]);
    service.enqueue_response(vec![2]);
    service.handle(Event::Tick { service_name: "_r._tcp.local" });
    service.enqueue_response(vec![3]);
    let mut sent = Vec::new();
    loop {
        match service.next_action() {
            Action::SendResponse(bytes) => sent.push((true, bytes)),
            Action::SendQuery(bytes) => sent.push((false, bytes)),
            Action::Wait => break,
        }
    }
    assert_eq!(
        sent,
        vec![
            (true, vec![1]),
            (true, vec![2]),
            (true, vec![3]),
            (false, build_discovery_query("_q._tcp.local")),
            (false, build_discovery_query("_r._tcp.local")),
        ]
    );
    assert!(matches!(service.next_action(), Action::Wait));
}

#[test]
fn failed_send_empties_its_queue() {
    let mut service = MdnsService::new(true);
    service.register("_a._tcp.local");
    service.enqueue_response(vec![1]);
    service.enqueue_response(vec![2]);
    service.handle(Event::Tick { service_name: "_q._tcp.local" });
    service.handle(Event::Tick { service_name: "_r._tcp.local" });
    assert!(matches!(service.next_action(), Action::SendResponse(_)));
    assert!(service.handle(Event::ResponseSendFailed).is_none());
    // the main queue is empty, the query queue is as it was
    match service.next_action() {
        Action::SendQuery(bytes) => assert_eq!(bytes, build_discovery_query("_q._tcp.local")),
        other => panic!("unexpected {:?}", other),
    }
    service.enqueue_response(vec![3]);
    assert!(service.handle(Event::QuerySendFailed).is_none());
    match service.next_action() {
        Action::SendResponse(bytes) => assert_eq!(bytes, vec![3]),
        other => panic!("unexpected {:?}", other),
    }
    assert!(matches!(service.next_action(), Action::Wait));
    assert!(service.is_registered("_a._tcp.local"));
}

#[test]
fn discovery_query_bytes() {
    let bytes = build_discovery_query("_a._tcp.local");
    let mut expected = vec![0, 0, 0, 0, 0, 1, 0, 0, 0, 0, 0, 0];
    expected.extend_from_slice(b"\x02_a\x04_tcp\x05local\x00\x00\x0c\x80\x01");
    assert_eq!(bytes, expected);
    let parsed = dns_parser::Packet::parse(&bytes).unwrap();
    assert!(parsed.header.query);
    assert_eq!(parsed.questions.len(), 1);
    assert_eq!(parsed.questions[0].qname.to_string(), "_a._tcp.local");
    assert_eq!(parsed.questions[0].qtype, dns_parser::QueryType::PTR);
    assert_eq!(parsed.questions[0].qclass, dns_parser::QueryClass::IN);
    assert!(parsed.questions[0].prefer_unicast);
    assert!(parsed.answers.is_empty());
    assert!(parsed.nameservers.is_empty());
    assert!(parsed.additional.is_empty());
}

#[test]
fn ticker_publishes_until_the_subscription_is_dropped() {
    let mut ticker = DiscoveryTicker::new("_a._tcp.local");
    assert_eq!(ticker.name(), "_a._tcp.local");
    assert!(!ticker.is_stopped());
    for _ in 0..5 {
        assert_eq!(ticker.tick(false), Some("_a._tcp.local".to_string()));
    }
    assert!(!ticker.is_stopped());
    assert_eq!(ticker.tick(true), None);
    assert!(ticker.is_stopped());
    for _ in 0..5 {
        assert_eq!(ticker.tick(false), None);
    }
    assert_eq!(ticker.tick(true), None);
    assert!(ticker.is_stopped());
    assert_eq!(ticker.name(), "_a._tcp.local");
}

#[test]
fn every_tick_gives_one_query() {
    let mut service = MdnsService::new(true);
    let mut ticker = DiscoveryTicker::new("_a._tcp.local");
    let mut sent = 0;
    for _ in 0..20 {
        if let Some(name) = ticker.tick(false) {
            assert!(service.handle(Event::Tick { service_name: &name }).is_none());
        }
        while let Action::SendQuery(bytes) = service.next_action() {
            assert_eq!(bytes, build_discovery_query("_a._tcp.local"));
            sent += 1;
        }
    }
    assert_eq!(sent, 20);
}

#[test]
fn meta_service_name_is_told_apart() {
    assert!(madness::service::is_meta_service_name("_services._dns-sd._udp.local"));
    assert!(!madness::service::is_meta_service_name("_services._dns-sd._udp.local."));
    assert!(!madness::service::is_meta_service_name("_Services._dns-sd._udp.local"));
    assert!(!madness::service::is_meta_service_name(""));
}

#[test]
fn preference_for_unicast_reaches_the_caller() {
    let mut packet = PacketBuilder::new();
    packet.header_mut().set_id(5);
    packet.add_question(true, META_QUERY_SERVICE, QueryClass::IN, QueryType::PTR);
    packet.add_question(false, META_QUERY_SERVICE, QueryClass::IN, QueryType::PTR);
    let bytes = packet.build().unwrap();
    let mut service = MdnsService::new(true);
    match service.handle(Event::Datagram { buf: &bytes, from: v4() }) {
        Some(Packet::Query(queries)) => {
            assert_eq!(queries.len(), 2);
            assert!(queries[0].prefer_unicast);
            assert!(!queries[1].prefer_unicast);
        }
        other => panic!("expected a query, got {:?}", other),
    }
}

#[test]
fn tick_queues_a_question_that_prefers_unicast() {
    let mut service = MdnsService::new(true);
    service.enqueue_response(vec![1]);
    assert!(service.handle(Event::Tick { service_name: "_a._tcp.local" }).is_none());
    match service.next_action() {
        Action::SendResponse(bytes) => assert_eq!(bytes, vec![1]),
        other => panic!("unexpected {:?}", other),
    }
    match service.next_action() {
        Action::SendQuery(bytes) => {
            assert_eq!(&bytes[..12], &[0, 0, 0, 0, 0, 1, 0, 0, 0, 0, 0, 0]);
            assert_eq!(&bytes[bytes.len() - 4..], &[0x00, 0x0c, 0x80, 0x01]);
            assert_eq!(bytes.len(), 12 + "_a._tcp.local".len() + 2 + 4);
        }
        other => panic!("unexpected {:?}", other),
    }
    assert!(matches!(service.next_action(), Action::Wait));
}
