use dns_parser::Packet;
use madness::dns::traits::AppendBytes;
use madness::dns::{Answer, Class, PacketBuilder, RData, ResourceRecord};
use mdns::RecordKind;
use std::time::Duration;

#[test]
fn test_size_answer() {
    let mut out = Vec::new();
    let answer = Answer::A {
        name: "_service._tcp.local",
        addr: [192, 168, 0, 1],
        ttl: Duration::from_secs(4500),
    };
    let size = answer.bytes_size();
    answer.append_bytes(&mut out);
    assert_eq!(size, out.len());
    out.clear();

    let answer = Answer::SRV {
        ttl: Duration::from_secs(4500),
        port: 42,
        priority: 0,
        weight: 0,
        name: "_service._tcp.local",
        target: "march.local",
    };
    let size = answer.bytes_size();
    answer.append_bytes(&mut out);
    assert_eq!(size, out.len());
    out.clear();

    let answer = Answer::PTR {
        ttl: Duration::from_secs(4500),
        name: "_service._tcp.local",
        ptr: "march.local",
    };
    let size = answer.bytes_size();
    answer.append_bytes(&mut out);
    assert_eq!(size, out.len());
    out.clear();

    let answer = Answer::TXT {
        ttl: Duration::from_secs(4500),
        name: "_service._tcp.local",
        entries: &["foo", "bar"],
    };
    let size = answer.bytes_size();
    answer.append_bytes(&mut out);
    assert_eq!(size, out.len());
    out.clear();
}

#[test]
fn build_packet() {
    let answer1 = ResourceRecord::new(
        "_service._tcp.local",
        Duration::from_secs(4500),
        Class::IN,
        RData::a([7, 123, 234, 1]),
    );
    let answer2 = ResourceRecord::new(
        "_service._tcp.local",
        Duration::from_secs(4500),
        Class::IN,
        RData::txt(&["foo=bar", "baz=qux", "foobar"]),
    );
    let answer3 = ResourceRecord::new(
        "_service._tcp.local",
        Duration::from_secs(4500),
        Class::IN,
        RData::aaaa([
            0xab, 0xcd, 0x43, 0x91, 0xd5, 0x3a, 0x98, 0xdd, 0x7a, 0x4f, 0x00, 0x00, 0xff, 0xff,
            0x01, 0x23,
        ]),
    );

    let mut packet = PacketBuilder::new();

    packet.header_mut().set_id(12);
    packet.add_answer(answer1).add_answer(answer2).add_answer(answer3);
    let packet = packet.build().unwrap();
    let parsed = Packet::parse(&packet).unwrap();
    let packet = mdns::Response::from_packet(&parsed);
    println!("{:#?}", packet);

    if let RecordKind::TXT(ref txt) = packet.answers.get(1).unwrap().kind {
        assert_eq!(txt, &["foo=bar", "baz=qux", "foobar"]);
    } else {
        panic!("Expected TXT record");
    }
}

#[test]
fn build_resource_record() {
    let data = RData::a([0, 0, 0, 0]);
    let record =
        ResourceRecord::new("_service._tcp.local", Duration::from_secs(4500), Class::IN, data);
    let mut buffer = Vec::new();
    record.append_bytes(&mut buffer);
    assert_eq!(buffer.len(), "_service._tcp.local".len() + 2 + 10 + 4);
}

#[test]
fn answers_by_kind_are_records() {
    let ttl = Duration::from_secs(4500);
    let mut out = Vec::new();
    Answer::PTR { name: "a.local", ptr: "b.local", ttl }.append_bytes(&mut out);
    assert_eq!(
        out,
        b"\x01a\x05local\x00\x00\x0c\x80\x01\x00\x00\x11\x94\x00\x09\x01b\x05local\x00".to_vec()
    );
    let mut out = Vec::new();
    Answer::SRV { port: 42, priority: 1, weight: 2, target: "b", ttl, name: "a" }
        .append_bytes(&mut out);
    assert_eq!(
        out,
        b"\x01a\x00\x00\x21\x00\x01\x00\x00\x11\x94\x00\x09\x00\x01\x00\x02\x00\x2a\x01b\x00".to_vec()
    );
    let mut out = Vec::new();
    Answer::TXT { entries: &["foo"], ttl, name: "a" }.append_bytes(&mut out);
    assert_eq!(out, b"\x01a\x00\x00\x10\x80\x01\x00\x00\x11\x94\x00\x04\x03foo".to_vec());
    let mut out = Vec::new();
    let answer = Answer::TXT { entries: &[], ttl, name: "a" };
    assert_eq!(answer.bytes_size(), 14);
    answer.append_bytes(&mut out);
    assert_eq!(out, b"\x01a\x00\x00\x10\x80\x01\x00\x00\x11\x94\x00\x01\x00".to_vec());
    let mut out = Vec::new();
    let record = Answer::A { addr: [1, 2, 3, 4], name: "a", ttl }.into_record();
    record.append_bytes(&mut out);
    assert_eq!(out, b"\x01a\x00\x00\x01\x00\x01\x00\x00\x11\x94\x00\x04\x01\x02\x03\x04".to_vec());
}
