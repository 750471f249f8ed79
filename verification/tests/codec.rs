use madness::dns::rdata::txt::entries_fit;
use madness::dns::resource_record::append_data;
use madness::dns::traits::AppendBytes;
use madness::dns::{
    append_qname, append_txt_record, append_u16, append_u32, duration_to_secs, has_valid_labels,
    is_valid_name, secs_to_ttl, Class, MdnsResponseError, OpCode, PacketBuilder, PacketHeader,
    QClass, QueryClass, QueryType, Question, RCode, RData, RRType, ResourceRecord,
};
use std::time::Duration;

fn header_bytes(header: &PacketHeader) -> Vec<u8> {
    let mut out = Vec::new();
    header.append_bytes(&mut out);
    out
}

fn flags(header: &PacketHeader) -> u16 {
    let bytes = header_bytes(header);
    (bytes[2] as u16) << 8 | bytes[3] as u16
}

fn encoded(name: &str) -> Vec<u8> {
    let mut out = Vec::new();
    append_qname(&mut out, name.as_bytes());
    out
}

#[test]
fn integers_are_written_most_significant_byte_first() {
    let mut out = vec![0xaa];
    append_u16(&mut out, 0x8001);
    append_u32(&mut out, 0x0102_0304);
    append_u16(&mut out, 0);
    append_u32(&mut out, u32::MAX);
    assert_eq!(out, vec![0xaa, 0x80, 0x01, 1, 2, 3, 4, 0, 0, 0xff, 0xff, 0xff, 0xff]);
}

#[test]
fn default_header_is_twelve_zero_bytes() {
    let header = PacketHeader::default();
    assert_eq!(header.byte_size(), 12);
    assert_eq!(header_bytes(&header), vec![0u8; 12]);
    assert!(header.is_query());
    assert!(!header.qr());
}

#[test]
fn header_words_are_sent_in_order() {
    let mut header = PacketHeader::default();
    header.set_id(0x1234).set_an_count(2).set_ns_count(3).set_ar_count(4);
    assert_eq!(header.id(), 0x1234);
    assert_eq!(header_bytes(&header), vec![0x12, 0x34, 0, 0, 0, 0, 0, 2, 0, 3, 0, 4]);
    assert_eq!(header.an_count_of(), 2);
    assert_eq!(header.ns_count_of(), 3);
    assert_eq!(header.ar_count_of(), 4);
    assert_eq!(header.qd_count(), 0);
    let mut other = PacketHeader::default();
    other.set_an_count(7);
    assert_eq!(other.an_count(), 7);
    let mut other = PacketHeader::default();
    other.set_ns_count(8);
    assert_eq!(other.ns_count(), 8);
    let mut other = PacketHeader::default();
    other.set_ar_count(9);
    assert_eq!(other.ar_count(), 9);
}

#[test]
fn each_flag_has_its_bit() {
    let mut header = PacketHeader::default();
    header.set_qr(true);
    assert_eq!(flags(&header), 0x8000);
    assert!(header.qr());
    let mut header = PacketHeader::default();
    header.set_aa(true);
    assert_eq!(flags(&header), 0x0400);
    assert!(header.aa());
    let mut header = PacketHeader::default();
    header.set_tc(true);
    assert_eq!(flags(&header), 0x0200);
    assert!(header.tc());
    let mut header = PacketHeader::default();
    header.set_rd(true);
    assert_eq!(flags(&header), 0x0100);
    assert!(header.rd());
    let mut header = PacketHeader::default();
    header.set_ra(true);
    assert_eq!(flags(&header), 0x0080);
    assert!(header.ra());
}

#[test]
fn setting_a_flag_twice_is_setting_it_once() {
    let mut once = PacketHeader::default();
    once.set_rd(true).set_aa(true);
    let mut twice = PacketHeader::default();
    twice.set_rd(true).set_aa(true).set_aa(true);
    assert_eq!(header_bytes(&once), header_bytes(&twice));
    assert_eq!(flags(&twice), 0x0500);
}

#[test]
fn clearing_a_flag_leaves_the_others() {
    let mut header = PacketHeader::default();
    header
        .set_qr(true)
        .set_aa(true)
        .set_tc(true)
        .set_rd(true)
        .set_ra(true)
        .set_opcode(OpCode::STATUS)
        .set_rcode(RCode::Refused);
    assert_eq!(flags(&header), 0x8000 | 0x1800 | 0x0400 | 0x0200 | 0x0100 | 0x0080 | 0x0005);
    header.set_tc(false);
    assert_eq!(flags(&header), 0x8000 | 0x1800 | 0x0400 | 0x0100 | 0x0080 | 0x0005);
    assert!(!header.tc());
    header.set_tc(false);
    assert_eq!(flags(&header), 0x8000 | 0x1800 | 0x0400 | 0x0100 | 0x0080 | 0x0005);
    header.set_qr(false);
    assert_eq!(flags(&header), 0x1800 | 0x0400 | 0x0100 | 0x0080 | 0x0005);
    header.set_aa(false).set_rd(false).set_ra(false);
    assert_eq!(flags(&header), 0x1800 | 0x0005);
}

#[test]
fn set_query_clears_the_response_bit() {
    let mut header = PacketHeader::default();
    header.set_aa(true).set_query(false);
    assert_eq!(flags(&header), 0x8400);
    assert!(!header.is_query());
    assert!(header.qr());
    header.set_query(false);
    assert_eq!(flags(&header), 0x8400);
    header.set_query(true);
    assert_eq!(flags(&header), 0x0400);
    assert!(header.is_query());
}

#[test]
fn opcode_and_rcode_replace_their_field() {
    let mut header = PacketHeader::default();
    header.set_aa(true).set_opcode(OpCode::IQUERY);
    assert_eq!(flags(&header), 0x0400 | 0x1000);
    header.set_opcode(OpCode::STATUS);
    assert_eq!(flags(&header), 0x0400 | 0x1800);
    header.set_opcode(OpCode::QUERY);
    assert_eq!(flags(&header), 0x0400);
    header.set_rcode(RCode::Refused);
    assert_eq!(flags(&header), 0x0405);
    header.set_rcode(RCode::FormatError);
    assert_eq!(flags(&header), 0x0401);
    header.set_rcode(RCode::NoError);
    assert_eq!(flags(&header), 0x0400);
    assert_eq!(RCode::ServerFailure.code(), 2);
    assert_eq!(RCode::NameError.code(), 3);
    assert_eq!(RCode::NotImplemmented.code(), 4);
    assert_eq!(OpCode::IQUERY.code(), 2);
}

#[test]
fn name_is_written_label_by_label() {
    assert_eq!(encoded("marin.local"), b"\x05marin\x05local\x00".to_vec());
    assert_eq!(
        encoded("_services._dns-sd._udp.local"),
        b"\x09_services\x07_dns-sd\x04_udp\x05local\x00".to_vec()
    );
    assert_eq!(encoded("a"), vec![1, b'a', 0]);
}

#[test]
fn encoded_name_is_two_bytes_longer_and_ends_with_zero() {
    let names = ["a", "a.b", "_myservice._tcp.local", "x.y.z.w"];
    for name in names.iter() {
        let bytes = encoded(name);
        assert_eq!(bytes.len(), name.len() + 2);
        assert_eq!(*bytes.last().unwrap(), 0);
        // read the labels back
        let mut labels: Vec<String> = Vec::new();
        let mut pos = 0;
        while bytes[pos] != 0 {
            let len = bytes[pos] as usize;
            labels.push(String::from_utf8(bytes[pos + 1..pos + 1 + len].to_vec()).unwrap());
            pos += 1 + len;
        }
        assert_eq!(pos, bytes.len() - 1);
        assert_eq!(labels.join("."), *name);
    }
}

#[test]
fn longest_label_is_accepted() {
    let label = "a".repeat(63);
    assert!(has_valid_labels(label.as_bytes()));
    let bytes = encoded(&label);
    assert_eq!(bytes[0], 63);
    assert_eq!(bytes.len(), 65);
    let too_long = "a".repeat(64);
    assert!(!has_valid_labels(too_long.as_bytes()));
}

#[test]
fn invalid_names_are_told_apart() {
    assert!(has_valid_labels(b"marin.local"));
    assert!(!has_valid_labels(b""));
    assert!(!has_valid_labels(b"."));
    assert!(!has_valid_labels(b".local"));
    assert!(!has_valid_labels(b"local."));
    assert!(!has_valid_labels(b"a..b"));
    assert!(!has_valid_labels("caf\u{e9}.local".as_bytes()));
    assert!(is_valid_name("marin.local"));
    assert!(!is_valid_name("a..b"));
    let long = vec!["a".repeat(63); 4].join(".");
    assert_eq!(long.len(), 255);
    assert!(is_valid_name(&long));
    let longer = format!("{}.a", vec!["a".repeat(63); 4].join("."));
    assert!(has_valid_labels(longer.as_bytes()));
    assert!(!is_valid_name(&longer));
}

#[test]
fn ttl_is_rounded_up_and_saturates() {
    assert_eq!(secs_to_ttl(4500, 0), 4500);
    assert_eq!(secs_to_ttl(4500, 1), 4501);
    assert_eq!(secs_to_ttl(0, 0), 0);
    assert_eq!(secs_to_ttl(0, 999_999_999), 1);
    assert_eq!(secs_to_ttl(0xFFFF_FFFE, 0), 0xFFFF_FFFE);
    assert_eq!(secs_to_ttl(0xFFFF_FFFE, 1), 0xFFFF_FFFF);
    assert_eq!(secs_to_ttl(0xFFFF_FFFF, 0), 0xFFFF_FFFF);
    assert_eq!(secs_to_ttl(0xFFFF_FFFF, 5), 0xFFFF_FFFF);
    assert_eq!(secs_to_ttl(u64::MAX, 1), 0xFFFF_FFFF);
}

#[test]
fn duration_is_read_in_seconds_and_nanoseconds() {
    assert_eq!(duration_to_secs(Duration::from_secs(4500)), 4500);
    assert_eq!(duration_to_secs(Duration::from_millis(1500)), 2);
    assert_eq!(duration_to_secs(Duration::new(7, 1)), 8);
    assert_eq!(duration_to_secs(Duration::from_secs(u64::MAX)), 0xFFFF_FFFF);
    assert_eq!(duration_to_secs(Duration::new(0xFFFF_FFFF, 0)), 0xFFFF_FFFF);
    assert_eq!(duration_to_secs(Duration::new(0, 0)), 0);
}

#[test]
fn type_and_class_codes() {
    assert_eq!(RRType::A.code(), 1);
    assert_eq!(RRType::MD.code(), 3);
    assert_eq!(RRType::PTR.code(), 12);
    assert_eq!(RRType::TXT.code(), 16);
    assert_eq!(RRType::AAAA.code(), 28);
    assert_eq!(RRType::SRV.code(), 33);
    assert_eq!(QClass::IN.code(), 1);
    assert_eq!(QClass::HS.code(), 4);
    assert_eq!(Class::IN.code(), 1);
    assert_eq!(Class::CS.code(), 2);
    assert_eq!(Class::CH.code(), 3);
    assert_eq!(Class::HS.code(), 4);
    assert_eq!(QueryClass::Any.code(), 255);
    assert_eq!(QueryType::All.code(), 255);
    assert_eq!(QueryType::PTR.code(), 12);
    assert_eq!(RData::a([1, 2, 3, 4]).code(), 1);
    assert_eq!(RData::aaaa([0; 16]).code(), 28);
    assert_eq!(RData::ptr("a.local").code(), 12);
    assert_eq!(RData::srv(1, 2, 3, "a.local").code(), 33);
    assert_eq!(RData::txt(&[]).code(), 16);
}

#[test]
fn codes_read_back() {
    let mut known = 0;
    for code in 0..=u16::MAX {
        if let Some(qtype) = QueryType::from_code(code) {
            assert_eq!(qtype.code(), code);
            known += 1;
        }
    }
    assert_eq!(known, 21);
    assert_eq!(QueryType::from_code(3), None);
    assert_eq!(QueryType::from_code(12), Some(QueryType::PTR));
    let mut known = 0;
    for code in 0..=u16::MAX {
        if let Some(qclass) = QueryClass::from_code(code) {
            assert_eq!(qclass.code(), code);
            known += 1;
        }
    }
    assert_eq!(known, 5);
    assert_eq!(QueryClass::from_code(0), None);
    assert_eq!(QueryClass::from_code(1), Some(QueryClass::IN));
}

#[test]
fn error_texts() {
    assert_eq!(
        MdnsResponseError::TxtRecordTooLong.to_string(),
        "TXT record invalid because it is too long"
    );
    assert_eq!(
        MdnsResponseError::NonAsciiMultiaddr.to_string(),
        "A multiaddr contains non-ASCII characters when serializd"
    );
    assert_eq!(MdnsResponseError::ResponseTooLong.to_string(), "DNS response is too long");
}

#[test]
fn data_is_framed_by_its_length() {
    let mut out = vec![9, 9];
    append_data(&mut out, &RData::a([192, 168, 31, 78]));
    assert_eq!(out, vec![9, 9, 0, 4, 192, 168, 31, 78]);
    let mut out = Vec::new();
    let entry = "x".repeat(255);
    let entries = [entry.as_str(), entry.as_str()];
    append_data(&mut out, &RData::txt(&entries));
    assert_eq!(out.len(), 2 + 512);
    assert_eq!(&out[..2], &[0x02, 0x00]);
}

#[test]
fn aaaa_data_is_the_sixteen_octets() {
    let addr = [0xab, 0xcd, 0x43, 0x91, 0xd5, 0x3a, 0x98, 0xdd, 0x7a, 0x4f, 0, 0, 0xff, 0xff, 1, 0x23];
    let mut out = Vec::new();
    RData::aaaa(addr).append_bytes(&mut out);
    assert_eq!(out, addr.to_vec());
}

#[test]
fn empty_txt_record_is_one_zero_byte() {
    let mut out = Vec::new();
    RData::txt(&[]).append_bytes(&mut out);
    assert_eq!(out, vec![0]);
    let mut out = Vec::new();
    RData::txt(&[""]).append_bytes(&mut out);
    assert_eq!(out, vec![0]);
    let mut out = Vec::new();
    RData::txt(&["", "a"]).append_bytes(&mut out);
    assert_eq!(out, vec![0, 1, b'a']);
}

#[test]
fn txt_limits() {
    let ok = "x".repeat(255);
    let long = "x".repeat(256);
    assert!(entries_fit(&[]));
    assert!(entries_fit(&[ok.as_str()]));
    assert!(!entries_fit(&[long.as_str()]));
    assert!(!entries_fit(&["a", long.as_str(), "b"]));
    // 255 strings of 255 bytes take 65280 bytes, one more string of 254
    // bytes fills the data to 65535 bytes, one of 255 bytes goes over.
    let mut entries: Vec<&str> = vec![ok.as_str(); 255];
    let last = "x".repeat(254);
    entries.push(last.as_str());
    assert!(entries_fit(&entries));
    entries.pop();
    entries.push(ok.as_str());
    assert!(!entries_fit(&entries));
}

#[test]
fn txt_record_on_its_own() {
    let mut out = vec![7];
    let r = append_txt_record(&mut out, "a.local", 4500, &["foo", "bar"]);
    assert_eq!(r, Ok(()));
    let mut expected = vec![7];
    expected.extend_from_slice(b"\x01a\x05local\x00");
    expected.extend_from_slice(&[0x00, 0x10, 0x80, 0x01, 0, 0, 0x11, 0x94, 0, 8]);
    expected.extend_from_slice(b"\x03foo\x03bar");
    assert_eq!(out, expected);

    let mut out = Vec::new();
    let r = append_txt_record(&mut out, "a.local", 1, &[]);
    assert_eq!(r, Ok(()));
    assert_eq!(&out[out.len() - 3..], &[0, 1, 0]);
}

#[test]
fn txt_record_too_long_is_an_error() {
    let long = "x".repeat(256);
    let mut out = vec![7];
    let r = append_txt_record(&mut out, "a.local", 4500, &[long.as_str()]);
    assert_eq!(r, Err(MdnsResponseError::TxtRecordTooLong));
    let mut expected = vec![7];
    expected.extend_from_slice(b"\x01a\x05local\x00");
    expected.extend_from_slice(&[0x00, 0x10, 0x80, 0x01, 0, 0, 0x11, 0x94]);
    assert_eq!(out, expected);

    let ok = "x".repeat(255);
    let entries: Vec<&str> = vec![ok.as_str(); 256];
    let mut out = Vec::new();
    let r = append_txt_record(&mut out, "a.local", 4500, &entries);
    assert_eq!(r, Err(MdnsResponseError::TxtRecordTooLong));
}

#[test]
fn question_bytes() {
    let question = Question {
        name: "a.local",
        prefer_unicast: true,
        qtype: QueryType::PTR,
        qclass: QueryClass::IN,
    };
    let mut out = Vec::new();
    question.append_bytes(&mut out);
    assert_eq!(out, b"\x01a\x05local\x00\x00\x0c\x80\x01".to_vec());
    assert_eq!(question.byte_size(), out.len());

    let question = Question {
        name: "a.local",
        prefer_unicast: false,
        qtype: QueryType::PTR,
        qclass: QueryClass::IN,
    };
    let mut out = Vec::new();
    question.append_bytes(&mut out);
    assert_eq!(out, b"\x01a\x05local\x00\x00\x0c\x00\x01".to_vec());

    let question = Question {
        name: "a",
        prefer_unicast: true,
        qtype: QueryType::All,
        qclass: QueryClass::Any,
    };
    let mut out = Vec::new();
    question.append_bytes(&mut out);
    assert_eq!(out, b"\x01a\x00\x00\xff\x80\xff".to_vec());
}

#[test]
fn record_defaults() {
    let mut out = Vec::new();
    ResourceRecord::IN("a.local", RData::a([1, 2, 3, 4])).append_bytes(&mut out);
    assert_eq!(out, b"\x01a\x05local\x00\x00\x01\x80\x01\x00\x00\x11\x94\x00\x04\x01\x02\x03\x04".to_vec());
    let mut out = Vec::new();
    ResourceRecord::IN("a.local", RData::ptr("b.local")).append_bytes(&mut out);
    assert_eq!(
        out,
        b"\x01a\x05local\x00\x00\x0c\x00\x01\x00\x00\x11\x94\x00\x09\x01b\x05local\x00".to_vec()
    );
    let mut out = Vec::new();
    ResourceRecord::CS("a", RData::a([0; 4])).set_ttl(Duration::from_millis(1)).append_bytes(&mut out);
    assert_eq!(out, b"\x01a\x00\x00\x01\x80\x02\x00\x00\x00\x01\x00\x04\x00\x00\x00\x00".to_vec());
    let mut out = Vec::new();
    ResourceRecord::CH("a", RData::a([0; 4])).set_cache_flush(false).append_bytes(&mut out);
    assert_eq!(&out[5..7], &[0, 3]);
    let mut out = Vec::new();
    ResourceRecord::HS("a", RData::a([0; 4])).append_bytes(&mut out);
    assert_eq!(&out[5..7], &[0x80, 4]);
}

#[test]
fn record_checks() {
    let long = "x".repeat(256);
    let entries = [long.as_str()];
    let record = ResourceRecord::IN("a.local", RData::txt(&entries));
    assert!(!record.is_encodable());
    assert!(record.has_valid_names());
    assert!(record.txt_too_long());
    let record = ResourceRecord::IN("a..local", RData::txt(&[]));
    assert!(!record.is_encodable());
    assert!(!record.has_valid_names());
    assert!(!record.txt_too_long());
    let record = ResourceRecord::IN("a.local", RData::ptr(""));
    assert!(!record.is_encodable());
    assert!(!record.has_valid_names());
    let record = ResourceRecord::IN("a.local", RData::srv(1, 2, 3, "b.local"));
    assert!(record.is_encodable());
    assert!(record.has_valid_names());
    assert!(!record.txt_too_long());
}

#[test]
fn builder_counts_what_is_added() {
    let mut packet = PacketBuilder::new();
    assert!(packet.is_buildable());
    packet.add_question(false, "a.local", QueryClass::IN, QueryType::A);
    packet.add_question(true, "b.local", QueryClass::Any, QueryType::All);
    packet.add_answer(ResourceRecord::IN("a.local", RData::a([1, 2, 3, 4])));
    assert_eq!(packet.header().qd_count(), 2);
    assert_eq!(packet.header().an_count_of(), 1);
    assert!(packet.is_buildable());
    let bytes = packet.build().unwrap();
    assert_eq!(&bytes[..12], &[0, 0, 0, 0, 0, 2, 0, 1, 0, 0, 0, 0]);
    let mut expected = bytes[..12].to_vec();
    expected.extend_from_slice(b"\x01a\x05local\x00\x00\x01\x00\x01");
    expected.extend_from_slice(b"\x01b\x05local\x00\x00\xff\x80\xff");
    expected.extend_from_slice(b"\x01a\x05local\x00\x00\x01\x80\x01\x00\x00\x11\x94\x00\x04\x01\x02\x03\x04");
    assert_eq!(bytes, expected);
}

#[test]
fn builder_tells_what_it_cannot_build() {
    let mut packet = PacketBuilder::new();
    packet.header_mut().set_an_count(1);
    assert!(!packet.is_buildable());
    let mut packet = PacketBuilder::new();
    packet.header_mut().set_ns_count(1);
    assert!(!packet.is_buildable());
    let mut packet = PacketBuilder::new();
    packet.header_mut().set_ar_count(1);
    assert!(!packet.is_buildable());
    let mut packet = PacketBuilder::new();
    packet.add_question(false, "a..local", QueryClass::IN, QueryType::A);
    assert!(!packet.is_buildable());
    let mut packet = PacketBuilder::new();
    packet.add_answer(ResourceRecord::IN("a.local", RData::ptr("b..local")));
    assert!(!packet.is_buildable());
}

#[test]
fn builder_signals_txt_too_long() {
    let long = "x".repeat(256);
    let entries = [long.as_str()];
    let mut packet = PacketBuilder::new();
    packet.add_answer(ResourceRecord::IN("a.local", RData::a([1, 2, 3, 4])));
    packet.add_answer(ResourceRecord::IN("a.local", RData::txt(&entries)));
    assert!(packet.is_buildable());
    assert_eq!(packet.build(), Err(MdnsResponseError::TxtRecordTooLong));

    let ok = "x".repeat(255);
    let entries: Vec<&str> = vec![ok.as_str(); 256];
    let mut packet = PacketBuilder::new();
    packet.add_answer(ResourceRecord::IN("a.local", RData::txt(&entries)));
    assert_eq!(packet.build(), Err(MdnsResponseError::TxtRecordTooLong));
}

#[test]
fn reserved_bits_stay_zero() {
    let mut header = PacketHeader::default();
    assert_eq!(header.flags(), 0);
    header
        .set_qr(true)
        .set_aa(true)
        .set_tc(true)
        .set_rd(true)
        .set_ra(true)
        .set_opcode(OpCode::STATUS)
        .set_rcode(RCode::Refused);
    assert_eq!(header.flags(), 0x9f85);
    assert_eq!(header.flags() & 0x0070, 0);
    assert_eq!(flags(&header), header.flags());
}
