//! Datagrams that were received, as the parser reads them.

use crate::dns::{QueryClass, QueryType};
use crate::error::ServiceError;
use vstd::prelude::*;

verus! {

/// The records of a parsed response, as the response object of the `mdns`
/// crate holds them. The library hands it on and reads nothing in it.
#[verifier::external_type_specification]
#[verifier::external_body]
pub struct ExResponse(mdns::Response);

/// What the parser reads in a datagram: `None` where the bytes are no DNS
/// message, else the id of the header, whether the message is a query, and
/// of each question the name in dotted form, whether an answer by unicast is
/// preferred, and the numbers of its type and class.
pub uninterp spec fn parsed_datagram(bytes: Seq<u8>) -> Option<
    (u16, bool, Seq<(Seq<char>, bool, u16, u16)>),
>;

/// The records that the parser reads in a datagram, as
/// `mdns::Response::from_packet` collects them from the answer, authority
/// and additional sections. It says something only of bytes that are a DNS
/// message.
pub uninterp spec fn parsed_response(bytes: Seq<u8>) -> mdns::Response;

/// A parsed datagram with the numbers of types and classes as they came.
pub struct RawPacket {
    pub id: u16,
    pub query: bool,
    pub questions: Vec<(String, bool, u16, u16)>,
    pub response: mdns::Response,
}

/// Parses a datagram with `dns_parser::Packet::parse` and hands out what it
/// read as owned values; the records come as `mdns::Response::from_packet`
/// collects them. The contract claims that the outcome, the records too,
/// depends on the bytes alone, and that the parser accepts a question only
/// with a type and a class that it knows, which are those of `QueryType` and
/// `QueryClass`.
#[verifier::external_body]
fn parse_raw(buf: &[u8]) -> (r: Result<RawPacket, dns_parser::Error>)
    ensures
        r is Ok <==> parsed_datagram(buf@) is Some,
        r matches Ok(p) ==> parsed_datagram(buf@) == Some(
            (p.id, p.query, p.questions.deep_view()),
        ),
        r matches Ok(p) ==> p.response == parsed_response(buf@),
        r matches Ok(p) ==> forall|i: int|
            0 <= i < p.questions@.len() ==> QueryType::spec_from_code(
                (#[trigger] p.questions@[i]).2,
            ) is Some && QueryClass::spec_from_code(p.questions@[i].3) is Some,
{
    let packet = dns_parser::Packet::parse(buf)?;
    Ok(RawPacket {
        id: packet.header.id,
        query: packet.header.query,
        questions: packet.questions.iter().map(|q| (
            q.qname.to_string(), q.prefer_unicast, q.qtype as u16, q.qclass as u16,
        )).collect(),
        response: mdns::Response::from_packet(&packet),
    })
}

/// A question of a received datagram.
#[derive(Debug)]
pub struct InboundQuestion {
    pub name: String,
    pub prefer_unicast: bool,
    pub qtype: QueryType,
    pub qclass: QueryClass,
}

/// A question of a received datagram, with the name as characters.
pub struct InboundQuestionView {
    pub name: Seq<char>,
    pub prefer_unicast: bool,
    pub qtype: QueryType,
    pub qclass: QueryClass,
}

impl View for InboundQuestion {
    type V = InboundQuestionView;

    open spec fn view(&self) -> InboundQuestionView {
        InboundQuestionView {
            name: self.name@,
            prefer_unicast: self.prefer_unicast,
            qtype: self.qtype,
            qclass: self.qclass,
        }
    }
}

/// A received datagram that is a DNS message.
#[derive(Debug)]
pub struct Inbound {
    /// The id of the header.
    pub id: u16,
    /// Whether the message is a query: its `QR` bit is clear.
    pub query: bool,
    /// The questions, in the order of the packet.
    pub questions: Vec<InboundQuestion>,
    /// The records of the answer, authority and additional sections.
    pub response: mdns::Response,
}

/// The questions with their names as characters.
pub open spec fn questions_view(questions: Seq<InboundQuestion>) -> Seq<InboundQuestionView> {
    Seq::new(questions.len(), |i: int| questions[i]@)
}

/// The questions as the parser reports them: name, preference, and the
/// numbers of type and class.
pub open spec fn questions_raw(questions: Seq<InboundQuestionView>) -> Seq<
    (Seq<char>, bool, u16, u16),
> {
    Seq::new(
        questions.len(),
        |i: int|
            (
                questions[i].name,
                questions[i].prefer_unicast,
                questions[i].qtype.spec_code(),
                questions[i].qclass.spec_code(),
            ),
    )
}

/// The questions that the parser reports, with the type and class of each
/// named. Where a number stands for no type or class the result is left
/// open; the parser reports no such question.
pub open spec fn typed_questions(raw: Seq<(Seq<char>, bool, u16, u16)>) -> Seq<
    InboundQuestionView,
> {
    Seq::new(
        raw.len(),
        |i: int|
            InboundQuestionView {
                name: raw[i].0,
                prefer_unicast: raw[i].1,
                qtype: QueryType::spec_from_code(raw[i].2).unwrap(),
                qclass: QueryClass::spec_from_code(raw[i].3).unwrap(),
            },
    )
}

/// Parses a datagram. Fails exactly where the parser does; else the result
/// holds what the parser read, with the type and class of each question
/// named, and the records as they were collected.
pub fn parse(buf: &[u8]) -> (r: Result<Inbound, ServiceError>)
    ensures
        r is Ok <==> parsed_datagram(buf@) is Some,
        r matches Ok(p) ==> parsed_datagram(buf@) == Some(
            (p.id, p.query, questions_raw(questions_view(p.questions@))),
        ),
        r matches Ok(p) ==> questions_view(p.questions@) == typed_questions(
            parsed_datagram(buf@).unwrap().2,
        ),
        r matches Ok(p) ==> p.response == parsed_response(buf@),
{
    match parse_raw(buf) {
        Err(e) => Err(ServiceError::from(e)),
        Ok(raw) => {
            let RawPacket { id, query, questions: raw_questions, response } = raw;
            let ghost raws = raw_questions.deep_view();
            let mut questions: Vec<InboundQuestion> = Vec::new();
            let mut i: usize = 0;
            while i < raw_questions.len()
                invariant
                    i <= raw_questions.len(),
                    raws == raw_questions.deep_view(),
                    forall|k: int|
                        0 <= k < raw_questions@.len() ==> QueryType::spec_from_code(
                            (#[trigger] raw_questions@[k]).2,
                        ) is Some && QueryClass::spec_from_code(raw_questions@[k].3) is Some,
                    questions@.len() == i,
                    questions_raw(questions_view(questions@)) == raws.take(i as int),
                decreases raw_questions.len() - i,
            {
                let q = &raw_questions[i];
                assert(raws[i as int] == (q.0@, q.1, q.2, q.3));
                let qtype = match QueryType::from_code(q.2) {
                    Some(t) => t,
                    None => vstd::pervasive::unreached(),
                };
                let qclass = match QueryClass::from_code(q.3) {
                    Some(c) => c,
                    None => vstd::pervasive::unreached(),
                };
                questions.push(
                    InboundQuestion { name: q.0.clone(), prefer_unicast: q.1, qtype, qclass },
                );
                i += 1;
                assert(questions_raw(questions_view(questions@)) =~= raws.take(i as int));
            }
            assert(raws.take(i as int) =~= raws);
            assert(questions_view(questions@) =~= typed_questions(raws));
            Ok(Inbound { id, query, questions, response })
        },
    }
}

} // verus!
