//! The decisions of the service engine: which names it answers for, what it
//! sends next, and what it makes of a datagram or a tick of the discovery
//! scheduler. The sockets, the timers and the waiting are the caller's.

use crate::dns::header::{header_wire, HeaderView};
use crate::dns::name::{encode_name, valid_name};
use crate::dns::packet::{names_valid, packet_wire, questions_wire, txt_too_long};
use crate::dns::traits::AppendBytes;
use crate::dns::{u16_be, PacketBuilder, QueryClass, QueryType};
use crate::error::ServiceError;
use crate::inbound::{
    parse, parsed_datagram, parsed_response, questions_view, typed_questions, Inbound,
    InboundQuestionView,
};
use crate::META_QUERY_SERVICE;
use vstd::prelude::*;
use vstd::string::StringSliceAdditionalSpecFns;

verus! {

/// The UDP port of multicast DNS.
pub const MDNS_PORT: u16 = 5353;

/// The IPv4 group of multicast DNS, 224.0.0.251.
pub const IPV4_MDNS_GROUP: [u8; 4] = [224, 0, 0, 251];

/// The IPv6 group of multicast DNS, FF02::FB.
pub const IPV6_MDNS_GROUP: [u8; 16] = [0xff, 0x02, 0, 0, 0, 0, 0, 0, 0, 0, 0, 0, 0, 0, 0, 0xfb];

/// The TTL of the multicast datagrams that are sent.
pub const MULTICAST_TTL: u32 = 255;

/// The size of the buffer that a datagram is received into.
pub const RECV_BUFFER_SIZE: usize = 2048;

/// Where a datagram came from.
#[derive(Debug, Clone, Copy, PartialEq, Eq)]
pub enum SourceAddr {
    V4 { ipv4: [u8; 4], port: u16 },
    V6 { ipv6: [u8; 16], port: u16, flowinfo: u32, scope_id: u32 },
}

/// A question of a received query that the service is to answer.
#[derive(Debug)]
pub struct Query {
    pub name: String,
    pub prefer_unicast: bool,
    pub qtype: QueryType,
    pub qclass: QueryClass,
    pub from: SourceAddr,
    pub id: u16,
}

/// A question to answer, with the name as characters.
pub struct QueryView {
    pub name: Seq<char>,
    pub prefer_unicast: bool,
    pub qtype: QueryType,
    pub qclass: QueryClass,
    pub from: SourceAddr,
    pub id: u16,
}

impl View for Query {
    type V = QueryView;

    open spec fn view(&self) -> QueryView {
        QueryView {
            name: self.name@,
            prefer_unicast: self.prefer_unicast,
            qtype: self.qtype,
            qclass: self.qclass,
            from: self.from,
            id: self.id,
        }
    }
}

/// Whether `name` is the name of the meta-query, which asks which service
/// types are present on the link.
pub fn is_meta_service_name(name: &str) -> (meta: bool)
    ensures
        meta == (name@ == META_QUERY_SERVICE@),
{
    let meta = META_QUERY_SERVICE.to_owned();
    name.to_owned() == meta
}

impl Query {
    /// Whether the question asks which service types are present on the
    /// link.
    pub fn is_meta_service_query(&self) -> (meta: bool)
        ensures
            meta == (self.name@ == META_QUERY_SERVICE@),
    {
        is_meta_service_name(self.name.as_str())
    }
}

/// What the service makes of a received DNS message.
#[derive(Debug)]
pub enum Packet {
    /// The questions of a query that the service is to answer.
    Query(Vec<Query>),
    /// The records of a response.
    Response(mdns::Response),
}

/// The questions to answer, with their names as characters.
pub open spec fn queries_view(queries: Seq<Query>) -> Seq<QueryView> {
    Seq::new(queries.len(), |i: int| queries[i]@)
}

/// Whether a question for `name` is kept: the name is advertised, or it is
/// the name of the meta-query.
pub open spec fn wanted(advertised: Set<Seq<char>>, name: Seq<char>) -> bool {
    advertised.contains(name) || name == META_QUERY_SERVICE@
}

/// The question as it is handed to the caller, with where the packet came
/// from and its id.
pub open spec fn to_query(q: InboundQuestionView, from: SourceAddr, id: u16) -> QueryView {
    QueryView {
        name: q.name,
        prefer_unicast: q.prefer_unicast,
        qtype: q.qtype,
        qclass: q.qclass,
        from,
        id,
    }
}

/// The questions that are kept, in the order of the packet.
pub open spec fn kept(
    questions: Seq<InboundQuestionView>,
    advertised: Set<Seq<char>>,
    from: SourceAddr,
    id: u16,
) -> Seq<QueryView> {
    questions.filter(|q: InboundQuestionView| wanted(advertised, q.name)).map_values(
        |q: InboundQuestionView| to_query(q, from, id),
    )
}

/// One more question is kept behind the others if it is wanted, and left
/// out if it is not.
pub proof fn lemma_kept_push(
    questions: Seq<InboundQuestionView>,
    q: InboundQuestionView,
    advertised: Set<Seq<char>>,
    from: SourceAddr,
    id: u16,
)
    ensures
        kept(questions.push(q), advertised, from, id) == if wanted(advertised, q.name) {
            kept(questions, advertised, from, id).push(to_query(q, from, id))
        } else {
            kept(questions, advertised, from, id)
        },
{
    reveal(Seq::filter);
    let pred = |q: InboundQuestionView| wanted(advertised, q.name);
    assert(questions.push(q).drop_last() =~= questions);
    assert(questions.push(q).filter(pred) == if wanted(advertised, q.name) {
        questions.filter(pred).push(q)
    } else {
        questions.filter(pred)
    });
    if wanted(advertised, q.name) {
        assert(kept(questions.push(q), advertised, from, id) =~= kept(
            questions,
            advertised,
            from,
            id,
        ).push(to_query(q, from, id)));
    }
}

/// Of no questions nothing is kept.
pub proof fn lemma_kept_empty(advertised: Set<Seq<char>>, from: SourceAddr, id: u16)
    ensures
        kept(Seq::empty(), advertised, from, id) == Seq::<QueryView>::empty(),
{
    reveal(Seq::filter);
    assert(kept(Seq::empty(), advertised, from, id) =~= Seq::<QueryView>::empty());
}

/// Whether `packet` is what the service makes of a message with this id,
/// kind, questions and records: of a query the questions that are kept, of
/// anything else the response with those records.
pub open spec fn reports(
    packet: Packet,
    id: u16,
    query: bool,
    questions: Seq<InboundQuestionView>,
    response: mdns::Response,
    advertised: Set<Seq<char>>,
    from: SourceAddr,
) -> bool {
    if query {
        packet matches Packet::Query(queries) && queries_view(queries@) == kept(
            questions,
            advertised,
            from,
            id,
        )
    } else {
        packet == Packet::Response(response)
    }
}

/// The names that a list of strings holds.
pub open spec fn names_of(names: Seq<String>) -> Set<Seq<char>> {
    Set::new(|name: Seq<char>| exists|i: int| 0 <= i < names.len() && (#[trigger] names[i])@ == name)
}

/// The buffers as sequences of bytes.
pub open spec fn buffers_view(buffers: Seq<Vec<u8>>) -> Seq<Seq<u8>> {
    Seq::new(buffers.len(), |i: int| buffers[i]@)
}

/// The query that is sent for a service when its discovery ticker fires: a
/// header with one question and nothing set, and the question for the PTR
/// records of the name in class `IN`, with the prefer-unicast bit.
pub open spec fn discovery_query(service_name: Seq<u8>) -> Seq<u8> {
    header_wire(
        HeaderView { id: 0, flags: 0, qd_count: 1, an_count: 0, ns_count: 0, ar_count: 0 },
    ) + encode_name(service_name) + u16_be(12) + u16_be(0x8001)
}

/// Builds the query that asks for a service.
pub fn build_discovery_query(service_name: &str) -> (bytes: Vec<u8>)
    requires
        valid_name(service_name.spec_bytes()),
    ensures
        bytes@ == discovery_query(service_name.spec_bytes()),
{
    let mut query = PacketBuilder::new();
    query.add_question(true, service_name, QueryClass::IN, QueryType::PTR);
    proof {
        let b = query@;
        assert(b.questions.len() == 1);
        assert(names_valid(b));
        assert(!txt_too_long(b));
        assert(b.questions.drop_last() =~= Seq::empty());
        assert(questions_wire(b.questions) =~= b.questions.last().wire()) by {
            reveal_with_fuel(questions_wire, 2);
        }
        assert(b.answers =~= Seq::empty());
        assert(packet_wire(b) =~= discovery_query(service_name.spec_bytes()));
    }
    query.assemble()
}

/// What a discovery ticker holds.
pub struct TickerView {
    /// The name of the service that is looked for.
    pub service: Seq<char>,
    /// Whether the ticker has seen that its subscription was given up.
    pub stopped: bool,
}

/// The ticker of one discovery subscription. Each time its interval has
/// passed it is told whether the caller still holds the subscription, and
/// says whether the name of the service is to be published to the
/// scheduler.
pub struct DiscoveryTicker {
    service: String,
    stopped: bool,
}

impl View for DiscoveryTicker {
    type V = TickerView;

    closed spec fn view(&self) -> TickerView {
        TickerView { service: self.service@, stopped: self.stopped }
    }
}

impl DiscoveryTicker {
    /// A running ticker for the service.
    pub fn new(service_name: &str) -> (ticker: Self)
        ensures
            ticker@ == (TickerView { service: service_name@, stopped: false }),
    {
        DiscoveryTicker { service: service_name.to_owned(), stopped: false }
    }

    /// The name of the service that is looked for.
    pub fn name(&self) -> (name: &str)
        ensures
            name@ == self@.service,
    {
        self.service.as_str()
    }

    /// Whether the ticker has stopped.
    pub fn is_stopped(&self) -> (stopped: bool)
        ensures
            stopped == self@.stopped,
    {
        self.stopped
    }

    /// The interval has passed. Where the subscription was dropped the
    /// ticker stops; a stopped ticker stays stopped and publishes nothing.
    /// A running ticker publishes the name of its service.
    pub fn tick(&mut self, subscription_dropped: bool) -> (publish: Option<String>)
        ensures
            final(self)@.service == old(self)@.service,
            final(self)@.stopped == (old(self)@.stopped || subscription_dropped),
            final(self)@.stopped ==> publish is None,
            !final(self)@.stopped ==> (publish matches Some(name) && name@ == old(self)@.service),
    {
        if self.stopped || subscription_dropped {
            self.stopped = true;
            None
        } else {
            Some(self.service.clone())
        }
    }
}

/// What the engine holds.
pub struct ServiceView {
    /// Whether the host receives the multicast packets that it sends.
    pub loopback: bool,
    /// The packets waiting to be sent on the main sockets, oldest first.
    pub send_queue: Seq<Seq<u8>>,
    /// The packets waiting to be sent on the query socket, oldest first.
    pub query_queue: Seq<Seq<u8>>,
    /// The names the host answers for.
    pub advertised: Set<Seq<char>>,
}

/// The outside work that the engine asks for next.
#[derive(Debug)]
pub enum Action {
    /// Send the packet on the main sockets, to the IPv4 and the IPv6 group.
    SendResponse(Vec<u8>),
    /// Send the packet on the query socket, to the two groups.
    SendQuery(Vec<u8>),
    /// Wait for the first of: a datagram on the IPv4 socket, a datagram on
    /// the IPv6 socket, a tick of the discovery scheduler.
    Wait,
}

/// What happened outside.
pub enum Event<'a> {
    /// A packet of the main queue could not be sent.
    ResponseSendFailed,
    /// A packet of the query queue could not be sent.
    QuerySendFailed,
    /// A datagram arrived on one of the main sockets.
    Datagram { buf: &'a [u8], from: SourceAddr },
    /// The discovery scheduler asks for a query for this service.
    Tick { service_name: &'a str },
}

pub struct MdnsService {
    loopback: bool,
    /// Buffers pending to send on the main socket.
    send_buffers: Vec<Vec<u8>>,
    /// Buffers pending to send on the query socket.
    query_send_buffers: Vec<Vec<u8>>,
    /// The advertised names. Only the set that they form counts: a name is
    /// advertised if it stands in the list at least once.
    advertized_sevices: Vec<String>,
}

impl View for MdnsService {
    type V = ServiceView;

    closed spec fn view(&self) -> ServiceView {
        ServiceView {
            loopback: self.loopback,
            send_queue: buffers_view(self.send_buffers@),
            query_queue: buffers_view(self.query_send_buffers@),
            advertised: names_of(self.advertized_sevices@),
        }
    }
}

impl MdnsService {
    /// Creates the engine of a service that advertises nothing yet and has
    /// nothing to send. With `loopback` the host receives its own multicast
    /// packets.
    pub fn new(loopback: bool) -> (service: Self)
        ensures
            service@ == (ServiceView {
                loopback,
                send_queue: Seq::empty(),
                query_queue: Seq::empty(),
                advertised: Set::empty(),
            }),
    {
        let service = MdnsService {
            loopback,
            send_buffers: Vec::new(),
            query_send_buffers: Vec::new(),
            advertized_sevices: Vec::new(),
        };
        assert(service@.send_queue =~= Seq::empty());
        assert(service@.query_queue =~= Seq::empty());
        assert(service@.advertised =~= Set::empty());
        service
    }

    /// Whether the host receives the multicast packets that it sends.
    pub fn loopback(&self) -> (loopback: bool)
        ensures
            loopback == self@.loopback,
    {
        self.loopback
    }

    /// Whether the service answers for the name.
    pub fn is_registered(&self, svc: &str) -> (registered: bool)
        ensures
            registered == self@.advertised.contains(svc@),
    {
        let name = svc.to_owned();
        self.position(&name) < self.advertized_sevices.len()
    }

    /// The first place at which the name is held, or the number of names.
    fn position(&self, name: &String) -> (i: usize)
        ensures
            i <= self.advertized_sevices@.len(),
            i < self.advertized_sevices@.len() ==> self.advertized_sevices@[i as int]@ == name@,
            forall|k: int| 0 <= k < i ==> (#[trigger] self.advertized_sevices@[k])@ != name@,
            i < self.advertized_sevices@.len() <==> self@.advertised.contains(name@),
    {
        let mut i: usize = 0;
        while i < self.advertized_sevices.len()
            invariant
                i <= self.advertized_sevices@.len(),
                forall|k: int| 0 <= k < i ==> (#[trigger] self.advertized_sevices@[k])@ != name@,
            decreases self.advertized_sevices.len() - i,
        {
            if self.advertized_sevices[i] == *name {
                return i;
            }
            i += 1;
        }
        i
    }

    /// register a service to advertize
    pub fn register(&mut self, svc: &str)
        ensures
            final(self)@ == (ServiceView {
                advertised: old(self)@.advertised.insert(svc@),
                ..old(self)@
            }),
    {
        let name = svc.to_owned();
        if self.position(&name) == self.advertized_sevices.len() {
            self.advertized_sevices.push(name);
            assert(self.advertized_sevices@.last()@ == svc@);
            assert forall|n: Seq<char>|
                self@.advertised.contains(n) == old(self)@.advertised.insert(svc@).contains(
                    n,
                ) by {
                if old(self)@.advertised.contains(n) {
                    let i = choose|i: int|
                        0 <= i < old(self).advertized_sevices@.len() && (
                        #[trigger] old(self).advertized_sevices@[i])@ == n;
                    assert(self.advertized_sevices@[i]@ == n);
                }
            }
        }
        assert(self@.advertised =~= old(self)@.advertised.insert(svc@));
    }

    /// unregister an advertized service. If the service doesn't exists, this is no-op.
    pub fn unregister(&mut self, svc: &str)
        ensures
            final(self)@ == (ServiceView {
                advertised: old(self)@.advertised.remove(svc@),
                ..old(self)@
            }),
    {
        let name = svc.to_owned();
        let mut i: usize = 0;
        while i < self.advertized_sevices.len()
            invariant
                i <= self.advertized_sevices@.len(),
                name@ == svc@,
                self.loopback == old(self).loopback,
                self.send_buffers == old(self).send_buffers,
                self.query_send_buffers == old(self).query_send_buffers,
                forall|k: int| 0 <= k < i ==> (#[trigger] self.advertized_sevices@[k])@ != name@,
                names_of(self.advertized_sevices@).remove(name@) == names_of(
                    old(self).advertized_sevices@,
                ).remove(name@),
            decreases self.advertized_sevices.len() - i,
        {
            if self.advertized_sevices[i] == name {
                let ghost before = self.advertized_sevices@;
                self.advertized_sevices.remove(i);
                proof {
                    let after = self.advertized_sevices@;
                    assert forall|n: Seq<char>|
                        names_of(after).remove(name@).contains(n) == names_of(before).remove(
                            name@,
                        ).contains(n) by {
                        if names_of(before).remove(name@).contains(n) {
                            let k = choose|k: int|
                                0 <= k < before.len() && (#[trigger] before[k])@ == n;
                            if k < i {
                                assert(after[k]@ == n);
                            } else {
                                assert(after[k - 1]@ == n);
                            }
                        }
                        if names_of(after).remove(name@).contains(n) {
                            let k = choose|k: int|
                                0 <= k < after.len() && (#[trigger] after[k])@ == n;
                            if k < i {
                                assert(before[k]@ == n);
                            } else {
                                assert(before[k + 1]@ == n);
                            }
                        }
                    }
                    assert(names_of(after).remove(name@) =~= names_of(before).remove(name@));
                }
            } else {
                i += 1;
            }
        }
        assert(self@.advertised =~= old(self)@.advertised.remove(svc@));
    }

    /// Puts a packet behind those that wait to be sent on the main sockets.
    pub fn enqueue_response(&mut self, rsp: Vec<u8>)
        ensures
            final(self)@ == (ServiceView {
                send_queue: old(self)@.send_queue.push(rsp@),
                ..old(self)@
            }),
    {
        self.send_buffers.push(rsp);
        assert(self@.send_queue =~= old(self)@.send_queue.push(rsp@));
    }

    /// The outside work to do next. The oldest packet of the main queue is
    /// sent first; once that queue is empty the oldest packet of the query
    /// queue; once both are empty the engine waits.
    pub fn next_action(&mut self) -> (action: Action)
        ensures
            match action {
                Action::SendResponse(bytes) => {
                    &&& old(self)@.send_queue.len() > 0
                    &&& bytes@ == old(self)@.send_queue[0]
                    &&& final(self)@ == (ServiceView {
                        send_queue: old(self)@.send_queue.skip(1),
                        ..old(self)@
                    })
                },
                Action::SendQuery(bytes) => {
                    &&& old(self)@.send_queue.len() == 0
                    &&& old(self)@.query_queue.len() > 0
                    &&& bytes@ == old(self)@.query_queue[0]
                    &&& final(self)@ == (ServiceView {
                        query_queue: old(self)@.query_queue.skip(1),
                        ..old(self)@
                    })
                },
                Action::Wait => {
                    &&& old(self)@.send_queue.len() == 0
                    &&& old(self)@.query_queue.len() == 0
                    &&& final(self)@ == old(self)@
                },
            },
    {
        if !self.send_buffers.is_empty() {
            let to_send = self.send_buffers.remove(0);
            assert(self@.send_queue =~= old(self)@.send_queue.skip(1));
            Action::SendResponse(to_send)
        } else if !self.query_send_buffers.is_empty() {
            let to_send = self.query_send_buffers.remove(0);
            assert(self@.query_queue =~= old(self)@.query_queue.skip(1));
            Action::SendQuery(to_send)
        } else {
            Action::Wait
        }
    }

    /// Takes in what happened outside. A failed send empties the queue the
    /// packet came from. A datagram that is no DNS message is dropped; one
    /// that is gives the packet to hand to the caller. A tick puts the
    /// query for the service behind those that wait on the query socket.
    pub fn handle(&mut self, event: Event) -> (packet: Option<Packet>)
        requires
            event matches Event::Tick { service_name } ==> valid_name(service_name.spec_bytes()),
        ensures
            match event {
                Event::ResponseSendFailed => {
                    &&& packet is None
                    &&& final(self)@ == (ServiceView { send_queue: Seq::empty(), ..old(self)@ })
                },
                Event::QuerySendFailed => {
                    &&& packet is None
                    &&& final(self)@ == (ServiceView { query_queue: Seq::empty(), ..old(self)@ })
                },
                Event::Datagram { buf, from } => {
                    &&& final(self)@ == old(self)@
                    &&& packet is Some <==> parsed_datagram(buf@) is Some
                    &&& packet matches Some(p) ==> reports(
                        p,
                        parsed_datagram(buf@).unwrap().0,
                        parsed_datagram(buf@).unwrap().1,
                        typed_questions(parsed_datagram(buf@).unwrap().2),
                        parsed_response(buf@),
                        old(self)@.advertised,
                        from,
                    )
                },
                Event::Tick { service_name } => {
                    &&& packet is None
                    &&& final(self)@ == (ServiceView {
                        query_queue: old(self)@.query_queue.push(
                            discovery_query(service_name.spec_bytes()),
                        ),
                        ..old(self)@
                    })
                },
            },
    {
        match event {
            Event::ResponseSendFailed => {
                self.send_buffers.clear();
                assert(self@.send_queue =~= Seq::empty());
                None
            },
            Event::QuerySendFailed => {
                self.query_send_buffers.clear();
                assert(self@.query_queue =~= Seq::empty());
                None
            },
            Event::Datagram { buf, from } => {
                match self.parse_mdns_packets(buf, from) {
                    Ok(packet) => Some(packet),
                    Err(_) => None,
                }
            },
            Event::Tick { service_name } => {
                let query = build_discovery_query(service_name);
                self.query_send_buffers.push(query);
                assert(self@.query_queue =~= old(self)@.query_queue.push(
                    discovery_query(service_name.spec_bytes()),
                ));
                None
            },
        }
    }

    /// What the service makes of a parsed message. Of a query it keeps the
    /// questions for an advertised name or for the meta-query, in the order
    /// of the packet, each with where the packet came from and its id; none
    /// kept gives an empty list. Anything else is a response, handed on as
    /// it was parsed.
    pub fn classify(&self, inbound: Inbound, from: SourceAddr) -> (packet: Packet)
        ensures
            reports(
                packet,
                inbound.id,
                inbound.query,
                questions_view(inbound.questions@),
                inbound.response,
                self@.advertised,
                from,
            ),
    {
        let Inbound { id, query, questions, response } = inbound;
        if !query {
            return Packet::Response(response);
        }
        let ghost all = questions_view(questions@);
        let ghost advertised = self@.advertised;
        let meta = META_QUERY_SERVICE.to_owned();
        let mut queries: Vec<Query> = Vec::new();
        let mut i: usize = 0;
        proof {
            assert(all.take(0) =~= Seq::empty());
            lemma_kept_empty(advertised, from, id);
            assert(queries_view(queries@) =~= Seq::empty());
        }
        while i < questions.len()
            invariant
                i <= questions.len(),
                all == questions_view(questions@),
                advertised == self@.advertised,
                meta@ == META_QUERY_SERVICE@,
                queries_view(queries@) == kept(all.take(i as int), advertised, from, id),
            decreases questions.len() - i,
        {
            let q = &questions[i];
            proof {
                assert(all[i as int] == q@);
                assert(all.take(i + 1) =~= all.take(i as int).push(q@));
                lemma_kept_push(all.take(i as int), q@, advertised, from, id);
            }
            if self.position(&q.name) < self.advertized_sevices.len() || q.name == meta {
                let ghost before = queries@;
                queries.push(
                    Query {
                        name: q.name.clone(),
                        from,
                        id,
                        qclass: q.qclass,
                        qtype: q.qtype,
                        prefer_unicast: q.prefer_unicast,
                    },
                );
                assert(queries_view(queries@) =~= queries_view(before).push(
                    to_query(q@, from, id),
                ));
            }
            i += 1;
        }
        assert(all.take(i as int) =~= all);
        Packet::Query(queries)
    }

    /// Parses a datagram and says what the service makes of it: of a query
    /// the questions that are kept, of anything else the response with the
    /// records that were parsed. Fails where the bytes are no DNS message.
    pub fn parse_mdns_packets(&self, buf: &[u8], from: SourceAddr) -> (r: Result<
        Packet,
        ServiceError,
    >)
        ensures
            r is Ok <==> parsed_datagram(buf@) is Some,
            r matches Ok(p) ==> reports(
                p,
                parsed_datagram(buf@).unwrap().0,
                parsed_datagram(buf@).unwrap().1,
                typed_questions(parsed_datagram(buf@).unwrap().2),
                parsed_response(buf@),
                self@.advertised,
                from,
            ),
    {
        match parse(buf) {
            Ok(inbound) => Ok(self.classify(inbound, from)),
            Err(e) => Err(e),
        }
    }
}

} // verus!
