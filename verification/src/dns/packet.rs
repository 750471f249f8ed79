//! The packet builder: a header, the questions and the answers, put
//! together in that order.

use super::enums::{QueryClass, QueryType};
use super::error::MdnsResponseError;
use super::header::{header_wire, HeaderView, PacketHeader};
use super::name::{encode_name, lemma_encode_name_len, valid_name};
use super::resource_record::{
    lemma_record_layout, record_encodable, record_names_valid, record_wire, RecordView,
    ResourceRecord,
};
use super::traits::AppendBytes;
use super::{append_qname, append_u16, is_valid_name, lemma_be_round_trip, u16_be, u16_from_be};
use vstd::prelude::*;
use vstd::string::StringSliceAdditionalSpecFns;

verus! {

/// The bit of the class word of a question that asks for an answer by
/// unicast.
pub const PREFER_UNICAST: u16 = 0x8000;

/// The class word of a question: the class, and the prefer-unicast bit above
/// it.
pub open spec fn question_class_word(qclass: QueryClass, prefer_unicast: bool) -> u16 {
    if prefer_unicast {
        (qclass.spec_code() + PREFER_UNICAST) as u16
    } else {
        qclass.spec_code()
    }
}

/// The class word of a question gives back the class below its top bit and
/// the preference for unicast in its top bit.
pub proof fn lemma_question_class_word(qclass: QueryClass, prefer_unicast: bool)
    ensures
        question_class_word(qclass, prefer_unicast) % 0x8000 == qclass.spec_code(),
        (question_class_word(qclass, prefer_unicast) >= 0x8000) == prefer_unicast,
{
}

/// A question: the name asked for, the type and class of records wanted,
/// and whether an answer by unicast is preferred.
#[derive(Debug)]
pub struct Question<'a> {
    pub name: &'a str,
    pub prefer_unicast: bool,
    pub qtype: QueryType,
    pub qclass: QueryClass,
}

impl Question<'_> {
    /// The number of bytes the question takes on the wire.
    pub fn byte_size(&self) -> (n: usize)
        requires
            self.name.spec_bytes().len() + 6 <= usize::MAX,
        ensures
            n == self.name.spec_bytes().len() + 6,
            self.encodable() ==> n == self.wire().len(),
    {
        proof {
            if self.encodable() {
                lemma_encode_name_len(self.name.spec_bytes());
            }
        }
        2 + 2 + self.name.as_bytes().len() + 2
    }
}

impl AppendBytes for Question<'_> {
    /// The name, the type and the class word.
    open spec fn wire(&self) -> Seq<u8> {
        encode_name(self.name.spec_bytes()) + u16_be(self.qtype.spec_code()) + u16_be(
            question_class_word(self.qclass, self.prefer_unicast),
        )
    }

    open spec fn encodable(&self) -> bool {
        valid_name(self.name.spec_bytes())
    }

    fn append_bytes(&self, out: &mut Vec<u8>) {
        append_qname(out, self.name.as_bytes());
        append_u16(out, self.qtype.code());
        let class = if self.prefer_unicast {
            self.qclass.code() + PREFER_UNICAST
        } else {
            self.qclass.code()
        };
        append_u16(out, class);
        assert(out@ =~= old(out)@ + self.wire());
    }
}

/// The questions one after the other.
pub open spec fn questions_wire(questions: Seq<Question>) -> Seq<u8>
    decreases questions.len(),
{
    if questions.len() == 0 {
        Seq::empty()
    } else {
        questions_wire(questions.drop_last()) + questions.last().wire()
    }
}

/// The records one after the other.
pub open spec fn records_wire(records: Seq<RecordView>) -> Seq<u8>
    decreases records.len(),
{
    if records.len() == 0 {
        Seq::empty()
    } else {
        records_wire(records.drop_last()) + record_wire(records.last())
    }
}

/// What a builder holds.
pub struct BuilderView<'a> {
    pub header: HeaderView,
    pub questions: Seq<Question<'a>>,
    pub answers: Seq<RecordView<'a>>,
}

/// The packet: header, questions, answers.
pub open spec fn packet_wire(b: BuilderView) -> Seq<u8> {
    header_wire(b.header) + questions_wire(b.questions) + records_wire(b.answers)
}

/// The counts of the header are those of the sections that are sent: the
/// questions, the answers, and nothing else.
pub open spec fn counts_agree(b: BuilderView) -> bool {
    &&& b.header.qd_count == b.questions.len()
    &&& b.header.an_count == b.answers.len()
    &&& b.header.ns_count == 0
    &&& b.header.ar_count == 0
}

/// Every name in the packet is one the codec accepts.
pub open spec fn names_valid(b: BuilderView) -> bool {
    &&& forall|i: int| 0 <= i < b.questions.len() ==> (#[trigger] b.questions[i]).encodable()
    &&& forall|i: int| 0 <= i < b.answers.len() ==> record_names_valid(#[trigger] b.answers[i])
}

/// Some TXT answer has a string over 255 bytes, or data over 65535 bytes.
pub open spec fn txt_too_long(b: BuilderView) -> bool {
    exists|i: int|
        0 <= i < b.answers.len() && (#[trigger] b.answers[i]).data is TXT
            && !b.answers[i].data.encodable()
}

/// What `build` asks for: counts that agree with the sections, and valid
/// names.
pub open spec fn buildable(b: BuilderView) -> bool {
    counts_agree(b) && names_valid(b)
}

/// A packet begins with its header, and the counts it reads back from the
/// header are the numbers of questions and answers that follow, with no
/// record of the other two sections.
pub proof fn lemma_packet_counts(b: BuilderView)
    requires
        counts_agree(b),
    ensures
        ({
            let wire = packet_wire(b);
            &&& wire.len() == 12 + questions_wire(b.questions).len() + records_wire(
                b.answers,
            ).len()
            &&& wire.subrange(0, 12) == header_wire(b.header)
            &&& u16_from_be(wire.subrange(0, 2)) == b.header.id
            &&& u16_from_be(wire.subrange(2, 4)) == b.header.flags
            &&& u16_from_be(wire.subrange(4, 6)) == b.questions.len()
            &&& u16_from_be(wire.subrange(6, 8)) == b.answers.len()
            &&& u16_from_be(wire.subrange(8, 10)) == 0
            &&& u16_from_be(wire.subrange(10, 12)) == 0
        }),
{
    let wire = packet_wire(b);
    let h = b.header;
    lemma_be_round_trip(h.id, 0);
    lemma_be_round_trip(h.flags, 0);
    lemma_be_round_trip(h.qd_count, 0);
    lemma_be_round_trip(h.an_count, 0);
    lemma_be_round_trip(h.ns_count, 0);
    lemma_be_round_trip(h.ar_count, 0);
    assert(wire.subrange(0, 12) =~= header_wire(h));
    assert(wire.subrange(0, 2) =~= u16_be(h.id));
    assert(wire.subrange(2, 4) =~= u16_be(h.flags));
    assert(wire.subrange(4, 6) =~= u16_be(h.qd_count));
    assert(wire.subrange(6, 8) =~= u16_be(h.an_count));
    assert(wire.subrange(8, 10) =~= u16_be(h.ns_count));
    assert(wire.subrange(10, 12) =~= u16_be(h.ar_count));
}

/// The first records of a list are sent first: their bytes open the bytes
/// of the list.
pub proof fn lemma_records_prefix(records: Seq<RecordView>, n: int)
    requires
        0 <= n <= records.len(),
    ensures
        records_wire(records.take(n)).len() <= records_wire(records).len(),
        records_wire(records).subrange(0, records_wire(records.take(n)).len() as int)
            == records_wire(records.take(n)),
    decreases records.len() - n,
{
    if n == records.len() {
        assert(records.take(n) =~= records);
        assert(records_wire(records).subrange(0, records_wire(records).len() as int)
            =~= records_wire(records));
    } else {
        lemma_records_prefix(records, n + 1);
        assert(records.take(n + 1).drop_last() =~= records.take(n));
        let longer = records_wire(records.take(n + 1));
        let shorter = records_wire(records.take(n));
        assert(longer == shorter + record_wire(records.take(n + 1).last()));
        assert(records_wire(records).subrange(0, shorter.len() as int) =~= records_wire(
            records,
        ).subrange(0, longer.len() as int).subrange(0, shorter.len() as int));
        assert(longer.subrange(0, shorter.len() as int) =~= shorter);
    }
}

/// Every answer of a packet stands in it whole, behind the header, the
/// questions and the answers before it.
pub proof fn lemma_answer_at(b: BuilderView, i: int)
    requires
        0 <= i < b.answers.len(),
    ensures
        ({
            let at = 12 + questions_wire(b.questions).len() + records_wire(
                b.answers.take(i),
            ).len() as int;
            let end = at + record_wire(b.answers[i]).len() as int;
            &&& end <= packet_wire(b).len()
            &&& packet_wire(b).subrange(at, end) == record_wire(b.answers[i])
        }),
{
    let rs = b.answers;
    lemma_records_prefix(rs, i + 1);
    assert(rs.take(i + 1).drop_last() =~= rs.take(i));
    assert(rs.take(i + 1).last() == rs[i]);
    let upto = records_wire(rs.take(i + 1));
    let before = records_wire(rs.take(i));
    assert(upto == before + record_wire(rs[i]));
    let start = 12 + questions_wire(b.questions).len() as int;
    let at = start + before.len() as int;
    let end = at + record_wire(rs[i]).len() as int;
    assert(header_wire(b.header).len() == 12);
    assert(packet_wire(b).subrange(start, start + upto.len() as int) =~= records_wire(rs).subrange(
        0,
        upto.len() as int,
    ));
    assert(packet_wire(b).subrange(at, end) =~= upto.subrange(before.len() as int, upto.len() as int));
    assert(upto.subrange(before.len() as int, upto.len() as int) =~= record_wire(rs[i]));
}

/// In a packet, the length field of every answer says how many bytes lie
/// between it and the end of the data of that answer, and those bytes are
/// the data.
pub proof fn lemma_rdlength(b: BuilderView, i: int)
    requires
        names_valid(b),
        !txt_too_long(b),
        0 <= i < b.answers.len(),
    ensures
        ({
            let wire = packet_wire(b);
            let at = 12 + questions_wire(b.questions).len() + records_wire(
                b.answers.take(i),
            ).len() as int;
            let field = at + encode_name(b.answers[i].name).len() as int + 8;
            let end = at + record_wire(b.answers[i]).len() as int;
            &&& field + 2 <= end <= wire.len()
            &&& u16_from_be(wire.subrange(field, field + 2)) == end - (field + 2)
            &&& wire.subrange(field + 2, end) == b.answers[i].data.wire()
        }),
{
    let wire = packet_wire(b);
    let r = b.answers[i];
    assert(record_names_valid(r));
    assert(record_encodable(r));
    lemma_answer_at(b, i);
    lemma_record_layout(r);
    let at = 12 + questions_wire(b.questions).len() + records_wire(b.answers.take(i)).len() as int;
    let n = encode_name(r.name).len() as int;
    let end = at + record_wire(r).len() as int;
    let record = wire.subrange(at, end);
    assert(wire.subrange(at + n + 8, at + n + 10) =~= record.subrange(n + 8, n + 10));
    assert(wire.subrange(at + n + 10, end) =~= record.subrange(n + 10, record.len() as int));
}

pub struct PacketBuilder<'a> {
    header: PacketHeader,
    questions: Vec<Question<'a>>,
    answers: Vec<ResourceRecord<'a>>,
}

impl<'a> View for PacketBuilder<'a> {
    type V = BuilderView<'a>;

    closed spec fn view(&self) -> BuilderView<'a> {
        BuilderView {
            header: self.header@,
            questions: self.questions@,
            answers: Seq::new(self.answers@.len(), |i: int| self.answers@[i]@),
        }
    }
}

// Builder for mDNS packets
impl<'a> PacketBuilder<'a> {
    /// Creates a new instance of a packet builder: a default header and no
    /// question or answer.
    pub fn new() -> (b: Self)
        ensures
            b@ == (BuilderView {
                header: HeaderView {
                    id: 0,
                    flags: 0,
                    qd_count: 0,
                    an_count: 0,
                    ns_count: 0,
                    ar_count: 0,
                },
                questions: Seq::empty(),
                answers: Seq::empty(),
            }),
            buildable(b@),
    {
        let b = Self { header: PacketHeader::default(), questions: Vec::new(), answers: Vec::new() };
        assert(b@.answers =~= Seq::empty());
        b
    }

    /// Returns a reference to the header of the packet.
    pub fn header(&self) -> (h: &PacketHeader)
        ensures
            h@ == self@.header,
    {
        &self.header
    }

    /// Returns a mutable reference to the header of the packet. What is
    /// done to the header through it is done to the packet.
    pub fn header_mut(&mut self) -> (h: &mut PacketHeader)
        ensures
            h@ == old(self)@.header,
            final(self)@ == (BuilderView { header: final(h)@, ..old(self)@ }),
    {
        &mut self.header
    }

    /// Add a question to the packet, behind those it has, and count it in
    /// the header.
    pub fn add_question(
        &mut self,
        prefer_unicast: bool,
        name: &'a str,
        qclass: QueryClass,
        qtype: QueryType,
    ) -> (r: &mut Self)
        requires
            old(self)@.header.qd_count < u16::MAX,
        ensures
            r@ == (BuilderView {
                header: HeaderView {
                    qd_count: (old(self)@.header.qd_count + 1) as u16,
                    ..old(self)@.header
                },
                questions: old(self)@.questions.push(
                    Question { name, prefer_unicast, qtype, qclass },
                ),
                ..old(self)@
            }),
            *final(self) == *final(r),
    {
        self.questions.push(Question { name, prefer_unicast, qtype, qclass });
        self.header.count_question();
        assert(self@.answers =~= old(self)@.answers);
        self
    }

    /// Adds an answer to the packet, behind those it has, and counts it in
    /// the header.
    pub fn add_answer(&mut self, answer: ResourceRecord<'a>) -> (r: &mut Self)
        requires
            old(self)@.header.an_count < u16::MAX,
        ensures
            r@ == (BuilderView {
                header: HeaderView {
                    an_count: (old(self)@.header.an_count + 1) as u16,
                    ..old(self)@.header
                },
                answers: old(self)@.answers.push(answer@),
                ..old(self)@
            }),
            *final(self) == *final(r),
    {
        self.answers.push(answer);
        self.header.count_answer();
        assert(self@.answers =~= old(self)@.answers.push(answer@));
        self
    }

    /// Whether `build` may be called: the counts of the header agree with
    /// the sections and every name is valid.
    pub fn is_buildable(&self) -> (ok: bool)
        ensures
            ok == buildable(self@),
    {
        if self.header.qd_count() as usize != self.questions.len() || self.header.an_count_of()
            as usize != self.answers.len() || self.header.ns_count_of() != 0
            || self.header.ar_count_of() != 0 {
            return false;
        }
        let mut i: usize = 0;
        while i < self.questions.len()
            invariant
                i <= self.questions.len(),
                forall|j: int| 0 <= j < i ==> (#[trigger] self@.questions[j]).encodable(),
            decreases self.questions.len() - i,
        {
            if !is_valid_name(self.questions[i].name) {
                assert(!self@.questions[i as int].encodable());
                return false;
            }
            i += 1;
        }
        let mut k: usize = 0;
        while k < self.answers.len()
            invariant
                k <= self.answers.len(),
                counts_agree(self@),
                forall|j: int| 0 <= j < self@.questions.len() ==> (
                #[trigger] self@.questions[j]).encodable(),
                forall|j: int| 0 <= j < k ==> record_names_valid(#[trigger] self@.answers[j]),
            decreases self.answers.len() - k,
        {
            let answer = &self.answers[k];
            assert(answer@ == self@.answers[k as int]);
            if !answer.has_valid_names() {
                return false;
            }
            k += 1;
        }
        true
    }

    /// Builds the packet and returns the bytes for that packet: the header,
    /// then the questions, then the answers. Fails where a TXT answer has a
    /// string over 255 bytes or data over 65535 bytes.
    pub fn build(self) -> (r: Result<Vec<u8>, MdnsResponseError>)
        requires
            buildable(self@),
        ensures
            txt_too_long(self@) ==> r == Err::<Vec<u8>, _>(MdnsResponseError::TxtRecordTooLong),
            !txt_too_long(self@) ==> r is Ok && r->Ok_0@ == packet_wire(self@),
    {
        let mut k: usize = 0;
        while k < self.answers.len()
            invariant
                k <= self.answers.len(),
                forall|j: int|
                    0 <= j < k ==> !((#[trigger] self@.answers[j]).data is TXT
                        && !self@.answers[j].data.encodable()),
            decreases self.answers.len() - k,
        {
            assert(self.answers@[k as int]@ == self@.answers[k as int]);
            if self.answers[k].txt_too_long() {
                return Err(MdnsResponseError::TxtRecordTooLong);
            }
            k += 1;
        }
        Ok(self.assemble())
    }

    /// Puts the bytes of a packet together whose TXT answers all fit.
    pub fn assemble(self) -> (buffer: Vec<u8>)
        requires
            buildable(self@),
            !txt_too_long(self@),
        ensures
            buffer@ == packet_wire(self@),
    {
        let mut buffer = Vec::with_capacity(4096);
        self.header.append_bytes(&mut buffer);
        let mut i: usize = 0;
        while i < self.questions.len()
            invariant
                i <= self.questions.len(),
                names_valid(self@),
                buffer@ == header_wire(self@.header) + questions_wire(
                    self@.questions.take(i as int),
                ),
            decreases self.questions.len() - i,
        {
            assert(self@.questions[i as int].encodable());
            self.questions[i].append_bytes(&mut buffer);
            proof {
                let qs = self@.questions;
                assert(qs.take(i + 1).drop_last() =~= qs.take(i as int));
                assert(buffer@ =~= header_wire(self@.header) + questions_wire(qs.take(i + 1)));
            }
            i += 1;
        }
        assert(self@.questions.take(i as int) =~= self@.questions);
        let mut j: usize = 0;
        while j < self.answers.len()
            invariant
                j <= self.answers.len(),
                names_valid(self@),
                !txt_too_long(self@),
                buffer@ == header_wire(self@.header) + questions_wire(self@.questions)
                    + records_wire(self@.answers.take(j as int)),
            decreases self.answers.len() - j,
        {
            let answer = &self.answers[j];
            proof {
                let rs = self@.answers;
                assert(answer@ == rs[j as int]);
                assert(record_names_valid(rs[j as int]));
                assert(rs.take(j + 1).drop_last() =~= rs.take(j as int));
            }
            answer.append_bytes(&mut buffer);
            proof {
                let rs = self@.answers;
                assert(buffer@ =~= header_wire(self@.header) + questions_wire(self@.questions)
                    + records_wire(rs.take(j + 1)));
            }
            j += 1;
        }
        assert(self@.answers.take(j as int) =~= self@.answers);
        buffer
    }
}

} // verus!
