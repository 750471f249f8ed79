//! Reading a packet back. The builder writes names without compression
//! pointers, so what it wrote can be read from front to back: the header,
//! then as many questions and answers as the header counts. This module
//! says what such a reading gives, and proves that a built packet reads
//! back as what it was built from.

use super::name::{decode_labels, encode_name, labels, lemma_name_round_trip_before};
use super::packet::{
    buildable, packet_wire, question_class_word, questions_wire, records_wire, txt_too_long,
    BuilderView, Question,
};
use super::resource_record::{
    class_word, framed, lemma_rdata_len, record_encodable, record_names_valid, record_wire,
    RecordView,
};
use super::traits::AppendBytes;
use super::{lemma_be_round_trip, u16_be, u16_from_be, u32_be, u32_from_be};
use vstd::prelude::*;
use vstd::string::StringSliceAdditionalSpecFns;

verus! {

/// What is read of a question.
pub struct QuestionFields {
    /// The labels of the name.
    pub labels: Seq<Seq<u8>>,
    /// The number of the type.
    pub qtype: int,
    /// The class word: the number of the class, and the prefer-unicast bit
    /// above it.
    pub class_word: int,
}

/// What is read of a record.
pub struct RecordFields {
    /// The labels of the name.
    pub labels: Seq<Seq<u8>>,
    /// The number of the type.
    pub rtype: int,
    /// The class word: the number of the class, and the cache-flush bit
    /// above it.
    pub class_word: int,
    /// The time to live in seconds.
    pub ttl: int,
    /// The data, as many bytes as the length field says.
    pub data: Seq<u8>,
}

/// What is read of a packet.
pub struct PacketFields {
    pub id: int,
    pub flags: int,
    pub questions: Seq<QuestionFields>,
    pub answers: Seq<RecordFields>,
}

/// Reads one question at the front of `wire`: the name, then two bytes each
/// for type and class word. Gives the question and the number of bytes read.
pub open spec fn read_question(wire: Seq<u8>) -> Option<(QuestionFields, nat)> {
    match decode_labels(wire) {
        None => None,
        Some((labels, used)) => {
            let n = used as int;
            if wire.len() < n + 4 {
                None
            } else {
                Some(
                    (
                        QuestionFields {
                            labels,
                            qtype: u16_from_be(wire.subrange(n, n + 2)),
                            class_word: u16_from_be(wire.subrange(n + 2, n + 4)),
                        },
                        (n + 4) as nat,
                    ),
                )
            }
        },
    }
}

/// Reads one record at the front of `wire`: the name, type, class word, TTL
/// and length, then as many bytes of data as the length says. Gives the
/// record and the number of bytes read.
#[verifier::opaque]
pub open spec fn read_record(wire: Seq<u8>) -> Option<(RecordFields, nat)> {
    match decode_labels(wire) {
        None => None,
        Some((labels, used)) => {
            let n = used as int;
            if wire.len() < n + 10 {
                None
            } else {
                let len = u16_from_be(wire.subrange(n + 8, n + 10));
                if wire.len() < n + 10 + len {
                    None
                } else {
                    Some(
                        (
                            RecordFields {
                                labels,
                                rtype: u16_from_be(wire.subrange(n, n + 2)),
                                class_word: u16_from_be(wire.subrange(n + 2, n + 4)),
                                ttl: u32_from_be(wire.subrange(n + 4, n + 8)),
                                data: wire.subrange(n + 10, n + 10 + len),
                            },
                            (n + 10 + len) as nat,
                        ),
                    )
                }
            }
        },
    }
}

/// Reads `count` questions one after the other.
pub open spec fn read_questions(wire: Seq<u8>, count: nat) -> Option<(Seq<QuestionFields>, nat)>
    decreases count,
{
    if count == 0 {
        Some((Seq::empty(), 0nat))
    } else {
        match read_question(wire) {
            None => None,
            Some((first, used)) => match read_questions(wire.skip(used as int), (count - 1) as nat) {
                None => None,
                Some((rest, more)) => Some((seq![first] + rest, used + more)),
            },
        }
    }
}

/// Reads `count` records one after the other.
pub open spec fn read_records(wire: Seq<u8>, count: nat) -> Option<(Seq<RecordFields>, nat)>
    decreases count,
{
    if count == 0 {
        Some((Seq::empty(), 0nat))
    } else {
        match read_record(wire) {
            None => None,
            Some((first, used)) => match read_records(wire.skip(used as int), (count - 1) as nat) {
                None => None,
                Some((rest, more)) => Some((seq![first] + rest, used + more)),
            },
        }
    }
}

/// Reads a packet that has questions and answers only: the header, the
/// questions it counts, the answers it counts, and nothing behind them.
pub open spec fn read_packet(wire: Seq<u8>) -> Option<PacketFields> {
    if wire.len() < 12 || u16_from_be(wire.subrange(8, 10)) != 0 || u16_from_be(
        wire.subrange(10, 12),
    ) != 0 {
        None
    } else {
        let qd = u16_from_be(wire.subrange(4, 6)) as nat;
        let an = u16_from_be(wire.subrange(6, 8)) as nat;
        match read_questions(wire.skip(12), qd) {
            None => None,
            Some((questions, used)) => match read_records(wire.skip(12 + used as int), an) {
                None => None,
                Some((answers, more)) => if 12 + used + more != wire.len() {
                    None
                } else {
                    Some(
                        PacketFields {
                            id: u16_from_be(wire.subrange(0, 2)),
                            flags: u16_from_be(wire.subrange(2, 4)),
                            questions,
                            answers,
                        },
                    )
                },
            },
        }
    }
}

/// What is to be read of a question.
pub open spec fn question_fields(q: Question) -> QuestionFields {
    QuestionFields {
        labels: labels(q.name.spec_bytes()),
        qtype: q.qtype.spec_code() as int,
        class_word: question_class_word(q.qclass, q.prefer_unicast) as int,
    }
}

/// What is to be read of a record.
pub open spec fn record_fields(r: RecordView) -> RecordFields {
    RecordFields {
        labels: labels(r.name),
        rtype: r.data.spec_code() as int,
        class_word: class_word(r.class, r.cache_flush) as int,
        ttl: r.ttl as int,
        data: r.data.wire(),
    }
}

/// What is to be read of a packet.
pub open spec fn packet_fields(b: BuilderView) -> PacketFields {
    PacketFields {
        id: b.header.id as int,
        flags: b.header.flags as int,
        questions: Seq::new(b.questions.len(), |i: int| question_fields(b.questions[i])),
        answers: Seq::new(b.answers.len(), |i: int| record_fields(b.answers[i])),
    }
}

/// A question reads back as it was written, whatever follows it.
pub proof fn lemma_read_question(q: Question, tail: Seq<u8>)
    requires
        q.encodable(),
    ensures
        read_question(q.wire() + tail) == Some((question_fields(q), q.wire().len())),
{
    let name = encode_name(q.name.spec_bytes());
    let n = name.len() as int;
    let word = question_class_word(q.qclass, q.prefer_unicast);
    let fixed = u16_be(q.qtype.spec_code()) + u16_be(word);
    let wire = q.wire() + tail;
    lemma_be_round_trip(q.qtype.spec_code(), 0);
    lemma_be_round_trip(word, 0);
    assert(wire =~= name + (fixed + tail));
    lemma_name_round_trip_before(q.name.spec_bytes(), fixed + tail);
    assert(wire.subrange(n, n + 2) =~= u16_be(q.qtype.spec_code()));
    assert(wire.subrange(n + 2, n + 4) =~= u16_be(word));
}

/// A record reads back as it was written, whatever follows it.
pub proof fn lemma_read_record(r: RecordView, tail: Seq<u8>)
    requires
        record_encodable(r),
    ensures
        read_record(record_wire(r) + tail) == Some((record_fields(r), record_wire(r).len())),
{
    reveal(read_record);
    let name = encode_name(r.name);
    let n = name.len() as int;
    let data = r.data.wire();
    let word = class_word(r.class, r.cache_flush);
    let fixed = u16_be(r.data.spec_code()) + u16_be(word) + u32_be(r.ttl) + framed(data);
    let wire = record_wire(r) + tail;
    lemma_rdata_len(&r.data);
    lemma_be_round_trip(r.data.spec_code(), r.ttl);
    lemma_be_round_trip(word, 0);
    lemma_be_round_trip(data.len() as u16, 0);
    assert(wire =~= name + (fixed + tail));
    lemma_name_round_trip_before(r.name, fixed + tail);
    assert(wire.subrange(n, n + 2) =~= u16_be(r.data.spec_code()));
    assert(wire.subrange(n + 2, n + 4) =~= u16_be(word));
    assert(wire.subrange(n + 4, n + 8) =~= u32_be(r.ttl));
    assert(wire.subrange(n + 8, n + 10) =~= u16_be(data.len() as u16));
    assert(wire.subrange(n + 10, n + 10 + data.len()) =~= data);
}

/// The bytes of a list of questions are those of the first and those of the
/// others.
pub proof fn lemma_questions_wire_front(questions: Seq<Question>)
    requires
        questions.len() > 0,
    ensures
        questions_wire(questions) == questions[0].wire() + questions_wire(questions.skip(1)),
    decreases questions.len(),
{
    if questions.len() == 1 {
        assert(questions.drop_last() =~= Seq::empty());
        assert(questions.skip(1) =~= Seq::empty());
        assert(questions_wire(questions) =~= questions[0].wire() + questions_wire(
            questions.skip(1),
        ));
    } else {
        lemma_questions_wire_front(questions.drop_last());
        assert(questions.drop_last().skip(1) =~= questions.skip(1).drop_last());
        assert(questions_wire(questions) =~= questions[0].wire() + questions_wire(
            questions.skip(1),
        ));
    }
}

/// The bytes of a list of records are those of the first and those of the
/// others.
pub proof fn lemma_records_wire_front(records: Seq<RecordView>)
    requires
        records.len() > 0,
    ensures
        records_wire(records) == record_wire(records[0]) + records_wire(records.skip(1)),
    decreases records.len(),
{
    if records.len() == 1 {
        assert(records.drop_last() =~= Seq::empty());
        assert(records.skip(1) =~= Seq::empty());
        assert(records_wire(records) =~= record_wire(records[0]) + records_wire(records.skip(1)));
    } else {
        lemma_records_wire_front(records.drop_last());
        assert(records.drop_last().skip(1) =~= records.skip(1).drop_last());
        assert(records_wire(records) =~= record_wire(records[0]) + records_wire(records.skip(1)));
    }
}

/// Questions read back as they were written, whatever follows them.
pub proof fn lemma_read_questions(questions: Seq<Question>, tail: Seq<u8>)
    requires
        forall|i: int| 0 <= i < questions.len() ==> (#[trigger] questions[i]).encodable(),
    ensures
        read_questions(questions_wire(questions) + tail, questions.len()) == Some(
            (
                Seq::new(questions.len(), |i: int| question_fields(questions[i])),
                questions_wire(questions).len(),
            ),
        ),
    decreases questions.len(),
{
    let fields = Seq::new(questions.len(), |i: int| question_fields(questions[i]));
    if questions.len() == 0 {
        assert(fields =~= Seq::empty());
    } else {
        let first = questions[0];
        let rest = questions.skip(1);
        let wire = questions_wire(questions) + tail;
        lemma_questions_wire_front(questions);
        assert(wire =~= first.wire() + (questions_wire(rest) + tail));
        lemma_read_question(first, questions_wire(rest) + tail);
        assert forall|i: int| 0 <= i < rest.len() implies (#[trigger] rest[i]).encodable() by {
            assert(rest[i] == questions[i + 1]);
        }
        lemma_read_questions(rest, tail);
        assert(wire.skip(first.wire().len() as int) =~= questions_wire(rest) + tail);
        assert(seq![question_fields(first)] + Seq::new(
            rest.len(),
            |i: int| question_fields(rest[i]),
        ) =~= fields);
    }
}

/// Records read back as they were written, whatever follows them.
pub proof fn lemma_read_records(records: Seq<RecordView>, tail: Seq<u8>)
    requires
        forall|i: int| 0 <= i < records.len() ==> record_encodable(#[trigger] records[i]),
    ensures
        read_records(records_wire(records) + tail, records.len()) == Some(
            (
                Seq::new(records.len(), |i: int| record_fields(records[i])),
                records_wire(records).len(),
            ),
        ),
    decreases records.len(),
{
    let fields = Seq::new(records.len(), |i: int| record_fields(records[i]));
    if records.len() == 0 {
        assert(fields =~= Seq::empty());
    } else {
        let first = records[0];
        let rest = records.skip(1);
        let wire = records_wire(records) + tail;
        lemma_records_wire_front(records);
        assert(wire =~= record_wire(first) + (records_wire(rest) + tail));
        lemma_read_record(first, records_wire(rest) + tail);
        assert forall|i: int| 0 <= i < rest.len() implies record_encodable(#[trigger] rest[i]) by {
            assert(rest[i] == records[i + 1]);
        }
        lemma_read_records(rest, tail);
        assert(wire.skip(record_wire(first).len() as int) =~= records_wire(rest) + tail);
        assert(seq![record_fields(first)] + Seq::new(rest.len(), |i: int| record_fields(rest[i]))
            =~= fields);
    }
}

/// A built packet reads back as what it was built from: the id and the
/// flags of the header, as many questions and answers as were added, of each
/// question its name, type and class word, and of each answer its name,
/// type, class word, TTL in whole seconds and data.
pub proof fn lemma_packet_round_trip(b: BuilderView)
    requires
        buildable(b),
        !txt_too_long(b),
    ensures
        read_packet(packet_wire(b)) == Some(packet_fields(b)),
{
    let wire = packet_wire(b);
    let h = b.header;
    let qs = questions_wire(b.questions);
    let rs = records_wire(b.answers);
    lemma_be_round_trip(h.id, 0);
    lemma_be_round_trip(h.flags, 0);
    lemma_be_round_trip(h.qd_count, 0);
    lemma_be_round_trip(h.an_count, 0);
    lemma_be_round_trip(h.ns_count, 0);
    lemma_be_round_trip(h.ar_count, 0);
    assert(wire.subrange(0, 2) =~= u16_be(h.id));
    assert(wire.subrange(2, 4) =~= u16_be(h.flags));
    assert(wire.subrange(4, 6) =~= u16_be(h.qd_count));
    assert(wire.subrange(6, 8) =~= u16_be(h.an_count));
    assert(wire.subrange(8, 10) =~= u16_be(h.ns_count));
    assert(wire.subrange(10, 12) =~= u16_be(h.ar_count));
    assert(wire.skip(12) =~= qs + rs);
    lemma_read_questions(b.questions, rs);
    assert forall|i: int| 0 <= i < b.answers.len() implies record_encodable(
        #[trigger] b.answers[i],
    ) by {
        assert(record_names_valid(b.answers[i]));
    }
    assert(wire.skip(12 + qs.len() as int) =~= rs + Seq::<u8>::empty());
    lemma_read_records(b.answers, Seq::empty());
}

} // verus!
