//! The DNS wire codec: header, names, questions, resource records and the
//! packet builder.

use std::time::Duration;
use time::{duration_secs, duration_subsec_nanos};
use vstd::prelude::*;
use vstd::string::StringSliceAdditionalSpecFns;

pub mod answer;
pub mod enums;
pub mod error;
pub mod header;
pub mod name;
pub mod packet;
pub mod rdata;
pub mod reader;
pub mod resource_record;
pub mod time;
pub mod traits;

pub use answer::{append_txt_record, Answer};
pub use enums::{Class, QClass, QueryClass, QueryType, RRType};
pub use error::MdnsResponseError;
pub use header::{OpCode, PacketHeader, RCode};
pub use packet::{PacketBuilder, Question};
pub use resource_record::{RData, ResourceRecord};
use name::{
    encode_labels, encode_name, labels, lemma_first_label_is, lemma_valid_labels_rest,
    valid_labels, valid_name, DOT, MAX_LABEL_LEN, MAX_NAME_LEN,
};

verus! {

/// The two bytes of `value`, most significant first.
pub open spec fn u16_be(value: u16) -> Seq<u8> {
    seq![(value / 256) as u8, (value % 256) as u8]
}

/// The four bytes of `value`, most significant first.
pub open spec fn u32_be(value: u32) -> Seq<u8> {
    seq![
        (value / 0x100_0000) as u8,
        (value / 0x1_0000 % 256) as u8,
        (value / 0x100 % 256) as u8,
        (value % 256) as u8,
    ]
}

/// The number that two bytes stand for, the first the most significant.
pub open spec fn u16_from_be(bytes: Seq<u8>) -> int {
    bytes[0] * 256 + bytes[1]
}

/// The number that four bytes stand for, the first the most significant.
pub open spec fn u32_from_be(bytes: Seq<u8>) -> int {
    bytes[0] * 0x100_0000 + bytes[1] * 0x1_0000 + bytes[2] * 0x100 + bytes[3]
}

/// A number is read back from its bytes.
pub proof fn lemma_be_round_trip(short: u16, long: u32)
    ensures
        u16_be(short).len() == 2,
        u16_from_be(u16_be(short)) == short,
        u32_be(long).len() == 4,
        u32_from_be(u32_be(long)) == long,
{
}

/// Appends `value` in network byte order.
pub fn append_u16(out: &mut Vec<u8>, value: u16)
    ensures
        final(out)@ == old(out)@ + u16_be(value),
{
    let hi: u8 = (value >> 8) as u8;
    let lo: u8 = (value & 0xff) as u8;
    assert(value >> 8 == value / 256 && value & 0xff == value % 256) by (bit_vector);
    out.push(hi);
    out.push(lo);
}

/// Appends `value` in network byte order.
pub fn append_u32(out: &mut Vec<u8>, value: u32)
    ensures
        final(out)@ == old(out)@ + u32_be(value),
{
    let b0: u8 = (value >> 24) as u8;
    let b1: u8 = ((value >> 16) & 0xff) as u8;
    let b2: u8 = ((value >> 8) & 0xff) as u8;
    let b3: u8 = (value & 0xff) as u8;
    assert(value >> 24 == value / 0x100_0000 && (value >> 16) & 0xff == value / 0x1_0000 % 256 && (
    value >> 8) & 0xff == value / 0x100 % 256 && value & 0xff == value % 256) by (bit_vector);
    out.push(b0);
    out.push(b1);
    out.push(b2);
    out.push(b3);
}

/// The TTL sent for a time to live of `secs` whole seconds and `subsec_nanos`
/// nanoseconds: the seconds, one more where a fraction is left, and never
/// more than 32 bits hold.
pub open spec fn ttl_seconds(secs: u64, subsec_nanos: u32) -> u32 {
    if secs >= u32::MAX {
        u32::MAX
    } else if subsec_nanos > 0 {
        (secs + 1) as u32
    } else {
        secs as u32
    }
}

/// The TTL sent for a duration.
pub open spec fn duration_ttl(duration: Duration) -> u32 {
    ttl_seconds(duration_secs(duration), duration_subsec_nanos(duration))
}

/// Rounds a time to live up to whole seconds and saturates it at 32 bits.
pub fn secs_to_ttl(secs: u64, subsec_nanos: u32) -> (ttl: u32)
    ensures
        ttl == ttl_seconds(secs, subsec_nanos),
        secs >= 0xFFFF_FFFF ==> ttl == 0xFFFF_FFFF,
        secs < 0xFFFF_FFFF && subsec_nanos > 0 ==> ttl == secs + 1,
        secs < 0xFFFF_FFFF && subsec_nanos == 0 ==> ttl == secs,
{
    let extra: u64 = if subsec_nanos > 0 {
        1
    } else {
        0
    };
    let rounded = secs.saturating_add(extra);
    if rounded >= 0xFFFF_FFFF {
        0xFFFF_FFFF
    } else {
        rounded as u32
    }
}

/// The TTL sent for a duration: its seconds, rounded up where a fraction of
/// a second is left, saturating at `0xFFFF_FFFF`.
pub fn duration_to_secs(duration: Duration) -> (ttl: u32)
    ensures
        ttl == duration_ttl(duration),
{
    secs_to_ttl(duration.as_secs(), duration.subsec_nanos())
}

/// Appends a dotted name: each label as its length and its bytes, then a zero
/// byte. The name is ASCII and each of its labels has 1 to 63 bytes.
pub fn append_qname(out: &mut Vec<u8>, name: &[u8])
    requires
        valid_labels(name@),
    ensures
        final(out)@ == old(out)@ + encode_name(name@),
{
    let n = name.len();
    let mut start: usize = 0;
    assert(name@.skip(0) =~= name@);
    loop
        invariant_except_break
            valid_labels(name@.skip(start as int)),
            old(out)@ + encode_name(name@) == out@ + encode_name(name@.skip(start as int)),
        invariant
            n == name@.len(),
            start <= n,
        ensures
            out@ == old(out)@ + encode_name(name@),
        decreases n - start,
    {
        let ghost rest = name@.skip(start as int);
        let mut end: usize = start;
        while end < n && name[end] != DOT
            invariant
                n == name@.len(),
                start <= end <= n,
                forall|i: int| start <= i < end ==> name@[i] != DOT,
            decreases n - end,
        {
            end += 1;
        }
        proof {
            assert forall|i: int| 0 <= i < end - start implies rest[i] != DOT by {
                assert(rest[i] == name@[start + i]);
            }
            lemma_first_label_is(rest, end - start);
            assert(labels(rest)[0] == rest.take(end - start));
            assert(encode_labels(labels(rest)) == seq![labels(rest)[0].len() as u8] + labels(
                rest,
            )[0] + encode_labels(labels(rest).skip(1)));
            assert(1 <= labels(rest)[0].len() <= MAX_LABEL_LEN);
        }
        let ghost before = out@;
        out.push((end - start) as u8);
        let mut i: usize = start;
        while i < end
            invariant
                n == name@.len(),
                start <= i <= end <= n,
                end - start <= MAX_LABEL_LEN,
                out@ == before.push((end - start) as u8) + name@.subrange(start as int, i as int),
            decreases end - i,
        {
            out.push(name[i]);
            i += 1;
        }
        assert(name@.subrange(start as int, end as int) =~= rest.take(end - start));
        if end == n {
            out.push(0);
            proof {
                assert(labels(rest).skip(1) =~= Seq::<Seq<u8>>::empty());
                assert(out@ =~= before + encode_name(rest));
            }
            break ;
        }
        proof {
            lemma_valid_labels_rest(rest);
            assert(rest.skip(end - start + 1) =~= name@.skip(end + 1));
            assert(labels(rest).skip(1) =~= labels(name@.skip(end + 1)));
            assert(out@ + encode_name(name@.skip(end + 1)) =~= before + encode_name(rest));
        }
        start = end + 1;
    }
}

/// Whether the codec accepts the name: ASCII, every label of 1 to 63 bytes.
pub fn has_valid_labels(name: &[u8]) -> (ok: bool)
    ensures
        ok == valid_labels(name@),
{
    let n = name.len();
    let mut start: usize = 0;
    let mut ok = true;
    assert(name@.skip(0) =~= name@);
    loop
        invariant
            n == name@.len(),
            start <= n,
            valid_labels(name@) <==> valid_labels(name@.skip(start as int)),
        ensures
            ok == valid_labels(name@),
        decreases n - start,
    {
        let ghost rest = name@.skip(start as int);
        let mut end: usize = start;
        let mut ascii = true;
        while end < n && name[end] != DOT
            invariant
                n == name@.len(),
                start <= end <= n,
                forall|i: int| start <= i < end ==> name@[i] != DOT,
                ascii <==> forall|i: int| start <= i < end ==> name@[i] < 128,
            decreases n - end,
        {
            if name[end] >= 128 {
                ascii = false;
            }
            end += 1;
        }
        proof {
            assert forall|i: int| 0 <= i < end - start implies rest[i] != DOT by {
                assert(rest[i] == name@[start + i]);
            }
            lemma_first_label_is(rest, end - start);
            assert(labels(rest)[0] == rest.take(end - start));
            if !ascii {
                let i = choose|i: int| start <= i < end && name@[i] >= 128;
                assert(rest[i - start] == name@[i]);
            }
        }
        if !ascii || end == start || end - start > MAX_LABEL_LEN {
            ok = false;
            break ;
        }
        if end == n {
            proof {
                assert(labels(rest) =~= seq![rest]);
                assert forall|i: int| 0 <= i < rest.len() implies rest[i] < 128 by {
                    assert(rest[i] == name@[start + i]);
                }
            }
            ok = true;
            break ;
        }
        proof {
            let after = name@.skip(end + 1);
            assert(rest.skip(end - start + 1) =~= after);
            assert(labels(rest) =~= seq![rest.take(end - start)] + labels(after));
            if valid_labels(rest) {
                lemma_valid_labels_rest(rest);
            }
            if valid_labels(after) {
                assert forall|i: int| 0 <= i < labels(rest).len() implies 1 <= (#[trigger] labels(
                    rest,
                )[i]).len() <= MAX_LABEL_LEN by {
                    if i > 0 {
                        assert(labels(rest)[i] == labels(after)[i - 1]);
                    }
                }
                assert forall|i: int| 0 <= i < rest.len() implies rest[i] < 128 by {
                    assert(rest[i] == name@[start + i]);
                    if i > end - start {
                        assert(after[i - (end - start) - 1] == rest[i]);
                    } else if i < end - start {
                    } else {
                        assert(rest[i] == DOT);
                    }
                }
            }
        }
        start = end + 1;
    }
    ok
}

/// Whether a packet may carry the name: valid labels, at most 255 bytes.
pub fn is_valid_name(name: &str) -> (ok: bool)
    ensures
        ok == valid_name(name.spec_bytes()),
{
    let bytes = name.as_bytes();
    bytes.len() <= MAX_NAME_LEN && has_valid_labels(bytes)
}

} // verus!
