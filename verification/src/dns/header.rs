//! The fixed twelve-byte header and its bit-packed flags word.

use super::{append_u16, u16_be};
use vstd::prelude::*;

verus! {

/// QR: the message is a response when set.
pub const QR: u16 = 0x8000;

/// AA: authoritative answer.
pub const AA: u16 = 0x0400;

/// TC: truncated.
pub const TC: u16 = 0x0200;

/// RD: recursion desired.
pub const RD: u16 = 0x0100;

/// RA: recursion available.
pub const RA: u16 = 0x0080;

/// The four opcode bits, 11 to 14.
pub const OPCODE_MASK: u16 = 0x7800;

/// The four response-code bits, 0 to 3.
pub const RCODE_MASK: u16 = 0x000f;

/// The three reserved bits, 4 to 6.
pub const Z_MASK: u16 = 0x0070;

/// Kind of query, bits 11 to 14 of the flags word.
#[derive(Debug, Clone, Copy, PartialEq, Eq)]
pub enum OpCode {
    QUERY,
    IQUERY,
    STATUS,
}

impl OpCode {
    pub open spec fn spec_code(self) -> u16 {
        match self {
            OpCode::QUERY => 0,
            OpCode::IQUERY => 2,
            OpCode::STATUS => 3,
        }
    }

    /// The number that stands for this opcode on the wire.
    #[verifier::when_used_as_spec(spec_code)]
    pub fn code(self) -> (c: u16)
        ensures
            c == self.spec_code(),
    {
        match self {
            OpCode::QUERY => 0,
            OpCode::IQUERY => 2,
            OpCode::STATUS => 3,
        }
    }
}

/// Response code, bits 0 to 3 of the flags word.
#[derive(Debug, Clone, Copy, PartialEq, Eq)]
pub enum RCode {
    NoError,
    FormatError,
    ServerFailure,
    NameError,
    NotImplemmented,
    Refused,
}

impl RCode {
    pub open spec fn spec_code(self) -> u16 {
        match self {
            RCode::NoError => 0,
            RCode::FormatError => 1,
            RCode::ServerFailure => 2,
            RCode::NameError => 3,
            RCode::NotImplemmented => 4,
            RCode::Refused => 5,
        }
    }

    /// The number that stands for this response code on the wire.
    #[verifier::when_used_as_spec(spec_code)]
    pub fn code(self) -> (c: u16)
        ensures
            c == self.spec_code(),
    {
        match self {
            RCode::NoError => 0,
            RCode::FormatError => 1,
            RCode::ServerFailure => 2,
            RCode::NameError => 3,
            RCode::NotImplemmented => 4,
            RCode::Refused => 5,
        }
    }
}

/// The flags word with the bits of `mask` set or cleared and every other bit
/// as it was.
pub open spec fn with_flag(flags: u16, mask: u16, set: bool) -> u16 {
    if set {
        flags | mask
    } else {
        flags & !mask
    }
}

/// Whether a bit of `mask` is set in the flags word.
pub open spec fn has_flag(flags: u16, mask: u16) -> bool {
    flags & mask != 0
}

/// The flags word with the bits of `mask` replaced by `value` and every other
/// bit as it was.
pub open spec fn with_field(flags: u16, mask: u16, value: u16) -> u16 {
    (flags & !mask) | value
}

/// Whether the reserved bits of the flags word are zero.
pub open spec fn reserved_zero(flags: u16) -> bool {
    flags & Z_MASK == 0
}

/// What a header holds: the six 16-bit words in the order they are sent.
pub struct HeaderView {
    pub id: u16,
    pub flags: u16,
    pub qd_count: u16,
    pub an_count: u16,
    pub ns_count: u16,
    pub ar_count: u16,
}

/// The twelve bytes of a header.
pub open spec fn header_wire(h: HeaderView) -> Seq<u8> {
    u16_be(h.id) + u16_be(h.flags) + u16_be(h.qd_count) + u16_be(h.an_count) + u16_be(h.ns_count)
        + u16_be(h.ar_count)
}

pub struct PacketHeader {
    id: u16,
    flags: u16,
    qd_count: u16,
    an_count: u16,
    ns_count: u16,
    ar_count: u16,
}

impl View for PacketHeader {
    type V = HeaderView;

    closed spec fn view(&self) -> HeaderView {
        HeaderView {
            id: self.id,
            flags: self.flags,
            qd_count: self.qd_count,
            an_count: self.an_count,
            ns_count: self.ns_count,
            ar_count: self.ar_count,
        }
    }
}

impl Default for PacketHeader {
    /// The header of a query with no sections: every word is zero.
    fn default() -> (h: Self)
        ensures
            h@ == (HeaderView {
                id: 0,
                flags: 0,
                qd_count: 0,
                an_count: 0,
                ns_count: 0,
                ar_count: 0,
            }),
    {
        assert(0u16 & Z_MASK == 0) by (bit_vector);
        PacketHeader { id: 0, flags: 0, qd_count: 0, an_count: 0, ns_count: 0, ar_count: 0 }
    }
}

impl PacketHeader {
    /// The reserved bits are zero in every header.
    #[verifier::type_invariant]
    spec fn reserved_bits_zero(self) -> bool {
        reserved_zero(self.flags)
    }

    pub fn set_id(&mut self, id: u16) -> (r: &mut Self)
        ensures
            r@ == (HeaderView { id, ..old(self)@ }),
            *final(self) == *final(r),
    {
        proof {
            use_type_invariant(&*self);
        }
        self.id = id;
        self
    }

    pub fn id(&self) -> (id: u16)
        ensures
            id == self@.id,
    {
        self.id
    }

    /// Sets the `QR` bit: the message is a response when it is set.
    pub fn set_qr(&mut self, set: bool) -> (r: &mut Self)
        ensures
            r@ == (HeaderView { flags: with_flag(old(self)@.flags, QR, set), ..old(self)@ }),
            *final(self) == *final(r),
    {
        proof {
            use_type_invariant(&*self);
            lemma_reserved_kept(self.flags, 0, 0);
        }
        self.flags = if set {
            self.flags | QR
        } else {
            self.flags & !QR
        };
        self
    }

    pub fn qr(&self) -> (set: bool)
        ensures
            set == has_flag(self@.flags, QR),
    {
        self.flags & QR != 0
    }

    /// Says whether the message is a query (`true`) or a response (`false`):
    /// the `QR` bit is cleared for a query and set for a response. A default
    /// header is a query.
    pub fn set_query(&mut self, set: bool) -> (r: &mut Self)
        ensures
            r@ == (HeaderView { flags: with_flag(old(self)@.flags, QR, !set), ..old(self)@ }),
            *final(self) == *final(r),
    {
        proof {
            use_type_invariant(&*self);
            lemma_reserved_kept(self.flags, 0, 0);
        }
        self.flags = if set {
            self.flags & !QR
        } else {
            self.flags | QR
        };
        self
    }

    /// Whether the message is a query: the `QR` bit is clear.
    pub fn is_query(&self) -> (query: bool)
        ensures
            query == !has_flag(self@.flags, QR),
    {
        self.flags & QR == 0
    }

    pub fn set_opcode(&mut self, code: OpCode) -> (r: &mut Self)
        ensures
            r@ == (HeaderView {
                flags: with_field(old(self)@.flags, OPCODE_MASK, code.spec_code() << 11),
                ..old(self)@
            }),
            *final(self) == *final(r),
    {
        proof {
            use_type_invariant(&*self);
            lemma_reserved_kept(self.flags, code.spec_code(), 0);
        }
        self.flags = (self.flags & !OPCODE_MASK) | (code.code() << 11);
        self
    }

    pub fn set_aa(&mut self, set: bool) -> (r: &mut Self)
        ensures
            r@ == (HeaderView { flags: with_flag(old(self)@.flags, AA, set), ..old(self)@ }),
            *final(self) == *final(r),
    {
        proof {
            use_type_invariant(&*self);
            lemma_reserved_kept(self.flags, 0, 0);
        }
        self.flags = if set {
            self.flags | AA
        } else {
            self.flags & !AA
        };
        self
    }

    pub fn aa(&self) -> (set: bool)
        ensures
            set == has_flag(self@.flags, AA),
    {
        self.flags & AA != 0
    }

    pub fn set_tc(&mut self, set: bool) -> (r: &mut Self)
        ensures
            r@ == (HeaderView { flags: with_flag(old(self)@.flags, TC, set), ..old(self)@ }),
            *final(self) == *final(r),
    {
        proof {
            use_type_invariant(&*self);
            lemma_reserved_kept(self.flags, 0, 0);
        }
        self.flags = if set {
            self.flags | TC
        } else {
            self.flags & !TC
        };
        self
    }

    pub fn tc(&self) -> (set: bool)
        ensures
            set == has_flag(self@.flags, TC),
    {
        self.flags & TC != 0
    }

    pub fn set_rd(&mut self, set: bool) -> (r: &mut Self)
        ensures
            r@ == (HeaderView { flags: with_flag(old(self)@.flags, RD, set), ..old(self)@ }),
            *final(self) == *final(r),
    {
        proof {
            use_type_invariant(&*self);
            lemma_reserved_kept(self.flags, 0, 0);
        }
        self.flags = if set {
            self.flags | RD
        } else {
            self.flags & !RD
        };
        self
    }

    pub fn rd(&self) -> (set: bool)
        ensures
            set == has_flag(self@.flags, RD),
    {
        self.flags & RD != 0
    }

    pub fn set_ra(&mut self, set: bool) -> (r: &mut Self)
        ensures
            r@ == (HeaderView { flags: with_flag(old(self)@.flags, RA, set), ..old(self)@ }),
            *final(self) == *final(r),
    {
        proof {
            use_type_invariant(&*self);
            lemma_reserved_kept(self.flags, 0, 0);
        }
        self.flags = if set {
            self.flags | RA
        } else {
            self.flags & !RA
        };
        self
    }

    pub fn ra(&self) -> (set: bool)
        ensures
            set == has_flag(self@.flags, RA),
    {
        self.flags & RA != 0
    }

    pub fn set_rcode(&mut self, code: RCode) -> (r: &mut Self)
        ensures
            r@ == (HeaderView {
                flags: with_field(old(self)@.flags, RCODE_MASK, code.spec_code()),
                ..old(self)@
            }),
            *final(self) == *final(r),
    {
        proof {
            use_type_invariant(&*self);
            lemma_reserved_kept(self.flags, 0, code.spec_code());
        }
        self.flags = (self.flags & !RCODE_MASK) | code.code();
        self
    }

    pub fn set_an_count(&mut self, count: u16) -> (r: &mut Self)
        ensures
            r@ == (HeaderView { an_count: count, ..old(self)@ }),
            *final(self) == *final(r),
    {
        proof {
            use_type_invariant(&*self);
        }
        self.an_count = count;
        self
    }

    pub fn set_ns_count(&mut self, count: u16) -> (r: &mut Self)
        ensures
            r@ == (HeaderView { ns_count: count, ..old(self)@ }),
            *final(self) == *final(r),
    {
        proof {
            use_type_invariant(&*self);
        }
        self.ns_count = count;
        self
    }

    pub fn set_ar_count(&mut self, count: u16) -> (r: &mut Self)
        ensures
            r@ == (HeaderView { ar_count: count, ..old(self)@ }),
            *final(self) == *final(r),
    {
        proof {
            use_type_invariant(&*self);
        }
        self.ar_count = count;
        self
    }

    pub fn qd_count(&self) -> (count: u16)
        ensures
            count == self@.qd_count,
    {
        self.qd_count
    }

    /// The number of answers, read without giving the header up.
    pub fn an_count_of(&self) -> (count: u16)
        ensures
            count == self@.an_count,
    {
        self.an_count
    }

    /// The number of authority records, read without giving the header up.
    pub fn ns_count_of(&self) -> (count: u16)
        ensures
            count == self@.ns_count,
    {
        self.ns_count
    }

    /// The number of additional records, read without giving the header up.
    pub fn ar_count_of(&self) -> (count: u16)
        ensures
            count == self@.ar_count,
    {
        self.ar_count
    }

    pub fn an_count(self) -> (count: u16)
        ensures
            count == self@.an_count,
    {
        self.an_count
    }

    pub fn ns_count(self) -> (count: u16)
        ensures
            count == self@.ns_count,
    {
        self.ns_count
    }

    pub fn ar_count(self) -> (count: u16)
        ensures
            count == self@.ar_count,
    {
        self.ar_count
    }

    /// The number of bytes a header takes on the wire.
    pub fn byte_size(&self) -> (n: usize)
        ensures
            n == 12,
            n == header_wire(self@).len(),
    {
        12
    }

    /// Counts one more question.
    pub(crate) fn count_question(&mut self)
        requires
            old(self)@.qd_count < u16::MAX,
        ensures
            final(self)@ == (HeaderView {
                qd_count: (old(self)@.qd_count + 1) as u16,
                ..old(self)@
            }),
    {
        proof {
            use_type_invariant(&*self);
        }
        self.qd_count = self.qd_count + 1;
    }

    /// Counts one more answer.
    pub(crate) fn count_answer(&mut self)
        requires
            old(self)@.an_count < u16::MAX,
        ensures
            final(self)@ == (HeaderView {
                an_count: (old(self)@.an_count + 1) as u16,
                ..old(self)@
            }),
    {
        proof {
            use_type_invariant(&*self);
        }
        self.an_count = self.an_count + 1;
    }

    /// The flags word. Its reserved bits are zero.
    pub fn flags(&self) -> (flags: u16)
        ensures
            flags == self@.flags,
            reserved_zero(flags),
    {
        proof {
            use_type_invariant(self);
        }
        self.flags
    }

    /// Appends the twelve bytes of the header: id, flags and the four section
    /// counts, each most significant byte first. The reserved bits of the
    /// flags are zero.
    pub fn append_bytes(&self, out: &mut Vec<u8>)
        ensures
            final(out)@ == old(out)@ + header_wire(self@),
            reserved_zero(self@.flags),
    {
        proof {
            use_type_invariant(self);
        }
        append_u16(out, self.id);
        append_u16(out, self.flags);
        append_u16(out, self.qd_count);
        append_u16(out, self.an_count);
        append_u16(out, self.ns_count);
        append_u16(out, self.ar_count);
    }
}

/// Setting or clearing a flag, or replacing the opcode or the response
/// code, leaves the reserved bits zero.
proof fn lemma_reserved_kept(flags: u16, opcode: u16, rcode: u16)
    requires
        reserved_zero(flags),
        opcode <= 3,
        rcode <= 5,
    ensures
        reserved_zero(flags | QR) && reserved_zero(flags & !QR),
        reserved_zero(flags | AA) && reserved_zero(flags & !AA),
        reserved_zero(flags | TC) && reserved_zero(flags & !TC),
        reserved_zero(flags | RD) && reserved_zero(flags & !RD),
        reserved_zero(flags | RA) && reserved_zero(flags & !RA),
        reserved_zero((flags & !OPCODE_MASK) | (opcode << 11)),
        reserved_zero((flags & !RCODE_MASK) | rcode),
{
    assert(flags & 0x0070 == 0 && opcode <= 3 && rcode <= 5 ==> (flags | 0x8000) & 0x0070 == 0 && (
    flags & !0x8000) & 0x0070 == 0 && (flags | 0x0400) & 0x0070 == 0 && (flags & !0x0400) & 0x0070
        == 0 && (flags | 0x0200) & 0x0070 == 0 && (flags & !0x0200) & 0x0070 == 0 && (flags
        | 0x0100) & 0x0070 == 0 && (flags & !0x0100) & 0x0070 == 0 && (flags | 0x0080) & 0x0070
        == 0 && (flags & !0x0080) & 0x0070 == 0 && ((flags & !0x7800) | (opcode << 11)) & 0x0070
        == 0 && ((flags & !0x000f) | rcode) & 0x0070 == 0) by (bit_vector);
}

/// Setting a flag twice to the same value is setting it once.
pub proof fn lemma_flag_idempotent(flags: u16, mask: u16, set: bool)
    ensures
        with_flag(with_flag(flags, mask, set), mask, set) == with_flag(flags, mask, set),
{
    assert((flags | mask) | mask == flags | mask && (flags & !mask) & !mask == flags & !mask)
        by (bit_vector);
}

/// Setting or clearing a flag changes the bits of its mask and no other bit,
/// and the flag then reads back as it was set.
pub proof fn lemma_flag_exact(flags: u16, mask: u16, set: bool)
    requires
        mask != 0,
    ensures
        with_flag(flags, mask, set) & !mask == flags & !mask,
        set ==> with_flag(flags, mask, set) & mask == mask,
        !set ==> with_flag(flags, mask, set) & mask == 0,
        has_flag(with_flag(flags, mask, set), mask) == set,
{
    assert((flags | mask) & !mask == flags & !mask && (flags & !mask) & !mask == flags & !mask && (
    flags | mask) & mask == mask && (flags & !mask) & mask == 0) by (bit_vector);
}

/// A flag set through one mask is read unchanged through a mask that shares
/// no bit with it.
pub proof fn lemma_flag_independent(flags: u16, mask: u16, other: u16, set: bool)
    requires
        mask & other == 0,
    ensures
        has_flag(with_flag(flags, mask, set), other) == has_flag(flags, other),
        with_flag(flags, mask, set) & other == flags & other,
{
    assert(mask & other == 0 ==> (flags | mask) & other == flags & other && (flags & !mask) & other
        == flags & other) by (bit_vector);
}

} // verus!
