//! The types and classes of records and questions, with the numbers that
//! stand for them on the wire.

use vstd::prelude::*;

verus! {

/// The type of a resource record.
#[derive(Debug, Copy, Clone, PartialEq, Eq)]
pub enum RRType {
    A,
    NS,
    MD,
    MF,
    CNAME,
    SOA,
    MB,
    MG,
    MR,
    NULL,
    WKS,
    PTR,
    HINFO,
    MINFO,
    MX,
    TXT,
    AAAA,
    SRV,
}

impl RRType {
    pub open spec fn spec_code(self) -> u16 {
        match self {
            RRType::A => 0x1,
            RRType::NS => 0x2,
            RRType::MD => 0x3,
            RRType::MF => 0x4,
            RRType::CNAME => 0x5,
            RRType::SOA => 0x6,
            RRType::MB => 0x7,
            RRType::MG => 0x8,
            RRType::MR => 0x9,
            RRType::NULL => 0xA,
            RRType::WKS => 0xB,
            RRType::PTR => 0xC,
            RRType::HINFO => 0xD,
            RRType::MINFO => 0xE,
            RRType::MX => 0xF,
            RRType::TXT => 0x10,
            RRType::AAAA => 0x1c,
            RRType::SRV => 0x21,
        }
    }

    /// The number that stands for this type on the wire.
    #[verifier::when_used_as_spec(spec_code)]
    pub fn code(self) -> (c: u16)
        ensures
            c == self.spec_code(),
    {
        match self {
            RRType::A => 0x1,
            RRType::NS => 0x2,
            RRType::MD => 0x3,
            RRType::MF => 0x4,
            RRType::CNAME => 0x5,
            RRType::SOA => 0x6,
            RRType::MB => 0x7,
            RRType::MG => 0x8,
            RRType::MR => 0x9,
            RRType::NULL => 0xA,
            RRType::WKS => 0xB,
            RRType::PTR => 0xC,
            RRType::HINFO => 0xD,
            RRType::MINFO => 0xE,
            RRType::MX => 0xF,
            RRType::TXT => 0x10,
            RRType::AAAA => 0x1c,
            RRType::SRV => 0x21,
        }
    }
}

/// The class of a resource record, in the older naming.
#[derive(Debug, Copy, Clone, PartialEq, Eq)]
pub enum QClass {
    IN,
    CS,
    CH,
    HS,
}

impl QClass {
    pub open spec fn spec_code(self) -> u16 {
        match self {
            QClass::IN => 0x1,
            QClass::CS => 0x2,
            QClass::CH => 0x3,
            QClass::HS => 0x4,
        }
    }

    /// The number that stands for this class on the wire.
    #[verifier::when_used_as_spec(spec_code)]
    pub fn code(self) -> (c: u16)
        ensures
            c == self.spec_code(),
    {
        match self {
            QClass::IN => 0x1,
            QClass::CS => 0x2,
            QClass::CH => 0x3,
            QClass::HS => 0x4,
        }
    }
}

/// The class of a resource record.
#[derive(Debug, Copy, Clone, PartialEq, Eq)]
pub enum Class {
    IN,
    CS,
    CH,
    HS,
}

impl Class {
    pub open spec fn spec_code(self) -> u16 {
        match self {
            Class::IN => 1,
            Class::CS => 2,
            Class::CH => 3,
            Class::HS => 4,
        }
    }

    /// The number that stands for this class on the wire.
    #[verifier::when_used_as_spec(spec_code)]
    pub fn code(self) -> (c: u16)
        ensures
            c == self.spec_code(),
    {
        match self {
            Class::IN => 1,
            Class::CS => 2,
            Class::CH => 3,
            Class::HS => 4,
        }
    }
}

/// The class a question asks for.
#[derive(Debug, Copy, Clone, PartialEq, Eq)]
pub enum QueryClass {
    IN,
    CS,
    CH,
    HS,
    Any,
}

impl QueryClass {
    pub open spec fn spec_code(self) -> u16 {
        match self {
            QueryClass::IN => 1,
            QueryClass::CS => 2,
            QueryClass::CH => 3,
            QueryClass::HS => 4,
            QueryClass::Any => 255,
        }
    }

    /// The class that `code` stands for, if any.
    pub open spec fn spec_from_code(code: u16) -> Option<QueryClass> {
        if code == 1 {
            Some(QueryClass::IN)
        } else if code == 2 {
            Some(QueryClass::CS)
        } else if code == 3 {
            Some(QueryClass::CH)
        } else if code == 4 {
            Some(QueryClass::HS)
        } else if code == 255 {
            Some(QueryClass::Any)
        } else {
            None
        }
    }

    /// The number that stands for this class on the wire.
    #[verifier::when_used_as_spec(spec_code)]
    pub fn code(self) -> (c: u16)
        ensures
            c == self.spec_code(),
    {
        match self {
            QueryClass::IN => 1,
            QueryClass::CS => 2,
            QueryClass::CH => 3,
            QueryClass::HS => 4,
            QueryClass::Any => 255,
        }
    }

    /// The class that `code` stands for; `None` where it stands for none.
    pub fn from_code(code: u16) -> (class: Option<QueryClass>)
        ensures
            class == QueryClass::spec_from_code(code),
            class matches Some(c) ==> c.spec_code() == code,
    {
        if code == 1 {
            Some(QueryClass::IN)
        } else if code == 2 {
            Some(QueryClass::CS)
        } else if code == 3 {
            Some(QueryClass::CH)
        } else if code == 4 {
            Some(QueryClass::HS)
        } else if code == 255 {
            Some(QueryClass::Any)
        } else {
            None
        }
    }
}

/// The type of record a question asks for.
#[derive(Debug, Copy, Clone, PartialEq, Eq)]
pub enum QueryType {
    A,
    NS,
    MF,
    CNAME,
    SOA,
    MB,
    MG,
    MR,
    NULL,
    WKS,
    PTR,
    HINFO,
    MINFO,
    MX,
    TXT,
    AAAA,
    SRV,
    AXFR,
    MAILB,
    MAILA,
    All,
}

impl QueryType {
    pub open spec fn spec_code(self) -> u16 {
        match self {
            QueryType::A => 1,
            QueryType::NS => 2,
            QueryType::MF => 4,
            QueryType::CNAME => 5,
            QueryType::SOA => 6,
            QueryType::MB => 7,
            QueryType::MG => 8,
            QueryType::MR => 9,
            QueryType::NULL => 10,
            QueryType::WKS => 11,
            QueryType::PTR => 12,
            QueryType::HINFO => 13,
            QueryType::MINFO => 14,
            QueryType::MX => 15,
            QueryType::TXT => 16,
            QueryType::AAAA => 28,
            QueryType::SRV => 33,
            QueryType::AXFR => 252,
            QueryType::MAILB => 253,
            QueryType::MAILA => 254,
            QueryType::All => 255,
        }
    }

    /// The type that `code` stands for, if any.
    pub open spec fn spec_from_code(code: u16) -> Option<QueryType> {
        if code == 1 {
            Some(QueryType::A)
        } else if code == 2 {
            Some(QueryType::NS)
        } else if code == 4 {
            Some(QueryType::MF)
        } else if code == 5 {
            Some(QueryType::CNAME)
        } else if code == 6 {
            Some(QueryType::SOA)
        } else if code == 7 {
            Some(QueryType::MB)
        } else if code == 8 {
            Some(QueryType::MG)
        } else if code == 9 {
            Some(QueryType::MR)
        } else if code == 10 {
            Some(QueryType::NULL)
        } else if code == 11 {
            Some(QueryType::WKS)
        } else if code == 12 {
            Some(QueryType::PTR)
        } else if code == 13 {
            Some(QueryType::HINFO)
        } else if code == 14 {
            Some(QueryType::MINFO)
        } else if code == 15 {
            Some(QueryType::MX)
        } else if code == 16 {
            Some(QueryType::TXT)
        } else if code == 28 {
            Some(QueryType::AAAA)
        } else if code == 33 {
            Some(QueryType::SRV)
        } else if code == 252 {
            Some(QueryType::AXFR)
        } else if code == 253 {
            Some(QueryType::MAILB)
        } else if code == 254 {
            Some(QueryType::MAILA)
        } else if code == 255 {
            Some(QueryType::All)
        } else {
            None
        }
    }

    /// The number that stands for this type on the wire.
    #[verifier::when_used_as_spec(spec_code)]
    pub fn code(self) -> (c: u16)
        ensures
            c == self.spec_code(),
    {
        match self {
            QueryType::A => 1,
            QueryType::NS => 2,
            QueryType::MF => 4,
            QueryType::CNAME => 5,
            QueryType::SOA => 6,
            QueryType::MB => 7,
            QueryType::MG => 8,
            QueryType::MR => 9,
            QueryType::NULL => 10,
            QueryType::WKS => 11,
            QueryType::PTR => 12,
            QueryType::HINFO => 13,
            QueryType::MINFO => 14,
            QueryType::MX => 15,
            QueryType::TXT => 16,
            QueryType::AAAA => 28,
            QueryType::SRV => 33,
            QueryType::AXFR => 252,
            QueryType::MAILB => 253,
            QueryType::MAILA => 254,
            QueryType::All => 255,
        }
    }

    /// The type that `code` stands for; `None` where it stands for none.
    pub fn from_code(code: u16) -> (qtype: Option<QueryType>)
        ensures
            qtype == QueryType::spec_from_code(code),
            qtype matches Some(t) ==> t.spec_code() == code,
    {
        if code == 1 {
            Some(QueryType::A)
        } else if code == 2 {
            Some(QueryType::NS)
        } else if code == 4 {
            Some(QueryType::MF)
        } else if code == 5 {
            Some(QueryType::CNAME)
        } else if code == 6 {
            Some(QueryType::SOA)
        } else if code == 7 {
            Some(QueryType::MB)
        } else if code == 8 {
            Some(QueryType::MG)
        } else if code == 9 {
            Some(QueryType::MR)
        } else if code == 10 {
            Some(QueryType::NULL)
        } else if code == 11 {
            Some(QueryType::WKS)
        } else if code == 12 {
            Some(QueryType::PTR)
        } else if code == 13 {
            Some(QueryType::HINFO)
        } else if code == 14 {
            Some(QueryType::MINFO)
        } else if code == 15 {
            Some(QueryType::MX)
        } else if code == 16 {
            Some(QueryType::TXT)
        } else if code == 28 {
            Some(QueryType::AAAA)
        } else if code == 33 {
            Some(QueryType::SRV)
        } else if code == 252 {
            Some(QueryType::AXFR)
        } else if code == 253 {
            Some(QueryType::MAILB)
        } else if code == 254 {
            Some(QueryType::MAILA)
        } else if code == 255 {
            Some(QueryType::All)
        } else {
            None
        }
    }
}

/// A type or class read back from its own number is itself.
pub proof fn lemma_code_round_trip(qtype: QueryType, qclass: QueryClass)
    ensures
        QueryType::spec_from_code(qtype.spec_code()) == Some(qtype),
        QueryClass::spec_from_code(qclass.spec_code()) == Some(qclass),
{
}

} // verus!
