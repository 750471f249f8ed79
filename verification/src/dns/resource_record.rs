//! A record of the answer section: name, type, class, TTL and data.

use super::enums::Class;
use super::name::{
    decode_labels, encode_name, labels, lemma_encode_name_len, lemma_name_round_trip_before,
    valid_name,
};
use super::rdata::a::Record as A;
use super::rdata::aaaa::Record as AAAA;
use super::rdata::ptr::Record as Ptr;
use super::rdata::srv::Record as Srv;
use super::rdata::txt::Record as Txt;
use super::rdata::txt::MAX_RDATA_LEN;
use super::traits::AppendBytes;
use super::{
    append_qname, append_u16, append_u32, duration_to_secs, duration_ttl, lemma_be_round_trip,
    u16_be, u16_from_be, u32_be, u32_from_be,
};
use std::time::Duration;
use vstd::prelude::*;
use vstd::string::StringSliceAdditionalSpecFns;

verus! {

/// The bit of the class word that asks the receiver to drop what it had
/// cached under the record's name and type.
pub const CACHE_FLUSH: u16 = 0x8000;

/// The time to live a record gets where none is given, in seconds.
pub const DEFAULT_TTL_SECS: u64 = 4500;

/// The data of a record.
#[derive(Debug)]
pub enum RData<'a> {
    A(A),
    AAAA(AAAA),
    PTR(Ptr<'a>),
    SRV(Srv<'a>),
    TXT(Txt<'a>),
}

impl<'a> RData<'a> {
    pub fn ptr(ptr: &'a str) -> (data: Self)
        ensures
            data == RData::PTR(Ptr(ptr)),
    {
        Self::PTR(Ptr(ptr))
    }

    /// An IPv4 address, given by its four octets.
    pub fn a(addr: [u8; 4]) -> (data: Self)
        ensures
            data == RData::<'a>::A(A(addr)),
    {
        Self::A(A(addr))
    }

    /// An IPv6 address, given by its sixteen octets.
    pub fn aaaa(addr: [u8; 16]) -> (data: Self)
        ensures
            data == RData::<'a>::AAAA(AAAA(addr)),
    {
        Self::AAAA(AAAA(addr))
    }

    pub fn srv(port: u16, priority: u16, weight: u16, target: &'a str) -> (data: Self)
        ensures
            data == RData::SRV(Srv { port, weight, priority, target }),
    {
        Self::SRV(Srv { port, weight, priority, target })
    }

    pub fn txt(txt: &'a [&'a str]) -> (data: Self)
        ensures
            data == RData::TXT(Txt(txt)),
    {
        Self::TXT(Txt(txt))
    }

    /// The number that stands for the kind of data.
    pub open spec fn spec_code(&self) -> u16 {
        match self {
            RData::A(_) => 1,
            RData::AAAA(_) => 28,
            RData::PTR(_) => 12,
            RData::SRV(_) => 33,
            RData::TXT(_) => 16,
        }
    }

    /// The number that stands for the kind of data in the type field.
    pub fn code(&self) -> (code: u16)
        ensures
            code == self.spec_code(),
    {
        match self {
            RData::A(_) => A::TYPE as u16,
            RData::AAAA(_) => AAAA::TYPE as u16,
            RData::PTR(_) => Ptr::TYPE as u16,
            RData::SRV(_) => Srv::TYPE as u16,
            RData::TXT(_) => Txt::TYPE as u16,
        }
    }

    /// Whether the data belongs to one host alone, so that the record is
    /// sent with the cache-flush bit unless told otherwise. A PTR record is
    /// shared between the hosts that offer the service.
    pub open spec fn spec_unique(&self) -> bool {
        !(self is PTR)
    }

    /// Whether the data belongs to one host alone.
    pub fn unique(&self) -> (unique: bool)
        ensures
            unique == self.spec_unique(),
    {
        match self {
            RData::PTR(_) => false,
            _ => true,
        }
    }
}

impl AppendBytes for RData<'_> {
    open spec fn wire(&self) -> Seq<u8> {
        match self {
            RData::A(data) => data.wire(),
            RData::AAAA(data) => data.wire(),
            RData::PTR(data) => data.wire(),
            RData::SRV(data) => data.wire(),
            RData::TXT(data) => data.wire(),
        }
    }

    open spec fn encodable(&self) -> bool {
        match self {
            RData::A(data) => data.encodable(),
            RData::AAAA(data) => data.encodable(),
            RData::PTR(data) => data.encodable(),
            RData::SRV(data) => data.encodable(),
            RData::TXT(data) => data.encodable(),
        }
    }

    fn append_bytes(&self, out: &mut Vec<u8>) {
        match self {
            RData::A(data) => data.append_bytes(out),
            RData::AAAA(data) => data.append_bytes(out),
            RData::PTR(data) => data.append_bytes(out),
            RData::SRV(data) => data.append_bytes(out),
            RData::TXT(data) => data.append_bytes(out),
        }
    }
}

/// Data that can be sent never takes more than the length field can say.
pub proof fn lemma_rdata_len(data: &RData)
    requires
        data.encodable(),
    ensures
        1 <= data.wire().len() <= MAX_RDATA_LEN,
{
    match data {
        RData::A(d) => {},
        RData::AAAA(d) => {},
        RData::PTR(d) => {
            lemma_encode_name_len(d.0.spec_bytes());
        },
        RData::SRV(d) => {
            lemma_encode_name_len(d.target.spec_bytes());
        },
        RData::TXT(d) => {
            let entries = super::rdata::txt::entry_bytes(d.0@);
            if entries.len() > 0 {
                assert(super::rdata::txt::strings_wire(entries).len() >= 1);
            }
        },
    }
}

/// The length of the data in two bytes, then the data.
pub open spec fn framed(data: Seq<u8>) -> Seq<u8> {
    u16_be(data.len() as u16) + data
}

/// Appends the length of the data and the data. Two bytes are kept free, the
/// data is written behind them, and the length that was written is then put
/// into the two bytes.
pub fn append_data<T: AppendBytes>(out: &mut Vec<u8>, data: &T)
    requires
        data.encodable(),
        data.wire().len() <= MAX_RDATA_LEN,
    ensures
        final(out)@ == old(out)@ + framed(data.wire()),
{
    let idx = out.len();
    append_u16(out, 0);
    data.append_bytes(out);
    let len = out.len() - idx - 2;
    let hi: u8 = ((len >> 8) & 0xff) as u8;
    let lo: u8 = (len & 0xff) as u8;
    assert(len <= 0xffff ==> (len >> 8) & 0xff == len / 256 && len & 0xff == len % 256)
        by (bit_vector);
    out[idx] = hi;
    out[idx + 1] = lo;
    assert(out@ =~= old(out)@ + framed(data.wire()));
}

/// What a record says, as it is sent.
pub struct RecordView<'a> {
    /// The bytes of the dotted name.
    pub name: Seq<u8>,
    /// The time to live in whole seconds.
    pub ttl: u32,
    pub class: Class,
    /// Whether the class word carries the cache-flush bit.
    pub cache_flush: bool,
    pub data: RData<'a>,
}

/// The class word: the class, and the cache-flush bit above it.
pub open spec fn class_word(class: Class, cache_flush: bool) -> u16 {
    if cache_flush {
        (class.spec_code() + CACHE_FLUSH) as u16
    } else {
        class.spec_code()
    }
}

/// The bytes of a record: name, type, class word, TTL, length of the data,
/// data.
pub open spec fn record_wire(r: RecordView) -> Seq<u8> {
    encode_name(r.name) + u16_be(r.data.spec_code()) + u16_be(class_word(r.class, r.cache_flush))
        + u32_be(r.ttl) + framed(r.data.wire())
}

/// Whether a record can be sent: its name is valid and its data fits.
pub open spec fn record_encodable(r: RecordView) -> bool {
    valid_name(r.name) && r.data.encodable()
}

/// Whether every name of a record is one the codec accepts: the record's
/// own, and the one in the data of a PTR or SRV record.
pub open spec fn record_names_valid(r: RecordView) -> bool {
    valid_name(r.name) && (r.data is TXT || r.data.encodable())
}

/// Where the fields of a sent record stand, and that each reads back as it
/// was given. The name is read back label by label and ends where the fixed
/// fields begin; type, class word and TTL follow; the class is the class
/// word without the cache-flush bit; the two bytes at the length position
/// say how many bytes lie between them and the end of the record, and those
/// bytes are the data.
pub proof fn lemma_record_layout(r: RecordView)
    requires
        record_encodable(r),
    ensures
        ({
            let wire = record_wire(r);
            let n = encode_name(r.name).len() as int;
            &&& wire.len() == n + 10 + r.data.wire().len()
            &&& decode_labels(wire) == Some((labels(r.name), n as nat))
            &&& u16_from_be(wire.subrange(n, n + 2)) == r.data.spec_code()
            &&& u16_from_be(wire.subrange(n + 2, n + 4)) == class_word(r.class, r.cache_flush)
            &&& class_word(r.class, r.cache_flush) % 0x8000 == r.class.spec_code()
            &&& (class_word(r.class, r.cache_flush) >= 0x8000) == r.cache_flush
            &&& u32_from_be(wire.subrange(n + 4, n + 8)) == r.ttl
            &&& u16_from_be(wire.subrange(n + 8, n + 10)) == wire.len() - (n + 10)
            &&& wire.subrange(n + 10, wire.len() as int) == r.data.wire()
        }),
{
    let wire = record_wire(r);
    let name = encode_name(r.name);
    let n = name.len() as int;
    let data = r.data.wire();
    lemma_rdata_len(&r.data);
    lemma_be_round_trip(r.data.spec_code(), r.ttl);
    lemma_be_round_trip(class_word(r.class, r.cache_flush), r.ttl);
    lemma_be_round_trip(data.len() as u16, r.ttl);
    let tail = u16_be(r.data.spec_code()) + u16_be(class_word(r.class, r.cache_flush)) + u32_be(
        r.ttl,
    ) + framed(data);
    assert(wire =~= name + tail);
    lemma_name_round_trip_before(r.name, tail);
    assert(wire.subrange(n, n + 2) =~= u16_be(r.data.spec_code()));
    assert(wire.subrange(n + 2, n + 4) =~= u16_be(class_word(r.class, r.cache_flush)));
    assert(wire.subrange(n + 4, n + 8) =~= u32_be(r.ttl));
    assert(wire.subrange(n + 8, n + 10) =~= u16_be(data.len() as u16));
    assert(wire.subrange(n + 10, wire.len() as int) =~= data);
}

#[derive(Debug)]
pub struct ResourceRecord<'a> {
    pub(crate) name: &'a str,
    pub(crate) ttl: Duration,
    pub(crate) class: Class,
    pub(crate) cache_flush: bool,
    pub(crate) data: RData<'a>,
}

impl<'a> View for ResourceRecord<'a> {
    type V = RecordView<'a>;

    closed spec fn view(&self) -> RecordView<'a> {
        RecordView {
            name: self.name.spec_bytes(),
            ttl: duration_ttl(self.ttl),
            class: self.class,
            cache_flush: self.cache_flush,
            data: self.data,
        }
    }
}

impl<'a> ResourceRecord<'a> {
    /// A record of the given name, time to live, class and data. It carries
    /// the cache-flush bit if its data belongs to one host alone.
    pub fn new(name: &'a str, ttl: Duration, class: Class, data: RData<'a>) -> (r: Self)
        ensures
            r@ == (RecordView {
                name: name.spec_bytes(),
                ttl: duration_ttl(ttl),
                class,
                cache_flush: data.spec_unique(),
                data,
            }),
    {
        let cache_flush = data.unique();
        Self { name, ttl, class, cache_flush, data }
    }

    /// A record of class `IN` that lives for 4500 seconds.
    #[allow(non_snake_case)]
    pub fn IN(name: &'a str, data: RData<'a>) -> (r: Self)
        ensures
            r@ == (RecordView {
                name: name.spec_bytes(),
                ttl: 4500,
                class: Class::IN,
                cache_flush: data.spec_unique(),
                data,
            }),
    {
        Self::new(name, Duration::from_secs(DEFAULT_TTL_SECS), Class::IN, data)
    }

    /// A record of class `CS` that lives for 4500 seconds.
    #[allow(non_snake_case)]
    pub fn CS(name: &'a str, data: RData<'a>) -> (r: Self)
        ensures
            r@ == (RecordView {
                name: name.spec_bytes(),
                ttl: 4500,
                class: Class::CS,
                cache_flush: data.spec_unique(),
                data,
            }),
    {
        Self::new(name, Duration::from_secs(DEFAULT_TTL_SECS), Class::CS, data)
    }

    /// A record of class `HS` that lives for 4500 seconds.
    #[allow(non_snake_case)]
    pub fn HS(name: &'a str, data: RData<'a>) -> (r: Self)
        ensures
            r@ == (RecordView {
                name: name.spec_bytes(),
                ttl: 4500,
                class: Class::HS,
                cache_flush: data.spec_unique(),
                data,
            }),
    {
        Self::new(name, Duration::from_secs(DEFAULT_TTL_SECS), Class::HS, data)
    }

    /// A record of class `CH` that lives for 4500 seconds.
    #[allow(non_snake_case)]
    pub fn CH(name: &'a str, data: RData<'a>) -> (r: Self)
        ensures
            r@ == (RecordView {
                name: name.spec_bytes(),
                ttl: 4500,
                class: Class::CH,
                cache_flush: data.spec_unique(),
                data,
            }),
    {
        Self::new(name, Duration::from_secs(DEFAULT_TTL_SECS), Class::CH, data)
    }

    pub fn set_ttl(self, ttl: Duration) -> (r: Self)
        ensures
            r@ == (RecordView { ttl: duration_ttl(ttl), ..self@ }),
    {
        let mut record = self;
        record.ttl = ttl;
        record
    }

    /// Says whether the record is sent with the cache-flush bit.
    pub fn set_cache_flush(self, cache_flush: bool) -> (r: Self)
        ensures
            r@ == (RecordView { cache_flush, ..self@ }),
    {
        let mut record = self;
        record.cache_flush = cache_flush;
        record
    }

    /// Whether the record can be sent: its name is valid, so is each name in
    /// its data, and the strings of a TXT record fit.
    pub fn is_encodable(&self) -> (ok: bool)
        ensures
            ok == record_encodable(self@),
    {
        super::is_valid_name(self.name) && match &self.data {
            RData::A(_) => true,
            RData::AAAA(_) => true,
            RData::PTR(d) => super::is_valid_name(d.0),
            RData::SRV(d) => super::is_valid_name(d.target),
            RData::TXT(d) => super::rdata::txt::entries_fit(d.0),
        }
    }

    /// Whether every name of the record is valid.
    pub fn has_valid_names(&self) -> (ok: bool)
        ensures
            ok == record_names_valid(self@),
    {
        super::is_valid_name(self.name) && match &self.data {
            RData::PTR(d) => super::is_valid_name(d.0),
            RData::SRV(d) => super::is_valid_name(d.target),
            _ => true,
        }
    }

    /// Whether the data is a TXT record whose strings do not fit.
    pub fn txt_too_long(&self) -> (too_long: bool)
        ensures
            too_long == (self@.data is TXT && !self@.data.encodable()),
    {
        match &self.data {
            RData::TXT(d) => !super::rdata::txt::entries_fit(d.0),
            _ => false,
        }
    }
}

impl<'a> AppendBytes for ResourceRecord<'a> {
    open spec fn wire(&self) -> Seq<u8> {
        record_wire(self@)
    }

    open spec fn encodable(&self) -> bool {
        record_encodable(self@)
    }

    fn append_bytes(&self, out: &mut Vec<u8>) {
        append_qname(out, self.name.as_bytes());
        append_u16(out, self.data.code());
        let class = if self.cache_flush {
            self.class.code() + CACHE_FLUSH
        } else {
            self.class.code()
        };
        append_u16(out, class);
        let ttl_secs = duration_to_secs(self.ttl);
        append_u32(out, ttl_secs);
        proof {
            lemma_rdata_len(&self.data);
        }
        append_data(out, &self.data);
        assert(out@ =~= old(out)@ + record_wire(self@));
    }
}

} // verus!
