//! Answers given by their kind, and the TXT record written on its own.

use super::enums::{Class, QClass, RRType};
use super::error::MdnsResponseError;
use super::name::{encode_name, lemma_encode_name_len, valid_labels};
use super::rdata::txt::{
    entries_fit, entry_bytes, strings_wire, txt_fits, txt_wire, Record as Txt, MAX_RDATA_LEN,
};
use super::resource_record::{
    framed, lemma_rdata_len, record_encodable, record_wire, RData, RecordView, ResourceRecord,
    append_data, CACHE_FLUSH,
};
use super::traits::AppendBytes;
use super::{append_qname, append_u16, append_u32, duration_ttl, u16_be, u32_be};
use std::time::Duration;
use vstd::prelude::*;
use vstd::string::StringSliceAdditionalSpecFns;

verus! {

/// An answer of class `IN`, given by its kind. PTR and TXT answers are sent
/// with the cache-flush bit, SRV and A answers without it.
pub enum Answer<'a> {
    PTR { name: &'a str, ptr: &'a str, ttl: Duration },
    SRV { port: u16, priority: u16, weight: u16, target: &'a str, ttl: Duration, name: &'a str },
    A { addr: [u8; 4], name: &'a str, ttl: Duration },
    TXT { entries: &'a [&'a str], ttl: Duration, name: &'a str },
}

impl<'a> View for Answer<'a> {
    type V = RecordView<'a>;

    /// The record that the answer stands for.
    open spec fn view(&self) -> RecordView<'a> {
        match *self {
            Answer::PTR { name, ptr, ttl } => RecordView {
                name: name.spec_bytes(),
                ttl: duration_ttl(ttl),
                class: Class::IN,
                cache_flush: true,
                data: RData::PTR(super::rdata::ptr::Record(ptr)),
            },
            Answer::SRV { port, priority, weight, target, ttl, name } => RecordView {
                name: name.spec_bytes(),
                ttl: duration_ttl(ttl),
                class: Class::IN,
                cache_flush: false,
                data: RData::SRV(super::rdata::srv::Record { port, weight, priority, target }),
            },
            Answer::A { addr, name, ttl } => RecordView {
                name: name.spec_bytes(),
                ttl: duration_ttl(ttl),
                class: Class::IN,
                cache_flush: false,
                data: RData::A(super::rdata::a::Record(addr)),
            },
            Answer::TXT { entries, ttl, name } => RecordView {
                name: name.spec_bytes(),
                ttl: duration_ttl(ttl),
                class: Class::IN,
                cache_flush: true,
                data: RData::TXT(Txt(entries)),
            },
        }
    }
}

impl<'a> Answer<'a> {
    /// The answer as a record.
    pub fn into_record(self) -> (r: ResourceRecord<'a>)
        ensures
            r@ == self@,
    {
        match self {
            Answer::PTR { name, ptr, ttl } => ResourceRecord::new(
                name,
                ttl,
                Class::IN,
                RData::ptr(ptr),
            ).set_cache_flush(true),
            Answer::SRV { port, priority, weight, target, ttl, name } => ResourceRecord::new(
                name,
                ttl,
                Class::IN,
                RData::srv(port, priority, weight, target),
            ).set_cache_flush(false),
            Answer::A { addr, name, ttl } => ResourceRecord::new(
                name,
                ttl,
                Class::IN,
                RData::a(addr),
            ).set_cache_flush(false),
            Answer::TXT { entries, ttl, name } => ResourceRecord::new(
                name,
                ttl,
                Class::IN,
                RData::txt(entries),
            ).set_cache_flush(true),
        }
    }

    /// Appends the answer as a record: name, type, class word, TTL, length
    /// of the data, data.
    pub fn append_bytes(self, out: &mut Vec<u8>)
        requires
            record_encodable(self@),
        ensures
            final(out)@ == old(out)@ + record_wire(self@),
    {
        let record = self.into_record();
        record.append_bytes(out);
    }

    /// The number of bytes that `append_bytes` appends.
    pub fn bytes_size(&self) -> (size: usize)
        requires
            record_encodable(self@),
        ensures
            size == record_wire(self@).len(),
    {
        proof {
            lemma_encode_name_len(self@.name);
            lemma_rdata_len(&self@.data);
        }
        match self {
            Answer::PTR { name, ptr, .. } => {
                proof {
                    lemma_encode_name_len(ptr.spec_bytes());
                }
                name.as_bytes().len() + ptr.as_bytes().len() + 14
            },
            Answer::SRV { target, name, .. } => {
                proof {
                    lemma_encode_name_len(target.spec_bytes());
                }
                name.as_bytes().len() + target.as_bytes().len() + 20
            },
            Answer::A { name, .. } => name.as_bytes().len() + 16,
            Answer::TXT { entries, name, .. } => {
                let ghost all = entry_bytes(entries@);
                let mut total: usize = 0;
                let mut i: usize = 0;
                assert(all.take(0) =~= Seq::<Seq<u8>>::empty());
                while i < entries.len()
                    invariant
                        i <= entries.len(),
                        all == entry_bytes(entries@),
                        txt_fits(all),
                        total == strings_wire(all.take(i as int)).len(),
                        total <= MAX_RDATA_LEN,
                    decreases entries.len() - i,
                {
                    proof {
                        assert(all.take(i + 1).drop_last() =~= all.take(i as int));
                        assert(all.take(i + 1).last() == all[i as int]);
                        super::rdata::txt::lemma_strings_wire_grows(all, i + 1);
                    }
                    total = total + entries[i].as_bytes().len() + 1;
                    i += 1;
                }
                assert(all.take(i as int) =~= all);
                if entries.len() == 0 {
                    total = 1;
                }
                name.as_bytes().len() + total + 12
            },
        }
    }
}

/// Appends a TXT record of class `IN` with the cache-flush bit to the answer
/// in `out`. Where a string is over 255 bytes or the data over 65535 bytes,
/// nothing is written behind the TTL and the error says so.
pub fn append_txt_record(
    out: &mut Vec<u8>,
    service_name: &str,
    ttl_secs: u32,
    entries: &[&str],
) -> (r: Result<(), MdnsResponseError>)
    requires
        valid_labels(service_name.spec_bytes()),
    ensures
        txt_fits(entry_bytes(entries@)) ==> r == Ok::<(), MdnsResponseError>(()) && final(out)@
            == old(out)@ + encode_name(service_name.spec_bytes()) + u16_be(0x0010) + u16_be(0x8001)
            + u32_be(ttl_secs) + framed(txt_wire(entry_bytes(entries@))),
        !txt_fits(entry_bytes(entries@)) ==> r == Err::<(), _>(MdnsResponseError::TxtRecordTooLong)
            && final(out)@ == old(out)@ + encode_name(service_name.spec_bytes()) + u16_be(0x0010)
            + u16_be(0x8001) + u32_be(ttl_secs),
{
    // The name.
    append_qname(out, service_name.as_bytes());

    // Type and class.
    append_u16(out, RRType::TXT.code());
    append_u16(out, QClass::IN.code() + CACHE_FLUSH);

    // TTL for the answer
    append_u32(out, ttl_secs);

    // The strings.
    if !entries_fit(entries) {
        return Err(MdnsResponseError::TxtRecordTooLong);
    }
    append_data(out, &Txt(entries));
    Ok(())
}

} // verus!
