//! TXT: a list of strings, each sent as a length byte and its bytes.

use super::super::traits::AppendBytes;
use vstd::prelude::*;
use vstd::string::StringSliceAdditionalSpecFns;

verus! {

/// The longest string a TXT record can carry.
pub const MAX_ENTRY_LEN: usize = 255;

/// The longest data a record can carry.
pub const MAX_RDATA_LEN: usize = 65535;

/// The strings of a TXT record, in order.
#[derive(Debug)]
pub struct Record<'a>(pub &'a [&'a str]);

impl<'a> Record<'a> {
    pub const TYPE: usize = 16;
}

/// What each string holds, as bytes.
pub open spec fn entry_bytes(entries: Seq<&str>) -> Seq<Seq<u8>> {
    Seq::new(entries.len(), |i: int| entries[i].spec_bytes())
}

/// The strings one after the other, each behind its length.
pub open spec fn strings_wire(entries: Seq<Seq<u8>>) -> Seq<u8>
    decreases entries.len(),
{
    if entries.len() == 0 {
        Seq::empty()
    } else {
        strings_wire(entries.drop_last()) + seq![entries.last().len() as u8] + entries.last()
    }
}

/// The data of a TXT record. A record without strings is sent as one zero
/// byte, the empty string, since the data may not be empty.
pub open spec fn txt_wire(entries: Seq<Seq<u8>>) -> Seq<u8> {
    if entries.len() == 0 {
        seq![0u8]
    } else {
        strings_wire(entries)
    }
}

/// Whether the strings fit a TXT record: none over 255 bytes, and the data
/// no longer than 65535 bytes.
pub open spec fn txt_fits(entries: Seq<Seq<u8>>) -> bool {
    &&& forall|i: int| 0 <= i < entries.len() ==> (#[trigger] entries[i]).len() <= MAX_ENTRY_LEN
    &&& txt_wire(entries).len() <= MAX_RDATA_LEN
}

/// The strings sent so far are never longer than all of them.
pub proof fn lemma_strings_wire_grows(entries: Seq<Seq<u8>>, n: int)
    requires
        0 <= n <= entries.len(),
    ensures
        strings_wire(entries.take(n)).len() <= strings_wire(entries).len(),
    decreases entries.len() - n,
{
    if n == entries.len() {
        assert(entries.take(n) =~= entries);
    } else {
        lemma_strings_wire_grows(entries, n + 1);
        assert(entries.take(n + 1).drop_last() =~= entries.take(n));
    }
}

/// Whether the strings fit a TXT record.
pub fn entries_fit(entries: &[&str]) -> (ok: bool)
    ensures
        ok == txt_fits(entry_bytes(entries@)),
{
    let ghost all = entry_bytes(entries@);
    let mut total: usize = 0;
    let mut i: usize = 0;
    assert(all.take(0) =~= Seq::<Seq<u8>>::empty());
    while i < entries.len()
        invariant
            i <= entries.len(),
            all == entry_bytes(entries@),
            total == strings_wire(all.take(i as int)).len(),
            total <= MAX_RDATA_LEN,
            forall|j: int| 0 <= j < i ==> (#[trigger] all[j]).len() <= MAX_ENTRY_LEN,
        decreases entries.len() - i,
    {
        let len = entries[i].as_bytes().len();
        assert(len == all[i as int].len());
        proof {
            assert(all.take(i + 1).drop_last() =~= all.take(i as int));
            assert(all.take(i + 1).last() == all[i as int]);
            lemma_strings_wire_grows(all, i + 1);
        }
        if len > MAX_ENTRY_LEN || total + 1 + len > MAX_RDATA_LEN {
            return false;
        }
        total = total + 1 + len;
        i += 1;
    }
    assert(all.take(i as int) =~= all);
    true
}

impl AppendBytes for Record<'_> {
    open spec fn wire(&self) -> Seq<u8> {
        txt_wire(entry_bytes(self.0@))
    }

    open spec fn encodable(&self) -> bool {
        txt_fits(entry_bytes(self.0@))
    }

    fn append_bytes(&self, out: &mut Vec<u8>) {
        let ghost all = entry_bytes(self.0@);
        if self.0.len() == 0 {
            out.push(0);
            return ;
        }
        let mut i: usize = 0;
        assert(all.take(0) =~= Seq::<Seq<u8>>::empty());
        while i < self.0.len()
            invariant
                i <= self.0.len(),
                all == entry_bytes(self.0@),
                txt_fits(all),
                out@ == old(out)@ + strings_wire(all.take(i as int)),
            decreases self.0.len() - i,
        {
            let bytes = self.0[i].as_bytes();
            assert(bytes@ == all[i as int]);
            let ghost before = out@;
            out.push(bytes.len() as u8);
            let mut j: usize = 0;
            while j < bytes.len()
                invariant
                    j <= bytes.len(),
                    bytes@.len() <= MAX_ENTRY_LEN,
                    out@ == before.push(bytes.len() as u8) + bytes@.take(j as int),
                decreases bytes.len() - j,
            {
                out.push(bytes[j]);
                j += 1;
            }
            proof {
                assert(bytes@.take(bytes.len() as int) =~= bytes@);
                assert(all.take(i + 1).drop_last() =~= all.take(i as int));
                assert(all.take(i + 1).last() == all[i as int]);
                assert(out@ =~= old(out)@ + strings_wire(all.take(i + 1)));
            }
            i += 1;
        }
        assert(all.take(i as int) =~= all);
    }
}

} // verus!
