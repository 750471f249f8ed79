//! AAAA: an IPv6 address.

use super::super::traits::AppendBytes;
use vstd::prelude::*;

verus! {

/// The sixteen octets of an IPv6 address, in network order.
#[derive(Debug)]
pub struct Record(pub [u8; 16]);

impl Record {
    pub const TYPE: usize = 28;
}

impl AppendBytes for Record {
    open spec fn wire(&self) -> Seq<u8> {
        self.0@
    }

    open spec fn encodable(&self) -> bool {
        true
    }

    fn append_bytes(&self, out: &mut Vec<u8>) {
        let mut i: usize = 0;
        while i < 16
            invariant
                i <= 16,
                out@ == old(out)@ + self.0@.take(i as int),
            decreases 16 - i,
        {
            out.push(self.0[i]);
            i += 1;
        }
        assert(self.0@.take(16) =~= self.0@);
    }
}

} // verus!
