//! A: an IPv4 address.

use super::super::traits::AppendBytes;
use vstd::prelude::*;

verus! {

/// The four octets of an IPv4 address, in network order.
#[derive(Debug)]
pub struct Record(pub [u8; 4]);

impl Record {
    pub const TYPE: usize = 1;
}

impl AppendBytes for Record {
    open spec fn wire(&self) -> Seq<u8> {
        self.0@
    }

    open spec fn encodable(&self) -> bool {
        true
    }

    fn append_bytes(&self, out: &mut Vec<u8>) {
        out.push(self.0[0]);
        out.push(self.0[1]);
        out.push(self.0[2]);
        out.push(self.0[3]);
        assert(out@ =~= old(out)@ + self.0@);
    }
}

} // verus!
