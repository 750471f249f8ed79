//! SRV: where a service instance is reached.

use super::super::name::{encode_name, valid_name};
use super::super::traits::AppendBytes;
use super::super::{append_qname, append_u16, u16_be};
use vstd::prelude::*;
use vstd::string::StringSliceAdditionalSpecFns;

verus! {

#[derive(Debug)]
pub struct Record<'a> {
    pub port: u16,
    pub weight: u16,
    pub priority: u16,
    pub target: &'a str,
}

impl<'a> Record<'a> {
    pub const TYPE: usize = 33;
}

impl AppendBytes for Record<'_> {
    /// Priority, weight and port, then the target name.
    open spec fn wire(&self) -> Seq<u8> {
        u16_be(self.priority) + u16_be(self.weight) + u16_be(self.port) + encode_name(
            self.target.spec_bytes(),
        )
    }

    open spec fn encodable(&self) -> bool {
        valid_name(self.target.spec_bytes())
    }

    fn append_bytes(&self, out: &mut Vec<u8>) {
        append_u16(out, self.priority);
        append_u16(out, self.weight);
        append_u16(out, self.port);
        append_qname(out, self.target.as_bytes());
    }
}

} // verus!
