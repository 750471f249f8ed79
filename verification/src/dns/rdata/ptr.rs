//! PTR: a name that the record's name points to.

use super::super::append_qname;
use super::super::name::{encode_name, valid_name};
use super::super::traits::AppendBytes;
use vstd::prelude::*;
use vstd::string::StringSliceAdditionalSpecFns;

verus! {

/// The target name, dotted.
#[derive(Debug)]
pub struct Record<'a>(pub &'a str);

impl<'a> Record<'a> {
    pub const TYPE: usize = 12;
}

impl AppendBytes for Record<'_> {
    open spec fn wire(&self) -> Seq<u8> {
        encode_name(self.0.spec_bytes())
    }

    open spec fn encodable(&self) -> bool {
        valid_name(self.0.spec_bytes())
    }

    fn append_bytes(&self, out: &mut Vec<u8>) {
        append_qname(out, self.0.as_bytes());
    }
}

} // verus!
