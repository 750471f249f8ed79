//! What can go wrong while a response is put together.

use vstd::prelude::*;

verus! {

/// Error that can happen when producing a DNS response.
#[derive(Debug, Clone, PartialEq, Eq)]
pub enum MdnsResponseError {
    TxtRecordTooLong,
    NonAsciiMultiaddr,
    ResponseTooLong,
}

impl MdnsResponseError {
    /// The text of the error.
    pub fn to_string(&self) -> (text: String)
        ensures
            text@ == match self {
                MdnsResponseError::TxtRecordTooLong => "TXT record invalid because it is too long"@,
                MdnsResponseError::NonAsciiMultiaddr => "A multiaddr contains non-ASCII characters when serializd"@,
                MdnsResponseError::ResponseTooLong => "DNS response is too long"@,
            },
    {
        match self {
            MdnsResponseError::TxtRecordTooLong => {
                "TXT record invalid because it is too long".to_owned()
            },
            MdnsResponseError::NonAsciiMultiaddr => {
                "A multiaddr contains non-ASCII characters when serializd".to_owned()
            },
            MdnsResponseError::ResponseTooLong => "DNS response is too long".to_owned(),
        }
    }
}

} // verus!
