//! Errors of the service.

use vstd::prelude::*;

verus! {

/// The error of the parser that reads received datagrams.
#[verifier::external_type_specification]
#[verifier::external_body]
pub struct ExParseError(dns_parser::Error);

/// What the service can fail with.
#[derive(Debug)]
pub enum ServiceError {
    /// The bytes received are no DNS message.
    Parse(dns_parser::Error),
}

impl From<dns_parser::Error> for ServiceError {
    fn from(err: dns_parser::Error) -> (e: ServiceError) {
        ServiceError::Parse(err)
    }
}

impl vstd::std_specs::convert::FromSpecImpl<dns_parser::Error> for ServiceError {
    open spec fn obeys_from_spec() -> bool {
        true
    }

    open spec fn from_spec(err: dns_parser::Error) -> ServiceError {
        ServiceError::Parse(err)
    }
}

} // verus!
