//! Multicast DNS with DNS-SD semantics: a wire codec for outgoing packets and
//! the decision core of a service engine that advertises and discovers
//! services under `.local`.

use vstd::prelude::*;

pub mod dns;
pub mod error;
pub mod inbound;
pub mod service;

pub use service::{MdnsService, Packet};

verus! {

/// The name whose PTR records enumerate the service types present on the link.
pub const META_QUERY_SERVICE: &'static str = "_services._dns-sd._udp.local";

} // verus!
