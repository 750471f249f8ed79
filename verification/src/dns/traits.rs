//! What every piece of a packet can do: append its bytes to a buffer.

use vstd::prelude::*;

verus! {

/// A value with a wire form. `wire` is that form; `encodable` says whether
/// the value has one that the format can carry.
pub trait AppendBytes {
    /// The bytes that stand for the value.
    spec fn wire(&self) -> Seq<u8>;

    /// Whether the value can be sent as it is.
    spec fn encodable(&self) -> bool;

    /// Appends the wire form and leaves what `out` held before in place.
    fn append_bytes(&self, out: &mut Vec<u8>)
        requires
            self.encodable(),
        ensures
            final(out)@ == old(out)@ + self.wire(),
    ;
}

} // verus!
