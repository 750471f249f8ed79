//! Names on the wire: each dot-separated label as a length byte and its
//! bytes, closed by a zero byte. Compression pointers are never written.

use vstd::prelude::*;

verus! {

/// The byte that separates labels in a dotted name.
pub const DOT: u8 = 0x2e;

/// The longest label the wire format can carry.
pub const MAX_LABEL_LEN: usize = 63;

/// The longest dotted name.
pub const MAX_NAME_LEN: usize = 255;

/// The length of the first label: the number of bytes before the first dot,
/// or the whole length where there is no dot.
pub open spec fn first_label_len(name: Seq<u8>) -> nat
    decreases name.len(),
{
    if name.len() == 0 || name[0] == DOT {
        0
    } else {
        1 + first_label_len(name.skip(1))
    }
}

/// The labels of a dotted name, in order. A name without a dot is one label;
/// the empty name is one empty label.
pub open spec fn labels(name: Seq<u8>) -> Seq<Seq<u8>>
    decreases name.len(),
{
    let k = first_label_len(name) as int;
    if k >= name.len() {
        seq![name]
    } else {
        seq![name.take(k)] + labels(name.skip(k + 1))
    }
}

/// The labels joined by dots.
pub open spec fn join(labels: Seq<Seq<u8>>) -> Seq<u8>
    decreases labels.len(),
{
    if labels.len() == 0 {
        Seq::empty()
    } else if labels.len() == 1 {
        labels[0]
    } else {
        labels[0] + seq![DOT] + join(labels.skip(1))
    }
}

/// The labels as they are sent: each as its length and its bytes, then a
/// zero byte.
pub open spec fn encode_labels(labels: Seq<Seq<u8>>) -> Seq<u8>
    decreases labels.len(),
{
    if labels.len() == 0 {
        seq![0u8]
    } else {
        seq![labels[0].len() as u8] + labels[0] + encode_labels(labels.skip(1))
    }
}

/// A dotted name as it is sent.
pub open spec fn encode_name(name: Seq<u8>) -> Seq<u8> {
    encode_labels(labels(name))
}

/// Reads length-prefixed labels up to the closing zero byte. Gives the
/// labels and the number of bytes read, or `None` where the bytes end early
/// or a length byte is over 63.
pub open spec fn decode_labels(wire: Seq<u8>) -> Option<(Seq<Seq<u8>>, nat)>
    decreases wire.len(),
{
    if wire.len() == 0 {
        None
    } else if wire[0] == 0 {
        Some((Seq::empty(), 1nat))
    } else if wire[0] > MAX_LABEL_LEN || wire.len() < 1 + wire[0] {
        None
    } else {
        let n = wire[0] as int;
        match decode_labels(wire.skip(1 + n)) {
            Some((rest, used)) => Some((seq![wire.subrange(1, 1 + n)] + rest, (1 + n + used) as nat)),
            None => None,
        }
    }
}

/// Every byte is ASCII.
pub open spec fn is_ascii_bytes(bytes: Seq<u8>) -> bool {
    forall|i: int| 0 <= i < bytes.len() ==> bytes[i] < 128
}

/// What the codec asks of a name: ASCII, and every label of 1 to 63 bytes.
pub open spec fn valid_labels(name: Seq<u8>) -> bool {
    &&& is_ascii_bytes(name)
    &&& forall|i: int|
        0 <= i < labels(name).len() ==> 1 <= (#[trigger] labels(name)[i]).len() <= MAX_LABEL_LEN
}

/// A name that a packet may carry: valid labels, and at most 255 bytes in
/// its dotted form.
pub open spec fn valid_name(name: Seq<u8>) -> bool {
    valid_labels(name) && name.len() <= MAX_NAME_LEN
}

/// The first label ends at a dot or at the end of the name, and holds no dot.
pub proof fn lemma_first_label(name: Seq<u8>)
    ensures
        first_label_len(name) <= name.len(),
        first_label_len(name) < name.len() ==> name[first_label_len(name) as int] == DOT,
        forall|i: int| 0 <= i < first_label_len(name) ==> name[i] != DOT,
    decreases name.len(),
{
    if name.len() == 0 || name[0] == DOT {
    } else {
        let rest = name.skip(1);
        lemma_first_label(rest);
        assert forall|i: int| 0 <= i < first_label_len(name) implies name[i] != DOT by {
            if i > 0 {
                assert(rest[i - 1] == name[i]);
            }
        }
    }
}

/// A stretch of bytes without a dot that ends at a dot or at the end of the
/// name is the first label.
pub proof fn lemma_first_label_is(name: Seq<u8>, k: int)
    requires
        0 <= k <= name.len(),
        forall|i: int| 0 <= i < k ==> name[i] != DOT,
        k < name.len() ==> name[k] == DOT,
    ensures
        first_label_len(name) == k,
    decreases name.len(),
{
    if name.len() == 0 || name[0] == DOT {
    } else {
        let rest = name.skip(1);
        assert forall|i: int| 0 <= i < k - 1 implies rest[i] != DOT by {
            assert(rest[i] == name[i + 1]);
        }
        lemma_first_label_is(rest, k - 1);
    }
}

/// A name of valid labels is sent as its length plus two bytes.
pub proof fn lemma_encode_name_len(name: Seq<u8>)
    requires
        valid_labels(name),
    ensures
        encode_name(name).len() == name.len() + 2,
    decreases name.len(),
{
    lemma_first_label(name);
    let k = first_label_len(name) as int;
    let ls = labels(name);
    if k >= name.len() {
        assert(ls.skip(1) =~= Seq::<Seq<u8>>::empty());
        assert(encode_labels(ls) == seq![ls[0].len() as u8] + ls[0] + encode_labels(ls.skip(1)));
    } else {
        let rest = name.skip(k + 1);
        assert(ls.skip(1) =~= labels(rest));
        lemma_valid_labels_rest(name);
        lemma_encode_name_len(rest);
        assert(encode_labels(ls) == seq![ls[0].len() as u8] + ls[0] + encode_labels(ls.skip(1)));
    }
}

/// What follows the first dot of a name of valid labels has valid labels.
pub proof fn lemma_valid_labels_rest(name: Seq<u8>)
    requires
        valid_labels(name),
        first_label_len(name) < name.len(),
    ensures
        valid_labels(name.skip(first_label_len(name) as int + 1)),
        1 <= first_label_len(name) <= MAX_LABEL_LEN,
{
    let k = first_label_len(name) as int;
    let rest = name.skip(k + 1);
    let ls = labels(name);
    assert(ls[0] == name.take(k));
    assert(ls.skip(1) =~= labels(rest));
    assert forall|i: int| 0 <= i < labels(rest).len() implies 1 <= (#[trigger] labels(
        rest,
    )[i]).len() <= MAX_LABEL_LEN by {
        assert(labels(rest)[i] == ls[i + 1]);
    }
    assert forall|i: int| 0 <= i < rest.len() implies rest[i] < 128 by {
        assert(rest[i] == name[i + k + 1]);
    }
}

/// Sending a name and reading the labels back gives the name: the labels
/// read are those of the name, they join to the name, the reading ends at
/// the last byte sent, and that byte is the one zero length byte.
pub proof fn lemma_name_round_trip(name: Seq<u8>)
    requires
        valid_labels(name),
    ensures
        decode_labels(encode_name(name)) == Some((labels(name), encode_name(name).len())),
        join(labels(name)) == name,
        encode_name(name).last() == 0,
    decreases name.len(),
{
    lemma_name_round_trip_before(name, Seq::empty());
    assert(encode_name(name) + Seq::<u8>::empty() =~= encode_name(name));
    lemma_encode_name_len(name);
    lemma_join_labels(name);
    lemma_encode_name_last(name);
}

/// Reading a sent name back does not depend on what follows it.
pub proof fn lemma_name_round_trip_before(name: Seq<u8>, tail: Seq<u8>)
    requires
        valid_labels(name),
    ensures
        decode_labels(encode_name(name) + tail) == Some(
            (labels(name), encode_name(name).len()),
        ),
    decreases name.len(),
{
    lemma_first_label(name);
    lemma_encode_name_len(name);
    let k = first_label_len(name) as int;
    let ls = labels(name);
    let wire = encode_name(name) + tail;
    assert(1 <= ls[0].len() <= MAX_LABEL_LEN);
    assert(encode_labels(ls) == seq![ls[0].len() as u8] + ls[0] + encode_labels(ls.skip(1)));
    assert(wire[0] == ls[0].len() as u8);
    let n = wire[0] as int;
    assert(n == ls[0].len());
    assert(wire.subrange(1, 1 + n) =~= ls[0]);
    if k >= name.len() {
        assert(ls.skip(1) =~= Seq::<Seq<u8>>::empty());
        assert(wire.skip(1 + n) =~= seq![0u8] + tail);
        assert(decode_labels(wire.skip(1 + n)) == Some((Seq::<Seq<u8>>::empty(), 1nat)));
        assert(seq![ls[0]] + Seq::<Seq<u8>>::empty() =~= ls);
    } else {
        let rest = name.skip(k + 1);
        assert(ls.skip(1) =~= labels(rest));
        lemma_valid_labels_rest(name);
        lemma_name_round_trip_before(rest, tail);
        lemma_encode_name_len(rest);
        assert(wire.skip(1 + n) =~= encode_name(rest) + tail);
        assert(seq![ls[0]] + labels(rest) =~= ls);
    }
}

/// The labels of a name, joined by dots, are the name.
pub proof fn lemma_join_labels(name: Seq<u8>)
    ensures
        join(labels(name)) == name,
        labels(name).len() >= 1,
    decreases name.len(),
{
    lemma_first_label(name);
    let k = first_label_len(name) as int;
    let ls = labels(name);
    if k >= name.len() {
    } else {
        let rest = name.skip(k + 1);
        lemma_join_labels(rest);
        assert(ls.skip(1) =~= labels(rest));
        assert(name.take(k) + seq![DOT] + rest =~= name);
    }
}

/// A sent name ends with a zero byte.
pub proof fn lemma_encode_name_last(name: Seq<u8>)
    ensures
        encode_name(name).len() >= 1,
        encode_name(name).last() == 0,
    decreases name.len(),
{
    lemma_first_label(name);
    let k = first_label_len(name) as int;
    let ls = labels(name);
    assert(encode_labels(ls) == seq![ls[0].len() as u8] + ls[0] + encode_labels(ls.skip(1)));
    if k >= name.len() {
        assert(ls.skip(1) =~= Seq::<Seq<u8>>::empty());
    } else {
        let rest = name.skip(k + 1);
        assert(ls.skip(1) =~= labels(rest));
        lemma_encode_name_last(rest);
    }
}

} // verus!
