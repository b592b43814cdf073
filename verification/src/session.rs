//! The blob that lets a client resume: `[len | backend | len | peer params]`.
//!
//! Both lengths are 8-byte big-endian integers. The first element belongs to
//! the TLS backend; the second holds the transport parameters of the peer.

use vstd::arithmetic::power;
use vstd::prelude::*;

verus! {

/// The big-endian encoding of `n` in `width` bytes.
pub open spec fn be_digits(n: nat, width: nat) -> Seq<u8>
    decreases width,
{
    if width == 0 {
        Seq::empty()
    } else {
        be_digits(n / 256, (width - 1) as nat).push((n % 256) as u8)
    }
}

/// The number that big-endian bytes stand for.
pub open spec fn be_value(bytes: Seq<u8>) -> nat
    decreases bytes.len(),
{
    if bytes.len() == 0 {
        0
    } else {
        be_value(bytes.drop_last()) * 256 + bytes.last() as nat
    }
}

/// The 8-byte length prefix for `n`.
pub open spec fn be_bytes(n: nat) -> Seq<u8> {
    be_digits(n, 8)
}

/// A session blob made of the backend's element and the peer's parameters.
pub open spec fn session_bytes(backend: Seq<u8>, peer_params: Seq<u8>) -> Seq<u8> {
    be_bytes(backend.len()) + backend + be_bytes(peer_params.len()) + peer_params
}

/// The first length-prefixed element of `bytes` and what follows it.
pub open spec fn split_element(bytes: Seq<u8>) -> Option<(Seq<u8>, Seq<u8>)> {
    if bytes.len() >= 8 && bytes.len() - 8 >= be_value(bytes.take(8)) {
        let end = 8 + be_value(bytes.take(8));
        Some((bytes.subrange(8, end as int), bytes.skip(end as int)))
    } else {
        None
    }
}

/// The two elements of a session blob, if it is well formed.
pub open spec fn session_elements(blob: Seq<u8>) -> Option<(Seq<u8>, Seq<u8>)> {
    match split_element(blob) {
        Some((backend, rest)) => match split_element(rest) {
            Some((peer_params, _)) => Some((backend, peer_params)),
            None => None,
        },
        None => None,
    }
}

/// Big-endian decoding undoes encoding, for every number that fits in
/// `width` bytes.
proof fn lemma_digits_round_trip(n: nat, width: nat)
    requires
        n < power::pow(256, width),
    ensures
        be_digits(n, width).len() == width,
        be_value(be_digits(n, width)) == n,
    decreases width,
{
    reveal(power::pow);
    if width > 0 {
        let rest = (width - 1) as nat;
        assert(power::pow(256, width) == 256 * power::pow(256, rest));
        lemma_digits_round_trip(n / 256, rest);
        let high = be_digits(n / 256, rest);
        assert(be_digits(n, width).drop_last() =~= high);
    }
}

/// Reading an 8-byte length gives back the number written.
pub proof fn lemma_be_round_trip(n: nat)
    requires
        n <= u64::MAX,
    ensures
        be_bytes(n).len() == 8,
        be_value(be_bytes(n)) == n,
{
    assert(power::pow(256, 8) == 0x1_0000_0000_0000_0000) by {
        reveal_with_fuel(power::pow, 9);
    }
    lemma_digits_round_trip(n, 8);
}

/// Reading a length-prefixed element gives back what was written.
proof fn lemma_split_element(element: Seq<u8>, rest: Seq<u8>)
    requires
        element.len() <= u64::MAX,
    ensures
        split_element(be_bytes(element.len()) + element + rest) == Some((element, rest)),
{
    let bytes = be_bytes(element.len()) + element + rest;
    lemma_be_round_trip(element.len());
    assert(bytes.take(8) =~= be_bytes(element.len()));
    let end = 8 + element.len();
    assert(bytes.subrange(8, end as int) =~= element);
    assert(bytes.skip(end as int) =~= rest);
}

/// Both elements of a session blob can be read back from it.
pub proof fn law_session_round_trip(backend: Seq<u8>, peer_params: Seq<u8>)
    requires
        backend.len() <= u64::MAX,
        peer_params.len() <= u64::MAX,
    ensures
        session_elements(session_bytes(backend, peer_params)) == Some((backend, peer_params)),
{
    let tail = be_bytes(peer_params.len()) + peer_params;
    assert(session_bytes(backend, peer_params) =~= be_bytes(backend.len()) + backend + tail);
    lemma_split_element(backend, tail);
    assert(tail =~= be_bytes(peer_params.len()) + peer_params + Seq::<u8>::empty());
    lemma_split_element(peer_params, Seq::empty());
}

/// The blob for a peer that sent `peer_params`, byte by byte: eight zeros for an
/// empty element, the number of the parameters' bytes with the most significant
/// byte first, and the parameters.
pub proof fn law_session_layout(peer_params: Seq<u8>)
    requires
        peer_params.len() <= u64::MAX,
    ensures
        ({
            let blob = session_bytes(Seq::empty(), peer_params);
            &&& blob.len() == 16 + peer_params.len()
            &&& forall|i: int| 0 <= i < 8 ==> #[trigger] blob[i] == 0
            &&& blob[8] * 0x100_0000_0000_0000 + blob[9] * 0x1_0000_0000_0000 + blob[10]
                * 0x100_0000_0000 + blob[11] * 0x1_0000_0000 + blob[12] * 0x100_0000 + blob[13]
                * 0x1_0000 + blob[14] * 0x100 + blob[15] == peer_params.len()
            &&& blob.skip(16) == peer_params
        }),
{
    let blob = session_bytes(Seq::empty(), peer_params);
    let zeros = be_bytes(0);
    let count = be_bytes(peer_params.len());
    lemma_be_round_trip(0);
    lemma_be_round_trip(peer_params.len());
    assert(zeros =~= seq![0u8, 0, 0, 0, 0, 0, 0, 0]) by {
        reveal_with_fuel(be_digits, 9);
    }
    assert forall|i: int| 0 <= i < 8 implies #[trigger] blob[i] == 0 by {
        assert(blob[i] == zeros[i]);
    }
    assert forall|i: int| 0 <= i < 8 implies #[trigger] count[i] == blob[8 + i] by {}
    assert(be_value(count) == count[0] * 0x100_0000_0000_0000 + count[1] * 0x1_0000_0000_0000
        + count[2] * 0x100_0000_0000 + count[3] * 0x1_0000_0000 + count[4] * 0x100_0000 + count[5]
        * 0x1_0000 + count[6] * 0x100 + count[7]) by {
        reveal_with_fuel(be_value, 9);
    }
    assert(blob.skip(16) =~= peer_params);
}

/// Appends the big-endian encoding of `n` in `width` bytes.
fn push_be(out: &mut Vec<u8>, n: u64, width: usize)
    ensures
        final(out)@ == old(out)@ + be_digits(n as nat, width as nat),
    decreases width,
{
    if width > 0 {
        push_be(out, n / 256, width - 1);
        out.push((n % 256) as u8);
    }
    assert(out@ =~= old(out)@ + be_digits(n as nat, width as nat));
}

/// The session blob for a peer that sent `peer_params`.
///
/// The TLS session itself stays in memory, so the backend's element is empty.
pub fn session_blob(peer_params: &[u8]) -> (blob: Vec<u8>)
    ensures
        blob@ == session_bytes(Seq::empty(), peer_params@),
        blob@.len() == 16 + peer_params@.len(),
        blob@.skip(16) == peer_params@,
{
    let mut blob: Vec<u8> = Vec::new();
    push_be(&mut blob, 0, 8);
    push_be(&mut blob, peer_params.len() as u64, 8);
    blob.extend_from_slice(peer_params);
    assert(blob@ =~= session_bytes(Seq::empty(), peer_params@));
    proof {
        law_session_layout(peer_params@);
    }
    blob
}

} // verus!
