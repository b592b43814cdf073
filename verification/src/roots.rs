//! Stores of trusted root certificates.

use crate::types;
use rustls::pki_types::CertificateDer;
use rustls::RootCertStore;
use vstd::prelude::*;

verus! {

/// `rustls::RootCertStore`.
#[verifier::external_type_specification]
#[verifier::external_body]
pub struct ExRootCertStore(RootCertStore);

/// What a store keeps of a root certificate: DER-encoded parts of it.
pub struct Anchor {
    pub subject: Seq<u8>,
    pub public_key: Seq<u8>,
    pub name_constraints: Option<Seq<u8>>,
}

/// The trust anchors in `store`, in the order in which they were added.
pub uninterp spec fn anchors(store: RootCertStore) -> Seq<Anchor>;

/// The trust anchor that a DER-encoded certificate stands for, if it parses.
pub uninterp spec fn parsed_anchor(der: Seq<u8>) -> Option<Anchor>;

/// The trust anchors of those of `certs` that parse, in order.
pub open spec fn parsed_anchors(certs: Seq<Seq<u8>>) -> Seq<Anchor>
    decreases certs.len(),
{
    if certs.len() == 0 {
        Seq::empty()
    } else {
        let before = parsed_anchors(certs.drop_last());
        match parsed_anchor(certs.last()) {
            Some(anchor) => before.push(anchor),
            None => before,
        }
    }
}

/// The trust anchors of two lists are those of the one and those of the other.
pub(crate) proof fn lemma_parsed_anchors_add_up(first: Seq<Seq<u8>>, second: Seq<Seq<u8>>)
    ensures
        parsed_anchors(first + second) == parsed_anchors(first) + parsed_anchors(second),
    decreases second.len(),
{
    if second.len() == 0 {
        assert(first + second =~= first);
        assert(parsed_anchors(first) + parsed_anchors(second) =~= parsed_anchors(first));
    } else {
        lemma_parsed_anchors_add_up(first, second.drop_last());
        assert((first + second).drop_last() =~= first + second.drop_last());
        assert((first + second).last() == second.last());
        assert(parsed_anchors(first + second) =~= parsed_anchors(first) + parsed_anchors(second));
    }
}

/// A certificate adds its trust anchor if it parses and nothing otherwise, and
/// what several add is what each adds, in order.
pub proof fn law_certificates_add_their_anchors(
    first: Seq<Seq<u8>>,
    cert: Seq<u8>,
    second: Seq<Seq<u8>>,
)
    ensures
        parsed_anchors(Seq::empty()) == Seq::<Anchor>::empty(),
        parsed_anchor(cert) matches Some(anchor) ==> parsed_anchors(seq![cert]) == seq![anchor],
        parsed_anchor(cert) is None ==> parsed_anchors(seq![cert]) == Seq::<Anchor>::empty(),
        parsed_anchors(first + second) == parsed_anchors(first) + parsed_anchors(second),
{
    assert(seq![cert].drop_last() =~= Seq::<Seq<u8>>::empty());
    assert(parsed_anchors(Seq::empty()) =~= Seq::<Anchor>::empty());
    if let Some(anchor) = parsed_anchor(cert) {
        assert(parsed_anchors(seq![cert]) =~= seq![anchor]);
    }
    lemma_parsed_anchors_add_up(first, second);
}

/// A trust anchor is among those of `certs` exactly if one of them stands for it.
pub proof fn law_no_anchor_is_lost(certs: Seq<Seq<u8>>, anchor: Anchor)
    ensures
        parsed_anchors(certs).contains(anchor) <==> exists|i: int|
            0 <= i < certs.len() && parsed_anchor(#[trigger] certs[i]) == Some(anchor),
    decreases certs.len(),
{
    if certs.len() > 0 {
        let before = certs.drop_last();
        law_no_anchor_is_lost(before, anchor);
        assert forall|i: int| 0 <= i < before.len() implies #[trigger] certs[i] == before[i] by {}
        let all = parsed_anchors(certs);
        let some = parsed_anchors(before);
        if some.contains(anchor) {
            let i = choose|i: int| 0 <= i < some.len() && some[i] == anchor;
            assert(all[i] == anchor);
        }
        if parsed_anchor(certs.last()) == Some(anchor) {
            assert(all[some.len() as int] == anchor);
            assert(certs[certs.len() - 1] == certs.last());
        }
        if all.contains(anchor) && !some.contains(anchor) {
            let i = choose|i: int| 0 <= i < all.len() && all[i] == anchor;
            if i < some.len() {
                assert(some[i] == anchor);
            }
            assert(certs[certs.len() - 1] == certs.last());
        }
    }
}

/// `rustls::RootCertStore::empty`: a store without trust anchors.
#[verifier::external_body]
pub(crate) fn empty_store() -> (store: RootCertStore)
    ensures
        anchors(store) == Seq::<Anchor>::empty(),
{
    RootCertStore::empty()
}

/// `rustls::RootCertStore::add_parsable_certificates`: adds the trust anchors
/// of the certificates that parse and skips the others; says how many there
/// were of each.
#[verifier::external_body]
fn add_parsable(store: &mut RootCertStore, certs: Vec<Vec<u8>>) -> (counts: (usize, usize))
    ensures
        anchors(*final(store)) == anchors(*old(store)) + parsed_anchors(
            types::byte_strings(certs@),
        ),
        counts.0 == certs@.filter(|cert: Vec<u8>| parsed_anchor(cert@) is Some).len(),
        counts.0 + counts.1 == certs@.len(),
{
    store.add_parsable_certificates(certs.into_iter().map(CertificateDer::from))
}

/// `rustls::RootCertStore::clone`: a second store with the same trust anchors.
#[verifier::external_body]
pub(crate) fn clone_store(store: &RootCertStore) -> (copy: RootCertStore)
    ensures
        anchors(copy) == anchors(*store),
{
    store.clone()
}

/// The trust anchors that an optional store holds.
pub open spec fn anchors_of(store: Option<RootCertStore>) -> Option<Seq<Anchor>> {
    match store {
        Some(s) => Some(anchors(s)),
        None => None,
    }
}

/// Adds every certificate that parses to `store`, making one if there is none.
pub(crate) fn extend_store(store: &mut Option<RootCertStore>, certs: Vec<Vec<u8>>)
    ensures
        anchors_of(*final(store)) == Some(
            (match anchors_of(*old(store)) {
                Some(known) => known,
                None => Seq::empty(),
            }) + parsed_anchors(types::byte_strings(certs@)),
        ),
{
    match store {
        Some(known) => {
            let _counts = add_parsable(known, certs);
        },
        None => {
            let mut fresh = empty_store();
            let _counts = add_parsable(&mut fresh, certs);
            *store = Some(fresh);
        },
    }
}

} // verus!
