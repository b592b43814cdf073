//! Certificates and private keys in PEM text.

use crate::types::Error;
use crate::types;
use rustls::pki_types::pem::Error as PemError;
use rustls::pki_types::pem::{PemObject, SliceIter};
use rustls::pki_types::{CertificateDer, PrivateKeyDer};
use vstd::prelude::*;

verus! {

/// `rustls::pki_types::pem::Error`.
#[verifier::external_type_specification]
#[verifier::external_body]
pub struct ExPemError(PemError);

/// `rustls::pki_types::pem::SliceIter`.
#[verifier::external_type_specification]
#[verifier::external_body]
#[verifier::reject_recursive_types(T)]
pub struct ExSliceIter<'a, T>(SliceIter<'a, T>);

/// `rustls::pki_types::CertificateDer`.
#[verifier::external_type_specification]
#[verifier::external_body]
pub struct ExCertificateDer<'a>(CertificateDer<'a>);

/// `rustls::pki_types::PrivateKeyDer`.
#[verifier::external_type_specification]
#[verifier::external_body]
pub struct ExPrivateKeyDer<'a>(PrivateKeyDer<'a>);

/// The certificate sections of a PEM text, in order: the DER bytes of each, and
/// `None` where a section, of whatever kind, is malformed.
pub uninterp spec fn pem_sections(text: Seq<u8>) -> Seq<Option<Seq<u8>>>;

/// The certificate sections that an iterator has still to yield.
pub uninterp spec fn remaining(sections: SliceIter<'static, CertificateDer<'static>>) -> Seq<
    Option<Seq<u8>>,
>;

/// The first private key in a PEM text, if one comes before anything malformed.
pub uninterp spec fn pem_private_key(text: Seq<u8>) -> Option<PrivateKeyDer<'static>>;

/// `rustls::pki_types::pem::PemObject::pem_slice_iter` for certificates.
#[verifier::external_body]
fn sections_of<'a>(text: &'a [u8]) -> (sections: SliceIter<'a, CertificateDer<'static>>)
    ensures
        remaining(sections) == pem_sections(text@),
{
    CertificateDer::pem_slice_iter(text)
}

/// `SliceIter::next` for certificates: the bytes of the next section, or why it
/// is malformed, until there are no more.
#[verifier::external_body]
fn next_section<'a>(sections: &mut SliceIter<'a, CertificateDer<'static>>) -> (section: Option<
    Result<Vec<u8>, PemError>,
>)
    ensures
        section is None <==> remaining(*old(sections)).len() == 0,
        section matches Some(item) ==> {
            &&& remaining(*old(sections))[0] == (match item {
                Ok(der) => Some(der@),
                Err(_) => None,
            })
            &&& remaining(*final(sections)) == remaining(*old(sections)).skip(1)
        },
{
    sections.next().map(|item| item.map(|cert| cert.as_ref().to_vec()))
}

/// `rustls::pki_types::pem::PemObject::from_pem_slice` for private keys.
#[verifier::external_body]
fn key_of(text: &[u8]) -> (key: Result<PrivateKeyDer<'static>, PemError>)
    ensures
        pem_private_key(text@) == (match key {
            Ok(found) => Some(found),
            Err(_) => None,
        }),
{
    PrivateKeyDer::from_pem_slice(text)
}

/// `rustls::pki_types::PrivateKeyDer::clone_key`: a second copy of the key.
#[verifier::external_body]
pub(crate) fn clone_key(key: &PrivateKeyDer<'static>) -> (copy: PrivateKeyDer<'static>)
    ensures
        copy == *key,
{
    key.clone_key()
}

/// The certificates in a PEM text, unless a section of it is malformed.
pub open spec fn pem_certificates(text: Seq<u8>) -> Option<Seq<Seq<u8>>> {
    well_formed(pem_sections(text))
}

/// The contents of `sections`, unless one of them is malformed.
pub open spec fn well_formed(sections: Seq<Option<Seq<u8>>>) -> Option<Seq<Seq<u8>>> {
    if forall|i: int| 0 <= i < sections.len() ==> (#[trigger] sections[i]) is Some {
        Some(sections.map_values(|section: Option<Seq<u8>>| section->0))
    } else {
        None
    }
}

/// A PEM text gives certificates exactly if none of its sections is malformed:
/// one for each certificate section, with its bytes, in the order of the text.
pub proof fn law_every_section_is_a_certificate(text: Seq<u8>)
    ensures
        pem_certificates(text) is None <==> exists|i: int|
            0 <= i < pem_sections(text).len() && (#[trigger] pem_sections(text)[i]) is None,
        pem_certificates(text) matches Some(certs) ==> {
            &&& certs.len() == pem_sections(text).len()
            &&& forall|i: int|
                0 <= i < certs.len() ==> pem_sections(text)[i] == Some(#[trigger] certs[i])
        },
{
}

/// Reads every certificate in a PEM text.
pub fn read_certificates(text: &[u8]) -> (certs: Result<Vec<Vec<u8>>, Error>)
    ensures
        match pem_certificates(text@) {
            Some(list) => certs matches Ok(found) && types::byte_strings(found@) == list,
            None => certs == Err::<Vec<Vec<u8>>, Error>(Error::TlsFail),
        },
        certs matches Ok(found) ==> {
            &&& found@.len() == pem_sections(text@).len()
            &&& forall|i: int|
                0 <= i < found@.len() ==> pem_sections(text@)[i] == Some((#[trigger] found@[i])@)
        },
{
    let ghost all = pem_sections(text@);
    let mut sections = sections_of(text);
    let mut certs: Vec<Vec<u8>> = Vec::new();
    loop
        invariant
            certs.len() + remaining(sections).len() == all.len(),
            remaining(sections) == all.skip(certs.len() as int),
            all == pem_sections(text@),
            forall|i: int|
                0 <= i < certs.len() ==> all[i] == Some((#[trigger] certs@[i])@),
        decreases remaining(sections).len(),
    {
        match next_section(&mut sections) {
            Some(Ok(der)) => {
                assert(all[certs.len() as int] == Some(der@));
                certs.push(der);
            },
            Some(Err(_)) => {
                assert(all[certs.len() as int] is None);
                return Err(Error::TlsFail);
            },
            None => {
                assert forall|i: int| 0 <= i < all.len() implies (#[trigger] all[i]) is Some by {
                    assert(all[i] == Some(certs@[i]@));
                }
                assert(types::byte_strings(certs@) =~= all.map_values(
                    |section: Option<Seq<u8>>| section->0,
                ));
                return Ok(certs);
            },
        }
    }
}

/// Reads the first private key in a PEM text.
pub fn read_private_key(text: &[u8]) -> (key: Result<PrivateKeyDer<'static>, Error>)
    ensures
        key == (match pem_private_key(text@) {
            Some(found) => Ok::<PrivateKeyDer<'static>, Error>(found),
            None => Err(Error::TlsFail),
        }),
{
    match key_of(text) {
        Ok(key) => Ok(key),
        Err(_) => Err(Error::TlsFail),
    }
}

} // verus!
