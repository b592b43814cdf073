//! Certificate verifiers for connections without trusted roots.

use crate::connection;
use crate::types::Error;
use rustls::client::danger::{HandshakeSignatureValid, ServerCertVerified, ServerCertVerifier};
use rustls::crypto::ring;
use rustls::pki_types::{CertificateDer, ServerName, UnixTime};
use rustls::server::danger::{ClientCertVerified, ClientCertVerifier};
use rustls::Error as TlsError;
use rustls::{CertificateError, DigitallySignedStruct, DistinguishedName, SignatureScheme};
use vstd::prelude::*;

verus! {

/// `rustls::pki_types::UnixTime`.
#[verifier::external_type_specification]
#[verifier::external_body]
pub struct ExUnixTime(UnixTime);

/// `rustls::client::danger::ServerCertVerified`.
#[verifier::external_type_specification]
#[verifier::external_body]
pub struct ExServerCertVerified(ServerCertVerified);

/// `rustls::server::danger::ClientCertVerified`.
#[verifier::external_type_specification]
#[verifier::external_body]
pub struct ExClientCertVerified(ClientCertVerified);

/// `rustls::client::danger::HandshakeSignatureValid`.
#[verifier::external_type_specification]
#[verifier::external_body]
pub struct ExHandshakeSignatureValid(HandshakeSignatureValid);

/// `rustls::DigitallySignedStruct`.
#[verifier::external_type_specification]
#[verifier::external_body]
pub struct ExDigitallySignedStruct(DigitallySignedStruct);

/// `rustls::SignatureScheme`.
#[verifier::external_type_specification]
#[verifier::external_body]
pub struct ExSignatureScheme(SignatureScheme);

/// `rustls::DistinguishedName`.
#[verifier::external_type_specification]
#[verifier::external_body]
pub struct ExDistinguishedName(DistinguishedName);

/// Whether `signed` is a TLS 1.2 signature of `message` by the key in `cert`.
pub uninterp spec fn signed_in_tls12(
    message: Seq<u8>,
    cert: CertificateDer<'static>,
    signed: DigitallySignedStruct,
) -> bool;

/// Whether `signed` is a TLS 1.3 signature of `message` by the key in `cert`.
pub uninterp spec fn signed_in_tls13(
    message: Seq<u8>,
    cert: CertificateDer<'static>,
    signed: DigitallySignedStruct,
) -> bool;

/// `ServerCertVerified::assertion`: the token for an accepted server.
#[verifier::external_body]
fn accepted_server() -> ServerCertVerified {
    ServerCertVerified::assertion()
}

/// How a peer is told that no trusted root has issued its certificate.
pub open spec fn unknown_issuer_text() -> Seq<u8> {
    "invalid peer certificate: UnknownIssuer"@.map_values(|c: char| c as u8)
}

/// `rustls::Error::InvalidCertificate` with `CertificateError::UnknownIssuer`,
/// for a certificate that no trusted root has issued, which its `Display` text
/// says.
#[verifier::external_body]
fn unknown_issuer() -> (error: TlsError)
    ensures
        connection::error_text(error) == unknown_issuer_text(),
{
    TlsError::InvalidCertificate(CertificateError::UnknownIssuer)
}

/// `rustls::crypto::verify_tls12_signature` with the algorithms of *ring*:
/// accepts exactly the signatures that are valid.
#[verifier::external_body]
fn check_tls12_signature(
    message: &[u8],
    cert: &CertificateDer<'_>,
    signed: &DigitallySignedStruct,
) -> (verdict: Result<HandshakeSignatureValid, TlsError>)
    ensures
        verdict is Ok <==> signed_in_tls12(message@, *cert, *signed),
{
    let algorithms = ring::default_provider().signature_verification_algorithms;
    rustls::crypto::verify_tls12_signature(message, cert, signed, &algorithms)
}

/// `rustls::crypto::verify_tls13_signature` with the algorithms of *ring*:
/// accepts exactly the signatures that are valid.
#[verifier::external_body]
fn check_tls13_signature(
    message: &[u8],
    cert: &CertificateDer<'_>,
    signed: &DigitallySignedStruct,
) -> (verdict: Result<HandshakeSignatureValid, TlsError>)
    ensures
        verdict is Ok <==> signed_in_tls13(message@, *cert, *signed),
{
    let algorithms = ring::default_provider().signature_verification_algorithms;
    rustls::crypto::verify_tls13_signature(message, cert, signed, &algorithms)
}

/// `WebPkiSupportedAlgorithms::supported_schemes` for the algorithms of
/// *ring*: there are some.
#[verifier::external_body]
fn known_schemes() -> (schemes: Vec<SignatureScheme>)
    ensures
        schemes@.len() > 0,
{
    ring::default_provider().signature_verification_algorithms.supported_schemes()
}

/// Accepts every server certificate, for clients that do not verify.
///
/// The server still has to prove that it holds the key of the certificate
/// that it shows.
#[derive(Debug)]
pub struct DisabledServerCertVerifier;

impl DisabledServerCertVerifier {
    /// Never fails.
    pub fn new() -> (verifier: Result<Self, Error>)
        ensures
            verifier is Ok,
    {
        Ok(DisabledServerCertVerifier)
    }
}

impl ServerCertVerifier for DisabledServerCertVerifier {
    fn verify_server_cert(
        &self,
        _end_entity: &CertificateDer<'_>,
        _intermediates: &[CertificateDer<'_>],
        _server_name: &ServerName<'_>,
        _ocsp_response: &[u8],
        _now: UnixTime,
    ) -> (verdict: Result<ServerCertVerified, TlsError>)
        ensures
            verdict is Ok,
    {
        Ok(accepted_server())
    }

    fn verify_tls12_signature(
        &self,
        message: &[u8],
        cert: &CertificateDer<'_>,
        dss: &DigitallySignedStruct,
    ) -> (verdict: Result<HandshakeSignatureValid, TlsError>)
        ensures
            verdict is Ok <==> signed_in_tls12(message@, *cert, *dss),
    {
        check_tls12_signature(message, cert, dss)
    }

    fn verify_tls13_signature(
        &self,
        message: &[u8],
        cert: &CertificateDer<'_>,
        dss: &DigitallySignedStruct,
    ) -> (verdict: Result<HandshakeSignatureValid, TlsError>)
        ensures
            verdict is Ok <==> signed_in_tls13(message@, *cert, *dss),
    {
        check_tls13_signature(message, cert, dss)
    }

    fn supported_verify_schemes(&self) -> (schemes: Vec<SignatureScheme>)
        ensures
            schemes@.len() > 0,
    {
        known_schemes()
    }
}

/// Rejects every client certificate but lets clients without one connect, for
/// servers that verify but trust nobody.
#[derive(Debug)]
pub struct RejectedClientCertAllowedAnonymousVerifier;

impl RejectedClientCertAllowedAnonymousVerifier {
    /// Never fails.
    pub fn new() -> (verifier: Result<Self, Error>)
        ensures
            verifier is Ok,
    {
        Ok(RejectedClientCertAllowedAnonymousVerifier)
    }
}

impl ClientCertVerifier for RejectedClientCertAllowedAnonymousVerifier {
    fn offer_client_auth(&self) -> (offer: bool)
        ensures
            offer,
    {
        true
    }

    fn client_auth_mandatory(&self) -> (mandatory: bool)
        ensures
            !mandatory,
    {
        false
    }

    fn root_hint_subjects(&self) -> (subjects: &[DistinguishedName])
        ensures
            subjects@.len() == 0,
    {
        &[]
    }

    fn verify_client_cert(
        &self,
        _end_entity: &CertificateDer<'_>,
        _intermediates: &[CertificateDer<'_>],
        _now: UnixTime,
    ) -> (verdict: Result<ClientCertVerified, TlsError>)
        ensures
            verdict matches Err(error) && connection::error_text(error) == unknown_issuer_text(),
    {
        Err(unknown_issuer())
    }

    fn verify_tls12_signature(
        &self,
        message: &[u8],
        cert: &CertificateDer<'_>,
        dss: &DigitallySignedStruct,
    ) -> (verdict: Result<HandshakeSignatureValid, TlsError>)
        ensures
            verdict is Ok <==> signed_in_tls12(message@, *cert, *dss),
    {
        check_tls12_signature(message, cert, dss)
    }

    fn verify_tls13_signature(
        &self,
        message: &[u8],
        cert: &CertificateDer<'_>,
        dss: &DigitallySignedStruct,
    ) -> (verdict: Result<HandshakeSignatureValid, TlsError>)
        ensures
            verdict is Ok <==> signed_in_tls13(message@, *cert, *dss),
    {
        check_tls13_signature(message, cert, dss)
    }

    fn supported_verify_schemes(&self) -> (schemes: Vec<SignatureScheme>)
        ensures
            schemes@.len() > 0,
    {
        known_schemes()
    }
}

} // verus!
