//! Plain values: error codes, algorithms, session blobs, levels, keys.

use quic_tls::connection::KeyChange;
use quic_tls::context::{Context, HostResources};
use quic_tls::crypto::{key_material_from_keys, CryptoContext, CryptoStream, ExData};
use quic_tls::handshake::Handshake;
use quic_tls::session::session_blob;
use quic_tls::types::{Algorithm, Error, Level, Version};
use quic_tls::verifiers::{
    DisabledServerCertVerifier, RejectedClientCertAllowedAnonymousVerifier,
};
use rustls::client::danger::ServerCertVerifier;
use rustls::pki_types::{CertificateDer, ServerName, UnixTime};
use rustls::quic::Keys;
use rustls::server::danger::ClientCertVerifier;

fn keys(connection_id: &[u8]) -> Keys {
    let suite = rustls::crypto::ring::cipher_suite::TLS13_AES_128_GCM_SHA256.tls13().unwrap();
    Keys::initial(
        rustls::quic::Version::V1,
        suite,
        suite.quic.unwrap(),
        connection_id,
        rustls::Side::Client,
    )
}

fn shake() -> Handshake {
    let host = HostResources { native_certs: Vec::new(), key_log: None };
    Context::new().unwrap().new_handshake(host).unwrap()
}

#[test]
fn alerts_are_told_by_their_code() {
    let error = Handshake::connection_error(Some(40), b"why".to_vec());
    assert!(!error.is_app);
    assert_eq!(error.error_code, 0x128);
    assert_eq!(error.reason, b"why");
    assert_eq!(Handshake::connection_error(Some(0), Vec::new()).error_code, 0x100);
    assert_eq!(Handshake::connection_error(Some(255), Vec::new()).error_code, 0x1ff);
    let error = Handshake::connection_error(None, vec![1]);
    assert!(!error.is_app);
    assert_eq!(error.error_code, 0x01);
    assert_eq!(error.reason, [1]);
}

#[test]
fn suites_have_their_algorithms() {
    assert_eq!(Handshake::algorithm(0x1301), Some(Algorithm::AES128_GCM));
    assert_eq!(Handshake::algorithm(0x1302), Some(Algorithm::AES256_GCM));
    assert_eq!(Handshake::algorithm(0x1303), Some(Algorithm::ChaCha20_Poly1305));
    assert_eq!(Handshake::algorithm(0x1304), None);
    assert_eq!(Handshake::algorithm(0), None);
}

#[test]
fn session_blob_frames_the_params() {
    assert_eq!(session_blob(&[]), vec![0; 16]);
    let mut expected = vec![0; 14];
    expected.extend_from_slice(&[1, 2]);
    expected.extend_from_slice(&[7; 0x102]);
    assert_eq!(session_blob(&[7; 0x102]), expected);
}

#[test]
fn version_defaults_to_one() {
    assert_eq!(Version::default(), Version::V1);
}

#[test]
fn crypto_stream_keeps_order() {
    let mut stream = CryptoStream { send: vec![1] };
    stream.write(&[2, 3]);
    stream.write(&[]);
    stream.write(&[4]);
    assert_eq!(stream.send, [1, 2, 3, 4]);
}

#[test]
fn crypto_data_goes_to_the_space_of_its_level() {
    let shake = shake();
    let mut ex = ExData::new();
    assert_eq!(shake.write_crypto_stream(Level::Initial, &mut ex, &[1]), Ok(()));
    assert_eq!(shake.write_crypto_stream(Level::Handshake, &mut ex, &[2]), Ok(()));
    assert_eq!(shake.write_crypto_stream(Level::OneRTT, &mut ex, &[3]), Ok(()));
    assert_eq!(shake.write_crypto_stream(Level::Initial, &mut ex, &[4]), Ok(()));
    assert_eq!(shake.write_crypto_stream(Level::ZeroRTT, &mut ex, &[5]), Err(Error::TlsFail));
    assert_eq!(ex.crypto_ctx.initial.crypto_stream.send, [1, 4]);
    assert_eq!(ex.crypto_ctx.handshake.crypto_stream.send, [2]);
    assert_eq!(ex.crypto_ctx.application.crypto_stream.send, [3]);
}

#[test]
fn handshake_keys_are_accepted_once() {
    let mut shake = shake();
    let mut ex = ExData::new();
    let change = KeyChange::Handshake { keys: keys(&[1]) };
    assert_eq!(shake.process_key_change(&mut ex, change), Ok(true));
    assert_eq!(shake.write_level(), Level::Handshake);
    assert!(ex.crypto_ctx.handshake.crypto_open.is_some());
    assert!(ex.crypto_ctx.handshake.crypto_seal.is_some());
    assert!(ex.crypto_ctx.application.crypto_open.is_none());
    let change = KeyChange::Handshake { keys: keys(&[2]) };
    assert_eq!(shake.process_key_change(&mut ex, change), Err(Error::TlsFail));
    assert_eq!(shake.write_level(), Level::Handshake);
}

#[test]
fn local_keys_seal_and_remote_keys_open() {
    let near = keys(&[1, 2, 3]);
    let header = [1];
    let mut sealed = b"text".to_vec();
    let tag = near.local.packet.encrypt_in_place(1, &header, &mut sealed).unwrap();
    let (open, seal) = key_material_from_keys(keys(&[1, 2, 3]), None).ok().unwrap();
    let mut again = b"text".to_vec();
    let same = seal.keys.packet.encrypt_in_place(1, &header, &mut again).unwrap();
    assert_eq!(sealed, again);
    assert_eq!(tag.as_ref(), same.as_ref());
    let mut other = b"text".to_vec();
    let _ = open.keys.packet.encrypt_in_place(1, &header, &mut other).unwrap();
    assert_ne!(sealed, other);
    assert!(open.next.is_none() && seal.next.is_none());
}

#[test]
fn new_space_is_empty() {
    let space = CryptoContext::new();
    assert!(space.crypto_open.is_none());
    assert!(space.crypto_seal.is_none());
    assert!(space.crypto_0rtt_open.is_none());
    assert!(space.crypto_stream.send.is_empty());
}

#[test]
fn any_server_certificate_will_do_without_verification() {
    let verifier = DisabledServerCertVerifier::new().unwrap();
    let cert = CertificateDer::from(vec![1, 2, 3]);
    let name = ServerName::try_from("server.example").unwrap();
    assert!(verifier.verify_server_cert(&cert, &[], &name, &[], UnixTime::now()).is_ok());
    assert!(!verifier.supported_verify_schemes().is_empty());
}

#[test]
fn no_client_certificate_will_do_without_roots() {
    let verifier = RejectedClientCertAllowedAnonymousVerifier::new().unwrap();
    let cert = CertificateDer::from(vec![1, 2, 3]);
    let refusal = verifier.verify_client_cert(&cert, &[], UnixTime::now()).unwrap_err();
    assert_eq!(refusal.to_string(), "invalid peer certificate: UnknownIssuer");
    assert!(verifier.offer_client_auth());
    assert!(!verifier.client_auth_mandatory());
    assert!(verifier.root_hint_subjects().is_empty());
    assert!(!verifier.supported_verify_schemes().is_empty());
}
