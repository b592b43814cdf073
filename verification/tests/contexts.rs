//! Settings, what they are built from, and how they are refused.

use quic_tls::config::{fits_hello, EXTENSION_ROOM};
use quic_tls::context::{Context, HostResources};
use quic_tls::crypto::ExData;
use quic_tls::pem::{read_certificates, read_private_key};
use quic_tls::types::{Error, Level};
use std::sync::Arc;

/// A root certificate, valid from 2020 to 2120.
const ROOT: &str = "-----BEGIN CERTIFICATE-----\n\
MIIBQjCB6KADAgECAgEBMAoGCCqGSM49BAMCMBcxFTATBgNVBAMMDEV4YW1wbGUg\n\
Um9vdDAgFw0yMDAxMDEwMDAwMDBaGA8yMTIwMDEwMTAwMDAwMFowFzEVMBMGA1UE\n\
AwwMRXhhbXBsZSBSb290MFkwEwYHKoZIzj0CAQYIKoZIzj0DAQcDQgAE/8atuEN4\n\
vnbxw7W1r1IspbOXr+9EXMsI3n6fTzMqG+o0lSHPz3URRrNLBFz/quqe/6jjNsMd\n\
9tQdPVg5wlibzKMjMCEwDwYDVR0TAQH/BAUwAwEB/zAOBgNVHQ8BAf8EBAMCAQYw\n\
CgYIKoZIzj0EAwIDSQAwRgIhAK76gktjcm1XnsT3zxnGaWkzadEEJ9qXmZYwx6U9\n\
TFkUAiEAnJ/HDP5FkI6TWGiSOFpu0G1LpMzTAOB5//6TosMfdAM=\n\
-----END CERTIFICATE-----\n";

/// A certificate for `server.example` that the root has issued.
const LEAF: &str = "-----BEGIN CERTIFICATE-----\n\
MIIBSzCB8qADAgECAgECMAoGCCqGSM49BAMCMBcxFTATBgNVBAMMDEV4YW1wbGUg\n\
Um9vdDAgFw0yMDAxMDEwMDAwMDBaGA8yMTIwMDEwMTAwMDAwMFowGTEXMBUGA1UE\n\
AwwOc2VydmVyLmV4YW1wbGUwKjAFBgMrZXADIQDqSmxj4pxSCr71UHsTLsX5lUd2\n\
rr6+e5JCHuppFEbSLKNaMFgwDAYDVR0TAQH/BAIwADAZBgNVHREEEjAQgg5zZXJ2\n\
ZXIuZXhhbXBsZTAdBgNVHSUEFjAUBggrBgEFBQcDAQYIKwYBBQUHAwIwDgYDVR0P\n\
AQH/BAQDAgeAMAoGCCqGSM49BAMCA0gAMEUCIAWjkWBXfB8JsKDndpjSmXiQsokH\n\
UY72BcKXE/3468nTAiEAsWMu1Wo0qnjhFpFz8CQlfdWYi1oiXozpQdsUaNRLrEQ=\n\
-----END CERTIFICATE-----\n";

/// A section of PEM text. The length of `der` is a multiple of three, so that
/// no padding is needed.
fn pem(label: &str, der: &[u8]) -> String {
    let alphabet = b"ABCDEFGHIJKLMNOPQRSTUVWXYZabcdefghijklmnopqrstuvwxyz0123456789+/";
    let mut body = String::new();
    for group in der.chunks(3) {
        let bits = (group[0] as usize) << 16 | (group[1] as usize) << 8 | group[2] as usize;
        for shift in [18, 12, 6, 0] {
            body.push(alphabet[bits >> shift & 63] as char);
        }
    }
    format!("-----BEGIN {label}-----\n{body}\n-----END {label}-----\n")
}

/// The PEM text of the Ed25519 key whose seed is `byte`, over and over.
fn key_of_seed(byte: u8) -> String {
    let mut der = vec![0x30, 0x2e, 0x02, 0x01, 0x00, 0x30, 0x05, 0x06, 0x03];
    der.extend_from_slice(&[0x2b, 0x65, 0x70, 0x04, 0x22, 0x04, 0x20]);
    der.extend_from_slice(&[byte; 32]);
    pem("PRIVATE KEY", &der)
}

/// The key that goes with the certificate for `server.example`.
fn leaf_key() -> String {
    key_of_seed(7)
}

/// A key that goes with no certificate here.
fn other_key() -> String {
    key_of_seed(8)
}

const BROKEN: &str = "-----BEGIN CERTIFICATE-----\n!!!!\n-----END CERTIFICATE-----\n";

fn nothing() -> HostResources {
    HostResources { native_certs: Vec::new(), key_log: None }
}

fn identity() -> Context {
    let mut context = Context::new().unwrap();
    context.use_certificate_chain_file(LEAF.as_bytes()).unwrap();
    context.use_privkey_file(leaf_key().as_bytes()).unwrap();
    context
}

#[test]
fn certificates_are_read_in_order() {
    let both = format!("{}text between\n{}", LEAF, ROOT);
    let certs = read_certificates(both.as_bytes()).unwrap();
    assert_eq!(certs.len(), 2);
    assert_eq!(certs[0], read_certificates(LEAF.as_bytes()).unwrap()[0]);
    assert_eq!(certs[1], read_certificates(ROOT.as_bytes()).unwrap()[0]);
    // DER, not the text.
    assert_eq!(certs[0][0], 0x30);
    assert_eq!(read_certificates(b"").unwrap().len(), 0);
    assert_eq!(read_certificates(leaf_key().as_bytes()).unwrap().len(), 0);
}

#[test]
fn one_malformed_certificate_spoils_the_file() {
    let text = format!("{}{}", LEAF, BROKEN);
    assert_eq!(read_certificates(text.as_bytes()), Err(Error::TlsFail));
}

#[test]
fn private_key_is_found_behind_other_sections() {
    let text = format!("{}{}", LEAF, leaf_key());
    let alone = read_private_key(leaf_key().as_bytes()).unwrap();
    assert!(read_private_key(text.as_bytes()).unwrap() == alone);
    assert!(read_private_key(other_key().as_bytes()).unwrap() != alone);
    assert!(matches!(read_private_key(LEAF.as_bytes()), Err(Error::TlsFail)));
    assert!(matches!(read_private_key(b""), Err(Error::TlsFail)));
}

#[test]
fn malformed_files_are_refused() {
    let mut context = identity();
    assert_eq!(context.use_certificate_chain_file(BROKEN.as_bytes()), Err(Error::TlsFail));
    assert_eq!(context.use_privkey_file(LEAF.as_bytes()), Err(Error::TlsFail));
    assert_eq!(context.load_verify_locations_from_file(BROKEN.as_bytes()), Err(Error::TlsFail));
    let files = vec![ROOT.as_bytes().to_vec(), BROKEN.as_bytes().to_vec()];
    assert_eq!(context.load_verify_locations_from_directory(&files), Err(Error::TlsFail));
    // Nothing was taken over from any of them: the identity still serves, and
    // verification still has no roots of its own.
    context.set_verify(true);
    assert!(context.needs_native_certs());
    assert!(context.new_handshake(nothing()).is_ok());
}

#[test]
fn verification_against_no_roots_is_refused() {
    let mut context = Context::new().unwrap();
    context.load_verify_locations_from_file(b"").unwrap();
    assert!(context.new_handshake(nothing()).is_ok());
    context.set_verify(true);
    assert!(!context.needs_native_certs());
    assert!(matches!(context.new_handshake(nothing()), Err(Error::TlsFail)));
    // The same goes for a directory without files, and for a server.
    let mut context = identity();
    context.load_verify_locations_from_directory(&Vec::new()).unwrap();
    context.set_verify(true);
    assert!(matches!(context.new_handshake(nothing()), Err(Error::TlsFail)));
    context.load_verify_locations_from_file(ROOT.as_bytes()).unwrap();
    assert!(context.new_handshake(nothing()).is_ok());
}

#[test]
fn certificate_of_another_key_is_refused() {
    let mut context = Context::new().unwrap();
    context.use_certificate_chain_file(LEAF.as_bytes()).unwrap();
    // Half an identity is none.
    assert!(context.new_handshake(nothing()).is_ok());
    context.use_privkey_file(other_key().as_bytes()).unwrap();
    assert!(matches!(context.new_handshake(nothing()), Err(Error::TlsFail)));
    context.use_privkey_file(leaf_key().as_bytes()).unwrap();
    assert!(context.new_handshake(nothing()).is_ok());
}

#[test]
fn empty_chain_is_refused() {
    let mut context = Context::new().unwrap();
    context.use_certificate_chain_file(b"").unwrap();
    context.use_privkey_file(leaf_key().as_bytes()).unwrap();
    assert!(matches!(context.new_handshake(nothing()), Err(Error::TlsFail)));
}

#[test]
fn roots_of_the_host_may_be_none() {
    let mut context = Context::new().unwrap();
    context.set_verify(true);
    assert!(context.new_handshake(nothing()).is_ok());
    assert!(!context.needs_native_certs());
}

#[test]
fn key_log_is_asked_for_once() {
    let mut context = Context::new().unwrap();
    assert!(!context.needs_key_log());
    context.enable_keylog();
    assert!(context.needs_key_log());
    let log = Arc::new(rustls::KeyLogFile::new());
    let host = HostResources { native_certs: Vec::new(), key_log: Some(log.clone()) };
    context.new_handshake(host).unwrap();
    assert!(!context.needs_key_log());
    // The configuration holds on to it.
    assert_eq!(Arc::strong_count(&log), 2);
    context.set_alpn(&[b"h3"]).unwrap();
    assert!(context.needs_key_log());
    assert_eq!(Arc::strong_count(&log), 1);
}

#[test]
fn key_log_is_shared_by_both_configurations() {
    let mut context = identity();
    context.enable_keylog();
    let log = Arc::new(rustls::KeyLogFile::new());
    let host = HostResources { native_certs: Vec::new(), key_log: Some(log.clone()) };
    context.new_handshake(host).unwrap();
    assert_eq!(Arc::strong_count(&log), 3);
    // Without the setting it is left alone.
    let mut context = identity();
    let host = HostResources { native_certs: Vec::new(), key_log: Some(log.clone()) };
    drop(log.clone());
    context.new_handshake(host).unwrap();
    assert!(!context.needs_key_log());
}

#[test]
fn missing_settings_are_refused() {
    let mut context = identity();
    let mut ex = ExData::new();
    let mut shake = context.new_handshake(nothing()).unwrap();
    // No transport parameters.
    assert_eq!(shake.do_handshake(&mut ex), Err(Error::TlsFail));
    shake.init(true).unwrap();
    assert_eq!(shake.do_handshake(&mut ex), Err(Error::TlsFail));

    // A server without an identity.
    let mut shake = Context::new().unwrap().new_handshake(nothing()).unwrap();
    shake.init(true).unwrap();
    shake.set_quic_transport_params(&[1]).unwrap();
    assert_eq!(shake.do_handshake(&mut ex), Err(Error::TlsFail));

    // A client that verifies a server without a name.
    let mut context = Context::new().unwrap();
    context.set_verify(true);
    let mut shake = context.new_handshake(nothing()).unwrap();
    shake.set_quic_transport_params(&[1]).unwrap();
    assert_eq!(shake.do_handshake(&mut ex), Err(Error::TlsFail));
    shake.set_host_name("server.example").unwrap();
    assert_eq!(shake.do_handshake(&mut ex), Ok(()));
    assert!(ex.local_error.is_none());
    assert!(!ex.crypto_ctx.initial.crypto_stream.send.is_empty());
}

#[test]
fn host_names_are_checked() {
    let mut shake = Context::new().unwrap().new_handshake(nothing()).unwrap();
    assert_eq!(shake.set_host_name("server.example"), Ok(()));
    assert_eq!(shake.set_host_name("192.0.2.1"), Ok(()));
    assert_eq!(shake.set_host_name("2001:db8::1"), Ok(()));
    assert_eq!(shake.set_host_name(""), Err(Error::TlsFail));
    assert_eq!(shake.set_host_name("not a name"), Err(Error::TlsFail));
}

#[test]
fn transport_params_have_a_limit() {
    let mut shake = Context::new().unwrap().new_handshake(nothing()).unwrap();
    assert_eq!(shake.set_quic_transport_params(&[0; 128]), Ok(()));
    assert_eq!(shake.set_quic_transport_params(&[0; 129]), Err(Error::BufferTooShort));
    assert_eq!(shake.set_quic_transport_params(&[]), Ok(()));
}

#[test]
fn sessions_are_for_clients() {
    let mut shake = Context::new().unwrap().new_handshake(nothing()).unwrap();
    assert_eq!(shake.set_session(&[0; 16]), Ok(()));
    shake.init(true).unwrap();
    assert_eq!(shake.set_session(&[0; 16]), Err(Error::TlsFail));
    shake.init(false).unwrap();
    assert_eq!(shake.set_session(&[]), Ok(()));
}

#[test]
fn handshake_that_has_not_begun_knows_nothing() {
    let mut shake = Context::new().unwrap().new_handshake(nothing()).unwrap();
    let mut ex = ExData::new();
    shake.use_legacy_codepoint(true);
    assert_eq!(shake.process_post_handshake(&mut ex), Ok(()));
    assert_eq!(shake.write_level(), Level::Initial);
    assert!(!shake.is_completed());
    assert!(!shake.is_resumed());
    assert!(!shake.is_in_early_data());
    assert_eq!(shake.quic_transport_params(), b"");
    assert_eq!(shake.alpn_protocol(), b"");
    assert_eq!(shake.server_name(), None);
    assert_eq!(shake.cipher(), None);
    assert_eq!(shake.curve(), None);
    assert_eq!(shake.sigalg(), None);
    assert_eq!(shake.peer_cert(), None);
    assert_eq!(shake.peer_cert_chain(), None);
    assert_eq!(shake.early_data_reason(), 0);
}

#[test]
fn protocols_that_cannot_be_offered_are_told() {
    let mut context = Context::new().unwrap();
    context.set_alpn(&[b"h3", b""]).unwrap();
    let mut shake = context.new_handshake(nothing()).unwrap();
    let mut ex = ExData::new();
    // Nothing is offered yet.
    assert_eq!(shake.try_handshake(&mut ex), Some(Err(Error::TlsFail)));
    shake.set_quic_transport_params(&[1]).unwrap();
    assert!(!shake.is_ready());
    assert_eq!(shake.try_handshake(&mut ex), None);
    assert!(ex.crypto_ctx.initial.crypto_stream.send.is_empty());
    context.set_alpn(&[b"h3"]).unwrap();
    let mut shake = context.new_handshake(nothing()).unwrap();
    shake.set_quic_transport_params(&[1]).unwrap();
    assert!(shake.is_ready());
    assert_eq!(shake.try_handshake(&mut ex), Some(Ok(())));
    assert!(!ex.crypto_ctx.initial.crypto_stream.send.is_empty());
}

#[test]
fn room_for_protocols_and_params_is_shared() {
    let name = |len: usize| vec![b'x'; len];
    assert!(fits_hello(&Vec::new(), &[]));
    assert_eq!(EXTENSION_ROOM, 65021);
    assert!(fits_hello(&vec![name(65020)], &[]));
    assert!(!fits_hello(&vec![name(65021)], &[]));
    assert!(fits_hello(&vec![name(65019)], &[0]));
    assert!(!fits_hello(&vec![name(65020)], &[0]));
    assert!(fits_hello(&vec![name(65000), name(19)], &[]));
    assert!(!fits_hello(&vec![name(65000), name(20)], &[]));
    assert!(!fits_hello(&vec![name(1), name(0)], &[]));
    assert!(fits_hello(&Vec::new(), &vec![0; 65021]));
    assert!(!fits_hello(&Vec::new(), &vec![0; 65022]));
}

#[test]
fn roots_of_the_host_are_loaded_once() {
    let mut context = Context::new().unwrap();
    let mut certs = read_certificates(ROOT.as_bytes()).unwrap();
    certs.push(vec![0xff]);
    let store = context.load_system_default_certificate_store(certs);
    assert_eq!(store.len(), 1);
    // Whatever is offered later, those are the ones.
    let store = context.load_system_default_certificate_store(Vec::new());
    assert_eq!(store.len(), 1);
    context.set_verify(true);
    assert!(!context.needs_native_certs());
}

#[test]
fn dropped_configurations_are_built_again() {
    let mut context = Context::new().unwrap();
    context.enable_keylog();
    context.new_handshake(nothing()).unwrap();
    assert!(!context.needs_key_log());
    context.invalidate_configs();
    assert!(context.needs_key_log());
    context.new_handshake(nothing()).unwrap();
    assert!(!context.needs_key_log());
}

#[test]
fn configuration_that_rustls_refuses_is_a_failure() {
    let context = identity();
    let refused = || rustls::Error::General("no".into());
    assert!(matches!(context.finish_server(Err(refused()), &None), Err(Error::TlsFail)));
    assert!(matches!(context.finish_client(Err(refused()), &None), Err(Error::TlsFail)));
}
