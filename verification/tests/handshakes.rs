//! Whole handshakes between a client and a server in memory.

use quic_tls::config::EXTENSION_ROOM;
use quic_tls::context::{Context, HostResources};
use quic_tls::crypto::{ExData, Open, Seal};
use quic_tls::handshake::Handshake;
use quic_tls::pem::read_certificates;
use quic_tls::types::{Algorithm, Error, Level};

/// A root certificate, valid from 2020 to 2120.
const ROOT: &str = "-----BEGIN CERTIFICATE-----\n\
MIIBQjCB6KADAgECAgEBMAoGCCqGSM49BAMCMBcxFTATBgNVBAMMDEV4YW1wbGUg\n\
Um9vdDAgFw0yMDAxMDEwMDAwMDBaGA8yMTIwMDEwMTAwMDAwMFowFzEVMBMGA1UE\n\
AwwMRXhhbXBsZSBSb290MFkwEwYHKoZIzj0CAQYIKoZIzj0DAQcDQgAE/8atuEN4\n\
vnbxw7W1r1IspbOXr+9EXMsI3n6fTzMqG+o0lSHPz3URRrNLBFz/quqe/6jjNsMd\n\
9tQdPVg5wlibzKMjMCEwDwYDVR0TAQH/BAUwAwEB/zAOBgNVHQ8BAf8EBAMCAQYw\n\
CgYIKoZIzj0EAwIDSQAwRgIhAK76gktjcm1XnsT3zxnGaWkzadEEJ9qXmZYwx6U9\n\
TFkUAiEAnJ/HDP5FkI6TWGiSOFpu0G1LpMzTAOB5//6TosMfdAM=\n\
-----END CERTIFICATE-----\n";

/// A certificate for `server.example` that the root has issued.
const LEAF: &str = "-----BEGIN CERTIFICATE-----\n\
MIIBSzCB8qADAgECAgECMAoGCCqGSM49BAMCMBcxFTATBgNVBAMMDEV4YW1wbGUg\n\
Um9vdDAgFw0yMDAxMDEwMDAwMDBaGA8yMTIwMDEwMTAwMDAwMFowGTEXMBUGA1UE\n\
AwwOc2VydmVyLmV4YW1wbGUwKjAFBgMrZXADIQDqSmxj4pxSCr71UHsTLsX5lUd2\n\
rr6+e5JCHuppFEbSLKNaMFgwDAYDVR0TAQH/BAIwADAZBgNVHREEEjAQgg5zZXJ2\n\
ZXIuZXhhbXBsZTAdBgNVHSUEFjAUBggrBgEFBQcDAQYIKwYBBQUHAwIwDgYDVR0P\n\
AQH/BAQDAgeAMAoGCCqGSM49BAMCA0gAMEUCIAWjkWBXfB8JsKDndpjSmXiQsokH\n\
UY72BcKXE/3468nTAiEAsWMu1Wo0qnjhFpFz8CQlfdWYi1oiXozpQdsUaNRLrEQ=\n\
-----END CERTIFICATE-----\n";

/// A section of PEM text. The length of `der` is a multiple of three, so that
/// no padding is needed.
fn pem(label: &str, der: &[u8]) -> String {
    let alphabet = b"ABCDEFGHIJKLMNOPQRSTUVWXYZabcdefghijklmnopqrstuvwxyz0123456789+/";
    let mut body = String::new();
    for group in der.chunks(3) {
        let bits = (group[0] as usize) << 16 | (group[1] as usize) << 8 | group[2] as usize;
        for shift in [18, 12, 6, 0] {
            body.push(alphabet[bits >> shift & 63] as char);
        }
    }
    format!("-----BEGIN {label}-----\n{body}\n-----END {label}-----\n")
}

/// The PEM text of the Ed25519 key whose seed is `byte`, over and over.
fn key_of_seed(byte: u8) -> String {
    let mut der = vec![0x30, 0x2e, 0x02, 0x01, 0x00, 0x30, 0x05, 0x06, 0x03];
    der.extend_from_slice(&[0x2b, 0x65, 0x70, 0x04, 0x22, 0x04, 0x20]);
    der.extend_from_slice(&[byte; 32]);
    pem("PRIVATE KEY", &der)
}

/// The key that goes with the certificate for `server.example`.
fn leaf_key() -> String {
    key_of_seed(7)
}

/// A certificate for `server.example` whose public key is the base point of
/// P-256.
const POINT: &str = "-----BEGIN CERTIFICATE-----\n\
MIIBezCCASGgAwIBAgIBAzAKBggqhkjOPQQDAjAXMRUwEwYDVQQDDAxFeGFtcGxl\n\
IFJvb3QwIBcNMjAwMTAxMDAwMDAwWhgPMjEyMDAxMDEwMDAwMDBaMBkxFzAVBgNV\n\
BAMMDnNlcnZlci5leGFtcGxlMFkwEwYHKoZIzj0CAQYIKoZIzj0DAQcDQgAEaxfR\n\
8uEsQkf4vOblY6RA8ncDfYEt6zOg9KE5RdiYwpZP40Li/hp/m47n60p8D54WK84z\n\
V2sxXs7LtkBoN79R9aNaMFgwDAYDVR0TAQH/BAIwADAZBgNVHREEEjAQgg5zZXJ2\n\
ZXIuZXhhbXBsZTAdBgNVHSUEFjAUBggrBgEFBQcDAQYIKwYBBQUHAwIwDgYDVR0P\n\
AQH/BAQDAgeAMAoGCCqGSM49BAMCA0gAMEUCIQCu2cqQWrczk9Kuw+7ombP8PamF\n\
KGGYZF1MsYusrfhyEAIgA4R6iC3tEKXchK9s8Q9sx1nPKCRXfneqpf6zA0rWL6k=\n\
-----END CERTIFICATE-----\n";

/// The base point of P-256.
const BASE_POINT: [u8; 64] = [
    0x6b, 0x17, 0xd1, 0xf2, 0xe1, 0x2c, 0x42, 0x47, 0xf8, 0xbc, 0xe6, 0xe5, 0x63, 0xa4, 0x40, 0xf2,
    0x77, 0x03, 0x7d, 0x81, 0x2d, 0xeb, 0x33, 0xa0, 0xf4, 0xa1, 0x39, 0x45, 0xd8, 0x98, 0xc2, 0x96,
    0x4f, 0xe3, 0x42, 0xe2, 0xfe, 0x1a, 0x7f, 0x9b, 0x8e, 0xe7, 0xeb, 0x4a, 0x7c, 0x0f, 0x9e, 0x16,
    0x2b, 0xce, 0x33, 0x57, 0x6b, 0x31, 0x5e, 0xce, 0xcb, 0xb6, 0x40, 0x68, 0x37, 0xbf, 0x51, 0xf5,
];

/// The PEM text of the P-256 key whose scalar is one.
fn point_key() -> String {
    let mut der = vec![0x30, 0x81, 0x87, 0x02, 0x01, 0x00, 0x30, 0x13, 0x06, 0x07];
    der.extend_from_slice(&[0x2a, 0x86, 0x48, 0xce, 0x3d, 0x02, 0x01, 0x06, 0x08]);
    der.extend_from_slice(&[0x2a, 0x86, 0x48, 0xce, 0x3d, 0x03, 0x01, 0x07, 0x04, 0x6d]);
    der.extend_from_slice(&[0x30, 0x6b, 0x02, 0x01, 0x01, 0x04, 0x20]);
    der.extend_from_slice(&[0; 31]);
    der.extend_from_slice(&[1, 0xa1, 0x44, 0x03, 0x42, 0x00, 0x04]);
    der.extend_from_slice(&BASE_POINT);
    pem("PRIVATE KEY", &der)
}

const CLIENT_PARAMS: &[u8] = &[1, 2, 3];
const SERVER_PARAMS: &[u8] = &[4, 5, 6, 7];

fn nothing() -> HostResources {
    HostResources { native_certs: Vec::new(), key_log: None }
}

fn server_context() -> Context {
    let mut context = Context::new().unwrap();
    context.use_certificate_chain_file(LEAF.as_bytes()).unwrap();
    context.use_privkey_file(leaf_key().as_bytes()).unwrap();
    context
}

/// One end of a connection, and how much of its CRYPTO data has been passed on.
struct End {
    shake: Handshake,
    ex: ExData,
    passed: [usize; 3],
}

fn client_of(context: &mut Context, name: Option<&str>) -> End {
    let mut shake = context.new_handshake(nothing()).unwrap();
    shake.init(false).unwrap();
    shake.set_quic_transport_params(CLIENT_PARAMS).unwrap();
    if let Some(name) = name {
        shake.set_host_name(name).unwrap();
    }
    End { shake, ex: ExData::new(), passed: [0; 3] }
}

fn server_of(context: &mut Context) -> End {
    let mut shake = context.new_handshake(nothing()).unwrap();
    shake.init(true).unwrap();
    shake.set_quic_transport_params(SERVER_PARAMS).unwrap();
    End { shake, ex: ExData::new(), passed: [0; 3] }
}

impl End {
    fn drive(&mut self) -> Result<(), Error> {
        assert!(self.shake.is_ready());
        self.shake.do_handshake(&mut self.ex)
    }

    /// The CRYPTO data that is new since the last call, by level.
    fn fresh(&mut self) -> Vec<(Level, Vec<u8>)> {
        let spaces = &self.ex.crypto_ctx;
        let streams = [
            (Level::Initial, &spaces.initial.crypto_stream.send),
            (Level::Handshake, &spaces.handshake.crypto_stream.send),
            (Level::OneRTT, &spaces.application.crypto_stream.send),
        ];
        let mut out = Vec::new();
        for (i, (level, sent)) in streams.iter().enumerate() {
            if sent.len() > self.passed[i] {
                out.push((*level, sent[self.passed[i]..].to_vec()));
                self.passed[i] = sent.len();
            }
        }
        out
    }
}

/// Passes what is new from one end to the other and drives the latter.
fn pass(from: &mut End, to: &mut End) -> Result<(), Error> {
    for (level, data) in from.fresh() {
        to.shake.provide_data(level, &data).unwrap();
        to.drive()?;
    }
    Ok(())
}

/// Runs a handshake to its end, tickets included.
fn complete(client: &mut End, server: &mut End) -> Result<(), Error> {
    client.drive()?;
    for _ in 0..4 {
        pass(client, server)?;
        pass(server, client)?;
    }
    Ok(())
}

/// Whether a packet that `seal` protects is opened by `open`.
fn opens(seal: &Seal, open: &Open) -> bool {
    let header = [0x40, 0x01];
    let mut payload = b"application data".to_vec();
    let tag = seal.keys.packet.encrypt_in_place(7, &header, &mut payload).unwrap();
    payload.extend_from_slice(tag.as_ref());
    match open.keys.packet.decrypt_in_place(7, &header, &mut payload) {
        Ok(plain) => plain == b"application data",
        Err(_) => false,
    }
}

#[test]
fn handshake_without_verification_completes() {
    let mut cc = Context::new().unwrap();
    let mut sc = server_context();
    cc.set_alpn(&[b"h3", b"hq"]).unwrap();
    sc.set_alpn(&[b"hq"]).unwrap();
    let mut client = client_of(&mut cc, Some("server.example"));
    let mut server = server_of(&mut sc);
    assert!(!client.shake.is_completed());
    assert_eq!(client.shake.write_level(), Level::Initial);

    complete(&mut client, &mut server).unwrap();

    assert!(client.shake.is_completed());
    assert!(server.shake.is_completed());
    assert_eq!(client.shake.write_level(), Level::OneRTT);
    assert_eq!(server.shake.write_level(), Level::OneRTT);
    assert_eq!(client.shake.quic_transport_params(), SERVER_PARAMS);
    assert_eq!(server.shake.quic_transport_params(), CLIENT_PARAMS);
    assert_eq!(client.shake.alpn_protocol(), b"hq");
    assert_eq!(server.shake.alpn_protocol(), b"hq");
    assert_eq!(server.shake.server_name(), Some("server.example"));
    assert_eq!(client.shake.server_name(), None);
    assert_eq!(client.shake.cipher(), server.shake.cipher());
    assert_eq!(client.shake.cipher(), Some(Algorithm::AES256_GCM));
    assert_eq!(client.shake.curve(), Some("X25519".to_string()));
    assert_eq!(client.shake.sigalg(), None);
    assert_eq!(client.shake.early_data_reason(), 0);
    assert!(!client.shake.is_resumed());
    assert!(!client.shake.is_in_early_data());
    let leaf = read_certificates(LEAF.as_bytes()).unwrap();
    assert_eq!(client.shake.peer_cert(), Some(leaf[0].as_slice()));
    assert_eq!(client.shake.peer_cert_chain(), Some(vec![leaf[0].as_slice()]));
    assert_eq!(server.shake.peer_cert(), None);
    assert_eq!(server.shake.peer_cert_chain(), None);
    assert!(client.ex.local_error.is_none());
    assert!(server.ex.local_error.is_none());
}

#[test]
fn keys_of_both_ends_match() {
    let mut cc = Context::new().unwrap();
    let mut sc = server_context();
    let mut client = client_of(&mut cc, None);
    let mut server = server_of(&mut sc);
    complete(&mut client, &mut server).unwrap();

    let (c, s) = (&client.ex.crypto_ctx, &server.ex.crypto_ctx);
    for (near, far) in [(c, s), (s, c)] {
        let seal = near.handshake.crypto_seal.as_ref().unwrap();
        let open = far.handshake.crypto_open.as_ref().unwrap();
        assert!(opens(seal, open));
        assert!(seal.next.is_none() && open.next.is_none());
        let early = seal;
        let seal = near.application.crypto_seal.as_ref().unwrap();
        let open = far.application.crypto_open.as_ref().unwrap();
        assert!(opens(seal, open));
        assert!(!opens(early, open));
        assert!(seal.next.is_some() && open.next.is_some());
        assert!(near.initial.crypto_seal.is_none());
        assert!(near.application.crypto_0rtt_open.is_none());
    }
    // Neither end opens what it has sealed itself.
    let seal = c.application.crypto_seal.as_ref().unwrap();
    let open = c.application.crypto_open.as_ref().unwrap();
    assert!(!opens(seal, open));
}

#[test]
fn one_rtt_keys_wait_for_completion() {
    let mut cc = Context::new().unwrap();
    let mut sc = server_context();
    let mut client = client_of(&mut cc, None);
    let mut server = server_of(&mut sc);
    client.drive().unwrap();
    pass(&mut client, &mut server).unwrap();
    // The server has written all of its flight, and its 1-RTT keys are parked.
    assert_eq!(server.shake.write_level(), Level::OneRTT);
    assert!(!server.shake.is_completed());
    assert!(server.ex.crypto_ctx.application.crypto_open.is_none());
    assert!(server.ex.crypto_ctx.application.crypto_seal.is_none());
    assert!(server.ex.crypto_ctx.handshake.crypto_open.is_some());
    assert!(client.ex.session.is_none());
    // What precedes a change of keys went out at the level before: the
    // ServerHello, and all the rest.
    assert_eq!(server.ex.crypto_ctx.initial.crypto_stream.send[0], 0x02);
    assert_eq!(server.ex.crypto_ctx.handshake.crypto_stream.send[0], 0x08);
    assert!(server.ex.crypto_ctx.application.crypto_stream.send.is_empty());

    pass(&mut server, &mut client).unwrap();
    assert!(client.shake.is_completed());
    pass(&mut client, &mut server).unwrap();
    assert!(server.shake.is_completed());
    assert!(server.ex.crypto_ctx.application.crypto_open.is_some());
    assert!(server.ex.crypto_ctx.application.crypto_seal.is_some());
}

#[test]
fn client_leaves_a_session_with_the_peer_params() {
    let mut cc = Context::new().unwrap();
    let mut sc = server_context();
    let mut client = client_of(&mut cc, None);
    let mut server = server_of(&mut sc);
    complete(&mut client, &mut server).unwrap();
    assert_eq!(
        client.ex.session,
        Some(vec![0, 0, 0, 0, 0, 0, 0, 0, 0, 0, 0, 0, 0, 0, 0, 4, 4, 5, 6, 7])
    );
    assert!(server.ex.session.is_none());
    // One that is there stays.
    client.ex.session = Some(vec![9]);
    client.drive().unwrap();
    assert_eq!(client.ex.session, Some(vec![9]));
}

#[test]
fn placeholder_stands_in_for_a_missing_name() {
    let mut cc = Context::new().unwrap();
    let mut sc = server_context();
    let mut client = client_of(&mut cc, None);
    let mut server = server_of(&mut sc);
    complete(&mut client, &mut server).unwrap();
    assert_eq!(server.shake.server_name(), Some("no.sni.invalid"));
}

#[test]
fn client_verifies_against_loaded_roots() {
    let mut cc = Context::new().unwrap();
    cc.set_verify(true);
    cc.load_verify_locations_from_file(ROOT.as_bytes()).unwrap();
    let mut sc = server_context();
    let mut client = client_of(&mut cc, Some("server.example"));
    let mut server = server_of(&mut sc);
    complete(&mut client, &mut server).unwrap();
    assert!(client.shake.is_completed());
}

#[test]
fn client_verifies_against_roots_of_a_directory() {
    let mut cc = Context::new().unwrap();
    cc.set_verify(true);
    let files = vec![LEAF.as_bytes().to_vec(), ROOT.as_bytes().to_vec()];
    cc.load_verify_locations_from_directory(&files).unwrap();
    let mut sc = server_context();
    let mut client = client_of(&mut cc, Some("server.example"));
    let mut server = server_of(&mut sc);
    complete(&mut client, &mut server).unwrap();
    assert!(client.shake.is_completed());
}

#[test]
fn ecdsa_identity_serves() {
    let mut cc = Context::new().unwrap();
    cc.set_verify(true);
    cc.load_verify_locations_from_file(ROOT.as_bytes()).unwrap();
    let mut sc = Context::new().unwrap();
    sc.use_certificate_chain_file(POINT.as_bytes()).unwrap();
    sc.use_privkey_file(point_key().as_bytes()).unwrap();
    let mut client = client_of(&mut cc, Some("server.example"));
    let mut server = server_of(&mut sc);
    complete(&mut client, &mut server).unwrap();
    assert!(client.shake.is_completed() && server.shake.is_completed());
    let cert = read_certificates(POINT.as_bytes()).unwrap();
    assert_eq!(client.shake.peer_cert(), Some(cert[0].as_slice()));
    // The key of the other certificate does not go with it.
    sc.use_privkey_file(leaf_key().as_bytes()).unwrap();
    assert!(matches!(sc.new_handshake(nothing()), Err(Error::TlsFail)));
}

#[test]
fn first_drive_of_a_client_sends_its_hello_only() {
    let mut client = client_of(&mut Context::new().unwrap(), None);
    client.drive().unwrap();
    let hello = client.fresh();
    assert_eq!(hello.len(), 1);
    assert_eq!(hello[0].0, Level::Initial);
    assert_eq!(hello[0].1[0], 0x01);
    assert_eq!(client.shake.write_level(), Level::Initial);
    // Nothing is left for a second.
    client.drive().unwrap();
    assert!(client.fresh().is_empty());
}

#[test]
fn largest_offer_fits_its_length() {
    let label = "a".repeat(63);
    let name = format!("{label}.{label}.{label}.{}", "b".repeat(61));
    assert_eq!(name.len(), 253);
    let mut names = vec![vec![b'x'; 254]; 254];
    let left = EXTENSION_ROOM - CLIENT_PARAMS.len() - 254 * 255;
    names.push(vec![b'y'; left - 1]);
    let names: Vec<&[u8]> = names.iter().map(|name| name.as_slice()).collect();
    let mut context = Context::new().unwrap();
    context.set_alpn(&names).unwrap();
    let mut client = client_of(&mut context, Some(&name));
    assert!(client.shake.is_ready());
    client.drive().unwrap();
    let hello = client.fresh().remove(0).1;
    // Behind the header, the version and the random bytes.
    let mut at = 4 + 2 + 32;
    at += 1 + hello[at] as usize;
    at += 2 + u16::from_be_bytes([hello[at], hello[at + 1]]) as usize;
    at += 1 + hello[at] as usize;
    let extensions = u16::from_be_bytes([hello[at], hello[at + 1]]) as usize;
    assert_eq!(extensions, hello.len() - at - 2);
    // One byte more is not offered.
    client.shake.clear().unwrap();
    client.shake.set_quic_transport_params(&[0; 4]).unwrap();
    assert!(!client.shake.is_ready());
}

#[test]
fn roots_of_several_files_add_up() {
    let mut cc = Context::new().unwrap();
    cc.set_verify(true);
    cc.load_verify_locations_from_file(ROOT.as_bytes()).unwrap();
    cc.load_verify_locations_from_file(LEAF.as_bytes()).unwrap();
    cc.load_verify_locations_from_file(b"").unwrap();
    let mut sc = server_context();
    let mut client = client_of(&mut cc, Some("server.example"));
    let mut server = server_of(&mut sc);
    complete(&mut client, &mut server).unwrap();
    assert!(client.shake.is_completed());
}

#[test]
fn client_falls_back_on_the_roots_of_the_host() {
    let mut cc = Context::new().unwrap();
    assert!(!cc.needs_native_certs());
    cc.set_verify(true);
    assert!(cc.needs_native_certs());
    let mut native_certs = read_certificates(ROOT.as_bytes()).unwrap();
    native_certs.push(vec![1, 2, 3]);
    cc.new_handshake(HostResources { native_certs, key_log: None }).unwrap();
    assert!(!cc.needs_native_certs());
    // They are kept when the configuration has to be built again.
    cc.set_alpn(&[]).unwrap();
    assert!(!cc.needs_native_certs());

    let mut sc = server_context();
    let mut client = client_of(&mut cc, Some("server.example"));
    let mut server = server_of(&mut sc);
    complete(&mut client, &mut server).unwrap();
    assert!(client.shake.is_completed());
}

#[test]
fn unknown_issuer_closes_with_the_alert() {
    let mut cc = Context::new().unwrap();
    cc.set_verify(true);
    cc.load_verify_locations_from_file(LEAF.as_bytes()).unwrap();
    let mut sc = server_context();
    let mut client = client_of(&mut cc, Some("server.example"));
    let mut server = server_of(&mut sc);
    client.drive().unwrap();
    pass(&mut client, &mut server).unwrap();
    let mut failed = false;
    for (level, data) in server.fresh() {
        // Reading never fails; the next drive does.
        client.shake.provide_data(level, &data).unwrap();
        assert!(client.ex.local_error.is_none());
        failed = client.drive().is_err();
    }
    assert!(failed);
    let error = client.ex.local_error.as_ref().unwrap();
    assert!(!error.is_app);
    assert_eq!(error.error_code, 0x100 + 48);
    assert_eq!(error.reason, b"invalid peer certificate: UnknownIssuer");
    assert!(!client.shake.is_completed());
}

#[test]
fn wrong_name_is_refused() {
    let mut cc = Context::new().unwrap();
    cc.set_verify(true);
    cc.load_verify_locations_from_file(ROOT.as_bytes()).unwrap();
    let mut sc = server_context();
    let mut client = client_of(&mut cc, Some("other.example"));
    let mut server = server_of(&mut sc);
    assert_eq!(complete(&mut client, &mut server), Err(Error::TlsFail));
    // bad_certificate
    assert_eq!(client.ex.local_error.as_ref().unwrap().error_code, 0x100 + 42);
}

#[test]
fn server_verifies_a_client_certificate() {
    let mut cc = server_context();
    let mut sc = server_context();
    sc.set_verify(true);
    sc.load_verify_locations_from_file(ROOT.as_bytes()).unwrap();
    let mut client = client_of(&mut cc, None);
    let mut server = server_of(&mut sc);
    complete(&mut client, &mut server).unwrap();
    let leaf = read_certificates(LEAF.as_bytes()).unwrap();
    assert_eq!(server.shake.peer_cert(), Some(leaf[0].as_slice()));
    // A client without one is let in as well.
    let mut anonymous = client_of(&mut Context::new().unwrap(), None);
    let mut server = server_of(&mut sc);
    complete(&mut anonymous, &mut server).unwrap();
    assert!(server.shake.is_completed());
    assert_eq!(server.shake.peer_cert(), None);
}

#[test]
fn server_without_roots_rejects_certificates_only() {
    let mut sc = server_context();
    sc.set_verify(true);
    let mut anonymous = client_of(&mut Context::new().unwrap(), None);
    let mut server = server_of(&mut sc);
    complete(&mut anonymous, &mut server).unwrap();
    assert!(server.shake.is_completed());

    let mut client = client_of(&mut server_context(), None);
    let mut server = server_of(&mut sc);
    assert_eq!(complete(&mut client, &mut server), Err(Error::TlsFail));
    assert_eq!(server.ex.local_error.as_ref().unwrap().error_code, 0x100 + 48);
}

#[test]
fn disagreement_on_protocols_closes_with_the_alert() {
    let mut cc = Context::new().unwrap();
    cc.set_alpn(&[b"h3"]).unwrap();
    let mut sc = server_context();
    sc.set_alpn(&[b"hq"]).unwrap();
    let mut client = client_of(&mut cc, None);
    let mut server = server_of(&mut sc);
    client.drive().unwrap();
    assert_eq!(pass(&mut client, &mut server), Err(Error::TlsFail));
    // no_application_protocol, and no connection was kept.
    assert_eq!(server.ex.local_error.as_ref().unwrap().error_code, 0x100 + 120);
    assert_eq!(server.shake.server_name(), None);
}

#[test]
fn changed_settings_reach_the_next_handshake() {
    let mut cc = Context::new().unwrap();
    let mut sc = server_context();
    for protocol in [b"one", b"two"] {
        cc.set_alpn(&[protocol]).unwrap();
        sc.set_alpn(&[protocol]).unwrap();
        let mut client = client_of(&mut cc, None);
        let mut server = server_of(&mut sc);
        complete(&mut client, &mut server).unwrap();
        assert_eq!(client.shake.alpn_protocol(), protocol);
        assert_eq!(server.shake.alpn_protocol(), protocol);
    }
}

#[test]
fn first_flight_may_come_in_chunks() {
    let mut cc = Context::new().unwrap();
    let mut sc = server_context();
    let mut client = client_of(&mut cc, None);
    let mut server = server_of(&mut sc);
    client.drive().unwrap();
    for (level, data) in client.fresh() {
        assert_eq!(level, Level::Initial);
        for chunk in data.chunks(50) {
            server.shake.provide_data(level, chunk).unwrap();
        }
    }
    server.drive().unwrap();
    pass(&mut server, &mut client).unwrap();
    pass(&mut client, &mut server).unwrap();
    assert!(server.shake.is_completed());
}

#[test]
fn server_without_data_waits() {
    let mut sc = server_context();
    let mut server = server_of(&mut sc);
    server.drive().unwrap();
    assert_eq!(server.shake.write_level(), Level::Initial);
    assert!(server.fresh().is_empty());
    assert_eq!(server.shake.quic_transport_params(), b"");
    let mut client = client_of(&mut Context::new().unwrap(), None);
    complete(&mut client, &mut server).unwrap();
    assert!(server.shake.is_completed());
}

#[test]
fn garbage_in_the_first_flight_is_recorded() {
    let mut sc = server_context();
    let mut server = server_of(&mut sc);
    // A handshake message of an unexpected type.
    server.shake.provide_data(Level::Initial, &[0x14, 0, 0, 1, 0xff]).unwrap();
    assert_eq!(server.drive(), Err(Error::TlsFail));
    let first = server.ex.local_error.clone().unwrap();
    assert!(!first.is_app);
    assert!(!first.reason.is_empty());
    assert!(first.error_code == 0x01 || (first.error_code >= 0x100 && first.error_code < 0x200));
    // A second failure leaves the first on record.
    server.shake.provide_data(Level::Initial, &[0x02, 0, 0, 0]).unwrap();
    assert_eq!(server.drive(), Err(Error::TlsFail));
    let second = server.ex.local_error.clone().unwrap();
    assert_eq!(second.error_code, first.error_code);
    assert_eq!(second.reason, first.reason);
    // What was refused is gone.
    server.drive().unwrap();
}

#[test]
fn failure_of_a_read_is_reported_once_by_the_next_drive() {
    let mut sc = server_context();
    let mut server = server_of(&mut sc);
    server.drive().unwrap();
    server.shake.note_read(Err(rustls::Error::General("boom".into())));
    assert_eq!(server.drive(), Err(Error::TlsFail));
    let error = server.ex.local_error.clone().unwrap();
    assert!(!error.is_app);
    assert_eq!(error.error_code, 0x01);
    assert_eq!(error.reason, b"unexpected error: boom");
    server.drive().unwrap();
    server.shake.note_read(Ok(()));
    server.drive().unwrap();
}

#[test]
fn refused_connection_changes_nothing() {
    let mut cc = Context::new().unwrap();
    let mut client = client_of(&mut cc, None);
    let refused = client
        .shake
        .connected(Err(rustls::Error::General("no".into())), &mut client.ex);
    assert_eq!(refused, Err(Error::TlsFail));
    assert!(client.ex.local_error.is_none());
    client.drive().unwrap();
    assert!(!client.fresh().is_empty());
}

#[test]
fn session_is_resumed_with_early_data() {
    let mut cc = Context::new().unwrap();
    let mut sc = server_context();
    cc.set_early_data_enabled(true);
    sc.set_early_data_enabled(true);
    let mut client = client_of(&mut cc, Some("server.example"));
    let mut server = server_of(&mut sc);
    complete(&mut client, &mut server).unwrap();
    assert!(!client.shake.is_resumed());

    let mut client = client_of(&mut cc, Some("server.example"));
    let mut server = server_of(&mut sc);
    client.shake.set_session(client.ex.session.as_deref().unwrap_or(&[])).unwrap();
    client.drive().unwrap();
    // Early keys are there, but CRYPTO data still goes out at the first level,
    // and the parameters of the session before do not count.
    assert!(client.shake.is_in_early_data());
    assert_eq!(client.shake.write_level(), Level::Initial);
    assert_eq!(client.shake.quic_transport_params(), b"");
    assert!(client.ex.crypto_ctx.application.crypto_seal.is_some());
    assert!(client.ex.crypto_ctx.application.crypto_open.is_none());

    pass(&mut client, &mut server).unwrap();
    assert!(server.shake.is_in_early_data());
    let open = server.ex.crypto_ctx.application.crypto_0rtt_open.as_ref().unwrap();
    assert!(opens(client.ex.crypto_ctx.application.crypto_seal.as_ref().unwrap(), open));
    assert!(server.ex.crypto_ctx.application.crypto_open.is_none());

    pass(&mut server, &mut client).unwrap();
    pass(&mut client, &mut server).unwrap();
    assert!(client.shake.is_completed() && server.shake.is_completed());
    assert!(client.shake.is_resumed() && server.shake.is_resumed());
    assert_eq!(client.shake.write_level(), Level::OneRTT);
    // The early keys have made way for the others, and stay gone.
    client.drive().unwrap();
    let seal = client.ex.crypto_ctx.application.crypto_seal.as_ref().unwrap();
    assert!(seal.next.is_some());
    assert!(opens(seal, server.ex.crypto_ctx.application.crypto_open.as_ref().unwrap()));
}

#[test]
fn sessions_belong_to_the_context() {
    let mut cc = Context::new().unwrap();
    let mut sc = server_context();
    let mut client = client_of(&mut cc, Some("server.example"));
    let mut server = server_of(&mut sc);
    complete(&mut client, &mut server).unwrap();
    // Another context has none to resume.
    let mut other = client_of(&mut Context::new().unwrap(), Some("server.example"));
    let mut server = server_of(&mut sc);
    complete(&mut other, &mut server).unwrap();
    assert!(!other.shake.is_resumed());
    // The same one has, without any early keys.
    let mut again = client_of(&mut cc, Some("server.example"));
    let mut server = server_of(&mut sc);
    again.drive().unwrap();
    assert!(!again.shake.is_in_early_data());
    complete(&mut again, &mut server).unwrap();
    assert!(again.shake.is_resumed());
}

#[test]
fn clear_drops_the_connection_only() {
    let mut cc = Context::new().unwrap();
    let mut sc = server_context();
    let mut client = client_of(&mut cc, Some("server.example"));
    let mut server = server_of(&mut sc);
    complete(&mut client, &mut server).unwrap();
    client.shake.clear().unwrap();
    assert!(!client.shake.is_completed());
    assert!(!client.shake.is_in_early_data());
    assert!(!client.shake.is_resumed());
    assert_eq!(client.shake.quic_transport_params(), b"");
    assert_eq!(client.shake.alpn_protocol(), b"");
    assert_eq!(client.shake.cipher(), None);
    assert_eq!(client.shake.curve(), None);
    assert_eq!(client.shake.peer_cert(), None);
    // The level, and so the level to write at, is where it was.
    assert_eq!(client.shake.write_level(), Level::OneRTT);
}
