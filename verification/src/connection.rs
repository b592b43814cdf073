//! The rustls connection that a handshake drives.
//!
//! Everything that is asked of `rustls::quic::Connection` is declared here,
//! together with what is relied upon of its answers. A connection is opaque:
//! each fact about it goes through one of the names below.

use crate::types::{HandshakeKind, Version};
use crate::config;
use rustls::pki_types::{InvalidDnsNameError, ServerName};
use rustls::quic::{
    ClientConnection, Connection, DirectionalKeys, Keys, Secrets, ServerConnection,
};
use rustls::Error as TlsError;
use rustls::{ClientConfig, ServerConfig};
use std::sync::Arc;
use vstd::prelude::*;

verus! {

/// `rustls::quic::Connection`.
#[verifier::external_type_specification]
#[verifier::external_body]
pub struct ExConnection(Connection);

/// `rustls::quic::ServerConnection`.
#[verifier::external_type_specification]
#[verifier::external_body]
pub struct ExServerConnection(ServerConnection);

/// `rustls::ClientConfig`.
#[verifier::external_type_specification]
#[verifier::external_body]
pub struct ExClientConfig(ClientConfig);

/// `rustls::ServerConfig`.
#[verifier::external_type_specification]
#[verifier::external_body]
pub struct ExServerConfig(ServerConfig);

/// `rustls::Error`.
#[verifier::external_type_specification]
#[verifier::external_body]
pub struct ExTlsError(TlsError);

/// `rustls::pki_types::ServerName`.
#[verifier::external_type_specification]
#[verifier::external_body]
pub struct ExServerName<'a>(ServerName<'a>);

/// `rustls::pki_types::InvalidDnsNameError`.
#[verifier::external_type_specification]
#[verifier::external_body]
pub struct ExInvalidDnsNameError(InvalidDnsNameError);

/// New keys that the TLS stack asks to switch to.
pub enum KeyChange {
    Handshake { keys: Keys },
    OneRtt { keys: Keys, next: Secrets },
}

/// What a connection was made from.
pub enum Origin {
    Client {
        client_config: ClientConfig,
        version: Version,
        name: ServerName<'static>,
        params: Seq<u8>,
    },
    Server { server_config: ServerConfig, version: Version, params: Seq<u8> },
}

/// What one write yields: the handshake bytes, the keys to switch to, and the
/// connection that is left.
pub struct Flight {
    pub bytes: Seq<u8>,
    pub change: Option<KeyChange>,
    pub rest: Connection,
}

/// The configuration, name and transport parameters that `conn` was made from.
pub uninterp spec fn origin(conn: Connection) -> Origin;

/// All handshake bytes handed to `conn` since it was made, in order.
pub uninterp spec fn received(conn: Connection) -> Seq<u8>;

/// Why `conn` refused the handshake bytes that it was handed last, in the words
/// of the TLS error; `None` if it took them, or was handed none yet.
pub uninterp spec fn refusal(conn: Connection) -> Option<Seq<u8>>;

/// How many handshake messages `conn` has queued for sending.
pub uninterp spec fn queued(conn: Connection) -> nat;

/// What writing from `conn` yields.
pub uninterp spec fn flight(conn: Connection) -> Flight;

/// Whether the handshake is still going on.
pub uninterp spec fn handshaking(conn: Connection) -> bool;

/// The keys for 0-RTT packets, while there are any.
pub uninterp spec fn zero_rtt_keys(conn: Connection) -> Option<DirectionalKeys>;

/// The transport parameters of the peer, once they have arrived.
pub uninterp spec fn peer_params(conn: Connection) -> Option<Seq<u8>>;

/// The application protocol agreed on.
pub uninterp spec fn agreed_alpn(conn: Connection) -> Option<Seq<u8>>;

/// The number of the fatal alert that has arisen, if any.
pub uninterp spec fn alert_number(conn: Connection) -> Option<u8>;

/// The number of the cipher suite agreed on.
pub uninterp spec fn suite_number(conn: Connection) -> Option<u16>;

/// The kind of handshake, once it is known.
pub uninterp spec fn kind_of(conn: Connection) -> Option<HandshakeKind>;

/// The name of the key exchange group agreed on.
pub uninterp spec fn group_name(conn: Connection) -> Option<Seq<char>>;

/// The certificates that the peer presented.
pub uninterp spec fn peer_certificates(conn: Connection) -> Option<Seq<Seq<u8>>>;

/// The server variant inside `conn`, if it is one.
pub uninterp spec fn server_half(conn: Connection) -> Option<ServerConnection>;

/// The name that the client asked `conn` for.
pub uninterp spec fn requested_name(conn: ServerConnection) -> Option<Seq<char>>;

/// The server name that a text denotes, if it is a DNS name or an IP address.
pub uninterp spec fn parsed_name(text: Seq<char>) -> Option<ServerName<'static>>;

/// The description of a TLS error, in UTF-8.
pub uninterp spec fn error_text(error: TlsError) -> Seq<u8>;

/// Name of the server that a client asks for when it has none to ask for.
pub const PLACEHOLDER_NAME: &'static str = "no.sni.invalid";

/// `rustls::quic::ClientConnection::new`: starts a client handshake for the
/// server `name`, offering `params`.
///
/// A connection that comes back was made from exactly these arguments and has
/// been handed no handshake bytes yet. It has one message to send, the
/// ClientHello, and no keys to change. Whether one comes back is left open: it
/// depends on the random number generator.
///
/// What the client offers must fit the ClientHello, which rustls may assert
/// while it writes one. How large a ticket from an earlier connection is, is
/// up to the server that issued it, and not bounded here.
#[verifier::external_body]
pub(crate) fn new_client(
    config: Arc<ClientConfig>,
    version: Version,
    name: ServerName<'static>,
    params: Vec<u8>,
) -> (conn: Result<Connection, TlsError>)
    requires
        config::hello_fits(config::client_settings(*config).alpn, params@),
    ensures
        conn matches Ok(c) ==> origin(c) == (Origin::Client {
            client_config: *config,
            version,
            name,
            params: params@,
        }),
        conn matches Ok(c) ==> {
            &&& received(c) == Seq::<u8>::empty()
            &&& refusal(c) is None
            &&& handshaking(c)
            &&& flight(c).bytes.len() > 0
            &&& flight(c).change is None
            &&& flight(flight(c).rest).bytes.len() == 0
            &&& flight(flight(c).rest).change is None
        },
{
    let version = match version {
        Version::V1Draft => rustls::quic::Version::V1Draft,
        Version::V1 => rustls::quic::Version::V1,
        Version::V2 => rustls::quic::Version::V2,
    };
    ClientConnection::new(config, version, name, params).map(Connection::Client)
}

/// Whether rustls makes QUIC servers from a configuration with `settings`.
pub open spec fn serves_quic(settings: config::ServerSettings) -> bool {
    &&& settings.quic_ready
    &&& settings.max_early_data == 0 || settings.max_early_data == u32::MAX
}

/// `rustls::quic::ServerConnection::new`: a server that answers with `params`.
///
/// A connection that comes back was made from exactly these arguments, has
/// been handed no handshake bytes yet and has nothing to say before it is. One
/// comes back if the configuration is for TLS 1.3 with suites for QUIC and
/// allows either no early data or any amount.
///
/// The parameters must fit the message that they are later sent in, which
/// rustls may assert while it writes one.
#[verifier::external_body]
pub(crate) fn new_server(config: Arc<ServerConfig>, version: Version, params: Vec<u8>) -> (conn:
    Result<Connection, TlsError>)
    requires
        params@.len() <= config::EXTENSION_ROOM,
    ensures
        serves_quic(config::server_settings(*config)) ==> conn is Ok,
        conn matches Ok(c) ==> origin(c) == (Origin::Server {
            server_config: *config,
            version,
            params: params@,
        }),
        conn matches Ok(c) ==> {
            &&& received(c) == Seq::<u8>::empty()
            &&& refusal(c) is None
            &&& handshaking(c)
            &&& flight(c).bytes.len() == 0
            &&& flight(c).change is None
            &&& zero_rtt_keys(flight(c).rest) is None
        },
{
    let version = match version {
        Version::V1Draft => rustls::quic::Version::V1Draft,
        Version::V1 => rustls::quic::Version::V1,
        Version::V2 => rustls::quic::Version::V2,
    };
    ServerConnection::new(config, version, params).map(Connection::Server)
}

/// `rustls::quic::Connection::read_hs`: hands `data` to the connection.
///
/// What the connection makes of it depends on keys, random numbers and the
/// time of day, so which outcome it is, is left open. It is the connection's
/// latest one from here on.
#[verifier::external_body]
pub(crate) fn read_hs(conn: &mut Connection, data: &[u8]) -> (outcome: Result<(), TlsError>)
    ensures
        origin(*final(conn)) == origin(*old(conn)),
        received(*final(conn)) == received(*old(conn)) + data@,
        refusal(*final(conn)) == (match outcome {
            Ok(_) => None,
            Err(error) => Some(error_text(error)),
        }),
{
    conn.read_hs(data)
}

/// `rustls::quic::Connection::write_hs`: appends the next handshake bytes to
/// `buf` and says which keys protect what follows them.
///
/// All of it is determined by the state of the connection: queued messages
/// are taken off the queue, and secrets that were waiting become keys. Bytes
/// only ever come from a message that leaves the queue. The progress of the
/// handshake is untouched.
#[verifier::external_body]
pub(crate) fn write_hs(conn: &mut Connection, buf: &mut Vec<u8>) -> (change: Option<KeyChange>)
    ensures
        final(buf)@ == old(buf)@ + flight(*old(conn)).bytes,
        change == flight(*old(conn)).change,
        *final(conn) == flight(*old(conn)).rest,
        flight(*old(conn)).bytes.len() > 0 ==> queued(*final(conn)) < queued(*old(conn)),
        origin(*final(conn)) == origin(*old(conn)),
        received(*final(conn)) == received(*old(conn)),
        refusal(*final(conn)) == refusal(*old(conn)),
        handshaking(*final(conn)) == handshaking(*old(conn)),
        peer_params(*final(conn)) == peer_params(*old(conn)),
{
    match conn.write_hs(buf) {
        Some(rustls::quic::KeyChange::Handshake { keys }) => Some(KeyChange::Handshake { keys }),
        Some(rustls::quic::KeyChange::OneRtt { keys, next }) => Some(
            KeyChange::OneRtt { keys, next },
        ),
        None => None,
    }
}

/// `rustls::CommonState::is_handshaking`.
#[verifier::external_body]
pub(crate) fn is_handshaking(conn: &Connection) -> (ongoing: bool)
    ensures
        ongoing == handshaking(*conn),
{
    conn.is_handshaking()
}

/// `rustls::quic::Connection::zero_rtt_keys`.
#[verifier::external_body]
pub(crate) fn get_zero_rtt_keys(conn: &Connection) -> (keys: Option<DirectionalKeys>)
    ensures
        keys == zero_rtt_keys(*conn),
{
    conn.zero_rtt_keys()
}

/// `rustls::quic::Connection::quic_transport_parameters`.
#[verifier::external_body]
pub(crate) fn get_peer_params(conn: &Connection) -> (params: Option<&[u8]>)
    ensures
        peer_params(*conn) == (match params {
            Some(bytes) => Some(bytes@),
            None => None,
        }),
{
    conn.quic_transport_parameters()
}

/// `rustls::CommonState::alpn_protocol`.
#[verifier::external_body]
pub(crate) fn get_alpn(conn: &Connection) -> (protocol: Option<&[u8]>)
    ensures
        agreed_alpn(*conn) == (match protocol {
            Some(bytes) => Some(bytes@),
            None => None,
        }),
{
    conn.alpn_protocol()
}

/// `rustls::quic::Connection::alert`, as the number that goes on the wire.
#[verifier::external_body]
pub(crate) fn get_alert(conn: &Connection) -> (alert: Option<u8>)
    ensures
        alert == alert_number(*conn),
{
    conn.alert().map(u8::from)
}

/// `rustls::CommonState::negotiated_cipher_suite`, as the number that goes on
/// the wire.
#[verifier::external_body]
pub(crate) fn get_suite(conn: &Connection) -> (suite: Option<u16>)
    ensures
        suite == suite_number(*conn),
{
    conn.negotiated_cipher_suite().map(|suite| u16::from(suite.suite()))
}

/// `rustls::CommonState::handshake_kind`.
#[verifier::external_body]
pub(crate) fn get_kind(conn: &Connection) -> (kind: Option<HandshakeKind>)
    ensures
        kind == kind_of(*conn),
{
    conn.handshake_kind().map(
        |kind|
            match kind {
                rustls::HandshakeKind::Full => HandshakeKind::Full,
                rustls::HandshakeKind::FullWithHelloRetryRequest => {
                    HandshakeKind::FullWithHelloRetryRequest
                },
                rustls::HandshakeKind::Resumed => HandshakeKind::Resumed,
            },
    )
}

/// `rustls::CommonState::negotiated_key_exchange_group`, by the name that the
/// group prints.
#[verifier::external_body]
pub(crate) fn get_group(conn: &Connection) -> (group: Option<String>)
    ensures
        group_name(*conn) == (match group {
            Some(name) => Some(name@),
            None => None,
        }),
{
    conn.negotiated_key_exchange_group().map(|group| format!("{:?}", group.name()))
}

/// `rustls::CommonState::peer_certificates`, each certificate as its bytes.
#[verifier::external_body]
pub(crate) fn get_peer_certificates(conn: &Connection) -> (chain: Option<Vec<&[u8]>>)
    ensures
        peer_certificates(*conn) == (match chain {
            Some(certs) => Some(certs@.map_values(|cert: &[u8]| cert@)),
            None => None,
        }),
{
    conn.peer_certificates().map(|certs| certs.iter().map(|cert| cert.as_ref()).collect())
}

/// Tells the two variants of `rustls::quic::Connection` apart: the server
/// connection inside, for a connection that was made as a server.
#[verifier::external_body]
pub(crate) fn as_server(conn: &Connection) -> (server: Option<&ServerConnection>)
    ensures
        server_half(*conn) == (match server {
            Some(inner) => Some(*inner),
            None => None,
        }),
        server is Some <==> origin(*conn) is Server,
{
    match conn {
        Connection::Client(_) => None,
        Connection::Server(inner) => Some(inner),
    }
}

/// `rustls::quic::ServerConnection::server_name`.
#[verifier::external_body]
pub(crate) fn get_requested_name(conn: &ServerConnection) -> (name: Option<&str>)
    ensures
        requested_name(*conn) == (match name {
            Some(text) => Some(text@),
            None => None,
        }),
{
    conn.server_name()
}

/// `rustls::pki_types::ServerName::try_from`: a DNS name or an IP address.
///
/// The placeholder is a DNS name: three labels of lower-case letters.
#[verifier::external_body]
pub(crate) fn parse_name(text: &str) -> (name: Result<ServerName<'static>, InvalidDnsNameError>)
    ensures
        parsed_name(text@) == (match name {
            Ok(parsed) => Some(parsed),
            Err(_) => None,
        }),
        text@ == PLACEHOLDER_NAME@ ==> name is Ok,
{
    ServerName::try_from(text).map(|name| name.to_owned())
}

/// `rustls::pki_types::ServerName::to_owned`: a second copy of the same name.
#[verifier::external_body]
pub(crate) fn clone_name(name: &ServerName<'static>) -> (copy: ServerName<'static>)
    ensures
        copy == *name,
{
    name.to_owned()
}

/// The `Display` text of `rustls::Error`.
#[verifier::external_body]
pub(crate) fn describe(error: &TlsError) -> (text: Vec<u8>)
    ensures
        text@ == error_text(*error),
{
    error.to_string().as_bytes().to_vec()
}

} // verus!
