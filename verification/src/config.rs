//! rustls configurations: what is asked of rustls to build them, and which
//! settings the result carries.

use crate::verifiers::{DisabledServerCertVerifier, RejectedClientCertAllowedAnonymousVerifier};
use crate::{roots, types};
use rustls::client::{
    ClientSessionMemoryCache, Resumption, VerifierBuilderError, WebPkiServerVerifier,
};
use rustls::crypto::ring;
use rustls::pki_types::{CertificateDer, PrivateKeyDer};
use rustls::server::WebPkiClientVerifier;
use rustls::version::TLS13;
use rustls::Error as TlsError;
use rustls::{ClientConfig, KeyLogFile, RootCertStore, ServerConfig};
use std::sync::Arc;
use vstd::prelude::*;

verus! {

/// `rustls::KeyLogFile`.
#[verifier::external_type_specification]
#[verifier::external_body]
pub struct ExKeyLogFile(KeyLogFile);

/// `rustls::client::ClientSessionMemoryCache`.
#[verifier::external_type_specification]
#[verifier::external_body]
pub struct ExClientSessionMemoryCache(ClientSessionMemoryCache);

/// `rustls::client::WebPkiServerVerifier`.
#[verifier::external_type_specification]
#[verifier::external_body]
pub struct ExWebPkiServerVerifier(WebPkiServerVerifier);

/// `rustls::client::VerifierBuilderError`.
#[verifier::external_type_specification]
#[verifier::external_body]
pub struct ExVerifierBuilderError(VerifierBuilderError);

/// A certificate chain and the private key that goes with it.
pub struct Identity {
    pub chain: Seq<Seq<u8>>,
    pub key: PrivateKeyDer<'static>,
}

/// How a server treats client certificates.
pub enum ClientAuth {
    /// None is asked for.
    NotRequested,
    /// One is asked for; a client may go without, but none is accepted.
    Rejected,
    /// One is asked for; a client may go without, and one that comes must
    /// lead to one of the roots.
    Roots { roots: Seq<roots::Anchor> },
}

/// How a client treats the certificate of a server.
pub enum ServerAuth {
    /// Any certificate will do.
    Disabled,
    /// It must lead to one of the roots.
    Roots { roots: Seq<roots::Anchor> },
}

/// What a server configuration is made of.
pub struct ServerSettings {
    /// TLS 1.3 only, with the cipher suites of *ring* and rustls's limits.
    pub quic_ready: bool,
    pub client_auth: ClientAuth,
    pub identity: Identity,
    pub key_log: Option<KeyLogFile>,
    pub max_early_data: u32,
    pub alpn: Seq<Seq<u8>>,
}

/// What a client configuration is made of.
pub struct ClientSettings {
    /// TLS 1.3 only, with the cipher suites of *ring* and rustls's limits.
    pub quic_ready: bool,
    pub server_auth: ServerAuth,
    pub identity: Option<Identity>,
    pub key_log: Option<KeyLogFile>,
    pub early_data: bool,
    pub alpn: Seq<Seq<u8>>,
    /// Where sessions are kept; `None` for a cache of the configuration's own.
    pub resumption: Option<ClientSessionMemoryCache>,
}

/// The settings that `config` carries.
pub uninterp spec fn server_settings(config: ServerConfig) -> ServerSettings;

/// The settings that `config` carries.
pub uninterp spec fn client_settings(config: ClientConfig) -> ClientSettings;

/// Whether rustls can sign with this key for this chain: it reads the key, and
/// the first certificate does not belong to another one.
///
/// Even such a pair may be refused at times, for reading an ECDSA key draws
/// random bytes.
pub uninterp spec fn identity_usable(chain: Seq<Seq<u8>>, key: PrivateKeyDer<'static>) -> bool;

/// The roots that `verifier` trusts.
pub uninterp spec fn verifier_roots(verifier: WebPkiServerVerifier) -> Seq<roots::Anchor>;

/// How many sessions `cache` was made to hold.
pub uninterp spec fn cache_size(cache: ClientSessionMemoryCache) -> usize;

/// A server configuration as rustls first makes it.
pub open spec fn fresh_server(client_auth: ClientAuth, identity: Identity) -> ServerSettings {
    ServerSettings {
        quic_ready: true,
        client_auth,
        identity,
        key_log: None,
        max_early_data: 0,
        alpn: Seq::empty(),
    }
}

/// A client configuration as rustls first makes it.
pub open spec fn fresh_client(
    server_auth: ServerAuth,
    identity: Option<Identity>,
) -> ClientSettings {
    ClientSettings {
        quic_ready: true,
        server_auth,
        identity,
        key_log: None,
        early_data: false,
        alpn: Seq::empty(),
        resumption: None,
    }
}

/// The most that a ClientHello takes for extensions beside protocol names and
/// transport parameters themselves, with the suites and groups of *ring*: 262
/// bytes for a server name of 253, 107 for a key share, 63 around a ticket and
/// its binder, 24 for signature schemes, 58 for the rest.
///
/// What a server chooses comes on top: a ticket to resume, a cookie to repeat.
pub const OTHER_EXTENSIONS: usize = 514;

/// Room that protocol names and transport parameters share in the extensions of
/// a message, which have a length of two bytes.
pub const EXTENSION_ROOM: usize = 0xffff - OTHER_EXTENSIONS;

/// Bytes that `names` take when listed, each behind its length.
pub open spec fn listed_size(names: Seq<Seq<u8>>) -> nat
    decreases names.len(),
{
    if names.len() == 0 {
        0
    } else {
        listed_size(names.drop_last()) + names.last().len() + 1
    }
}

/// Whether a client can offer `names` and `params` in one message: no name is
/// empty, and together they fit.
pub open spec fn hello_fits(names: Seq<Seq<u8>>, params: Seq<u8>) -> bool {
    &&& forall|i: int| 0 <= i < names.len() ==> (#[trigger] names[i]).len() > 0
    &&& listed_size(names) + params.len() <= EXTENSION_ROOM
}

/// `ServerConfig::builder_with_provider` through `with_no_client_auth` and
/// `with_single_cert`: a TLS 1.3 server that asks for no client certificate.
///
/// It is refused if rustls cannot use the identity, and it may be refused if the
/// random number generator fails.
#[verifier::external_body]
pub(crate) fn build_open_server(chain: Vec<Vec<u8>>, key: PrivateKeyDer<'static>) -> (config:
    Result<ServerConfig, TlsError>)
    ensures
        config is Ok ==> identity_usable(types::byte_strings(chain@), key),
        config matches Ok(c) ==> server_settings(c) == fresh_server(
            ClientAuth::NotRequested,
            Identity { chain: types::byte_strings(chain@), key },
        ),
{
    let chain = chain.into_iter().map(CertificateDer::from).collect();
    ServerConfig::builder_with_provider(Arc::new(ring::default_provider()))
        .with_protocol_versions(&[&TLS13])?
        .with_no_client_auth()
        .with_single_cert(chain, key)
}

/// `ServerConfig::builder_with_provider` through `with_client_cert_verifier`
/// and `with_single_cert`: a TLS 1.3 server that leaves client certificates to
/// `verifier`.
///
/// It is refused if rustls cannot use the identity, and it may be refused if the
/// random number generator fails.
#[verifier::external_body]
pub(crate) fn build_rejecting_server(
    verifier: RejectedClientCertAllowedAnonymousVerifier,
    chain: Vec<Vec<u8>>,
    key: PrivateKeyDer<'static>,
) -> (config: Result<ServerConfig, TlsError>)
    ensures
        config is Ok ==> identity_usable(types::byte_strings(chain@), key),
        config matches Ok(c) ==> server_settings(c) == fresh_server(
            ClientAuth::Rejected,
            Identity { chain: types::byte_strings(chain@), key },
        ),
{
    let chain = chain.into_iter().map(CertificateDer::from).collect();
    ServerConfig::builder_with_provider(Arc::new(ring::default_provider()))
        .with_protocol_versions(&[&TLS13])?
        .with_client_cert_verifier(Arc::new(verifier))
        .with_single_cert(chain, key)
}

/// `WebPkiClientVerifier::builder_with_provider` through
/// `allow_unauthenticated` and `build`, and `ServerConfig` as above: a TLS 1.3
/// server that checks the client certificates it gets against `roots`.
///
/// The verifier is refused exactly if there are no roots. The configuration is
/// refused if rustls cannot use the identity, and it may be refused if the random
/// number generator fails.
#[verifier::external_body]
pub(crate) fn build_verifying_server(
    roots: RootCertStore,
    chain: Vec<Vec<u8>>,
    key: PrivateKeyDer<'static>,
) -> (config: Result<Result<ServerConfig, TlsError>, VerifierBuilderError>)
    ensures
        config is Ok <==> roots::anchors(roots).len() > 0,
        config matches Ok(inner) ==> {
            &&& inner is Ok ==> identity_usable(types::byte_strings(chain@), key)
            &&& inner matches Ok(c) ==> server_settings(c) == fresh_server(
                ClientAuth::Roots { roots: roots::anchors(roots) },
                Identity { chain: types::byte_strings(chain@), key },
            )
        },
{
    let chain = chain.into_iter().map(CertificateDer::from).collect();
    let provider = Arc::new(ring::default_provider());
    let verifier = WebPkiClientVerifier::builder_with_provider(roots.into(), provider.clone())
        .allow_unauthenticated()
        .build()?;
    let builder = ServerConfig::builder_with_provider(provider).with_protocol_versions(&[&TLS13]);
    Ok(builder.and_then(|b| b.with_client_cert_verifier(verifier).with_single_cert(chain, key)))
}

/// `WebPkiServerVerifier::builder_with_provider` and `build`: a verifier that
/// trusts `roots`; refused exactly if there are none.
#[verifier::external_body]
pub(crate) fn server_verifier(roots: RootCertStore) -> (verifier: Result<
    Arc<WebPkiServerVerifier>,
    VerifierBuilderError,
>)
    ensures
        verifier is Ok <==> roots::anchors(roots).len() > 0,
        verifier matches Ok(v) ==> verifier_roots(*v) == roots::anchors(roots),
{
    let provider = Arc::new(ring::default_provider());
    WebPkiServerVerifier::builder_with_provider(roots.into(), provider).build()
}

/// `ClientConfig::builder_with_provider` through `with_webpki_verifier` and
/// `with_client_auth_cert`; refused if rustls cannot use the identity, and perhaps
/// if the random number generator fails.
#[verifier::external_body]
pub(crate) fn build_verifying_client_with_cert(
    verifier: Arc<WebPkiServerVerifier>,
    chain: Vec<Vec<u8>>,
    key: PrivateKeyDer<'static>,
) -> (config: Result<ClientConfig, TlsError>)
    ensures
        config is Ok ==> identity_usable(types::byte_strings(chain@), key),
        config matches Ok(c) ==> client_settings(c) == fresh_client(
            ServerAuth::Roots { roots: verifier_roots(*verifier) },
            Some(Identity { chain: types::byte_strings(chain@), key }),
        ),
{
    let chain = chain.into_iter().map(CertificateDer::from).collect();
    ClientConfig::builder_with_provider(Arc::new(ring::default_provider()))
        .with_protocol_versions(&[&TLS13])?
        .with_webpki_verifier(verifier)
        .with_client_auth_cert(chain, key)
}

/// `ClientConfig::builder_with_provider` through `with_webpki_verifier` and
/// `with_no_client_auth`; never refused.
#[verifier::external_body]
pub(crate) fn build_verifying_client(verifier: Arc<WebPkiServerVerifier>) -> (config: Result<
    ClientConfig,
    TlsError,
>)
    ensures
        config is Ok,
        config matches Ok(c) ==> client_settings(c) == fresh_client(
            ServerAuth::Roots { roots: verifier_roots(*verifier) },
            None,
        ),
{
    let builder = ClientConfig::builder_with_provider(Arc::new(ring::default_provider()))
        .with_protocol_versions(&[&TLS13])?;
    Ok(builder.with_webpki_verifier(verifier).with_no_client_auth())
}

/// `ClientConfig::builder_with_provider` through `with_root_certificates` and
/// `with_client_auth_cert`; refused if rustls cannot use the identity, and perhaps
/// if the random number generator fails. The roots may be none at all.
#[verifier::external_body]
pub(crate) fn build_rooted_client_with_cert(
    roots: RootCertStore,
    chain: Vec<Vec<u8>>,
    key: PrivateKeyDer<'static>,
) -> (config: Result<ClientConfig, TlsError>)
    ensures
        config is Ok ==> identity_usable(types::byte_strings(chain@), key),
        config matches Ok(c) ==> client_settings(c) == fresh_client(
            ServerAuth::Roots { roots: roots::anchors(roots) },
            Some(Identity { chain: types::byte_strings(chain@), key }),
        ),
{
    let chain = chain.into_iter().map(CertificateDer::from).collect();
    ClientConfig::builder_with_provider(Arc::new(ring::default_provider()))
        .with_protocol_versions(&[&TLS13])?
        .with_root_certificates(roots)
        .with_client_auth_cert(chain, key)
}

/// `ClientConfig::builder_with_provider` through `with_root_certificates` and
/// `with_no_client_auth`; never refused. The roots may be none at all.
#[verifier::external_body]
pub(crate) fn build_rooted_client(roots: RootCertStore) -> (config: Result<ClientConfig, TlsError>)
    ensures
        config is Ok,
        config matches Ok(c) ==> client_settings(c) == fresh_client(
            ServerAuth::Roots { roots: roots::anchors(roots) },
            None,
        ),
{
    let builder = ClientConfig::builder_with_provider(Arc::new(ring::default_provider()))
        .with_protocol_versions(&[&TLS13])?;
    Ok(builder.with_root_certificates(roots).with_no_client_auth())
}

/// `ClientConfig::builder_with_provider` through
/// `with_custom_certificate_verifier` and `with_client_auth_cert`; refused if
/// rustls cannot use the identity, and perhaps if the random number generator
/// fails.
#[verifier::external_body]
pub(crate) fn build_trusting_client_with_cert(
    verifier: DisabledServerCertVerifier,
    chain: Vec<Vec<u8>>,
    key: PrivateKeyDer<'static>,
) -> (config: Result<ClientConfig, TlsError>)
    ensures
        config is Ok ==> identity_usable(types::byte_strings(chain@), key),
        config matches Ok(c) ==> client_settings(c) == fresh_client(
            ServerAuth::Disabled,
            Some(Identity { chain: types::byte_strings(chain@), key }),
        ),
{
    let chain = chain.into_iter().map(CertificateDer::from).collect();
    ClientConfig::builder_with_provider(Arc::new(ring::default_provider()))
        .with_protocol_versions(&[&TLS13])?
        .dangerous()
        .with_custom_certificate_verifier(Arc::new(verifier))
        .with_client_auth_cert(chain, key)
}

/// `ClientConfig::builder_with_provider` through
/// `with_custom_certificate_verifier` and `with_no_client_auth`; never refused.
#[verifier::external_body]
pub(crate) fn build_trusting_client(verifier: DisabledServerCertVerifier) -> (config: Result<
    ClientConfig,
    TlsError,
>)
    ensures
        config is Ok,
        config matches Ok(c) ==> client_settings(c) == fresh_client(ServerAuth::Disabled, None),
{
    let builder = ClientConfig::builder_with_provider(Arc::new(ring::default_provider()))
        .with_protocol_versions(&[&TLS13])?
        .dangerous();
    Ok(builder.with_custom_certificate_verifier(Arc::new(verifier)).with_no_client_auth())
}

/// Assigns `rustls::ServerConfig::key_log`.
#[verifier::external_body]
pub(crate) fn set_server_key_log(config: &mut ServerConfig, log: Arc<KeyLogFile>)
    ensures
        server_settings(*final(config)) == (ServerSettings {
            key_log: Some(*log),
            ..server_settings(*old(config))
        }),
{
    config.key_log = log;
}

/// Assigns `rustls::ServerConfig::max_early_data_size`.
#[verifier::external_body]
pub(crate) fn set_max_early_data(config: &mut ServerConfig, size: u32)
    ensures
        server_settings(*final(config)) == (ServerSettings {
            max_early_data: size,
            ..server_settings(*old(config))
        }),
{
    config.max_early_data_size = size;
}

/// Assigns `rustls::ServerConfig::alpn_protocols`.
#[verifier::external_body]
pub(crate) fn set_server_alpn(config: &mut ServerConfig, names: Vec<Vec<u8>>)
    ensures
        server_settings(*final(config)) == (ServerSettings {
            alpn: types::byte_strings(names@),
            ..server_settings(*old(config))
        }),
{
    config.alpn_protocols = names;
}

/// Assigns `rustls::ClientConfig::key_log`.
#[verifier::external_body]
pub(crate) fn set_client_key_log(config: &mut ClientConfig, log: Arc<KeyLogFile>)
    ensures
        client_settings(*final(config)) == (ClientSettings {
            key_log: Some(*log),
            ..client_settings(*old(config))
        }),
{
    config.key_log = log;
}

/// Assigns `rustls::ClientConfig::enable_early_data`.
#[verifier::external_body]
pub(crate) fn set_early_data(config: &mut ClientConfig, enabled: bool)
    ensures
        client_settings(*final(config)) == (ClientSettings {
            early_data: enabled,
            ..client_settings(*old(config))
        }),
{
    config.enable_early_data = enabled;
}

/// Assigns `rustls::ClientConfig::alpn_protocols`.
#[verifier::external_body]
pub(crate) fn set_client_alpn(config: &mut ClientConfig, names: Vec<Vec<u8>>)
    ensures
        client_settings(*final(config)) == (ClientSettings {
            alpn: types::byte_strings(names@),
            ..client_settings(*old(config))
        }),
{
    config.alpn_protocols = names;
}

/// Reads `rustls::ClientConfig::alpn_protocols`.
#[verifier::external_body]
pub(crate) fn client_alpn(config: &ClientConfig) -> (names: &Vec<Vec<u8>>)
    ensures
        types::byte_strings(names@) == client_settings(*config).alpn,
{
    &config.alpn_protocols
}

/// Assigns `rustls::ClientConfig::resumption`, made by `Resumption::store`:
/// sessions are kept in `cache`.
#[verifier::external_body]
pub(crate) fn set_resumption(config: &mut ClientConfig, cache: Arc<ClientSessionMemoryCache>)
    ensures
        client_settings(*final(config)) == (ClientSettings {
            resumption: Some(*cache),
            ..client_settings(*old(config))
        }),
{
    config.resumption = Resumption::store(cache);
}

/// `rustls::client::ClientSessionMemoryCache::new`: an empty cache for `size`
/// sessions.
#[verifier::external_body]
pub(crate) fn session_cache(size: usize) -> (cache: ClientSessionMemoryCache)
    ensures
        cache_size(cache) == size,
{
    ClientSessionMemoryCache::new(size)
}

/// Whether a client can offer `names` and `params` in one message.
pub fn fits_hello(names: &Vec<Vec<u8>>, params: &[u8]) -> (fits: bool)
    ensures
        fits == hello_fits(types::byte_strings(names@), params@),
{
    let ghost all = types::byte_strings(names@);
    if params.len() > EXTENSION_ROOM {
        return false;
    }
    let mut left: usize = EXTENSION_ROOM - params.len();
    let mut i: usize = 0;
    while i < names.len()
        invariant
            i <= names.len(),
            all == types::byte_strings(names@),
            params.len() + listed_size(all.take(i as int)) + left == EXTENSION_ROOM,
            forall|j: int| 0 <= j < i ==> (#[trigger] all[j]).len() > 0,
        decreases names.len() - i,
    {
        assert(all.take(i + 1).drop_last() =~= all.take(i as int));
        assert(all[i as int] == names@[i as int]@);
        proof {
            lemma_listed_size_grows(all, i + 1);
        }
        if names[i].len() == 0 || names[i].len() >= left {
            return false;
        }
        left = left - names[i].len() - 1;
        i += 1;
    }
    assert(all.take(i as int) =~= all);
    true
}

/// A client can offer names and parameters exactly if no name is empty and their
/// bytes, with one for the length of each name, leave the other extensions their
/// 514 of the 65535 that there are.
pub proof fn law_offer_is_measured(names: Seq<Seq<u8>>, params: Seq<u8>)
    ensures
        hello_fits(names, params) <==> (forall|i: int|
            0 <= i < names.len() ==> (#[trigger] names[i]).len() > 0) && names.flatten().len()
            + names.len() + params.len() + 514 <= 65535,
{
    lemma_listed_size(names);
}

/// Names take their own bytes and one more each.
proof fn lemma_listed_size(names: Seq<Seq<u8>>)
    ensures
        listed_size(names) == names.flatten().len() + names.len(),
    decreases names.len(),
{
    names.lemma_flatten_and_flatten_alt_are_equivalent();
    if names.len() > 0 {
        lemma_listed_size(names.drop_last());
        names.drop_last().lemma_flatten_and_flatten_alt_are_equivalent();
    }
}

/// A longer list takes at least as many bytes.
proof fn lemma_listed_size_grows(names: Seq<Seq<u8>>, count: int)
    requires
        0 <= count <= names.len(),
    ensures
        listed_size(names.take(count)) <= listed_size(names),
    decreases names.len(),
{
    if count == names.len() {
        assert(names.take(count) =~= names);
    } else {
        lemma_listed_size_grows(names.drop_last(), count);
        assert(names.drop_last().take(count) =~= names.take(count));
    }
}

} // verus!
