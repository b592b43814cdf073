//! TLS settings, and the configurations that handshakes are made from.

use crate::config::{
    build_open_server, build_rejecting_server, build_rooted_client, build_rooted_client_with_cert,
    build_trusting_client, build_trusting_client_with_cert, build_verifying_client,
    build_verifying_client_with_cert, build_verifying_server, server_verifier, session_cache,
    set_client_alpn, set_client_key_log, set_early_data, set_max_early_data, set_resumption,
    set_server_alpn, set_server_key_log, ClientAuth, ClientSettings, Identity, ServerAuth,
    ServerSettings,
};
use crate::handshake::Handshake;
use crate::pem::{clone_key, read_certificates, read_private_key};
use crate::roots::{clone_store, empty_store, extend_store, Anchor};
use crate::machine::HandshakeView;
use crate::types::{copy_byte_strings, copy_bytes, Error, Level, Side, Version};
use crate::verifiers::{DisabledServerCertVerifier, RejectedClientCertAllowedAnonymousVerifier};
use crate::{config, machine, pem, roots, types};
use rustls::client::ClientSessionMemoryCache;
use rustls::pki_types::PrivateKeyDer;
use rustls::Error as TlsError;
use rustls::{ClientConfig, KeyLogFile, RootCertStore, ServerConfig};
use std::sync::Arc;
use vstd::prelude::*;

verus! {

/// How many sessions a context keeps for its clients to resume.
pub const SESSION_CACHE_SIZE: usize = 256;

/// What the host has to offer to new configurations.
pub struct HostResources {
    /// The DER-encoded certificates of the host's own trust store.
    pub native_certs: Vec<Vec<u8>>,
    /// Where TLS secrets are logged.
    pub key_log: Option<Arc<KeyLogFile>>,
}

/// The TLS settings of an endpoint.
pub struct Context {
    client_config: Option<Arc<ClientConfig>>,
    server_config: Option<Arc<ServerConfig>>,
    private_key: Option<PrivateKeyDer<'static>>,
    ca_certificates: Option<Vec<Vec<u8>>>,
    verify_ca_certificates_store: Option<RootCertStore>,
    system_default_cert_store: Option<RootCertStore>,
    alpns: Vec<Vec<u8>>,
    enable_verify_ca_certificates: bool,
    enable_keylog: bool,
    enable_early_data: bool,
    quic_version: Version,
    client_resumption_store: Arc<ClientSessionMemoryCache>,
}

/// Mathematical content of a [`Context`].
#[verifier::ext_equal]
pub struct ContextView {
    pub client_config: Option<ClientConfig>,
    pub server_config: Option<ServerConfig>,
    pub private_key: Option<PrivateKeyDer<'static>>,
    /// The certificate chain of this endpoint.
    pub chain: Option<Seq<Seq<u8>>>,
    /// The roots that were loaded to verify peers.
    pub roots: Option<Seq<Anchor>>,
    /// The roots of the host, once they were needed.
    pub host_roots: Option<Seq<Anchor>>,
    pub alpn: Seq<Seq<u8>>,
    pub verify: bool,
    pub key_log: bool,
    pub early_data: bool,
    pub version: Version,
    pub sessions: ClientSessionMemoryCache,
}

impl ContextView {
    /// The identity of this endpoint, once chain and key are both there.
    pub open spec fn identity(self) -> Option<Identity> {
        match (self.chain, self.private_key) {
            (Some(chain), Some(key)) => Some(Identity { chain, key }),
            _ => None,
        }
    }

    /// What a server configuration made now is like, but for the key log.
    pub open spec fn server_settings(self) -> ServerSettings {
        ServerSettings {
            quic_ready: true,
            client_auth: if !self.verify {
                ClientAuth::NotRequested
            } else {
                match self.roots {
                    Some(roots) => ClientAuth::Roots { roots },
                    None => ClientAuth::Rejected,
                }
            },
            identity: self.identity()->0,
            key_log: None,
            max_early_data: if self.early_data {
                u32::MAX
            } else {
                0
            },
            alpn: self.alpn,
        }
    }

    /// What a client configuration made now is like, but for the key log.
    pub open spec fn client_settings(self) -> ClientSettings {
        ClientSettings {
            quic_ready: true,
            server_auth: if !self.verify {
                ServerAuth::Disabled
            } else {
                match self.roots {
                    Some(roots) => ServerAuth::Roots { roots },
                    None => ServerAuth::Roots { roots: self.host_roots->0 },
                }
            },
            identity: self.identity(),
            key_log: None,
            early_data: self.early_data,
            alpn: self.alpn,
            resumption: Some(self.sessions),
        }
    }

    /// Whether verification was asked for and no roots were loaded for it, so
    /// that a client falls back on those of the host.
    pub open spec fn trusts_host(self) -> bool {
        self.verify && self.roots is None
    }

    /// Whether no configuration can be made from the settings: peers are to be
    /// verified against no roots at all, or the identity is not usable.
    ///
    /// Without an identity this is the only obstacle. With one, rustls may also
    /// fail to load it for want of random numbers.
    pub open spec fn unbuildable(self) -> bool {
        ||| self.verify && (self.roots matches Some(roots) && roots.len() == 0)
        ||| (self.identity() matches Some(identity) && !config::identity_usable(
            identity.chain,
            identity.key,
        ))
    }

    /// Whether a server configuration is what the settings ask for.
    pub open spec fn serves(self, config: ServerConfig) -> bool {
        let settings = config::server_settings(config);
        &&& self.identity() is Some
        &&& settings == (ServerSettings { key_log: settings.key_log, ..self.server_settings() })
        &&& settings.key_log is Some ==> self.key_log
    }

    /// Whether a client configuration is what the settings ask for.
    pub open spec fn fits_client(self, config: ClientConfig) -> bool {
        let settings = config::client_settings(config);
        &&& self.trusts_host() ==> self.host_roots is Some
        &&& settings == (ClientSettings { key_log: settings.key_log, ..self.client_settings() })
        &&& settings.key_log is Some ==> self.key_log
    }

    /// What always holds of a context: configurations that were built are what
    /// the present settings ask for, and the server's is built first.
    pub open spec fn wf(self) -> bool {
        &&& self.client_config matches Some(config) ==> self.fits_client(config)
            && !self.unbuildable()
        &&& self.server_config matches Some(config) ==> self.serves(config) && !self.unbuildable()
        &&& self.client_config is Some && self.identity() is Some ==> self.server_config is Some
    }

    /// The context without its configurations.
    pub open spec fn invalidated(self) -> ContextView {
        ContextView { client_config: None, server_config: None, ..self }
    }

    /// What secrets are logged to, if they are and there is something.
    pub open spec fn key_log_among(self, offered: Option<Arc<KeyLogFile>>) -> Option<KeyLogFile> {
        match offered {
            Some(log) if self.key_log => Some(*log),
            _ => None,
        }
    }

    /// The context once it has taken what it needs from the certificates of
    /// the host.
    pub open spec fn with_host_roots(self, native_certs: Seq<Seq<u8>>) -> ContextView {
        if self.trusts_host() {
            ContextView { host_roots: Some(self.host_roots_with(native_certs)), ..self }
        } else {
            self
        }
    }

    /// The trust anchors of the host that a client would fall back on, given
    /// the certificates of the host.
    pub open spec fn host_roots_with(self, native_certs: Seq<Seq<u8>>) -> Seq<Anchor> {
        match self.host_roots {
            Some(roots) => roots,
            None => roots::parsed_anchors(native_certs),
        }
    }
}

impl View for Context {
    type V = ContextView;

    closed spec fn view(&self) -> ContextView {
        ContextView {
            client_config: match self.client_config {
                Some(config) => Some(*config),
                None => None,
            },
            server_config: match self.server_config {
                Some(config) => Some(*config),
                None => None,
            },
            private_key: self.private_key,
            chain: match self.ca_certificates {
                Some(certs) => Some(types::byte_strings(certs@)),
                None => None,
            },
            roots: roots::anchors_of(self.verify_ca_certificates_store),
            host_roots: roots::anchors_of(self.system_default_cert_store),
            alpn: types::byte_strings(self.alpns@),
            verify: self.enable_verify_ca_certificates,
            key_log: self.enable_keylog,
            early_data: self.enable_early_data,
            version: self.quic_version,
            sessions: *self.client_resumption_store,
        }
    }
}

/// The certificates in all of `files`, in order, unless one is malformed.
pub open spec fn certificates_in(files: Seq<Seq<u8>>) -> Option<Seq<Seq<u8>>>
    decreases files.len(),
{
    if files.len() == 0 {
        Some(Seq::empty())
    } else {
        match (
            certificates_in(files.drop_last()),
            pem::pem_certificates(files.last()),
        ) {
            (Some(before), Some(certs)) => Some(before + certs),
            _ => None,
        }
    }
}

/// `known` and behind it the trust anchors of `certs`.
pub open spec fn more_roots(known: Option<Seq<Anchor>>, certs: Seq<Seq<u8>>) -> Seq<Anchor> {
    (match known {
        Some(roots) => roots,
        None => Seq::empty(),
    }) + roots::parsed_anchors(certs)
}

impl Context {
    /// A context that verifies nobody and has no identity.
    pub fn new() -> (context: Result<Self, Error>)
        ensures
            context is Ok,
            ({
                let view = context->Ok_0@;
                &&& view.wf()
                &&& view == (ContextView {
                    client_config: None,
                    server_config: None,
                    private_key: None,
                    chain: None,
                    roots: None,
                    host_roots: None,
                    alpn: Seq::empty(),
                    verify: false,
                    key_log: false,
                    early_data: false,
                    version: Version::V1,
                    sessions: view.sessions,
                })
                &&& config::cache_size(view.sessions) == SESSION_CACHE_SIZE
                &&& config::cache_size(view.sessions) == 256
            }),
    {
        let context = Context {
            client_config: None,
            server_config: None,
            private_key: None,
            ca_certificates: None,
            enable_verify_ca_certificates: false,
            verify_ca_certificates_store: None,
            system_default_cert_store: None,
            enable_keylog: false,
            enable_early_data: false,
            quic_version: Default::default(),
            alpns: Vec::new(),
            client_resumption_store: Arc::new(session_cache(SESSION_CACHE_SIZE)),
        };
        assert(context@.alpn =~= Seq::empty());
        Ok(context)
    }

    /// Drops the configurations, which hold the settings of when they were
    /// built; whatever changes a setting has to have them built again.
    pub fn invalidate_configs(&mut self)
        ensures
            final(self)@ == old(self)@.invalidated(),
            final(self)@.wf(),
    {
        self.client_config = None;
        self.server_config = None;
    }

    /// Chooses whether peers are verified.
    pub fn set_verify(&mut self, verify: bool)
        ensures
            final(self)@ == (ContextView { verify, ..old(self)@.invalidated() }),
            final(self)@.wf(),
    {
        self.enable_verify_ca_certificates = verify;
        self.invalidate_configs();
    }

    /// Has TLS secrets logged.
    pub fn enable_keylog(&mut self)
        ensures
            final(self)@ == (ContextView { key_log: true, ..old(self)@.invalidated() }),
            final(self)@.wf(),
    {
        self.enable_keylog = true;
        self.invalidate_configs();
    }

    /// Sets the application protocols, most preferred first.
    pub fn set_alpn(&mut self, v: &[&[u8]]) -> (outcome: Result<(), Error>)
        ensures
            outcome is Ok,
            final(self)@ == (ContextView {
                alpn: v@.map_values(|name: &[u8]| name@),
                ..old(self)@.invalidated()
            }),
            final(self)@.wf(),
    {
        let mut alpns: Vec<Vec<u8>> = Vec::new();
        let mut i: usize = 0;
        while i < v.len()
            invariant
                i <= v@.len(),
                alpns.len() == i,
                forall|j: int| 0 <= j < i ==> (#[trigger] alpns@[j])@ == v@[j]@,
            decreases v@.len() - i,
        {
            alpns.push(copy_bytes(v[i]));
            i += 1;
        }
        assert(types::byte_strings(alpns@) =~= v@.map_values(|name: &[u8]| name@));
        self.alpns = alpns;
        self.invalidate_configs();
        Ok(())
    }

    /// Chooses whether early data is offered and accepted.
    pub fn set_early_data_enabled(&mut self, enabled: bool)
        ensures
            final(self)@ == (ContextView { early_data: enabled, ..old(self)@.invalidated() }),
            final(self)@.wf(),
    {
        self.enable_early_data = enabled;
        self.invalidate_configs();
    }

    /// Adds certificates to the roots that peers are verified against.
    fn extend_verify_ca_certificates(&mut self, certs: Vec<Vec<u8>>)
        ensures
            final(self)@ == (ContextView {
                roots: Some(
                    more_roots(old(self)@.roots, types::byte_strings(certs@)),
                ),
                ..old(self)@
            }),
    {
        extend_store(&mut self.verify_ca_certificates_store, certs);
    }

    /// Reads the certificates in the text of a PEM file.
    fn load_ca_certificates_from_file(pem: &[u8]) -> (certs: Result<Vec<Vec<u8>>, Error>)
        ensures
            match pem::pem_certificates(pem@) {
                Some(list) => certs matches Ok(found) && types::byte_strings(found@) == list,
                None => certs == Err::<Vec<Vec<u8>>, Error>(Error::TlsFail),
            },
    {
        read_certificates(pem)
    }

    /// Adds the certificates in the text of a PEM file to the roots that peers
    /// are verified against.
    pub fn load_verify_locations_from_file(&mut self, pem: &[u8]) -> (outcome: Result<(), Error>)
        ensures
            match pem::pem_certificates(pem@) {
                Some(certs) => outcome is Ok && final(self)@ == (ContextView {
                    roots: Some(more_roots(old(self)@.roots, certs)),
                    ..old(self)@.invalidated()
                }) && final(self)@.wf(),
                None => outcome == Err::<(), Error>(Error::TlsFail) && *final(self) == *old(self),
            },
    {
        match Self::load_ca_certificates_from_file(pem) {
            Ok(certs) => {
                self.extend_verify_ca_certificates(certs);
                self.invalidate_configs();
                Ok(())
            },
            Err(error) => Err(error),
        }
    }

    /// Adds the certificates in the texts of all PEM files of a directory to
    /// the roots that peers are verified against; none if one is malformed.
    pub fn load_verify_locations_from_directory(
        &mut self,
        files: &Vec<Vec<u8>>,
    ) -> (outcome: Result<(), Error>)
        ensures
            match certificates_in(types::byte_strings(files@)) {
                Some(certs) => outcome is Ok && final(self)@ == (ContextView {
                    roots: Some(more_roots(old(self)@.roots, certs)),
                    ..old(self)@.invalidated()
                }) && final(self)@.wf(),
                None => outcome == Err::<(), Error>(Error::TlsFail) && *final(self) == *old(self),
            },
    {
        let ghost all = types::byte_strings(files@);
        let mut certs: Vec<Vec<u8>> = Vec::new();
        let mut i: usize = 0;
        assert(all.take(0) =~= Seq::empty());
        assert(types::byte_strings(certs@) =~= Seq::empty());
        while i < files.len()
            invariant
                i <= files.len(),
                all == types::byte_strings(files@),
                certificates_in(all.take(i as int)) == Some(types::byte_strings(certs@)),
                *self == *old(self),
            decreases files.len() - i,
        {
            assert(all.take(i + 1).drop_last() =~= all.take(i as int));
            assert(all.take(i + 1).last() == files@[i as int]@);
            match Self::load_ca_certificates_from_file(files[i].as_slice()) {
                Ok(found) => {
                    let ghost before = certs@;
                    let mut found = found;
                    let ghost new = found@;
                    certs.append(&mut found);
                    assert(types::byte_strings(certs@) =~= types::byte_strings(before)
                        + types::byte_strings(new));
                },
                Err(error) => {
                    proof {
                        lemma_malformed_spoils_all(all, i + 1);
                    }
                    return Err(error);
                },
            }
            i += 1;
        }
        assert(all.take(i as int) =~= all);
        self.extend_verify_ca_certificates(certs);
        self.invalidate_configs();
        Ok(())
    }

    /// Takes the certificate chain of this endpoint from the text of a PEM
    /// file.
    pub fn use_certificate_chain_file(&mut self, pem: &[u8]) -> (outcome: Result<(), Error>)
        ensures
            match pem::pem_certificates(pem@) {
                Some(certs) => outcome is Ok && final(self)@ == (ContextView {
                    chain: Some(certs),
                    ..old(self)@.invalidated()
                }) && final(self)@.wf(),
                None => outcome == Err::<(), Error>(Error::TlsFail) && *final(self) == *old(self),
            },
    {
        match Self::load_ca_certificates_from_file(pem) {
            Ok(certs) => {
                self.ca_certificates = Some(certs);
                self.invalidate_configs();
                Ok(())
            },
            Err(error) => Err(error),
        }
    }

    /// Takes the private key of this endpoint from the text of a PEM file.
    pub fn use_privkey_file(&mut self, pem: &[u8]) -> (outcome: Result<(), Error>)
        ensures
            match pem::pem_private_key(pem@) {
                Some(key) => outcome is Ok && final(self)@ == (ContextView {
                    private_key: Some(key),
                    ..old(self)@.invalidated()
                }) && final(self)@.wf(),
                None => outcome == Err::<(), Error>(Error::TlsFail) && *final(self) == *old(self),
            },
    {
        match read_private_key(pem) {
            Ok(key) => {
                self.private_key = Some(key);
                self.invalidate_configs();
                Ok(())
            },
            Err(error) => Err(error),
        }
    }

    /// Whether the next handshake needs the certificates of the host.
    pub fn needs_native_certs(&self) -> (needed: bool)
        ensures
            needed == (self@.client_config is None && self@.trusts_host()
                && self@.host_roots is None),
            needed == (self@.client_config is None && self@.verify && self@.roots is None
                && self@.host_roots is None),
    {
        self.client_config.is_none() && self.enable_verify_ca_certificates
            && self.verify_ca_certificates_store.is_none()
            && self.system_default_cert_store.is_none()
    }

    /// Whether the next handshake needs something to log secrets to.
    pub fn needs_key_log(&self) -> (needed: bool)
        ensures
            needed == (self@.client_config is None && self@.key_log),
    {
        self.client_config.is_none() && self.enable_keylog
    }

    /// The roots of the host. They are taken over from its certificates once
    /// and kept.
    pub fn load_system_default_certificate_store(&mut self, native_certs: Vec<Vec<u8>>) -> (store:
        RootCertStore)
        ensures
            roots::anchors(store) == old(self)@.host_roots_with(
                types::byte_strings(native_certs@),
            ),
            final(self)@ == (ContextView {
                host_roots: Some(roots::anchors(store)),
                ..old(self)@
            }),
            old(self)@.host_roots is Some ==> final(self)@ == old(self)@,
            old(self)@.host_roots matches Some(known) ==> roots::anchors(store) == known,
            old(self)@.host_roots is None ==> roots::anchors(store) == roots::parsed_anchors(
                types::byte_strings(native_certs@),
            ),
            old(self)@.wf() ==> final(self)@.wf(),
    {
        if let Some(store) = &self.system_default_cert_store {
            return clone_store(store);
        }
        let mut store: Option<RootCertStore> = None;
        extend_store(&mut store, native_certs);
        let store = match store {
            Some(store) => store,
            None => empty_store(),
        };
        let copy = clone_store(&store);
        self.system_default_cert_store = Some(store);
        copy
    }

    /// Goes on with the answer of rustls to the request for a server
    /// configuration: adds the settings that come on top of what rustls makes.
    pub fn finish_server(
        &self,
        built: Result<ServerConfig, TlsError>,
        key_log: &Option<Arc<KeyLogFile>>,
    ) -> (config: Result<ServerConfig, Error>)
        ensures
            match built {
                Ok(bare) => config matches Ok(config) && config::server_settings(config) == (
                ServerSettings {
                    key_log: match self@.key_log_among(*key_log) {
                        Some(log) => Some(log),
                        None => config::server_settings(bare).key_log,
                    },
                    max_early_data: if self@.early_data {
                        u32::MAX
                    } else {
                        config::server_settings(bare).max_early_data
                    },
                    alpn: if self@.alpn.len() > 0 {
                        self@.alpn
                    } else {
                        config::server_settings(bare).alpn
                    },
                    ..config::server_settings(bare)
                }),
                Err(_) => config matches Err(error) && error == Error::TlsFail,
            },
    {
        let mut config = match built {
            Ok(config) => config,
            Err(_) => {
                return Err(Error::TlsFail);
            },
        };
        if self.enable_keylog {
            if let Some(log) = key_log {
                set_server_key_log(&mut config, log.clone());
            }
        }
        if self.enable_early_data {
            // QUIC servers allow either no early data or any amount.
            set_max_early_data(&mut config, u32::MAX);
        }
        if self.alpns.len() > 0 {
            set_server_alpn(&mut config, copy_byte_strings(&self.alpns));
        }
        Ok(config)
    }

    /// Builds a server configuration from the settings.
    fn build_server(&self, key_log: &Option<Arc<KeyLogFile>>) -> (config: Result<
        ServerConfig,
        Error,
    >)
        requires
            self@.identity() is Some,
        ensures
            match config {
                Ok(config) => !self@.unbuildable() && config::server_settings(config) == (
                ServerSettings {
                    key_log: self@.key_log_among(*key_log),
                    ..self@.server_settings()
                }),
                Err(error) => error == Error::TlsFail,
            },
    {
        let (chain, key) = match (&self.ca_certificates, &self.private_key) {
            (Some(chain), Some(key)) => (copy_byte_strings(chain), clone_key(key)),
            _ => {
                return Err(Error::TlsFail);
            },
        };
        let built = if self.enable_verify_ca_certificates {
            match &self.verify_ca_certificates_store {
                Some(store) => match build_verifying_server(clone_store(store), chain, key) {
                    Ok(built) => built,
                    Err(_) => {
                        return Err(Error::TlsFail);
                    },
                },
                None => match RejectedClientCertAllowedAnonymousVerifier::new() {
                    Ok(verifier) => build_rejecting_server(verifier, chain, key),
                    Err(error) => {
                        return Err(error);
                    },
                },
            }
        } else {
            build_open_server(chain, key)
        };
        assert(self@.alpn.len() == 0 ==> self@.alpn =~= Seq::empty());
        self.finish_server(built, key_log)
    }

    /// Asks rustls for a client configuration, unless there are no roots to
    /// verify servers against.
    fn request_client(&mut self, native_certs: Vec<Vec<u8>>) -> (built: Result<
        Result<ClientConfig, TlsError>,
        Error,
    >)
        ensures
            final(self)@ == old(self)@.with_host_roots(types::byte_strings(native_certs@)),
            match built {
                Ok(Ok(config)) => {
                    &&& !old(self)@.unbuildable()
                    &&& config::client_settings(config) == config::fresh_client(
                        final(self)@.client_settings().server_auth,
                        final(self)@.identity(),
                    )
                },
                Ok(Err(_)) => old(self)@.identity() is Some,
                Err(error) => old(self)@.unbuildable() && error == Error::TlsFail,
            },
    {
        let identity = match (&self.ca_certificates, &self.private_key) {
            (Some(chain), Some(key)) => Some((copy_byte_strings(chain), clone_key(key))),
            _ => None,
        };
        let built = if self.enable_verify_ca_certificates {
            let store = match &self.verify_ca_certificates_store {
                Some(store) => Some(clone_store(store)),
                None => None,
            };
            match store {
                Some(store) => {
                    let verifier = match server_verifier(store) {
                        Ok(verifier) => verifier,
                        Err(_) => {
                            return Err(Error::TlsFail);
                        },
                    };
                    match identity {
                        Some((chain, key)) => build_verifying_client_with_cert(
                            verifier,
                            chain,
                            key,
                        ),
                        None => build_verifying_client(verifier),
                    }
                },
                None => {
                    let store = self.load_system_default_certificate_store(native_certs);
                    match identity {
                        Some((chain, key)) => build_rooted_client_with_cert(store, chain, key),
                        None => build_rooted_client(store),
                    }
                },
            }
        } else {
            let verifier = match DisabledServerCertVerifier::new() {
                Ok(verifier) => verifier,
                Err(error) => {
                    return Err(error);
                },
            };
            match identity {
                Some((chain, key)) => build_trusting_client_with_cert(verifier, chain, key),
                None => build_trusting_client(verifier),
            }
        };
        Ok(built)
    }

    /// Goes on with the answer of rustls to the request for a client
    /// configuration: adds the settings that come on top of what rustls makes.
    pub fn finish_client(
        &self,
        built: Result<ClientConfig, TlsError>,
        key_log: &Option<Arc<KeyLogFile>>,
    ) -> (config: Result<ClientConfig, Error>)
        ensures
            match built {
                Ok(bare) => config matches Ok(config) && config::client_settings(config) == (
                ClientSettings {
                    key_log: match self@.key_log_among(*key_log) {
                        Some(log) => Some(log),
                        None => config::client_settings(bare).key_log,
                    },
                    early_data: self@.early_data || config::client_settings(bare).early_data,
                    alpn: if self@.alpn.len() > 0 {
                        self@.alpn
                    } else {
                        config::client_settings(bare).alpn
                    },
                    resumption: Some(self@.sessions),
                    ..config::client_settings(bare)
                }),
                Err(_) => config matches Err(error) && error == Error::TlsFail,
            },
    {
        let mut config = match built {
            Ok(config) => config,
            Err(_) => {
                return Err(Error::TlsFail);
            },
        };
        if self.enable_keylog {
            if let Some(log) = key_log {
                set_client_key_log(&mut config, log.clone());
            }
        }
        if self.enable_early_data {
            set_early_data(&mut config, true);
        }
        if self.alpns.len() > 0 {
            set_client_alpn(&mut config, copy_byte_strings(&self.alpns));
        }
        // The store belongs to the context, so that every connection made from
        // it can resume the sessions of the others.
        set_resumption(&mut config, self.client_resumption_store.clone());
        Ok(config)
    }

    /// Builds a client configuration from the settings.
    fn build_client(
        &mut self,
        native_certs: Vec<Vec<u8>>,
        key_log: &Option<Arc<KeyLogFile>>,
    ) -> (config: Result<ClientConfig, Error>)
        ensures
            final(self)@ == old(self)@.with_host_roots(types::byte_strings(native_certs@)),
            match config {
                Ok(config) => !old(self)@.unbuildable() && config::client_settings(config) == (
                ClientSettings {
                    key_log: final(self)@.key_log_among(*key_log),
                    ..final(self)@.client_settings()
                }),
                Err(error) => {
                    &&& error == Error::TlsFail
                    &&& old(self)@.unbuildable() || old(self)@.identity() is Some
                },
            },
    {
        match self.request_client(native_certs) {
            Ok(built) => {
                assert(self@.alpn.len() == 0 ==> self@.alpn =~= Seq::empty());
                self.finish_client(built, key_log)
            },
            Err(error) => Err(error),
        }
    }

    /// A new handshake with the present settings. Configurations are built for
    /// the first one, and again after a setting has changed. Where one cannot be
    /// built, what was built before it stays for the next attempt.
    ///
    /// `host` is what the host has to offer, as far as it is needed.
    pub fn new_handshake(&mut self, host: HostResources) -> (shake: Result<Handshake, Error>)
        requires
            old(self)@.wf(),
        ensures
            final(self)@.wf(),
            match shake {
                Ok(shake) => {
                    &&& final(self)@.client_config is Some
                    &&& shake@ == machine::unbegun(
                        final(self)@.client_config->0,
                        final(self)@.server_config,
                        final(self)@.version,
                        final(self)@.verify,
                    )
                    &&& shake@ == (HandshakeView {
                        client_config: final(self)@.client_config->0,
                        server_config: final(self)@.server_config,
                        version: final(self)@.version,
                        side: Side::Client,
                        verify: final(self)@.verify,
                        params: None,
                        hostname: None,
                        connection: None,
                        level: Level::Initial,
                        provided: None,
                        parked: None,
                        pending: None,
                    })
                    &&& old(self)@.client_config is Some ==> final(self)@ == old(self)@
                    &&& old(self)@.client_config is None ==> {
                        &&& !old(self)@.unbuildable()
                        &&& final(self)@ == (ContextView {
                            client_config: final(self)@.client_config,
                            server_config: final(self)@.server_config,
                            ..old(self)@.with_host_roots(
                                types::byte_strings(host.native_certs@),
                            )
                        })
                        &&& config::client_settings(final(self)@.client_config->0).key_log
                            == old(self)@.key_log_among(host.key_log)
                    }
                },
                Err(error) => {
                    &&& error == Error::TlsFail
                    &&& old(self)@.client_config is None
                    &&& old(self)@.unbuildable() || old(self)@.identity() is Some
                    &&& old(self)@.unbuildable() ==> final(self)@ == old(self)@
                    &&& final(self)@ == old(self)@ || final(self)@ == (ContextView {
                        server_config: final(self)@.server_config,
                        ..old(self)@.with_host_roots(types::byte_strings(host.native_certs@))
                    })
                },
            },
            match (old(self)@.server_config, final(self)@.server_config) {
                (Some(before), after) => after == Some(before),
                (None, Some(built)) => config::server_settings(built).key_log
                    == old(self)@.key_log_among(host.key_log),
                (None, None) => true,
            },
    {
        if self.server_config.is_none() && self.private_key.is_some()
            && self.ca_certificates.is_some() {
            match self.build_server(&host.key_log) {
                Ok(config) => {
                    self.server_config = Some(Arc::new(config));
                },
                Err(error) => {
                    return Err(error);
                },
            }
        }
        if self.client_config.is_none() {
            match self.build_client(host.native_certs, &host.key_log) {
                Ok(config) => {
                    self.client_config = Some(Arc::new(config));
                },
                Err(error) => {
                    return Err(error);
                },
            }
        }
        let server_config = match &self.server_config {
            Some(config) => Some(config.clone()),
            None => None,
        };
        match &self.client_config {
            Some(config) => Ok(
                Handshake::new(
                    config.clone(),
                    server_config,
                    self.quic_version,
                    self.enable_verify_ca_certificates,
                ),
            ),
            None => Err(Error::TlsFail),
        }
    }
}

/// Certificates that are loaded one after the other add up to those that are
/// loaded at once.
pub proof fn law_roots_add_up(
    known: Option<Seq<Anchor>>,
    first: Seq<Seq<u8>>,
    second: Seq<Seq<u8>>,
)
    ensures
        more_roots(Some(more_roots(known, first)), second) == more_roots(known, first + second),
{
    roots::lemma_parsed_anchors_add_up(first, second);
    assert(more_roots(Some(more_roots(known, first)), second) =~= more_roots(
        known,
        first + second,
    ));
}

/// Configurations hold the settings of the context that they belong to, at any
/// time: a change of settings leaves none behind that was built before it.
///
/// With verification on, a client trusts the roots that were loaded and no
/// others, or those of the host if none were; a server asks for a certificate
/// that leads to the loaded roots, and rejects any if none were. Whether there is
/// an identity makes no difference to either.
pub proof fn law_configs_follow_settings(context: ContextView)
    requires
        context.wf(),
    ensures
        context.client_config matches Some(config) ==> {
            let settings = config::client_settings(config);
            &&& settings.identity == context.identity()
            &&& !context.verify ==> settings.server_auth is Disabled
            &&& context.verify ==> settings.server_auth is Roots
            &&& context.verify && context.roots is Some ==> Some(
                settings.server_auth->roots,
            ) == context.roots
            &&& context.verify && context.roots is None ==> Some(
                settings.server_auth->roots,
            ) == context.host_roots
            &&& settings.early_data == context.early_data
            &&& settings.alpn == context.alpn
            &&& settings.resumption == Some(context.sessions)
            &&& !context.key_log ==> settings.key_log is None
            &&& settings.quic_ready
        },
        context.server_config matches Some(config) ==> {
            let settings = config::server_settings(config);
            &&& Some(settings.identity) == context.identity()
            &&& !context.verify ==> settings.client_auth is NotRequested
            &&& context.verify && context.roots is None ==> settings.client_auth is Rejected
            &&& context.verify && context.roots is Some ==> settings.client_auth is Roots && Some(
                settings.client_auth->roots,
            ) == context.roots
            &&& context.early_data ==> settings.max_early_data == u32::MAX
            &&& !context.early_data ==> settings.max_early_data == 0
            &&& settings.alpn == context.alpn
            &&& !context.key_log ==> settings.key_log is None
            &&& settings.quic_ready
        },
        context.client_config is Some && context.chain is Some && context.private_key is Some
            ==> context.server_config is Some,
        context.server_config is Some ==> context.chain is Some && context.private_key is Some,
        context.invalidated().wf(),
{
}

/// The identity is the chain and the key together; half of it is none.
pub proof fn law_identity_is_chain_and_key(context: ContextView)
    ensures
        context.identity() is Some <==> context.chain is Some && context.private_key is Some,
        context.identity() matches Some(identity) ==> {
            &&& context.chain == Some(identity.chain)
            &&& context.private_key == Some(identity.key)
        },
{
}

/// Settings cannot be built from in two cases only: verification is on and an
/// empty list of roots was loaded, or chain and key are there and rustls cannot
/// use them.
pub proof fn law_what_cannot_be_built(context: ContextView)
    ensures
        context.verify && context.roots == Some(Seq::<Anchor>::empty()) ==> context.unbuildable(),
        context.chain is Some && context.private_key is Some && !config::identity_usable(
            context.chain->0,
            context.private_key->0,
        ) ==> context.unbuildable(),
        context.unbuildable() ==> {
            ||| context.verify && context.roots == Some(Seq::<Anchor>::empty())
            ||| context.chain is Some && context.private_key is Some && !config::identity_usable(
                context.chain->0,
                context.private_key->0,
            )
        },
{
    if let Some(roots) = context.roots {
        if roots.len() == 0 {
            assert(roots =~= Seq::<Anchor>::empty());
        }
    }
}

/// Dropping the configurations drops nothing else, and leaves a context that is
/// in order whatever was changed before.
pub proof fn law_only_configurations_are_dropped(context: ContextView)
    ensures
        ({
            let after = context.invalidated();
            &&& after.wf()
            &&& after.client_config is None
            &&& after.server_config is None
            &&& after.private_key == context.private_key
            &&& after.chain == context.chain
            &&& after.roots == context.roots
            &&& after.host_roots == context.host_roots
            &&& after.alpn == context.alpn
            &&& after.verify == context.verify
            &&& after.key_log == context.key_log
            &&& after.early_data == context.early_data
            &&& after.version == context.version
            &&& after.sessions == context.sessions
        }),
{
}

/// Secrets are logged to what the host offers, exactly if logging is on.
pub proof fn law_secrets_are_logged_on_demand(context: ContextView, log: Arc<KeyLogFile>)
    ensures
        context.key_log ==> context.key_log_among(Some(log)) == Some(*log),
        !context.key_log ==> context.key_log_among(Some(log)) is None,
        context.key_log_among(None) is None,
{
}

/// The certificates of a directory are those of its files, one file after the
/// other, each file whole; there are none if one file is malformed.
pub proof fn law_directory_is_its_files(files: Seq<Seq<u8>>)
    ensures
        certificates_in(files) is None <==> exists|i: int|
            0 <= i < files.len() && pem::pem_certificates(#[trigger] files[i]) is None,
        certificates_in(files) matches Some(certs) ==> certs == files.map_values(
            |file: Seq<u8>| pem::pem_certificates(file)->0,
        ).flatten(),
    decreases files.len(),
{
    let of = |file: Seq<u8>| pem::pem_certificates(file)->0;
    let parts = files.map_values(of);
    parts.lemma_flatten_and_flatten_alt_are_equivalent();
    if files.len() > 0 {
        let before = files.drop_last();
        law_directory_is_its_files(before);
        before.map_values(of).lemma_flatten_and_flatten_alt_are_equivalent();
        assert(parts.drop_last() =~= before.map_values(of));
        assert forall|i: int| 0 <= i < before.len() implies #[trigger] files[i] == before[i] by {}
        assert(files[files.len() - 1] == files.last());
        if pem::pem_certificates(files.last()) is Some && certificates_in(before) is None {
            let i = choose|i: int|
                0 <= i < before.len() && pem::pem_certificates(#[trigger] before[i]) is None;
            assert(pem::pem_certificates(files[i]) is None);
        }
    } else {
        assert(certificates_in(files)->0 =~= parts.flatten_alt());
    }
}

/// The certificates of two directories together are those of the one and those
/// of the other.
pub proof fn law_directories_add_up(first: Seq<Seq<u8>>, second: Seq<Seq<u8>>)
    ensures
        certificates_in(first + second) == match (
            certificates_in(first),
            certificates_in(second),
        ) {
            (Some(a), Some(b)) => Some(a + b),
            _ => None,
        },
    decreases second.len(),
{
    if second.len() == 0 {
        assert(first + second =~= first);
        if let Some(certs) = certificates_in(first) {
            assert(certs + certificates_in(second)->0 =~= certs);
        }
    } else {
        law_directories_add_up(first, second.drop_last());
        assert((first + second).drop_last() =~= first + second.drop_last());
        assert((first + second).last() == second.last());
        if let (Some(a), Some(b), Some(c)) = (
            certificates_in(first),
            certificates_in(second.drop_last()),
            pem::pem_certificates(second.last()),
        ) {
            assert((a + b) + c =~= a + (b + c));
        }
    }
}

/// Loading certificates keeps the roots that were there, in their place, and adds
/// those of all the certificates that parse and no others.
pub proof fn law_loading_adds_roots(
    known: Option<Seq<Anchor>>,
    certs: Seq<Seq<u8>>,
    anchor: Anchor,
)
    ensures
        known matches Some(roots) ==> roots.is_prefix_of(more_roots(known, certs)),
        more_roots(known, certs).contains(anchor) <==> (known matches Some(roots)
            && roots.contains(anchor)) || exists|i: int|
            0 <= i < certs.len() && roots::parsed_anchor(#[trigger] certs[i]) == Some(anchor),
{
    roots::law_no_anchor_is_lost(certs, anchor);
    let new = roots::parsed_anchors(certs);
    let all = more_roots(known, certs);
    if let Some(old_roots) = known {
        assert(old_roots =~= all.subrange(0, old_roots.len() as int));
        if old_roots.contains(anchor) {
            let i = choose|i: int| 0 <= i < old_roots.len() && old_roots[i] == anchor;
            assert(all[i] == anchor);
        }
        if new.contains(anchor) {
            let i = choose|i: int| 0 <= i < new.len() && new[i] == anchor;
            assert(all[old_roots.len() + i] == anchor);
        }
        if all.contains(anchor) {
            let i = choose|i: int| 0 <= i < all.len() && all[i] == anchor;
            if i < old_roots.len() {
                assert(old_roots[i] == anchor);
            } else {
                assert(new[i - old_roots.len()] == anchor);
            }
        }
    } else {
        assert(all =~= new);
    }
}

/// The certificates of the host are made use of exactly if peers are verified, no
/// roots were loaded and none were taken from the host before; all that parse
/// become roots of the host, and nothing else changes.
pub proof fn law_host_roots_come_from_the_host(context: ContextView, native_certs: Seq<Seq<u8>>)
    ensures
        ({
            let after = context.with_host_roots(native_certs);
            &&& context.verify && context.roots is None && context.host_roots is None
                ==> after.host_roots == Some(roots::parsed_anchors(native_certs))
            &&& !(context.verify && context.roots is None && context.host_roots is None)
                ==> after == context
            &&& after == (ContextView { host_roots: after.host_roots, ..context })
        }),
{
}

/// The roots of the host are taken over once: certificates that it offers later
/// change nothing, even after the configurations have been dropped.
pub proof fn law_host_roots_are_loaded_once(
    context: ContextView,
    first: Seq<Seq<u8>>,
    second: Seq<Seq<u8>>,
)
    ensures
        context.with_host_roots(first).invalidated().with_host_roots(second)
            == context.with_host_roots(first).invalidated(),
{
}

/// rustls makes QUIC servers from every server configuration of a context.
pub proof fn law_servers_are_made(context: ContextView)
    requires
        context.wf(),
    ensures
        context.server_config matches Some(config) ==> crate::connection::serves_quic(
            config::server_settings(config),
        ),
{
}

/// A malformed file among the first few spoils the whole directory.
proof fn lemma_malformed_spoils_all(files: Seq<Seq<u8>>, count: int)
    requires
        0 <= count <= files.len(),
        certificates_in(files.take(count)) is None,
    ensures
        certificates_in(files) is None,
    decreases files.len() - count,
{
    if count == files.len() {
        assert(files.take(count) =~= files);
    } else {
        assert(files.take(count + 1).drop_last() =~= files.take(count));
        lemma_malformed_spoils_all(files, count + 1);
    }
}

} // verus!
