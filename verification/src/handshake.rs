//! One TLS handshake, from its settings to 1-RTT keys.

use crate::config::{client_alpn, fits_hello, EXTENSION_ROOM};
use crate::connection::{
    as_server, clone_name, describe, get_alert, get_alpn, get_group, get_kind,
    get_peer_certificates, get_peer_params, get_requested_name, get_suite, get_zero_rtt_keys,
    is_handshaking, new_client, new_server, parse_name, read_hs, write_hs, KeyChange,
    PLACEHOLDER_NAME,
};
use crate::crypto::{key_material_from_keys, ExData, Open, Seal};
use crate::machine::{Drive, HandshakeView};
use crate::session::session_blob;
use crate::types::{
    copy_bytes, Algorithm, ConnectionError, Error, HandshakeKind, Level, Side, Version,
};
use crate::{connection, laws, machine};
use rustls::pki_types::ServerName;
use rustls::quic::{Connection, Keys, Secrets};
use rustls::Error as TlsError;
use rustls::{ClientConfig, ServerConfig};
use std::sync::Arc;
use vstd::prelude::*;

verus! {

/// Code of a connection closed for a reason of its own making.
pub const INTERNAL_ERROR: u64 = 0x01;

/// What is added to the number of a TLS alert to close a connection with it.
pub const TLS_ALERT_ERROR: u64 = 0x100;

/// Bytes reserved for encoded transport parameters.
pub const MAX_TRANSPORT_PARAMS: usize = 128;

/// A TLS handshake, before, while and after it takes place.
pub struct Handshake {
    client_config: Arc<ClientConfig>,
    server_config: Option<Arc<ServerConfig>>,
    quic_version: Version,
    side: Side,
    enable_verify_ca_certificates: bool,
    quic_transport_params: Option<Vec<u8>>,
    hostname: Option<ServerName<'static>>,
    connection: Option<Connection>,
    highest_level: Level,
    provided_data: Option<Vec<u8>>,
    one_rtt_keys_secrets: Option<(Keys, Secrets)>,
    /// A fatal TLS alert from reading, surfaced on the next
    /// `do_handshake()` call, which owns the `ExData` needed to record it.
    pending_tls_error: Option<ConnectionError>,
}

impl View for Handshake {
    type V = HandshakeView;

    closed spec fn view(&self) -> HandshakeView {
        HandshakeView {
            client_config: *self.client_config,
            server_config: match self.server_config {
                Some(config) => Some(*config),
                None => None,
            },
            version: self.quic_version,
            side: self.side,
            verify: self.enable_verify_ca_certificates,
            params: match self.quic_transport_params {
                Some(params) => Some(params@),
                None => None,
            },
            hostname: self.hostname,
            connection: self.connection,
            level: self.highest_level,
            provided: match self.provided_data {
                Some(data) => Some(data@),
                None => None,
            },
            parked: self.one_rtt_keys_secrets,
            pending: match self.pending_tls_error {
                Some(error) => Some(error@),
                None => None,
            },
        }
    }
}

/// The state machine's picture of a handshake and its connection state.
pub open spec fn drive_of(shake: Handshake, ex_data: ExData) -> Drive {
    Drive { shake: shake@, ex: ex_data@ }
}

impl Handshake {
    /// A handshake that has not begun, for connections made from these
    /// configurations.
    pub(crate) fn new(
        client_config: Arc<ClientConfig>,
        server_config: Option<Arc<ServerConfig>>,
        quic_version: Version,
        verify: bool,
    ) -> (shake: Handshake)
        ensures
            shake@ == machine::unbegun(
                *client_config,
                match server_config {
                    Some(config) => Some(*config),
                    None => None,
                },
                quic_version,
                verify,
            ),
    {
        Handshake {
            client_config,
            server_config,
            quic_version,
            side: Side::Client,
            enable_verify_ca_certificates: verify,
            quic_transport_params: None,
            hostname: None,
            connection: None,
            highest_level: Level::Initial,
            provided_data: None,
            one_rtt_keys_secrets: None,
            pending_tls_error: None,
        }
    }

    /// Whether the handshake is over.
    pub fn is_completed(&self) -> (done: bool)
        ensures
            done == machine::completed(self@),
            done == (self@.connection matches Some(conn) && !connection::handshaking(conn)),
    {
        match &self.connection {
            Some(conn) => !is_handshaking(conn),
            None => false,
        }
    }

    /// Puts 1-RTT keys to use if the handshake is over, so that no 1-RTT data
    /// is accepted before, and parks them otherwise. Says which.
    pub fn handle_application_keys(
        &mut self,
        ex_data: &mut ExData,
        keys_secrets: (Keys, Secrets),
    ) -> (used: Result<bool, Error>)
        ensures
            used is Ok,
            (used->Ok_0, drive_of(*final(self), *final(ex_data))) == machine::application_keys(
                drive_of(*old(self), *old(ex_data)),
                keys_secrets.0,
                keys_secrets.1,
            ),
    {
        self.highest_level = Level::OneRTT;
        if !self.is_completed() {
            self.one_rtt_keys_secrets = Some(keys_secrets);
            Ok(false)
        } else {
            let (keys, next) = keys_secrets;
            match key_material_from_keys(keys, Some(next)) {
                Ok((open, seal)) => {
                    ex_data.crypto_ctx.application.crypto_open = Some(open);
                    ex_data.crypto_ctx.application.crypto_seal = Some(seal);
                    Ok(true)
                },
                Err(error) => Err(error),
            }
        }
    }

    /// Acts on new keys. Says whether any were put to use.
    pub fn process_key_change(&mut self, ex_data: &mut ExData, change: KeyChange) -> (used: Result<
        bool,
        Error,
    >)
        ensures
            (used, drive_of(*final(self), *final(ex_data))) == machine::key_changed(
                drive_of(*old(self), *old(ex_data)),
                change,
            ),
    {
        match change {
            KeyChange::Handshake { keys } => match self.highest_level {
                Level::Initial | Level::ZeroRTT => match key_material_from_keys(keys, None) {
                    Ok((open, seal)) => {
                        ex_data.crypto_ctx.handshake.crypto_open = Some(open);
                        ex_data.crypto_ctx.handshake.crypto_seal = Some(seal);
                        self.highest_level = Level::Handshake;
                        Ok(true)
                    },
                    Err(error) => Err(error),
                },
                Level::Handshake | Level::OneRTT => Err(Error::TlsFail),
            },
            KeyChange::OneRtt { keys, next } => self.handle_application_keys(
                ex_data,
                (keys, next),
            ),
        }
    }

    /// Queues CRYPTO data at `level`; there is no CRYPTO data at the 0-RTT
    /// level.
    pub fn write_crypto_stream(&self, level: Level, ex_data: &mut ExData, data: &[u8]) -> (written:
        Result<(), Error>)
        ensures
            match machine::stream_written(old(ex_data)@, level, data@) {
                Some(after) => written is Ok && final(ex_data)@ == after,
                None => written == Err::<(), Error>(Error::TlsFail) && final(ex_data)@ == old(
                    ex_data,
                )@,
            },
    {
        match level {
            Level::Initial => ex_data.crypto_ctx.initial.crypto_stream.write(data),
            Level::ZeroRTT => {
                return Err(Error::TlsFail);
            },
            Level::Handshake => ex_data.crypto_ctx.handshake.crypto_stream.write(data),
            Level::OneRTT => ex_data.crypto_ctx.application.crypto_stream.write(data),
        }
        Ok(())
    }

    /// Gives parked 1-RTT keys another chance, unless other keys have just been
    /// put to use.
    fn unpark(&mut self, ex_data: &mut ExData, used: bool) -> (outcome: Result<(), Error>)
        ensures
            outcome is Ok,
            drive_of(*final(self), *final(ex_data)) == machine::unparked(
                used,
                drive_of(*old(self), *old(ex_data)),
            ),
    {
        if !used {
            if let Some(keys_secrets) = self.one_rtt_keys_secrets.take() {
                match self.handle_application_keys(ex_data, keys_secrets) {
                    Ok(_) => {},
                    Err(error) => {
                        return Err(error);
                    },
                }
            }
        }
        Ok(())
    }

    /// Writes the next thing that the connection has to say, if there is any,
    /// and changes keys. Says whether there may be more.
    fn write_flight(&mut self, ex_data: &mut ExData) -> (more: Result<bool, Error>)
        requires
            old(self)@.connection is Some,
        ensures
            machine::round(drive_of(*old(self), *old(ex_data)), old(self)@.connection->0) == (
            match more {
                Ok(true) => machine::Step::Running {
                    drive: drive_of(*final(self), *final(ex_data)),
                },
                Ok(false) => machine::Step::Done {
                    drive: drive_of(*final(self), *final(ex_data)),
                },
                Err(_) => machine::Step::Failed {
                    drive: drive_of(*final(self), *final(ex_data)),
                },
            }),
            more matches Err(error) ==> error == Error::TlsFail,
            final(self)@.connection == Some(
                connection::flight(old(self)@.connection->0).rest,
            ),
            same_progress(old(self)@.connection->0, final(self)@.connection->0),
            more == Ok::<bool, Error>(true) ==> connection::queued(
                final(self)@.connection->0,
            ) < connection::queued(old(self)@.connection->0),
    {
        let ghost start = drive_of(*self, *ex_data);
        let ghost conn = self@.connection->0;
        let current_level = self.highest_level;
        let mut buf: Vec<u8> = Vec::new();
        let change = match &mut self.connection {
            Some(conn) => write_hs(conn, &mut buf),
            None => None,
        };
        assert(buf@ =~= connection::flight(conn).bytes);
        let ghost taken = drive_of(*self, *ex_data);
        assert(taken == (Drive {
            shake: HandshakeView {
                connection: Some(connection::flight(conn).rest),
                ..start.shake
            },
            ex: start.ex,
        }));
        let used = match change {
            Some(change) => self.process_key_change(ex_data, change),
            None => Ok(false),
        };
        let used: bool = match used {
            Ok(used) => used,
            Err(error) => {
                return Err(error);
            },
        };
        match self.unpark(ex_data, used) {
            Ok(()) => {},
            Err(error) => {
                return Err(error);
            },
        }
        if buf.len() == 0 {
            return Ok(false);
        }
        match self.write_crypto_stream(current_level, ex_data, buf.as_slice()) {
            Ok(()) => Ok(true),
            Err(error) => Err(error),
        }
    }

    /// Writes everything that the connection has to say, changing keys on the
    /// way.
    fn write_flights(&mut self, ex_data: &mut ExData) -> (written: Result<(), Error>)
        requires
            old(self)@.connection is Some,
        ensures
            machine::ends_as(
                drive_of(*old(self), *old(ex_data)),
                match written {
                    Ok(()) => machine::Step::Done {
                        drive: drive_of(*final(self), *final(ex_data)),
                    },
                    Err(_) => machine::Step::Failed {
                        drive: drive_of(*final(self), *final(ex_data)),
                    },
                },
            ),
            machine::steady(drive_of(*old(self), *old(ex_data))),
            written matches Err(error) ==> error == Error::TlsFail,
            final(self)@.connection is Some,
            same_progress(old(self)@.connection->0, final(self)@.connection->0),
            machine::keys_waited(
                drive_of(*old(self), *old(ex_data)),
                drive_of(*final(self), *final(ex_data)),
            ),
    {
        let ghost start = drive_of(*self, *ex_data);
        let ghost mut count: nat = 0;
        loop
            invariant
                start == drive_of(*old(self), *old(ex_data)),
                machine::rounds(start, count) == (machine::Step::Running {
                    drive: drive_of(*self, *ex_data),
                }),
                self@.connection is Some,
                start.shake.connection is Some,
                same_progress(start.shake.connection->0, self@.connection->0),
                forall|n: nat|
                    n <= count ==> machine::same_phase(start, #[trigger] machine::rounds(start, n)),
                connection::handshaking(self@.connection->0) ==> {
                    &&& ex_data@.crypto_ctx.application.open == start.ex.crypto_ctx.application.open
                    &&& ex_data@.crypto_ctx.application.seal == start.ex.crypto_ctx.application.seal
                },
            decreases connection::queued(self@.connection->0),
        {
            let ghost before = drive_of(*self, *ex_data);
            let more = self.write_flight(ex_data);
            proof {
                assert(machine::rounds(start, count + 1) == machine::round(
                    before,
                    before.shake.connection->0,
                ));
                count = count + 1;
                laws::law_round_keeps(before, before.shake.connection->0);
                if more != Ok::<bool, Error>(true) {
                    machine::lemma_steady_to_the_end(start, count);
                }
            }
            match more {
                Ok(true) => {},
                Ok(false) => {
                    return Ok(());
                },
                Err(error) => {
                    return Err(error);
                },
            }
        }
    }

    /// Whether 0-RTT keys are around.
    pub fn is_in_early_data(&self) -> (early: bool)
        ensures
            early == machine::in_early_data(self@),
            early == (self@.connection matches Some(conn) && connection::zero_rtt_keys(
                conn,
            ) is Some),
    {
        match &self.connection {
            Some(conn) => get_zero_rtt_keys(conn).is_some(),
            None => false,
        }
    }

    /// The transport parameters of the peer; empty until they may be acted
    /// upon.
    ///
    /// With 0-RTT keys around, rustls reports those of the connection that is
    /// being resumed, whose connection IDs are not the ones of this one.
    pub fn quic_transport_params(&self) -> (params: &[u8])
        ensures
            params@ == machine::visible_params(self@),
            match self@.connection {
                Some(conn) => if connection::zero_rtt_keys(conn) is None
                    && connection::peer_params(conn) is Some {
                    Some(params@) == connection::peer_params(conn)
                } else {
                    params@.len() == 0
                },
                None => params@.len() == 0,
            },
    {
        match &self.connection {
            Some(conn) => {
                if self.is_in_early_data() {
                    return &[];
                }
                match get_peer_params(conn) {
                    Some(params) => params,
                    None => &[],
                }
            },
            None => &[],
        }
    }

    /// Installs 0-RTT keys, once.
    fn install_early_keys(&mut self, ex_data: &mut ExData)
        ensures
            drive_of(*final(self), *final(ex_data)) == machine::early_keys_installed(
                drive_of(*old(self), *old(ex_data)),
            ),
    {
        let keys = match &self.connection {
            Some(conn) => get_zero_rtt_keys(conn),
            None => None,
        };
        if let Some(keys) = keys {
            match self.side {
                Side::Client => {
                    if ex_data.crypto_ctx.application.crypto_seal.is_none() {
                        ex_data.crypto_ctx.application.crypto_seal = Some(
                            Seal { keys, next: None },
                        );
                    }
                },
                Side::Server => {
                    if ex_data.crypto_ctx.application.crypto_0rtt_open.is_none() {
                        ex_data.crypto_ctx.application.crypto_0rtt_open = Some(
                            Open { keys, next: None },
                        );
                    }
                },
            }
            if self.highest_level == Level::Initial {
                self.highest_level = Level::ZeroRTT;
            }
        }
    }

    /// Leaves a session to resume, once a client has completed its handshake.
    fn keep_session(&self, ex_data: &mut ExData)
        ensures
            drive_of(*self, *final(ex_data)) == machine::session_kept(
                drive_of(*self, *old(ex_data)),
            ),
    {
        if self.side == Side::Client && self.is_completed() && ex_data.session.is_none() {
            ex_data.session = Some(session_blob(self.quic_transport_params()));
        }
    }

    /// Drives the handshake as far as it goes without further input.
    pub fn proceed(&mut self, ex_data: &mut ExData) -> (outcome: Result<(), Error>)
        requires
            old(self)@.connection is Some,
        ensures
            (outcome, drive_of(*final(self), *final(ex_data))) == machine::progress(
                drive_of(*old(self), *old(ex_data)),
            ),
            machine::has_end(drive_of(*old(self), *old(ex_data))),
            final(self)@.connection is Some,
            same_progress(old(self)@.connection->0, final(self)@.connection->0),
            machine::kept(
                drive_of(*old(self), *old(ex_data)),
                drive_of(*final(self), *final(ex_data)),
            ),
            machine::keys_waited(
                drive_of(*old(self), *old(ex_data)),
                drive_of(*final(self), *final(ex_data)),
            ),
    {
        let ghost start = drive_of(*self, *ex_data);
        let written = self.write_flights(ex_data);
        proof {
            let drive = drive_of(*self, *ex_data);
            let end = if written is Ok {
                machine::Step::Done { drive }
            } else {
                machine::Step::Failed { drive }
            };
            machine::law_one_end(start, end);
            laws::law_drive_keeps(start, end);
            laws::law_finish_keeps(drive);
            laws::law_kept_is_transitive(start, drive, machine::finished(drive));
        }
        match written {
            Ok(()) => {
                self.install_early_keys(ex_data);
                self.keep_session(ex_data);
                Ok(())
            },
            Err(error) => Err(error),
        }
    }

    /// How a failure of TLS is reported to the peer.
    pub fn connection_error(alert: Option<u8>, reason: Vec<u8>) -> (error: ConnectionError)
        ensures
            error@ == machine::close_reason(alert, reason@),
            error@ == (crate::types::ConnectionErrorView {
                is_app: false,
                error_code: match alert {
                    Some(number) => (0x100 + number) as u64,
                    None => 0x01,
                },
                reason: reason@,
            }),
    {
        let error_code: u64 = match alert {
            Some(alert) => TLS_ALERT_ERROR + alert as u64,
            None => INTERNAL_ERROR,
        };
        ConnectionError { is_app: false, error_code, reason }
    }

    /// Goes on with the answer of rustls to the request for a connection.
    pub fn connected(
        &mut self,
        made: Result<Connection, TlsError>,
        ex_data: &mut ExData,
    ) -> (outcome: Result<(), Error>)
        requires
            old(self)@.side is Server ==> old(self)@.provided is None,
        ensures
            (outcome, drive_of(*final(self), *final(ex_data))) == machine::connected(
                drive_of(*old(self), *old(ex_data)),
                match made {
                    Ok(conn) => Some(conn),
                    Err(_) => None,
                },
            ),
            made matches Ok(conn) ==> {
                &&& machine::has_end(machine::joined(drive_of(*old(self), *old(ex_data)), conn))
                &&& final(self)@.connection is Some
                &&& same_progress(conn, final(self)@.connection->0)
            },
            machine::kept(
                drive_of(*old(self), *old(ex_data)),
                drive_of(*final(self), *final(ex_data)),
            ),
            old(self)@.connection is None ==> machine::keys_waited(
                drive_of(*old(self), *old(ex_data)),
                drive_of(*final(self), *final(ex_data)),
            ),
    {
        match made {
            Ok(conn) => {
                self.connection = Some(conn);
                assert(drive_of(*self, *ex_data) == machine::joined(
                    drive_of(*old(self), *old(ex_data)),
                    conn,
                ));
                self.proceed(ex_data)
            },
            Err(_) => Err(Error::TlsFail),
        }
    }

    /// Goes on with a server connection that has been handed the first bytes
    /// of the client, and with what it made of them.
    pub fn accepted(
        &mut self,
        conn: Connection,
        read: Result<(), TlsError>,
        ex_data: &mut ExData,
    ) -> (outcome: Result<(), Error>)
        requires
            old(self)@.side is Server,
        ensures
            (outcome, drive_of(*final(self), *final(ex_data))) == machine::accepted(
                drive_of(*old(self), *old(ex_data)),
                conn,
                match read {
                    Ok(_) => None,
                    Err(error) => Some(connection::error_text(error)),
                },
            ),
            read is Ok ==> {
                &&& machine::has_end(machine::joined(drive_of(*old(self), *old(ex_data)), conn))
                &&& final(self)@.connection is Some
                &&& same_progress(conn, final(self)@.connection->0)
            },
            machine::kept(
                drive_of(*old(self), *old(ex_data)),
                drive_of(*final(self), *final(ex_data)),
            ),
            old(self)@.connection is None ==> machine::keys_waited(
                drive_of(*old(self), *old(ex_data)),
                drive_of(*final(self), *final(ex_data)),
            ),
    {
        self.provided_data = None;
        match read {
            Ok(()) => {
                self.connection = Some(conn);
                assert(drive_of(*self, *ex_data) == machine::joined(
                    drive_of(*old(self), *old(ex_data)),
                    conn,
                ));
                self.proceed(ex_data)
            },
            Err(error) => {
                if ex_data.local_error.is_none() {
                    ex_data.local_error = Some(
                        Self::connection_error(get_alert(&conn), describe(&error)),
                    );
                }
                Err(Error::TlsFail)
            },
        }
    }

    /// Drives the handshake: reports a failure that is waiting, makes the
    /// connection if there is none yet, and writes what there is to write.
    pub fn do_handshake(&mut self, ex_data: &mut ExData) -> (outcome: Result<(), Error>)
        requires
            machine::ready(old(self)@),
        ensures
            handshake_driven(
                drive_of(*old(self), *old(ex_data)),
                (outcome, drive_of(*final(self), *final(ex_data))),
            ),
            machine::kept(
                drive_of(*old(self), *old(ex_data)),
                drive_of(*final(self), *final(ex_data)),
            ),
            machine::keys_waited(
                drive_of(*old(self), *old(ex_data)),
                drive_of(*final(self), *final(ex_data)),
            ),
            match (old(self)@.connection, final(self)@.connection) {
                (Some(before), Some(after)) => same_progress(before, after),
                (Some(_), None) => false,
                (None, Some(made)) => machine::made_for(old(self)@, made)
                    && connection::refusal(made) is None,
                (None, None) => outcome is Err,
            },
            machine::connects_next(old(self)@) && machine::surely_made(old(self)@)
                && old(self)@.provided is None && old(self)@.parked is None ==> {
                &&& outcome is Ok
                &&& final(self)@ == (HandshakeView {
                    connection: final(self)@.connection,
                    ..old(self)@
                })
                &&& final(ex_data)@ == old(ex_data)@
            },
            machine::connects_next(old(self)@) && old(self)@.side is Server
                && final(self)@.connection is Some ==> final(self)@.provided is None,
            machine::connects_next(old(self)@) && old(self)@.side is Client
                && old(self)@.level is Initial && old(self)@.parked is None
                && final(self)@.connection is Some ==> {
                let before = old(ex_data)@.crypto_ctx;
                let after = final(ex_data)@.crypto_ctx;
                &&& outcome is Ok
                &&& before.initial.sent.is_prefix_of(after.initial.sent)
                &&& before.initial.sent.len() < after.initial.sent.len()
                &&& after.handshake == before.handshake
                &&& after.application.sent == before.application.sent
            },
            final(ex_data)@.session == machine::session_after(
                drive_of(*old(self), *old(ex_data)),
                outcome,
                drive_of(*final(self), *final(ex_data)),
            ),
    {
        let ghost start = drive_of(*self, *ex_data);
        if let Some(error) = self.pending_tls_error.take() {
            if ex_data.local_error.is_none() {
                ex_data.local_error = Some(error);
            }
            return Err(Error::TlsFail);
        }
        if self.connection.is_some() {
            let outcome = self.proceed(ex_data);
            proof {
                laws::law_drive_leaves_one_session(start);
            }
            return outcome;
        }
        let params = match &self.quic_transport_params {
            Some(params) => copy_bytes(params.as_slice()),
            None => {
                return Err(Error::TlsFail);
            },
        };
        match self.side {
            Side::Client => {
                let name = match (&self.hostname, self.enable_verify_ca_certificates) {
                    (Some(name), _) => clone_name(name),
                    (None, false) => match parse_name(PLACEHOLDER_NAME) {
                        Ok(name) => name,
                        Err(_) => {
                            return Err(Error::TlsFail);
                        },
                    },
                    (None, true) => {
                        return Err(Error::TlsFail);
                    },
                };
                let made = new_client(self.client_config.clone(), self.quic_version, name, params);
                proof {
                    if made is Ok {
                        assert(machine::made_for(start.shake, made->Ok_0));
                    }
                }
                let ghost answer = made;
                let outcome = self.connected(made, ex_data);
                proof {
                    if answer is Ok {
                        let conn = answer->Ok_0;
                        let joined = machine::joined(start, conn);
                        laws::law_drive_leaves_one_session(joined);
                        if start.shake.level is Initial && start.shake.parked is None {
                            lemma_first_flight(joined, conn);
                        }
                    }
                }
                outcome
            },
            Side::Server => {
                let config = match &self.server_config {
                    Some(config) => config.clone(),
                    None => {
                        return Err(Error::TlsFail);
                    },
                };
                let mut conn = match new_server(config, self.quic_version, params) {
                    Ok(conn) => conn,
                    Err(_) => {
                        return Err(Error::TlsFail);
                    },
                };
                match self.provided_data.take() {
                    Some(data) => {
                        let read = read_hs(&mut conn, data.as_slice());
                        assert(machine::made_for(start.shake, conn));
                        let ghost taken = drive_of(*self, *ex_data);
                        assert(machine::joined(taken, conn) == machine::joined(
                            start,
                            conn,
                        ));
                        proof {
                            if read is Err {
                                let reason = connection::error_text(read->Err_0);
                                assert(machine::accepted(taken, conn, Some(reason))
                                    == machine::accepted(start, conn, Some(reason)));
                            }
                        }
                        let ghost joined = machine::joined(start, conn);
                        let ghost answer = read;
                        let outcome = self.accepted(conn, read, ex_data);
                        proof {
                            if answer is Ok {
                                laws::law_drive_leaves_one_session(joined);
                            }
                        }
                        outcome
                    },
                    None => {
                        assert(machine::made_for(start.shake, conn));
                        assert(drive_of(*self, *ex_data) == start);
                        let ghost joined = machine::joined(start, conn);
                        proof {
                            lemma_silent_server(joined, conn);
                        }
                        let outcome = self.connected(Ok(conn), ex_data);
                        proof {
                            laws::law_drive_leaves_one_session(joined);
                        }
                        outcome
                    },
                }
            },
        }
    }

    /// Whether the next drive is within what rustls can encode.
    pub fn is_ready(&self) -> (fits: bool)
        ensures
            fits == machine::ready(self@),
    {
        if self.pending_tls_error.is_some() || self.connection.is_some() {
            return true;
        }
        match &self.quic_transport_params {
            Some(params) => match self.side {
                Side::Client => {
                    if self.enable_verify_ca_certificates && self.hostname.is_none() {
                        return true;
                    }
                    fits_hello(client_alpn(&self.client_config), params.as_slice())
                },
                Side::Server => self.server_config.is_none() || params.len() <= EXTENSION_ROOM,
            },
            None => true,
        }
    }

    /// Drives the handshake if that is within what rustls can encode; leaves
    /// everything as it is otherwise.
    pub fn try_handshake(&mut self, ex_data: &mut ExData) -> (outcome: Option<Result<(), Error>>)
        ensures
            outcome is Some <==> machine::ready(old(self)@),
            match outcome {
                Some(result) => handshake_driven(
                    drive_of(*old(self), *old(ex_data)),
                    (result, drive_of(*final(self), *final(ex_data))),
                ) && machine::kept(
                    drive_of(*old(self), *old(ex_data)),
                    drive_of(*final(self), *final(ex_data)),
                ) && machine::keys_waited(
                    drive_of(*old(self), *old(ex_data)),
                    drive_of(*final(self), *final(ex_data)),
                ) && final(ex_data)@.session == machine::session_after(
                    drive_of(*old(self), *old(ex_data)),
                    result,
                    drive_of(*final(self), *final(ex_data)),
                ),
                None => *final(self) == *old(self) && *final(ex_data) == *old(ex_data),
            },
    {
        if self.is_ready() {
            Some(self.do_handshake(ex_data))
        } else {
            None
        }
    }

    /// Chooses the end of the connection.
    pub fn init(&mut self, is_server: bool) -> (outcome: Result<(), Error>)
        ensures
            outcome is Ok,
            final(self)@ == (HandshakeView {
                side: if is_server {
                    Side::Server
                } else {
                    Side::Client
                },
                ..old(self)@
            }),
    {
        self.side = match is_server {
            true => Side::Server,
            false => Side::Client,
        };
        Ok(())
    }

    /// Does nothing: rustls has no legacy code point for the parameters.
    pub fn use_legacy_codepoint(&mut self, _use_legacy: bool)
        ensures
            *final(self) == *old(self),
    {
    }

    /// Names the server to connect to.
    pub fn set_host_name(&mut self, name: &str) -> (outcome: Result<(), Error>)
        ensures
            match connection::parsed_name(name@) {
                Some(parsed) => outcome is Ok && final(self)@ == (HandshakeView {
                    hostname: Some(parsed),
                    ..old(self)@
                }),
                None => outcome == Err::<(), Error>(Error::TlsFail) && *final(self) == *old(self),
            },
    {
        match parse_name(name) {
            Ok(parsed) => {
                self.hostname = Some(parsed);
                Ok(())
            },
            Err(_) => Err(Error::TlsFail),
        }
    }

    /// Sets the transport parameters to be sent, in their encoded form, for
    /// which a fixed number of bytes is reserved.
    pub fn set_quic_transport_params(&mut self, encoded: &[u8]) -> (outcome: Result<(), Error>)
        ensures
            outcome is Ok <==> encoded@.len() <= 128,
            if encoded@.len() <= MAX_TRANSPORT_PARAMS {
                outcome is Ok && final(self)@ == (HandshakeView {
                    params: Some(encoded@),
                    ..old(self)@
                })
            } else {
                outcome == Err::<(), Error>(Error::BufferTooShort) && *final(self) == *old(self)
            },
    {
        if encoded.len() > MAX_TRANSPORT_PARAMS {
            return Err(Error::BufferTooShort);
        }
        self.quic_transport_params = Some(copy_bytes(encoded));
        Ok(())
    }

    /// The application protocol agreed on; empty if there is none.
    pub fn alpn_protocol(&self) -> (protocol: &[u8])
        ensures
            protocol@ == (match self@.connection {
                Some(conn) => match connection::agreed_alpn(conn) {
                    Some(name) => name,
                    None => Seq::empty(),
                },
                None => Seq::empty(),
            }),
    {
        match &self.connection {
            Some(conn) => match get_alpn(conn) {
                Some(protocol) => protocol,
                None => &[],
            },
            None => &[],
        }
    }

    /// The name that the client asked this server for.
    pub fn server_name(&self) -> (name: Option<&str>)
        ensures
            (match name {
                Some(text) => Some(text@),
                None => None,
            }) == (match self@.connection {
                Some(conn) => match connection::server_half(conn) {
                    Some(server) => connection::requested_name(server),
                    None => None,
                },
                None => None,
            }),
            self@.connection matches Some(conn) && connection::origin(conn) is Client
                ==> name is None,
    {
        match &self.connection {
            Some(conn) => match as_server(conn) {
                Some(server) => get_requested_name(server),
                None => None,
            },
            None => None,
        }
    }

    /// Takes note of what the connection made of the bytes it was handed. A
    /// failure is kept for the next drive, which can put it on record, so that
    /// the peer hears of it.
    pub fn note_read(&mut self, read: Result<(), TlsError>)
        requires
            old(self)@.connection is Some,
        ensures
            final(self)@ == (HandshakeView {
                pending: match read {
                    Ok(_) => old(self)@.pending,
                    Err(error) => Some(
                        machine::close_reason(
                            connection::alert_number(old(self)@.connection->0),
                            connection::error_text(error),
                        ),
                    ),
                },
                ..old(self)@
            }),
    {
        if let Err(error) = read {
            let alert = match &self.connection {
                Some(conn) => get_alert(conn),
                None => None,
            };
            self.pending_tls_error = Some(Self::connection_error(alert, describe(&error)));
        }
    }

    /// Hands in handshake bytes from the peer. Before there is a connection
    /// they are gathered, so that it gets to read them whole.
    pub fn provide_data(&mut self, _level: Level, buf: &[u8]) -> (outcome: Result<(), Error>)
        ensures
            outcome is Ok,
            match old(self)@.connection {
                Some(conn) => final(self)@.connection matches Some(after) && {
                    &&& final(self)@ == machine::after_read(old(self)@, after)
                    &&& connection::origin(after) == connection::origin(conn)
                    &&& connection::received(after) == connection::received(conn) + buf@
                    &&& connection::refusal(after) is None ==> final(self)@.pending == old(
                        self,
                    )@.pending
                    &&& connection::refusal(after) matches Some(reason)
                        ==> final(self)@.pending == Some(
                        machine::close_reason(connection::alert_number(after), reason),
                    )
                },
                None => final(self)@ == (HandshakeView {
                    provided: Some(machine::provided_after(old(self)@.provided, buf@)),
                    ..old(self)@
                }) && final(self)@.provided == Some(
                    match old(self)@.provided {
                        Some(before) => before + buf@,
                        None => buf@,
                    },
                ),
            },
    {
        let read = match &mut self.connection {
            Some(conn) => Some(read_hs(conn, buf)),
            None => None,
        };
        match read {
            Some(read) => self.note_read(read),
            None => match &mut self.provided_data {
                Some(data) => data.extend_from_slice(buf),
                None => {
                    self.provided_data = Some(copy_bytes(buf));
                },
            },
        }
        Ok(())
    }

    /// Does nothing: whatever follows the handshake is written by the next
    /// drive.
    pub fn process_post_handshake(&mut self, _ex_data: &mut ExData) -> (outcome: Result<(), Error>)
        ensures
            outcome is Ok,
            *final(self) == *old(self),
            *final(_ex_data) == *old(_ex_data),
    {
        Ok(())
    }

    /// The level at which CRYPTO data is sent. A client that holds 0-RTT keys
    /// still sends it at the initial level.
    pub fn write_level(&self) -> (level: Level)
        ensures
            level == machine::writing_level(self@.level),
            level != Level::ZeroRTT,
            self@.level is ZeroRTT ==> level is Initial,
            self@.level !is ZeroRTT ==> level == self@.level,
    {
        match self.highest_level {
            Level::ZeroRTT => Level::Initial,
            level => level,
        }
    }

    /// The algorithm that goes with a cipher suite, by its number.
    pub fn algorithm(suite: u16) -> (algorithm: Option<Algorithm>)
        ensures
            algorithm == machine::suite_algorithm(suite),
            algorithm == Some(Algorithm::AES128_GCM) <==> suite == 0x1301,
            algorithm == Some(Algorithm::AES256_GCM) <==> suite == 0x1302,
            algorithm == Some(Algorithm::ChaCha20_Poly1305) <==> suite == 0x1303,
    {
        match suite {
            0x1301 => Some(Algorithm::AES128_GCM),
            0x1302 => Some(Algorithm::AES256_GCM),
            0x1303 => Some(Algorithm::ChaCha20_Poly1305),
            _ => None,
        }
    }

    /// The packet protection algorithm agreed on.
    pub fn cipher(&self) -> (algorithm: Option<Algorithm>)
        ensures
            algorithm == (match self@.connection {
                Some(conn) => match connection::suite_number(conn) {
                    Some(suite) => machine::suite_algorithm(suite),
                    None => None,
                },
                None => None,
            }),
    {
        match &self.connection {
            Some(conn) => match get_suite(conn) {
                Some(suite) => Self::algorithm(suite),
                None => None,
            },
            None => None,
        }
    }

    /// Whether an earlier session was resumed.
    pub fn is_resumed(&self) -> (resumed: bool)
        ensures
            resumed == (self@.connection matches Some(conn) && connection::kind_of(conn)
                == Some(HandshakeKind::Resumed)),
    {
        match &self.connection {
            Some(conn) => match get_kind(conn) {
                Some(kind) => kind == HandshakeKind::Resumed,
                None => false,
            },
            None => false,
        }
    }

    /// Drops the connection; everything else stays.
    pub fn clear(&mut self) -> (outcome: Result<(), Error>)
        ensures
            outcome is Ok,
            final(self)@ == (HandshakeView { connection: None, ..old(self)@ }),
    {
        self.connection = None;
        Ok(())
    }

    /// Accepts a session to resume, on a client.
    ///
    /// There is nothing to restore: the sessions are in the context's own
    /// store. The local transport parameters stay as they are, for those of an
    /// earlier connection carry its connection ID.
    pub fn set_session(&mut self, _session: &[u8]) -> (outcome: Result<(), Error>)
        ensures
            *final(self) == *old(self),
            outcome == (match old(self)@.side {
                Side::Client => Ok::<(), Error>(()),
                Side::Server => Err(Error::TlsFail),
            }),
    {
        match self.side {
            Side::Client => Ok(()),
            Side::Server => Err(Error::TlsFail),
        }
    }

    /// The name of the key exchange group agreed on.
    pub fn curve(&self) -> (name: Option<String>)
        ensures
            (match name {
                Some(text) => Some(text@),
                None => None,
            }) == (match self@.connection {
                Some(conn) => connection::group_name(conn),
                None => None,
            }),
    {
        match &self.connection {
            Some(conn) => get_group(conn),
            None => None,
        }
    }

    /// The signature algorithm, which rustls does not tell.
    pub fn sigalg(&self) -> (name: Option<String>)
        ensures
            name is None,
    {
        None
    }

    /// The certificates that the peer presented, if it presented any.
    pub fn peer_cert_chain(&self) -> (chain: Option<Vec<&[u8]>>)
        ensures
            match chain {
                Some(certs) => certs@.len() > 0 && certs@.map_values(|cert: &[u8]| cert@)
                    == machine::presented(self@),
                None => machine::presented(self@).len() == 0,
            },
            match self@.connection {
                Some(conn) => match connection::peer_certificates(conn) {
                    Some(reported) if reported.len() > 0 => chain matches Some(certs) && {
                        &&& certs@.len() == reported.len()
                        &&& forall|i: int|
                            0 <= i < reported.len() ==> (#[trigger] certs@[i])@ == reported[i]
                    },
                    _ => chain is None,
                },
                None => chain is None,
            },
    {
        match &self.connection {
            Some(conn) => match get_peer_certificates(conn) {
                Some(certs) => if certs.len() == 0 {
                    None
                } else {
                    Some(certs)
                },
                None => None,
            },
            None => None,
        }
    }

    /// The first certificate that the peer presented, which is its own.
    pub fn peer_cert(&self) -> (cert: Option<&[u8]>)
        ensures
            match cert {
                Some(der) => machine::presented(self@).len() > 0
                    && machine::presented(self@)[0] == der@,
                None => machine::presented(self@).len() == 0,
            },
            match self@.connection {
                Some(conn) => match connection::peer_certificates(conn) {
                    Some(reported) if reported.len() > 0 => cert matches Some(der) && der@
                        == reported[0],
                    _ => cert is None,
                },
                None => cert is None,
            },
    {
        match self.peer_cert_chain() {
            Some(certs) => Some(certs[0]),
            None => None,
        }
    }

    /// Why early data was or was not accepted: rustls does not tell, and 0
    /// says so.
    pub fn early_data_reason(&self) -> (reason: u32)
        ensures
            reason == 0,
    {
        0
    }
}

/// A drive over a connection that has nothing to say changes nothing else.
proof fn lemma_silent_server(start: Drive, conn: Connection)
    requires
        start.shake.connection == Some(conn),
        start.shake.side is Server,
        connection::flight(conn).bytes.len() == 0,
        connection::flight(conn).change is None,
        connection::zero_rtt_keys(connection::flight(conn).rest) is None,
    ensures
        start.shake.parked is None ==> machine::progress(start) == (
            Ok::<(), Error>(()),
            Drive {
                shake: HandshakeView {
                    connection: Some(connection::flight(conn).rest),
                    ..start.shake
                },
                ex: start.ex,
            },
        ),
{
    let first = machine::rounds(start, 1);
    assert(machine::rounds(start, 0) == (machine::Step::Running { drive: start }));
    assert(first == machine::round(start, conn));
    machine::law_one_end(start, first);
}

/// A drive over a client connection that has its first message to send, and no
/// more, sends it at the first level and nothing at any other.
proof fn lemma_first_flight(start: Drive, conn: Connection)
    requires
        start.shake.connection == Some(conn),
        start.shake.level is Initial,
        start.shake.parked is None,
        connection::flight(conn).bytes.len() > 0,
        connection::flight(conn).change is None,
        connection::flight(connection::flight(conn).rest).bytes.len() == 0,
        connection::flight(connection::flight(conn).rest).change is None,
    ensures
        ({
            let (outcome, end) = machine::progress(start);
            let before = start.ex.crypto_ctx;
            let after = end.ex.crypto_ctx;
            &&& outcome is Ok
            &&& after.initial == machine::appended(before.initial, connection::flight(conn).bytes)
            &&& after.handshake == before.handshake
            &&& after.application.sent == before.application.sent
        }),
{
    let rest = connection::flight(conn).rest;
    assert(machine::rounds(start, 0) == (machine::Step::Running { drive: start }));
    assert(machine::rounds(start, 1) == machine::round(start, conn));
    let sent = machine::drive_at(machine::rounds(start, 1));
    assert(machine::rounds(start, 2) == machine::round(sent, rest));
    machine::law_one_end(start, machine::rounds(start, 2));
}

/// What driving a handshake may come to. Only a connection that is yet to be
/// made leaves anything open.
pub open spec fn handshake_driven(start: Drive, end: (Result<(), Error>, Drive)) -> bool {
    match (start.shake.pending, start.shake.connection) {
        (Some(error), _) => end == machine::reported(start, error),
        (None, Some(_)) => machine::has_end(start) && end == machine::progress(start),
        (None, None) => if machine::lacks_settings(start.shake) {
            end == machine::connected(start, None)
        } else {
            machine::first_drive(start, end)
        },
    }
}

/// Driving a handshake reports a failure that waits before anything else; fails and
/// changes nothing if there is neither a connection nor what it takes to make one;
/// and otherwise goes on over the connection that is there, or the one that is made.
pub proof fn law_driving_goes_by_the_state(
    start: Drive,
    outcome: Result<(), Error>,
    end: Drive,
)
    requires
        handshake_driven(start, (outcome, end)),
    ensures
        start.shake.pending is Some ==> {
            &&& outcome == Err::<(), Error>(Error::TlsFail)
            &&& end.shake == (HandshakeView { pending: None, ..start.shake })
            &&& end.ex.crypto_ctx == start.ex.crypto_ctx
            &&& end.ex.session == start.ex.session
            &&& end.ex.local_error == if start.ex.local_error is None {
                start.shake.pending
            } else {
                start.ex.local_error
            }
        },
        start.shake.pending is None && start.shake.connection is None && (start.shake.params is None
            || (start.shake.side is Server && start.shake.server_config is None) || (
        start.shake.side is Client && start.shake.verify && start.shake.hostname is None)) ==> {
            &&& outcome == Err::<(), Error>(Error::TlsFail)
            &&& end == start
        },
        start.shake.pending is None && start.shake.connection is Some ==> {
            &&& machine::has_end(start)
            &&& (outcome, end) == machine::progress(start)
        },
        outcome is Ok ==> end.shake.connection is Some && start.shake.pending is None,
        outcome matches Err(error) ==> error == Error::TlsFail,
{
    if start.shake.pending is None {
        if start.shake.connection is Some {
            laws::lemma_end_has_connection(start);
        } else if !machine::lacks_settings(start.shake) {
            laws::law_first_drive(start, outcome, end);
            if outcome is Ok {
                let conn = choose|conn: Connection|
                    {
                        &&& #[trigger] machine::made_for(start.shake, conn)
                        &&& connection::refusal(conn) is None
                        &&& machine::has_end(machine::joined(start, conn))
                        &&& (outcome, end) == machine::connected(start, Some(conn))
                    };
                laws::lemma_end_has_connection(machine::joined(start, conn));
            }
        }
    }
}

/// Whether `conn` is `start` with nothing done to it but writing.
pub open spec fn same_progress(start: Connection, conn: Connection) -> bool {
    &&& connection::origin(conn) == connection::origin(start)
    &&& connection::received(conn) == connection::received(start)
    &&& connection::refusal(conn) == connection::refusal(start)
    &&& connection::handshaking(conn) == connection::handshaking(start)
    &&& connection::peer_params(conn) == connection::peer_params(start)
}

} // verus!
