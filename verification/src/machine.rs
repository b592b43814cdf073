//! The handshake as a mathematical state machine: what one drive of it does
//! to the handshake and to the connection that owns it.

use crate::connection::KeyChange;
use crate::crypto::{CryptoContextView, ExDataView, Open, PacketSpacesView, Seal};
use crate::types::{Algorithm, ConnectionErrorView, Error, Level, Side, Version};
use crate::{config, connection, crypto, session};
use rustls::pki_types::ServerName;
use rustls::quic::{Connection, Keys, Secrets};
use rustls::{ClientConfig, ServerConfig};
use vstd::prelude::*;

verus! {

/// Mathematical content of a [`crate::handshake::Handshake`].
#[verifier::ext_equal]
pub struct HandshakeView {
    pub client_config: ClientConfig,
    pub server_config: Option<ServerConfig>,
    pub version: Version,
    pub side: Side,
    pub verify: bool,
    pub params: Option<Seq<u8>>,
    pub hostname: Option<ServerName<'static>>,
    pub connection: Option<Connection>,
    pub level: Level,
    /// Handshake bytes that came before there was a connection to read them.
    pub provided: Option<Seq<u8>>,
    /// 1-RTT keys that wait for the handshake to complete.
    pub parked: Option<(Keys, Secrets)>,
    /// A failure to be reported by the next drive.
    pub pending: Option<ConnectionErrorView>,
}

/// A handshake that has not begun; a client's until told otherwise.
pub open spec fn unbegun(
    client_config: ClientConfig,
    server_config: Option<ServerConfig>,
    version: Version,
    verify: bool,
) -> HandshakeView {
    HandshakeView {
        client_config,
        server_config,
        version,
        side: Side::Client,
        verify,
        params: None,
        hostname: None,
        connection: None,
        level: Level::Initial,
        provided: None,
        parked: None,
        pending: None,
    }
}

/// A handshake together with the connection state that it works on.
#[verifier::ext_equal]
pub struct Drive {
    pub shake: HandshakeView,
    pub ex: ExDataView,
}

/// Where a drive stands after some rounds.
pub enum Step {
    /// More is to be written.
    Running { drive: Drive },
    /// Everything has been written.
    Done { drive: Drive },
    /// The drive has been given up.
    Failed { drive: Drive },
}

/// Whether the handshake of `shake` is over.
pub open spec fn completed(shake: HandshakeView) -> bool {
    match shake.connection {
        Some(conn) => !connection::handshaking(conn),
        None => false,
    }
}

/// Whether `shake` holds keys for 0-RTT packets.
pub open spec fn in_early_data(shake: HandshakeView) -> bool {
    match shake.connection {
        Some(conn) => connection::zero_rtt_keys(conn) is Some,
        None => false,
    }
}

/// The transport parameters of the peer, as far as they may be acted upon.
/// Those of a resumed session belong to the connection before and do not
/// count while 0-RTT keys are around.
pub open spec fn visible_params(shake: HandshakeView) -> Seq<u8> {
    match shake.connection {
        Some(conn) => if in_early_data(shake) {
            Seq::empty()
        } else {
            match connection::peer_params(conn) {
                Some(params) => params,
                None => Seq::empty(),
            }
        },
        None => Seq::empty(),
    }
}

/// The level at which CRYPTO data is sent: never 0-RTT.
pub open spec fn writing_level(level: Level) -> Level {
    if level is ZeroRTT {
        Level::Initial
    } else {
        level
    }
}

/// `first`, or `second` where there is no first.
pub open spec fn keep_first(
    first: Option<ConnectionErrorView>,
    second: ConnectionErrorView,
) -> Option<ConnectionErrorView> {
    match first {
        Some(_) => first,
        None => Some(second),
    }
}

/// How a failure of TLS is reported to the peer: as the alert if there is one,
/// else as an internal error.
pub open spec fn close_reason(alert: Option<u8>, reason: Seq<u8>) -> ConnectionErrorView {
    ConnectionErrorView {
        is_app: false,
        error_code: match alert {
            Some(number) => (0x100 + number) as u64,
            None => 0x01,
        },
        reason,
    }
}

/// Queues `data` on the CRYPTO stream of a space.
pub open spec fn appended(space: CryptoContextView, data: Seq<u8>) -> CryptoContextView {
    CryptoContextView { sent: space.sent + data, ..space }
}

/// Gives a space the keys of both directions.
pub open spec fn keyed(
    space: CryptoContextView,
    keys: Keys,
    next: Option<Secrets>,
) -> CryptoContextView {
    CryptoContextView {
        open: Some(crypto::opening(keys, next)),
        seal: Some(crypto::sealing(keys, next)),
        ..space
    }
}

/// 1-RTT keys arrive: they are put to use if the handshake is over, and parked
/// if it is not. Says which.
pub open spec fn application_keys(drive: Drive, keys: Keys, next: Secrets) -> (bool, Drive) {
    if completed(drive.shake) {
        (
            true,
            Drive {
                shake: HandshakeView { level: Level::OneRTT, ..drive.shake },
                ex: ExDataView {
                    crypto_ctx: PacketSpacesView {
                        application: keyed(drive.ex.crypto_ctx.application, keys, Some(next)),
                        ..drive.ex.crypto_ctx
                    },
                    ..drive.ex
                },
            },
        )
    } else {
        (
            false,
            Drive {
                shake: HandshakeView {
                    level: Level::OneRTT,
                    parked: Some((keys, next)),
                    ..drive.shake
                },
                ex: drive.ex,
            },
        )
    }
}

/// New keys arrive. Says whether any were put to use; handshake keys are an
/// error once the handshake level has been reached.
pub open spec fn key_changed(drive: Drive, change: KeyChange) -> (Result<bool, Error>, Drive) {
    match change {
        KeyChange::Handshake { keys } => if drive.shake.level.rank() < Level::Handshake.rank() {
            (
                Ok(true),
                Drive {
                    shake: HandshakeView { level: Level::Handshake, ..drive.shake },
                    ex: ExDataView {
                        crypto_ctx: PacketSpacesView {
                            handshake: keyed(drive.ex.crypto_ctx.handshake, keys, None),
                            ..drive.ex.crypto_ctx
                        },
                        ..drive.ex
                    },
                },
            )
        } else {
            (Err(Error::TlsFail), drive)
        },
        KeyChange::OneRtt { keys, next } => {
            let (used, after) = application_keys(drive, keys, next);
            (Ok(used), after)
        },
    }
}

/// CRYPTO data is queued at `level`, where that can be done.
pub open spec fn stream_written(ex: ExDataView, level: Level, data: Seq<u8>) -> Option<ExDataView> {
    let ctx = ex.crypto_ctx;
    match level {
        Level::Initial => Some(
            ExDataView {
                crypto_ctx: PacketSpacesView { initial: appended(ctx.initial, data), ..ctx },
                ..ex
            },
        ),
        Level::ZeroRTT => None,
        Level::Handshake => Some(
            ExDataView {
                crypto_ctx: PacketSpacesView { handshake: appended(ctx.handshake, data), ..ctx },
                ..ex
            },
        ),
        Level::OneRTT => Some(
            ExDataView {
                crypto_ctx: PacketSpacesView {
                    application: appended(ctx.application, data),
                    ..ctx
                },
                ..ex
            },
        ),
    }
}

/// Parked keys get another chance, unless this round has put keys to use.
pub open spec fn unparked(used: bool, drive: Drive) -> Drive {
    match drive.shake.parked {
        Some((keys, next)) if !used => application_keys(
            Drive { shake: HandshakeView { parked: None, ..drive.shake }, ex: drive.ex },
            keys,
            next,
        ).1,
        _ => drive,
    }
}

/// One round of a drive over the connection `conn`: what it has to write is
/// taken, the keys are changed, and the bytes go out at the level of before
/// the change.
pub open spec fn round(drive: Drive, conn: Connection) -> Step {
    let flight = connection::flight(conn);
    let taken = Drive {
        shake: HandshakeView { connection: Some(flight.rest), ..drive.shake },
        ex: drive.ex,
    };
    let (used, changed) = match flight.change {
        Some(change) => key_changed(taken, change),
        None => (Ok(false), taken),
    };
    match used {
        Err(_) => Step::Failed { drive: changed },
        Ok(used) => {
            let settled = unparked(used, changed);
            if flight.bytes.len() == 0 {
                Step::Done { drive: settled }
            } else {
                match stream_written(settled.ex, drive.shake.level, flight.bytes) {
                    Some(ex) => Step::Running { drive: Drive { shake: settled.shake, ex } },
                    None => Step::Failed { drive: settled },
                }
            }
        },
    }
}

/// Where a drive stands after `count` rounds.
pub open spec fn rounds(start: Drive, count: nat) -> Step
    decreases count,
{
    if count == 0 {
        Step::Running { drive: start }
    } else {
        match rounds(start, (count - 1) as nat) {
            Step::Running { drive } => match drive.shake.connection {
                Some(conn) => round(drive, conn),
                None => Step::Failed { drive },
            },
            ended => ended,
        }
    }
}

/// Whether a drive from `start` ends as `end`.
pub open spec fn ends_as(start: Drive, end: Step) -> bool {
    &&& !(end is Running)
    &&& exists|count: nat| #[trigger] rounds(start, count) == end
}

/// How a drive from `start` ends.
pub open spec fn driven(start: Drive) -> Step {
    choose|end: Step| ends_as(start, end)
}

/// Whether the handshake of a step is over exactly if that of `start` is.
pub open spec fn same_phase(start: Drive, step: Step) -> bool {
    match (start.shake.connection, drive_at(step).shake.connection) {
        (Some(before), Some(after)) => connection::handshaking(after) == connection::handshaking(
            before,
        ),
        (None, _) => true,
        (Some(_), None) => false,
    }
}

/// Whether the connection stays through a drive from `start`, and so does the
/// phase of its handshake: writing completes none.
pub open spec fn steady(start: Drive) -> bool {
    forall|count: nat| same_phase(start, #[trigger] rounds(start, count))
}

/// Whether a drive from `start` comes to an end, which is then the one that
/// [`driven`] stands for, and is steady up to it.
pub open spec fn has_end(start: Drive) -> bool {
    ends_as(start, driven(start)) && steady(start)
}

/// Whether no round of a drive from `start` brings new keys.
pub open spec fn without_key_change(start: Drive) -> bool {
    forall|count: nat|
        match #[trigger] rounds(start, count) {
            Step::Running { drive } => drive.shake.connection matches Some(conn)
                ==> connection::flight(conn).change is None,
            _ => true,
        }
}

/// 0-RTT keys are installed where there are none yet, and lift the level off
/// the initial one.
pub open spec fn early_keys_installed(drive: Drive) -> Drive {
    match drive.shake.connection {
        Some(conn) => match connection::zero_rtt_keys(conn) {
            Some(keys) => {
                let space = drive.ex.crypto_ctx.application;
                let space = match drive.shake.side {
                    Side::Client => match space.seal {
                        Some(_) => space,
                        None => CryptoContextView {
                            seal: Some(Seal { keys, next: None }),
                            ..space
                        },
                    },
                    Side::Server => match space.zero_rtt_open {
                        Some(_) => space,
                        None => CryptoContextView {
                            zero_rtt_open: Some(Open { keys, next: None }),
                            ..space
                        },
                    },
                };
                Drive {
                    shake: HandshakeView {
                        level: if drive.shake.level is Initial {
                            Level::ZeroRTT
                        } else {
                            drive.shake.level
                        },
                        ..drive.shake
                    },
                    ex: ExDataView {
                        crypto_ctx: PacketSpacesView {
                            application: space,
                            ..drive.ex.crypto_ctx
                        },
                        ..drive.ex
                    },
                }
            },
            None => drive,
        },
        None => drive,
    }
}

/// A client that has completed its handshake leaves a session to resume,
/// unless it has left one already.
pub open spec fn session_kept(drive: Drive) -> Drive {
    if drive.shake.side is Client && completed(drive.shake) && drive.ex.session is None {
        Drive {
            shake: drive.shake,
            ex: ExDataView {
                session: Some(
                    session::session_bytes(Seq::empty(), visible_params(drive.shake)),
                ),
                ..drive.ex
            },
        }
    } else {
        drive
    }
}

/// What follows once everything has been written.
pub open spec fn finished(drive: Drive) -> Drive {
    session_kept(early_keys_installed(drive))
}

/// What a drive over a connection does, from `start` to its result.
pub open spec fn progress(start: Drive) -> (Result<(), Error>, Drive) {
    match driven(start) {
        Step::Done { drive } => (Ok(()), finished(drive)),
        Step::Failed { drive } => (Err(Error::TlsFail), drive),
        Step::Running { drive } => (Err(Error::TlsFail), drive),
    }
}

/// Puts `error` on record as the reason to close, unless there is one already.
pub open spec fn recorded(ex: ExDataView, error: ConnectionErrorView) -> ExDataView {
    ExDataView { local_error: keep_first(ex.local_error, error), ..ex }
}

/// Whether a setting is missing without which no connection can be made: the
/// transport parameters, the name of a server that is to be verified, the
/// configuration of a server.
pub open spec fn lacks_settings(shake: HandshakeView) -> bool {
    ||| shake.params is None
    ||| match shake.side {
        Side::Client => shake.verify && shake.hostname is None,
        Side::Server => shake.server_config is None,
    }
}

/// Whether the next drive makes a connection.
pub open spec fn connects_next(shake: HandshakeView) -> bool {
    shake.pending is None && shake.connection is None && !lacks_settings(shake)
}

/// Whether the next drive is within what rustls can encode.
pub open spec fn ready(shake: HandshakeView) -> bool {
    connects_next(shake) ==> match shake.side {
        Side::Client => config::hello_fits(
            config::client_settings(shake.client_config).alpn,
            shake.params->0,
        ),
        Side::Server => shake.params->0.len() <= config::EXTENSION_ROOM,
    }
}

/// The name that a client connects to; a placeholder where it has none.
pub open spec fn target_name(shake: HandshakeView) -> ServerName<'static> {
    match shake.hostname {
        Some(name) => name,
        None => connection::parsed_name(connection::PLACEHOLDER_NAME@)->0,
    }
}

/// Whether `conn` was made from the settings in `shake`, and has read exactly
/// what came before it was made.
pub open spec fn made_for(shake: HandshakeView, conn: Connection) -> bool {
    match shake.side {
        Side::Client => {
            &&& connection::origin(conn) == (connection::Origin::Client {
                client_config: shake.client_config,
                version: shake.version,
                name: target_name(shake),
                params: shake.params->0,
            })
            &&& connection::received(conn) == Seq::<u8>::empty()
            &&& connection::handshaking(conn)
        },
        Side::Server => {
            &&& connection::origin(conn) == (connection::Origin::Server {
                server_config: shake.server_config->0,
                version: shake.version,
                params: shake.params->0,
            })
            &&& connection::received(conn) == match shake.provided {
                Some(data) => data,
                None => Seq::empty(),
            }
        },
    }
}

/// A handshake that has just been given its connection; a server has handed it
/// what came before.
pub open spec fn joined(start: Drive, conn: Connection) -> Drive {
    Drive {
        shake: HandshakeView {
            connection: Some(conn),
            provided: if start.shake.side is Server {
                None
            } else {
                start.shake.provided
            },
            ..start.shake
        },
        ex: start.ex,
    }
}

/// What a drive does once rustls has answered the request for a connection.
pub open spec fn connected(start: Drive, made: Option<Connection>) -> (Result<(), Error>, Drive) {
    match made {
        Some(conn) => progress(joined(start, conn)),
        None => (Err(Error::TlsFail), start),
    }
}

/// What a server does once its connection `conn` has answered to the first
/// bytes of the client, with `failure` if it refused them.
pub open spec fn accepted(
    start: Drive,
    conn: Connection,
    failure: Option<Seq<u8>>,
) -> (Result<(), Error>, Drive) {
    match failure {
        Some(reason) => (
            Err(Error::TlsFail),
            Drive {
                shake: HandshakeView { provided: None, ..start.shake },
                ex: recorded(
                    start.ex,
                    close_reason(connection::alert_number(conn), reason),
                ),
            },
        ),
        None => progress(joined(start, conn)),
    }
}

/// Whether rustls is sure to make the connection that `shake` asks for.
pub open spec fn surely_made(shake: HandshakeView) -> bool {
    shake.side is Server && connection::serves_quic(
        config::server_settings(shake.server_config->0),
    )
}

/// What the first drive may come to: no connection is made, or one is made and
/// the drive goes on with it, or a server's refuses what the client sent.
pub open spec fn first_drive(start: Drive, outcome: (Result<(), Error>, Drive)) -> bool {
    ||| !surely_made(start.shake) && outcome == connected(start, None)
    ||| exists|conn: Connection|
        {
            &&& #[trigger] made_for(start.shake, conn)
            &&& connection::refusal(conn) is None
            &&& has_end(joined(start, conn))
            &&& outcome == connected(start, Some(conn))
        }
    ||| start.shake.side is Server && start.shake.provided is Some && exists|
        conn: Connection,
        reason: Seq<u8>,
    |
        {
            &&& made_for(start.shake, conn)
            &&& connection::refusal(conn) == Some(reason)
            &&& outcome == #[trigger] accepted(start, conn, Some(reason))
        }
}

/// The handshake once its connection, now `after`, has been handed bytes. If it
/// refused them, the next drive is to say so.
pub open spec fn after_read(shake: HandshakeView, after: Connection) -> HandshakeView {
    HandshakeView {
        connection: Some(after),
        pending: match connection::refusal(after) {
            Some(reason) => Some(close_reason(connection::alert_number(after), reason)),
            None => shake.pending,
        },
        ..shake
    }
}

/// What the rounds of a drive have no part in: the session, the reason to close,
/// bytes that wait to be read and failures that wait to be reported.
pub open spec fn untouched(before: Drive, after: Drive) -> bool {
    &&& after.ex.session == before.ex.session
    &&& after.ex.local_error == before.ex.local_error
    &&& after.shake.provided == before.shake.provided
    &&& after.shake.pending == before.shake.pending
}

/// The session that is there after a drive from `before` that ended as `after`:
/// a client that has completed its handshake leaves one if there was none.
pub open spec fn session_after(before: Drive, outcome: Result<(), Error>, after: Drive) -> Option<
    Seq<u8>,
> {
    if outcome is Ok && after.shake.side is Client && completed(after.shake)
        && before.ex.session is None {
        Some(session::session_bytes(Seq::empty(), visible_params(after.shake)))
    } else {
        before.ex.session
    }
}

/// What a drive does with a failure that is waiting to be reported.
pub open spec fn reported(start: Drive, error: ConnectionErrorView) -> (Result<(), Error>, Drive) {
    (
        Err(Error::TlsFail),
        Drive {
            shake: HandshakeView { pending: None, ..start.shake },
            ex: recorded(start.ex, error),
        },
    )
}

/// What a space keeps through any drive: what has been queued stays queued, and
/// keys may be followed by others but do not go away.
pub open spec fn space_kept(before: CryptoContextView, after: CryptoContextView) -> bool {
    &&& before.sent.is_prefix_of(after.sent)
    &&& before.open is Some ==> after.open is Some
    &&& before.seal is Some ==> after.seal is Some
    &&& before.zero_rtt_open is Some ==> after.zero_rtt_open == before.zero_rtt_open
}

/// What any drive keeps: the settings, the level or a higher one, the reason to
/// close and the session once there is one, and what the spaces keep.
pub open spec fn kept(before: Drive, after: Drive) -> bool {
    &&& after.shake == (HandshakeView {
        connection: after.shake.connection,
        level: after.shake.level,
        provided: after.shake.provided,
        parked: after.shake.parked,
        pending: after.shake.pending,
        ..before.shake
    })
    &&& before.shake.level.rank() <= after.shake.level.rank()
    &&& before.ex.local_error is Some ==> after.ex.local_error == before.ex.local_error
    &&& before.ex.session is Some ==> after.ex.session == before.ex.session
    &&& before.ex.pmtud == after.ex.pmtud
    &&& space_kept(before.ex.crypto_ctx.initial, after.ex.crypto_ctx.initial)
    &&& space_kept(before.ex.crypto_ctx.handshake, after.ex.crypto_ctx.handshake)
    &&& space_kept(before.ex.crypto_ctx.application, after.ex.crypto_ctx.application)
}

/// Whether `after` holds no 1-RTT keys that `before` did not, if its handshake
/// is not over. A client may have got 0-RTT keys to send with.
pub open spec fn keys_waited(before: Drive, after: Drive) -> bool {
    let was = before.ex.crypto_ctx.application;
    let is_now = after.ex.crypto_ctx.application;
    match after.shake.connection {
        Some(conn) if connection::handshaking(conn) => {
            &&& is_now.open == was.open
            &&& is_now.seal == was.seal || {
                &&& was.seal is None
                &&& after.shake.side is Client
                &&& connection::zero_rtt_keys(conn) matches Some(keys)
                &&& is_now.seal == Some(Seal { keys, next: None })
            }
        },
        _ => true,
    }
}

/// The drive that a step has come to.
pub open spec fn drive_at(step: Step) -> Drive {
    match step {
        Step::Running { drive } => drive,
        Step::Done { drive } => drive,
        Step::Failed { drive } => drive,
    }
}

/// What is waiting to be read once `data` has come after `provided`.
pub open spec fn provided_after(provided: Option<Seq<u8>>, data: Seq<u8>) -> Seq<u8> {
    match provided {
        Some(before) => before + data,
        None => data,
    }
}

/// The algorithm that goes with a cipher suite.
pub open spec fn suite_algorithm(suite: u16) -> Option<Algorithm> {
    if suite == 0x1301 {
        Some(Algorithm::AES128_GCM)
    } else if suite == 0x1302 {
        Some(Algorithm::AES256_GCM)
    } else if suite == 0x1303 {
        Some(Algorithm::ChaCha20_Poly1305)
    } else {
        None
    }
}

/// The certificates that the peer of `shake` presented; empty if there is no
/// connection or it presented none.
pub open spec fn presented(shake: HandshakeView) -> Seq<Seq<u8>> {
    match shake.connection {
        Some(conn) => match connection::peer_certificates(conn) {
            Some(certs) => certs,
            None => Seq::empty(),
        },
        None => Seq::empty(),
    }
}

/// Once a drive has ended, further rounds change nothing.
proof fn lemma_ended_stays(start: Drive, count: nat, more: nat)
    requires
        count <= more,
        !(rounds(start, count) is Running),
    ensures
        rounds(start, more) == rounds(start, count),
    decreases more - count,
{
    if count < more {
        lemma_ended_stays(start, count, (more - 1) as nat);
    }
}

/// A drive that has been steady up to its end is steady.
pub(crate) proof fn lemma_steady_to_the_end(start: Drive, count: nat)
    requires
        !(rounds(start, count) is Running),
        forall|n: nat| n <= count ==> same_phase(start, #[trigger] rounds(start, n)),
    ensures
        steady(start),
{
    assert forall|n: nat| same_phase(start, #[trigger] rounds(start, n)) by {
        if n > count {
            lemma_ended_stays(start, count, n);
            assert(same_phase(start, rounds(start, count)));
        }
    }
}

/// A drive has at most one end.
pub proof fn law_one_end(start: Drive, end: Step)
    requires
        ends_as(start, end),
    ensures
        driven(start) == end,
{
    let other = driven(start);
    assert(ends_as(start, other));
    let m = choose|count: nat| #[trigger] rounds(start, count) == end;
    let n = choose|count: nat| #[trigger] rounds(start, count) == other;
    if m <= n {
        lemma_ended_stays(start, m, n);
    } else {
        lemma_ended_stays(start, n, m);
    }
}

} // verus!
