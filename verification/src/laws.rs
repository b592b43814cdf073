//! What holds of handshakes as a whole, beyond what single functions state.

use crate::crypto::{CryptoContextView, ExDataView, Open, Seal};
use crate::machine::{Drive, HandshakeView, Step};
use crate::types::{Algorithm, ConnectionErrorView, Error, Level};
use crate::{config, connection, crypto, machine, session};
use rustls::quic::{Connection, DirectionalKeys, Keys, Secrets};
use vstd::prelude::*;

verus! {

/// What is kept from one state to the next is kept over both.
pub proof fn law_kept_is_transitive(a: Drive, b: Drive, c: Drive)
    requires
        machine::kept(a, b),
        machine::kept(b, c),
    ensures
        machine::kept(a, c),
{
    lemma_space_kept(a.ex.crypto_ctx.initial, b.ex.crypto_ctx.initial, c.ex.crypto_ctx.initial);
    lemma_space_kept(
        a.ex.crypto_ctx.handshake,
        b.ex.crypto_ctx.handshake,
        c.ex.crypto_ctx.handshake,
    );
    lemma_space_kept(
        a.ex.crypto_ctx.application,
        b.ex.crypto_ctx.application,
        c.ex.crypto_ctx.application,
    );
}

proof fn lemma_space_kept(a: CryptoContextView, b: CryptoContextView, c: CryptoContextView)
    requires
        machine::space_kept(a, b),
        machine::space_kept(b, c),
    ensures
        machine::space_kept(a, c),
{
    assert(a.sent =~= c.sent.subrange(0, a.sent.len() as int)) by {
        assert(a.sent =~= b.sent.subrange(0, a.sent.len() as int));
        assert(b.sent =~= c.sent.subrange(0, b.sent.len() as int));
        assert forall|i: int| 0 <= i < a.sent.len() implies a.sent[i] == c.sent[i] by {
            assert(a.sent[i] == b.sent.subrange(0, a.sent.len() as int)[i]);
            assert(b.sent[i] == c.sent.subrange(0, b.sent.len() as int)[i]);
        }
    }
}

/// Installing or parking 1-RTT keys keeps what any drive keeps, and leaves the
/// application space alone while the handshake goes on.
proof fn lemma_application_keys_keep(drive: Drive, keys: Keys, next: Secrets)
    ensures
        machine::kept(drive, machine::application_keys(drive, keys, next).1),
        machine::application_keys(drive, keys, next).1.shake.connection == drive.shake.connection,
        !machine::completed(drive.shake) ==> machine::application_keys(drive, keys, next).1.ex
            == drive.ex,
{
}

proof fn lemma_key_changed_keeps(drive: Drive, change: connection::KeyChange)
    ensures
        machine::kept(drive, machine::key_changed(drive, change).1),
        machine::key_changed(drive, change).1.shake.connection == drive.shake.connection,
        !machine::completed(drive.shake) ==> machine::key_changed(
            drive,
            change,
        ).1.ex.crypto_ctx.application == drive.ex.crypto_ctx.application,
{
    if let connection::KeyChange::OneRtt { keys, next } = change {
        lemma_application_keys_keep(drive, keys, next);
    }
}

/// One round of a drive keeps what any drive keeps, and installs no 1-RTT keys
/// while the handshake goes on.
pub proof fn law_round_keeps(drive: Drive, conn: Connection)
    ensures
        machine::kept(drive, machine::drive_at(machine::round(drive, conn))),
        connection::handshaking(connection::flight(conn).rest) ==> {
            let before = drive.ex.crypto_ctx.application;
            let after = machine::drive_at(machine::round(drive, conn)).ex.crypto_ctx.application;
            after.open == before.open && after.seal == before.seal
        },
{
    let flight = connection::flight(conn);
    let taken = Drive {
        shake: HandshakeView { connection: Some(flight.rest), ..drive.shake },
        ex: drive.ex,
    };
    assert(machine::kept(drive, taken));
    let (used, changed) = match flight.change {
        Some(change) => machine::key_changed(taken, change),
        None => (Ok(false), taken),
    };
    if let Some(change) = flight.change {
        lemma_key_changed_keeps(taken, change);
    }
    law_kept_is_transitive(drive, taken, changed);
    if let Ok(used) = used {
        let settled = machine::unparked(used, changed);
        if let Some((keys, next)) = changed.shake.parked {
            let emptied = Drive {
                shake: HandshakeView { parked: None, ..changed.shake },
                ex: changed.ex,
            };
            assert(machine::kept(changed, emptied));
            lemma_application_keys_keep(emptied, keys, next);
            law_kept_is_transitive(
                changed,
                emptied,
                machine::application_keys(emptied, keys, next).1,
            );
        }
        law_kept_is_transitive(drive, changed, settled);
        if let Some(ex) = machine::stream_written(settled.ex, drive.shake.level, flight.bytes) {
            let written = Drive { shake: settled.shake, ex };
            assert(machine::kept(settled, written));
            law_kept_is_transitive(drive, settled, written);
        }
    }
}

proof fn lemma_rounds_keep(start: Drive, count: nat)
    ensures
        machine::kept(start, machine::drive_at(machine::rounds(start, count))),
    decreases count,
{
    if count > 0 {
        let before = machine::rounds(start, (count - 1) as nat);
        lemma_rounds_keep(start, (count - 1) as nat);
        if let Step::Running { drive } = before {
            if let Some(conn) = drive.shake.connection {
                law_round_keeps(drive, conn);
                law_kept_is_transitive(
                    start,
                    drive,
                    machine::drive_at(machine::round(drive, conn)),
                );
            }
        }
    }
}

/// However a drive ends, it keeps the settings, moves the level only upwards,
/// takes nothing back that was queued, and leaves the reason to close and the
/// session as they were once there is one.
pub proof fn law_drive_keeps(start: Drive, end: Step)
    requires
        machine::ends_as(start, end),
    ensures
        machine::kept(start, machine::drive_at(end)),
{
    let count = choose|count: nat| #[trigger] machine::rounds(start, count) == end;
    lemma_rounds_keep(start, count);
}

/// What follows once everything has been written keeps all that as well.
pub proof fn law_finish_keeps(drive: Drive)
    ensures
        machine::kept(drive, machine::finished(drive)),
{
    let keyed = machine::early_keys_installed(drive);
    assert(machine::kept(drive, keyed));
    assert(machine::kept(keyed, machine::session_kept(keyed)));
    law_kept_is_transitive(drive, keyed, machine::finished(drive));
}

proof fn lemma_round_leaves_alone(drive: Drive, conn: Connection)
    ensures
        machine::untouched(drive, machine::drive_at(machine::round(drive, conn))),
{
}

proof fn lemma_rounds_leave_alone(start: Drive, count: nat)
    ensures
        machine::untouched(start, machine::drive_at(machine::rounds(start, count))),
    decreases count,
{
    if count > 0 {
        lemma_rounds_leave_alone(start, (count - 1) as nat);
        if let Step::Running { drive } = machine::rounds(start, (count - 1) as nat) {
            if let Some(conn) = drive.shake.connection {
                lemma_round_leaves_alone(drive, conn);
            }
        }
    }
}

/// Whatever a drive over a connection comes to, it leaves bytes that wait to be
/// read, failures that wait to be reported and the reason to close as they were;
/// and the session too, but for the one that a client leaves whose handshake is
/// over. That one holds the parameters of the peer as they are at the end.
pub proof fn law_drive_leaves_one_session(start: Drive)
    requires
        machine::has_end(start),
    ensures
        ({
            let (outcome, end) = machine::progress(start);
            &&& end.ex.session == machine::session_after(start, outcome, end)
            &&& end.ex.local_error == start.ex.local_error
            &&& end.shake.provided == start.shake.provided
            &&& end.shake.pending == start.shake.pending
        }),
{
    let end = machine::driven(start);
    let count = choose|count: nat| #[trigger] machine::rounds(start, count) == end;
    lemma_rounds_leave_alone(start, count);
    lemma_rounds_keep(start, count);
    if let Step::Done { drive } = end {
        assert(machine::untouched(drive, machine::early_keys_installed(drive)));
    }
}

/// Without new keys, and with none parked, rounds do nothing but send.
proof fn lemma_quiet_rounds(start: Drive, count: nat)
    requires
        machine::without_key_change(start),
        start.shake.parked is None,
    ensures
        ({
            let drive = machine::drive_at(machine::rounds(start, count));
            let before = start.ex.crypto_ctx.application;
            let after = drive.ex.crypto_ctx.application;
            &&& drive.shake == (HandshakeView {
                connection: drive.shake.connection,
                ..start.shake
            })
            &&& after == (CryptoContextView { sent: after.sent, ..before })
        }),
    decreases count,
{
    if count > 0 {
        lemma_quiet_rounds(start, (count - 1) as nat);
    }
}

/// In a drive that succeeds without a change of keys and with none parked, keys
/// for 0-RTT packets that are there at its end are installed if there were none
/// and otherwise change nothing: not the keys to send with, not those to receive
/// with, and the level only if it was the first.
pub proof fn law_early_keys_over_a_drive(start: Drive, keys: DirectionalKeys)
    requires
        machine::has_end(start),
        machine::without_key_change(start),
        start.shake.parked is None,
        machine::progress(start).0 is Ok,
        machine::progress(start).1.shake.connection matches Some(conn)
            && connection::zero_rtt_keys(conn) == Some(keys),
    ensures
        ({
            let end = machine::progress(start).1;
            let before = start.ex.crypto_ctx.application;
            let after = end.ex.crypto_ctx.application;
            &&& after.open == before.open
            &&& after.seal == if start.shake.side is Client && before.seal is None {
                Some(Seal { keys, next: None })
            } else {
                before.seal
            }
            &&& after.zero_rtt_open == if start.shake.side is Server
                && before.zero_rtt_open is None {
                Some(Open { keys, next: None })
            } else {
                before.zero_rtt_open
            }
            &&& end.shake.level == if start.shake.level is Initial {
                Level::ZeroRTT
            } else {
                start.shake.level
            }
        }),
{
    let end = machine::driven(start);
    let count = choose|count: nat| #[trigger] machine::rounds(start, count) == end;
    lemma_quiet_rounds(start, count);
}

/// Without new keys, parked ones are put to use by the first round if the
/// handshake is over, and stay parked through all rounds if it is not.
proof fn lemma_parked_rounds(start: Drive, count: nat, keys: Keys, next: Secrets)
    requires
        machine::steady(start),
        machine::without_key_change(start),
        start.shake.connection is Some,
        start.shake.parked == Some((keys, next)),
        count > 0,
    ensures
        ({
            let drive = machine::drive_at(machine::rounds(start, count));
            let before = start.ex.crypto_ctx.application;
            let after = drive.ex.crypto_ctx.application;
            &&& drive.shake.connection is Some
            &&& drive.shake.side == start.shake.side
            &&& machine::completed(drive.shake) == machine::completed(start.shake)
            &&& if machine::completed(start.shake) {
                &&& drive.shake.parked is None
                &&& after.open == Some(
                    Open { keys: crypto::key_halves(keys).1, next: Some(next) },
                )
                &&& after.seal == Some(
                    Seal { keys: crypto::key_halves(keys).0, next: Some(next) },
                )
            } else {
                &&& drive.shake.parked == Some((keys, next))
                &&& after.open == before.open
            }
        }),
    decreases count,
{
    let last = machine::rounds(start, (count - 1) as nat);
    assert(machine::same_phase(start, machine::rounds(start, count)));
    assert(machine::same_phase(start, last));
    if count > 1 {
        lemma_parked_rounds(start, (count - 1) as nat, keys, next);
    } else {
        assert(last == (Step::Running { drive: start }));
    }
}

/// In a drive that succeeds without a change of keys, 1-RTT keys that were parked
/// are put to use if the handshake is over, even with nothing to send; they stay
/// parked if it is not.
pub proof fn law_parked_keys_over_a_drive(start: Drive, keys: Keys, next: Secrets)
    requires
        machine::has_end(start),
        machine::without_key_change(start),
        start.shake.connection is Some,
        start.shake.parked == Some((keys, next)),
        machine::progress(start).0 is Ok,
    ensures
        ({
            let end = machine::progress(start).1;
            let before = start.ex.crypto_ctx.application;
            let after = end.ex.crypto_ctx.application;
            if machine::completed(end.shake) {
                &&& end.shake.parked is None
                &&& after.open == Some(
                    Open { keys: crypto::key_halves(keys).1, next: Some(next) },
                )
                &&& after.seal == Some(
                    Seal { keys: crypto::key_halves(keys).0, next: Some(next) },
                )
            } else {
                &&& end.shake.parked == Some((keys, next))
                &&& after.open == before.open
            }
        }),
{
    let end = machine::driven(start);
    let count = choose|count: nat| #[trigger] machine::rounds(start, count) == end;
    assert(machine::rounds(start, 0) is Running);
    lemma_parked_rounds(start, count, keys, next);
}

/// A server whose first drive succeeds has handed all that had come before, in
/// order and whole, to the connection that it goes on with, which took it; and
/// keeps nothing of it.
pub proof fn law_gathered_bytes_are_handed_over(
    start: Drive,
    chunks: Seq<Seq<u8>>,
    end: Drive,
)
    requires
        start.shake.side is Server,
        machine::connects_next(start.shake),
        chunks.len() > 0,
        start.shake.provided == gathered(chunks),
        machine::first_drive(start, (Ok::<(), Error>(()), end)),
    ensures
        end.shake.provided is None,
        exists|conn: Connection|
            {
                &&& #[trigger] machine::made_for(start.shake, conn)
                &&& connection::received(conn) == chunks.flatten()
                &&& connection::refusal(conn) is None
                &&& machine::progress(machine::joined(start, conn)) == (Ok::<(), Error>(()), end)
            },
{
    law_chunks_are_kept_in_order(chunks);
    let conn = choose|conn: Connection|
        {
            &&& #[trigger] machine::made_for(start.shake, conn)
            &&& connection::refusal(conn) is None
            &&& machine::has_end(machine::joined(start, conn))
            &&& (Ok::<(), Error>(()), end) == machine::connected(start, Some(conn))
        };
    law_drive_leaves_one_session(machine::joined(start, conn));
    assert(machine::made_for(start.shake, conn));
}

/// Bytes that a connection refuses make the next drive fail, with the alert on
/// record as the reason to close, or an internal error if there is no alert.
pub proof fn law_refused_read_is_reported(
    shake: HandshakeView,
    after: Connection,
    reason: Seq<u8>,
    ex: ExDataView,
)
    requires
        connection::refusal(after) == Some(reason),
        ex.local_error is None,
    ensures
        ({
            let start = Drive { shake: machine::after_read(shake, after), ex };
            &&& start.shake.pending matches Some(error)
            &&& machine::reported(start, error).0 == Err::<(), Error>(Error::TlsFail)
            &&& machine::reported(start, error).1.ex.local_error matches Some(closed)
            &&& closed.reason == reason
            &&& !closed.is_app
            &&& closed.error_code == match connection::alert_number(after) {
                Some(alert) => 0x100 + alert,
                None => 0x01,
            }
        }),
{
}

/// Parked 1-RTT keys are put to use in the first round that finds the handshake
/// over, unless that round brings other keys.
pub proof fn law_parked_keys_are_used(drive: Drive, conn: Connection, keys: Keys, next: Secrets)
    requires
        drive.shake.parked == Some((keys, next)),
        connection::flight(conn).change is None,
        !connection::handshaking(connection::flight(conn).rest),
    ensures
        ({
            let after = machine::drive_at(machine::round(drive, conn));
            let space = after.ex.crypto_ctx.application;
            &&& after.shake.parked is None
            &&& after.shake.level is OneRTT
            &&& space.open == Some(
                Open { keys: crypto::key_halves(keys).1, next: Some(next) },
            )
            &&& space.seal == Some(
                Seal { keys: crypto::key_halves(keys).0, next: Some(next) },
            )
        }),
{
}

/// Parked 1-RTT keys stay parked through a round that finds the handshake not over
/// and brings no others, and the application space keeps its keys.
pub proof fn law_parked_keys_wait(drive: Drive, conn: Connection)
    requires
        drive.shake.parked is Some,
        connection::flight(conn).change is None,
        connection::handshaking(connection::flight(conn).rest),
    ensures
        ({
            let after = machine::drive_at(machine::round(drive, conn));
            &&& after.shake.parked == drive.shake.parked
            &&& after.ex.crypto_ctx.application.open == drive.ex.crypto_ctx.application.open
            &&& after.ex.crypto_ctx.application.seal == drive.ex.crypto_ctx.application.seal
        }),
{
}

/// What follows once everything has been written sends nothing, parks nothing, and
/// leaves the connection and the keys of the other spaces alone.
pub proof fn law_finishing_sends_nothing(drive: Drive)
    ensures
        ({
            let after = machine::finished(drive);
            &&& after.ex.crypto_ctx.initial == drive.ex.crypto_ctx.initial
            &&& after.ex.crypto_ctx.handshake == drive.ex.crypto_ctx.handshake
            &&& after.ex.crypto_ctx.application.sent == drive.ex.crypto_ctx.application.sent
            &&& after.ex.crypto_ctx.application.open == drive.ex.crypto_ctx.application.open
            &&& after.ex.local_error == drive.ex.local_error
            &&& after.ex.pmtud == drive.ex.pmtud
            &&& after.shake == (HandshakeView { level: after.shake.level, ..drive.shake })
        }),
{
}

/// Keys for the handshake level are accepted once.
pub proof fn law_handshake_keys_come_once(drive: Drive, first: Keys, second: Keys)
    ensures
        ({
            let once = machine::key_changed(
                drive,
                connection::KeyChange::Handshake { keys: first },
            );
            let twice = machine::key_changed(
                once.1,
                connection::KeyChange::Handshake { keys: second },
            );
            twice == (Err::<bool, Error>(Error::TlsFail), once.1)
        }),
{
}

/// CRYPTO data goes out at the level of before the keys change: of all that is
/// queued, only the stream of that level's space has grown, by these bytes.
pub proof fn law_bytes_go_out_at_the_old_level(drive: Drive, conn: Connection)
    requires
        machine::round(drive, conn) is Running,
    ensures
        ({
            let bytes = connection::flight(conn).bytes;
            let before = drive.ex.crypto_ctx;
            let after = machine::drive_at(machine::round(drive, conn)).ex.crypto_ctx;
            let level = drive.shake.level;
            &&& level !is ZeroRTT
            &&& after.initial.sent == if level is Initial {
                before.initial.sent + bytes
            } else {
                before.initial.sent
            }
            &&& after.handshake.sent == if level is Handshake {
                before.handshake.sent + bytes
            } else {
                before.handshake.sent
            }
            &&& after.application.sent == if level is OneRTT {
                before.application.sent + bytes
            } else {
                before.application.sent
            }
        }),
{
}

/// CRYPTO data at the 0-RTT level is an error.
pub proof fn law_no_crypto_at_zero_rtt(drive: Drive, conn: Connection)
    requires
        drive.shake.level is ZeroRTT,
        connection::flight(conn).bytes.len() > 0,
    ensures
        machine::round(drive, conn) is Failed,
{
}

/// The level that is reported for writing is one that can be written at.
pub proof fn law_writing_level_can_be_written(ex: ExDataView, level: Level, data: Seq<u8>)
    ensures
        machine::stream_written(ex, machine::writing_level(level), data) is Some,
        level !is ZeroRTT ==> machine::writing_level(level) == level,
{
}

/// 0-RTT keys are installed only once, never in place of other keys, and never
/// move the level backwards, however long they are reported.
pub proof fn law_early_keys_are_installed_once(drive: Drive)
    ensures
        ({
            let once = machine::early_keys_installed(drive);
            &&& machine::early_keys_installed(once) == once
            &&& drive.shake.side is Client && drive.ex.crypto_ctx.application.seal is Some
                ==> once.ex == drive.ex
            &&& drive.shake.side is Server && drive.ex.crypto_ctx.application.zero_rtt_open is Some
                ==> once.ex == drive.ex
            &&& drive.shake.level !is Initial ==> once.shake == drive.shake
            &&& drive.shake.level is Initial && machine::in_early_data(drive.shake)
                ==> once.shake.level is ZeroRTT
        }),
{
}

/// Finishing twice is finishing once.
pub proof fn law_finishing_again_changes_nothing(drive: Drive)
    ensures
        machine::finished(machine::finished(drive)) == machine::finished(drive),
{
    let once = machine::finished(drive);
    assert(machine::early_keys_installed(once) == once);
}

/// A session is left only by a client whose handshake is over, and its blob
/// holds an empty element and the transport parameters of the peer, which are
/// left out while 0-RTT keys are around.
pub proof fn law_session_holds_peer_params(drive: Drive)
    requires
        machine::visible_params(drive.shake).len() <= u64::MAX,
    ensures
        ({
            let after = machine::session_kept(drive);
            after != drive ==> {
                &&& drive.shake.side is Client
                &&& machine::completed(drive.shake)
                &&& after.ex.session matches Some(blob)
                &&& session::session_elements(blob) == Some(
                    (Seq::<u8>::empty(), machine::visible_params(drive.shake)),
                )
            }
        }),
        machine::in_early_data(drive.shake) ==> machine::visible_params(drive.shake) == Seq::<
            u8,
        >::empty(),
{
    session::law_session_round_trip(Seq::empty(), machine::visible_params(drive.shake));
}

/// The first reason to close stays the reason.
pub proof fn law_first_error_stays(
    ex: ExDataView,
    first: ConnectionErrorView,
    second: ConnectionErrorView,
)
    ensures
        machine::recorded(machine::recorded(ex, first), second) == machine::recorded(ex, first),
{
}

/// A failure is reported by one drive and no other, and by that one whatever
/// state the handshake is in.
pub proof fn law_failure_is_reported_once(start: Drive, error: ConnectionErrorView)
    requires
        start.shake.pending == Some(error),
    ensures
        ({
            let (outcome, after) = machine::reported(start, error);
            &&& outcome == Err::<(), Error>(Error::TlsFail)
            &&& after.shake.pending is None
            &&& after.ex.local_error is Some
            &&& start.ex.local_error is None ==> after.ex.local_error == Some(error)
        }),
{
}

/// An alert can be told from the code that the connection is closed with, and
/// from a failure without one.
pub proof fn law_alert_can_be_told(alert: u8, other: Option<u8>, reason: Seq<u8>)
    ensures
        machine::close_reason(Some(alert), reason).error_code == 0x100 + alert,
        machine::close_reason(None, reason).error_code < 0x100,
        machine::close_reason(Some(alert), reason) == machine::close_reason(other, reason)
            ==> other == Some(alert),
{
}

/// What has been gathered after `chunks` have come, one by one, with no
/// connection to read them.
pub open spec fn gathered(chunks: Seq<Seq<u8>>) -> Option<Seq<u8>>
    decreases chunks.len(),
{
    if chunks.len() == 0 {
        None
    } else {
        Some(machine::provided_after(gathered(chunks.drop_last()), chunks.last()))
    }
}

/// Bytes that come before there is a connection are kept in the order in which
/// they came, all of them.
pub proof fn law_chunks_are_kept_in_order(chunks: Seq<Seq<u8>>)
    requires
        chunks.len() > 0,
    ensures
        gathered(chunks) == Some(chunks.flatten()),
    decreases chunks.len(),
{
    let before = chunks.drop_last();
    if before.len() == 0 {
        assert(gathered(before) is None);
        assert(before.flatten_alt() =~= Seq::<u8>::empty());
    } else {
        law_chunks_are_kept_in_order(before);
    }
    chunks.lemma_flatten_and_flatten_alt_are_equivalent();
    before.lemma_flatten_and_flatten_alt_are_equivalent();
    assert(gathered(chunks)->0 =~= chunks.flatten_alt());
}

/// The levels in the order in which a connection reaches them.
pub proof fn law_levels_are_ordered()
    ensures
        Level::Initial.rank() < Level::ZeroRTT.rank(),
        Level::ZeroRTT.rank() < Level::Handshake.rank(),
        Level::Handshake.rank() < Level::OneRTT.rank(),
{
}

/// Keys for the handshake level, at a level before it, make the handshake space
/// open with the peer's half and protect with the own one, lift the level, and
/// change nothing else. A client that has sent 0-RTT data is no exception. At the
/// handshake level and after, they are refused and nothing changes.
pub proof fn law_handshake_keys_are_installed(drive: Drive, keys: Keys)
    ensures
        ({
            let (used, after) = machine::key_changed(
                drive,
                connection::KeyChange::Handshake { keys },
            );
            let (local, remote) = crypto::key_halves(keys);
            if drive.shake.level is Initial || drive.shake.level is ZeroRTT {
                &&& used == Ok::<bool, Error>(true)
                &&& after.shake == (HandshakeView { level: Level::Handshake, ..drive.shake })
                &&& after.ex.crypto_ctx.handshake.open == Some(Open { keys: remote, next: None })
                &&& after.ex.crypto_ctx.handshake.seal == Some(Seal { keys: local, next: None })
                &&& after.ex.crypto_ctx.handshake.zero_rtt_open
                    == drive.ex.crypto_ctx.handshake.zero_rtt_open
                &&& after.ex.crypto_ctx.handshake.sent == drive.ex.crypto_ctx.handshake.sent
                &&& after.ex.crypto_ctx.initial == drive.ex.crypto_ctx.initial
                &&& after.ex.crypto_ctx.application == drive.ex.crypto_ctx.application
                &&& after.ex.session == drive.ex.session
                &&& after.ex.local_error == drive.ex.local_error
                &&& after.ex.pmtud == drive.ex.pmtud
            } else {
                &&& used == Err::<bool, Error>(Error::TlsFail)
                &&& after == drive
            }
        }),
{
}

/// 1-RTT keys lift the level to the last one. If the handshake is over they make
/// the application space open with the peer's half and protect with the own one,
/// with the secrets for later updates; if it is not, they are parked and no space
/// changes. Nothing else changes either way.
pub proof fn law_one_rtt_keys_are_installed_or_parked(drive: Drive, keys: Keys, next: Secrets)
    ensures
        ({
            let (used, after) = machine::key_changed(
                drive,
                connection::KeyChange::OneRtt { keys, next },
            );
            let (local, remote) = crypto::key_halves(keys);
            let over = drive.shake.connection is Some && !connection::handshaking(
                drive.shake.connection->0,
            );
            &&& used == Ok::<bool, Error>(over)
            &&& (over, after) == machine::application_keys(drive, keys, next)
            &&& after.shake.level is OneRTT
            &&& after.shake == (HandshakeView {
                level: after.shake.level,
                parked: after.shake.parked,
                ..drive.shake
            })
            &&& after.ex.crypto_ctx.initial == drive.ex.crypto_ctx.initial
            &&& after.ex.crypto_ctx.handshake == drive.ex.crypto_ctx.handshake
            &&& after.ex.session == drive.ex.session
            &&& after.ex.local_error == drive.ex.local_error
            &&& after.ex.pmtud == drive.ex.pmtud
            &&& over ==> {
                let space = after.ex.crypto_ctx.application;
                &&& space.open == Some(Open { keys: remote, next: Some(next) })
                &&& space.seal == Some(Seal { keys: local, next: Some(next) })
                &&& space.zero_rtt_open == drive.ex.crypto_ctx.application.zero_rtt_open
                &&& space.sent == drive.ex.crypto_ctx.application.sent
                &&& after.shake.parked == drive.shake.parked
            }
            &&& !over ==> {
                &&& after.shake.parked == Some((keys, next))
                &&& after.ex.crypto_ctx.application == drive.ex.crypto_ctx.application
            }
        }),
{
}

/// A round takes what the connection has to write and goes on with what is left
/// of it. It fails exactly if it brings handshake keys at the handshake level or
/// after, or bytes at the 0-RTT level; otherwise it is the last one exactly if
/// there are no bytes.
pub proof fn law_round_takes_one_flight(drive: Drive, conn: Connection)
    ensures
        ({
            let flight = connection::flight(conn);
            let step = machine::round(drive, conn);
            let late_keys = flight.change is Some && flight.change->0 is Handshake && (
            drive.shake.level is Handshake || drive.shake.level is OneRTT);
            let early_bytes = flight.bytes.len() > 0 && drive.shake.level is ZeroRTT;
            &&& step is Failed <==> late_keys || early_bytes
            &&& step is Done <==> !late_keys && flight.bytes.len() == 0
            &&& step is Running <==> !late_keys && flight.bytes.len() > 0
                && drive.shake.level !is ZeroRTT
            &&& machine::drive_at(step).shake.connection == Some(flight.rest)
        }),
{
}

/// Handshake keys that a round brings at a level before are in the handshake space
/// once it is through, the peer's half to open and the own one to protect, also
/// for a client at the 0-RTT level; and the level is no longer before it.
pub proof fn law_round_installs_handshake_keys(drive: Drive, conn: Connection, keys: Keys)
    requires
        drive.shake.level is Initial || drive.shake.level is ZeroRTT,
        connection::flight(conn).change == Some(connection::KeyChange::Handshake { keys }),
    ensures
        ({
            let after = machine::drive_at(machine::round(drive, conn));
            let space = after.ex.crypto_ctx.handshake;
            let (local, remote) = crypto::key_halves(keys);
            &&& space.open == Some(Open { keys: remote, next: None })
            &&& space.seal == Some(Seal { keys: local, next: None })
            &&& after.shake.level is Handshake
            &&& after.shake.parked == drive.shake.parked
            &&& after.ex.crypto_ctx.application == drive.ex.crypto_ctx.application
        }),
{
}

/// Past the 0-RTT level, a round leaves the keys of the handshake space alone and
/// stays past it.
proof fn lemma_late_round_keeps_handshake_keys(drive: Drive, conn: Connection)
    requires
        drive.shake.level is Handshake || drive.shake.level is OneRTT,
    ensures
        ({
            let after = machine::drive_at(machine::round(drive, conn));
            &&& after.ex.crypto_ctx.handshake.open == drive.ex.crypto_ctx.handshake.open
            &&& after.ex.crypto_ctx.handshake.seal == drive.ex.crypto_ctx.handshake.seal
            &&& after.shake.level is Handshake || after.shake.level is OneRTT
        }),
{
}

/// Handshake keys that a drive brings in some round, at a level before, are what
/// the handshake space holds after that round and ever after in this drive.
pub proof fn law_handshake_keys_stay(
    start: Drive,
    drive: Drive,
    conn: Connection,
    keys: Keys,
    at: nat,
    later: nat,
)
    requires
        machine::rounds(start, at) == (Step::Running { drive }),
        drive.shake.connection == Some(conn),
        drive.shake.level is Initial || drive.shake.level is ZeroRTT,
        connection::flight(conn).change == Some(connection::KeyChange::Handshake { keys }),
        at < later,
    ensures
        ({
            let after = machine::drive_at(machine::rounds(start, later));
            let space = after.ex.crypto_ctx.handshake;
            let (local, remote) = crypto::key_halves(keys);
            &&& space.open == Some(Open { keys: remote, next: None })
            &&& space.seal == Some(Seal { keys: local, next: None })
            &&& after.shake.level is Handshake || after.shake.level is OneRTT
        }),
    decreases later - at,
{
    law_round_installs_handshake_keys(drive, conn, keys);
    if later > at + 1 {
        law_handshake_keys_stay(start, drive, conn, keys, at, (later - 1) as nat);
        if let Step::Running { drive: last } = machine::rounds(start, (later - 1) as nat) {
            if let Some(last_conn) = last.shake.connection {
                lemma_late_round_keeps_handshake_keys(last, last_conn);
            }
        }
    } else {
        assert(machine::rounds(start, later) == machine::round(drive, conn));
    }
}

/// A drive that reaches the handshake level from before it, and stops there, has
/// left keys in the handshake space for both directions.
pub proof fn law_handshake_level_has_keys(start: Drive)
    requires
        machine::has_end(start),
        start.shake.level is Initial || start.shake.level is ZeroRTT,
        machine::progress(start).1.shake.level is Handshake,
    ensures
        machine::progress(start).1.ex.crypto_ctx.handshake.open is Some,
        machine::progress(start).1.ex.crypto_ctx.handshake.seal is Some,
{
    let end = machine::driven(start);
    let count = choose|count: nat| #[trigger] machine::rounds(start, count) == end;
    lemma_handshake_level_has_keys(start, count);
}

proof fn lemma_handshake_level_has_keys(start: Drive, count: nat)
    requires
        start.shake.level is Initial || start.shake.level is ZeroRTT,
    ensures
        ({
            let drive = machine::drive_at(machine::rounds(start, count));
            drive.shake.level is Handshake ==> {
                &&& drive.ex.crypto_ctx.handshake.open is Some
                &&& drive.ex.crypto_ctx.handshake.seal is Some
            }
        }),
    decreases count,
{
    if count > 0 {
        lemma_handshake_level_has_keys(start, (count - 1) as nat);
        if let Step::Running { drive } = machine::rounds(start, (count - 1) as nat) {
            if let Some(conn) = drive.shake.connection {
                law_round_keeps(drive, conn);
                let after = machine::drive_at(machine::round(drive, conn));
                if after.shake.level is Handshake && drive.shake.level !is Handshake {
                    assert(connection::flight(conn).change is Some);
                    assert(connection::flight(conn).change->0 is Handshake);
                }
            }
        }
    }
}

/// A round that brings no keys and finds none parked changes no keys and no level:
/// it queues its bytes, and the connection is what is left of it.
pub proof fn law_quiet_round_only_sends(drive: Drive, conn: Connection)
    requires
        connection::flight(conn).change is None,
        drive.shake.parked is None,
    ensures
        ({
            let after = machine::drive_at(machine::round(drive, conn));
            let before = drive.ex.crypto_ctx;
            let spaces = after.ex.crypto_ctx;
            &&& after.shake == (HandshakeView {
                connection: Some(connection::flight(conn).rest),
                ..drive.shake
            })
            &&& spaces.initial == (CryptoContextView {
                sent: spaces.initial.sent,
                ..before.initial
            })
            &&& spaces.handshake == (CryptoContextView {
                sent: spaces.handshake.sent,
                ..before.handshake
            })
            &&& spaces.application == (CryptoContextView {
                sent: spaces.application.sent,
                ..before.application
            })
            &&& after.ex.session == drive.ex.session
            &&& after.ex.local_error == drive.ex.local_error
            &&& after.ex.pmtud == drive.ex.pmtud
        }),
{
}

/// A round that brings 1-RTT keys after the handshake is over leaves them in the
/// application space; before, it leaves that space's keys alone and the new ones
/// parked. In both cases the level is the last one afterwards.
pub proof fn law_round_installs_or_parks_one_rtt_keys(
    drive: Drive,
    conn: Connection,
    keys: Keys,
    next: Secrets,
)
    requires
        connection::flight(conn).change == Some(connection::KeyChange::OneRtt { keys, next }),
    ensures
        ({
            let after = machine::drive_at(machine::round(drive, conn));
            let space = after.ex.crypto_ctx.application;
            let (local, remote) = crypto::key_halves(keys);
            &&& after.shake.level is OneRTT
            &&& if connection::handshaking(connection::flight(conn).rest) {
                &&& after.shake.parked == Some((keys, next))
                &&& space.open == drive.ex.crypto_ctx.application.open
                &&& space.seal == drive.ex.crypto_ctx.application.seal
            } else {
                &&& after.shake.parked == drive.shake.parked
                &&& space.open == Some(Open { keys: remote, next: Some(next) })
                &&& space.seal == Some(Seal { keys: local, next: Some(next) })
            }
        }),
{
}

/// A round changes nothing of a handshake but its connection, its level and what is
/// parked, and nothing of the connection's state but the spaces.
pub proof fn law_round_leaves_settings_alone(drive: Drive, conn: Connection)
    ensures
        ({
            let after = machine::drive_at(machine::round(drive, conn));
            &&& after.shake == (HandshakeView {
                connection: after.shake.connection,
                level: after.shake.level,
                parked: after.shake.parked,
                ..drive.shake
            })
            &&& after.ex == (ExDataView { crypto_ctx: after.ex.crypto_ctx, ..drive.ex })
        }),
{
}

proof fn lemma_rounds_leave_settings_alone(start: Drive, count: nat)
    ensures
        ({
            let after = machine::drive_at(machine::rounds(start, count));
            &&& after.shake == (HandshakeView {
                connection: after.shake.connection,
                level: after.shake.level,
                parked: after.shake.parked,
                ..start.shake
            })
            &&& after.ex == (ExDataView { crypto_ctx: after.ex.crypto_ctx, ..start.ex })
        }),
    decreases count,
{
    if count > 0 {
        lemma_rounds_leave_settings_alone(start, (count - 1) as nat);
        if let Step::Running { drive } = machine::rounds(start, (count - 1) as nat) {
            if let Some(conn) = drive.shake.connection {
                law_round_leaves_settings_alone(drive, conn);
            }
        }
    }
}

/// A drive over a connection changes nothing of a handshake but its connection, its
/// level and what is parked, and nothing of the connection's state but the spaces
/// and the session. The level never falls, and what was queued in a space stays
/// there, in front.
pub proof fn law_drive_leaves_settings_alone(start: Drive)
    requires
        machine::has_end(start),
    ensures
        ({
            let after = machine::progress(start).1;
            &&& after.shake == (HandshakeView {
                connection: after.shake.connection,
                level: after.shake.level,
                parked: after.shake.parked,
                ..start.shake
            })
            &&& after.ex == (ExDataView {
                crypto_ctx: after.ex.crypto_ctx,
                session: after.ex.session,
                ..start.ex
            })
            &&& start.shake.level is ZeroRTT ==> after.shake.level !is Initial
            &&& start.shake.level is Handshake ==> after.shake.level is Handshake
                || after.shake.level is OneRTT
            &&& start.shake.level is OneRTT ==> after.shake.level is OneRTT
            &&& start.ex.crypto_ctx.initial.sent.is_prefix_of(after.ex.crypto_ctx.initial.sent)
            &&& start.ex.crypto_ctx.handshake.sent.is_prefix_of(after.ex.crypto_ctx.handshake.sent)
            &&& start.ex.crypto_ctx.application.sent.is_prefix_of(
                after.ex.crypto_ctx.application.sent,
            )
        }),
{
    let end = machine::driven(start);
    let count = choose|count: nat| #[trigger] machine::rounds(start, count) == end;
    lemma_rounds_leave_settings_alone(start, count);
    law_drive_keeps(start, end);
    law_finish_keeps(machine::drive_at(end));
    law_finishing_sends_nothing(machine::drive_at(end));
    law_kept_is_transitive(
        start,
        machine::drive_at(end),
        machine::finished(machine::drive_at(end)),
    );
}

/// Keys of the initial space are no business of a drive, nor are keys for 0-RTT
/// packets of any other space than that of application data.
pub proof fn law_drive_leaves_initial_keys_alone(start: Drive)
    requires
        machine::has_end(start),
    ensures
        ({
            let before = start.ex.crypto_ctx;
            let after = machine::progress(start).1.ex.crypto_ctx;
            &&& after.initial.open == before.initial.open
            &&& after.initial.seal == before.initial.seal
            &&& after.initial.zero_rtt_open == before.initial.zero_rtt_open
            &&& after.handshake.zero_rtt_open == before.handshake.zero_rtt_open
        }),
{
    let end = machine::driven(start);
    let count = choose|count: nat| #[trigger] machine::rounds(start, count) == end;
    lemma_rounds_leave_initial_keys(start, count);
}

proof fn lemma_rounds_leave_initial_keys(start: Drive, count: nat)
    ensures
        ({
            let before = start.ex.crypto_ctx;
            let after = machine::drive_at(machine::rounds(start, count)).ex.crypto_ctx;
            &&& after.initial.open == before.initial.open
            &&& after.initial.seal == before.initial.seal
            &&& after.initial.zero_rtt_open == before.initial.zero_rtt_open
            &&& after.handshake.zero_rtt_open == before.handshake.zero_rtt_open
        }),
    decreases count,
{
    if count > 0 {
        lemma_rounds_leave_initial_keys(start, (count - 1) as nat);
    }
}

/// A drive that succeeds has left the connection nothing to write: its last round
/// found no bytes, and the connection is what that round left.
pub proof fn law_drive_writes_everything(start: Drive)
    requires
        machine::has_end(start),
        machine::progress(start).0 is Ok,
    ensures
        exists|conn: Connection|
            {
                &&& #[trigger] connection::flight(conn).bytes.len() == 0
                &&& machine::progress(start).1.shake.connection == Some(
                    connection::flight(conn).rest,
                )
            },
{
    let end = machine::driven(start);
    let count = choose|count: nat| #[trigger] machine::rounds(start, count) == end;
    lemma_done_is_written(start, count);
}

proof fn lemma_done_is_written(start: Drive, count: nat)
    requires
        machine::rounds(start, count) is Done,
    ensures
        exists|conn: Connection|
            {
                &&& #[trigger] connection::flight(conn).bytes.len() == 0
                &&& machine::drive_at(machine::rounds(start, count)).shake.connection == Some(
                    connection::flight(conn).rest,
                )
            },
    decreases count,
{
    let last = machine::rounds(start, (count - 1) as nat);
    if let Step::Running { drive } = last {
        let conn = drive.shake.connection->0;
        law_round_takes_one_flight(drive, conn);
        assert(connection::flight(conn).bytes.len() == 0);
    } else {
        lemma_done_is_written(start, (count - 1) as nat);
    }
}

proof fn lemma_rounds_shift(start: Drive, conn: Connection, next: Drive, count: nat)
    requires
        start.shake.connection == Some(conn),
        machine::round(start, conn) == (Step::Running { drive: next }),
    ensures
        machine::rounds(start, count + 1) == machine::rounds(next, count),
    decreases count,
{
    if count == 0 {
        assert(machine::rounds(start, 0) == (Step::Running { drive: start }));
        assert(machine::rounds(start, 1) == machine::round(start, conn));
    } else {
        lemma_rounds_shift(start, conn, next, (count - 1) as nat);
    }
}

/// A drive is its first round and the drive from there. It succeeds with the round
/// that finds nothing to write, and fails with the one that fails.
pub proof fn law_drive_is_its_rounds(start: Drive, conn: Connection)
    requires
        start.shake.connection == Some(conn),
        machine::has_end(start),
    ensures
        match machine::round(start, conn) {
            Step::Running { drive } => {
                &&& machine::has_end(drive)
                &&& machine::progress(start) == machine::progress(drive)
            },
            Step::Done { drive } => machine::progress(start) == (
                Ok::<(), Error>(()),
                machine::finished(drive),
            ),
            Step::Failed { drive } => machine::progress(start) == (
                Err::<(), Error>(Error::TlsFail),
                drive,
            ),
        },
{
    let first = machine::round(start, conn);
    assert(machine::rounds(start, 0) == (Step::Running { drive: start }));
    assert(machine::rounds(start, 1) == first);
    if let Step::Running { drive: next } = first {
        let end = machine::driven(start);
        let count = choose|count: nat| #[trigger] machine::rounds(start, count) == end;
        assert(count > 0);
        lemma_rounds_shift(start, conn, next, (count - 1) as nat);
        assert(machine::rounds(next, (count - 1) as nat) == end);
        assert(machine::ends_as(next, end));
        machine::law_one_end(next, end);
        assert(machine::same_phase(start, machine::rounds(start, 1)));
        assert forall|n: nat| machine::same_phase(next, #[trigger] machine::rounds(next, n)) by {
            lemma_rounds_shift(start, conn, next, n);
            assert(machine::same_phase(start, machine::rounds(start, n + 1)));
        }
    } else {
        machine::law_one_end(start, first);
    }
}

/// A drive over a connection fails only for handshake keys that come at the
/// handshake level or after, or for bytes that come at the 0-RTT level.
pub proof fn law_drive_fails_for_a_cause(start: Drive)
    requires
        machine::has_end(start),
        start.shake.connection is Some,
        machine::progress(start).0 is Err,
    ensures
        exists|drive: Drive, conn: Connection|
            {
                &&& #[trigger] machine::round(drive, conn) is Failed
                &&& machine::drive_at(machine::round(drive, conn)) == machine::progress(start).1
                &&& {
                    ||| connection::flight(conn).bytes.len() > 0 && drive.shake.level is ZeroRTT
                    ||| connection::flight(conn).change is Some && connection::flight(
                        conn,
                    ).change->0 is Handshake && (drive.shake.level is Handshake
                        || drive.shake.level is OneRTT)
                }
            },
{
    let end = machine::driven(start);
    let count = choose|count: nat| #[trigger] machine::rounds(start, count) == end;
    lemma_failed_round(start, count);
    let (drive, conn) = choose|drive: Drive, conn: Connection|
        #[trigger] machine::round(drive, conn) == machine::rounds(start, count);
    law_round_takes_one_flight(drive, conn);
    assert(machine::round(drive, conn) is Failed);
}

proof fn lemma_failed_round(start: Drive, count: nat)
    requires
        machine::steady(start),
        start.shake.connection is Some,
        machine::rounds(start, count) is Failed,
    ensures
        exists|drive: Drive, conn: Connection|
            #[trigger] machine::round(drive, conn) == machine::rounds(start, count),
    decreases count,
{
    let last = machine::rounds(start, (count - 1) as nat);
    assert(machine::same_phase(start, last));
    if let Step::Running { drive } = last {
        let conn = drive.shake.connection->0;
        assert(machine::round(drive, conn) == machine::rounds(start, count));
    } else {
        lemma_failed_round(start, (count - 1) as nat);
    }
}

/// A drive fails with a TLS failure, and only where a round of it does.
pub proof fn law_drive_fails_with_a_round(start: Drive)
    requires
        machine::has_end(start),
    ensures
        machine::progress(start).0 is Ok <==> machine::driven(start) is Done,
        machine::progress(start).0 matches Err(error) ==> error == Error::TlsFail,
        machine::driven(start) is Failed ==> machine::progress(start).1 == machine::drive_at(
            machine::driven(start),
        ),
{
}

/// 0-RTT keys that a connection reports go to the application space if its place
/// for them is free: to send with on a client, to receive with on a server. The
/// level moves on from the first one only. Without such keys nothing changes.
pub proof fn law_early_keys_go_to_their_place(drive: Drive)
    ensures
        ({
            let after = machine::early_keys_installed(drive);
            let space = drive.ex.crypto_ctx.application;
            let conn = drive.shake.connection->0;
            let keys = connection::zero_rtt_keys(conn);
            if drive.shake.connection is Some && keys is Some {
                &&& after.ex.crypto_ctx.application.seal == if drive.shake.side is Client
                    && space.seal is None {
                    Some(Seal { keys: keys->0, next: None })
                } else {
                    space.seal
                }
                &&& after.ex.crypto_ctx.application.zero_rtt_open == if drive.shake.side is Server
                    && space.zero_rtt_open is None {
                    Some(Open { keys: keys->0, next: None })
                } else {
                    space.zero_rtt_open
                }
                &&& after.ex.crypto_ctx.application.open == space.open
                &&& after.ex.crypto_ctx.application.sent == space.sent
                &&& after.ex.crypto_ctx.initial == drive.ex.crypto_ctx.initial
                &&& after.ex.crypto_ctx.handshake == drive.ex.crypto_ctx.handshake
                &&& after.ex.session == drive.ex.session
                &&& after.ex.local_error == drive.ex.local_error
                &&& after.ex.pmtud == drive.ex.pmtud
                &&& after.shake.level == if drive.shake.level is Initial {
                    Level::ZeroRTT
                } else {
                    drive.shake.level
                }
                &&& after.shake == (HandshakeView { level: after.shake.level, ..drive.shake })
            } else {
                after == drive
            }
        }),
{
}

/// Once a drive has succeeded, 0-RTT keys that are reported then have found their
/// place: none is free.
pub proof fn law_drive_leaves_no_early_keys_out(start: Drive)
    requires
        machine::has_end(start),
        machine::progress(start).0 is Ok,
    ensures
        ({
            let end = machine::progress(start).1;
            end.shake.connection is Some && connection::zero_rtt_keys(end.shake.connection->0)
                is Some ==> {
                &&& end.shake.level !is Initial
                &&& end.shake.side is Client ==> end.ex.crypto_ctx.application.seal is Some
                &&& end.shake.side is Server ==> end.ex.crypto_ctx.application.zero_rtt_open is Some
            }
        }),
{
}

/// A client whose handshake is over has a session after a drive that succeeds: the
/// one that was there, or a blob of sixteen bytes of lengths and the parameters
/// that the peer sent, unless 0-RTT keys are around. A server leaves none, nor
/// does a handshake that is not over or a drive that fails.
pub proof fn law_completed_client_has_a_session(start: Drive)
    requires
        machine::has_end(start),
    ensures
        ({
            let (outcome, end) = machine::progress(start);
            let conn = end.shake.connection->0;
            let over = end.shake.connection is Some && !connection::handshaking(conn);
            if outcome is Ok && end.shake.side is Client && over && start.ex.session is None {
                &&& end.ex.session is Some
                &&& connection::zero_rtt_keys(conn) is None && connection::peer_params(conn) is Some
                    && connection::peer_params(conn)->0.len() <= u64::MAX ==> {
                    let blob = end.ex.session->0;
                    &&& blob.skip(16) == connection::peer_params(conn)->0
                    &&& session::session_elements(blob) == Some(
                        (Seq::<u8>::empty(), connection::peer_params(conn)->0),
                    )
                }
                &&& connection::zero_rtt_keys(conn) is Some || connection::peer_params(conn) is None
                    ==> end.ex.session->0.len() == 16
            } else {
                end.ex.session == start.ex.session
            }
        }),
{
    law_drive_leaves_one_session(start);
    let end = machine::progress(start).1;
    let conn = end.shake.connection->0;
    session::law_session_layout(Seq::empty());
    if connection::peer_params(conn) is Some && connection::peer_params(conn)->0.len() <= u64::MAX {
        session::law_session_layout(connection::peer_params(conn)->0);
        session::law_session_round_trip(Seq::empty(), connection::peer_params(conn)->0);
    }
    law_peer_params_are_shown(end.shake);
}

/// The parameters that are shown are those that the peer sent, of any connection
/// without 0-RTT keys, a resumed one as well; none are shown while 0-RTT keys are
/// around, before any have come, and without a connection.
pub proof fn law_peer_params_are_shown(shake: HandshakeView)
    ensures
        shake.connection matches Some(conn) ==> {
            &&& connection::zero_rtt_keys(conn) is None && connection::peer_params(conn) is Some
                ==> Some(machine::visible_params(shake)) == connection::peer_params(conn)
            &&& connection::zero_rtt_keys(conn) is Some || connection::peer_params(conn) is None
                ==> machine::visible_params(shake).len() == 0
        },
        shake.connection is None ==> machine::visible_params(shake).len() == 0,
        machine::visible_params(shake).len() == 0 ==> machine::visible_params(shake) == Seq::<
            u8,
        >::empty(),
{
    if machine::visible_params(shake).len() == 0 {
        assert(machine::visible_params(shake) =~= Seq::<u8>::empty());
    }
}

/// The certificates that are shown are those that the connection reports: as many,
/// the same at every place, and none if it reports none.
pub proof fn law_every_peer_certificate_is_shown(shake: HandshakeView)
    ensures
        shake.connection matches Some(conn) ==> match connection::peer_certificates(conn) {
            Some(certs) => {
                &&& machine::presented(shake).len() == certs.len()
                &&& forall|i: int|
                    0 <= i < certs.len() ==> #[trigger] machine::presented(shake)[i] == certs[i]
            },
            None => machine::presented(shake).len() == 0,
        },
        shake.connection is None ==> machine::presented(shake).len() == 0,
{
}

/// A handshake is over exactly if there is a connection that is not handshaking,
/// and has early data exactly if there is one with 0-RTT keys.
pub proof fn law_connection_tells_the_phase(shake: HandshakeView)
    ensures
        shake.connection matches Some(conn) ==> {
            &&& machine::completed(shake) == !connection::handshaking(conn)
            &&& machine::in_early_data(shake) == (connection::zero_rtt_keys(conn) is Some)
        },
        shake.connection is None ==> !machine::completed(shake) && !machine::in_early_data(shake),
{
}

/// The level to write at is the level itself, but for 0-RTT, whose CRYPTO data
/// goes out at the initial level.
pub proof fn law_writing_levels()
    ensures
        machine::writing_level(Level::Initial) == Level::Initial,
        machine::writing_level(Level::ZeroRTT) == Level::Initial,
        machine::writing_level(Level::Handshake) == Level::Handshake,
        machine::writing_level(Level::OneRTT) == Level::OneRTT,
{
}

/// Bytes written at a level are queued in the space of that level behind what is
/// there, and change nothing else; at the 0-RTT level none can be written.
pub proof fn law_bytes_are_queued_at_their_level(ex: ExDataView, level: Level, data: Seq<u8>)
    ensures
        machine::stream_written(ex, level, data) is None <==> level is ZeroRTT,
        machine::stream_written(ex, level, data) matches Some(after) ==> {
            let spaces = after.crypto_ctx;
            let before = ex.crypto_ctx;
            &&& spaces.initial == (CryptoContextView {
                sent: spaces.initial.sent,
                ..before.initial
            })
            &&& spaces.handshake == (CryptoContextView {
                sent: spaces.handshake.sent,
                ..before.handshake
            })
            &&& spaces.application == (CryptoContextView {
                sent: spaces.application.sent,
                ..before.application
            })
            &&& spaces.initial.sent == if level is Initial {
                before.initial.sent + data
            } else {
                before.initial.sent
            }
            &&& spaces.handshake.sent == if level is Handshake {
                before.handshake.sent + data
            } else {
                before.handshake.sent
            }
            &&& spaces.application.sent == if level is OneRTT {
                before.application.sent + data
            } else {
                before.application.sent
            }
            &&& after.session == ex.session
            &&& after.local_error == ex.local_error
            &&& after.pmtud == ex.pmtud
        },
{
}

/// A connection is closed by TLS, not by the application, for the reason given;
/// with 0x100 and the alert's number, or with 0x01 where there is no alert.
pub proof fn law_close_reason(alert: u8, reason: Seq<u8>)
    ensures
        machine::close_reason(Some(alert), reason).error_code == 0x100 + alert,
        machine::close_reason(None, reason).error_code == 0x01,
        machine::close_reason(Some(alert), reason).reason == reason,
        machine::close_reason(None, reason).reason == reason,
        !machine::close_reason(Some(alert), reason).is_app,
        !machine::close_reason(None, reason).is_app,
{
}

/// Recording a reason to close sets it if there was none, and changes nothing else.
pub proof fn law_reason_is_recorded(ex: ExDataView, error: ConnectionErrorView)
    ensures
        machine::recorded(ex, error) == (ExDataView {
            local_error: machine::recorded(ex, error).local_error,
            ..ex
        }),
        ex.local_error is None ==> machine::recorded(ex, error).local_error == Some(error),
        ex.local_error is Some ==> machine::recorded(ex, error).local_error == ex.local_error,
{
}

/// Reporting a failure takes it from the handshake, and touches nothing of it but
/// that.
pub proof fn law_reporting_takes_the_failure_only(start: Drive, error: ConnectionErrorView)
    ensures
        ({
            let (outcome, after) = machine::reported(start, error);
            &&& outcome == Err::<(), Error>(Error::TlsFail)
            &&& after.shake == (HandshakeView { pending: None, ..start.shake })
            &&& after.ex == (ExDataView { local_error: after.ex.local_error, ..start.ex })
            &&& after.ex.local_error == if start.ex.local_error is None {
                Some(error)
            } else {
                start.ex.local_error
            }
        }),
{
}

/// Bytes that a connection takes change nothing of the handshake but the
/// connection; those that it refuses leave a failure to be reported as well.
pub proof fn law_read_changes_the_connection(shake: HandshakeView, after: Connection)
    ensures
        machine::after_read(shake, after) == (HandshakeView {
            connection: Some(after),
            pending: machine::after_read(shake, after).pending,
            ..shake
        }),
        connection::refusal(after) is None ==> machine::after_read(shake, after).pending
            == shake.pending,
        connection::refusal(after) is Some ==> machine::after_read(shake, after).pending is Some,
{
}

/// No connection can be made without transport parameters, by a client that
/// verifies a server without a name, or by a server without a configuration;
/// otherwise nothing is missing.
pub proof fn law_settings_that_are_needed(shake: HandshakeView)
    ensures
        shake.params is None ==> machine::lacks_settings(shake),
        shake.side is Client && shake.verify && shake.hostname is None
            ==> machine::lacks_settings(shake),
        shake.side is Server && shake.server_config is None ==> machine::lacks_settings(shake),
        shake.side is Client && shake.params is Some && (!shake.verify || shake.hostname is Some)
            ==> !machine::lacks_settings(shake),
        shake.side is Server && shake.params is Some && shake.server_config is Some
            ==> !machine::lacks_settings(shake),
        machine::connects_next(shake) <==> shake.pending is None && shake.connection is None
            && !machine::lacks_settings(shake),
{
}

/// A drive that makes no connection is always within what rustls can encode; one
/// that makes a client's is if names and parameters fit a ClientHello, one that
/// makes a server's if the parameters leave 514 of 65535 bytes.
pub proof fn law_ready_to_connect(shake: HandshakeView)
    ensures
        !machine::connects_next(shake) ==> machine::ready(shake),
        machine::connects_next(shake) && shake.side is Client ==> (machine::ready(shake)
            <==> config::hello_fits(
            config::client_settings(shake.client_config).alpn,
            shake.params->0,
        )),
        machine::connects_next(shake) && shake.side is Server ==> (machine::ready(shake)
            <==> shake.params->0.len() + 514 <= 65535),
{
}

/// A client connects to the server that it was told the name of, and to a
/// placeholder if it was told none.
pub proof fn law_client_asks_for_its_server(shake: HandshakeView)
    ensures
        shake.hostname is Some ==> Some(machine::target_name(shake)) == shake.hostname,
        shake.hostname is None ==> machine::target_name(shake) == connection::parsed_name(
            "no.sni.invalid"@,
        )->0,
{
}

/// A connection that is made for a handshake is made from its configuration, its
/// QUIC version and its transport parameters, a client's for the server that it
/// asks for; and has read nothing, or on a server what had come before.
pub proof fn law_connection_is_made_from_settings(shake: HandshakeView, conn: Connection)
    requires
        shake.params is Some,
        shake.side is Server ==> shake.server_config is Some,
        machine::made_for(shake, conn),
    ensures
        match connection::origin(conn) {
            connection::Origin::Client { client_config, version, name, params } => {
                &&& shake.side is Client
                &&& client_config == shake.client_config
                &&& version == shake.version
                &&& name == machine::target_name(shake)
                &&& Some(params) == shake.params
                &&& connection::received(conn).len() == 0
                &&& connection::handshaking(conn)
            },
            connection::Origin::Server { server_config, version, params } => {
                &&& shake.side is Server
                &&& Some(server_config) == shake.server_config
                &&& version == shake.version
                &&& Some(params) == shake.params
                &&& shake.provided is Some ==> Some(connection::received(conn)) == shake.provided
                &&& shake.provided is None ==> connection::received(conn).len() == 0
            },
        },
{
}

/// With its connection a handshake gets nothing else; a server has no bytes left
/// that wait to be read, and a client those that it had.
pub proof fn law_joining_adds_the_connection(start: Drive, conn: Connection)
    ensures
        ({
            let after = machine::joined(start, conn);
            &&& after.ex == start.ex
            &&& after.shake == (HandshakeView {
                connection: Some(conn),
                provided: after.shake.provided,
                ..start.shake
            })
            &&& start.shake.side is Server ==> after.shake.provided is None
            &&& start.shake.side is Client ==> after.shake.provided == start.shake.provided
        }),
{
}

/// Where rustls makes no connection, the drive fails and nothing has changed;
/// where it makes one, the drive goes on with it.
pub proof fn law_answer_to_a_request(start: Drive, conn: Connection)
    ensures
        machine::connected(start, None) == (Err::<(), Error>(Error::TlsFail), start),
        machine::connected(start, Some(conn)) == machine::progress(machine::joined(start, conn)),
        machine::accepted(start, conn, None) == machine::progress(machine::joined(start, conn)),
{
}

/// A server whose connection refuses the first bytes of the client fails, keeps
/// neither bytes nor connection, and has the refusal on record as the reason to
/// close unless there was one.
pub proof fn law_refused_first_bytes_are_recorded(start: Drive, conn: Connection, reason: Seq<u8>)
    ensures
        ({
            let (outcome, after) = machine::accepted(start, conn, Some(reason));
            &&& outcome == Err::<(), Error>(Error::TlsFail)
            &&& after.shake == (HandshakeView { provided: None, ..start.shake })
            &&& after.ex == (ExDataView { local_error: after.ex.local_error, ..start.ex })
            &&& start.ex.local_error is Some ==> after.ex.local_error == start.ex.local_error
            &&& start.ex.local_error is None ==> {
                &&& after.ex.local_error matches Some(error)
                &&& error.reason == reason
                &&& !error.is_app
                &&& error.error_code == match connection::alert_number(conn) {
                    Some(alert) => 0x100 + alert,
                    None => 0x01,
                }
            }
        }),
{
}

/// The first drive succeeds only over a connection that was made from the settings
/// and refused nothing. It leaves no connection only if rustls made none, which it
/// always does for a server with a configuration for QUIC, or if a server's refused
/// what the client sent.
pub proof fn law_first_drive(start: Drive, outcome: Result<(), Error>, end: Drive)
    requires
        machine::connects_next(start.shake),
        machine::first_drive(start, (outcome, end)),
    ensures
        outcome is Ok ==> exists|conn: Connection|
            {
                &&& #[trigger] machine::made_for(start.shake, conn)
                &&& connection::refusal(conn) is None
                &&& machine::progress(machine::joined(start, conn)) == (outcome, end)
            },
        outcome matches Err(error) ==> error == Error::TlsFail,
        end.shake.connection is None && start.shake.side is Client ==> end == start,
        end.shake.connection is None && start.shake.side is Server && connection::serves_quic(
            config::server_settings(start.shake.server_config->0),
        ) ==> start.shake.provided is Some && end.shake.provided is None
            && end.ex.local_error is Some,
{
    if exists|conn: Connection|
        {
            &&& #[trigger] machine::made_for(start.shake, conn)
            &&& connection::refusal(conn) is None
            &&& machine::has_end(machine::joined(start, conn))
            &&& (outcome, end) == machine::connected(start, Some(conn))
        } {
        let conn = choose|conn: Connection|
            {
                &&& #[trigger] machine::made_for(start.shake, conn)
                &&& connection::refusal(conn) is None
                &&& machine::has_end(machine::joined(start, conn))
                &&& (outcome, end) == machine::connected(start, Some(conn))
            };
        let joined = machine::joined(start, conn);
        assert(machine::same_phase(joined, machine::driven(joined))) by {
            let count = choose|count: nat|
                #[trigger] machine::rounds(joined, count) == machine::driven(joined);
        }
        assert(machine::made_for(start.shake, conn));
    }
}

/// A drive that begins with a connection ends with one.
pub(crate) proof fn lemma_end_has_connection(start: Drive)
    requires
        machine::has_end(start),
        start.shake.connection is Some,
    ensures
        machine::progress(start).1.shake.connection is Some,
{
    let count = choose|count: nat|
        #[trigger] machine::rounds(start, count) == machine::driven(start);
    assert(machine::same_phase(start, machine::rounds(start, count)));
}

/// The suites of TLS 1.3 that QUIC knows, by their numbers; no other has an
/// algorithm.
pub proof fn law_suites_have_their_algorithms(suite: u16)
    ensures
        machine::suite_algorithm(0x1301) == Some(Algorithm::AES128_GCM),
        machine::suite_algorithm(0x1302) == Some(Algorithm::AES256_GCM),
        machine::suite_algorithm(0x1303) == Some(Algorithm::ChaCha20_Poly1305),
        suite < 0x1301 || suite > 0x1303 ==> machine::suite_algorithm(suite) is None,
{
}

} // verus!
