//! Packet protection keys and the packet number spaces they belong to.

use crate::types::{ConnectionError, ConnectionErrorView, Error};
use rustls::quic::{DirectionalKeys, Keys, Secrets};
use vstd::prelude::*;

verus! {

/// `rustls::quic::DirectionalKeys`: the keys of one direction, held unopened.
#[verifier::external_type_specification]
#[verifier::external_body]
pub struct ExDirectionalKeys(DirectionalKeys);

/// `rustls::quic::Keys`: the keys of both directions.
#[verifier::external_type_specification]
#[verifier::external_body]
pub struct ExKeys(Keys);

/// `rustls::quic::Secrets`: what later 1-RTT keys are derived from.
#[verifier::external_type_specification]
#[verifier::external_body]
pub struct ExSecrets(Secrets);

/// The `local` and `remote` fields of `keys`, in this order.
pub uninterp spec fn key_halves(keys: Keys) -> (DirectionalKeys, DirectionalKeys);

/// Takes `rustls::quic::Keys` apart into its public fields: the local keys,
/// which protect what is sent, and the remote ones, which open what arrives.
#[verifier::external_body]
fn split_keys(keys: Keys) -> (halves: (DirectionalKeys, DirectionalKeys))
    ensures
        halves == key_halves(keys),
{
    (keys.local, keys.remote)
}

/// `rustls::quic::Secrets::clone`: a second set of the same secrets.
#[verifier::external_body]
fn clone_secrets(secrets: &Secrets) -> (copy: Secrets)
    ensures
        copy == *secrets,
{
    secrets.clone()
}

/// Opens incoming packets.
pub struct Open {
    pub keys: DirectionalKeys,
    /// The secrets for key updates; only 1-RTT keys are ever updated.
    pub next: Option<Secrets>,
}

/// Protects outgoing packets.
pub struct Seal {
    pub keys: DirectionalKeys,
    /// The secrets for key updates; only 1-RTT keys are ever updated.
    pub next: Option<Secrets>,
}

/// What opens packets protected by the peer's half of `keys`.
pub open spec fn opening(keys: Keys, next: Option<Secrets>) -> Open {
    Open { keys: key_halves(keys).1, next }
}

/// What protects packets with the local half of `keys`.
pub open spec fn sealing(keys: Keys, next: Option<Secrets>) -> Seal {
    Seal { keys: key_halves(keys).0, next }
}

/// Turns a pair of keys into the two ends that a packet number space needs.
pub fn key_material_from_keys(keys: Keys, next: Option<Secrets>) -> (material: Result<
    (Open, Seal),
    Error,
>)
    ensures
        material == Ok::<(Open, Seal), Error>((opening(keys, next), sealing(keys, next))),
        material matches Ok((open, seal)) && {
            &&& open.keys == key_halves(keys).1
            &&& seal.keys == key_halves(keys).0
            &&& open.next == next
            &&& seal.next == next
        },
{
    let (local, remote) = split_keys(keys);
    let next_open = match &next {
        Some(secrets) => Some(clone_secrets(secrets)),
        None => None,
    };
    Ok((Open { keys: remote, next: next_open }, Seal { keys: local, next }))
}

/// The CRYPTO stream of a packet number space: the bytes still to be sent.
pub struct CryptoStream {
    pub send: Vec<u8>,
}

impl CryptoStream {
    /// Queues `data` behind what is already waiting.
    pub fn write(&mut self, data: &[u8])
        ensures
            final(self).send@ == old(self).send@ + data@,
    {
        self.send.extend_from_slice(data);
        assert(self.send@ =~= old(self).send@ + data@);
    }
}

/// Keys and CRYPTO stream of one packet number space.
pub struct CryptoContext {
    pub crypto_open: Option<Open>,
    pub crypto_seal: Option<Seal>,
    pub crypto_0rtt_open: Option<Open>,
    pub crypto_stream: CryptoStream,
}

/// Mathematical content of a [`CryptoContext`].
#[verifier::ext_equal]
pub struct CryptoContextView {
    pub open: Option<Open>,
    pub seal: Option<Seal>,
    pub zero_rtt_open: Option<Open>,
    pub sent: Seq<u8>,
}

impl View for CryptoContext {
    type V = CryptoContextView;

    open spec fn view(&self) -> CryptoContextView {
        CryptoContextView {
            open: self.crypto_open,
            seal: self.crypto_seal,
            zero_rtt_open: self.crypto_0rtt_open,
            sent: self.crypto_stream.send@,
        }
    }
}

impl CryptoContext {
    /// A space without keys and with nothing to send.
    pub fn new() -> (context: CryptoContext)
        ensures
            context@ == (CryptoContextView {
                open: None,
                seal: None,
                zero_rtt_open: None,
                sent: Seq::empty(),
            }),
    {
        CryptoContext {
            crypto_open: None,
            crypto_seal: None,
            crypto_0rtt_open: None,
            crypto_stream: CryptoStream { send: Vec::new() },
        }
    }
}

/// The three packet number spaces of a connection.
pub struct PacketSpaces {
    pub initial: CryptoContext,
    pub handshake: CryptoContext,
    pub application: CryptoContext,
}

/// Mathematical content of [`PacketSpaces`].
#[verifier::ext_equal]
pub struct PacketSpacesView {
    pub initial: CryptoContextView,
    pub handshake: CryptoContextView,
    pub application: CryptoContextView,
}

impl View for PacketSpaces {
    type V = PacketSpacesView;

    open spec fn view(&self) -> PacketSpacesView {
        PacketSpacesView {
            initial: self.initial@,
            handshake: self.handshake@,
            application: self.application@,
        }
    }
}

/// Connection state that driving the handshake reads and changes.
pub struct ExData {
    /// Keys and outgoing CRYPTO data, per packet number space.
    pub crypto_ctx: PacketSpaces,
    /// The blob with which a later connection resumes this session.
    pub session: Option<Vec<u8>>,
    /// Why this end closes the connection, once it does.
    pub local_error: Option<ConnectionError>,
    /// PMTUD configuration: (enable, max_probes)
    pub pmtud: Option<(bool, u8)>,
}

/// Mathematical content of [`ExData`].
#[verifier::ext_equal]
pub struct ExDataView {
    pub crypto_ctx: PacketSpacesView,
    pub session: Option<Seq<u8>>,
    pub local_error: Option<ConnectionErrorView>,
    pub pmtud: Option<(bool, u8)>,
}

impl View for ExData {
    type V = ExDataView;

    open spec fn view(&self) -> ExDataView {
        ExDataView {
            crypto_ctx: self.crypto_ctx@,
            session: match self.session {
                Some(blob) => Some(blob@),
                None => None,
            },
            local_error: match self.local_error {
                Some(error) => Some(error@),
                None => None,
            },
            pmtud: self.pmtud,
        }
    }
}

impl ExData {
    /// A connection without keys, session or error.
    pub fn new() -> (ex_data: ExData)
        ensures
            ex_data@.session is None,
            ex_data@.local_error is None,
            ex_data@.pmtud is None,
            ex_data@.crypto_ctx.initial == ex_data@.crypto_ctx.handshake,
            ex_data@.crypto_ctx.initial == ex_data@.crypto_ctx.application,
            ex_data@.crypto_ctx.initial == (CryptoContextView {
                open: None,
                seal: None,
                zero_rtt_open: None,
                sent: Seq::empty(),
            }),
    {
        ExData {
            crypto_ctx: PacketSpaces {
                initial: CryptoContext::new(),
                handshake: CryptoContext::new(),
                application: CryptoContext::new(),
            },
            session: None,
            local_error: None,
            pmtud: None,
        }
    }
}

} // verus!
