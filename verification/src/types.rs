//! Plain values shared by the configuration and the handshake.

use vstd::prelude::*;

verus! {

/// What can go wrong while configuring TLS or driving a handshake.
#[derive(Clone, Copy, Debug, PartialEq, Eq, Structural)]
pub enum Error {
    /// The encoded transport parameters do not fit the buffer reserved for
    /// them.
    BufferTooShort,
    /// TLS refused its input: bad credentials, a missing setting, a fatal
    /// alert.
    TlsFail,
}

/// Encryption levels, from the first packet to application data.
#[derive(Clone, Copy, Debug, PartialEq, Eq, Structural)]
pub enum Level {
    Initial,
    ZeroRTT,
    Handshake,
    OneRTT,
}

impl Level {
    /// Position of the level in the order in which a connection reaches them.
    pub open spec fn rank(self) -> int {
        match self {
            Level::Initial => 0,
            Level::ZeroRTT => 1,
            Level::Handshake => 2,
            Level::OneRTT => 3,
        }
    }
}

/// Which end of the connection this is.
#[derive(Clone, Copy, Debug, PartialEq, Eq, Structural)]
pub enum Side {
    Client,
    Server,
}

/// QUIC versions that TLS tells apart.
#[derive(Clone, Copy, Debug, PartialEq, Eq, Structural)]
pub enum Version {
    V1Draft,
    V1,
    V2,
}

impl Default for Version {
    fn default() -> (version: Version)
        ensures
            version == Version::V1,
    {
        Version::V1
    }
}

/// How the handshake went.
#[derive(Clone, Copy, Debug, PartialEq, Eq, Structural)]
pub enum HandshakeKind {
    Full,
    FullWithHelloRetryRequest,
    Resumed,
}

/// Packet protection algorithms.
#[allow(non_camel_case_types)]
#[derive(Clone, Copy, Debug, PartialEq, Eq, Structural)]
pub enum Algorithm {
    AES128_GCM,
    AES256_GCM,
    ChaCha20_Poly1305,
}

/// Why a connection is closed.
#[derive(Clone, Debug)]
pub struct ConnectionError {
    /// Whether the application, rather than QUIC itself, closes.
    pub is_app: bool,
    /// The code carried by the CONNECTION_CLOSE frame.
    pub error_code: u64,
    /// A description for the peer's log.
    pub reason: Vec<u8>,
}

/// Mathematical content of a [`ConnectionError`].
#[verifier::ext_equal]
pub struct ConnectionErrorView {
    pub is_app: bool,
    pub error_code: u64,
    pub reason: Seq<u8>,
}

impl View for ConnectionError {
    type V = ConnectionErrorView;

    open spec fn view(&self) -> ConnectionErrorView {
        ConnectionErrorView {
            is_app: self.is_app,
            error_code: self.error_code,
            reason: self.reason@,
        }
    }
}

/// The byte strings that a list of vectors holds.
pub open spec fn byte_strings(list: Seq<Vec<u8>>) -> Seq<Seq<u8>> {
    list.map_values(|item: Vec<u8>| item@)
}

/// A fresh copy of `bytes`.
pub(crate) fn copy_bytes(bytes: &[u8]) -> (copy: Vec<u8>)
    ensures
        copy@ == bytes@,
{
    let mut copy: Vec<u8> = Vec::new();
    copy.extend_from_slice(bytes);
    assert(copy@ =~= bytes@);
    copy
}

/// A fresh copy of every byte string in `list`.
pub(crate) fn copy_byte_strings(list: &Vec<Vec<u8>>) -> (copy: Vec<Vec<u8>>)
    ensures
        byte_strings(copy@) == byte_strings(list@),
{
    let mut copy: Vec<Vec<u8>> = Vec::new();
    let mut i: usize = 0;
    while i < list.len()
        invariant
            i <= list.len(),
            copy.len() == i,
            forall|j: int| 0 <= j < i ==> (#[trigger] copy@[j])@ == list@[j]@,
        decreases list.len() - i,
    {
        copy.push(copy_bytes(list[i].as_slice()));
        i += 1;
    }
    assert(byte_strings(copy@) =~= byte_strings(list@));
    copy
}

} // verus!
