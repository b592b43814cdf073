# quic_tls

TLS 1.3 for QUIC connections on top of rustls, verified with Verus.

A `Context` holds the TLS settings of an endpoint and builds rustls
configurations from them. A `Handshake` made from it is handed the CRYPTO data
of the peer, driven, and leaves packet protection keys, CRYPTO data to be sent
and a session blob in `ExData`.

- `src/types.rs`: errors, levels, sides and other plain values
- `src/session.rs`: the session blob, with its encoding
- `src/crypto.rs`: keys and packet number spaces
- `src/pem.rs`, `src/roots.rs`: PEM text and root stores
- `src/config.rs`, `src/verifiers.rs`: rustls configurations and certificate
  verifiers
- `src/context.rs`: the settings, and what is built from them
- `src/connection.rs`: what is asked of a rustls connection
- `src/machine.rs`: the handshake as a mathematical state machine
- `src/handshake.rs`: the handshake that follows it
- `src/laws.rs`: what holds of handshakes as a whole
- `app/`: files, the trust store of the host and the environment

The functions marked `external_body` are the boundary to rustls. Each names the
function it calls and states what is relied upon.
