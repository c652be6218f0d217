# litep2p

Peer-to-peer protocols whose logic is verified with Verus.

`src/` is the library: peer identities, addresses, the framing of encrypted connections, and the
protocols themselves. Each protocol is a state machine. An input goes in (an event of the transport,
a command of the user, the outcome of something that was asked for), and the actions that it leads
to come out. The contract of each function says exactly which state and which actions follow.
Substreams are values of a type parameter, which the library moves and never looks into.

* `peer_id`, `address`, `varint`, `time`, `random`: what the protocols are made of.
* `collections`: maps and sets that keep the order of insertion.
* `noise`: frames of encrypted messages.
* `protocol::connection`, `protocol::protocol_set`, `protocol::transport_service`: what protocols see
  of connections.
* `protocol::notification`: notification streams.
* `protocol::request_response`: requests and responses.
* `protocol::libp2p`: ping, identify, Bitswap and Kademlia.

Properties that span several functions are proof functions whose names begin with `law_`, next to
what they are about or in the `laws` modules.

What comes from other crates (hashing, base 58, multiaddresses, content identifiers, variable-length
integers, Noise sessions, randomness) stands behind small functions marked
`#[verifier::external_body]`. The comment of each says what is taken for granted.

`app/` is a program around the library: it listens for connections, and runs the state machines with
sockets, channels and timers. `tests/` holds the tests of the library.
