//! FIUDP sender library.
//!
//! A frame (an opaque byte stream, typically a raw BMP image) is zero-padded
//! to whole 1400-byte shards, Reed-Solomon parity shards are added, every
//! shard is encrypted with ChaCha20-Poly1305 under a 256-bit pre-shared key
//! with its packet header as associated data, and the packets are handed to
//! a transport one at a time.
//!
//! | Module       | Responsibility                                        |
//! |--------------|-------------------------------------------------------|
//! | `config`     | validated configuration, builder, parity ratio         |
//! | `crypto`     | AEAD encryption, nonce derivation, key checking        |
//! | `error`      | the `FiudpError` enum                                  |
//! | `fec`        | Reed-Solomon forward error correction                  |
//! | `protocol`   | wire-format constants, packet assembly, frame padding  |
//! | `sender`     | the transmission pipeline of one frame                 |
//! | `session`    | the monotonic session counter                          |
//! | `types`      | semantic newtypes for wire-format fields               |

pub mod config;
pub mod crypto;
pub mod error;
pub mod fec;
pub mod protocol;
pub mod sender;
pub mod session;
pub mod types;

pub use config::{Config, ConfigBuilder, InputReader, InputSource, ParityRatio};
pub use crypto::{derive_nonce, key_from_bytes, ChaChaEncryptor, Encryptor};
pub use error::FiudpError;
pub use fec::{FecEngine, ReedSolomonEngine};
pub use protocol::{
    pad_to_shard_size, PacketBuilder, AAD_SIZE, DATA_SHARDS_OFFSET, DATA_SHARDS_SIZE,
    HEADER_SIZE, NONCE_SIZE, PACKET_SIZE, PARITY_SHARDS_OFFSET, PARITY_SHARDS_SIZE,
    PAYLOAD_OFFSET, RENDEZVOUS_OFFSET, RENDEZVOUS_SIZE, SESSION_ID_OFFSET, SESSION_ID_SIZE,
    SHARD_INDEX_OFFSET, SHARD_INDEX_SIZE, SHARD_SIZE, TAG_OFFSET, TAG_SIZE,
};
pub use sender::{code_frame, encode_frame, CodedFrame, FiudpSender, PacketSender, PreparedFrame};
pub use session::next_session_id;
pub use types::{DataShardCount, ParityShardCount, RendezvousSecs, SessionId, ShardIndex};
