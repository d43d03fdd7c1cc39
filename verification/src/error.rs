//! The error type shared by every fallible operation of the library.

use vstd::prelude::*;

verus! {

/// Lets an operating-system I/O error travel inside [`FiudpError::Io`].
#[verifier::external_type_specification]
#[verifier::external_body]
pub struct ExIoError(std::io::Error);

/// Every failure mode of the FIUDP sender.
#[derive(Debug)]
pub enum FiudpError {
    /// An operating-system I/O operation failed.
    Io {
        /// What was being attempted.
        context: String,
        /// The underlying error.
        source: std::io::Error,
    },
    /// The pre-shared key is not exactly 32 bytes long.
    InvalidKeyLength(usize),
    /// The persisted session counter is not exactly 2 bytes long.
    InvalidSessionFile,
    /// The session counter reached `u16::MAX`: the key must be rotated.
    SessionIdOverflow,
    /// The input frame holds no byte.
    EmptyInput,
    /// The frame needs more than `u16::MAX` shards (data and parity).
    TooManyShards(usize),
    /// A shard payload does not have the fixed shard size.
    InvalidShardSize {
        /// Length of the payload that was handed over.
        actual: usize,
        /// The required length.
        expected: usize,
    },
    /// The parity ratio is above 100 percent.
    InvalidParityRatio(u8),
    /// The AEAD encryption failed.
    Encryption(String),
    /// The forward error correction failed.
    Fec(String),
    /// The transport accepted fewer bytes than the packet holds.
    ShortSend {
        /// Bytes accepted by the transport.
        sent: usize,
        /// Bytes in the packet.
        expected: usize,
    },
}

} // verus!
