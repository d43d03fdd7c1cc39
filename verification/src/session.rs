//! The persistent, monotonically increasing session counter.
//!
//! The counter is stored as two big-endian bytes next to the key file.
//! Reading and writing that file is left to the caller; this module decides
//! the next session identifier from what was read.

use vstd::prelude::*;

use crate::error::FiudpError;
use crate::types::{be_u16, SessionId};

verus! {

/// The value of two big-endian bytes.
pub open spec fn decode_be_u16(bytes: Seq<u8>) -> int {
    bytes[0] as int * 256 + bytes[1] as int
}

/// The next session identifier, given the stored counter (`None` when no
/// counter is stored yet).
pub open spec fn session_after(stored: Option<Seq<u8>>) -> Result<int, FiudpError> {
    match stored {
        None => Ok(1),
        Some(bytes) => if bytes.len() != 2 {
            Err(FiudpError::InvalidSessionFile)
        } else if decode_be_u16(bytes) == u16::MAX {
            Err(FiudpError::SessionIdOverflow)
        } else {
            Ok(decode_be_u16(bytes) + 1)
        },
    }
}

/// Decide the next session identifier from the stored counter.
///
/// `stored` is the content of the counter file, or `None` when there is no
/// such file. Without a file the counter starts at 1; a file that is not
/// exactly 2 bytes long is `InvalidSessionFile`; a counter at `u16::MAX`
/// is `SessionIdOverflow` (the key must be rotated); otherwise the stored
/// value plus one.
pub fn next_session_id(stored: Option<&[u8]>) -> (r: Result<SessionId, FiudpError>)
    ensures
        ({
            let stored_view = match stored {
                Some(bytes) => Some(bytes@),
                None => None,
            };
            match session_after(stored_view) {
                Ok(next) => r is Ok && r->Ok_0@ == next,
                Err(e) => r == Err::<SessionId, FiudpError>(e),
            }
        }),
{
    match stored {
        None => Ok(SessionId::new(1)),
        Some(bytes) => {
            if bytes.len() != 2 {
                return Err(FiudpError::InvalidSessionFile);
            }
            let current: u16 = bytes[0] as u16 * 256 + bytes[1] as u16;
            if current == u16::MAX {
                return Err(FiudpError::SessionIdOverflow);
            }
            Ok(SessionId::new(current + 1))
        },
    }
}

/// Session identifiers increase strictly: a counter written as the
/// big-endian bytes of `current` is read back as `current`, and the next
/// identifier is `current + 1`, until the counter reaches `u16::MAX`, where
/// the key must be rotated. The first identifier is 1.
pub proof fn law_session_ids_increase(current: u16)
    ensures
        decode_be_u16(be_u16(current)) == current,
        session_after(None) == Ok::<int, FiudpError>(1),
        current < u16::MAX ==> session_after(Some(be_u16(current))) == Ok::<int, FiudpError>(
            current + 1,
        ),
        current == u16::MAX ==> session_after(Some(be_u16(current))) == Err::<int, FiudpError>(
            FiudpError::SessionIdOverflow,
        ),
{
}

} // verus!
