//! FIUDP wire-format constants, packet assembly and frame padding.
//!
//! A packet is the 12-byte header (the AEAD associated data), the 16-byte
//! Poly1305 tag and the 1400-byte encrypted shard, in that order.

use vstd::prelude::*;

use crate::error::FiudpError;
use crate::types::{
    be_u16, be_u32, DataShardCount, ParityShardCount, RendezvousSecs, SessionId, ShardIndex,
};

verus! {

/// Fixed shard payload size in bytes.
pub const SHARD_SIZE: usize = 1400;

/// AEAD nonce length in bytes (ChaCha20-Poly1305).
pub const NONCE_SIZE: usize = 12;

/// AEAD authentication tag length in bytes (Poly1305).
pub const TAG_SIZE: usize = 16;

/// Size of the `rendezvous_secs` header field in bytes.
pub const RENDEZVOUS_SIZE: usize = 4;

/// Size of the `session_id` header field in bytes.
pub const SESSION_ID_SIZE: usize = 2;

/// Size of the `shard_index` header field in bytes.
pub const SHARD_INDEX_SIZE: usize = 2;

/// Size of the `data_shards` header field in bytes.
pub const DATA_SHARDS_SIZE: usize = 2;

/// Size of the `parity_shards` header field in bytes.
pub const PARITY_SHARDS_SIZE: usize = 2;

/// Size of the associated data: the five header fields, 12 bytes.
pub const AAD_SIZE: usize = SESSION_ID_SIZE + SHARD_INDEX_SIZE + DATA_SHARDS_SIZE
    + PARITY_SHARDS_SIZE + RENDEZVOUS_SIZE;

/// Header size in bytes: associated data and tag, 28 bytes.
pub const HEADER_SIZE: usize = AAD_SIZE + TAG_SIZE;

/// Size of every packet in bytes: header and shard, 1428 bytes.
pub const PACKET_SIZE: usize = HEADER_SIZE + SHARD_SIZE;

/// Byte offset of `session_id` in the packet.
pub const SESSION_ID_OFFSET: usize = 0;

/// Byte offset of `shard_index` in the packet.
pub const SHARD_INDEX_OFFSET: usize = SESSION_ID_OFFSET + SESSION_ID_SIZE;

/// Byte offset of `data_shards` in the packet.
pub const DATA_SHARDS_OFFSET: usize = SHARD_INDEX_OFFSET + SHARD_INDEX_SIZE;

/// Byte offset of `parity_shards` in the packet.
pub const PARITY_SHARDS_OFFSET: usize = DATA_SHARDS_OFFSET + DATA_SHARDS_SIZE;

/// Byte offset of `rendezvous_secs` in the packet.
pub const RENDEZVOUS_OFFSET: usize = PARITY_SHARDS_OFFSET + PARITY_SHARDS_SIZE;

/// Byte offset of the AEAD tag in the packet.
pub const TAG_OFFSET: usize = RENDEZVOUS_OFFSET + RENDEZVOUS_SIZE;

/// Byte offset of the encrypted shard in the packet.
pub const PAYLOAD_OFFSET: usize = TAG_OFFSET + TAG_SIZE;

/// The associated data of a packet: the five header fields in wire order.
pub open spec fn header_aad(
    session_id: u16,
    shard_index: u16,
    data_shards: u16,
    parity_shards: u16,
    rendezvous_secs: u32,
) -> Seq<u8> {
    be_u16(session_id) + be_u16(shard_index) + be_u16(data_shards) + be_u16(parity_shards)
        + be_u32(rendezvous_secs)
}

/// The bytes of a packet: associated data, tag, then encrypted shard.
pub open spec fn packet_bytes(aad: Seq<u8>, tag: Seq<u8>, payload: Seq<u8>) -> Seq<u8> {
    aad + tag + payload
}

/// Length of a frame of `n` bytes once zero-padded to whole shards.
pub open spec fn padded_len(n: nat) -> nat {
    if n % (SHARD_SIZE as nat) == 0 {
        n
    } else {
        (n + (SHARD_SIZE - n % (SHARD_SIZE as nat))) as nat
    }
}

/// A frame zero-padded to whole shards.
pub open spec fn padded_frame(frame: Seq<u8>) -> Seq<u8> {
    frame + Seq::new((padded_len(frame.len()) - frame.len()) as nat, |i: int| 0u8)
}

/// Assembles FIUDP packets for one session.
///
/// The session-level fields are fixed at construction; only the shard
/// index varies from packet to packet.
pub struct PacketBuilder {
    session_id: SessionId,
    rendezvous_secs: RendezvousSecs,
    data_shards: DataShardCount,
    parity_shards: ParityShardCount,
}

impl PacketBuilder {
    /// The associated data that this builder produces for shard `index`.
    pub closed spec fn aad_for(&self, index: u16) -> Seq<u8> {
        header_aad(
            self.session_id@,
            index,
            self.data_shards@,
            self.parity_shards@,
            self.rendezvous_secs@,
        )
    }

    /// Create a builder for one session.
    pub fn new(
        session_id: SessionId,
        rendezvous_secs: RendezvousSecs,
        data_shards: DataShardCount,
        parity_shards: ParityShardCount,
    ) -> (r: Self)
        ensures
            forall|index: u16|
                #[trigger] r.aad_for(index) == header_aad(
                    session_id@,
                    index,
                    data_shards@,
                    parity_shards@,
                    rendezvous_secs@,
                ),
    {
        PacketBuilder { session_id, rendezvous_secs, data_shards, parity_shards }
    }

    /// Build the 12-byte associated data for shard `shard_index`.
    pub fn build_aad(&self, shard_index: ShardIndex) -> (r: [u8; AAD_SIZE])
        ensures
            r@ == self.aad_for(shard_index@),
    {
        let s = self.session_id.to_be_bytes();
        let i = shard_index.to_be_bytes();
        let d = self.data_shards.to_be_bytes();
        let p = self.parity_shards.to_be_bytes();
        let t = self.rendezvous_secs.to_be_bytes();
        let r = [s[0], s[1], i[0], i[1], d[0], d[1], p[0], p[1], t[0], t[1], t[2], t[3]];
        assert(r@ =~= self.aad_for(shard_index@));
        r
    }

    /// Write a complete packet into `out`.
    ///
    /// Fails with `InvalidShardSize`, leaving `out` untouched, when the
    /// payload is not exactly one shard long.
    pub fn write_packet(
        &self,
        out: &mut [u8; PACKET_SIZE],
        aad: &[u8; AAD_SIZE],
        tag: &[u8; TAG_SIZE],
        payload: &[u8],
    ) -> (r: Result<(), FiudpError>)
        ensures
            payload@.len() == SHARD_SIZE <==> r is Ok,
            r is Ok ==> final(out)@ == packet_bytes(aad@, tag@, payload@),
            r is Err ==> r == Err::<(), FiudpError>(
                FiudpError::InvalidShardSize { actual: payload@.len() as usize, expected: SHARD_SIZE },
            ),
            r is Err ==> final(out)@ == old(out)@,
    {
        if payload.len() != SHARD_SIZE {
            return Err(FiudpError::InvalidShardSize { actual: payload.len(), expected: SHARD_SIZE });
        }
        let ghost want = packet_bytes(aad@, tag@, payload@);
        let mut k: usize = 0;
        while k < PACKET_SIZE
            invariant
                k <= PACKET_SIZE,
                payload@.len() == SHARD_SIZE,
                want == packet_bytes(aad@, tag@, payload@),
                want.len() == PACKET_SIZE,
                forall|j: int| 0 <= j < k ==> out@[j] == want[j],
            decreases PACKET_SIZE - k,
        {
            let b: u8 = if k < AAD_SIZE {
                aad[k]
            } else if k < PAYLOAD_OFFSET {
                tag[k - AAD_SIZE]
            } else {
                payload[k - PAYLOAD_OFFSET]
            };
            out[k] = b;
            k = k + 1;
        }
        assert(out@ =~= want);
        Ok(())
    }
}

/// Zero-pad `buf` so that its length is a multiple of [`SHARD_SIZE`].
///
/// A buffer whose length is already a multiple is left as it is.
pub fn pad_to_shard_size(buf: &mut Vec<u8>)
    requires
        padded_len(old(buf)@.len()) <= usize::MAX,
    ensures
        final(buf)@ == padded_frame(old(buf)@),
{
    let rem: usize = buf.len() % SHARD_SIZE;
    if rem == 0 {
        assert(buf@ =~= padded_frame(buf@));
        return;
    }
    let new_len: usize = buf.len() + (SHARD_SIZE - rem);
    let ghost start = buf@;
    while buf.len() < new_len
        invariant
            start.len() <= buf@.len() <= new_len,
            new_len == padded_len(start.len()),
            buf@.subrange(0, start.len() as int) == start,
            forall|j: int| start.len() <= j < buf@.len() ==> buf@[j] == 0u8,
        decreases new_len - buf@.len(),
    {
        buf.push(0u8);
    }
    assert(buf@ =~= padded_frame(start));
}

/// Every packet is exactly [`PACKET_SIZE`] bytes, and each header field,
/// the tag and the encrypted shard sit at their documented offsets.
pub proof fn law_packet_layout(
    session_id: u16,
    shard_index: u16,
    data_shards: u16,
    parity_shards: u16,
    rendezvous_secs: u32,
    tag: Seq<u8>,
    payload: Seq<u8>,
)
    requires
        tag.len() == TAG_SIZE,
        payload.len() == SHARD_SIZE,
    ensures
        ({
            let packet = packet_bytes(
                header_aad(session_id, shard_index, data_shards, parity_shards, rendezvous_secs),
                tag,
                payload,
            );
            &&& packet.len() == PACKET_SIZE
            &&& packet.subrange(SESSION_ID_OFFSET as int, SHARD_INDEX_OFFSET as int) == be_u16(
                session_id,
            )
            &&& packet.subrange(SHARD_INDEX_OFFSET as int, DATA_SHARDS_OFFSET as int) == be_u16(
                shard_index,
            )
            &&& packet.subrange(DATA_SHARDS_OFFSET as int, PARITY_SHARDS_OFFSET as int) == be_u16(
                data_shards,
            )
            &&& packet.subrange(PARITY_SHARDS_OFFSET as int, RENDEZVOUS_OFFSET as int) == be_u16(
                parity_shards,
            )
            &&& packet.subrange(RENDEZVOUS_OFFSET as int, TAG_OFFSET as int) == be_u32(
                rendezvous_secs,
            )
            &&& packet.subrange(TAG_OFFSET as int, PAYLOAD_OFFSET as int) == tag
            &&& packet.subrange(PAYLOAD_OFFSET as int, PACKET_SIZE as int) == payload
        }),
{
    let aad = header_aad(session_id, shard_index, data_shards, parity_shards, rendezvous_secs);
    let packet = packet_bytes(aad, tag, payload);
    assert(packet.subrange(0, 2) =~= be_u16(session_id));
    assert(packet.subrange(2, 4) =~= be_u16(shard_index));
    assert(packet.subrange(4, 6) =~= be_u16(data_shards));
    assert(packet.subrange(6, 8) =~= be_u16(parity_shards));
    assert(packet.subrange(8, 12) =~= be_u32(rendezvous_secs));
    assert(packet.subrange(12, 28) =~= tag);
    assert(packet.subrange(28, 1428) =~= payload);
}

/// Big-endian encodings of distinct 16-bit values differ.
pub proof fn lemma_be_u16_injective(a: u16, b: u16)
    ensures
        be_u16(a) == be_u16(b) ==> a == b,
{
    if be_u16(a) == be_u16(b) {
        assert(be_u16(a)[0] == be_u16(b)[0] && be_u16(a)[1] == be_u16(b)[1]);
    }
}

/// Big-endian encodings of distinct 32-bit values differ.
pub proof fn lemma_be_u32_injective(a: u32, b: u32)
    ensures
        be_u32(a) == be_u32(b) ==> a == b,
{
    if be_u32(a) == be_u32(b) {
        assert(be_u32(a)[0] == be_u32(b)[0] && be_u32(a)[1] == be_u32(b)[1]);
        assert(be_u32(a)[2] == be_u32(b)[2] && be_u32(a)[3] == be_u32(b)[3]);
    }
}

/// The associated data determines every header field: two packets whose
/// headers differ in any field have different associated data, so a
/// tampered header fails authentication.
pub proof fn law_header_determines_fields(
    session_a: u16,
    index_a: u16,
    data_a: u16,
    parity_a: u16,
    rendezvous_a: u32,
    session_b: u16,
    index_b: u16,
    data_b: u16,
    parity_b: u16,
    rendezvous_b: u32,
)
    ensures
        header_aad(session_a, index_a, data_a, parity_a, rendezvous_a) == header_aad(
            session_b,
            index_b,
            data_b,
            parity_b,
            rendezvous_b,
        ) ==> session_a == session_b && index_a == index_b && data_a == data_b && parity_a
            == parity_b && rendezvous_a == rendezvous_b,
{
    let a = header_aad(session_a, index_a, data_a, parity_a, rendezvous_a);
    let b = header_aad(session_b, index_b, data_b, parity_b, rendezvous_b);
    if a == b {
        assert(a.subrange(0, 2) =~= be_u16(session_a));
        assert(b.subrange(0, 2) =~= be_u16(session_b));
        assert(a.subrange(2, 4) =~= be_u16(index_a));
        assert(b.subrange(2, 4) =~= be_u16(index_b));
        assert(a.subrange(4, 6) =~= be_u16(data_a));
        assert(b.subrange(4, 6) =~= be_u16(data_b));
        assert(a.subrange(6, 8) =~= be_u16(parity_a));
        assert(b.subrange(6, 8) =~= be_u16(parity_b));
        assert(a.subrange(8, 12) =~= be_u32(rendezvous_a));
        assert(b.subrange(8, 12) =~= be_u32(rendezvous_b));
        lemma_be_u16_injective(session_a, session_b);
        lemma_be_u16_injective(index_a, index_b);
        lemma_be_u16_injective(data_a, data_b);
        lemma_be_u16_injective(parity_a, parity_b);
        lemma_be_u32_injective(rendezvous_a, rendezvous_b);
    }
}

/// Padding yields a whole number of shards, adds fewer than one shard of
/// zeros after the untouched frame, and changes nothing on a frame that is
/// already whole shards long.
pub proof fn law_padding(frame: Seq<u8>)
    ensures
        padded_len(frame.len()) % (SHARD_SIZE as nat) == 0,
        frame.len() <= padded_len(frame.len()) < frame.len() + SHARD_SIZE,
        padded_frame(frame).len() == padded_len(frame.len()),
        padded_frame(frame).subrange(0, frame.len() as int) == frame,
        forall|i: int|
            frame.len() <= i < padded_frame(frame).len() ==> #[trigger] padded_frame(frame)[i]
                == 0u8,
        frame.len() % (SHARD_SIZE as nat) == 0 ==> padded_frame(frame) == frame,
        padded_frame(padded_frame(frame)) == padded_frame(frame),
{
    let p = padded_frame(frame);
    assert(p.subrange(0, frame.len() as int) =~= frame);
    if frame.len() % (SHARD_SIZE as nat) == 0 {
        assert(p =~= frame);
    }
    assert(padded_frame(p) =~= p);
}

} // verus!
