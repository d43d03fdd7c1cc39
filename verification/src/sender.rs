//! The FIUDP transmission pipeline of one frame.
//!
//! A frame is zero-padded to whole shards, the parity shards are computed,
//! every shard is encrypted under its own nonce with its packet header as
//! associated data, and the packets are assembled. Transmission hands the
//! packets to a [`PacketSender`] one at a time.

use rand::seq::SliceRandom;
use rand::Rng;
use vstd::prelude::*;

use crate::config::{parity_shards_for, InputReader, ParityRatio};
use crate::crypto::{derive_nonce, law_nonce_unique, nonce_bytes, Encryptor};
use crate::error::FiudpError;
use crate::fec::{FecEngine, ReedSolomonEngine};
use crate::protocol::{
    header_aad, pad_to_shard_size, packet_bytes, padded_frame, padded_len, PacketBuilder,
    AAD_SIZE, PACKET_SIZE, SHARD_SIZE,
};
use crate::types::{DataShardCount, ParityShardCount, RendezvousSecs, SessionId, ShardIndex};

verus! {

/// Largest number of shards (data and parity) of one frame.
pub const MAX_TOTAL_SHARDS: usize = 65535;

/// Number of data shards of a frame of `len` bytes.
pub open spec fn data_shard_count(len: nat) -> nat {
    padded_len(len) / (SHARD_SIZE as nat)
}

/// The data shards of a frame: its zero-padded bytes cut into shards.
pub open spec fn data_shards_of(frame: Seq<u8>) -> Seq<Seq<u8>> {
    let padded = padded_frame(frame);
    Seq::new(
        data_shard_count(frame.len()),
        |i: int| padded.subrange(i * SHARD_SIZE, i * SHARD_SIZE + SHARD_SIZE),
    )
}

/// `n` parity buffers of zeros, one shard long each.
pub open spec fn zero_shards(n: nat) -> Seq<Seq<u8>> {
    Seq::new(n, |i: int| Seq::new(SHARD_SIZE as nat, |j: int| 0u8))
}

/// The shards handed to the erasure coder: data shards, then zeroed parity buffers.
pub open spec fn unencoded_shards(frame: Seq<u8>, parity_shards: nat) -> Seq<Seq<u8>> {
    data_shards_of(frame) + zero_shards(parity_shards)
}

/// All shards of a frame once the parity shards are filled in.
pub open spec fn coded_shards<F: FecEngine>(fec: F, frame: Seq<u8>, parity_shards: nat) -> Seq<Seq<u8>> {
    if parity_shards == 0 {
        data_shards_of(frame)
    } else {
        fec.encoded(
            data_shard_count(frame.len()),
            parity_shards,
            unencoded_shards(frame, parity_shards),
        )
    }
}

/// The packet that carries shard `index` of a session.
pub open spec fn shard_packet<E: Encryptor>(
    encryptor: E,
    session_id: u16,
    rendezvous_secs: u32,
    data_shards: u16,
    parity_shards: u16,
    index: u16,
    shard: Seq<u8>,
) -> Seq<u8> {
    let aad = header_aad(session_id, index, data_shards, parity_shards, rendezvous_secs);
    let sealed = encryptor.sealed(nonce_bytes(session_id, index), aad, shard);
    packet_bytes(aad, sealed.1, sealed.0)
}

/// All packets of a frame, data shards first, then parity shards.
pub open spec fn frame_packets<F: FecEngine, E: Encryptor>(
    fec: F,
    encryptor: E,
    frame: Seq<u8>,
    parity_ratio: u8,
    rendezvous_secs: u32,
    session_id: u16,
) -> Seq<Seq<u8>> {
    let d = data_shard_count(frame.len());
    let p = parity_shards_for(parity_ratio, d);
    let shards = coded_shards(fec, frame, p);
    Seq::new(
        d + p,
        |i: int|
            shard_packet(
                encryptor,
                session_id,
                rendezvous_secs,
                d as u16,
                p as u16,
                i as u16,
                shards[i],
            ),
    )
}

/// Whether encrypting shard `k` of a frame, whose shards after coding are
/// `shards`, can fail with `err`.
pub open spec fn shard_rejects<E: Encryptor>(
    encryptor: E,
    shards: Seq<Seq<u8>>,
    session_id: u16,
    rendezvous_secs: u32,
    data_shards: nat,
    parity_shards: nat,
    k: int,
    err: FiudpError,
) -> bool {
    encryptor.rejects(
        nonce_bytes(session_id, k as u16),
        header_aad(session_id, k as u16, data_shards as u16, parity_shards as u16, rendezvous_secs),
        shards[k],
        err,
    )
}

/// Whether coding `frame` into shards can fail with `err`: an empty frame
/// with `EmptyInput`, too many shards with `TooManyShards`, and otherwise
/// only with an error of the erasure coder on the frame's shards.
pub open spec fn coding_failure<F: FecEngine>(
    fec: F,
    frame: Seq<u8>,
    parity_ratio: u8,
    err: FiudpError,
) -> bool {
    let d = data_shard_count(frame.len());
    let p = parity_shards_for(parity_ratio, d);
    if frame.len() == 0 {
        err == FiudpError::EmptyInput
    } else if d + p > MAX_TOTAL_SHARDS {
        err == FiudpError::TooManyShards((d + p) as usize)
    } else {
        p > 0 && fec.rejects(d, p, unencoded_shards(frame, p), err)
    }
}

/// Whether encoding `frame` into packets can fail with `err`: as coding
/// it can, or with an error of the encryptor on one of the coded shards.
pub open spec fn frame_failure<F: FecEngine, E: Encryptor>(
    fec: F,
    encryptor: E,
    frame: Seq<u8>,
    parity_ratio: u8,
    rendezvous_secs: u32,
    session_id: u16,
    err: FiudpError,
) -> bool {
    let d = data_shard_count(frame.len());
    let p = parity_shards_for(parity_ratio, d);
    ||| coding_failure(fec, frame, parity_ratio, err)
    ||| frame.len() > 0 && d + p <= MAX_TOTAL_SHARDS && exists|k: int|
        0 <= k < d + p && #[trigger] shard_rejects(
            encryptor,
            coded_shards(fec, frame, p),
            session_id,
            rendezvous_secs,
            d,
            p,
            k,
            err,
        )
}

/// The byte views of a list of packets.
pub open spec fn packet_views(packets: Seq<[u8; PACKET_SIZE]>) -> Seq<Seq<u8>> {
    packets.map_values(|p: [u8; PACKET_SIZE]| p@)
}

proof fn lemma_data_shard_count(len: nat)
    requires
        len > 0,
    ensures
        data_shard_count(len) == len / (SHARD_SIZE as nat) + (if len % (SHARD_SIZE as nat) != 0 {
            1nat
        } else {
            0nat
        }),
        padded_len(len) == data_shard_count(len) * SHARD_SIZE,
        data_shard_count(len) > 0,
{
}

proof fn lemma_parity_at_most_data(ratio: u8, d: nat)
    requires
        ratio <= 100,
    ensures
        parity_shards_for(ratio, d) <= d,
{
    if ratio > 0 {
        assert(d * (ratio as nat) <= d * 100) by (nonlinear_arith)
            requires
                ratio <= 100,
        ;
    }
}

/// The shards of one frame after erasure coding, with the session fields
/// that go into the header of each of their packets.
pub struct CodedFrame {
    shards: Vec<Vec<u8>>,
    data_shards: usize,
    parity_shards: usize,
    session_id: SessionId,
    rendezvous_secs: RendezvousSecs,
}

impl CodedFrame {
    #[verifier::type_invariant]
    closed spec fn well_formed(&self) -> bool {
        &&& self.shards@.len() == self.data_shards + self.parity_shards
        &&& self.data_shards + self.parity_shards <= MAX_TOTAL_SHARDS
        &&& forall|m: int| 0 <= m < self.shards@.len() ==> #[trigger] self.shards@[m]@.len() == SHARD_SIZE
    }

    /// The shards, data shards first, then parity shards.
    pub closed spec fn shards_view(&self) -> Seq<Seq<u8>> {
        self.shards.deep_view()
    }

    /// The number of data shards.
    pub closed spec fn spec_data_shards(&self) -> nat {
        self.data_shards as nat
    }

    /// The number of parity shards.
    pub closed spec fn spec_parity_shards(&self) -> nat {
        self.parity_shards as nat
    }

    /// The session identifier of the packets.
    pub closed spec fn spec_session_id(&self) -> u16 {
        self.session_id@
    }

    /// The rendezvous timer of the packets.
    pub closed spec fn spec_rendezvous_secs(&self) -> u32 {
        self.rendezvous_secs@
    }

    /// The packet that carries shard `index` when `encryptor` seals it.
    pub open spec fn packet_of<E: Encryptor>(&self, encryptor: E, index: int) -> Seq<u8> {
        shard_packet(
            encryptor,
            self.spec_session_id(),
            self.spec_rendezvous_secs(),
            self.spec_data_shards() as u16,
            self.spec_parity_shards() as u16,
            index as u16,
            self.shards_view()[index],
        )
    }

    /// The number of shards, data and parity.
    pub fn shard_count(&self) -> (r: usize)
        ensures
            r == self.shards_view().len(),
    {
        self.shards.len()
    }

    /// Encrypt shard `index` under its own nonce, with its header as
    /// associated data, and assemble its packet.
    ///
    /// Fails only where the encryptor fails on the shard.
    pub fn seal_shard<E: Encryptor>(&self, encryptor: &E, index: usize) -> (r: Result<
        [u8; PACKET_SIZE],
        FiudpError,
    >)
        requires
            index < self.shards_view().len(),
        ensures
            encryptor.accepts(SHARD_SIZE as nat) ==> r is Ok,
            r is Ok ==> r->Ok_0@ == self.packet_of(*encryptor, index as int),
            r matches Err(e) ==> shard_rejects(
                *encryptor,
                self.shards_view(),
                self.spec_session_id(),
                self.spec_rendezvous_secs(),
                self.spec_data_shards(),
                self.spec_parity_shards(),
                index as int,
                e,
            ),
    {
        proof {
            use_type_invariant(self);
        }
        let builder = PacketBuilder::new(
            self.session_id,
            self.rendezvous_secs,
            DataShardCount::new(self.data_shards as u16),
            ParityShardCount::new(self.parity_shards as u16),
        );
        let shard_index = ShardIndex::new(index as u16);
        let nonce = derive_nonce(self.session_id, shard_index);
        let aad = builder.build_aad(shard_index);
        let mut shard: Vec<u8> = self.shards[index].clone();
        assert(shard@ =~= self.shards@[index as int]@);
        let ghost plain = shard@;
        assert(plain == self.shards_view()[index as int]) by {
            assert(self.shards@[index as int].deep_view() =~= self.shards@[index as int]@);
        }
        let tag = match encryptor.encrypt_in_place(&nonce, &aad, shard.as_mut_slice()) {
            Ok(tag) => tag,
            Err(e) => {
                return Err(e);
            },
        };
        let mut packet = [0u8; PACKET_SIZE];
        match builder.write_packet(&mut packet, &aad, &tag, shard.as_slice()) {
            Ok(()) => {},
            Err(e) => {
                return Err(e);
            },
        }
        proof {
            let sealed = encryptor.sealed(nonce@, aad@, plain);
            assert(shard@ == sealed.0 && tag@ == sealed.1);
            assert(packet@ == self.packet_of(*encryptor, index as int));
        }
        Ok(packet)
    }
}

/// Whether `coded` holds the coded shards of `frame` and the session
/// fields of its packets.
pub open spec fn coded_from<F: FecEngine>(
    fec: F,
    frame: Seq<u8>,
    parity_ratio: u8,
    rendezvous_secs: u32,
    session_id: u16,
    coded: CodedFrame,
) -> bool {
    let d = data_shard_count(frame.len());
    let p = parity_shards_for(parity_ratio, d);
    &&& coded.spec_data_shards() == d
    &&& coded.spec_parity_shards() == p
    &&& coded.shards_view().len() == d + p
    &&& coded.shards_view() == coded_shards(fec, frame, p)
    &&& coded.spec_session_id() == session_id
    &&& coded.spec_rendezvous_secs() == rendezvous_secs
}

/// Zero-pad one frame to whole shards and compute its parity shards.
///
/// Fails with `EmptyInput` on an empty frame and with `TooManyShards` when
/// the frame needs more than [`MAX_TOTAL_SHARDS`] shards; otherwise it fails
/// only where the erasure coder fails.
#[verifier::loop_isolation(false)]
pub fn code_frame<F: FecEngine>(
    fec: &F,
    frame: Vec<u8>,
    parity_ratio: ParityRatio,
    rendezvous_secs: RendezvousSecs,
    session_id: SessionId,
) -> (r: Result<CodedFrame, FiudpError>)
    ensures
        frame@.len() == 0 ==> r == Err::<CodedFrame, FiudpError>(FiudpError::EmptyInput),
        ({
            let d = data_shard_count(frame@.len());
            let p = parity_shards_for(parity_ratio@, d);
            &&& frame@.len() > 0 && d + p > MAX_TOTAL_SHARDS ==> r == Err::<CodedFrame, FiudpError>(
                FiudpError::TooManyShards((d + p) as usize),
            )
            &&& frame@.len() > 0 && d + p <= MAX_TOTAL_SHARDS && (p > 0 ==> fec.accepts(
                d,
                p,
                unencoded_shards(frame@, p),
            )) ==> r is Ok
        }),
        r matches Ok(coded) ==> coded_from(
            *fec,
            frame@,
            parity_ratio@,
            rendezvous_secs@,
            session_id@,
            coded,
        ),
        r is Ok ==> coded_shards(
            *fec,
            frame@,
            parity_shards_for(parity_ratio@, data_shard_count(frame@.len())),
        ).take(data_shard_count(frame@.len()) as int) == data_shards_of(frame@),
        r matches Err(e) ==> coding_failure(*fec, frame@, parity_ratio@, e),
{
    if frame.len() == 0 {
        return Err(FiudpError::EmptyInput);
    }
    let len: usize = frame.len();
    let d: usize = len / SHARD_SIZE + if len % SHARD_SIZE != 0 { 1 } else { 0 };
    proof {
        lemma_data_shard_count(len as nat);
        use_type_invariant(&parity_ratio);
        parity_ratio.lemma_at_most_100();
        lemma_parity_at_most_data(parity_ratio@, d as nat);
    }
    let p: usize = parity_ratio.parity_shards(d);
    let total: usize = d + p;
    if total > MAX_TOTAL_SHARDS {
        return Err(FiudpError::TooManyShards(total));
    }
    let ghost padded = padded_frame(frame@);
    let mut payload = frame;
    pad_to_shard_size(&mut payload);
    assert(payload@ == padded);
    assert(padded.len() == d * SHARD_SIZE);

    // Data shards, then zeroed parity buffers.
    let mut shards: Vec<Vec<u8>> = Vec::new();
    let mut i: usize = 0;
    while i < d
        invariant
            i <= d,
            d <= MAX_TOTAL_SHARDS,
            payload@ == padded,
            padded.len() == d * SHARD_SIZE,
            shards@.len() == i,
            forall|k: int| 0 <= k < i ==> #[trigger] shards@[k]@ == padded.subrange(
                k * SHARD_SIZE,
                k * SHARD_SIZE + SHARD_SIZE,
            ),
        decreases d - i,
    {
        let base: usize = i * SHARD_SIZE;
        let mut shard: Vec<u8> = Vec::new();
        let mut j: usize = 0;
        while j < SHARD_SIZE
            invariant
                j <= SHARD_SIZE,
                i < d,
                base == i * SHARD_SIZE,
                payload@ == padded,
                padded.len() == d * SHARD_SIZE,
                shard@ == padded.subrange(base as int, base + j),
            decreases SHARD_SIZE - j,
        {
            assert(base + j < padded.len()) by (nonlinear_arith)
                requires
                    base == i * SHARD_SIZE,
                    i < d,
                    j < SHARD_SIZE,
                    padded.len() == d * SHARD_SIZE,
            ;
            shard.push(payload[base + j]);
            j = j + 1;
            assert(shard@ =~= padded.subrange(base as int, base + j));
        }
        shards.push(shard);
        i = i + 1;
    }
    let mut k: usize = 0;
    while k < p
        invariant
            k <= p,
            d + p <= MAX_TOTAL_SHARDS,
            shards@.len() == d + k,
            forall|m: int| 0 <= m < d ==> #[trigger] shards@[m]@ == padded.subrange(
                m * SHARD_SIZE,
                m * SHARD_SIZE + SHARD_SIZE,
            ),
            forall|m: int| d <= m < d + k ==> #[trigger] shards@[m]@ == Seq::new(
                SHARD_SIZE as nat,
                |j: int| 0u8,
            ),
        decreases p - k,
    {
        let mut buf: Vec<u8> = Vec::new();
        let mut j: usize = 0;
        while j < SHARD_SIZE
            invariant
                j <= SHARD_SIZE,
                buf@ == Seq::new(j as nat, |x: int| 0u8),
            decreases SHARD_SIZE - j,
        {
            buf.push(0u8);
            j = j + 1;
            assert(buf@ =~= Seq::new(j as nat, |x: int| 0u8));
        }
        shards.push(buf);
        k = k + 1;
    }
    assert(shards.deep_view() =~= unencoded_shards(frame@, p as nat)) by {
        assert forall|m: int| 0 <= m < shards@.len() implies #[trigger] shards.deep_view()[m]
            == unencoded_shards(frame@, p as nat)[m] by {
            assert(shards.deep_view()[m] =~= shards@[m]@);
        }
    }
    assert forall|m: int| 0 <= m < shards@.len() implies #[trigger] shards@[m]@.len()
        == SHARD_SIZE by {
        if m < d {
            assert(m * SHARD_SIZE + SHARD_SIZE <= d * SHARD_SIZE) by (nonlinear_arith)
                requires
                    0 <= m < d,
            ;
        }
    }
    if p > 0 {
        let ghost before = shards.deep_view();
        match fec.encode(d, p, &mut shards) {
            Ok(()) => {},
            Err(e) => {
                assert(fec.rejects(d as nat, p as nat, before, e));
                return Err(e);
            },
        }
    }
    let ghost coded = shards.deep_view();
    assert(coded == coded_shards(*fec, frame@, p as nat));
    assert(coded.take(d as int) =~= data_shards_of(frame@)) by {
        assert forall|m: int| 0 <= m < d implies #[trigger] coded.take(d as int)[m]
            == data_shards_of(frame@)[m] by {
            if p == 0 {
                assert(coded[m] =~= shards@[m]@);
            }
        }
    }
    let result = CodedFrame {
        shards,
        data_shards: d,
        parity_shards: p,
        session_id,
        rendezvous_secs,
    };
    Ok(result)
}

/// Encode one frame into its packets.
///
/// Fails with `EmptyInput` on an empty frame and with `TooManyShards` when
/// the frame needs more than [`MAX_TOTAL_SHARDS`] shards; otherwise it fails
/// only where the erasure coder or the encryptor fails.
#[verifier::loop_isolation(false)]
pub fn encode_frame<F: FecEngine, E: Encryptor>(
    fec: &F,
    encryptor: &E,
    frame: Vec<u8>,
    parity_ratio: ParityRatio,
    rendezvous_secs: RendezvousSecs,
    session_id: SessionId,
) -> (r: Result<Vec<[u8; PACKET_SIZE]>, FiudpError>)
    ensures
        frame@.len() == 0 ==> r == Err::<Vec<[u8; PACKET_SIZE]>, FiudpError>(FiudpError::EmptyInput),
        ({
            let d = data_shard_count(frame@.len());
            let p = parity_shards_for(parity_ratio@, d);
            &&& frame@.len() > 0 && d + p > MAX_TOTAL_SHARDS ==> r == Err::<
                Vec<[u8; PACKET_SIZE]>,
                FiudpError,
            >(FiudpError::TooManyShards((d + p) as usize))
            &&& frame@.len() > 0 && d + p <= MAX_TOTAL_SHARDS && (p > 0 ==> fec.accepts(
                d,
                p,
                unencoded_shards(frame@, p),
            )) && encryptor.accepts(SHARD_SIZE as nat) ==> r is Ok
        }),
        r is Ok ==> coded_shards(
            *fec,
            frame@,
            parity_shards_for(parity_ratio@, data_shard_count(frame@.len())),
        ).take(data_shard_count(frame@.len()) as int) == data_shards_of(frame@),
        r is Ok ==> packet_views(r->Ok_0@) == frame_packets(
            *fec,
            *encryptor,
            frame@,
            parity_ratio@,
            rendezvous_secs@,
            session_id@,
        ),
        r matches Err(e) ==> frame_failure(
            *fec,
            *encryptor,
            frame@,
            parity_ratio@,
            rendezvous_secs@,
            session_id@,
            e,
        ),
{
    let ghost frame_view = frame@;
    let coded = match code_frame(fec, frame, parity_ratio, rendezvous_secs, session_id) {
        Ok(coded) => coded,
        Err(e) => {
            return Err(e);
        },
    };
    let ghost want = frame_packets(
        *fec,
        *encryptor,
        frame_view,
        parity_ratio@,
        rendezvous_secs@,
        session_id@,
    );
    let total: usize = coded.shard_count();
    let mut packets: Vec<[u8; PACKET_SIZE]> = Vec::new();
    let mut n: usize = 0;
    while n < total
        invariant
            n <= total,
            total == coded.shards_view().len(),
            frame_view.len() > 0,
            data_shard_count(frame_view.len()) + parity_shards_for(
                parity_ratio@,
                data_shard_count(frame_view.len()),
            ) <= MAX_TOTAL_SHARDS,
            coded_from(*fec, frame_view, parity_ratio@, rendezvous_secs@, session_id@, coded),
            want == frame_packets(
                *fec,
                *encryptor,
                frame_view,
                parity_ratio@,
                rendezvous_secs@,
                session_id@,
            ),
            packets@.len() == n,
            forall|m: int| 0 <= m < n ==> #[trigger] packets@[m]@ == want[m],
        decreases total - n,
    {
        let packet = match coded.seal_shard(encryptor, n) {
            Ok(packet) => packet,
            Err(e) => {
                assert(frame_failure(
                    *fec,
                    *encryptor,
                    frame_view,
                    parity_ratio@,
                    rendezvous_secs@,
                    session_id@,
                    e,
                ));
                return Err(e);
            },
        };
        assert(packet@ == want[n as int]);
        packets.push(packet);
        n = n + 1;
    }
    assert(packet_views(packets@) =~= want);
    Ok(packets)
}

/// The sequence `s` without `burst` consecutive items starting at `start`
/// (fewer when the sequence ends first).
pub open spec fn without_burst<A>(s: Seq<A>, start: nat, burst: nat) -> Seq<A> {
    let end = if start + burst <= s.len() { start + burst } else { s.len() };
    s.take(start as int) + s.skip(end as int)
}

/// The items of `s` whose roll is at least `threshold`, in order; item `i`
/// has roll `rolls[i]`.
pub open spec fn kept_by_rolls<A>(s: Seq<A>, rolls: Seq<usize>, threshold: usize) -> Seq<A>
    decreases s.len(),
{
    if s.len() == 0 {
        Seq::empty()
    } else {
        let kept = kept_by_rolls(s.drop_last(), rolls, threshold);
        if rolls[s.len() - 1] >= threshold {
            kept.push(s.last())
        } else {
            kept
        }
    }
}

/// The packets after the burst drop, which happens when `burst > 0` and
/// there is a packet, for a burst starting at `start`.
pub open spec fn after_burst<A>(all: Seq<A>, burst: u32, start: nat) -> Seq<A> {
    if burst > 0 && all.len() > 0 {
        without_burst(all, start, burst as nat)
    } else {
        all
    }
}

/// The packets after the burst drop and the random drop (when `drop > 0`),
/// for a burst starting at `start` and the given rolls.
pub open spec fn dropped_packets<A>(
    all: Seq<A>,
    drop: u8,
    burst: u32,
    start: nat,
    rolls: Seq<usize>,
) -> Seq<A> {
    let after_burst = after_burst(all, burst, start);
    if drop > 0 {
        kept_by_rolls(after_burst, rolls, drop as usize)
    } else {
        after_burst
    }
}

/// Whether a burst start and percentage rolls are ones the random generator
/// can produce: the burst fits when the sequence is long enough, and every
/// roll lies in 0..100, one per packet left after the burst.
pub open spec fn possible_draws<A>(all: Seq<A>, burst: u32, start: nat, rolls: Seq<usize>) -> bool {
    &&& start + burst <= all.len() || start == 0
    &&& start <= all.len()
    &&& rolls.len() == after_burst(all, burst, start).len()
    &&& forall|i: int| 0 <= i < rolls.len() ==> #[trigger] rolls[i] < 100
}

/// Whether `out` is what the test perturbations (drop a burst, drop each
/// packet with probability `drop` percent, shuffle) can make of `all`.
pub open spec fn chaos_outcome<A>(all: Seq<A>, out: Seq<A>, drop: u8, burst: u32, shuffle: bool) -> bool {
    exists|start: nat, rolls: Seq<usize>|
        #![trigger dropped_packets(all, drop, burst, start, rolls)]
        {
            let kept = dropped_packets(all, drop, burst, start, rolls);
            &&& possible_draws(all, burst, start, rolls)
            &&& if shuffle {
                out.to_multiset() == kept.to_multiset()
            } else {
                out == kept
            }
        }
}

/// Lets the thread-local random generator of `rand` stand in signatures.
#[verifier::external_type_specification]
#[verifier::external_body]
pub struct ExThreadRng(rand::rngs::ThreadRng);

/// A handle on the thread-local generator, from `rand::thread_rng`.
///
/// Nothing is stated of the handle; `rand` panics here only when the
/// operating system cannot seed the generator.
#[verifier::external_body]
fn thread_rng_handle() -> rand::rngs::ThreadRng {
    rand::thread_rng()
}

/// A uniformly drawn integer below `bound`, from `Rng::gen_range(0..bound)`.
///
/// Trusted: the result lies in the half-open range; the range is not empty,
/// so the call does not panic.
#[verifier::external_body]
fn random_below(rng: &mut rand::rngs::ThreadRng, bound: usize) -> (r: usize)
    requires
        0 < bound,
    ensures
        r < bound,
{
    rng.gen_range(0..bound)
}

/// Shuffles the packets in place with `SliceRandom::shuffle`.
///
/// Trusted: the result is a permutation of the input.
#[verifier::external_body]
fn shuffle_packets(rng: &mut rand::rngs::ThreadRng, packets: &mut Vec<[u8; PACKET_SIZE]>)
    ensures
        final(packets)@.to_multiset() == old(packets)@.to_multiset(),
{
    packets.shuffle(rng)
}

/// Remove `burst` consecutive packets starting at `start` (fewer when the
/// list ends first).
pub fn remove_burst(packets: &mut Vec<[u8; PACKET_SIZE]>, start: usize, burst: usize)
    requires
        start <= old(packets)@.len(),
    ensures
        final(packets)@ == without_burst(old(packets)@, start as nat, burst as nat),
{
    let len: usize = packets.len();
    let end: usize = if burst <= len - start { start + burst } else { len };
    let mut kept: Vec<[u8; PACKET_SIZE]> = Vec::new();
    let mut i: usize = 0;
    while i < start
        invariant
            i <= start <= len,
            len == packets@.len(),
            kept@ == packets@.take(i as int),
        decreases start - i,
    {
        kept.push(packets[i]);
        i = i + 1;
        assert(kept@ =~= packets@.take(i as int));
    }
    let mut j: usize = end;
    while j < len
        invariant
            start <= end <= j <= len,
            len == packets@.len(),
            kept@ == packets@.take(start as int) + packets@.subrange(end as int, j as int),
        decreases len - j,
    {
        kept.push(packets[j]);
        j = j + 1;
        assert(kept@ =~= packets@.take(start as int) + packets@.subrange(end as int, j as int));
    }
    assert(kept@ =~= without_burst(packets@, start as nat, burst as nat));
    *packets = kept;
}

/// Keep exactly the packets whose roll is at least `threshold`.
pub fn retain_by_rolls(packets: &mut Vec<[u8; PACKET_SIZE]>, rolls: &Vec<usize>, threshold: usize)
    requires
        rolls@.len() >= old(packets)@.len(),
    ensures
        final(packets)@ == kept_by_rolls(old(packets)@, rolls@, threshold),
{
    let mut kept: Vec<[u8; PACKET_SIZE]> = Vec::new();
    let mut i: usize = 0;
    while i < packets.len()
        invariant
            i <= packets@.len() <= rolls@.len(),
            kept@ == kept_by_rolls(packets@.take(i as int), rolls@, threshold),
        decreases packets@.len() - i,
    {
        assert(packets@.take(i + 1).drop_last() =~= packets@.take(i as int));
        if rolls[i] >= threshold {
            kept.push(packets[i]);
        }
        i = i + 1;
    }
    assert(packets@.take(packets@.len() as int) =~= packets@);
    *packets = kept;
}

/// Draw one percentage roll, in 0..100, per packet.
fn draw_rolls(count: usize) -> (r: Vec<usize>)
    ensures
        r@.len() == count,
        forall|i: int| 0 <= i < r@.len() ==> #[trigger] r@[i] < 100,
{
    let mut rng = thread_rng_handle();
    let mut rolls: Vec<usize> = Vec::new();
    let mut i: usize = 0;
    while i < count
        invariant
            i <= count,
            rolls@.len() == i,
            forall|k: int| 0 <= k < rolls@.len() ==> #[trigger] rolls@[k] < 100,
        decreases count - i,
    {
        let roll: usize = random_below(&mut rng, 100);
        rolls.push(roll);
        i = i + 1;
    }
    rolls
}

/// Apply the test perturbations to the packet list: drop a burst of
/// `burst` consecutive packets at a random place, drop each remaining packet
/// with probability `drop` percent, and shuffle.
pub fn apply_chaos(packets: &mut Vec<[u8; PACKET_SIZE]>, drop: u8, burst: u32, shuffle: bool)
    ensures
        chaos_outcome(old(packets)@, final(packets)@, drop, burst, shuffle),
        drop == 0 && burst == 0 && !shuffle ==> final(packets)@ == old(packets)@,
{
    let ghost all = packets@;
    let mut start: usize = 0;
    if burst > 0 && packets.len() > 0 {
        let burst_len: usize = burst as usize;
        let max_start: usize = if packets.len() >= burst_len { packets.len() - burst_len } else { 0 };
        let mut rng = thread_rng_handle();
        start = random_below(&mut rng, max_start + 1);
        remove_burst(packets, start, burst_len);
    }
    let ghost survivors = packets@;
    assert(survivors == after_burst(all, burst, start as nat));
    let ghost mut rolls_seen: Seq<usize> = Seq::new(survivors.len(), |i: int| 0usize);
    if drop > 0 {
        let rolls = draw_rolls(packets.len());
        proof {
            rolls_seen = rolls@;
        }
        retain_by_rolls(packets, &rolls, drop as usize);
    }
    let ghost kept = packets@;
    assert(kept == dropped_packets(all, drop, burst, start as nat, rolls_seen));
    assert(possible_draws(all, burst, start as nat, rolls_seen));
    if shuffle {
        let mut rng = thread_rng_handle();
        shuffle_packets(&mut rng, packets);
    }
    assert(chaos_outcome(all, packets@, drop, burst, shuffle));
}

/// Outbound transport of packets.
///
/// Implemented outside the library, over a UDP socket or a test collector.
pub trait PacketSender {
    /// Holds when handing `packet` to this transport can end with `outcome`.
    /// A transport that does not define it keeps the default, which admits
    /// every outcome.
    closed spec fn handles(&self, packet: Seq<u8>, outcome: Result<(), FiudpError>) -> bool {
        true
    }

    /// Send one packet; `packet` is always [`PACKET_SIZE`] bytes long.
    fn send(&self, packet: &[u8]) -> (r: Result<(), FiudpError>)
        ensures
            self.handles(packet@, r),
    ;
}

/// What the transmission of packet `index` out of `count` yields, given
/// the transport's outcome: the transport's error, or whether to pause
/// before the next packet (after every packet but the last).
pub open spec fn step_result(outcome: Result<(), FiudpError>, index: nat, count: nat) -> Result<
    bool,
    FiudpError,
> {
    match outcome {
        Ok(()) => Ok(index + 1 < count),
        Err(e) => Err(e),
    }
}

/// Turn the transport's outcome for packet `index` out of `count` into the
/// result of handing it over (see [`step_result`]).
pub fn transmission_step(outcome: Result<(), FiudpError>, index: usize, count: usize) -> (r: Result<
    bool,
    FiudpError,
>)
    requires
        index < count,
    ensures
        r == step_result(outcome, index as nat, count as nat),
{
    match outcome {
        Ok(()) => Ok(index < count - 1),
        Err(e) => Err(e),
    }
}

/// What the transmission loop does next.
pub enum TransmitAction {
    /// Hand packet `index` to the transport, with [`FiudpSender::transmit_packet`].
    Send(usize),
    /// Wait for the inter-packet delay that follows packet `index`.
    Pause(usize),
    /// Stop with this result.
    Finish(Result<(), FiudpError>),
}

/// What happened last in the transmission loop.
pub enum TransmitEvent {
    /// The loop starts.
    Start,
    /// The step of packet `index` ended with this result of
    /// [`FiudpSender::transmit_packet`].
    Sent(usize, Result<bool, FiudpError>),
    /// The pause after packet `index` is over.
    Paused(usize),
}

/// Whether an event can occur while `count` packets are transmitted.
pub open spec fn event_fits(count: nat, event: TransmitEvent) -> bool {
    match event {
        TransmitEvent::Start => true,
        TransmitEvent::Sent(index, result) => index < count && (result matches Ok(pause)
            ==> pause == (index + 1 < count)),
        TransmitEvent::Paused(index) => index + 1 < count,
    }
}

/// The transmission loop: the first packet first, a pause after every
/// packet but the last, the next packet after a pause, and a stop at the
/// first error or after the last packet.
pub open spec fn next_action(count: nat, event: TransmitEvent) -> TransmitAction {
    match event {
        TransmitEvent::Start => if count == 0 {
            TransmitAction::Finish(Ok(()))
        } else {
            TransmitAction::Send(0)
        },
        TransmitEvent::Sent(index, result) => match result {
            Ok(pause) => if pause {
                TransmitAction::Pause(index)
            } else {
                TransmitAction::Finish(Ok(()))
            },
            Err(e) => TransmitAction::Finish(Err(e)),
        },
        TransmitEvent::Paused(index) => TransmitAction::Send((index + 1) as usize),
    }
}

/// Decide the next step of transmitting `count` packets after `event`.
///
/// The caller performs the step: it hands the packet over, waits, or stops
/// with the result; and reports what happened as the next event.
pub fn next_transmit_action(count: usize, event: TransmitEvent) -> (r: TransmitAction)
    requires
        event_fits(count as nat, event),
    ensures
        r == next_action(count as nat, event),
{
    match event {
        TransmitEvent::Start => if count == 0 {
            TransmitAction::Finish(Ok(()))
        } else {
            TransmitAction::Send(0)
        },
        TransmitEvent::Sent(index, result) => match result {
            Ok(pause) => if pause {
                TransmitAction::Pause(index)
            } else {
                TransmitAction::Finish(Ok(()))
            },
            Err(e) => TransmitAction::Finish(Err(e)),
        },
        TransmitEvent::Paused(index) => TransmitAction::Send(index + 1),
    }
}

/// The steps of the transmission loop from `event` on, when the transport's
/// outcome for packet `i` is `outcomes[i]`, for at most `fuel` steps.
pub open spec fn transmission_trace(
    count: nat,
    outcomes: Seq<Result<(), FiudpError>>,
    event: TransmitEvent,
    fuel: nat,
) -> Seq<TransmitAction>
    decreases fuel,
{
    if fuel == 0 {
        Seq::empty()
    } else {
        let action = next_action(count, event);
        match action {
            TransmitAction::Send(index) => seq![action] + transmission_trace(
                count,
                outcomes,
                TransmitEvent::Sent(index, step_result(outcomes[index as int], index as nat, count)),
                (fuel - 1) as nat,
            ),
            TransmitAction::Pause(index) => seq![action] + transmission_trace(
                count,
                outcomes,
                TransmitEvent::Paused(index),
                (fuel - 1) as nat,
            ),
            TransmitAction::Finish(_) => seq![action],
        }
    }
}

/// The index of the first packet, from `from` on, whose transport outcome
/// is an error; `count` when there is none.
pub open spec fn first_failure(count: nat, outcomes: Seq<Result<(), FiudpError>>, from: nat) -> nat
    decreases count - from,
{
    if from >= count {
        count
    } else if outcomes[from as int] is Err {
        from
    } else {
        first_failure(count, outcomes, from + 1)
    }
}

/// The steps from the sending of packet `from` on: packets `from`, `from + 1`,
/// ... each handed over once and in order, up to the first that fails or the
/// last, with a pause between two of them, then the stop with the first
/// error, or with success.
pub open spec fn transmission_outline(
    count: nat,
    outcomes: Seq<Result<(), FiudpError>>,
    from: nat,
) -> Seq<TransmitAction> {
    let f = first_failure(count, outcomes, from);
    let handed = if f < count { f + 1 } else { count };
    let result = if f < count {
        Err::<(), FiudpError>(outcomes[f as int]->Err_0)
    } else {
        Ok::<(), FiudpError>(())
    };
    Seq::new(
        (2 * (handed - from)) as nat,
        |k: int|
            if k == 2 * (handed - from) - 1 {
                TransmitAction::Finish(result)
            } else if k % 2 == 0 {
                TransmitAction::Send((from + k / 2) as usize)
            } else {
                TransmitAction::Pause((from + k / 2) as usize)
            },
    )
}

proof fn lemma_first_failure_bounds(count: nat, outcomes: Seq<Result<(), FiudpError>>, from: nat)
    requires
        from <= count,
    ensures
        from <= first_failure(count, outcomes, from) <= count,
        first_failure(count, outcomes, from) < count ==> outcomes[first_failure(
            count,
            outcomes,
            from,
        ) as int] is Err,
    decreases count - from,
{
    if from < count && outcomes[from as int] is Ok {
        lemma_first_failure_bounds(count, outcomes, from + 1);
    }
}

proof fn lemma_trace_from_send(
    count: nat,
    outcomes: Seq<Result<(), FiudpError>>,
    event: TransmitEvent,
    from: nat,
    fuel: nat,
)
    requires
        from < count <= usize::MAX,
        next_action(count, event) == TransmitAction::Send(from as usize),
        fuel >= 2 * (count - from) + 1,
    ensures
        transmission_trace(count, outcomes, event, fuel) == transmission_outline(
            count,
            outcomes,
            from,
        ),
    decreases count - from,
{
    let trace = transmission_trace(count, outcomes, event, fuel);
    let outline = transmission_outline(count, outcomes, from);
    let sent = TransmitEvent::Sent(
        from as usize,
        step_result(outcomes[from as int], from, count),
    );
    lemma_first_failure_bounds(count, outcomes, from);
    assert(trace == seq![TransmitAction::Send(from as usize)] + transmission_trace(
        count,
        outcomes,
        sent,
        (fuel - 1) as nat,
    ));
    if outcomes[from as int] is Err {
        assert(transmission_trace(count, outcomes, sent, (fuel - 1) as nat) =~= seq![
            TransmitAction::Finish(Err(outcomes[from as int]->Err_0)),
        ]);
        assert(trace =~= outline);
    } else if from + 1 < count {
        let paused = TransmitEvent::Paused(from as usize);
        assert(transmission_trace(count, outcomes, sent, (fuel - 1) as nat) == seq![
            TransmitAction::Pause(from as usize),
        ] + transmission_trace(count, outcomes, paused, (fuel - 2) as nat));
        lemma_trace_from_send(count, outcomes, paused, from + 1, (fuel - 2) as nat);
        lemma_first_failure_bounds(count, outcomes, from + 1);
        let rest = transmission_outline(count, outcomes, from + 1);
        assert(first_failure(count, outcomes, from) == first_failure(count, outcomes, from + 1));
        assert(outline =~= seq![
            TransmitAction::Send(from as usize),
            TransmitAction::Pause(from as usize),
        ] + rest);
        assert(trace =~= outline);
    } else {
        assert(transmission_trace(count, outcomes, sent, (fuel - 1) as nat) =~= seq![
            TransmitAction::Finish(Ok(())),
        ]);
        assert(first_failure(count, outcomes, from + 1) == count);
        assert(trace =~= outline);
    }
}

/// Transmission hands the packets over once each and in order: packet 0,
/// a pause, packet 1, a pause, and so on, up to the first packet that the
/// transport fails on or the last packet. Nothing is handed over after a
/// failure; the result is the first failure, or success. With no packet,
/// transmission ends at once with success.
pub proof fn law_transmission_order(count: nat, outcomes: Seq<Result<(), FiudpError>>)
    requires
        count <= usize::MAX,
        outcomes.len() >= count,
    ensures
        count == 0 ==> transmission_trace(count, outcomes, TransmitEvent::Start, 1) == seq![
            TransmitAction::Finish(Ok(())),
        ],
        count > 0 ==> transmission_trace(
            count,
            outcomes,
            TransmitEvent::Start,
            2 * count + 1,
        ) == transmission_outline(count, outcomes, 0),
{
    if count == 0 {
        assert(transmission_trace(count, outcomes, TransmitEvent::Start, 1) =~= seq![
            TransmitAction::Finish(Ok(())),
        ]);
    } else {
        lemma_trace_from_send(count, outcomes, TransmitEvent::Start, 0, 2 * count + 1);
    }
}

/// The packets that the `Send` steps of `trace` are for, in order.
pub open spec fn handed_over(packets: Seq<Seq<u8>>, trace: Seq<TransmitAction>) -> Seq<Seq<u8>>
    decreases trace.len(),
{
    if trace.len() == 0 {
        Seq::empty()
    } else {
        let rest = handed_over(packets, trace.drop_first());
        match trace[0] {
            TransmitAction::Send(index) => seq![packets[index as int]] + rest,
            _ => rest,
        }
    }
}

/// Where the `Send` steps from packet `from` on end: after the first packet
/// whose step fails, else after the last.
pub open spec fn handed_end(count: nat, outcomes: Seq<Result<(), FiudpError>>, from: nat) -> nat {
    let f = first_failure(count, outcomes, from);
    if f < count {
        f + 1
    } else {
        count
    }
}

proof fn lemma_handed_over_prepend(packets: Seq<Seq<u8>>, a: TransmitAction, rest: Seq<TransmitAction>)
    ensures
        handed_over(packets, seq![a] + rest) == match a {
            TransmitAction::Send(index) => seq![packets[index as int]] + handed_over(packets, rest),
            _ => handed_over(packets, rest),
        },
{
    assert((seq![a] + rest).drop_first() =~= rest);
    assert((seq![a] + rest)[0] == a);
}

proof fn lemma_handed_from_send(
    count: nat,
    outcomes: Seq<Result<(), FiudpError>>,
    packets: Seq<Seq<u8>>,
    event: TransmitEvent,
    from: nat,
    fuel: nat,
)
    requires
        from < count <= usize::MAX,
        packets.len() == count,
        next_action(count, event) == TransmitAction::Send(from as usize),
        fuel >= 2 * (count - from) + 1,
    ensures
        handed_over(packets, transmission_trace(count, outcomes, event, fuel)) == packets.subrange(
            from as int,
            handed_end(count, outcomes, from) as int,
        ),
    decreases count - from,
{
    let sent = TransmitEvent::Sent(
        from as usize,
        step_result(outcomes[from as int], from, count),
    );
    let after = transmission_trace(count, outcomes, sent, (fuel - 1) as nat);
    let trace = transmission_trace(count, outcomes, event, fuel);
    assert(trace == seq![TransmitAction::Send(from as usize)] + after);
    lemma_handed_over_prepend(packets, TransmitAction::Send(from as usize), after);
    lemma_first_failure_bounds(count, outcomes, from);
    if outcomes[from as int] is Err {
        let fin = TransmitAction::Finish(Err(outcomes[from as int]->Err_0));
        assert(after =~= seq![fin]);
        lemma_handed_over_prepend(packets, fin, Seq::empty());
        assert(seq![fin] + Seq::<TransmitAction>::empty() =~= seq![fin]);
        assert(handed_over(packets, Seq::<TransmitAction>::empty()) =~= Seq::<Seq<u8>>::empty());
        assert(packets.subrange(from as int, from + 1int) =~= seq![packets[from as int]]);
        assert(handed_over(packets, trace) =~= seq![packets[from as int]]);
    } else if from + 1 < count {
        let paused = TransmitEvent::Paused(from as usize);
        let later = transmission_trace(count, outcomes, paused, (fuel - 2) as nat);
        assert(after == seq![TransmitAction::Pause(from as usize)] + later);
        lemma_handed_over_prepend(packets, TransmitAction::Pause(from as usize), later);
        lemma_handed_from_send(count, outcomes, packets, paused, from + 1, (fuel - 2) as nat);
        lemma_first_failure_bounds(count, outcomes, from + 1);
        assert(first_failure(count, outcomes, from) == first_failure(count, outcomes, from + 1));
        let end = handed_end(count, outcomes, from);
        assert(packets.subrange(from as int, end as int) =~= seq![packets[from as int]]
            + packets.subrange(from + 1int, end as int));
    } else {
        let fin = TransmitAction::Finish(Ok(()));
        assert(after =~= seq![fin]);
        lemma_handed_over_prepend(packets, fin, Seq::empty());
        assert(seq![fin] + Seq::<TransmitAction>::empty() =~= seq![fin]);
        assert(handed_over(packets, Seq::<TransmitAction>::empty()) =~= Seq::<Seq<u8>>::empty());
        assert(first_failure(count, outcomes, from + 1) == count);
        assert(packets.subrange(from as int, from + 1int) =~= seq![packets[from as int]]);
        assert(handed_over(packets, trace) =~= seq![packets[from as int]]);
    }
}

/// Transmission takes the packet list in order, each packet once: the
/// `Send` steps are for the list up to and including the first packet whose
/// step fails (`outcomes[i]` is the outcome of the step of packet `i`), and
/// for the whole list when none fails, in which case transmission then ends
/// with success. A step hands its packet to the transport (see
/// [`FiudpSender::transmit_packet`]) unless sealing the packet fails.
pub proof fn law_transport_receives_packets(
    packets: Seq<Seq<u8>>,
    outcomes: Seq<Result<(), FiudpError>>,
)
    requires
        packets.len() <= usize::MAX,
        outcomes.len() >= packets.len(),
    ensures
        ({
            let count = packets.len();
            let trace = transmission_trace(count, outcomes, TransmitEvent::Start, 2 * count + 1);
            &&& handed_over(packets, trace) == packets.take(handed_end(count, outcomes, 0) as int)
            &&& (forall|i: int| 0 <= i < count ==> #[trigger] outcomes[i] is Ok) ==> {
                &&& handed_over(packets, trace) == packets
                &&& trace.last() == TransmitAction::Finish(Ok(()))
            }
        }),
{
    let count = packets.len();
    let trace = transmission_trace(count, outcomes, TransmitEvent::Start, 2 * count + 1);
    lemma_first_failure_bounds(count, outcomes, 0);
    if count == 0 {
        let fin = TransmitAction::Finish(Ok(()));
        assert(trace =~= seq![fin]);
        lemma_handed_over_prepend(packets, fin, Seq::empty());
        assert(seq![fin] + Seq::<TransmitAction>::empty() =~= seq![fin]);
        assert(handed_over(packets, Seq::<TransmitAction>::empty()) =~= Seq::<Seq<u8>>::empty());
        assert(handed_over(packets, trace) =~= packets.take(0));
        assert(packets =~= packets.take(0));
    } else {
        lemma_handed_from_send(count, outcomes, packets, TransmitEvent::Start, 0, 2 * count + 1);
        assert(packets.subrange(0, handed_end(count, outcomes, 0) as int) =~= packets.take(
            handed_end(count, outcomes, 0) as int,
        ));
        if forall|i: int| 0 <= i < count ==> #[trigger] outcomes[i] is Ok {
            assert(first_failure(count, outcomes, 0) == count);
            assert(packets.take(count as int) =~= packets);
            lemma_trace_from_send(count, outcomes, TransmitEvent::Start, 0, 2 * count + 1);
            let outline = transmission_outline(count, outcomes, 0);
            assert(outline.last() == TransmitAction::Finish(Ok(())));
        }
    }
}

/// Check that the transport accepted a whole packet: `ShortSend` otherwise.
pub fn require_full_send(sent: usize, expected: usize) -> (r: Result<(), FiudpError>)
    ensures
        sent == expected <==> r is Ok,
        r is Err ==> r == Err::<(), FiudpError>(FiudpError::ShortSend { sent, expected }),
{
    if sent != expected {
        return Err(FiudpError::ShortSend { sent, expected });
    }
    Ok(())
}

/// Whether `out` is what transmission preparation can yield from the frame
/// `frame`: its packets under the given perturbations.
pub open spec fn prepared_from<F: FecEngine, E: Encryptor>(
    fec: F,
    encryptor: E,
    frame: Seq<u8>,
    parity_ratio: u8,
    rendezvous_secs: u32,
    session_id: u16,
    drop: u8,
    burst: u32,
    shuffle: bool,
    out: Seq<[u8; PACKET_SIZE]>,
) -> bool {
    exists|all: Seq<[u8; PACKET_SIZE]>|
        #![trigger packet_views(all)]
        {
            &&& packet_views(all) == frame_packets(
                fec,
                encryptor,
                frame,
                parity_ratio,
                rendezvous_secs,
                session_id,
            )
            &&& chaos_outcome(all, out, drop, burst, shuffle)
        }
}

/// A frame made ready for transmission.
pub enum PreparedFrame {
    /// Coded shards, each sealed into its packet as the packet is sent.
    Streamed(CodedFrame),
    /// Every packet, built before the first is sent (test perturbations apply).
    Buffered(Vec<[u8; PACKET_SIZE]>),
}

impl PreparedFrame {
    /// The number of packets to transmit.
    pub open spec fn spec_count(&self) -> nat {
        match self {
            PreparedFrame::Streamed(coded) => coded.shards_view().len(),
            PreparedFrame::Buffered(packets) => packets@.len(),
        }
    }

    /// The number of packets to transmit.
    pub fn packet_count(&self) -> (r: usize)
        ensures
            r == self.spec_count(),
    {
        match self {
            PreparedFrame::Streamed(coded) => coded.shard_count(),
            PreparedFrame::Buffered(packets) => packets.len(),
        }
    }
}

/// A streamed frame sends the packets of its frame: the packet that carries
/// shard `i` of the coded frame is packet `i` of [`frame_packets`].
pub proof fn law_streamed_packets_are_frame_packets<F: FecEngine, E: Encryptor>(
    fec: F,
    encryptor: E,
    frame: Seq<u8>,
    parity_ratio: u8,
    rendezvous_secs: u32,
    session_id: u16,
    coded: CodedFrame,
)
    requires
        coded_from(fec, frame, parity_ratio, rendezvous_secs, session_id, coded),
    ensures
        ({
            let packets = frame_packets(
                fec,
                encryptor,
                frame,
                parity_ratio,
                rendezvous_secs,
                session_id,
            );
            &&& packets.len() == coded.shards_view().len()
            &&& forall|i: int|
                0 <= i < packets.len() ==> #[trigger] coded.packet_of(encryptor, i) == packets[i]
        }),
{
}

/// Orchestrates the transmission of one frame.
///
/// Generic over its frame source `R`, erasure coder `F`, encryptor `E` and
/// transport `S`. The three chaos settings perturb the packet list for
/// testing: a random burst drop, a random per-packet drop (percent), and a
/// shuffle.
pub struct FiudpSender<R, F, E, S> {
    reader: R,
    fec: F,
    encryptor: E,
    sender: S,
    delay: std::time::Duration,
    chaos_drop: u8,
    chaos_burst: u32,
    chaos_shuffle: bool,
}

impl<R, F, E, S> FiudpSender<R, F, E, S> {
    /// The frame source.
    pub closed spec fn spec_reader(&self) -> R {
        self.reader
    }

    /// The transport.
    pub closed spec fn spec_sender(&self) -> S {
        self.sender
    }

    /// The erasure coder.
    pub closed spec fn spec_fec(&self) -> F {
        self.fec
    }

    /// The encryptor.
    pub closed spec fn spec_encryptor(&self) -> E {
        self.encryptor
    }

    /// The pause between two packets.
    pub closed spec fn spec_delay(&self) -> std::time::Duration {
        self.delay
    }

    /// Percentage of packets dropped at random.
    pub closed spec fn spec_chaos_drop(&self) -> u8 {
        self.chaos_drop
    }

    /// Length of the burst of consecutive packets dropped.
    pub closed spec fn spec_chaos_burst(&self) -> u32 {
        self.chaos_burst
    }

    /// Whether the packets are shuffled.
    pub closed spec fn spec_chaos_shuffle(&self) -> bool {
        self.chaos_shuffle
    }

    /// Create a sender from its parts.
    pub fn new(
        reader: R,
        fec: F,
        encryptor: E,
        sender: S,
        delay: std::time::Duration,
        chaos_drop: u8,
        chaos_burst: u32,
        chaos_shuffle: bool,
    ) -> (r: Self)
        ensures
            r.spec_reader() == reader,
            r.spec_sender() == sender,
            r.spec_fec() == fec,
            r.spec_encryptor() == encryptor,
            r.spec_delay() == delay,
            r.spec_chaos_drop() == chaos_drop,
            r.spec_chaos_burst() == chaos_burst,
            r.spec_chaos_shuffle() == chaos_shuffle,
    {
        FiudpSender {
            reader,
            fec,
            encryptor,
            sender,
            delay,
            chaos_drop,
            chaos_burst,
            chaos_shuffle,
        }
    }

    /// The pause that separates two consecutive packets.
    pub fn delay(&self) -> (r: std::time::Duration)
        ensures
            r == self.spec_delay(),
    {
        self.delay
    }
}

impl<R, F: FecEngine, E: Encryptor, S> FiudpSender<R, F, E, S> {
    /// Turn one frame into the list of packets to transmit: its packets
    /// from [`encode_frame`], with the configured test perturbations applied.
    ///
    /// Fails exactly as [`encode_frame`] does on this frame.
    pub fn packets_for_frame(
        &self,
        frame: Vec<u8>,
        parity_ratio: ParityRatio,
        rendezvous_secs: RendezvousSecs,
        session_id: SessionId,
    ) -> (r: Result<Vec<[u8; PACKET_SIZE]>, FiudpError>)
        ensures
            frame@.len() == 0 ==> r == Err::<Vec<[u8; PACKET_SIZE]>, FiudpError>(
                FiudpError::EmptyInput,
            ),
            ({
                let d = data_shard_count(frame@.len());
                let p = parity_shards_for(parity_ratio@, d);
                &&& frame@.len() > 0 && d + p > MAX_TOTAL_SHARDS ==> r == Err::<
                    Vec<[u8; PACKET_SIZE]>,
                    FiudpError,
                >(FiudpError::TooManyShards((d + p) as usize))
                &&& frame@.len() > 0 && d + p <= MAX_TOTAL_SHARDS && (p > 0
                    ==> self.spec_fec().accepts(d, p, unencoded_shards(frame@, p)))
                    && self.spec_encryptor().accepts(SHARD_SIZE as nat) ==> r is Ok
            }),
            r is Ok ==> prepared_from(
                self.spec_fec(),
                self.spec_encryptor(),
                frame@,
                parity_ratio@,
                rendezvous_secs@,
                session_id@,
                self.spec_chaos_drop(),
                self.spec_chaos_burst(),
                self.spec_chaos_shuffle(),
                r->Ok_0@,
            ),
            r matches Err(e) ==> frame_failure(
                self.spec_fec(),
                self.spec_encryptor(),
                frame@,
                parity_ratio@,
                rendezvous_secs@,
                session_id@,
                e,
            ),
            r is Ok && self.spec_chaos_drop() == 0 && self.spec_chaos_burst() == 0
                && !self.spec_chaos_shuffle() ==> packet_views(r->Ok_0@) == frame_packets(
                self.spec_fec(),
                self.spec_encryptor(),
                frame@,
                parity_ratio@,
                rendezvous_secs@,
                session_id@,
            ),
    {
        let ghost frame_view = frame@;
        let mut packets = encode_frame(
            &self.fec,
            &self.encryptor,
            frame,
            parity_ratio,
            rendezvous_secs,
            session_id,
        )?;
        let ghost all = packets@;
        apply_chaos(&mut packets, self.chaos_drop, self.chaos_burst, self.chaos_shuffle);
        let res: Result<Vec<[u8; PACKET_SIZE]>, FiudpError> = Ok(packets);
        assert(packet_views(all) == frame_packets(
            self.spec_fec(),
            self.spec_encryptor(),
            frame_view,
            parity_ratio@,
            rendezvous_secs@,
            session_id@,
        ));
        assert(prepared_from(
            self.spec_fec(),
            self.spec_encryptor(),
            frame_view,
            parity_ratio@,
            rendezvous_secs@,
            session_id@,
            self.spec_chaos_drop(),
            self.spec_chaos_burst(),
            self.spec_chaos_shuffle(),
            res->Ok_0@,
        ));
        res
    }
}

impl<R: InputReader, F: FecEngine, E: Encryptor, S: PacketSender> FiudpSender<R, F, E, S> {
    /// Whether packets go out as their shards are sealed: when no test
    /// perturbation is configured.
    pub open spec fn spec_streams(&self) -> bool {
        self.spec_chaos_drop() == 0 && self.spec_chaos_burst() == 0 && !self.spec_chaos_shuffle()
    }

    /// Whether preparing `frame` can fail with `err`: as coding can when
    /// packets are streamed, as encoding can otherwise.
    pub open spec fn preparation_failure(
        &self,
        frame: Seq<u8>,
        parity_ratio: u8,
        rendezvous_secs: u32,
        session_id: u16,
        err: FiudpError,
    ) -> bool {
        if self.spec_streams() {
            coding_failure(self.spec_fec(), frame, parity_ratio, err)
        } else {
            frame_failure(
                self.spec_fec(),
                self.spec_encryptor(),
                frame,
                parity_ratio,
                rendezvous_secs,
                session_id,
                err,
            )
        }
    }

    /// Read the frame and make it ready for transmission.
    ///
    /// Without test perturbations the frame is coded, and each shard is
    /// sealed when its packet is sent; with them, every packet is built
    /// first and the perturbations are applied to the list. An error of the
    /// reader is passed on.
    pub fn prepare(
        &self,
        parity_ratio: ParityRatio,
        rendezvous_secs: RendezvousSecs,
        session_id: SessionId,
    ) -> (r: Result<PreparedFrame, FiudpError>)
        ensures
            r matches Ok(PreparedFrame::Streamed(coded)) ==> (self.spec_streams() && exists|
                frame: Seq<u8>,
            |
                frame.len() > 0 && self.spec_reader().can_yield(Ok(frame)) && #[trigger] coded_from(
                    self.spec_fec(),
                    frame,
                    parity_ratio@,
                    rendezvous_secs@,
                    session_id@,
                    coded,
                )),
            r matches Ok(PreparedFrame::Buffered(packets)) ==> (!self.spec_streams() && exists|
                frame: Seq<u8>,
            |
                frame.len() > 0 && self.spec_reader().can_yield(Ok(frame)) && #[trigger] prepared_from(
                    self.spec_fec(),
                    self.spec_encryptor(),
                    frame,
                    parity_ratio@,
                    rendezvous_secs@,
                    session_id@,
                    self.spec_chaos_drop(),
                    self.spec_chaos_burst(),
                    self.spec_chaos_shuffle(),
                    packets@,
                )),
            (match r {
                Err(e) => self.spec_reader().can_yield(Err(e)) || exists|frame: Seq<u8>|
                    self.spec_reader().can_yield(Ok(frame)) && #[trigger] self.preparation_failure(
                        frame,
                        parity_ratio@,
                        rendezvous_secs@,
                        session_id@,
                        e,
                    ),
                Ok(_) => true,
            }),
    {
        let frame = match self.reader.read_all() {
            Ok(frame) => frame,
            Err(e) => {
                assert(self.spec_reader().can_yield(Err(e)));
                return Err(e);
            },
        };
        let ghost frame_view = frame@;
        assert(self.spec_reader().can_yield(Ok(frame_view)));
        if self.chaos_drop == 0 && self.chaos_burst == 0 && !self.chaos_shuffle {
            match code_frame(&self.fec, frame, parity_ratio, rendezvous_secs, session_id) {
                Ok(coded) => {
                    assert(frame_view.len() > 0);
                    assert(self.spec_streams());
                    assert(coded_from(
                        self.spec_fec(),
                        frame_view,
                        parity_ratio@,
                        rendezvous_secs@,
                        session_id@,
                        coded,
                    ));
                    let ghost kept = coded;
                    let res: Result<PreparedFrame, FiudpError> = Ok(PreparedFrame::Streamed(coded));
                    assert(res matches Ok(PreparedFrame::Streamed(c)) && c == kept);
                    assert(exists|frame: Seq<u8>|
                        frame.len() > 0 && self.spec_reader().can_yield(Ok(frame)) && #[trigger] coded_from(
                            self.spec_fec(),
                            frame,
                            parity_ratio@,
                            rendezvous_secs@,
                            session_id@,
                            kept,
                        ));
                    res
                },
                Err(e) => {
                    assert(self.preparation_failure(
                        frame_view,
                        parity_ratio@,
                        rendezvous_secs@,
                        session_id@,
                        e,
                    ));
                    Err(e)
                },
            }
        } else {
            match self.packets_for_frame(frame, parity_ratio, rendezvous_secs, session_id) {
                Ok(packets) => {
                    assert(frame_view.len() > 0);
                    assert(!self.spec_streams());
                    assert(prepared_from(
                        self.spec_fec(),
                        self.spec_encryptor(),
                        frame_view,
                        parity_ratio@,
                        rendezvous_secs@,
                        session_id@,
                        self.spec_chaos_drop(),
                        self.spec_chaos_burst(),
                        self.spec_chaos_shuffle(),
                        packets@,
                    ));
                    assert(exists|frame: Seq<u8>|
                        frame.len() > 0 && self.spec_reader().can_yield(Ok(frame)) && #[trigger] prepared_from(
                            self.spec_fec(),
                            self.spec_encryptor(),
                            frame,
                            parity_ratio@,
                            rendezvous_secs@,
                            session_id@,
                            self.spec_chaos_drop(),
                            self.spec_chaos_burst(),
                            self.spec_chaos_shuffle(),
                            packets@,
                        ));
                    let ghost kept = packets@;
                    let res: Result<PreparedFrame, FiudpError> = Ok(PreparedFrame::Buffered(packets));
                    assert(res matches Ok(PreparedFrame::Buffered(v)) && v@ == kept);
                    res
                },
                Err(e) => {
                    assert(frame_failure(
                        self.spec_fec(),
                        self.spec_encryptor(),
                        frame_view,
                        parity_ratio@,
                        rendezvous_secs@,
                        session_id@,
                        e,
                    ));
                    assert(self.preparation_failure(
                        frame_view,
                        parity_ratio@,
                        rendezvous_secs@,
                        session_id@,
                        e,
                    ));
                    Err(e)
                },
            }
        }
    }

    /// Hand packet `index` of a prepared frame to the transport, sealing its
    /// shard first when the frame is streamed.
    ///
    /// An error of the encryptor (before anything is handed over) or of the
    /// transport is passed on; on success, tells whether the caller pauses
    /// for [`Self::delay`] before the next packet (see [`transmission_step`]).
    pub fn transmit_packet(&self, prepared: &PreparedFrame, index: usize) -> (r: Result<
        bool,
        FiudpError,
    >)
        requires
            index < prepared.spec_count(),
        ensures
            (match prepared {
                PreparedFrame::Buffered(packets) => exists|outcome: Result<(), FiudpError>|
                    #[trigger] self.spec_sender().handles(packets@[index as int]@, outcome) && r
                        == step_result(outcome, index as nat, packets@.len()),
                PreparedFrame::Streamed(coded) => {
                    let packet = coded.packet_of(self.spec_encryptor(), index as int);
                    ||| exists|outcome: Result<(), FiudpError>|
                        #[trigger] self.spec_sender().handles(packet, outcome) && r == step_result(
                            outcome,
                            index as nat,
                            coded.shards_view().len(),
                        )
                    ||| !self.spec_encryptor().accepts(SHARD_SIZE as nat) && (r matches Err(e)
                        && shard_rejects(
                        self.spec_encryptor(),
                        coded.shards_view(),
                        coded.spec_session_id(),
                        coded.spec_rendezvous_secs(),
                        coded.spec_data_shards(),
                        coded.spec_parity_shards(),
                        index as int,
                        e,
                    ))
                },
            }),
    {
        match prepared {
            PreparedFrame::Buffered(packets) => self.send_packet(packets, index),
            PreparedFrame::Streamed(coded) => {
                let packet = match coded.seal_shard(&self.encryptor, index) {
                    Ok(packet) => packet,
                    Err(e) => {
                        return Err(e);
                    },
                };
                let outcome = self.sender.send(packet.as_slice());
                let ghost sent = outcome;
                let r = transmission_step(outcome, index, coded.shard_count());
                assert(self.spec_sender().handles(
                    coded.packet_of(self.spec_encryptor(), index as int),
                    sent,
                ));
                r
            },
        }
    }

    /// Hand packet `index` to the transport.
    ///
    /// An error of the transport is passed on; on success, tells whether the
    /// caller pauses for [`Self::delay`] before the next packet: after every
    /// packet but the last (see [`transmission_step`]).
    pub fn send_packet(&self, packets: &Vec<[u8; PACKET_SIZE]>, index: usize) -> (r: Result<
        bool,
        FiudpError,
    >)
        requires
            index < packets@.len(),
        ensures
            exists|outcome: Result<(), FiudpError>|
                #[trigger] self.spec_sender().handles(packets@[index as int]@, outcome) && r
                    == step_result(outcome, index as nat, packets@.len()),
    {
        let packet: &[u8] = packets[index].as_slice();
        let outcome = self.sender.send(packet);
        let ghost sent = outcome;
        let r = transmission_step(outcome, index, packets.len());
        assert(self.spec_sender().handles(packets@[index as int]@, sent));
        r
    }
}

/// The data shards carry the frame: there are `padded_len / SHARD_SIZE` of
/// them, each [`SHARD_SIZE`] bytes long, and byte `j` of the zero-padded
/// frame is byte `j % SHARD_SIZE` of data shard `j / SHARD_SIZE`.
pub proof fn law_data_shards_carry_frame(frame: Seq<u8>)
    ensures
        data_shards_of(frame).len() * SHARD_SIZE == padded_frame(frame).len(),
        forall|i: int|
            0 <= i < data_shards_of(frame).len() ==> (#[trigger] data_shards_of(frame)[i]).len()
                == SHARD_SIZE,
        forall|j: int|
            0 <= j < padded_frame(frame).len() ==> #[trigger] padded_frame(frame)[j]
                == data_shards_of(frame)[j / SHARD_SIZE as int][j % SHARD_SIZE as int],
{
    let padded = padded_frame(frame);
    let d = data_shard_count(frame.len());
    assert(padded.len() == d * SHARD_SIZE);
    assert forall|i: int| 0 <= i < d implies (#[trigger] data_shards_of(frame)[i]).len()
        == SHARD_SIZE by {
        assert(i * SHARD_SIZE + SHARD_SIZE <= d * SHARD_SIZE) by (nonlinear_arith)
            requires
                0 <= i < d,
        ;
    }
    assert forall|j: int| 0 <= j < padded.len() implies #[trigger] padded[j]
        == data_shards_of(frame)[j / SHARD_SIZE as int][j % SHARD_SIZE as int] by {
        let i = j / SHARD_SIZE as int;
        assert(0 <= i < d);
        assert(i * SHARD_SIZE + SHARD_SIZE <= d * SHARD_SIZE) by (nonlinear_arith)
            requires
                0 <= i < d,
        ;
        assert(j == i * SHARD_SIZE + j % SHARD_SIZE as int);
    }
}

/// Every packet of a frame starts with the header of its own shard: the
/// session identifier, its index, the shard counts and the rendezvous
/// timer. Within a frame of at most [`MAX_TOTAL_SHARDS`] shards, no two
/// shards share a nonce.
pub proof fn law_frame_packet_headers<F: FecEngine, E: Encryptor>(
    fec: F,
    encryptor: E,
    frame: Seq<u8>,
    parity_ratio: u8,
    rendezvous_secs: u32,
    session_id: u16,
)
    requires
        parity_ratio <= 100,
        data_shard_count(frame.len()) + parity_shards_for(
            parity_ratio,
            data_shard_count(frame.len()),
        ) <= MAX_TOTAL_SHARDS,
    ensures
        ({
            let d = data_shard_count(frame.len());
            let p = parity_shards_for(parity_ratio, d);
            let packets = frame_packets(
                fec,
                encryptor,
                frame,
                parity_ratio,
                rendezvous_secs,
                session_id,
            );
            &&& packets.len() == d + p
            &&& forall|i: int|
                0 <= i < d + p ==> (#[trigger] packets[i]).subrange(0, AAD_SIZE as int)
                    == header_aad(session_id, i as u16, d as u16, p as u16, rendezvous_secs)
            &&& forall|i: int, j: int|
                0 <= i < d + p && 0 <= j < d + p && i != j ==> #[trigger] nonce_bytes(
                    session_id,
                    i as u16,
                ) != #[trigger] nonce_bytes(session_id, j as u16)
        }),
{
    let d = data_shard_count(frame.len());
    let p = parity_shards_for(parity_ratio, d);
    let packets = frame_packets(fec, encryptor, frame, parity_ratio, rendezvous_secs, session_id);
    assert forall|i: int| 0 <= i < d + p implies (#[trigger] packets[i]).subrange(
        0,
        AAD_SIZE as int,
    ) == header_aad(session_id, i as u16, d as u16, p as u16, rendezvous_secs) by {
        let aad = header_aad(session_id, i as u16, d as u16, p as u16, rendezvous_secs);
        assert(packets[i].subrange(0, AAD_SIZE as int) =~= aad);
    }
    assert forall|i: int, j: int|
        0 <= i < d + p && 0 <= j < d + p && i != j implies #[trigger] nonce_bytes(
            session_id,
            i as u16,
        ) != #[trigger] nonce_bytes(session_id, j as u16) by {
        law_nonce_unique(session_id, i as u16, session_id, j as u16);
    }
}

proof fn lemma_kept_by_rolls_sub_multiset<A>(s: Seq<A>, rolls: Seq<usize>, threshold: usize)
    ensures
        kept_by_rolls(s, rolls, threshold).to_multiset().subset_of(s.to_multiset()),
    decreases s.len(),
{
    broadcast use vstd::seq_lib::to_multiset_build;
    broadcast use vstd::seq_lib::group_to_multiset_ensures;
    broadcast use vstd::multiset::group_multiset_axioms;

    let kept = kept_by_rolls(s, rolls, threshold);
    if s.len() == 0 {
        assert(kept.to_multiset() =~= vstd::multiset::Multiset::empty());
    } else {
        let s0 = s.drop_last();
        let k0 = kept_by_rolls(s0, rolls, threshold);
        lemma_kept_by_rolls_sub_multiset(s0, rolls, threshold);
        assert(s0.push(s.last()) =~= s);
        assert(s.to_multiset() =~= s0.to_multiset().insert(s.last()));
        assert forall|v: A| kept.to_multiset().count(v) <= s.to_multiset().count(v) by {
            assert(k0.to_multiset().count(v) <= s0.to_multiset().count(v));
            if rolls[s.len() - 1] >= threshold {
                assert(kept.to_multiset() =~= k0.to_multiset().insert(s.last()));
            }
        }
    }
}

proof fn lemma_without_burst_sub_multiset<A>(s: Seq<A>, start: nat, burst: nat)
    requires
        start <= s.len(),
    ensures
        without_burst(s, start, burst).to_multiset().subset_of(s.to_multiset()),
{
    broadcast use vstd::seq_lib::lemma_multiset_commutative;
    broadcast use vstd::multiset::group_multiset_axioms;

    let end = if start + burst <= s.len() { start + burst } else { s.len() };
    assert(s =~= s.take(start as int) + (s.subrange(start as int, end as int) + s.skip(
        end as int,
    )));
}

/// The test perturbations never add or alter a packet: what comes out is a
/// sub-multiset of what went in, and never longer.
pub proof fn law_chaos_only_removes<A>(
    all: Seq<A>,
    out: Seq<A>,
    drop: u8,
    burst: u32,
    shuffle: bool,
)
    requires
        chaos_outcome(all, out, drop, burst, shuffle),
    ensures
        out.to_multiset().subset_of(all.to_multiset()),
        out.len() <= all.len(),
{
    broadcast use vstd::seq_lib::to_multiset_len;
    broadcast use vstd::multiset::group_multiset_axioms;

    let (start, rolls) = choose|start: nat, rolls: Seq<usize>|
        #![trigger dropped_packets(all, drop, burst, start, rolls)]
        {
            let kept = dropped_packets(all, drop, burst, start, rolls);
            &&& possible_draws(all, burst, start, rolls)
            &&& if shuffle {
                out.to_multiset() == kept.to_multiset()
            } else {
                out == kept
            }
        };
    let b = after_burst(all, burst, start);
    if burst > 0 && all.len() > 0 {
        lemma_without_burst_sub_multiset(all, start, burst as nat);
    }
    let kept = dropped_packets(all, drop, burst, start, rolls);
    if drop > 0 {
        lemma_kept_by_rolls_sub_multiset(b, rolls, drop as usize);
    }
    assert(kept.to_multiset().subset_of(all.to_multiset()));
    assert(out.to_multiset().subset_of(all.to_multiset()));
    assert(all.to_multiset().sub(out.to_multiset()).len() == all.to_multiset().len()
        - out.to_multiset().len());
}

/// With the shuffle alone, the packets are a permutation of the frame's
/// packets: the same multiset, and as many.
pub proof fn law_shuffle_permutes<A>(all: Seq<A>, out: Seq<A>)
    requires
        chaos_outcome(all, out, 0, 0, true),
    ensures
        out.to_multiset() == all.to_multiset(),
        out.len() == all.len(),
{
    broadcast use vstd::seq_lib::to_multiset_len;

    let (start, rolls) = choose|start: nat, rolls: Seq<usize>|
        #![trigger dropped_packets(all, 0, 0, start, rolls)]
        {
            let kept = dropped_packets(all, 0, 0, start, rolls);
            &&& possible_draws(all, 0, start, rolls)
            &&& out.to_multiset() == kept.to_multiset()
        };
    assert(dropped_packets(all, 0, 0, start, rolls) == all);
    assert(out.to_multiset().len() == out.len());
    assert(all.to_multiset().len() == all.len());
}

/// With the burst drop alone (`burst > 0`), exactly one run of consecutive
/// packets is dropped: `min(burst, len)` of them, from a start no later than
/// `len - burst` (`0` when the list is shorter than the burst); the rest keep
/// their order.
pub proof fn law_burst_drops_one_run<A>(all: Seq<A>, out: Seq<A>, burst: u32)
    requires
        burst > 0,
        chaos_outcome(all, out, 0, burst, false),
    ensures
        exists|start: nat|
            start <= (if all.len() >= burst { all.len() - burst } else { 0 }) && out == all.take(
                start as int,
            ) + all.skip(
                (if start + burst <= all.len() {
                    start + burst
                } else {
                    all.len() as int
                }) as int,
            ),
{
    let (start, rolls) = choose|start: nat, rolls: Seq<usize>|
        #![trigger dropped_packets(all, 0, burst, start, rolls)]
        {
            let kept = dropped_packets(all, 0, burst, start, rolls);
            &&& possible_draws(all, burst, start, rolls)
            &&& out == kept
        };
    let end: int = if start + burst <= all.len() { start + burst } else { all.len() as int };
    assert(out =~= all.take(start as int) + all.skip(end));
}

/// The shards of a frame before erasure coding, written out: shard `i < d`
/// holds bytes `i * SHARD_SIZE ..` of the frame, zero past its end, and the
/// `p` parity buffers hold zeros.
proof fn lemma_unencoded_shards_bytes(frame: Seq<u8>, p: nat)
    requires
        frame.len() > 0,
    ensures
        ({
            let d = data_shard_count(frame.len());
            unencoded_shards(frame, p) == Seq::new(
                d + p,
                |i: int|
                    Seq::new(
                        SHARD_SIZE as nat,
                        |j: int|
                            if i < d && i * SHARD_SIZE + j < frame.len() {
                                frame[i * SHARD_SIZE + j]
                            } else {
                                0u8
                            },
                    ),
            )
        }),
        data_shards_of(frame) == unencoded_shards(frame, 0),
{
    let d = data_shard_count(frame.len());
    let padded = padded_frame(frame);
    lemma_data_shard_count(frame.len());
    let plain = Seq::new(
        d + p,
        |i: int|
            Seq::new(
                SHARD_SIZE as nat,
                |j: int|
                    if i < d && i * SHARD_SIZE + j < frame.len() {
                        frame[i * SHARD_SIZE + j]
                    } else {
                        0u8
                    },
            ),
    );
    let u = unencoded_shards(frame, p);
    assert forall|i: int| 0 <= i < d + p implies #[trigger] u[i] == plain[i] by {
        if i < d {
            assert(i * SHARD_SIZE + SHARD_SIZE <= d * SHARD_SIZE) by (nonlinear_arith)
                requires
                    0 <= i < d,
            ;
            assert(u[i] == data_shards_of(frame)[i]);
            assert forall|j: int| 0 <= j < SHARD_SIZE implies #[trigger] u[i][j] == plain[i][j] by {
                assert(u[i][j] == padded[i * SHARD_SIZE + j]);
            }
            assert(u[i] =~= plain[i]);
        } else {
            assert(u[i] =~= plain[i]);
        }
    }
    assert(u =~= plain);
    assert(data_shards_of(frame) =~= unencoded_shards(frame, 0));
}

/// What every packet of a frame is, byte for byte: packet `i` is its
/// 12-byte header (session id, shard index, data and parity shard counts,
/// each big-endian, then the big-endian rendezvous timer), then the tag and
/// then the ciphertext of sealing shard `i` under the nonce made of the
/// packet's own first four header bytes (session id and shard index)
/// followed by eight zero bytes, with the header as associated data. The
/// shards sealed are the frame cut into `SHARD_SIZE`-byte pieces, zero past
/// its end, followed by `p` zeroed parity buffers; whenever `p >= 1` they
/// are sealed after the erasure coder has run on them.
pub proof fn law_frame_packet_bytes<F: FecEngine, E: Encryptor>(
    fec: F,
    encryptor: E,
    frame: Seq<u8>,
    parity_ratio: u8,
    rendezvous_secs: u32,
    session_id: u16,
)
    requires
        frame.len() > 0,
        data_shard_count(frame.len()) + parity_shards_for(
            parity_ratio,
            data_shard_count(frame.len()),
        ) <= MAX_TOTAL_SHARDS,
    ensures
        ({
            let d = data_shard_count(frame.len());
            let p = parity_shards_for(parity_ratio, d);
            let plain = Seq::new(
                d + p,
                |i: int|
                    Seq::new(
                        SHARD_SIZE as nat,
                        |j: int|
                            if i < d && i * SHARD_SIZE + j < frame.len() {
                                frame[i * SHARD_SIZE + j]
                            } else {
                                0u8
                            },
                    ),
            );
            let shards = if p == 0 {
                plain
            } else {
                fec.encoded(d, p, plain)
            };
            let packets = frame_packets(
                fec,
                encryptor,
                frame,
                parity_ratio,
                rendezvous_secs,
                session_id,
            );
            &&& packets.len() == d + p
            &&& forall|i: int|
                0 <= i < d + p ==> {
                    let header = seq![
                        (session_id / 256) as u8,
                        (session_id % 256) as u8,
                        (i / 256) as u8,
                        (i % 256) as u8,
                        (d / 256) as u8,
                        (d % 256) as u8,
                        (p / 256) as u8,
                        (p % 256) as u8,
                        (rendezvous_secs / 0x100_0000) as u8,
                        ((rendezvous_secs / 0x1_0000) % 256) as u8,
                        ((rendezvous_secs / 256) % 256) as u8,
                        (rendezvous_secs % 256) as u8,
                    ];
                    let nonce = header.subrange(0, 4) + seq![0u8, 0u8, 0u8, 0u8, 0u8, 0u8, 0u8, 0u8];
                    let sealed = encryptor.sealed(nonce, header, shards[i]);
                    #[trigger] packets[i] == header + sealed.1 + sealed.0
                }
        }),
{
    let d = data_shard_count(frame.len());
    let p = parity_shards_for(parity_ratio, d);
    lemma_unencoded_shards_bytes(frame, p);
    let packets = frame_packets(fec, encryptor, frame, parity_ratio, rendezvous_secs, session_id);
    assert forall|i: int| 0 <= i < d + p implies {
        let header = seq![
            (session_id / 256) as u8,
            (session_id % 256) as u8,
            (i / 256) as u8,
            (i % 256) as u8,
            (d / 256) as u8,
            (d % 256) as u8,
            (p / 256) as u8,
            (p % 256) as u8,
            (rendezvous_secs / 0x100_0000) as u8,
            ((rendezvous_secs / 0x1_0000) % 256) as u8,
            ((rendezvous_secs / 256) % 256) as u8,
            (rendezvous_secs % 256) as u8,
        ];
        let nonce = header.subrange(0, 4) + seq![0u8, 0u8, 0u8, 0u8, 0u8, 0u8, 0u8, 0u8];
        let plain = unencoded_shards(frame, p);
        let shards = if p == 0 {
            plain
        } else {
            fec.encoded(d, p, plain)
        };
        let sealed = encryptor.sealed(nonce, header, shards[i]);
        #[trigger] packets[i] == header + sealed.1 + sealed.0
    } by {
        let header = seq![
            (session_id / 256) as u8,
            (session_id % 256) as u8,
            (i / 256) as u8,
            (i % 256) as u8,
            (d / 256) as u8,
            (d % 256) as u8,
            (p / 256) as u8,
            (p % 256) as u8,
            (rendezvous_secs / 0x100_0000) as u8,
            ((rendezvous_secs / 0x1_0000) % 256) as u8,
            ((rendezvous_secs / 256) % 256) as u8,
            (rendezvous_secs % 256) as u8,
        ];
        let aad = header_aad(session_id, i as u16, d as u16, p as u16, rendezvous_secs);
        assert(aad =~= header);
        let nonce = header.subrange(0, 4) + seq![0u8, 0u8, 0u8, 0u8, 0u8, 0u8, 0u8, 0u8];
        assert(nonce_bytes(session_id, i as u16) =~= nonce);
    }
}

/// Reed-Solomon codes every frame whose shards fit one code: whenever a
/// frame needs at least one parity shard and at most 256 shards in all (at
/// a ratio of 100 up to 128 data shards; with a single data shard at any
/// non-zero ratio), the coder accepts its shards, so the frame encodes to
/// `d + p` packets.
pub proof fn law_reed_solomon_codes_every_frame(frame: Seq<u8>, parity_ratio: u8)
    requires
        frame.len() > 0,
        parity_shards_for(parity_ratio, data_shard_count(frame.len())) > 0,
        data_shard_count(frame.len()) + parity_shards_for(
            parity_ratio,
            data_shard_count(frame.len()),
        ) <= 256,
    ensures
        ({
            let d = data_shard_count(frame.len());
            let p = parity_shards_for(parity_ratio, d);
            ReedSolomonEngine.accepts(d, p, unencoded_shards(frame, p))
        }),
{
    let d = data_shard_count(frame.len());
    let p = parity_shards_for(parity_ratio, d);
    lemma_data_shard_count(frame.len());
    lemma_unencoded_shards_bytes(frame, p);
    let u = unencoded_shards(frame, p);
    assert(u[0].len() == SHARD_SIZE);
    assert forall|i: int| 0 <= i < u.len() implies #[trigger] u[i].len() == u[0].len() by {}
}

} // verus!
