use std::cell::RefCell;
use std::time::Duration;

use chacha20poly1305::aead::{AeadInPlace, KeyInit};
use chacha20poly1305::{ChaCha20Poly1305, Key, Nonce, Tag};
use reed_solomon_erasure::galois_8::ReedSolomon;

use fiudp_cli::sender::{
    apply_chaos, next_transmit_action, remove_burst, require_full_send, retain_by_rolls,
    transmission_step, TransmitAction, TransmitEvent,
};
use fiudp_cli::{
    derive_nonce, encode_frame, ChaChaEncryptor, Encryptor, FecEngine, FiudpError, FiudpSender,
    InputReader, PacketSender, ParityRatio, ReedSolomonEngine, RendezvousSecs, SessionId,
    PreparedFrame, ShardIndex, AAD_SIZE, PACKET_SIZE, PAYLOAD_OFFSET, SHARD_SIZE, TAG_OFFSET, TAG_SIZE,
};

const KEY: [u8; 32] = [0x11; 32];

fn frame(len: usize) -> Vec<u8> {
    (0..len).map(|i| (i * 7 + 3) as u8).collect()
}

fn open_packet(packet: &[u8; PACKET_SIZE]) -> Vec<u8> {
    let cipher = ChaCha20Poly1305::new(Key::from_slice(&KEY));
    let session = u16::from_be_bytes([packet[0], packet[1]]);
    let index = u16::from_be_bytes([packet[2], packet[3]]);
    let nonce = derive_nonce(SessionId::new(session), ShardIndex::new(index));
    let mut body = packet[PAYLOAD_OFFSET..].to_vec();
    cipher
        .decrypt_in_place_detached(
            Nonce::from_slice(&nonce),
            &packet[..AAD_SIZE],
            &mut body,
            Tag::from_slice(&packet[TAG_OFFSET..TAG_OFFSET + TAG_SIZE]),
        )
        .expect("packet authenticates");
    body
}

#[test]
fn encode_frame_counts_and_headers() {
    let data = frame(5_000);
    let packets = encode_frame(
        &ReedSolomonEngine,
        &ChaChaEncryptor::new(KEY),
        data,
        ParityRatio::try_from(10).unwrap(),
        RendezvousSecs::new(3600),
        SessionId::new(7),
    )
    .unwrap();
    // 5000 bytes -> 4 data shards, ceil(4 * 10 / 100) = 1 parity shard.
    assert_eq!(packets.len(), 5);
    for (i, packet) in packets.iter().enumerate() {
        assert_eq!(&packet[0..2], &7u16.to_be_bytes());
        assert_eq!(&packet[2..4], &(i as u16).to_be_bytes());
        assert_eq!(&packet[4..6], &4u16.to_be_bytes());
        assert_eq!(&packet[6..8], &1u16.to_be_bytes());
        assert_eq!(&packet[8..12], &3600u32.to_be_bytes());
    }
}

#[test]
fn encode_frame_encrypts_and_authenticates_every_shard() {
    let data = frame(3_000);
    let packets = encode_frame(
        &ReedSolomonEngine,
        &ChaChaEncryptor::new(KEY),
        data.clone(),
        ParityRatio::try_from(50).unwrap(),
        RendezvousSecs::new(60),
        SessionId::new(42),
    )
    .unwrap();
    assert_eq!(packets.len(), 3 + 2);
    let mut padded = data.clone();
    padded.resize(3 * SHARD_SIZE, 0);
    for i in 0..3 {
        let plain = &padded[i * SHARD_SIZE..(i + 1) * SHARD_SIZE];
        // The payload on the wire is not the plaintext...
        assert_ne!(&packets[i][PAYLOAD_OFFSET..], plain);
        // ...but decrypts to it under the derived nonce and the header.
        assert_eq!(open_packet(&packets[i]), plain);
    }
    // A tampered header fails authentication.
    let mut tampered = packets[0];
    tampered[9] ^= 1;
    let cipher = ChaCha20Poly1305::new(Key::from_slice(&KEY));
    let nonce = derive_nonce(SessionId::new(42), ShardIndex::new(0));
    let mut body = tampered[PAYLOAD_OFFSET..].to_vec();
    assert!(cipher
        .decrypt_in_place_detached(
            Nonce::from_slice(&nonce),
            &tampered[..AAD_SIZE],
            &mut body,
            Tag::from_slice(&tampered[TAG_OFFSET..TAG_OFFSET + TAG_SIZE]),
        )
        .is_err());
}

#[test]
fn parity_shards_recover_a_lost_data_shard() {
    let data = frame(4 * SHARD_SIZE);
    let packets = encode_frame(
        &ReedSolomonEngine,
        &ChaChaEncryptor::new(KEY),
        data.clone(),
        ParityRatio::try_from(50).unwrap(),
        RendezvousSecs::new(0),
        SessionId::new(3),
    )
    .unwrap();
    assert_eq!(packets.len(), 6);
    let mut shards: Vec<Option<Vec<u8>>> = packets.iter().map(|p| Some(open_packet(p))).collect();
    shards[1] = None;
    shards[2] = None;
    let code: ReedSolomon = ReedSolomon::new(4, 2).unwrap();
    code.reconstruct(&mut shards).unwrap();
    for i in 0..4 {
        assert_eq!(
            shards[i].as_ref().unwrap().as_slice(),
            &data[i * SHARD_SIZE..(i + 1) * SHARD_SIZE]
        );
    }
}

#[test]
fn encode_frame_without_parity() {
    let packets = encode_frame(
        &ReedSolomonEngine,
        &ChaChaEncryptor::new(KEY),
        frame(1),
        ParityRatio::try_from(0).unwrap(),
        RendezvousSecs::new(1),
        SessionId::new(1),
    )
    .unwrap();
    assert_eq!(packets.len(), 1);
    let body = open_packet(&packets[0]);
    assert_eq!(body[0], frame(1)[0]);
    assert!(body[1..].iter().all(|b| *b == 0));
}

#[test]
fn encode_frame_rejects_empty_input() {
    let result = encode_frame(
        &ReedSolomonEngine,
        &ChaChaEncryptor::new(KEY),
        Vec::new(),
        ParityRatio::try_from(15).unwrap(),
        RendezvousSecs::new(1),
        SessionId::new(1),
    );
    assert!(matches!(result, Err(FiudpError::EmptyInput)));
}

#[test]
fn encode_frame_rejects_too_many_shards() {
    // 32768 data shards and as many parity shards: 65536 > u16::MAX.
    let result = encode_frame(
        &ReedSolomonEngine,
        &ChaChaEncryptor::new(KEY),
        vec![0u8; 32_768 * SHARD_SIZE],
        ParityRatio::try_from(100).unwrap(),
        RendezvousSecs::new(1),
        SessionId::new(1),
    );
    assert!(matches!(result, Err(FiudpError::TooManyShards(65_536))));
}

#[test]
fn encode_frame_reports_reed_solomon_limits() {
    // 250 data and 25 parity shards exceed the 256 shards of GF(2^8).
    let result = encode_frame(
        &ReedSolomonEngine,
        &ChaChaEncryptor::new(KEY),
        vec![1u8; 250 * SHARD_SIZE],
        ParityRatio::try_from(10).unwrap(),
        RendezvousSecs::new(1),
        SessionId::new(1),
    );
    match result {
        Err(FiudpError::Fec(msg)) => assert_eq!(
            msg,
            "failed to initialize Reed-Solomon encoder: \
             The number of provided shards is greater than the one in codec"
        ),
        _ => panic!("expected an FEC error"),
    }
}

fn fec_message(data: usize, parity: usize, mut shards: Vec<Vec<u8>>) -> String {
    match ReedSolomonEngine.encode(data, parity, &mut shards) {
        Err(FiudpError::Fec(msg)) => msg,
        _ => panic!("expected an FEC error"),
    }
}

#[test]
fn reed_solomon_engine_messages_name_the_step_and_the_error() {
    let setup = "failed to initialize Reed-Solomon encoder: ";
    let encode = "failed to generate parity shards: ";
    assert_eq!(
        fec_message(0, 1, vec![vec![1u8]]),
        format!("{setup}The number of provided data shards is smaller than the one in codec")
    );
    assert_eq!(
        fec_message(1, 0, vec![vec![1u8]]),
        format!("{setup}The number of provided parity shards is smaller than the one in codec")
    );
    assert_eq!(
        fec_message(200, 57, vec![vec![1u8]; 257]),
        format!("{setup}The number of provided shards is greater than the one in codec")
    );
    assert_eq!(
        fec_message(2, 1, vec![vec![1u8]; 2]),
        format!("{encode}The number of provided shards is smaller than the one in codec")
    );
    assert_eq!(
        fec_message(2, 1, vec![vec![1u8]; 4]),
        format!("{encode}The number of provided shards is greater than the one in codec")
    );
    assert_eq!(
        fec_message(2, 1, vec![vec![], vec![], vec![]]),
        format!("{encode}The first shard provided is of zero length")
    );
    assert_eq!(
        fec_message(2, 1, vec![vec![1u8, 2], vec![3], vec![0, 0]]),
        format!("{encode}At least one of the provided shards is not of the correct size")
    );
}

#[test]
fn reed_solomon_engine_fills_parity_and_keeps_data() {
    let mut shards = vec![vec![1u8, 2, 3], vec![4, 5, 6], vec![0, 0, 0]];
    ReedSolomonEngine.encode(2, 1, &mut shards).unwrap();
    assert_eq!(shards[0], vec![1, 2, 3]);
    assert_eq!(shards[1], vec![4, 5, 6]);
    assert_ne!(shards[2], vec![0, 0, 0]);
    let code: ReedSolomon = ReedSolomon::new(2, 1).unwrap();
    assert!(code.verify(&shards).unwrap());
}

#[test]
fn reed_solomon_engine_rejects_bad_shapes() {
    let mut uneven = vec![vec![1u8, 2, 3], vec![4, 5], vec![0, 0, 0]];
    match ReedSolomonEngine.encode(2, 1, &mut uneven) {
        Err(FiudpError::Fec(msg)) => assert_eq!(
            msg,
            "failed to generate parity shards: \
             At least one of the provided shards is not of the correct size"
        ),
        _ => panic!("expected an FEC error"),
    }
    assert_eq!(uneven, vec![vec![1u8, 2, 3], vec![4, 5], vec![0, 0, 0]]);
    let mut none = vec![vec![1u8]];
    assert!(matches!(
        ReedSolomonEngine.encode(1, 0, &mut none),
        Err(FiudpError::Fec(_))
    ));
}

#[test]
fn chacha_encryptor_matches_the_reference_cipher() {
    let nonce = derive_nonce(SessionId::new(9), ShardIndex::new(4));
    let aad = [7u8; AAD_SIZE];
    let plain = vec![0x42u8; 100];
    let mut buffer = plain.clone();
    let tag = ChaChaEncryptor::new(KEY)
        .encrypt_in_place(&nonce, &aad, &mut buffer)
        .unwrap();
    assert_ne!(buffer, plain);
    let mut expected = plain.clone();
    let expected_tag = ChaCha20Poly1305::new(Key::from_slice(&KEY))
        .encrypt_in_place_detached(Nonce::from_slice(&nonce), &aad, &mut expected)
        .unwrap();
    assert_eq!(buffer, expected);
    assert_eq!(&tag[..], expected_tag.as_slice());
}

#[test]
fn remove_burst_drops_consecutive_packets() {
    let mut packets: Vec<[u8; PACKET_SIZE]> = (0..6u8).map(|i| [i; PACKET_SIZE]).collect();
    remove_burst(&mut packets, 2, 3);
    let firsts: Vec<u8> = packets.iter().map(|p| p[0]).collect();
    assert_eq!(firsts, vec![0, 1, 5]);

    let mut short: Vec<[u8; PACKET_SIZE]> = (0..3u8).map(|i| [i; PACKET_SIZE]).collect();
    remove_burst(&mut short, 1, 10);
    assert_eq!(short.len(), 1);
    assert_eq!(short[0][0], 0);
}

#[test]
fn retain_by_rolls_keeps_rolls_at_or_above_threshold() {
    let mut packets: Vec<[u8; PACKET_SIZE]> = (0..5u8).map(|i| [i; PACKET_SIZE]).collect();
    retain_by_rolls(&mut packets, &vec![10, 50, 49, 99, 0], 50);
    let firsts: Vec<u8> = packets.iter().map(|p| p[0]).collect();
    assert_eq!(firsts, vec![1, 3]);
}

#[test]
fn chaos_off_keeps_packets_and_shuffle_permutes() {
    let initial: Vec<[u8; PACKET_SIZE]> = (0..20u8).map(|i| [i; PACKET_SIZE]).collect();
    let mut untouched = initial.clone();
    apply_chaos(&mut untouched, 0, 0, false);
    assert!(untouched == initial);

    let mut shuffled = initial.clone();
    apply_chaos(&mut shuffled, 0, 0, true);
    let mut firsts: Vec<u8> = shuffled.iter().map(|p| p[0]).collect();
    // One order in 20! is the identity: a shuffle that changes nothing fails here.
    assert_ne!(firsts, (0..20u8).collect::<Vec<u8>>());
    firsts.sort();
    assert_eq!(firsts, (0..20u8).collect::<Vec<u8>>());

    let mut burst = initial.clone();
    apply_chaos(&mut burst, 0, 4, false);
    assert_eq!(burst.len(), 16);
    let kept: Vec<u8> = burst.iter().map(|p| p[0]).collect();
    let start = (0..=16u8).position(|s| kept == (0..20u8).filter(|i| *i < s || *i >= s + 4).collect::<Vec<u8>>());
    assert!(start.is_some());

    let mut longer_burst = initial.clone();
    apply_chaos(&mut longer_burst, 0, 30, false);
    assert!(longer_burst.is_empty());

    let mut all_dropped = initial.clone();
    apply_chaos(&mut all_dropped, 100, 0, false);
    assert!(all_dropped.is_empty());
}

#[test]
fn short_send_is_reported() {
    assert!(require_full_send(PACKET_SIZE, PACKET_SIZE).is_ok());
    assert!(matches!(
        require_full_send(100, PACKET_SIZE),
        Err(FiudpError::ShortSend { sent: 100, expected: PACKET_SIZE })
    ));
}

struct FixedReader(Vec<u8>);

impl InputReader for FixedReader {
    fn read_all(&self) -> Result<Vec<u8>, FiudpError> {
        Ok(self.0.clone())
    }
}

struct Collector {
    packets: RefCell<Vec<Vec<u8>>>,
}

impl PacketSender for &Collector {
    fn send(&self, packet: &[u8]) -> Result<(), FiudpError> {
        self.packets.borrow_mut().push(packet.to_vec());
        Ok(())
    }
}

#[test]
fn sender_transmits_every_packet_and_pauses_between_them() {
    let collector = Collector { packets: RefCell::new(Vec::new()) };
    let pipeline = FiudpSender::new(
        FixedReader(frame(10_000)),
        ReedSolomonEngine,
        ChaChaEncryptor::new(KEY),
        &collector,
        Duration::from_micros(500),
        0,
        0,
        false,
    );
    assert_eq!(pipeline.delay(), Duration::from_micros(500));
    let prepared = pipeline
        .prepare(ParityRatio::try_from(25).unwrap(), RendezvousSecs::new(3600), SessionId::new(1))
        .unwrap();
    assert!(matches!(prepared, PreparedFrame::Streamed(_)));
    // 10000 bytes -> 8 data shards, ceil(8 * 25 / 100) = 2 parity shards.
    assert_eq!(prepared.packet_count(), 10);
    let mut pauses = Vec::new();
    for i in 0..prepared.packet_count() {
        pauses.push(pipeline.transmit_packet(&prepared, i).unwrap());
    }
    assert_eq!(pauses.iter().filter(|p| **p).count(), 9);
    assert!(!pauses[9]);
    let sent = collector.packets.borrow();
    assert_eq!(sent.len(), 10);
    assert!(sent.iter().all(|p| p.len() == PACKET_SIZE));
    for (i, p) in sent.iter().enumerate() {
        assert_eq!(&p[2..4], &(i as u16).to_be_bytes());
    }
}

#[test]
fn packets_for_frame_matches_encode_frame_without_chaos() {
    let collector = Collector { packets: RefCell::new(Vec::new()) };
    let pipeline = FiudpSender::new(
        FixedReader(Vec::new()),
        ReedSolomonEngine,
        ChaChaEncryptor::new(KEY),
        &collector,
        Duration::from_micros(0),
        0,
        0,
        false,
    );
    let via_sender = pipeline
        .packets_for_frame(frame(4_000), ParityRatio::try_from(50).unwrap(), RendezvousSecs::new(5), SessionId::new(8))
        .unwrap();
    let direct = encode_frame(
        &ReedSolomonEngine,
        &ChaChaEncryptor::new(KEY),
        frame(4_000),
        ParityRatio::try_from(50).unwrap(),
        RendezvousSecs::new(5),
        SessionId::new(8),
    )
    .unwrap();
    assert!(via_sender == direct);
    assert_eq!(via_sender.len(), 3 + 2);
    assert!(matches!(
        pipeline.packets_for_frame(Vec::new(), ParityRatio::try_from(50).unwrap(), RendezvousSecs::new(5), SessionId::new(8)),
        Err(FiudpError::EmptyInput)
    ));
    // The reader here yields an empty frame, so preparation fails the same way.
    assert!(matches!(
        pipeline.prepare(ParityRatio::try_from(50).unwrap(), RendezvousSecs::new(5), SessionId::new(8)),
        Err(FiudpError::EmptyInput)
    ));
}

#[test]
fn transmission_step_outcomes() {
    assert!(matches!(transmission_step(Ok(()), 0, 3), Ok(true)));
    assert!(matches!(transmission_step(Ok(()), 2, 3), Ok(false)));
    assert!(matches!(
        transmission_step(Err(FiudpError::ShortSend { sent: 1, expected: 2 }), 0, 3),
        Err(FiudpError::ShortSend { sent: 1, expected: 2 })
    ));
}

struct FailingCollector {
    fail_at: usize,
    packets: RefCell<Vec<Vec<u8>>>,
}

impl PacketSender for &FailingCollector {
    fn send(&self, packet: &[u8]) -> Result<(), FiudpError> {
        let mut got = self.packets.borrow_mut();
        let call = got.len();
        got.push(packet.to_vec());
        if call == self.fail_at {
            Err(FiudpError::ShortSend { sent: call, expected: PACKET_SIZE })
        } else {
            Ok(())
        }
    }
}

/// Drive the transmission decisions as a caller does, counting the pauses.
fn transmit<E: Encryptor, S: PacketSender>(
    pipeline: &FiudpSender<FixedReader, ReedSolomonEngine, E, S>,
    prepared: &PreparedFrame,
) -> (Result<(), FiudpError>, Vec<usize>) {
    let mut event = TransmitEvent::Start;
    let mut pauses = Vec::new();
    loop {
        match next_transmit_action(prepared.packet_count(), event) {
            TransmitAction::Send(index) => {
                event = TransmitEvent::Sent(index, pipeline.transmit_packet(prepared, index));
            }
            TransmitAction::Pause(index) => {
                pauses.push(index);
                event = TransmitEvent::Paused(index);
            }
            TransmitAction::Finish(result) => return (result, pauses),
        }
    }
}

fn expected_packets() -> Vec<[u8; PACKET_SIZE]> {
    encode_frame(
        &ReedSolomonEngine,
        &ChaChaEncryptor::new(KEY),
        frame(5_000),
        ParityRatio::try_from(10).unwrap(),
        RendezvousSecs::new(3600),
        SessionId::new(1),
    )
    .unwrap()
}

#[test]
fn transmission_hands_over_every_packet_in_order() {
    let collector = FailingCollector { fail_at: usize::MAX, packets: RefCell::new(Vec::new()) };
    let pipeline = FiudpSender::new(
        FixedReader(frame(5_000)),
        ReedSolomonEngine,
        ChaChaEncryptor::new(KEY),
        &collector,
        Duration::from_micros(0),
        0,
        0,
        false,
    );
    let prepared = pipeline
        .prepare(ParityRatio::try_from(10).unwrap(), RendezvousSecs::new(3600), SessionId::new(1))
        .unwrap();
    assert_eq!(prepared.packet_count(), 5);
    let (result, pauses) = transmit(&pipeline, &prepared);
    assert!(result.is_ok());
    assert_eq!(pauses, vec![0, 1, 2, 3]);
    let packets = expected_packets();
    let sent = collector.packets.borrow();
    assert_eq!(sent.len(), 5);
    for (i, p) in sent.iter().enumerate() {
        assert_eq!(p.as_slice(), &packets[i][..]);
        assert_eq!(&p[0..12], &[0x00, 0x01, 0x00, i as u8, 0x00, 0x04, 0x00, 0x01, 0x00, 0x00, 0x0E, 0x10]);
    }
}

#[test]
fn transmission_stops_at_the_first_transport_error() {
    let collector = FailingCollector { fail_at: 2, packets: RefCell::new(Vec::new()) };
    let pipeline = FiudpSender::new(
        FixedReader(frame(5_000)),
        ReedSolomonEngine,
        ChaChaEncryptor::new(KEY),
        &collector,
        Duration::from_micros(0),
        0,
        0,
        false,
    );
    let prepared = pipeline
        .prepare(ParityRatio::try_from(10).unwrap(), RendezvousSecs::new(3600), SessionId::new(1))
        .unwrap();
    let (result, pauses) = transmit(&pipeline, &prepared);
    assert!(matches!(result, Err(FiudpError::ShortSend { sent: 2, expected: PACKET_SIZE })));
    assert_eq!(pauses, vec![0, 1]);
    let packets = expected_packets();
    let sent = collector.packets.borrow();
    assert_eq!(sent.len(), 3);
    for (i, p) in sent.iter().enumerate() {
        assert_eq!(p.as_slice(), &packets[i][..]);
    }
}

#[test]
fn chaos_prepares_the_whole_list_first() {
    let collector = FailingCollector { fail_at: usize::MAX, packets: RefCell::new(Vec::new()) };
    let pipeline = FiudpSender::new(
        FixedReader(frame(5_000)),
        ReedSolomonEngine,
        ChaChaEncryptor::new(KEY),
        &collector,
        Duration::from_micros(0),
        0,
        0,
        true,
    );
    let prepared = pipeline
        .prepare(ParityRatio::try_from(10).unwrap(), RendezvousSecs::new(3600), SessionId::new(1))
        .unwrap();
    assert!(matches!(prepared, PreparedFrame::Buffered(_)));
    let (result, _) = transmit(&pipeline, &prepared);
    assert!(result.is_ok());
    let mut sent: Vec<Vec<u8>> = collector.packets.borrow().clone();
    let mut packets: Vec<Vec<u8>> = expected_packets().iter().map(|p| p.to_vec()).collect();
    sent.sort();
    packets.sort();
    assert_eq!(sent, packets);
}

#[test]
fn transmission_of_no_packet_finishes_at_once() {
    assert!(matches!(next_transmit_action(0, TransmitEvent::Start), TransmitAction::Finish(Ok(()))));
    assert!(matches!(next_transmit_action(3, TransmitEvent::Start), TransmitAction::Send(0)));
    assert!(matches!(next_transmit_action(3, TransmitEvent::Paused(1)), TransmitAction::Send(2)));
    assert!(matches!(next_transmit_action(3, TransmitEvent::Sent(1, Ok(true))), TransmitAction::Pause(1)));
    assert!(matches!(next_transmit_action(3, TransmitEvent::Sent(2, Ok(false))), TransmitAction::Finish(Ok(()))));
    assert!(matches!(
        next_transmit_action(3, TransmitEvent::Sent(0, Err(FiudpError::EmptyInput))),
        TransmitAction::Finish(Err(FiudpError::EmptyInput))
    ));
}
