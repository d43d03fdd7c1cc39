use fiudp_cli::{
    pad_to_shard_size, DataShardCount, PacketBuilder, ParityShardCount, RendezvousSecs,
    SessionId, ShardIndex, DATA_SHARDS_OFFSET, DATA_SHARDS_SIZE, PACKET_SIZE,
    PARITY_SHARDS_OFFSET, PARITY_SHARDS_SIZE, PAYLOAD_OFFSET, RENDEZVOUS_OFFSET,
    RENDEZVOUS_SIZE, SESSION_ID_OFFSET, SESSION_ID_SIZE, SHARD_INDEX_OFFSET, SHARD_INDEX_SIZE,
    SHARD_SIZE, TAG_OFFSET, TAG_SIZE,
};
use fiudp_cli::FiudpError;

#[test]
fn pad_to_shard_size_extends_with_zeroes() {
    let mut buf = vec![0xAB; SHARD_SIZE + 1];
    pad_to_shard_size(&mut buf);

    assert_eq!(buf.len(), SHARD_SIZE * 2);
    assert!(buf[..SHARD_SIZE + 1].iter().all(|b| *b == 0xAB));
    assert!(buf[SHARD_SIZE + 1..].iter().all(|b| *b == 0));
}

#[test]
fn pad_to_shard_size_noop_on_exact_multiple() {
    let mut buf = vec![0xCD; SHARD_SIZE * 2];
    pad_to_shard_size(&mut buf);

    assert_eq!(buf.len(), SHARD_SIZE * 2);
    assert!(buf.iter().all(|b| *b == 0xCD));
}

#[test]
fn packet_builder_writes_header_and_payload() {
    let builder = PacketBuilder::new(
        SessionId::new(0xABCD),
        RendezvousSecs::new(0x01020304),
        DataShardCount::new(0x0020),
        ParityShardCount::new(0x0004),
    );
    let mut packet = [0u8; PACKET_SIZE];
    let tag = [0x22; TAG_SIZE];
    let payload = vec![0x33; SHARD_SIZE];
    let aad = builder.build_aad(ShardIndex::new(0x1234));

    builder
        .write_packet(&mut packet, &aad, &tag, &payload)
        .unwrap();

    assert_eq!(
        &packet[SESSION_ID_OFFSET..SESSION_ID_OFFSET + SESSION_ID_SIZE],
        &0xABCDu16.to_be_bytes()
    );
    assert_eq!(
        &packet[SHARD_INDEX_OFFSET..SHARD_INDEX_OFFSET + SHARD_INDEX_SIZE],
        &0x1234u16.to_be_bytes()
    );
    assert_eq!(
        &packet[DATA_SHARDS_OFFSET..DATA_SHARDS_OFFSET + DATA_SHARDS_SIZE],
        &0x0020u16.to_be_bytes()
    );
    assert_eq!(
        &packet[PARITY_SHARDS_OFFSET..PARITY_SHARDS_OFFSET + PARITY_SHARDS_SIZE],
        &0x0004u16.to_be_bytes()
    );
    assert_eq!(
        &packet[RENDEZVOUS_OFFSET..RENDEZVOUS_OFFSET + RENDEZVOUS_SIZE],
        &0x01020304u32.to_be_bytes()
    );
    assert_eq!(&packet[TAG_OFFSET..TAG_OFFSET + TAG_SIZE], &tag);
    assert_eq!(
        &packet[PAYLOAD_OFFSET..PAYLOAD_OFFSET + SHARD_SIZE],
        payload.as_slice()
    );
}

#[test]
fn packet_builder_rejects_wrong_payload_size() {
    let builder = PacketBuilder::new(
        SessionId::new(0xABCD),
        RendezvousSecs::new(0),
        DataShardCount::new(1),
        ParityShardCount::new(0),
    );
    let mut packet = [0u8; PACKET_SIZE];
    let tag = [0u8; TAG_SIZE];
    let payload = vec![0u8; SHARD_SIZE - 1];
    let aad = builder.build_aad(ShardIndex::new(1));

    assert!(builder
        .write_packet(&mut packet, &aad, &tag, &payload)
        .is_err());
}

#[test]
fn write_packet_error_reports_sizes_and_leaves_buffer() {
    let builder = PacketBuilder::new(
        SessionId::new(1),
        RendezvousSecs::new(0),
        DataShardCount::new(1),
        ParityShardCount::new(0),
    );
    let mut packet = [0x5Au8; PACKET_SIZE];
    let aad = builder.build_aad(ShardIndex::new(0));
    let result = builder.write_packet(&mut packet, &aad, &[0u8; TAG_SIZE], &[1u8; SHARD_SIZE + 3]);
    assert!(matches!(
        result,
        Err(FiudpError::InvalidShardSize { actual, expected }) if actual == SHARD_SIZE + 3 && expected == SHARD_SIZE
    ));
    assert!(packet.iter().all(|b| *b == 0x5A));
}

#[test]
fn build_aad_is_the_header_in_wire_order() {
    let builder = PacketBuilder::new(
        SessionId::new(0x0102),
        RendezvousSecs::new(0x0A0B0C0D),
        DataShardCount::new(0x0506),
        ParityShardCount::new(0x0708),
    );
    let aad = builder.build_aad(ShardIndex::new(0x0304));
    assert_eq!(aad, [1, 2, 3, 4, 5, 6, 7, 8, 0x0A, 0x0B, 0x0C, 0x0D]);
}

#[test]
fn wire_constants_match_the_documented_layout() {
    assert_eq!(fiudp_cli::AAD_SIZE, 12);
    assert_eq!(fiudp_cli::HEADER_SIZE, 28);
    assert_eq!(PACKET_SIZE, 1428);
    assert_eq!(
        [SESSION_ID_OFFSET, SHARD_INDEX_OFFSET, DATA_SHARDS_OFFSET, PARITY_SHARDS_OFFSET],
        [0, 2, 4, 6]
    );
    assert_eq!([RENDEZVOUS_OFFSET, TAG_OFFSET, PAYLOAD_OFFSET], [8, 12, 28]);
}

#[test]
fn padding_of_small_and_empty_frames() {
    let mut one = vec![7u8];
    pad_to_shard_size(&mut one);
    assert_eq!(one.len(), SHARD_SIZE);
    assert_eq!(one[0], 7);
    assert!(one[1..].iter().all(|b| *b == 0));

    let mut empty: Vec<u8> = Vec::new();
    pad_to_shard_size(&mut empty);
    assert!(empty.is_empty());

    // Padding twice changes nothing more.
    let mut twice = vec![9u8; 3000];
    pad_to_shard_size(&mut twice);
    let once = twice.clone();
    pad_to_shard_size(&mut twice);
    assert_eq!(twice, once);
    assert_eq!(twice.len(), 3 * SHARD_SIZE);
}
