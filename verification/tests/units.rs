use fiudp_cli::{
    derive_nonce, key_from_bytes, next_session_id, DataShardCount, FiudpError, ParityShardCount,
    RendezvousSecs, SessionId, ShardIndex,
};

#[test]
fn newtypes_round_trip_and_encode_big_endian() {
    let s = SessionId::new(0xABCD);
    assert_eq!(s.as_u16(), 0xABCD);
    assert_eq!(s.to_be_bytes(), [0xAB, 0xCD]);
    assert_eq!(u16::from(SessionId::from(7u16)), 7);
    assert_eq!(ShardIndex::new(0x0102).to_be_bytes(), [1, 2]);
    assert_eq!(u16::from(ShardIndex::from(9u16)), 9);
    assert_eq!(DataShardCount::new(35).as_u16(), 35);
    assert_eq!(u16::from(DataShardCount::from(35u16)), 35);
    assert_eq!(ParityShardCount::new(0xFF00).to_be_bytes(), [0xFF, 0x00]);
    assert_eq!(u16::from(ParityShardCount::from(4u16)), 4);
    let r = RendezvousSecs::new(0x01020304);
    assert_eq!(r.as_u32(), 0x01020304);
    assert_eq!(r.to_be_bytes(), [1, 2, 3, 4]);
    assert_eq!(u32::from(RendezvousSecs::from(3600u32)), 3600);
    assert!(SessionId::new(1) < SessionId::new(2));
}

#[test]
fn nonce_layout_and_uniqueness() {
    let nonce = derive_nonce(SessionId::new(0x0102), ShardIndex::new(0x0304));
    assert_eq!(nonce, [1, 2, 3, 4, 0, 0, 0, 0, 0, 0, 0, 0]);
    let a = derive_nonce(SessionId::new(1), ShardIndex::new(2));
    let b = derive_nonce(SessionId::new(2), ShardIndex::new(1));
    let c = derive_nonce(SessionId::new(1), ShardIndex::new(3));
    assert_ne!(a, b);
    assert_ne!(a, c);
}

#[test]
fn key_must_be_exactly_32_bytes() {
    let key = key_from_bytes(&[5u8; 32]).unwrap();
    assert_eq!(key, [5u8; 32]);
    assert!(matches!(key_from_bytes(&[5u8; 31]), Err(FiudpError::InvalidKeyLength(31))));
    assert!(matches!(key_from_bytes(&[]), Err(FiudpError::InvalidKeyLength(0))));
    assert!(matches!(key_from_bytes(&[0u8; 33]), Err(FiudpError::InvalidKeyLength(33))));
}

#[test]
fn session_counter_starts_at_one_and_increases() {
    assert_eq!(next_session_id(None).unwrap().as_u16(), 1);
    assert_eq!(next_session_id(Some(&[0, 5])).unwrap().as_u16(), 6);
    assert_eq!(next_session_id(Some(&[0x12, 0xFF])).unwrap().as_u16(), 0x1300);
    // What is written back is read back, and the next identifier is larger.
    let mut id = next_session_id(None).unwrap();
    for _ in 0..10 {
        let stored = id.to_be_bytes();
        let next = next_session_id(Some(&stored)).unwrap();
        assert!(next > id);
        id = next;
    }
    assert_eq!(id.as_u16(), 11);
}

#[test]
fn session_counter_errors() {
    assert!(matches!(next_session_id(Some(&[1])), Err(FiudpError::InvalidSessionFile)));
    assert!(matches!(next_session_id(Some(&[0, 0, 1])), Err(FiudpError::InvalidSessionFile)));
    assert!(matches!(
        next_session_id(Some(&[0xFF, 0xFF])),
        Err(FiudpError::SessionIdOverflow)
    ));
    assert_eq!(next_session_id(Some(&[0xFF, 0xFE])).unwrap().as_u16(), u16::MAX);
}

#[test]
fn newtypes_display_in_decimal() {
    assert_eq!(SessionId::new(42).to_string(), "42");
    assert_eq!(SessionId::new(0).to_string(), "0");
    assert_eq!(ShardIndex::new(u16::MAX).to_string(), "65535");
    assert_eq!(DataShardCount::new(35).to_string(), "35");
    assert_eq!(ParityShardCount::new(100).to_string(), "100");
    assert_eq!(RendezvousSecs::new(3600).to_string(), "3600s");
    assert_eq!(RendezvousSecs::new(u32::MAX).to_string(), "4294967295s");
}
