use fiudp_cli::{Config, FiudpError, InputSource, ParityRatio};

#[test]
fn parity_ratio_validation() {
    assert!(ParityRatio::try_from(0).is_ok());
    assert!(ParityRatio::try_from(100).is_ok());
    assert!(ParityRatio::try_from(101).is_err());
}

#[test]
fn parity_ratio_rounds_up() {
    let ratio = ParityRatio::try_from(15).unwrap();
    assert_eq!(ratio.parity_shards(10), 2);
    assert_eq!(ratio.parity_shards(1), 1);
    assert_eq!(ratio.parity_shards(0), 0);
}

#[test]
fn parity_ratio_error_carries_the_value() {
    assert!(matches!(
        ParityRatio::try_from(250),
        Err(FiudpError::InvalidParityRatio(250))
    ));
}

#[test]
fn parity_shards_exact_values() {
    let zero = ParityRatio::try_from(0).unwrap();
    assert_eq!(zero.parity_shards(1000), 0);
    let full = ParityRatio::try_from(100).unwrap();
    assert_eq!(full.parity_shards(35), 35);
    let quarter = ParityRatio::try_from(25).unwrap();
    assert_eq!(quarter.parity_shards(35), 9);
    assert_eq!(quarter.parity_shards(4), 1);
    assert_eq!(quarter.parity_shards(5), 2);
    // The product saturates instead of overflowing.
    assert_eq!(full.parity_shards(usize::MAX), usize::MAX / 100 + 1);
}

#[test]
fn builder_defaults_and_fields() {
    let config = Config::builder()
        .target([192, 168, 1, 42])
        .wake_at(3600)
        .key_file("./psk.bin")
        .build()
        .unwrap();
    assert_eq!(config.target_ip(), [192, 168, 1, 42]);
    assert_eq!(config.rendezvous_secs(), 3600);
    assert_eq!(config.key_path(), "./psk.bin");
    assert!(matches!(config.input(), InputSource::Stdin));
    assert_eq!(config.parity_ratio().parity_shards(100), 15);
    assert_eq!(config.target_port(), 5050);
    assert_eq!(config.delay_us(), 500);
}

#[test]
fn builder_overrides() {
    let config = Config::builder()
        .target([10, 0, 0, 1])
        .wake_at(0)
        .key_file("k.bin")
        .image("./frame.raw")
        .parity_ratio(20)
        .port(5051)
        .delay_us(1000)
        .build()
        .unwrap();
    match config.input() {
        InputSource::File(path) => assert_eq!(path, "./frame.raw"),
        InputSource::Stdin => panic!("expected a file input"),
    }
    assert_eq!(config.parity_ratio().parity_shards(10), 2);
    assert_eq!(config.target_port(), 5051);
    assert_eq!(config.delay_us(), 1000);
}

#[test]
fn builder_rejects_parity_ratio_above_100() {
    let result = Config::builder()
        .target([10, 0, 0, 1])
        .wake_at(60)
        .key_file("k.bin")
        .parity_ratio(101)
        .build();
    assert!(matches!(result, Err(FiudpError::InvalidParityRatio(101))));
}
