use std::sync::{Arc, Mutex};
use std::time::Duration;

use fiudp_cli::{
    ChaChaEncryptor, FiudpError, FiudpSender, InputReader, PacketSender, ParityRatio,
    ReedSolomonEngine, RendezvousSecs, SessionId,
};

// A reader that provides a fixed-size dummy payload
struct DummyReader {
    size: usize,
}

impl InputReader for DummyReader {
    fn read_all(&self) -> Result<Vec<u8>, FiudpError> {
        Ok(vec![0x42; self.size])
    }
}

// A sender that just counts packets and total bytes instead of using the network
struct AccountingSender {
    packet_count: Arc<Mutex<usize>>,
    byte_count: Arc<Mutex<usize>>,
}

impl PacketSender for AccountingSender {
    fn send(&self, packet: &[u8]) -> Result<(), FiudpError> {
        let mut pc = self.packet_count.lock().unwrap();
        *pc += 1;

        let mut bc = self.byte_count.lock().unwrap();
        *bc += packet.len();

        Ok(())
    }
}

#[test]
fn test_network_footprint() {
    let payload_sizes = [5_000, 10_000, 48_000]; // 5KB, 10KB, 48KB (typical TRMNL images)
    let parity_percentages = [10, 25, 50]; // 10%, 25%, 50% FEC

    println!("\n=== FIUDP Network Footprint Analysis ===");
    println!("Payload Size | FEC Parity | Total Packets | Bytes Over-The-Air | Protocol Overhead");
    println!("---------------------------------------------------------------------------------");

    for &size in &payload_sizes {
        for &pct in &parity_percentages {
            let packet_count = Arc::new(Mutex::new(0));
            let byte_count = Arc::new(Mutex::new(0));

            let reader = DummyReader { size };
            let fec = ReedSolomonEngine;
            let encryptor = ChaChaEncryptor::new([0x00; 32]);
            let sender = AccountingSender {
                packet_count: Arc::clone(&packet_count),
                byte_count: Arc::clone(&byte_count),
            };

            let pipeline = FiudpSender::new(reader, fec, encryptor, sender, Duration::from_secs(0), 0, 0, false);

            let prepared = pipeline
                .prepare(
                    ParityRatio::try_from(pct).unwrap(),
                    RendezvousSecs::new(3600),
                    SessionId::new(1),
                )
                .unwrap();
            for i in 0..prepared.packet_count() {
                pipeline.transmit_packet(&prepared, i).unwrap();
            }

            let final_packets = *packet_count.lock().unwrap();
            let final_bytes = *byte_count.lock().unwrap();

            // UDP has an 8-byte header and IPv4 a 20-byte header on top of the
            // 1428-byte application payload of every packet.
            let ip_footprint = final_bytes + (final_packets * 28);

            let overhead_pct = ((ip_footprint as f64 / size as f64) - 1.0) * 100.0;

            println!(
                "{:>8} B   | {:>8}% | {:>13} | {:>18} B | {:>16.1}%",
                size, pct, final_packets, ip_footprint, overhead_pct
            );

            let data_shards = (size + 1399) / 1400;
            let parity_shards = (data_shards * pct as usize + 99) / 100;
            assert_eq!(final_packets, data_shards + parity_shards);
            assert_eq!(final_bytes, final_packets * 1428);
        }
        println!("---------------------------------------------------------------------------------");
    }
    println!();
}
