use hexapod::assembler::{idle_sleep_ms, PacketAssembler, ParserState};
use hexapod::crc::calculate_crc8;
use hexapod::filter::{group_is_kept, NearRangeFilter};
use hexapod::ld19::{calc_crc8, decode_packet, extract_packets, validate_crc, DriverError};
use hexapod::packet::{LidarPacket, LidarPoint, PACKET_SIZE, PKG_HEADER, PKG_VER_LEN};

fn build_packet(start: u16, end: u16, distance: u16, intensity: u8, speed: u16, timestamp: u16) -> Vec<u8> {
    let mut p = vec![PKG_HEADER, PKG_VER_LEN];
    p.extend_from_slice(&speed.to_le_bytes());
    p.extend_from_slice(&start.to_le_bytes());
    for _ in 0..12 {
        p.extend_from_slice(&distance.to_le_bytes());
        p.push(intensity);
    }
    p.extend_from_slice(&end.to_le_bytes());
    p.extend_from_slice(&timestamp.to_le_bytes());
    let crc = calculate_crc8(&p);
    p.push(crc);
    p
}

#[test]
fn test_filter_creation() {
    let filter = NearRangeFilter::new();
    assert_eq!(filter.near_range_threshold, 5000);
}

#[test]
fn test_crc8() {
    let data = [0x54, 0x2C, 0x10, 0x0E];
    let crc = calculate_crc8(&data);
    assert!((crc as u32) < 256);
}

#[test]
fn crc8_exact_value() {
    assert_eq!(calculate_crc8(&[0x54, 0x2C, 0x10, 0x0E]), 219);
    assert_eq!(calculate_crc8(&[]), 0);
    assert_eq!(calc_crc8(&[0x54, 0x2C, 0x10, 0x0E]), 219);
}

#[test]
fn crc8_of_sealed_data_is_zero() {
    let mut data = vec![1u8, 2, 3, 200, 17];
    let c = calculate_crc8(&data);
    data.push(c);
    assert_eq!(calculate_crc8(&data), 0);
}

#[test]
fn crc8_of_xor_is_xor_of_crc8() {
    assert_eq!(calculate_crc8(&[0x01]), 0x4D);
    let a = [0x54u8, 0x2C, 0x10, 0x0E, 0x99];
    let b = [0x01u8, 0xFF, 0x7A, 0x00, 0x42];
    let x: Vec<u8> = a.iter().zip(b.iter()).map(|(p, q)| p ^ q).collect();
    assert_eq!(calculate_crc8(&x), calculate_crc8(&a) ^ calculate_crc8(&b));
}

#[test]
fn packet_from_bytes_reads_all_fields() {
    let bytes = build_packet(1000, 2100, 1000, 100, 3600, 1234);
    assert_eq!(bytes.len(), PACKET_SIZE);
    assert_eq!(bytes[46], 43);
    let p = LidarPacket::from_bytes(&bytes).expect("valid packet");
    assert_eq!(p.header, PKG_HEADER);
    assert_eq!(p.ver_len, PKG_VER_LEN);
    assert_eq!(p.speed, 3600);
    assert_eq!(p.start_angle, 1000);
    assert_eq!(p.end_angle, 2100);
    assert_eq!(p.timestamp, 1234);
    assert_eq!(p.crc8, 43);
    for pt in p.points.iter() {
        assert_eq!(*pt, LidarPoint { distance: 1000, intensity: 100 });
    }
}

#[test]
fn packet_from_bytes_rejects_bad_input() {
    let bytes = build_packet(1000, 2100, 1000, 100, 3600, 1234);
    assert!(LidarPacket::from_bytes(&bytes[..46]).is_none());
    let mut bad_crc = bytes.clone();
    bad_crc[46] ^= 1;
    assert!(LidarPacket::from_bytes(&bad_crc).is_none());
    let mut bad_header = bytes.clone();
    bad_header[0] = 0x55;
    assert!(LidarPacket::from_bytes(&bad_header).is_none());
    let mut bad_ver = bytes.clone();
    bad_ver[1] = 0x2D;
    assert!(LidarPacket::from_bytes(&bad_ver).is_none());
}

#[test]
fn packet_angle_span() {
    let bytes = build_packet(1000, 2000, 1000, 100, 3600, 0);
    let p = LidarPacket::from_bytes(&bytes).unwrap();
    assert_eq!(p.angle_span_raw(), 1000);
    let wrap = LidarPacket::from_bytes(&build_packet(35900, 100, 1000, 100, 3600, 0)).unwrap();
    assert_eq!(wrap.angle_span_raw(), 200);
    let odd = LidarPacket::from_bytes(&build_packet(65000, 0, 1000, 100, 3600, 0)).unwrap();
    assert_eq!(odd.angle_span_raw(), -29000);
}

#[test]
fn extract_single_packet() {
    let pkt = build_packet(1000, 2100, 1000, 100, 3600, 1234);
    let mut buffer = Vec::new();
    let packets = extract_packets(&mut buffer, &pkt);
    assert_eq!(packets.len(), 1);
    assert_eq!(packets[0].start_angle, 1000);
    assert!(buffer.is_empty());
}

#[test]
fn extract_packets_across_chunks() {
    let pkt1 = build_packet(35000, 35550, 800, 100, 3600, 1);
    let pkt2 = build_packet(0, 550, 800, 100, 3600, 2);
    let mut stream = vec![0x00, 0x11, 0x54];
    stream.extend_from_slice(&pkt1);
    stream.extend_from_slice(&pkt2);
    let mut buffer = Vec::new();
    let first = extract_packets(&mut buffer, &stream[..30]);
    assert!(first.is_empty());
    assert_eq!(buffer, stream[3..30].to_vec());
    let second = extract_packets(&mut buffer, &stream[30..60]);
    assert_eq!(second.len(), 1);
    assert_eq!(second[0].timestamp, 1);
    let third = extract_packets(&mut buffer, &stream[60..]);
    assert_eq!(third.len(), 1);
    assert_eq!(third[0].timestamp, 2);
    assert!(buffer.is_empty());
}

#[test]
fn extract_skips_bad_checksum_and_drops_garbage() {
    let mut bad = build_packet(1000, 2100, 1000, 100, 3600, 7);
    bad[10] ^= 0xFF;
    let good = build_packet(2200, 3300, 500, 50, 3600, 8);
    let mut stream = bad.clone();
    stream.extend_from_slice(&good);
    let mut buffer = Vec::new();
    let packets = extract_packets(&mut buffer, &stream);
    assert_eq!(packets.len(), 1);
    assert_eq!(packets[0].timestamp, 8);
    let mut buffer2 = Vec::new();
    assert!(extract_packets(&mut buffer2, &[1, 2, 3, 4]).is_empty());
    assert!(buffer2.is_empty());
}

#[test]
fn extract_keeps_header_split_at_cut() {
    let pkt = build_packet(1000, 2100, 1000, 100, 3600, 9);
    let mut buffer = Vec::new();
    assert!(extract_packets(&mut buffer, &pkt[..1]).is_empty());
    assert_eq!(buffer, vec![PKG_HEADER]);
    let packets = extract_packets(&mut buffer, &pkt[1..]);
    assert_eq!(packets, vec![LidarPacket::from_bytes(&pkt).unwrap()]);
    assert!(buffer.is_empty());
    // A lone last byte that is not the first header byte is dropped.
    let mut other = Vec::new();
    assert!(extract_packets(&mut other, &[1, 2, PKG_VER_LEN]).is_empty());
    assert!(other.is_empty());
    // Every cut of a two-packet stream gives the same packets as the whole stream.
    let mut stream = vec![7u8, PKG_HEADER];
    stream.extend_from_slice(&pkt);
    stream.extend_from_slice(&build_packet(2200, 3300, 900, 50, 3600, 10));
    stream.push(PKG_HEADER);
    let mut whole_buf = Vec::new();
    let whole = extract_packets(&mut whole_buf, &stream);
    assert_eq!(whole.len(), 2);
    for cut in 0..=stream.len() {
        let mut buf = Vec::new();
        let mut got = extract_packets(&mut buf, &stream[..cut]);
        got.extend(extract_packets(&mut buf, &stream[cut..]));
        assert_eq!(got, whole);
        assert_eq!(buf, whole_buf);
    }
}

#[test]
fn decode_packet_errors() {
    let pkt = build_packet(1000, 2100, 1000, 100, 3600, 9);
    assert_eq!(decode_packet(&pkt[..20]), Err(DriverError::FrameTooShort));
    let mut bad = pkt.clone();
    bad[1] = 0;
    assert_eq!(decode_packet(&bad), Err(DriverError::UnexpectedHeader));
    let mut bad_crc = pkt.clone();
    bad_crc[46] ^= 1;
    let decoded = decode_packet(&bad_crc).expect("checksum is not checked");
    assert_eq!(decoded.timestamp, 9);
    assert!(validate_crc(&pkt));
    assert!(!validate_crc(&bad_crc));
    assert!(!validate_crc(&pkt[..46]));
}

#[test]
fn test_parser_creation() {
    let parser = PacketAssembler::new();
    assert_eq!(parser.state, ParserState::Header);
    assert!(parser.buffer.is_empty());
}

#[test]
fn test_state_transitions() {
    let mut parser = PacketAssembler::new();
    assert!(!parser.process_byte(0x54));
    assert_eq!(parser.state, ParserState::VerLen);
    assert!(!parser.process_byte(0x2C));
    assert!(matches!(parser.state, ParserState::Data(_)));
}

#[test]
fn assembler_collects_full_packet() {
    let pkt = build_packet(1000, 2100, 1000, 100, 3600, 5);
    let mut parser = PacketAssembler::new();
    assert!(!parser.process_byte(0x00));
    let mut done = false;
    for (i, b) in pkt.iter().enumerate() {
        let c = parser.process_byte(*b);
        if i + 1 < pkt.len() {
            assert!(!c);
        } else {
            done = c;
        }
    }
    assert!(done);
    assert_eq!(parser.buffer, pkt);
    assert_eq!(parser.state, ParserState::Header);
    let mut p2 = PacketAssembler::new();
    p2.process_byte(0x54);
    p2.process_byte(0x00);
    assert_eq!(p2.state, ParserState::Header);
}

#[test]
fn filter_threshold_and_groups() {
    let f = NearRangeFilter::with_threshold(1200);
    assert_eq!(f.near_range_threshold, 1200);
    assert!(f.is_near(1199));
    assert!(!f.is_near(1200));
    assert_eq!(NearRangeFilter::default().near_range_threshold, 5000);
    assert!(!group_is_kept(&[10, 10]));
    assert!(group_is_kept(&[220, 221]));
    assert!(!group_is_kept(&[219, 220]));
    assert!(group_is_kept(&[200, 200, 200, 200]));
    assert!(!group_is_kept(&[15, 15, 15]));
    assert!(group_is_kept(&[16, 16, 16]));
    assert!(group_is_kept(&[0u8; 16]));
    assert!(!group_is_kept(&[]));
}

#[test]
fn assembler_feeds_runs_of_bytes() {
    let p1 = build_packet(1000, 2100, 1000, 100, 3600, 5);
    let p2 = build_packet(2200, 3300, 900, 50, 3600, 6);
    let mut bad = build_packet(0, 100, 10, 1, 3600, 7);
    bad[46] ^= 0xFF;
    let mut stream = vec![0x00, 0x54, 0x00];
    stream.extend_from_slice(&p1);
    stream.extend_from_slice(&bad);
    stream.extend_from_slice(&p2);
    stream.extend_from_slice(&[0x54, 0x2C, 0x01]);
    let expected = vec![LidarPacket::from_bytes(&p1).unwrap(), LidarPacket::from_bytes(&p2).unwrap()];

    let mut whole = PacketAssembler::new();
    assert_eq!(whole.feed_bytes(&stream), expected);
    assert_eq!(whole.state, ParserState::Data(3));
    assert_eq!(whole.buffer, vec![0x54, 0x2C, 0x01]);

    for cut in [1usize, 10, 50, 60, 100, 140] {
        let mut pieces = PacketAssembler::new();
        let mut got = pieces.feed_bytes(&stream[..cut]);
        got.extend(pieces.feed_bytes(&stream[cut..]));
        assert_eq!(got, expected);
        assert_eq!(pieces.state, whole.state);
        assert_eq!(pieces.buffer, whole.buffer);
    }
}

#[test]
fn reader_backs_off_when_idle() {
    assert_eq!(idle_sleep_ms(0), 1);
    assert_eq!(idle_sleep_ms(4), 1);
    assert_eq!(idle_sleep_ms(5), 5);
    assert_eq!(idle_sleep_ms(19), 5);
    assert_eq!(idle_sleep_ms(20), 10);
    assert_eq!(idle_sleep_ms(u32::MAX), 10);
}

#[test]
fn test_filter_far_points() {
    // Points at 6000 mm and 7000 mm lie beyond the default 5 m threshold: both kept.
    let filter = NearRangeFilter::new();
    let kept = [6000u16, 7000].iter().filter(|&&d| !filter.is_near(d)).count();
    assert_eq!(kept, 2);
}

#[test]
fn test_filter_low_intensity() {
    // Two near points of intensity 10 form one small group, which is dropped.
    let filter = NearRangeFilter::new();
    assert!(filter.is_near(1000) && filter.is_near(1010));
    assert!(!group_is_kept(&[10, 10]));
}

#[test]
fn test_filter_high_intensity_group() {
    // Four near points of intensity 200 form one medium group, which passes.
    let filter = NearRangeFilter::new();
    assert!([1000u16, 1010, 1020, 1030].iter().all(|&d| filter.is_near(d)));
    assert!(group_is_kept(&[200, 200, 200, 200]));
}

#[test]
fn test_angle_difference() {
    // Start 10.00 degrees, end 20.00 degrees: a span of 10.00 degrees.
    let p = LidarPacket::from_bytes(&build_packet(1000, 2000, 0, 0, 3600, 0)).unwrap();
    assert_eq!(p.angle_span_raw(), 1000);
}

#[test]
fn test_angle_wrap() {
    // Start 359.00 degrees, end 1.00 degree: the span wraps to 2.00 degrees.
    let p = LidarPacket::from_bytes(&build_packet(35900, 100, 0, 0, 3600, 0)).unwrap();
    assert_eq!(p.angle_span_raw(), 200);
}
