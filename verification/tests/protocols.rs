use hexapod::nmea::{
    parse_sentence, rfind, rmc_active, sentence_kind, verify_checksum, vtg_has_speed, xor_range,
    FixQuality, GpsFixStatus, SentenceKind,
};
use hexapod::text::{bytes_eq, ends_with, parse_unsigned, split_fields, to_digit, trim_whitespace};
use hexapod::ubec::{
    decimal_digits, decimal_tokens, disable_servos_command, enable_servos_command, next_power_state, parse_message, read_u32, shutdown_command, PowerState,
    UbecMessage,
};

const GGA: &str = "$GNGGA,203030.00,4836.03803,N,01805.13318,E,1,32,0.5,208.29,M,42.98,M,,*77";
const RMC: &str = "$GNRMC,203030.00,A,4836.03803,N,01805.13318,E,0.18,,211125,,,A,V*2E";
const VTG: &str = "$GPVTG,,T,,M,0.18,N,0.33,K,A*2A";

fn fields(parts: &[&str]) -> Vec<Vec<u8>> {
    parts.iter().map(|p| p.as_bytes().to_vec()).collect()
}

#[test]
fn split_fields_keeps_empty_pieces() {
    assert_eq!(split_fields(b"a,,b", b','), fields(&["a", "", "b"]));
    assert_eq!(split_fields(b"", b','), fields(&[""]));
    assert_eq!(split_fields(b",", b','), fields(&["", ""]));
    assert_eq!(split_fields(b"abc", b','), fields(&["abc"]));
}

#[test]
fn parse_unsigned_follows_from_str_radix() {
    assert_eq!(parse_unsigned(b"255", 10, 255), Some(255));
    assert_eq!(parse_unsigned(b"256", 10, 255), None);
    assert_eq!(parse_unsigned(b"+7", 10, 255), Some(7));
    assert_eq!(parse_unsigned(b"", 10, 255), None);
    assert_eq!(parse_unsigned(b"+", 10, 255), None);
    assert_eq!(parse_unsigned(b"-1", 10, 255), None);
    assert_eq!(parse_unsigned(b"2e", 16, 255), Some(46));
    assert_eq!(parse_unsigned(b"2E", 16, 255), Some(46));
    assert_eq!(parse_unsigned(b"4294967295", 10, 4294967295), Some(4294967295));
    assert_eq!(parse_unsigned(b"4294967296", 10, 4294967295), None);
    assert_eq!(parse_unsigned(b"1.5", 10, 255), None);
}

#[test]
fn digit_and_byte_helpers() {
    assert_eq!(to_digit(b'7', 10), Some(7));
    assert_eq!(to_digit(b'f', 16), Some(15));
    assert_eq!(to_digit(b'g', 16), None);
    assert!(ends_with(b"$GNGGA", b"GGA"));
    assert!(!ends_with(b"GA", b"GGA"));
    assert!(bytes_eq(b"abc", b"abc"));
    assert!(!bytes_eq(b"abc", b"abd"));
    assert!(!bytes_eq(b"abc", b"ab"));
}

#[test]
fn nmea_checksums() {
    assert!(verify_checksum(GGA.as_bytes()));
    assert!(verify_checksum(RMC.as_bytes()));
    assert!(verify_checksum(VTG.as_bytes()));
    assert!(!verify_checksum(b"$GPTXT*00"));
    assert!(!verify_checksum(b"GNGGA,1*77"));
    assert!(!verify_checksum(b"$GNGGA,1"));
    assert!(!verify_checksum(b"$GNGGA,203030.00*ZZ"));
    assert!(!verify_checksum(b""));
    let mut bad = GGA.as_bytes().to_vec();
    bad[10] = b'9';
    assert!(!verify_checksum(&bad));
}

#[test]
fn nmea_byte_scans() {
    assert_eq!(rfind(b"a*b*c", b'*'), Some(3));
    assert_eq!(rfind(b"abc", b'*'), None);
    assert_eq!(xor_range(b"\x01\x02\x04\x08", 1, 3), 6);
    assert_eq!(xor_range(b"\x01\x02", 1, 1), 0);
}

#[test]
fn nmea_sentence_kinds() {
    assert_eq!(sentence_kind(b"$GNGGA"), SentenceKind::Gga);
    assert_eq!(sentence_kind(b"$GPRMC"), SentenceKind::Rmc);
    assert_eq!(sentence_kind(b"$GPVTG"), SentenceKind::Vtg);
    assert_eq!(sentence_kind(b"$GPGSV"), SentenceKind::Other);
}

#[test]
fn nmea_parse_gga_updates_fix() {
    let s = parse_sentence(GGA.as_bytes()).expect("valid sentence");
    assert_eq!(s.kind, SentenceKind::Gga);
    assert_eq!(s.fields.len(), 15);
    assert_eq!(s.fields[6], b"1".to_vec());
    let mut status = GpsFixStatus::new();
    assert!(!status.has_fix());
    assert!(status.apply_gga(&s.fields));
    assert_eq!(status.fix_quality, FixQuality::GpsFix);
    assert_eq!(status.satellites, 32);
    assert!(status.has_fix());
}

#[test]
fn nmea_gga_keeps_values_that_do_not_read() {
    let mut status = GpsFixStatus { fix_quality: FixQuality::DifferentialFix, satellites: 9 };
    status.apply_gga(&fields(&["$GNGGA", "", "", "", "", "", "x", "300", "", ""]));
    assert_eq!(status.fix_quality, FixQuality::DifferentialFix);
    assert_eq!(status.satellites, 9);
    assert!(!status.apply_gga(&fields(&["$GNGGA", "", "", "", "", "", "0", "5"])));
    assert_eq!(status.fix_quality, FixQuality::DifferentialFix);
    status.apply_gga(&fields(&["$GNGGA", "", "", "", "", "", "0", "5", "", ""]));
    assert_eq!(status.fix_quality, FixQuality::NoFix);
    assert_eq!(status.satellites, 5);
    assert!(!status.has_fix());
}

#[test]
fn nmea_fix_quality_codes() {
    assert_eq!(FixQuality::from(0u8), FixQuality::NoFix);
    assert_eq!(FixQuality::from(4u8), FixQuality::RtkFixed);
    assert_eq!(FixQuality::from(8u8), FixQuality::Simulation);
    assert_eq!(FixQuality::from(9u8), FixQuality::NoFix);
}

#[test]
fn nmea_rmc_status() {
    let s = parse_sentence(RMC.as_bytes()).expect("valid sentence");
    assert_eq!(s.kind, SentenceKind::Rmc);
    assert!(rmc_active(&s.fields));
    let void = fields(&["$GNRMC", "203030.00", "V", "", "", "", "", "", ""]);
    assert!(!rmc_active(&void));
    assert!(!rmc_active(&fields(&["$GNRMC", "1", "A"])));
}

#[test]
fn nmea_parse_rejects_bad_checksum() {
    assert!(parse_sentence(b"$GNGGA,1,2*00").is_none());
}

#[test]
fn ubec_parse_each_message() {
    assert_eq!(parse_message(b"START"), UbecMessage::Start);
    assert_eq!(parse_message(b"DATA:VOLTAGE:7.40"), UbecMessage::Voltage { voltage: b"7.40".to_vec() });
    assert_eq!(parse_message(b"DATA:CURRENT:1.2"), UbecMessage::Current { current: b"1.2".to_vec() });
    assert_eq!(
        parse_message(b"WARNING:LOW_BATTERY_START:6.80:30"),
        UbecMessage::LowBatteryStart { voltage: b"6.80".to_vec(), timeout: Some(30) }
    );
    assert_eq!(
        parse_message(b"WARNING:LOW_BATTERY_COUNTDOWN:6.70:12"),
        UbecMessage::LowBatteryCountdown { voltage: b"6.70".to_vec(), remaining: Some(12) }
    );
    assert_eq!(
        parse_message(b"CRITICAL:VOLTAGE_LOW:6.1:6.2"),
        UbecMessage::VoltageLow { voltage: b"6.1".to_vec(), threshold: b"6.2".to_vec() }
    );
    assert_eq!(
        parse_message(b"CRITICAL:LOW_VOLTAGE_TIMEOUT:6.0"),
        UbecMessage::LowVoltageTimeout { voltage: b"6.0".to_vec() }
    );
    assert_eq!(
        parse_message(b"INFO:VOLTAGE_RECOVERED:7.1"),
        UbecMessage::VoltageRecovered { voltage: b"7.1".to_vec() }
    );
    assert_eq!(parse_message(b"ERROR:ADC_TIMEOUT:3"), UbecMessage::AdcTimeout { count: Some(3) });
    assert_eq!(
        parse_message(b"CMD:SHUTDOWN_SCHEDULED:10"),
        UbecMessage::ShutdownScheduled { delay: Some(10) }
    );
    assert_eq!(
        parse_message(b"CMD:SHUTDOWN_COUNTDOWN:4"),
        UbecMessage::ShutdownCountdown { remaining: Some(4) }
    );
    assert_eq!(parse_message(b"CMD:SHUTDOWN_EXECUTED"), UbecMessage::ShutdownExecuted);
}

#[test]
fn ubec_parse_unknown_and_unreadable() {
    assert_eq!(parse_message(b""), UbecMessage::Unknown);
    assert_eq!(parse_message(b"HELLO"), UbecMessage::Unknown);
    assert_eq!(parse_message(b"DATA:VOLTAGE"), UbecMessage::Unknown);
    assert_eq!(parse_message(b"DATA:VOLTAGE:7:8"), UbecMessage::Unknown);
    assert_eq!(parse_message(b"start"), UbecMessage::Unknown);
    assert_eq!(
        parse_message(b"CMD:SHUTDOWN_SCHEDULED:soon"),
        UbecMessage::ShutdownScheduled { delay: None }
    );
    assert_eq!(read_u32(&b"-3".to_vec()), None);
    assert_eq!(read_u32(&b"4294967295".to_vec()), Some(u32::MAX));
}

#[test]
fn ubec_power_state_transitions() {
    let normal = PowerState::Normal;
    let m = parse_message(b"WARNING:LOW_BATTERY_START:6.80:30");
    assert_eq!(next_power_state(normal, &m, true), PowerState::LowBatteryWarning { timeout_seconds: 30 });
    assert_eq!(next_power_state(normal, &m, false), PowerState::Normal);
    let m = parse_message(b"WARNING:LOW_BATTERY_COUNTDOWN:6.70:12");
    let s = next_power_state(PowerState::LowBatteryWarning { timeout_seconds: 30 }, &m, true);
    assert_eq!(s, PowerState::LowBatteryWarning { timeout_seconds: 12 });
    let m = parse_message(b"CRITICAL:VOLTAGE_LOW:6.1:6.2");
    let s = next_power_state(s, &m, true);
    assert_eq!(s, PowerState::Critical);
    assert!(s.is_critical());
    let m = parse_message(b"INFO:VOLTAGE_RECOVERED:7.1");
    assert_eq!(next_power_state(s, &m, true), PowerState::Normal);
    let m = parse_message(b"CMD:SHUTDOWN_SCHEDULED:10");
    assert_eq!(next_power_state(normal, &m, true), PowerState::ShuttingDown { remaining_seconds: 10 });
    let m = parse_message(b"CMD:SHUTDOWN_COUNTDOWN:3");
    assert_eq!(next_power_state(normal, &m, false), PowerState::ShuttingDown { remaining_seconds: 3 });
    let m = parse_message(b"CMD:SHUTDOWN_EXECUTED");
    assert_eq!(next_power_state(normal, &m, true), PowerState::Critical);
    let m = parse_message(b"ERROR:ADC_TIMEOUT:2");
    assert_eq!(next_power_state(normal, &m, true), PowerState::Critical);
    let m = parse_message(b"ERROR:ADC_TIMEOUT:x");
    assert_eq!(next_power_state(normal, &m, true), PowerState::Normal);
    let m = parse_message(b"DATA:VOLTAGE:7.40");
    assert_eq!(next_power_state(PowerState::Critical, &m, true), PowerState::Critical);
    assert!(!PowerState::Normal.is_critical());
}

#[test]
fn ubec_shutdown_command_text() {
    assert_eq!(shutdown_command(10), b"SHUTDOWN:10\n".to_vec());
    assert_eq!(shutdown_command(0), b"SHUTDOWN:0\n".to_vec());
    assert_eq!(shutdown_command(u32::MAX), b"SHUTDOWN:4294967295\n".to_vec());
    assert_eq!(decimal_digits(907), b"907".to_vec());
}

#[test]
fn ubec_shutdown_delay_reads_back() {
    for n in [0u32, 7, 10, 99, 12345, u32::MAX] {
        let digits = decimal_digits(n);
        assert_eq!(read_u32(&digits), Some(n));
    }
}

#[test]
fn ubec_servo_power_commands() {
    assert_eq!(enable_servos_command(), b"ENABLE_SERVOS\n".to_vec());
    assert_eq!(disable_servos_command(), b"DISABLE_SERVOS\n".to_vec());
}

#[test]
fn nmea_sentence_sealed_with_its_checksum() {
    let body = "GPTXT,01,01,02,ANTENNA OK";
    let c = body.bytes().fold(0u8, |a, b| a ^ b);
    let good = format!("${}*{:02X}", body, c);
    assert!(verify_checksum(good.as_bytes()));
    let bad = format!("${}*{:02X}", body, c ^ 1);
    assert!(!verify_checksum(bad.as_bytes()));
}

#[test]
fn nmea_vtg_length() {
    let s = parse_sentence(VTG.as_bytes()).expect("valid sentence");
    assert_eq!(s.kind, SentenceKind::Vtg);
    assert!(vtg_has_speed(&s.fields));
    assert_eq!(s.fields[7], b"0.33".to_vec());
    assert!(!vtg_has_speed(&fields(&["$GPVTG", "", "T"])));
}

#[test]
fn ubec_decimal_tokens_of_messages() {
    assert_eq!(decimal_tokens(&parse_message(b"CRITICAL:VOLTAGE_LOW:6.1:6.2")), vec![b"6.1".to_vec(), b"6.2".to_vec()]);
    assert_eq!(decimal_tokens(&parse_message(b"WARNING:LOW_BATTERY_START:6.80:30")), vec![b"6.80".to_vec()]);
    assert_eq!(decimal_tokens(&parse_message(b"DATA:CURRENT:1.5")), vec![b"1.5".to_vec()]);
    assert!(decimal_tokens(&parse_message(b"CMD:SHUTDOWN_SCHEDULED:10")).is_empty());
    assert!(decimal_tokens(&parse_message(b"START")).is_empty());
}

#[test]
fn trim_removes_surrounding_white_space() {
    assert_eq!(trim_whitespace(b"  DATA:VOLTAGE:7.40\r\n"), b"DATA:VOLTAGE:7.40");
    assert_eq!(trim_whitespace(b" \t\r\n\x0b\x0c"), b"");
    assert_eq!(trim_whitespace(b""), b"");
    assert_eq!(trim_whitespace(b"a b"), b"a b");
    for text in ["\u{a0} x y\u{3000}", "\u{2028}\u{85}start\u{2009}\u{1680}", "\u{205f}\u{202f}", "no-trim", "\u{e9}\u{e9}"] {
        assert_eq!(trim_whitespace(text.as_bytes()), text.trim().as_bytes());
    }
}

#[test]
fn ubec_parse_raw_lines() {
    assert_eq!(parse_message(b"DATA:VOLTAGE:7.40\r\n"), UbecMessage::Voltage { voltage: b"7.40".to_vec() });
    assert_eq!(parse_message(b"START\n"), UbecMessage::Start);
    assert_eq!(parse_message(b"  CMD:SHUTDOWN_COUNTDOWN:4\r"), UbecMessage::ShutdownCountdown { remaining: Some(4) });
    let m = parse_message(b"WARNING:LOW_BATTERY_START:6.80:30\r\n");
    assert_eq!(m, UbecMessage::LowBatteryStart { voltage: b"6.80".to_vec(), timeout: Some(30) });
    assert_eq!(parse_message(b"\r\n"), UbecMessage::Unknown);
}

#[test]
fn nmea_parse_raw_lines() {
    let line = format!("{}\r\n", GGA);
    let s = parse_sentence(line.as_bytes()).expect("valid sentence");
    assert_eq!(s.kind, SentenceKind::Gga);
    assert_eq!(s.fields.len(), 15);
    assert_eq!(s.fields[14], b"*77".to_vec());
    assert!(parse_sentence(format!("  {}\n", RMC).as_bytes()).is_some());
}
