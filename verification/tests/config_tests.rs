use sqm_autorate::cake::TcaCake;
use sqm_autorate::config::MeasurementType;
use sqm_autorate::error::{
    ConfigParseError, InvalidMeasurementTypeError, MissingConfigError, NoQdiscFoundError,
    PingParseError,
};
use sqm_autorate::netlink::{Netlink, Qdisc, RtnlLinkStats64, StatsDirection, select_bytes};
use sqm_autorate::time::Time;
use sqm_autorate::utils::Utils;

#[test]
fn measurement_type_parses_case_insensitively() {
    assert!(matches!(MeasurementType::from_str("icmp"), Ok(MeasurementType::ICMP)));
    assert!(matches!(MeasurementType::from_str("ICMP"), Ok(MeasurementType::ICMP)));
    assert!(matches!(
        MeasurementType::from_str("icmp-timestamps"),
        Ok(MeasurementType::ICMPTimestamps)
    ));
    assert!(matches!(
        MeasurementType::from_str("Icmp-Timestamps"),
        Ok(MeasurementType::ICMPTimestamps)
    ));
    assert!(matches!(MeasurementType::from_str("NtP"), Ok(MeasurementType::NTP)));
    assert!(matches!(
        MeasurementType::from_str("tcp-timestamps"),
        Ok(MeasurementType::TCPTimestamps)
    ));
}

#[test]
fn measurement_type_rejects_unknown_names() {
    let err = MeasurementType::from_str("quic").unwrap_err();
    assert_eq!(err.type_, "quic");
    assert_eq!(err.message(), "Couldn't find measurement type");
    assert!(MeasurementType::from_str("").is_err());
    assert!(MeasurementType::from_str("icmp ").is_err());
}

#[test]
fn error_messages_are_stable() {
    let e = ConfigParseError { config_key: String::from("SQMA_TICK_INTERVAL") };
    assert_eq!(e.message(), "Couldn't parse value from string for key");
    let e = MissingConfigError { config_key: String::from("SQMA_DOWNLOAD_INTERFACE") };
    assert_eq!(e.message(), "Couldn't find required configuration option");
    let e = NoQdiscFoundError;
    assert_eq!(e.message(), "Couldn't find a CAKE qdisc for interface");
    let e = PingParseError { msg: String::from("x") };
    assert_eq!(e.message(), "Couldn't parse received ping packet");
}

#[test]
fn cake_attribute_codes_follow_the_kernel_order() {
    assert_eq!(TcaCake::Unspec.code(), 0);
    assert_eq!(TcaCake::BaseRate64.code(), 2);
    assert_eq!(TcaCake::SCE.code(), 20);
}

#[test]
fn qdisc_rate_converts_kbit_to_bytes_per_second() {
    assert_eq!(Netlink::rate_to_bytes_per_sec(1_000), 125_000);
    assert_eq!(Netlink::rate_to_bytes_per_sec(0), 0);
    assert_eq!(Netlink::rate_to_bytes_per_sec(8), 1_000);
}

#[test]
fn link_stats_parse_reads_little_endian_counters() {
    let mut buf = vec![0u8; 192];
    // rx_bytes at offset 16, tx_bytes at offset 24
    buf[16..24].copy_from_slice(&123_456_789u64.to_le_bytes());
    buf[24..32].copy_from_slice(&0x0102_0304_0506_0708u64.to_le_bytes());
    buf[184..192].copy_from_slice(&7u64.to_le_bytes());
    let stats = Netlink::parse_link_stats(&buf).unwrap();
    assert_eq!(stats.rx_bytes, 123_456_789);
    assert_eq!(stats.tx_bytes, 0x0102_0304_0506_0708);
    assert_eq!(stats.rx_nohandler, 7);
    assert_eq!(stats.rx_packets, 0);
    // short attribute payloads are rejected
    assert!(Netlink::parse_link_stats(&buf[..191]).is_none());
}

#[test]
fn direction_selects_the_configured_counter() {
    let stats = RtnlLinkStats64 { rx_bytes: 10, tx_bytes: 20, ..Default::default() };
    assert_eq!(select_bytes(&stats, StatsDirection::RX), 10);
    assert_eq!(select_bytes(&stats, StatsDirection::TX), 20);
}

#[test]
fn cake_kind_matching_strips_nul_padding() {
    assert!(Netlink::is_cake_kind(b"cake"));
    assert!(Netlink::is_cake_kind(b"cake\0"));
    assert!(Netlink::is_cake_kind(b"cake\0\0\0\0"));
    assert!(!Netlink::is_cake_kind(b"fq_codel\0"));
    assert!(!Netlink::is_cake_kind(b"cakes"));
    assert!(!Netlink::is_cake_kind(b""));
}

#[test]
fn time_reductions_are_exact() {
    let t = Time { time_s: 86_400 + 3, time_ns: 5_000_000 };
    assert_eq!(t.get_time_since_midnight(), 3_005);
    assert_eq!(t.to_milliseconds(), 86_403_005);
    let midnight = Time { time_s: 2 * 86_400, time_ns: 999_999 };
    assert_eq!(midnight.get_time_since_midnight(), 0);
}

#[test]
fn clock_wrapper_returns_a_plausible_reading() {
    let t = Time::new(rustix::time::ClockId::Realtime);
    assert!(t.time_ns < 1_000_000_000);
    // a real wall clock reads far past the epoch
    assert!(t.time_s > 1_600_000_000);
    let m = Time::new(rustix::time::ClockId::Monotonic);
    assert!(m.time_ns < 1_000_000_000);
}

#[test]
fn a_else_b_picks_the_positive_first_argument() {
    assert_eq!(Utils::a_else_b(3, 9), 3);
    assert_eq!(Utils::a_else_b(0, 9), 9);
    assert_eq!(Utils::a_else_b(-2, -7), -7);
}

#[test]
fn qdisc_handle_is_plain_data() {
    let q = Qdisc { ifindex: 4, parent: 0x1_0001 };
    assert_eq!(q.ifindex, 4);
    assert_eq!(q.parent, 0x1_0001);
}
