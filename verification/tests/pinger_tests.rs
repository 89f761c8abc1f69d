use sqm_autorate::pinger::{icmp_checksum, probe_spacing_ms, PingError};
use sqm_autorate::pinger_icmp::{PingerICMPEchoListener, PingerICMPEchoSender};
use sqm_autorate::pinger_icmp_ts::{PingerICMPTimestampListener, PingerICMPTimestampSender};

/// Ones'-complement sum over a whole message, checksum field included, must
/// fold to 0xFFFF when the checksum is correct (RFC 1071).
fn ones_complement_total(pkt: &[u8]) -> u32 {
    let mut sum: u32 = 0;
    let mut i = 0;
    while i < pkt.len() {
        let hi = pkt[i] as u32;
        let lo = if i + 1 < pkt.len() { pkt[i + 1] as u32 } else { 0 };
        sum += hi * 0x100 + lo;
        i += 2;
    }
    while sum > 0xFFFF {
        sum = (sum & 0xFFFF) + (sum >> 16);
    }
    sum
}

/// A minimal IPv4 header (ihl 5, protocol ICMP) in front of an ICMP message,
/// the shape a raw socket delivers.
fn with_ip_header(icmp: &[u8]) -> Vec<u8> {
    let mut buf = vec![
        0x45, 0, 0, (20 + icmp.len()) as u8, 0, 0, 0, 0, 64, 1, 0, 0, 1, 1, 1, 1, 2, 2, 2, 2,
    ];
    buf.extend_from_slice(icmp);
    buf
}

#[test]
fn echo_request_has_the_wire_shape() {
    let sender = PingerICMPEchoSender {};
    let pkt = sender.craft_packet(0x1234, 7, 100_000);
    assert_eq!(pkt.len(), 16);
    assert_eq!(pkt[0], 8, "echo request type");
    assert_eq!(pkt[1], 0, "code");
    assert_eq!(&pkt[4..6], &[0x12, 0x34], "identifier big-endian");
    assert_eq!(&pkt[6..8], &[0, 7], "sequence big-endian");
    assert_eq!(
        &pkt[8..16],
        &100_000u64.to_le_bytes(),
        "payload carries the millisecond timestamp"
    );
    assert_eq!(ones_complement_total(&pkt), 0xFFFF, "checksum verifies");
}

#[test]
fn echo_round_trip_recovers_the_delays() {
    let sender = PingerICMPEchoSender {};
    let listener = PingerICMPEchoListener {};
    let mut icmp = sender.craft_packet(0x1234, 7, 100_000);
    icmp[0] = 0; // the reflector answers with an echo reply
    let buf = with_ip_header(&icmp);
    let reply = listener.parse_packet(0x1234, 0xAABB, &buf, 100_250, 999).unwrap();
    assert_eq!(reply.seq, 7);
    assert_eq!(reply.rtt, 250);
    assert_eq!(reply.down_time, 125, "symmetric split of the round trip");
    assert_eq!(reply.up_time, 125);
    assert_eq!(reply.reflector, 0xAABB);
    assert_eq!(reply.current_time, 100_250);
    assert_eq!(reply.last_receive_time_ms, 999);
}

#[test]
fn echo_rejects_foreign_identifiers() {
    let sender = PingerICMPEchoSender {};
    let listener = PingerICMPEchoListener {};
    let mut icmp = sender.craft_packet(0x1234, 7, 100_000);
    icmp[0] = 0;
    let buf = with_ip_header(&icmp);
    let err = listener.parse_packet(0x9999, 1, &buf, 100_250, 999).unwrap_err();
    assert_eq!(err, PingError::WrongID { expected: 0x9999, found: 0x1234 });
}

#[test]
fn echo_rejects_requests_and_junk() {
    let sender = PingerICMPEchoSender {};
    let listener = PingerICMPEchoListener {};
    let icmp = sender.craft_packet(0x1234, 7, 100_000);
    // still type 8 (a request, not a reply)
    let buf = with_ip_header(&icmp);
    assert_eq!(
        listener.parse_packet(0x1234, 1, &buf, 100_250, 999).unwrap_err(),
        PingError::InvalidType
    );
    // not ICMP
    let mut not_icmp = with_ip_header(&icmp);
    not_icmp[9] = 6;
    assert_eq!(
        listener.parse_packet(0x1234, 1, &not_icmp, 100_250, 999).unwrap_err(),
        PingError::InvalidProtocol
    );
    // too short for any IP packet
    assert_eq!(
        listener.parse_packet(0x1234, 1, &[0x45, 0, 0], 100_250, 999).unwrap_err(),
        PingError::InvalidPacket
    );
    // IP header only: no transport
    let bare_ip = with_ip_header(&[]);
    assert_eq!(
        listener.parse_packet(0x1234, 1, &bare_ip, 100_250, 999).unwrap_err(),
        PingError::NoTransport
    );
    // echo reply with a truncated payload
    let mut short = with_ip_header(&icmp[..10]);
    short[20] = 0;
    assert_eq!(
        listener.parse_packet(0x1234, 1, &short, 100_250, 999).unwrap_err(),
        PingError::InvalidNumber
    );
}

#[test]
fn timestamp_request_has_the_wire_shape() {
    let sender = PingerICMPTimestampSender {};
    let pkt = sender.craft_packet(77, 3, 1_000);
    assert_eq!(pkt.len(), 20);
    assert_eq!(pkt[0], 13, "timestamp request type");
    assert_eq!(pkt[1], 0);
    assert_eq!(&pkt[8..12], &1_000u32.to_be_bytes(), "originate big-endian");
    assert_eq!(&pkt[12..16], &[0, 0, 0, 0], "receive zero on a request");
    assert_eq!(&pkt[16..20], &[0, 0, 0, 0], "transmit zero on a request");
    assert_eq!(ones_complement_total(&pkt), 0xFFFF, "checksum verifies");
}

#[test]
fn timestamp_round_trip_recovers_the_delays() {
    let sender = PingerICMPTimestampSender {};
    let listener = PingerICMPTimestampListener {};
    let mut icmp = sender.craft_packet(77, 3, 1_000);
    icmp[0] = 14; // reply
    icmp[12..16].copy_from_slice(&1_400u32.to_be_bytes()); // receive
    icmp[16..20].copy_from_slice(&1_500u32.to_be_bytes()); // transmit
    let buf = with_ip_header(&icmp);
    let reply = listener.parse_packet(77, 42, &buf, 2_000, 777).unwrap();
    assert_eq!(reply.seq, 3);
    assert_eq!(reply.rtt, 1_000, "now_mid - originate");
    assert_eq!(reply.up_time, 400, "receive - originate");
    assert_eq!(reply.down_time, 500, "now_mid - transmit");
    assert_eq!(reply.originate_timestamp, 1_000);
    assert_eq!(reply.receive_timestamp, 1_400);
    assert_eq!(reply.transmit_timestamp, 1_500);
    assert_eq!(reply.last_receive_time_ms, 777);
}

#[test]
fn timestamp_rejects_foreign_identifiers_with_a_named_message() {
    let sender = PingerICMPTimestampSender {};
    let listener = PingerICMPTimestampListener {};
    let mut icmp = sender.craft_packet(77, 3, 1_000);
    icmp[0] = 14;
    let buf = with_ip_header(&icmp);
    let err = listener.parse_packet(78, 42, &buf, 2_000, 777).unwrap_err();
    assert_eq!(err.msg, "Wrong ID");
    assert_eq!(err.message(), "Couldn't parse received ping packet");
}

#[test]
fn timestamp_rejects_other_shapes() {
    let listener = PingerICMPTimestampListener {};
    let sender = PingerICMPTimestampSender {};
    // a request (type 13) is not a reply
    let buf = with_ip_header(&sender.craft_packet(77, 3, 1_000));
    let err = listener.parse_packet(77, 42, &buf, 2_000, 777).unwrap_err();
    assert_eq!(err.msg, "Reached end of parsing function");
}

#[test]
fn negative_one_way_times_are_kept_and_clipped_only_at_a_day() {
    // clock skew can make receive < originate; the difference is used as-is
    let sender = PingerICMPTimestampSender {};
    let listener = PingerICMPTimestampListener {};
    let mut icmp = sender.craft_packet(77, 3, 5_000);
    icmp[0] = 14;
    icmp[12..16].copy_from_slice(&4_000u32.to_be_bytes());
    icmp[16..20].copy_from_slice(&4_500u32.to_be_bytes());
    let buf = with_ip_header(&icmp);
    let reply = listener.parse_packet(77, 42, &buf, 6_000, 777).unwrap();
    assert_eq!(reply.up_time, -1_000, "receive - originate, negative");
    assert_eq!(reply.down_time, 1_500);
}

#[test]
fn checksum_matches_a_known_vector() {
    // RFC 1071's worked example: words 0x0001, 0xf203, 0xf4f5, 0xf6f7
    // sum 0x2ddf0 folds to 0xddf2; its complement is 0x220d
    let data = [0x00u8, 0x01, 0xf2, 0x03, 0xf4, 0xf5, 0xf6, 0xf7];
    assert_eq!(icmp_checksum(&data), 0x220d);
    // odd length: trailing byte padded with zero
    let odd = [0x01u8, 0x02, 0x03];
    assert_eq!(icmp_checksum(&odd), !(0x0102u16 + 0x0300u16));
}

#[test]
fn probe_spacing_divides_the_tick_evenly() {
    assert_eq!(probe_spacing_ms(500, 5), 100);
    assert_eq!(probe_spacing_ms(500, 6), 83);
    assert_eq!(probe_spacing_ms(500, 1), 500);
}

#[test]
fn echo_rejects_a_payload_timestamp_out_of_range() {
    let sender = PingerICMPEchoSender {};
    let listener = PingerICMPEchoListener {};
    let mut icmp = sender.craft_packet(0x1234, 7, u64::MAX);
    icmp[0] = 0;
    let buf = with_ip_header(&icmp);
    assert_eq!(
        listener.parse_packet(0x1234, 1, &buf, 100_250, 999).unwrap_err(),
        PingError::InvalidNumber,
        "a sent-time beyond the signed range cannot form a round trip"
    );
}

#[test]
fn clock_stamped_requests_are_well_formed() {
    let echo = PingerICMPEchoSender {};
    let pkt = echo.craft_packet_now(0x0042, 9);
    assert_eq!(pkt.len(), 16);
    assert_eq!(pkt[0], 8);
    assert_eq!(&pkt[4..6], &[0x00, 0x42]);
    assert_eq!(&pkt[6..8], &[0, 9]);
    assert_eq!(ones_complement_total(&pkt), 0xFFFF);

    let ts = PingerICMPTimestampSender {};
    let pkt = ts.craft_packet_now(0x0042, 9);
    assert_eq!(pkt.len(), 20);
    assert_eq!(pkt[0], 13);
    let originate = u32::from_be_bytes([pkt[8], pkt[9], pkt[10], pkt[11]]);
    assert!(originate < 86_400_000, "originate is midnight-relative");
    assert_eq!(ones_complement_total(&pkt), 0xFFFF);
}
