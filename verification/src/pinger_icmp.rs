use vstd::prelude::*;
use crate::endian::{
    be16, push_be16, push_le64, read_le64, spec_be16, spec_be16_bytes, spec_le64, spec_le64_bytes,
};
use crate::pinger::{
    clamp_delay, icmp_checksum, spec_clamp_delay, spec_icmp_checksum, PingError, PingReply,
};
use crate::time::{monotonic_clock_id, Time};
use crate::utils::div_trunc;

verus! {

/// Decodes ICMP Echo replies (type 0) into delay samples.
pub struct PingerICMPEchoListener {}

/// Crafts ICMP Echo requests (type 8) carrying a millisecond timestamp.
pub struct PingerICMPEchoSender {}

/// The echo request before its checksum is filled in: type 8, code 0,
/// identifier and sequence big-endian, and the monotonic-millisecond
/// timestamp as the eight-byte payload.
pub open spec fn spec_echo_zeroed(id: u16, seq: u16, time_ms: u64) -> Seq<u8> {
    seq![8u8, 0u8, 0u8, 0u8] + spec_be16_bytes(id) + spec_be16_bytes(seq) + spec_le64_bytes(
        time_ms,
    )
}

/// The echo request on the wire: the zeroed packet with its checksum set.
pub open spec fn spec_echo_request(id: u16, seq: u16, time_ms: u64) -> Seq<u8> {
    let ck = spec_icmp_checksum(spec_echo_zeroed(id, seq, time_ms));
    seq![8u8, 0u8, (ck / 0x100) as u8, (ck % 0x100) as u8] + spec_be16_bytes(id)
        + spec_be16_bytes(seq) + spec_le64_bytes(time_ms)
}

impl PingerICMPEchoSender {
    /// Build one echo request; `time_ms` is the sender's monotonic clock in
    /// milliseconds, which the listener subtracts from its own reading.
    pub fn craft_packet(&self, id: u16, seq: u16, time_ms: u64) -> (r: Vec<u8>)
        ensures
            r@ =~= spec_echo_request(id, seq, time_ms),
            r@.len() == 16,
    {
        let mut pkt: Vec<u8> = Vec::new();
        pkt.push(8);
        pkt.push(0);
        pkt.push(0);
        pkt.push(0);
        push_be16(&mut pkt, id);
        push_be16(&mut pkt, seq);
        push_le64(&mut pkt, time_ms);
        proof {
            assert(pkt@ =~= spec_echo_zeroed(id, seq, time_ms));
        }
        let ck = icmp_checksum(pkt.as_slice());
        pkt[2] = (ck / 0x100) as u8;
        pkt[3] = (ck % 0x100) as u8;
        proof {
            assert(pkt@ =~= spec_echo_request(id, seq, time_ms));
        }
        pkt
    }

    /// Build one echo request stamped with the monotonic clock as it reads
    /// now. Which instant that is depends on the machine; the packet is a
    /// well-formed request for some timestamp (zero stands in on the absurd
    /// reading whose milliseconds would not fit).
    pub fn craft_packet_now(&self, id: u16, seq: u16) -> (r: Vec<u8>)
        ensures
            exists|t: u64| r@ =~= #[trigger] spec_echo_request(id, seq, t),
            r@.len() == 16,
    {
        let clock = Time::new(monotonic_clock_id());
        let time_ms: u64 = if clock.time_s < 0x40_0000_0000_0000 {
            clock.to_milliseconds()
        } else {
            0
        };
        let r = self.craft_packet(id, seq, time_ms);
        proof {
            assert(r@ =~= spec_echo_request(id, seq, time_ms));
        }
        r
    }
}

/// What decoding an incoming buffer (IPv4 header plus ICMP message, as a raw
/// socket delivers it) yields: a sample, or why it was dropped.
pub open spec fn spec_parse_echo(
    id: u16,
    reflector: u128,
    b: Seq<u8>,
    now_ms: u64,
    receive_time_ms: u64,
) -> Result<PingReply, PingError> {
    if b.len() < 20 || b[0] / 16 != 4 || b[0] % 16 < 5 {
        Err(PingError::InvalidPacket)
    } else {
        let h = (b[0] % 16) * 4;
        if b.len() < h {
            Err(PingError::InvalidPacket)
        } else if b[9] != 1 {
            Err(PingError::InvalidProtocol)
        } else if b.len() < h + 8 {
            Err(PingError::NoTransport)
        } else if b[h] != 0 || b[h + 1] != 0 {
            Err(PingError::InvalidType)
        } else if spec_be16(b[h + 4], b[h + 5]) != id {
            Err(
                PingError::WrongID {
                    expected: id,
                    found: spec_be16(b[h + 4], b[h + 5]) as u16,
                },
            )
        } else if b.len() < h + 16 {
            Err(PingError::InvalidNumber)
        } else {
            let sent = spec_le64(b, h + 8);
            if sent > i64::MAX {
                Err(PingError::InvalidNumber)
            } else {
                let rtt = now_ms - sent;
                Ok(
                    PingReply {
                        reflector,
                        seq: spec_be16(b[h + 6], b[h + 7]) as u16,
                        rtt: rtt as i64,
                        current_time: now_ms as i64,
                        down_time: spec_clamp_delay(div_trunc(rtt, 2)),
                        up_time: spec_clamp_delay(div_trunc(rtt, 2)),
                        originate_timestamp: 0,
                        receive_timestamp: 0,
                        transmit_timestamp: 0,
                        last_receive_time_ms: receive_time_ms,
                    },
                )
            }
        }
    }
}

/// Reassembling a 64-bit value from its little-endian bytes gives the value
/// back.
proof fn lemma_le64_round_trip(x: u64)
    ensures
        x % 0x100 + (x / 0x100 % 0x100) * 0x100 + (x / 0x1_0000 % 0x100) * 0x1_0000 + (x
            / 0x100_0000 % 0x100) * 0x100_0000 + (x / 0x1_0000_0000 % 0x100) * 0x1_0000_0000 + (x
            / 0x100_0000_0000 % 0x100) * 0x100_0000_0000 + (x / 0x1_0000_0000_0000 % 0x100)
            * 0x1_0000_0000_0000 + (x / 0x100_0000_0000_0000 % 0x100) * 0x100_0000_0000_0000 == x,
{
    assert(x % 0x100 + (x / 0x100 % 0x100) * 0x100 + (x / 0x1_0000 % 0x100) * 0x1_0000 + (x
        / 0x100_0000 % 0x100) * 0x100_0000 + (x / 0x1_0000_0000 % 0x100) * 0x1_0000_0000 + (x
        / 0x100_0000_0000 % 0x100) * 0x100_0000_0000 + (x / 0x1_0000_0000_0000 % 0x100)
        * 0x1_0000_0000_0000 + (x / 0x100_0000_0000_0000 % 0x100) * 0x100_0000_0000_0000
        == x) by (bit_vector);
}

/// The sender/listener round trip: a reflector that echoes a crafted request
/// back (type flipped to echo reply) yields exactly the sample the probe was
/// built to measure — the same sequence number, a round trip of the clock
/// difference, and that round trip split evenly between the directions. The
/// 20-byte IPv4 header `hdr` is whatever the network produced, as long as it
/// is a plain (five-word) IPv4 ICMP header.
pub proof fn lemma_echo_round_trip(
    id: u16,
    seq: u16,
    time_ms: u64,
    reflector: u128,
    hdr: Seq<u8>,
    now_ms: u64,
    receive_time_ms: u64,
)
    requires
        hdr.len() == 20,
        hdr[0] == 0x45,
        hdr[9] == 1,
        time_ms <= i64::MAX,
        now_ms <= i64::MAX,
    ensures
        ({
            let wire = hdr + spec_echo_request(id, seq, time_ms).update(0, 0u8);
            let rtt = now_ms - time_ms;
            spec_parse_echo(id, reflector, wire, now_ms, receive_time_ms) == Ok::<
                PingReply,
                PingError,
            >(
                PingReply {
                    reflector,
                    seq,
                    rtt: rtt as i64,
                    current_time: now_ms as i64,
                    down_time: spec_clamp_delay(div_trunc(rtt, 2)),
                    up_time: spec_clamp_delay(div_trunc(rtt, 2)),
                    originate_timestamp: 0,
                    receive_timestamp: 0,
                    transmit_timestamp: 0,
                    last_receive_time_ms: receive_time_ms,
                },
            )
        }),
{
    let pkt = spec_echo_request(id, seq, time_ms).update(0, 0u8);
    let wire = hdr + pkt;
    assert(pkt.len() == 16);
    assert(wire.len() == 36);
    assert(wire[0] / 16 == 4 && wire[0] % 16 == 5);
    assert(wire[9] == 1);
    assert(wire[20] == 0 && wire[21] == 0);
    let t = time_ms;
    assert(spec_be16(wire[24], wire[25]) == id && spec_be16(wire[26], wire[27]) == seq);
    assert(wire[28] == (t % 0x100) as u8);
    assert(wire[29] == ((t / 0x100) % 0x100) as u8);
    assert(wire[30] == ((t / 0x1_0000) % 0x100) as u8);
    assert(wire[31] == ((t / 0x100_0000) % 0x100) as u8);
    assert(wire[32] == ((t / 0x1_0000_0000) % 0x100) as u8);
    assert(wire[33] == ((t / 0x100_0000_0000) % 0x100) as u8);
    assert(wire[34] == ((t / 0x1_0000_0000_0000) % 0x100) as u8);
    assert(wire[35] == ((t / 0x100_0000_0000_0000) % 0x100) as u8);
    lemma_le64_round_trip(t);
    assert(spec_le64(wire, 28) == t);
}

impl PingerICMPEchoListener {
    /// Decode one received buffer. `now_ms` is the listener's monotonic
    /// clock (milliseconds, same clock the sender stamped the payload with)
    /// and `receive_time_ms` the wall reading stored on the sample. The
    /// symmetric-route assumption splits the round trip evenly between the
    /// two directions, clipped to a day.
    pub fn parse_packet(
        &self,
        id: u16,
        reflector: u128,
        buf: &[u8],
        now_ms: u64,
        receive_time_ms: u64,
    ) -> (r: Result<PingReply, PingError>)
        requires
            now_ms <= i64::MAX,
        ensures
            r == spec_parse_echo(id, reflector, buf@, now_ms, receive_time_ms),
            r matches Ok(p) ==> p.wf(),
    {
        if buf.len() < 20 || buf[0] / 16 != 4 || buf[0] % 16 < 5 {
            return Err(PingError::InvalidPacket);
        }
        let h: usize = ((buf[0] % 16) as usize) * 4;
        if buf.len() < h {
            return Err(PingError::InvalidPacket);
        }
        if buf[9] != 1 {
            return Err(PingError::InvalidProtocol);
        }
        if buf.len() < h + 8 {
            return Err(PingError::NoTransport);
        }
        if buf[h] != 0 || buf[h + 1] != 0 {
            return Err(PingError::InvalidType);
        }
        let found = be16(buf[h + 4], buf[h + 5]);
        if found != id {
            return Err(PingError::WrongID { expected: id, found });
        }
        if buf.len() < h + 16 {
            return Err(PingError::InvalidNumber);
        }
        let sent = read_le64(buf, h + 8);
        if sent > i64::MAX as u64 {
            return Err(PingError::InvalidNumber);
        }
        let rtt: i64 = (now_ms as i64) - (sent as i64);
        let half = clamp_delay(rtt / 2);
        Ok(
            PingReply {
                reflector,
                seq: be16(buf[h + 6], buf[h + 7]),
                rtt,
                current_time: now_ms as i64,
                down_time: half,
                up_time: half,
                originate_timestamp: 0,
                receive_timestamp: 0,
                transmit_timestamp: 0,
                last_receive_time_ms: receive_time_ms,
            },
        )
    }
}

} // verus!
