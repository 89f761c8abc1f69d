use vstd::prelude::*;
use crate::endian::{
    be16, be32, push_be16, push_be32, spec_be16, spec_be16_bytes, spec_be32, spec_be32_bytes,
};
use crate::error::PingParseError;
use crate::pinger::{clamp_delay, icmp_checksum, spec_clamp_delay, spec_icmp_checksum, PingReply};
use crate::time::{realtime_clock_id, Time};

verus! {

/// Decodes ICMP Timestamp replies (type 14) into delay samples.
pub struct PingerICMPTimestampListener {}

/// Crafts ICMP Timestamp requests (type 13).
pub struct PingerICMPTimestampSender {}

/// The timestamp request before its checksum is filled in: type 13, code 0,
/// identifier and sequence, then originate / receive / transmit timestamps,
/// all big-endian per RFC 792; receive and transmit are zero on a request.
pub open spec fn spec_ts_zeroed(id: u16, seq: u16, originate: u32) -> Seq<u8> {
    seq![13u8, 0u8, 0u8, 0u8] + spec_be16_bytes(id) + spec_be16_bytes(seq) + spec_be32_bytes(
        originate,
    ) + spec_be32_bytes(0u32) + spec_be32_bytes(0u32)
}

/// The timestamp request on the wire: the zeroed packet with its checksum
/// set.
pub open spec fn spec_ts_request(id: u16, seq: u16, originate: u32) -> Seq<u8> {
    let ck = spec_icmp_checksum(spec_ts_zeroed(id, seq, originate));
    seq![13u8, 0u8, (ck / 0x100) as u8, (ck % 0x100) as u8] + spec_be16_bytes(id)
        + spec_be16_bytes(seq) + spec_be32_bytes(originate) + spec_be32_bytes(0u32)
        + spec_be32_bytes(0u32)
}

impl PingerICMPTimestampSender {
    /// Build one timestamp request; `time_since_midnight_ms` goes into the
    /// originate field.
    pub fn craft_packet(&self, id: u16, seq: u16, time_since_midnight_ms: u32) -> (r: Vec<u8>)
        ensures
            r@ =~= spec_ts_request(id, seq, time_since_midnight_ms),
            r@.len() == 20,
    {
        let mut pkt: Vec<u8> = Vec::new();
        pkt.push(13);
        pkt.push(0);
        pkt.push(0);
        pkt.push(0);
        push_be16(&mut pkt, id);
        push_be16(&mut pkt, seq);
        push_be32(&mut pkt, time_since_midnight_ms);
        push_be32(&mut pkt, 0);
        push_be32(&mut pkt, 0);
        proof {
            assert(pkt@ =~= spec_ts_zeroed(id, seq, time_since_midnight_ms));
        }
        let ck = icmp_checksum(pkt.as_slice());
        pkt[2] = (ck / 0x100) as u8;
        pkt[3] = (ck % 0x100) as u8;
        proof {
            assert(pkt@ =~= spec_ts_request(id, seq, time_since_midnight_ms));
        }
        pkt
    }

    /// Build one timestamp request stamped with the wall clock's current
    /// midnight-relative milliseconds. Which instant that is depends on the
    /// machine; the packet is a well-formed request for some originate value
    /// within the day.
    pub fn craft_packet_now(&self, id: u16, seq: u16) -> (r: Vec<u8>)
        ensures
            exists|o: u32|
                o < 86_400_000 && r@ =~= #[trigger] spec_ts_request(id, seq, o),
            r@.len() == 20,
    {
        let clock = Time::new(realtime_clock_id());
        let midnight = clock.get_time_since_midnight();
        let r = self.craft_packet(id, seq, midnight as u32);
        proof {
            assert(r@ =~= spec_ts_request(id, seq, midnight as u32));
        }
        r
    }
}

/// What decoding an incoming buffer (IPv4 header plus ICMP message) yields.
/// With originate `O`, receive `R`, transmit `T` and the local midnight-
/// relative clock `now_mid`: rtt = now_mid - O, upstream delay = R - O,
/// downstream delay = now_mid - T; clock skew cancels only in differences.
pub open spec fn spec_parse_ts(
    id: u16,
    reflector: u128,
    b: Seq<u8>,
    now_since_midnight_ms: i64,
    receive_time_ms: u64,
) -> Result<PingReply, Seq<char>> {
    if b.len() < 20 || b[0] / 16 != 4 || b[0] % 16 < 5 {
        Err("Reached end of parsing function"@)
    } else {
        let h = (b[0] % 16) * 4;
        if b.len() < h || b[9] != 1 || b.len() < h + 20 || b[h] != 14 || b[h + 1] != 0 {
            Err("Reached end of parsing function"@)
        } else if spec_be16(b[h + 4], b[h + 5]) != id {
            Err("Wrong ID"@)
        } else {
            let o = spec_be32(b[h + 8], b[h + 9], b[h + 10], b[h + 11]);
            let rcv = spec_be32(b[h + 12], b[h + 13], b[h + 14], b[h + 15]);
            let t = spec_be32(b[h + 16], b[h + 17], b[h + 18], b[h + 19]);
            Ok(
                PingReply {
                    reflector,
                    seq: spec_be16(b[h + 6], b[h + 7]) as u16,
                    rtt: (now_since_midnight_ms - o) as i64,
                    current_time: now_since_midnight_ms,
                    down_time: spec_clamp_delay(now_since_midnight_ms - t),
                    up_time: spec_clamp_delay(rcv - o),
                    originate_timestamp: o as i64,
                    receive_timestamp: rcv as i64,
                    transmit_timestamp: t as i64,
                    last_receive_time_ms: receive_time_ms,
                },
            )
        }
    }
}

/// Reassembling a 32-bit value from its big-endian bytes gives the value
/// back.
proof fn lemma_be32_round_trip(x: u32)
    ensures
        (x / 0x100_0000) * 0x100_0000 + (x / 0x1_0000 % 0x100) * 0x1_0000 + (x / 0x100 % 0x100)
            * 0x100 + x % 0x100 == x,
{
    assert((x / 0x100_0000) * 0x100_0000 + (x / 0x1_0000 % 0x100) * 0x1_0000 + (x / 0x100 % 0x100)
        * 0x100 + x % 0x100 == x) by (bit_vector);
}

/// A well-formed timestamp reply decodes to exactly the differenced delays:
/// with originate `o`, receive `rcv` and transmit `t` echoed back under any
/// checksum bytes `c0, c1` (decoding does not re-verify the checksum) and a
/// plain (five-word) IPv4 ICMP header in front, the sample reads
/// rtt = now - o, upstream = rcv - o, downstream = now - t.
pub proof fn lemma_ts_reply_decodes(
    id: u16,
    seq: u16,
    o: u32,
    rcv: u32,
    t: u32,
    c0: u8,
    c1: u8,
    reflector: u128,
    hdr: Seq<u8>,
    now_since_midnight_ms: i64,
    receive_time_ms: u64,
)
    requires
        hdr.len() == 20,
        hdr[0] == 0x45,
        hdr[9] == 1,
        0 <= now_since_midnight_ms < 86_400_000,
    ensures
        ({
            let reply = seq![14u8, 0u8, c0, c1] + spec_be16_bytes(id) + spec_be16_bytes(seq)
                + spec_be32_bytes(o) + spec_be32_bytes(rcv) + spec_be32_bytes(t);
            spec_parse_ts(id, reflector, hdr + reply, now_since_midnight_ms, receive_time_ms)
                == Ok::<PingReply, Seq<char>>(
                PingReply {
                    reflector,
                    seq,
                    rtt: (now_since_midnight_ms - o) as i64,
                    current_time: now_since_midnight_ms,
                    down_time: spec_clamp_delay(now_since_midnight_ms - t),
                    up_time: spec_clamp_delay(rcv - o),
                    originate_timestamp: o as i64,
                    receive_timestamp: rcv as i64,
                    transmit_timestamp: t as i64,
                    last_receive_time_ms: receive_time_ms,
                },
            )
        }),
{
    let reply = seq![14u8, 0u8, c0, c1] + spec_be16_bytes(id) + spec_be16_bytes(seq)
        + spec_be32_bytes(o) + spec_be32_bytes(rcv) + spec_be32_bytes(t);
    let wire = hdr + reply;
    assert(reply.len() == 20);
    assert(wire.len() == 40);
    assert(wire[0] / 16 == 4 && wire[0] % 16 == 5);
    assert(wire[9] == 1);
    assert(wire[20] == 14 && wire[21] == 0);
    assert(spec_be16(wire[24], wire[25]) == id && spec_be16(wire[26], wire[27]) == seq);
    lemma_be32_round_trip(o);
    lemma_be32_round_trip(rcv);
    lemma_be32_round_trip(t);
    assert(spec_be32(wire[28], wire[29], wire[30], wire[31]) == o);
    assert(spec_be32(wire[32], wire[33], wire[34], wire[35]) == rcv);
    assert(spec_be32(wire[36], wire[37], wire[38], wire[39]) == t);
}

impl PingerICMPTimestampListener {
    /// Decode one received buffer; `now_since_midnight_ms` is the local
    /// clock reduced modulo one day, the same form the reply's fields carry.
    pub fn parse_packet(
        &self,
        id: u16,
        reflector: u128,
        buf: &[u8],
        now_since_midnight_ms: i64,
        receive_time_ms: u64,
    ) -> (r: Result<PingReply, PingParseError>)
        requires
            0 <= now_since_midnight_ms < 86_400_000,
        ensures
            ({
                let s = spec_parse_ts(id, reflector, buf@, now_since_midnight_ms, receive_time_ms);
                &&& (r is Ok <==> s is Ok)
                &&& (r matches Ok(p) ==> s matches Ok(q) && p == q && p.wf())
                &&& (r matches Err(e) ==> s matches Err(m) && e.msg@ == m)
            }),
    {
        if buf.len() < 20 || buf[0] / 16 != 4 || buf[0] % 16 < 5 {
            return Err(PingParseError { msg: "Reached end of parsing function".to_owned() });
        }
        let h: usize = ((buf[0] % 16) as usize) * 4;
        if buf.len() < h || buf[9] != 1 || buf.len() < h + 20 || buf[h] != 14 || buf[h + 1] != 0 {
            return Err(PingParseError { msg: "Reached end of parsing function".to_owned() });
        }
        let found = be16(buf[h + 4], buf[h + 5]);
        if found != id {
            return Err(PingParseError { msg: "Wrong ID".to_owned() });
        }
        let o = be32(buf[h + 8], buf[h + 9], buf[h + 10], buf[h + 11]);
        let rcv = be32(buf[h + 12], buf[h + 13], buf[h + 14], buf[h + 15]);
        let t = be32(buf[h + 16], buf[h + 17], buf[h + 18], buf[h + 19]);
        let rtt: i64 = now_since_midnight_ms - (o as i64);
        let dl: i64 = now_since_midnight_ms - (t as i64);
        let ul: i64 = (rcv as i64) - (o as i64);
        Ok(
            PingReply {
                reflector,
                seq: be16(buf[h + 6], buf[h + 7]),
                rtt,
                current_time: now_since_midnight_ms,
                down_time: clamp_delay(dl),
                up_time: clamp_delay(ul),
                originate_timestamp: o as i64,
                receive_timestamp: rcv as i64,
                transmit_timestamp: t as i64,
                last_receive_time_ms: receive_time_ms,
            },
        )
    }
}

} // verus!
