use vstd::prelude::*;
use crate::baseliner::DELAY_MS_MAX;

verus! {

/// Why an incoming packet was not turned into a sample.
#[derive(Clone, Copy, Debug, PartialEq, Eq, Structural)]
pub enum PingError {
    /// The embedded number (echo payload timestamp) is out of range.
    InvalidNumber,
    /// The buffer is not a well-formed IPv4 + ICMP packet of the expected shape.
    InvalidPacket,
    /// The packet is not IPv4 ICMP.
    InvalidProtocol,
    /// The ICMP type is not the reply type this listener decodes.
    InvalidType,
    /// The buffer ends before any transport payload.
    NoTransport,
    /// The reply's ICMP identifier belongs to some other prober.
    WrongID { expected: u16, found: u16 },
}

/// One decoded probe reply. Delays are in whole milliseconds; the reflector
/// is an IP address packed into its 128-bit form.
#[derive(Clone, Copy, Debug)]
pub struct PingReply {
    pub reflector: u128,
    pub seq: u16,
    pub rtt: i64,
    pub current_time: i64,
    pub down_time: i64,
    pub up_time: i64,
    pub originate_timestamp: i64,
    pub receive_timestamp: i64,
    pub transmit_timestamp: i64,
    pub last_receive_time_ms: u64,
}

impl PingReply {
    /// Delays a sample may carry: at most one day in magnitude, so that the
    /// fixed-point EWMA arithmetic cannot overflow.
    pub open spec fn wf(self) -> bool {
        &&& -DELAY_MS_MAX <= self.down_time <= DELAY_MS_MAX
        &&& -DELAY_MS_MAX <= self.up_time <= DELAY_MS_MAX
    }
}

/// A decoded delay clipped into the range the EWMA arithmetic admits: a
/// sample claiming more than a day of (absolute) delay carries no
/// information, only clock trouble.
pub open spec fn spec_clamp_delay(x: int) -> i64 {
    if x > DELAY_MS_MAX {
        DELAY_MS_MAX
    } else if x < -DELAY_MS_MAX {
        (-DELAY_MS_MAX) as i64
    } else {
        x as i64
    }
}

/// Clip a millisecond delay to at most one day in magnitude.
pub fn clamp_delay(x: i64) -> (r: i64)
    ensures
        r == spec_clamp_delay(x as int),
        -DELAY_MS_MAX <= r <= DELAY_MS_MAX,
{
    if x > DELAY_MS_MAX {
        DELAY_MS_MAX
    } else if x < -DELAY_MS_MAX {
        -DELAY_MS_MAX
    } else {
        x
    }
}

/// The 16-bit word at word index `i`, big-endian, an odd trailing byte
/// padded with zero (RFC 1071).
pub open spec fn word_at(data: Seq<u8>, i: int) -> int {
    if 2 * i + 1 < data.len() {
        data[2 * i] * 0x100 + data[2 * i + 1]
    } else {
        data[2 * i] * 0x100
    }
}

/// The plain sum of the first `n` 16-bit words.
pub open spec fn sum_words(data: Seq<u8>, n: int) -> int
    decreases n,
{
    if n <= 0 {
        0
    } else {
        sum_words(data, n - 1) + word_at(data, n - 1)
    }
}

/// One end-around-carry fold of a ones'-complement accumulator.
pub open spec fn fold16(s: int) -> int {
    s % 0x10000 + s / 0x10000
}

/// The ICMP header checksum (RFC 792 / RFC 1071): the ones' complement of
/// the ones'-complement sum of the message's 16-bit words, computed with the
/// checksum field itself zero. Two folds absorb every carry of a message of
/// at most 65535 bytes.
pub open spec fn spec_icmp_checksum(data: Seq<u8>) -> int
    recommends
        data.len() <= 65535,
{
    0xFFFF - fold16(fold16(sum_words(data, ((data.len() + 1) / 2) as int)))
}

/// Compute the ICMP checksum of a message (checksum field zeroed).
pub fn icmp_checksum(data: &[u8]) -> (r: u16)
    requires
        data@.len() <= 65535,
    ensures
        r == spec_icmp_checksum(data@),
{
    let n: usize = (data.len() + 1) / 2;
    let mut sum: u32 = 0;
    let mut w: usize = 0;
    while w < n
        invariant
            w <= n,
            n == (data@.len() + 1) / 2,
            data@.len() <= 65535,
            sum == sum_words(data@, w as int),
            sum <= w * 0xFFFF,
        decreases n - w,
    {
        let b0 = data[2 * w];
        let word: u32 = if 2 * w + 1 < data.len() {
            (b0 as u32) * 0x100 + (data[2 * w + 1] as u32)
        } else {
            (b0 as u32) * 0x100
        };
        sum = sum + word;
        w = w + 1;
    }
    let f1: u32 = sum % 0x10000 + sum / 0x10000;
    let f2: u32 = f1 % 0x10000 + f1 / 0x10000;
    (0xFFFF - f2) as u16
}

/// The probe sequence counter: wraps from the 16-bit maximum back to zero so
/// that no tick is ever skipped.
pub fn next_seq(seq: u16) -> (r: u16)
    ensures
        seq == u16::MAX ==> r == 0,
        seq < u16::MAX ==> r == seq + 1,
{
    if seq == u16::MAX {
        0
    } else {
        seq + 1
    }
}

/// How long the sender pauses between two reflectors within one tick, so the
/// probes are spread evenly across the tick interval.
pub fn probe_spacing_ms(tick_interval_ms: u64, peer_count: usize) -> (r: u64)
    requires
        peer_count >= 1,
    ensures
        r == tick_interval_ms as int / peer_count as int,
{
    tick_interval_ms / (peer_count as u64)
}

} // verus!
