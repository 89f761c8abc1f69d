use vstd::prelude::*;

verus! {

/// Identifies a cake qdisc instance: interface index and parent handle.
#[derive(Clone, Copy, Debug, PartialEq, Eq, Structural)]
pub struct Qdisc {
    pub ifindex: i32,
    pub parent: u32,
}

/// The kernel's 64-bit per-interface counters, in the order the
/// `RTA_STATS64` attribute carries them.
#[derive(Clone, Copy, Debug, Default)]
pub struct RtnlLinkStats64 {
    pub rx_packets: u64,
    pub tx_packets: u64,
    pub rx_bytes: u64,
    pub tx_bytes: u64,
    pub rx_errors: u64,
    pub tx_errors: u64,
    pub rx_dropped: u64,
    pub tx_dropped: u64,
    pub multicast: u64,
    pub collisions: u64,
    pub rx_length_errors: u64,
    pub rx_over_errors: u64,
    pub rx_crc_errors: u64,
    pub rx_frame_errors: u64,
    pub rx_fifo_errors: u64,
    pub rx_missed_errors: u64,
    pub tx_aborted_errors: u64,
    pub tx_carrier_errors: u64,
    pub tx_fifo_errors: u64,
    pub tx_heartbeat_errors: u64,
    pub tx_window_errors: u64,
    pub rx_compressed: u64,
    pub tx_compressed: u64,
    pub rx_nohandler: u64,
}

/// A little-endian 64-bit counter starting at byte `off`.
pub open spec fn spec_u64_le(b: Seq<u8>, off: int) -> int {
    b[off] + b[off + 1] * 0x100 + b[off + 2] * 0x1_0000 + b[off + 3] * 0x100_0000 + b[off + 4]
        * 0x1_0000_0000 + b[off + 5] * 0x100_0000_0000 + b[off + 6] * 0x1_0000_0000_0000 + b[off
        + 7] * 0x100_0000_0000_0000
}

/// Read one little-endian u64 out of a byte buffer.
pub fn read_u64_le(buf: &[u8], off: usize) -> (r: u64)
    requires
        off + 8 <= buf@.len(),
    ensures
        r == spec_u64_le(buf@, off as int),
{
    (buf[off] as u64) + (buf[off + 1] as u64) * 0x100 + (buf[off + 2] as u64) * 0x1_0000 + (buf[off
        + 3] as u64) * 0x100_0000 + (buf[off + 4] as u64) * 0x1_0000_0000 + (buf[off + 5] as u64)
        * 0x100_0000_0000 + (buf[off + 6] as u64) * 0x1_0000_0000_0000 + (buf[off + 7] as u64)
        * 0x100_0000_0000_0000
}

/// The counters a well-formed `RTA_STATS64` payload holds: twenty-four
/// little-endian 64-bit words.
pub open spec fn spec_link_stats(b: Seq<u8>) -> RtnlLinkStats64 {
    RtnlLinkStats64 {
        rx_packets: spec_u64_le(b, 0) as u64,
        tx_packets: spec_u64_le(b, 8) as u64,
        rx_bytes: spec_u64_le(b, 16) as u64,
        tx_bytes: spec_u64_le(b, 24) as u64,
        rx_errors: spec_u64_le(b, 32) as u64,
        tx_errors: spec_u64_le(b, 40) as u64,
        rx_dropped: spec_u64_le(b, 48) as u64,
        tx_dropped: spec_u64_le(b, 56) as u64,
        multicast: spec_u64_le(b, 64) as u64,
        collisions: spec_u64_le(b, 72) as u64,
        rx_length_errors: spec_u64_le(b, 80) as u64,
        rx_over_errors: spec_u64_le(b, 88) as u64,
        rx_crc_errors: spec_u64_le(b, 96) as u64,
        rx_frame_errors: spec_u64_le(b, 104) as u64,
        rx_fifo_errors: spec_u64_le(b, 112) as u64,
        rx_missed_errors: spec_u64_le(b, 120) as u64,
        tx_aborted_errors: spec_u64_le(b, 128) as u64,
        tx_carrier_errors: spec_u64_le(b, 136) as u64,
        tx_fifo_errors: spec_u64_le(b, 144) as u64,
        tx_heartbeat_errors: spec_u64_le(b, 152) as u64,
        tx_window_errors: spec_u64_le(b, 160) as u64,
        rx_compressed: spec_u64_le(b, 168) as u64,
        tx_compressed: spec_u64_le(b, 176) as u64,
        rx_nohandler: spec_u64_le(b, 184) as u64,
    }
}

/// The number of bytes the stats block occupies on the wire.
pub const LINK_STATS64_LEN: usize = 192;

/// Netlink's own operations (socket RPCs) live outside the library; this
/// type groups the wire-level helpers they rest on.
pub struct Netlink {}

impl Netlink {
    /// Decode an `RTA_STATS64` attribute payload. The kernel emits the block
    /// as native-endian C u64s; the shaper targets little-endian Linux
    /// routers, and the layout here is fixed to that.
    pub fn parse_link_stats(buf: &[u8]) -> (r: Option<RtnlLinkStats64>)
        ensures
            buf@.len() >= LINK_STATS64_LEN ==> r == Some(spec_link_stats(buf@)),
            buf@.len() < LINK_STATS64_LEN ==> r is None,
    {
        if buf.len() < LINK_STATS64_LEN {
            return None;
        }
        Some(
            RtnlLinkStats64 {
                rx_packets: read_u64_le(buf, 0),
                tx_packets: read_u64_le(buf, 8),
                rx_bytes: read_u64_le(buf, 16),
                tx_bytes: read_u64_le(buf, 24),
                rx_errors: read_u64_le(buf, 32),
                tx_errors: read_u64_le(buf, 40),
                rx_dropped: read_u64_le(buf, 48),
                tx_dropped: read_u64_le(buf, 56),
                multicast: read_u64_le(buf, 64),
                collisions: read_u64_le(buf, 72),
                rx_length_errors: read_u64_le(buf, 80),
                rx_over_errors: read_u64_le(buf, 88),
                rx_crc_errors: read_u64_le(buf, 96),
                rx_frame_errors: read_u64_le(buf, 104),
                rx_fifo_errors: read_u64_le(buf, 112),
                rx_missed_errors: read_u64_le(buf, 120),
                tx_aborted_errors: read_u64_le(buf, 128),
                tx_carrier_errors: read_u64_le(buf, 136),
                tx_fifo_errors: read_u64_le(buf, 144),
                tx_heartbeat_errors: read_u64_le(buf, 152),
                tx_window_errors: read_u64_le(buf, 160),
                rx_compressed: read_u64_le(buf, 168),
                tx_compressed: read_u64_le(buf, 176),
                rx_nohandler: read_u64_le(buf, 184),
            },
        )
    }

    /// Cake's `base_rate64` attribute takes bytes per second:
    /// `kbit * 1000 / 8`.
    pub fn rate_to_bytes_per_sec(bandwidth_kbit: u64) -> (r: u64)
        requires
            bandwidth_kbit <= 0x100_0000_0000,
        ensures
            r == bandwidth_kbit * 125,
    {
        bandwidth_kbit * 1000 / 8
    }

    /// Whether a qdisc kind attribute payload names cake: the bytes
    /// `"cake"`, with any trailing NUL padding stripped.
    pub fn is_cake_kind(kind: &[u8]) -> (r: bool)
        ensures
            r == (strip_nuls(kind@) =~= seq![99u8, 97u8, 107u8, 101u8]),
    {
        let mut end: usize = kind.len();
        proof {
            assert(kind@.subrange(0, end as int) =~= kind@);
        }
        while end > 0 && kind[end - 1] == 0
            invariant
                end <= kind@.len(),
                strip_nuls(kind@) == strip_nuls(kind@.subrange(0, end as int)),
            decreases end,
        {
            proof {
                assert(kind@.subrange(0, end as int).last() == 0);
                assert(kind@.subrange(0, (end - 1) as int) =~= kind@.subrange(
                    0,
                    end as int,
                ).drop_last());
            }
            end = end - 1;
        }
        proof {
            assert(strip_nuls(kind@.subrange(0, end as int)) == kind@.subrange(0, end as int)) by {
                if end > 0 {
                    assert(kind@.subrange(0, end as int).last() == kind@[end - 1]);
                }
            }
        }
        let r = end == 4 && kind[0] == 99 && kind[1] == 97 && kind[2] == 107 && kind[3] == 101;
        proof {
            if r {
                assert(kind@.subrange(0, end as int) =~= seq![99u8, 97u8, 107u8, 101u8]);
            } else {
                if end == 4 {
                    assert(!(kind@.subrange(0, 4) =~= seq![99u8, 97u8, 107u8, 101u8]));
                }
            }
        }
        r
    }
}

/// The byte sequence with its trailing NUL padding removed.
pub open spec fn strip_nuls(b: Seq<u8>) -> Seq<u8>
    decreases b.len(),
{
    if b.len() > 0 && b.last() == 0 {
        strip_nuls(b.drop_last())
    } else {
        b
    }
}

/// Which counter of the interface stats a shaping direction reads:
/// download traffic appears on tx for some interface kinds.
#[derive(Clone, Copy, Debug, PartialEq, Eq, Structural)]
pub enum StatsDirection {
    RX,
    TX,
}

/// The byte counter that a direction consumes from a stats block.
pub open spec fn spec_select_bytes(stats: RtnlLinkStats64, direction: StatsDirection) -> u64 {
    match direction {
        StatsDirection::RX => stats.rx_bytes,
        StatsDirection::TX => stats.tx_bytes,
    }
}

/// Pick the rx or tx byte counter per the configured direction.
pub fn select_bytes(stats: &RtnlLinkStats64, direction: StatsDirection) -> (r: u64)
    ensures
        r == spec_select_bytes(*stats, direction),
{
    match direction {
        StatsDirection::RX => stats.rx_bytes,
        StatsDirection::TX => stats.tx_bytes,
    }
}

} // verus!
