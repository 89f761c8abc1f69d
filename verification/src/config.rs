use vstd::prelude::*;
use vstd::string::StringSliceAdditionalSpecFns;
use crate::baseliner::DELAY_MS_MAX;
use crate::error::InvalidMeasurementTypeError;
use crate::ratecontroller::MAX_RATE_KBITS;

verus! {

/// Probe period when the configuration gives none.
pub const DEFAULT_TICK_INTERVAL_MS: u64 = 500;

/// Rate-controller period when the configuration gives none.
pub const DEFAULT_MIN_CHANGE_INTERVAL_MS: u64 = 500;

/// Target active peer count when the configuration gives none.
pub const DEFAULT_NUM_REFLECTORS: u8 = 5;

/// Back-off delay threshold (ms) when the configuration gives none.
pub const DEFAULT_DELAY_THRESHOLD_MS: u64 = 15;

/// Probe-up load threshold, in thousandths, when the configuration gives
/// none (0.8).
pub const DEFAULT_HIGH_LOAD_MILLI: u64 = 800;

/// Safe-rate ring size when the configuration gives none.
pub const DEFAULT_SPEED_HIST_SIZE: u32 = 100;

/// How the probes measure delay.
#[derive(Clone, Copy, Debug, PartialEq, Eq, Structural)]
pub enum MeasurementType {
    ICMP,
    ICMPTimestamps,
    NTP,
    TCPTimestamps,
}

/// An ASCII upper-case letter folded to lower case; anything else unchanged.
pub open spec fn lower_byte(b: u8) -> u8 {
    if 65 <= b <= 90 {
        (b + 32) as u8
    } else {
        b
    }
}

/// Byte-wise ASCII case folding.
pub open spec fn lower_bytes(s: Seq<u8>) -> Seq<u8> {
    Seq::new(s.len(), |i: int| lower_byte(s[i]))
}

/// The bytes of "icmp".
pub open spec fn kw_icmp() -> Seq<u8> {
    seq![105u8, 99u8, 109u8, 112u8]
}

/// The bytes of "icmp-timestamps".
pub open spec fn kw_icmp_timestamps() -> Seq<u8> {
    seq![105u8, 99u8, 109u8, 112u8, 45u8, 116u8, 105u8, 109u8, 101u8, 115u8, 116u8, 97u8, 109u8,
        112u8, 115u8]
}

/// The bytes of "ntp".
pub open spec fn kw_ntp() -> Seq<u8> {
    seq![110u8, 116u8, 112u8]
}

/// The bytes of "tcp-timestamps".
pub open spec fn kw_tcp_timestamps() -> Seq<u8> {
    seq![116u8, 99u8, 112u8, 45u8, 116u8, 105u8, 109u8, 101u8, 115u8, 116u8, 97u8, 109u8, 112u8,
        115u8]
}

/// ASCII-lower-case a byte string.
fn to_lower(b: &[u8]) -> (r: Vec<u8>)
    ensures
        r@ =~= lower_bytes(b@),
{
    let mut out: Vec<u8> = Vec::new();
    let mut i: usize = 0;
    while i < b.len()
        invariant
            i <= b@.len(),
            out@.len() == i,
            forall|j: int| 0 <= j < i ==> out@[j] == lower_byte(b@[j]),
        decreases b@.len() - i,
    {
        let c = b[i];
        if c >= 65 && c <= 90 {
            out.push(c + 32);
        } else {
            out.push(c);
        }
        i = i + 1;
    }
    out
}

impl MeasurementType {
    /// Decode the configured name, ASCII case-insensitively. Exactly the four
    /// known names are accepted; anything else comes back in the error.
    pub fn from_str(s: &str) -> (r: Result<MeasurementType, InvalidMeasurementTypeError>)
        ensures
            r == Ok::<MeasurementType, InvalidMeasurementTypeError>(MeasurementType::ICMP)
                <==> lower_bytes(s.spec_bytes()) =~= kw_icmp(),
            r == Ok::<MeasurementType, InvalidMeasurementTypeError>(MeasurementType::ICMPTimestamps)
                <==> lower_bytes(s.spec_bytes()) =~= kw_icmp_timestamps(),
            r == Ok::<MeasurementType, InvalidMeasurementTypeError>(MeasurementType::NTP)
                <==> lower_bytes(s.spec_bytes()) =~= kw_ntp(),
            r == Ok::<MeasurementType, InvalidMeasurementTypeError>(MeasurementType::TCPTimestamps)
                <==> lower_bytes(s.spec_bytes()) =~= kw_tcp_timestamps(),
            r matches Err(e) ==> e.type_@ == s@,
    {
        let b = s.as_bytes();
        let low = to_lower(b);
        if low.len() == 4 && low[0] == 105 && low[1] == 99 && low[2] == 109 && low[3] == 112 {
            proof {
                assert(low@ =~= kw_icmp());
            }
            Ok(MeasurementType::ICMP)
        } else if low.len() == 15 && low[0] == 105 && low[1] == 99 && low[2] == 109 && low[3]
            == 112 && low[4] == 45 && low[5] == 116 && low[6] == 105 && low[7] == 109 && low[8]
            == 101 && low[9] == 115 && low[10] == 116 && low[11] == 97 && low[12] == 109 && low[13]
            == 112 && low[14] == 115 {
            proof {
                assert(low@ =~= kw_icmp_timestamps());
            }
            Ok(MeasurementType::ICMPTimestamps)
        } else if low.len() == 3 && low[0] == 110 && low[1] == 116 && low[2] == 112 {
            proof {
                assert(low@ =~= kw_ntp());
            }
            Ok(MeasurementType::NTP)
        } else if low.len() == 14 && low[0] == 116 && low[1] == 99 && low[2] == 112 && low[3] == 45
            && low[4] == 116 && low[5] == 105 && low[6] == 109 && low[7] == 101 && low[8] == 115
            && low[9] == 116 && low[10] == 97 && low[11] == 109 && low[12] == 112 && low[13]
            == 115 {
            proof {
                assert(low@ =~= kw_tcp_timestamps());
            }
            Ok(MeasurementType::TCPTimestamps)
        } else {
            Err(InvalidMeasurementTypeError { type_: s.to_owned() })
        }
    }
}

/// All the knobs the core consumes. Times are milliseconds, rates kbit/s,
/// fractions thousandths: the whole controller works in integers.
#[derive(Clone, Debug)]
pub struct Config {
    pub download_interface: String,
    pub upload_interface: String,
    pub download_base_kbits: u64,
    pub download_min_kbits: u64,
    pub upload_base_kbits: u64,
    pub upload_min_kbits: u64,
    pub speed_hist_file: String,
    pub stats_file: String,
    pub suppress_statistics: bool,
    pub download_delay_ms: u64,
    pub upload_delay_ms: u64,
    pub high_load_milli: u64,
    pub min_change_interval_ms: u64,
    pub measurement_type: MeasurementType,
    pub num_reflectors: u8,
    pub reflector_list_file: String,
    pub speed_hist_size: u32,
    pub tick_interval_ms: u64,
}

impl Config {
    /// The bounds the controller's arithmetic rests on: rate floors of at
    /// least 1 kbit/s below their base rates, delay thresholds within a day,
    /// and non-zero periods.
    pub open spec fn wf(self) -> bool {
        &&& 1 <= self.download_min_kbits <= self.download_base_kbits <= MAX_RATE_KBITS
        &&& 1 <= self.upload_min_kbits <= self.upload_base_kbits <= MAX_RATE_KBITS
        &&& 1 <= self.download_delay_ms <= DELAY_MS_MAX
        &&& 1 <= self.upload_delay_ms <= DELAY_MS_MAX
        &&& 1 <= self.tick_interval_ms
        &&& 1 <= self.min_change_interval_ms
        &&& self.high_load_milli <= 100_000
        &&& self.speed_hist_size <= 1_000_000
    }
}

} // verus!
