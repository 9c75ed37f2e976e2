//! Serial-link helpers: the fixed port parameters the device is opened with,
//! and the legacy line-validity probe used as a diagnostic on NMEA-style
//! output.

use vstd::prelude::*;
use vstd::string::StrSliceExecFns;

verus! {

/// The fixed parameters the serial device is opened with: the configured
/// baud rate, 8 data bits, 1 stop bit, no parity, no flow control.
pub struct SerialSettings {
    pub baud_rate: u32,
    pub data_bits: u8,
    pub stop_bits: u8,
    pub parity_enabled: bool,
    pub flow_control_enabled: bool,
}

impl SerialSettings {
    /// Settings for one baud rate; everything else is fixed at 8-N-1 with no
    /// flow control.
    pub fn for_baud_rate(baud_rate: u32) -> (s: SerialSettings)
        ensures
            s.baud_rate == baud_rate,
            s.data_bits == 8,
            s.stop_bits == 1,
            !s.parity_enabled,
            !s.flow_control_enabled,
    {
        SerialSettings {
            baud_rate,
            data_bits: 8,
            stop_bits: 1,
            parity_enabled: false,
            flow_control_enabled: false,
        }
    }
}

/// A line looks like device output when it starts with `$`, has a `,` at
/// offset 6, and is at least 15 characters long.
pub open spec fn spec_line_valid(line: Seq<char>) -> bool {
    &&& line.len() >= 15
    &&& line[0] == '$'
    &&& line[6] == ','
}

/// Decides whether one line passes the legacy validity check.
pub fn line_valid(line: &str) -> (r: bool)
    ensures
        r == spec_line_valid(line@),
{
    let n = line.unicode_len();
    if n < 15 {
        return false;
    }
    let c0 = line.get_char(0);
    let c6 = line.get_char(6);
    c0 == '$' && c6 == ','
}

/// Decides whether any of the probed lines passes the validity check; the
/// probe reads a few lines from the device and accepts the link if one of
/// them looks like device output.
pub fn verify_lines(lines: &Vec<String>) -> (r: bool)
    ensures
        r == exists|i: int|
            0 <= i < lines@.len() && spec_line_valid(#[trigger] lines@[i]@),
{
    let n = lines.len();
    let mut i: usize = 0;
    while i < n
        invariant
            i <= n,
            n == lines@.len(),
            forall|j: int| 0 <= j < i ==> !spec_line_valid(#[trigger] lines@[j]@),
        decreases n - i,
    {
        if line_valid(lines[i].as_str()) {
            return true;
        }
        i += 1;
    }
    false
}

} // verus!
