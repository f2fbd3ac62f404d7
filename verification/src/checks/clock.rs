//! System clock sync: the local clock against network (NTP) time. Fixable:
//! the fix resynchronises the clock, then the check runs again.

use vstd::prelude::*;

use super::CheckReport;
use crate::signatures::strs;
use crate::text::{append_chars, chars_of, push_str, signed_decimal, signed_decimal_chars, string_of};

verus! {

/// The largest accepted distance between local and network time.
pub const SKEW_THRESHOLD_MS: i64 = 60_000;

/// The NTP servers asked, in order; the first one that answers counts.
pub open spec fn ntp_servers() -> Seq<Seq<char>> {
    seq!["time.google.com"@, "pool.ntp.org"@, "time.cloudflare.com"@]
}

pub fn ntp_server_list() -> (v: Vec<&'static str>)
    ensures
        strs(v@) == ntp_servers(),
{
    let v = vec!["time.google.com", "pool.ntp.org", "time.cloudflare.com"];
    assert(strs(v@) =~= ntp_servers());
    v
}

/// The NTP port.
pub const NTP_PORT: u16 = 123;

/// An NTP version 3 client request: 48 bytes, the first one `0x1b`.
pub fn ntp_request() -> (r: Vec<u8>)
    ensures
        r@.len() == 48,
        r@[0] == 0x1b,
        forall|i: int| 1 <= i < 48 ==> r@[i] == 0,
{
    let mut r: Vec<u8> = Vec::new();
    r.push(0x1b);
    while r.len() < 48
        invariant
            1 <= r@.len() <= 48,
            r@[0] == 0x1b,
            forall|i: int| 1 <= i < r@.len() ==> r@[i] == 0,
        decreases 48 - r@.len(),
    {
        r.push(0);
    }
    r
}

/// The big-endian 32-bit number in bytes `at .. at + 4`.
pub open spec fn be32(b: Seq<u8>, at: int) -> int {
    b[at] * 16777216 + b[at + 1] * 65536 + b[at + 2] * 256 + b[at + 3]
}

/// Seconds between the NTP epoch (1900) and the Unix epoch (1970).
pub open spec fn ntp_unix_offset() -> int {
    2_208_988_800
}

/// The server's transmit time in Unix milliseconds: the seconds field
/// (bytes 40..44) and the fraction field (bytes 44..48) of the reply, the
/// fraction scaled to milliseconds and rounded down.
pub open spec fn server_ms(b: Seq<u8>) -> int {
    (be32(b, 40) - ntp_unix_offset()) * 1000 + (be32(b, 44) * 1000) / 4294967296
}

fn be32_exec(b: &Vec<u8>, at: usize) -> (r: u64)
    requires
        at + 4 <= b.len(),
    ensures
        r == be32(b@, at as int),
        r < 4294967296,
{
    (b[at] as u64) * 16777216 + (b[at + 1] as u64) * 65536 + (b[at + 2] as u64) * 256 + (b[at
        + 3] as u64)
}

/// The offset of the local clock from network time, in milliseconds, from
/// an NTP reply and the local time in Unix milliseconds; `None` when the
/// difference does not fit in an `i64`.
pub fn ntp_offset_ms(reply: &Vec<u8>, now_ms: i64) -> (r: Option<i64>)
    requires
        reply.len() >= 48,
    ensures
        i64::MIN <= server_ms(reply@) - now_ms <= i64::MAX ==> r == Some((server_ms(reply@) - now_ms) as i64),
        !(i64::MIN <= server_ms(reply@) - now_ms <= i64::MAX) ==> r is None,
{
    let secs = be32_exec(reply, 40);
    let frac = be32_exec(reply, 44);
    let ntp_unix: i64 = (secs as i64) - 2_208_988_800;
    let scaled: u64 = frac * 1000;
    let part: u64 = scaled >> 32u64;
    assert(part == scaled / 4294967296) by (bit_vector)
        requires
            part == scaled >> 32u64,
    ;
    let server: i64 = ntp_unix * 1000 + (part as i64);
    server.checked_sub(now_ms)
}

/// Division rounded toward zero, as integer `/` does.
pub open spec fn div_trunc(a: int, d: int) -> int {
    if a >= 0 {
        a / d
    } else {
        -((-a) / d)
    }
}

pub open spec fn check_name() -> Seq<char> {
    "System clock sync"@
}

/// The clock check, from the measured offset (or why none was measured):
/// within the threshold passes, beyond it is a fixable failure, no answer
/// from any server is a warning.
pub fn run(offset: &Result<i64, String>) -> (r: CheckReport)
    requires
        *offset matches Ok(o) ==> o != i64::MIN,
    ensures
        r.key@ == "clock"@,
        r.name@ == check_name(),
        *offset matches Ok(o) ==> (-60000 <= o <= 60000 ==> r.status == super::Status::Pass
            && r.detail@ == "System time within "@ + signed_decimal(60) + "s of the network time."@),
        *offset matches Ok(o) ==> (!(-60000 <= o <= 60000) ==> r.status == (super::Status::Fail {
            fixable: true,
        }) && r.detail@ == "Clock is "@ + signed_decimal(div_trunc(o as int, 1000))
            + "s off from network time; timestamps would be unreliable."@),
        *offset matches Err(e) ==> r.status == super::Status::Warning && r.detail@
            == "Could not reach an NTP server ("@ + e@ + "); clock not verified."@,
{
    match offset {
        Ok(o) => {
            let o = *o;
            let abs: i64 = if o < 0 {
                -o
            } else {
                o
            };
            if abs <= SKEW_THRESHOLD_MS {
                let secs = SKEW_THRESHOLD_MS / 1000;
                let mut m = chars_of("System time within ");
                let d = signed_decimal_chars(secs);
                append_chars(&mut m, &d);
                push_str(&mut m, "s of the network time.");
                CheckReport::pass("clock", "System clock sync", string_of(&m))
            } else {
                let q: i64 = if o >= 0 {
                    o / 1000
                } else {
                    -((-o) / 1000)
                };
                let mut m = chars_of("Clock is ");
                let d = signed_decimal_chars(q);
                append_chars(&mut m, &d);
                push_str(&mut m, "s off from network time; timestamps would be unreliable.");
                CheckReport::fail("clock", "System clock sync", true, string_of(&m))
            }
        },
        Err(e) => {
            let mut m = chars_of("Could not reach an NTP server (");
            push_str(&mut m, e.as_str());
            push_str(&mut m, "); clock not verified.");
            CheckReport::warning("clock", "System clock sync", string_of(&m))
        },
    }
}

} // verus!
