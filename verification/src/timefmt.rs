//! UTC timestamps in RFC 3339 form, through `chrono`.

use vstd::prelude::*;
use crate::json::plain_timestamp;

verus! {

/// The last UNIX timestamp of year 9999, the top of the range this
/// module renders.
pub const MAX_UTC_SECS: i64 = 253402300799;

/// What `chrono` renders for a UTC instant in RFC 3339 form.  The
/// result is a function of the two arguments alone.
pub uninterp spec fn rfc3339_utc(secs: int, nanos: int) -> Seq<u8>;

/// Relies on chrono's `DateTime::from_timestamp` and
/// `DateTime::to_rfc3339`: within this range the timestamp is
/// representable, and the rendering is made of digits, `-`, `:`, `T`,
/// `.` and the offset — printable ASCII, never empty, with no space,
/// quote or backslash.
#[verifier::external_body]
fn chrono_rfc3339_utc(secs: i64, nanos: u32) -> (r: Vec<u8>)
    requires
        0 <= secs <= MAX_UTC_SECS,
        nanos < 1_000_000_000,
    ensures
        r@ == rfc3339_utc(secs as int, nanos as int),
        r@.len() > 0,
        plain_timestamp(r@),
{
    let dt = chrono::DateTime::from_timestamp(secs, nanos).unwrap();
    dt.to_rfc3339().into_bytes()
}

/// Relies on chrono's `Utc::now` for the current time as a UNIX
/// timestamp.  Nothing is assumed of the value beyond the clock being
/// at or after the epoch and the nanosecond field being a fraction of a
/// second.
#[verifier::external_body]
fn chrono_now_timestamp() -> (r: (i64, u32))
    ensures
        r.0 >= 0,
        r.1 < 1_000_000_000,
{
    let now = chrono::Utc::now();
    (now.timestamp(), now.timestamp_subsec_nanos())
}

/// Renders a UNIX timestamp in RFC 3339 form, clamping a timestamp
/// beyond year 9999 or a nanosecond field of a second or more to the
/// representable range.
pub fn rfc3339_utc_bytes(secs: i64, nanos: u32) -> (r: Vec<u8>)
    ensures
        (0 <= secs <= MAX_UTC_SECS && nanos < 1_000_000_000) ==> r@ == rfc3339_utc(
            secs as int,
            nanos as int,
        ),
        r@.len() > 0,
        plain_timestamp(r@),
{
    let s = if secs < 0 {
        0
    } else if secs > MAX_UTC_SECS {
        MAX_UTC_SECS
    } else {
        secs
    };
    let n = if nanos >= 1_000_000_000 {
        999_999_999
    } else {
        nanos
    };
    chrono_rfc3339_utc(s, n)
}

/// The current UTC time in RFC 3339 form: a timestamp fit for a log
/// record and for the inside of a JSON string.
pub fn utc_now_rfc3339() -> (r: Vec<u8>)
    ensures
        r@.len() > 0,
        plain_timestamp(r@),
{
    let now = chrono_now_timestamp();
    rfc3339_utc_bytes(now.0, now.1)
}

} // verus!
