//! The RFC 3339 timestamps, rendered through the real clock library.

use shimmy::json::exit_file_content;
use shimmy::status::TerminationStatus;
use shimmy::timefmt::{rfc3339_utc_bytes, utc_now_rfc3339};

#[test]
fn epoch_renders_exactly() {
    assert_eq!(rfc3339_utc_bytes(0, 0), b"1970-01-01T00:00:00+00:00".to_vec());
}

#[test]
fn known_instant_renders_exactly() {
    // 2015-05-15T00:00:00 UTC, with a fractional second.
    assert_eq!(
        rfc3339_utc_bytes(1431648000, 500_000_000),
        b"2015-05-15T00:00:00.500+00:00".to_vec()
    );
}

#[test]
fn now_is_plain_and_nonempty() {
    let ts = utc_now_rfc3339();
    assert!(!ts.is_empty());
    assert!(ts.contains(&b'T'));
    assert!(ts.contains(&b':'));
    for b in &ts {
        assert!(*b > 32 && *b < 127 && *b != b'"' && *b != b'\\');
    }
}

#[test]
fn exit_file_with_real_timestamp_parses() {
    let ts = utc_now_rfc3339();
    let content = exit_file_content(&ts, &TerminationStatus::Signaled(4242, 15));
    let v: serde_json::Value = serde_json::from_slice(&content).unwrap();
    assert_eq!(v["reason"], "signaled");
    assert_eq!(v["signal"], 15);
    assert_eq!(v["at"], String::from_utf8(ts).unwrap());
}
