//! The JSON artifacts the shim emits: the two sync-pipe messages to the
//! manager and the single-line exit-status object.
//!
//! The payloads are assembled byte by byte with the standard JSON string
//! escaping, so the emitted objects are complete, single-line JSON values.

use vstd::prelude::*;
use vstd::string::StringSliceAdditionalSpecFns;
use crate::bytes::{dec_int, push_dec_i32, push_dec_u64, push_all, push_lit};
use crate::status::TerminationStatus;

verus! {

/// Lower-case hex digit for a value below 16.
pub open spec fn hex_digit(n: int) -> u8 {
    if n < 10 {
        (48 + n) as u8
    } else {
        (87 + n) as u8
    }
}

/// The JSON string escaping of one byte: quote and backslash get a
/// backslash, the common control characters their short forms, the other
/// control characters a `\u00..` form, and every other byte stands as is.
pub open spec fn escape_byte(b: u8) -> Seq<u8> {
    if b == 34 {
        "\\\"".spec_bytes()
    } else if b == 92 {
        "\\\\".spec_bytes()
    } else if b == 8 {
        "\\b".spec_bytes()
    } else if b == 9 {
        "\\t".spec_bytes()
    } else if b == 10 {
        "\\n".spec_bytes()
    } else if b == 12 {
        "\\f".spec_bytes()
    } else if b == 13 {
        "\\r".spec_bytes()
    } else if b < 32 {
        "\\u00".spec_bytes() + seq![hex_digit(b as int / 16), hex_digit(b as int % 16)]
    } else {
        seq![b]
    }
}

/// The JSON string escaping of a byte sequence.
pub open spec fn json_escaped(s: Seq<u8>) -> Seq<u8>
    decreases s.len(),
{
    if s.len() == 0 {
        Seq::empty()
    } else {
        json_escaped(s.drop_last()) + escape_byte(s.last())
    }
}

/// Escapes a byte sequence for embedding in a JSON string.
pub fn json_escape(data: &Vec<u8>) -> (r: Vec<u8>)
    ensures
        r@ == json_escaped(data@),
{
    let mut out: Vec<u8> = Vec::new();
    let mut i: usize = 0;
    proof {
        assert(data@.subrange(0, 0) =~= Seq::<u8>::empty());
    }
    while i < data.len()
        invariant
            i <= data.len(),
            out@ == json_escaped(data@.subrange(0, i as int)),
        decreases data.len() - i,
    {
        let ghost pre = data@.subrange(0, i as int);
        let b = data[i];
        if b == 34 {
            push_lit(&mut out, "\\\"");
        } else if b == 92 {
            push_lit(&mut out, "\\\\");
        } else if b == 8 {
            push_lit(&mut out, "\\b");
        } else if b == 9 {
            push_lit(&mut out, "\\t");
        } else if b == 10 {
            push_lit(&mut out, "\\n");
        } else if b == 12 {
            push_lit(&mut out, "\\f");
        } else if b == 13 {
            push_lit(&mut out, "\\r");
        } else if b < 32 {
            push_lit(&mut out, "\\u00");
            let hi = b / 16;
            let lo = b % 16;
            out.push(if hi < 10 { 48 + hi } else { 87 + hi });
            out.push(if lo < 10 { 48 + lo } else { 87 + lo });
            assert(out@ =~= json_escaped(pre) + escape_byte(b));
        } else {
            out.push(b);
            assert(out@ =~= json_escaped(pre) + escape_byte(b));
        }
        proof {
            let p1 = data@.subrange(0, i as int + 1);
            assert(p1.drop_last() =~= pre);
            assert(p1.last() == b);
            assert(out@ =~= json_escaped(p1));
        }
        i = i + 1;
    }
    proof {
        assert(data@.subrange(0, i as int) =~= data@);
    }
    out
}

/// A continuation byte of a multi-byte UTF-8 sequence.
pub open spec fn cont_byte(b: u8) -> bool {
    128 <= b < 192
}

/// Whether a byte sequence is well-formed UTF-8, by the shortest-form
/// rules: no overlong encodings, no surrogates, nothing above U+10FFFF.
pub open spec fn utf8_valid(s: Seq<u8>) -> bool
    decreases s.len(),
{
    if s.len() == 0 {
        true
    } else {
        let b0 = s[0];
        if b0 < 128 {
            utf8_valid(s.skip(1))
        } else if 194 <= b0 && b0 <= 223 {
            s.len() >= 2 && cont_byte(s[1]) && utf8_valid(s.skip(2))
        } else if b0 == 224 {
            s.len() >= 3 && 160 <= s[1] && s[1] <= 191 && cont_byte(s[2]) && utf8_valid(s.skip(3))
        } else if 225 <= b0 && b0 <= 236 || b0 == 238 || b0 == 239 {
            s.len() >= 3 && cont_byte(s[1]) && cont_byte(s[2]) && utf8_valid(s.skip(3))
        } else if b0 == 237 {
            s.len() >= 3 && 128 <= s[1] && s[1] <= 159 && cont_byte(s[2]) && utf8_valid(s.skip(3))
        } else if b0 == 240 {
            s.len() >= 4 && 144 <= s[1] && s[1] <= 191 && cont_byte(s[2]) && cont_byte(s[3])
                && utf8_valid(s.skip(4))
        } else if 241 <= b0 && b0 <= 243 {
            s.len() >= 4 && cont_byte(s[1]) && cont_byte(s[2]) && cont_byte(s[3]) && utf8_valid(
                s.skip(4),
            )
        } else if b0 == 244 {
            s.len() >= 4 && 128 <= s[1] && s[1] <= 143 && cont_byte(s[2]) && cont_byte(s[3])
                && utf8_valid(s.skip(4))
        } else {
            false
        }
    }
}

/// Decides whether a byte sequence is well-formed UTF-8.
pub fn is_valid_utf8(data: &Vec<u8>) -> (r: bool)
    ensures
        r == utf8_valid(data@),
{
    let n = data.len();
    let mut i: usize = 0;
    proof {
        assert(data@.skip(0) =~= data@);
    }
    while i < n
        invariant
            i <= n,
            n == data.len(),
            utf8_valid(data@) == utf8_valid(data@.skip(i as int)),
        decreases n - i,
    {
        let ghost s = data@.skip(i as int);
        let b0 = data[i];
        proof {
            assert(s[0] == data@[i as int]);
            if i + 1 < n {
                assert(s[1] == data@[i as int + 1]);
            }
            if i + 2 < n {
                assert(s[2] == data@[i as int + 2]);
            }
            if i + 3 < n {
                assert(s[3] == data@[i as int + 3]);
            }
        }
        if b0 < 128 {
            proof {
                assert(s.skip(1) =~= data@.skip(i as int + 1));
            }
            i = i + 1;
        } else if 194 <= b0 && b0 <= 223 {
            if n - i < 2 || !cont_ok(data, i + 1) {
                return false;
            }
            proof {
                assert(s.skip(2) =~= data@.skip(i as int + 2));
            }
            i = i + 2;
        } else if b0 == 224 {
            if n - i < 3 || !in_range(data, i + 1, 160, 191) || !cont_ok(data, i + 2) {
                return false;
            }
            proof {
                assert(s.skip(3) =~= data@.skip(i as int + 3));
            }
            i = i + 3;
        } else if 225 <= b0 && b0 <= 236 || b0 == 238 || b0 == 239 {
            if n - i < 3 || !cont_ok(data, i + 1) || !cont_ok(data, i + 2) {
                return false;
            }
            proof {
                assert(s.skip(3) =~= data@.skip(i as int + 3));
            }
            i = i + 3;
        } else if b0 == 237 {
            if n - i < 3 || !in_range(data, i + 1, 128, 159) || !cont_ok(data, i + 2) {
                return false;
            }
            proof {
                assert(s.skip(3) =~= data@.skip(i as int + 3));
            }
            i = i + 3;
        } else if b0 == 240 {
            if n - i < 4 || !in_range(data, i + 1, 144, 191) || !cont_ok(data, i + 2) || !cont_ok(
                data,
                i + 3,
            ) {
                return false;
            }
            proof {
                assert(s.skip(4) =~= data@.skip(i as int + 4));
            }
            i = i + 4;
        } else if 241 <= b0 && b0 <= 243 {
            if n - i < 4 || !cont_ok(data, i + 1) || !cont_ok(data, i + 2) || !cont_ok(data, i + 3) {
                return false;
            }
            proof {
                assert(s.skip(4) =~= data@.skip(i as int + 4));
            }
            i = i + 4;
        } else if b0 == 244 {
            if n - i < 4 || !in_range(data, i + 1, 128, 143) || !cont_ok(data, i + 2) || !cont_ok(
                data,
                i + 3,
            ) {
                return false;
            }
            proof {
                assert(s.skip(4) =~= data@.skip(i as int + 4));
            }
            i = i + 4;
        } else {
            return false;
        }
    }
    proof {
        assert(data@.skip(i as int) =~= Seq::<u8>::empty());
    }
    true
}

/// Whether the byte at `j` (which must be in bounds) is a continuation byte.
fn cont_ok(data: &Vec<u8>, j: usize) -> (r: bool)
    requires
        j < data@.len(),
    ensures
        r == cont_byte(data@[j as int]),
{
    let b = data[j];
    128 <= b && b < 192
}

/// Whether the byte at `j` (which must be in bounds) lies in `lo..=hi`.
fn in_range(data: &Vec<u8>, j: usize, lo: u8, hi: u8) -> (r: bool)
    requires
        j < data@.len(),
    ensures
        r == (lo <= data@[j as int] && data@[j as int] <= hi),
{
    let b = data[j];
    lo <= b && b <= hi
}

/// The debug rendering of a byte sequence: `[98, 111, 111, 109]`.
pub open spec fn repr_items(s: Seq<u8>) -> Seq<u8>
    decreases s.len(),
{
    if s.len() == 0 {
        Seq::empty()
    } else if s.len() == 1 {
        dec_int(s[0] as int)
    } else {
        repr_items(s.drop_last()) + ", ".spec_bytes() + dec_int(s.last() as int)
    }
}

/// The debug rendering of a byte sequence, brackets included.
pub open spec fn bytes_repr(s: Seq<u8>) -> Seq<u8> {
    "[".spec_bytes() + repr_items(s) + "]".spec_bytes()
}

/// Renders a byte sequence as `[98, 111, 111, 109]`.
pub fn render_bytes_repr(data: &Vec<u8>) -> (r: Vec<u8>)
    ensures
        r@ == bytes_repr(data@),
{
    let mut out: Vec<u8> = Vec::new();
    push_lit(&mut out, "[");
    let mut i: usize = 0;
    proof {
        assert(data@.subrange(0, 0) =~= Seq::<u8>::empty());
        assert(out@ =~= "[".spec_bytes() + repr_items(data@.subrange(0, 0)));
    }
    while i < data.len()
        invariant
            i <= data.len(),
            out@ == "[".spec_bytes() + repr_items(data@.subrange(0, i as int)),
        decreases data.len() - i,
    {
        let ghost pre = data@.subrange(0, i as int);
        if i > 0 {
            push_lit(&mut out, ", ");
        }
        let b = data[i];
        push_dec_u64(&mut out, b as u64);
        proof {
            let p1 = data@.subrange(0, i as int + 1);
            assert(p1.drop_last() =~= pre);
            assert(p1.last() == b);
            if i == 0 {
                assert(p1.len() == 1);
                assert(p1[0] == b);
                assert(out@ =~= "[".spec_bytes() + repr_items(p1));
            } else {
                assert(out@ =~= "[".spec_bytes() + repr_items(p1));
            }
        }
        i = i + 1;
    }
    push_lit(&mut out, "]");
    proof {
        assert(data@.subrange(0, i as int) =~= data@);
        assert(out@ =~= bytes_repr(data@));
    }
    out
}

/// The sync-pipe message that hands the container PID to the manager.
pub open spec fn msg_container_pid(pid: int) -> Seq<u8> {
    "{\"kind\":\"container_pid\",\"pid\":".spec_bytes() + dec_int(pid) + "}".spec_bytes()
}

/// Builds the `container_pid` sync-pipe message.
pub fn message_container_pid(pid: i32) -> (r: Vec<u8>)
    ensures
        r@ == msg_container_pid(pid as int),
{
    let mut out: Vec<u8> = Vec::new();
    push_lit(&mut out, "{\"kind\":\"container_pid\",\"pid\":");
    push_dec_i32(&mut out, pid);
    push_lit(&mut out, "}");
    assert(out@ =~= msg_container_pid(pid as int));
    out
}

/// The `stderr` field of the abnormal-termination message: the bytes
/// themselves when they are well-formed UTF-8, their debug rendering
/// otherwise; JSON-escaped either way.
pub open spec fn stderr_field(stderr: Seq<u8>) -> Seq<u8> {
    if utf8_valid(stderr) {
        json_escaped(stderr)
    } else {
        json_escaped(bytes_repr(stderr))
    }
}

/// The sync-pipe message reporting that the runtime did not exit cleanly.
pub open spec fn msg_abnormal_termination(status: Seq<u8>, stderr: Seq<u8>) -> Seq<u8> {
    "{\"kind\":\"runtime_abnormal_termination\",\"status\":\"".spec_bytes() + json_escaped(status)
        + "\",\"stderr\":\"".spec_bytes() + stderr_field(stderr) + "\"}".spec_bytes()
}

/// Builds the `runtime_abnormal_termination` sync-pipe message from the
/// described runtime outcome and the bytes read from the runtime's stderr.
pub fn message_abnormal_termination(status: &Vec<u8>, stderr: &Vec<u8>) -> (r: Vec<u8>)
    ensures
        r@ == msg_abnormal_termination(status@, stderr@),
{
    let mut out: Vec<u8> = Vec::new();
    push_lit(&mut out, "{\"kind\":\"runtime_abnormal_termination\",\"status\":\"");
    let escaped_status = json_escape(status);
    push_all(&mut out, &escaped_status);
    push_lit(&mut out, "\",\"stderr\":\"");
    if is_valid_utf8(stderr) {
        let escaped = json_escape(stderr);
        push_all(&mut out, &escaped);
    } else {
        let repr = render_bytes_repr(stderr);
        let escaped = json_escape(&repr);
        push_all(&mut out, &escaped);
    }
    push_lit(&mut out, "\"}");
    assert(out@ =~= msg_abnormal_termination(status@, stderr@));
    out
}

/// A timestamp that can stand inside a JSON string and a log record as it
/// is: printable ASCII with no quote, backslash or space.
pub open spec fn plain_timestamp(ts: Seq<u8>) -> bool {
    forall|i: int|
        0 <= i < ts.len() ==> 33 <= #[trigger] ts[i] <= 126 && ts[i] != 34 && ts[i] != 92
}

/// The single-line JSON object written to the exit file.
pub open spec fn exit_file_json(ts: Seq<u8>, status: TerminationStatus) -> Seq<u8> {
    match status {
        TerminationStatus::Exited(_, code) => "{\"at\":\"".spec_bytes() + ts
            + "\",\"reason\":\"exited\",\"exitCode\":".spec_bytes() + dec_int(code as int)
            + "}".spec_bytes(),
        TerminationStatus::Signaled(_, sig) => "{\"at\":\"".spec_bytes() + ts
            + "\",\"reason\":\"signaled\",\"signal\":".spec_bytes() + dec_int(sig as int)
            + "}".spec_bytes(),
    }
}

/// Builds the exit-file object for a reaped container: the timestamp, the
/// reason, and the exit code or signal number.
pub fn exit_file_content(ts: &Vec<u8>, status: &TerminationStatus) -> (r: Vec<u8>)
    requires
        plain_timestamp(ts@),
    ensures
        r@ == exit_file_json(ts@, *status),
{
    let mut out: Vec<u8> = Vec::new();
    push_lit(&mut out, "{\"at\":\"");
    push_all(&mut out, ts);
    match status {
        TerminationStatus::Exited(_, code) => {
            push_lit(&mut out, "\",\"reason\":\"exited\",\"exitCode\":");
            push_dec_i32(&mut out, *code);
        },
        TerminationStatus::Signaled(_, sig) => {
            push_lit(&mut out, "\",\"reason\":\"signaled\",\"signal\":");
            push_dec_i32(&mut out, *sig);
        },
    }
    push_lit(&mut out, "}");
    assert(out@ =~= exit_file_json(ts@, *status));
    out
}

} // verus!
