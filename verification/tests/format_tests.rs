//! The byte-level artifacts: log records, sync-pipe messages, the exit
//! file, decimal rendering, JSON escaping and UTF-8 validation.

use shimmy::argv::{trim_quote_bytes, RuntimeCommand};
use shimmy::bytes::{parse_i32, IntParseError};
use shimmy::json::{
    exit_file_content, is_valid_utf8, json_escape, message_abnormal_termination,
    message_container_pid, render_bytes_repr,
};
use shimmy::logfmt::{format_log_records, split_lines, StreamKind};
use shimmy::status::{signal_name, TerminationStatus};

fn records(stream: StreamKind, ts: &str, data: &str) -> Vec<Vec<u8>> {
    format_log_records(&ts.as_bytes().to_vec(), stream, &data.as_bytes().to_vec())
}

#[test]
fn one_line_makes_one_record() {
    let recs = records(StreamKind::Stdout, "2021-01-01T00:00:00+00:00", "hello\n");
    assert_eq!(recs.len(), 1);
    assert_eq!(recs[0], b"2021-01-01T00:00:00+00:00 stdout hello\n".to_vec());
}

#[test]
fn n_lines_make_n_records_and_empty_lines_none() {
    let recs = records(StreamKind::Stdout, "T", "a\n\nb\nc\n\n");
    assert_eq!(recs.len(), 3);
    assert_eq!(recs[0], b"T stdout a\n".to_vec());
    assert_eq!(recs[1], b"T stdout b\n".to_vec());
    assert_eq!(recs[2], b"T stdout c\n".to_vec());
}

#[test]
fn empty_chunk_makes_no_record() {
    let recs = records(StreamKind::Stdout, "T", "");
    assert_eq!(recs.len(), 0);
    let recs = records(StreamKind::Stdout, "T", "\n\n\n");
    assert_eq!(recs.len(), 0);
}

#[test]
fn stderr_records_carry_stderr_name() {
    let recs = records(StreamKind::Stderr, "T", "oops");
    assert_eq!(recs.len(), 1);
    assert_eq!(recs[0], b"T stderr oops\n".to_vec());
}

#[test]
fn partial_line_is_flushed_as_if_complete() {
    let recs = records(StreamKind::Stdout, "T", "no newline");
    assert_eq!(recs.len(), 1);
    assert_eq!(recs[0], b"T stdout no newline\n".to_vec());
}

#[test]
fn split_lines_keeps_order_and_separators_out() {
    let lines = split_lines(&b"ab\nc\n".to_vec());
    assert_eq!(lines.len(), 3);
    assert_eq!(lines[0], b"ab".to_vec());
    assert_eq!(lines[1], b"c".to_vec());
    assert_eq!(lines[2], b"".to_vec());
}

#[test]
fn container_pid_message_shape() {
    let msg = message_container_pid(4242);
    assert_eq!(msg, b"{\"kind\":\"container_pid\",\"pid\":4242}".to_vec());
}

#[test]
fn container_pid_message_parses_as_json() {
    let msg = message_container_pid(77);
    let v: serde_json::Value = serde_json::from_slice(&msg).unwrap();
    assert_eq!(v["kind"], "container_pid");
    assert_eq!(v["pid"], 77);
}

#[test]
fn abnormal_message_shape() {
    let status = b"Runtime Exited with code 1.".to_vec();
    let msg = message_abnormal_termination(&status, &b"boom".to_vec());
    assert_eq!(
        msg,
        b"{\"kind\":\"runtime_abnormal_termination\",\"status\":\"Runtime Exited with code 1.\",\"stderr\":\"boom\"}"
            .to_vec()
    );
}

#[test]
fn abnormal_message_escapes_stderr() {
    let status = b"Runtime Exited with code 1.".to_vec();
    let msg = message_abnormal_termination(&status, &b"a\"b\\c\nd".to_vec());
    let v: serde_json::Value = serde_json::from_slice(&msg).unwrap();
    assert_eq!(v["stderr"], "a\"b\\c\nd");
}

#[test]
fn abnormal_message_falls_back_to_repr_on_invalid_utf8() {
    let status = b"Runtime Received signal SIGKILL".to_vec();
    let msg = message_abnormal_termination(&status, &vec![0xff, 0x62]);
    let v: serde_json::Value = serde_json::from_slice(&msg).unwrap();
    assert_eq!(v["stderr"], "[255, 98]");
}

#[test]
fn exit_file_exited_shape() {
    let ts = b"2021-01-01T00:00:00+00:00".to_vec();
    let content = exit_file_content(&ts, &TerminationStatus::Exited(4242, 0));
    assert_eq!(
        content,
        b"{\"at\":\"2021-01-01T00:00:00+00:00\",\"reason\":\"exited\",\"exitCode\":0}".to_vec()
    );
    let v: serde_json::Value = serde_json::from_slice(&content).unwrap();
    assert_eq!(v["reason"], "exited");
    assert_eq!(v["exitCode"], 0);
}

#[test]
fn exit_file_signaled_shape() {
    let ts = b"T0".to_vec();
    let content = exit_file_content(&ts, &TerminationStatus::Signaled(4242, 15));
    assert_eq!(content, b"{\"at\":\"T0\",\"reason\":\"signaled\",\"signal\":15}".to_vec());
}

#[test]
fn exit_file_negative_exit_code() {
    let ts = b"T0".to_vec();
    let content = exit_file_content(&ts, &TerminationStatus::Exited(1, -1));
    assert_eq!(content, b"{\"at\":\"T0\",\"reason\":\"exited\",\"exitCode\":-1}".to_vec());
}

#[test]
fn json_escape_handles_controls() {
    let escaped = json_escape(&vec![34, 92, 8, 9, 10, 12, 13, 31, 65]);
    assert_eq!(escaped, b"\\\"\\\\\\b\\t\\n\\f\\r\\u001fA".to_vec());
}

#[test]
fn utf8_validation_accepts_and_rejects() {
    assert!(is_valid_utf8(&"héllo → ok".as_bytes().to_vec()));
    assert!(is_valid_utf8(&b"".to_vec()));
    assert!(!is_valid_utf8(&vec![0xc0, 0xaf]));
    assert!(!is_valid_utf8(&vec![0xed, 0xa0, 0x80]));
    assert!(!is_valid_utf8(&vec![0xf4, 0x90, 0x80, 0x80]));
    assert!(!is_valid_utf8(&vec![0x80]));
    assert!(!is_valid_utf8(&vec![0xe2, 0x82]));
}

#[test]
fn bytes_repr_matches_debug_form() {
    assert_eq!(render_bytes_repr(&b"boom".to_vec()), b"[98, 111, 111, 109]".to_vec());
    assert_eq!(render_bytes_repr(&Vec::new()), b"[]".to_vec());
    assert_eq!(render_bytes_repr(&vec![7]), b"[7]".to_vec());
}

#[test]
fn signal_names() {
    assert_eq!(signal_name(15), b"SIGTERM".to_vec());
    assert_eq!(signal_name(9), b"SIGKILL".to_vec());
    assert_eq!(signal_name(17), b"SIGCHLD".to_vec());
    assert_eq!(signal_name(64), b"SIG64".to_vec());
}

#[test]
fn status_accessors_and_description() {
    let exited = TerminationStatus::Exited(10, 3);
    assert_eq!(exited.pid(), 10);
    assert_eq!(exited.exit_code(), Some(3));
    assert!(exited.exited_with_code(3));
    assert!(!exited.exited_with_code(0));
    assert_eq!(exited.describe(), b"Exited with code 3".to_vec());

    let signaled = TerminationStatus::Signaled(11, 15);
    assert_eq!(signaled.pid(), 11);
    assert_eq!(signaled.exit_code(), None);
    assert!(!signaled.exited_with_code(0));
    assert_eq!(signaled.describe(), b"Received signal SIGTERM".to_vec());
}

#[test]
fn argv_shape() {
    let cmd = RuntimeCommand {
        runtime_path: b"/usr/bin/runc".to_vec(),
        runtime_args: vec![b"'--systemd-cgroup'".to_vec(), b"--debug".to_vec()],
        container_id: b"cont-1".to_vec(),
        pidfile: b"/run/cont-1.pid".to_vec(),
        bundle: b"/bundles/cont-1".to_vec(),
    };
    let argv = cmd.to_argv();
    let expect: Vec<&[u8]> = vec![
        b"/usr/bin/runc",
        b"--systemd-cgroup",
        b"--debug",
        b"create",
        b"--bundle",
        b"/bundles/cont-1",
        b"--pid-file",
        b"/run/cont-1.pid",
        b"cont-1",
    ];
    assert_eq!(argv.len(), expect.len());
    for (got, want) in argv.iter().zip(expect.iter()) {
        assert_eq!(got.as_slice(), *want);
    }
}

#[test]
fn quote_trimming() {
    assert_eq!(trim_quote_bytes(&b"''a'b''".to_vec()), b"a'b".to_vec());
    assert_eq!(trim_quote_bytes(&b"''".to_vec()), b"".to_vec());
    assert_eq!(trim_quote_bytes(&b"plain".to_vec()), b"plain".to_vec());
}

#[test]
fn pid_parsing_accepts_plain_decimals() {
    assert_eq!(parse_i32(&b"4242".to_vec()), Ok(4242));
    assert_eq!(parse_i32(&b"+7".to_vec()), Ok(7));
    assert_eq!(parse_i32(&b"-2147483648".to_vec()), Ok(-2147483648));
    assert_eq!(parse_i32(&b"2147483647".to_vec()), Ok(2147483647));
    assert_eq!(parse_i32(&b"".to_vec()), Err(IntParseError::Empty));
    assert_eq!(parse_i32(&b"-".to_vec()), Err(IntParseError::InvalidDigit));
    assert_eq!(parse_i32(&b"12 ".to_vec()), Err(IntParseError::InvalidDigit));
    assert_eq!(parse_i32(&b"12\n".to_vec()), Err(IntParseError::InvalidDigit));
    assert_eq!(parse_i32(&b"2147483648".to_vec()), Err(IntParseError::OutOfRange));
    assert_eq!(parse_i32(&b"-2147483649".to_vec()), Err(IntParseError::OutOfRange));
}
