//! The container log format: one record per non-empty line of stream
//! output, `<timestamp> <stream-name> <line>\n`.

use vstd::prelude::*;
use vstd::string::StringSliceAdditionalSpecFns;
use crate::bytes::{push_all, push_lit};

verus! {

pub const NEWLINE: u8 = 10;

/// Which container output stream a chunk of bytes came from.
#[derive(Copy, Clone, Debug, PartialEq, Eq, Structural)]
pub enum StreamKind {
    Stdout,
    Stderr,
}

impl StreamKind {
    /// The one-byte tag that prefixes bytes delivered to attach clients.
    pub open spec fn tag_spec(self) -> u8 {
        match self {
            StreamKind::Stdout => 1,
            StreamKind::Stderr => 2,
        }
    }

    /// The one-byte tag that prefixes bytes delivered to attach clients.
    pub fn tag(self) -> (r: u8)
        ensures
            r == self.tag_spec(),
    {
        match self {
            StreamKind::Stdout => 1,
            StreamKind::Stderr => 2,
        }
    }

    /// The ASCII name written into log records.
    pub open spec fn name_spec(self) -> Seq<u8> {
        match self {
            StreamKind::Stdout => "stdout".spec_bytes(),
            StreamKind::Stderr => "stderr".spec_bytes(),
        }
    }

    /// The ASCII name written into log records.
    pub fn name(self) -> (r: &'static str)
        ensures
            r.spec_bytes() == self.name_spec(),
    {
        match self {
            StreamKind::Stdout => "stdout",
            StreamKind::Stderr => "stderr",
        }
    }
}

/// The lines of `data`, split on newline bytes.  As with splitting on a
/// separator, empty input gives one empty line, and a trailing newline
/// gives a final empty line.
pub open spec fn lines_of(data: Seq<u8>) -> Seq<Seq<u8>>
    decreases data.len(),
{
    if data.len() == 0 {
        seq![Seq::<u8>::empty()]
    } else if data[0] == NEWLINE {
        seq![Seq::<u8>::empty()] + lines_of(data.skip(1))
    } else {
        let rest = lines_of(data.skip(1));
        seq![seq![data[0]] + rest[0]] + rest.skip(1)
    }
}

/// Splitting always yields at least one line.
pub proof fn lemma_lines_of_len(data: Seq<u8>)
    ensures
        lines_of(data).len() >= 1,
    decreases data.len(),
{
    if data.len() != 0 {
        lemma_lines_of_len(data.skip(1));
    }
}

/// The non-empty lines of `data`: exactly those that become log records.
pub open spec fn nonempty_lines(data: Seq<u8>) -> Seq<Seq<u8>> {
    lines_of(data).filter(|l: Seq<u8>| l.len() > 0)
}

/// One log record: `<ts> <stream-name> <line>` and a trailing newline.
pub open spec fn log_record(ts: Seq<u8>, stream: StreamKind, line: Seq<u8>) -> Seq<u8> {
    ts + " ".spec_bytes() + stream.name_spec() + " ".spec_bytes() + line + "\n".spec_bytes()
}

/// All log records for one chunk of stream output: one record per
/// non-empty line, in line order.
pub open spec fn log_records(ts: Seq<u8>, stream: StreamKind, data: Seq<u8>) -> Seq<Seq<u8>> {
    nonempty_lines(data).map_values(|l: Seq<u8>| log_record(ts, stream, l))
}

/// A chunk of `n` non-empty lines produces exactly `n` records, and a
/// chunk with no non-empty line produces none.
pub proof fn lemma_record_count(ts: Seq<u8>, stream: StreamKind, data: Seq<u8>)
    ensures
        log_records(ts, stream, data).len() == nonempty_lines(data).len(),
{
}

/// Every non-empty line of a chunk has exactly one record, at the same
/// position, carrying that line and the stream's name.
pub proof fn lemma_one_record_per_line(ts: Seq<u8>, stream: StreamKind, data: Seq<u8>, i: int)
    requires
        0 <= i < nonempty_lines(data).len(),
    ensures
        log_records(ts, stream, data)[i] == log_record(ts, stream, nonempty_lines(data)[i]),
{
}

/// Prepends `c` onto the first line of `rest`.
spec fn prepend_first(c: Seq<u8>, rest: Seq<Seq<u8>>) -> Seq<Seq<u8>>
    recommends
        rest.len() >= 1,
{
    seq![c + rest[0]] + rest.skip(1)
}

/// Splits `data` into its lines.
pub fn split_lines(data: &Vec<u8>) -> (r: Vec<Vec<u8>>)
    ensures
        r.deep_view() == lines_of(data@),
{
    let ghost full = data@;
    let mut done: Vec<Vec<u8>> = Vec::new();
    let mut cur: Vec<u8> = Vec::new();
    let mut i: usize = 0;
    proof {
        assert(full.skip(0) =~= full);
        lemma_lines_of_len(full);
        assert(prepend_first(cur@, lines_of(full)) =~~= lines_of(full));
    }
    while i < data.len()
        invariant
            i <= data.len(),
            full == data@,
            lines_of(full) =~~= done.deep_view() + prepend_first(cur@, lines_of(full.skip(i as int))),
        decreases data.len() - i,
    {
        let ghost pre_done = done.deep_view();
        let ghost pre_cur = cur@;
        let b = data[i];
        proof {
            assert(full.skip(i as int)[0] == full[i as int]);
            assert(full.skip(i as int).skip(1) =~= full.skip(i as int + 1));
            lemma_lines_of_len(full.skip(i as int + 1));
        }
        if b == NEWLINE {
            done.push(cur);
            cur = Vec::new();
            proof {
                assert(done.deep_view() =~~= pre_done.push(pre_cur));
                assert(lines_of(full) =~~= done.deep_view() + prepend_first(
                    cur@,
                    lines_of(full.skip(i as int + 1)),
                ));
            }
        } else {
            cur.push(b);
            proof {
                let rest = lines_of(full.skip(i as int + 1));
                assert(prepend_first(pre_cur, lines_of(full.skip(i as int))) =~~= prepend_first(
                    cur@,
                    rest,
                ));
            }
        }
        i = i + 1;
    }
    proof {
        assert(full.skip(i as int) =~= Seq::<u8>::empty());
        assert(prepend_first(cur@, lines_of(full.skip(i as int))) =~~= seq![cur@]);
    }
    done.push(cur);
    assert(done.deep_view() =~~= lines_of(full));
    done
}

/// Renders the log records for one chunk of stream output, in order: one
/// record per non-empty line, `<ts> <stream-name> <line>\n` each.
pub fn format_log_records(ts: &Vec<u8>, stream: StreamKind, data: &Vec<u8>) -> (r: Vec<Vec<u8>>)
    ensures
        r.deep_view() == log_records(ts@, stream, data@),
{
    let lines = split_lines(data);
    let mut r: Vec<Vec<u8>> = Vec::new();
    let mut i: usize = 0;
    let ghost pred = |l: Seq<u8>| l.len() > 0;
    proof {
        reveal(Seq::filter);
        assert(lines.deep_view().subrange(0, 0) =~= Seq::<Seq<u8>>::empty());
        assert(r.deep_view() =~~= lines.deep_view().subrange(0, 0).filter(pred).map_values(
            |l: Seq<u8>| log_record(ts@, stream, l),
        ));
    }
    while i < lines.len()
        invariant
            i <= lines.len(),
            lines.deep_view() == lines_of(data@),
            lines.deep_view().len() == lines.len(),
            r.deep_view() =~~= lines.deep_view().subrange(0, i as int).filter(
                |l: Seq<u8>| l.len() > 0,
            ).map_values(|l: Seq<u8>| log_record(ts@, stream, l)),
        decreases lines.len() - i,
    {
        let ghost prefix = lines.deep_view().subrange(0, i as int);
        let ghost pred = |l: Seq<u8>| l.len() > 0;
        let ghost pre_r = r.deep_view();
        let line = &lines[i];
        if line.len() > 0 {
            let mut rec: Vec<u8> = Vec::new();
            push_all(&mut rec, ts);
            push_lit(&mut rec, " ");
            push_lit(&mut rec, stream.name());
            push_lit(&mut rec, " ");
            push_all(&mut rec, line);
            push_lit(&mut rec, "\n");
            assert(rec@ =~= log_record(ts@, stream, line@));
            r.push(rec);
            assert(r.deep_view() =~~= pre_r.push(rec@));
        }
        proof {
            reveal(Seq::filter);
            let prefix1 = lines.deep_view().subrange(0, i as int + 1);
            assert(prefix1.drop_last() =~= prefix);
            assert(prefix1.last() == line@);
            let f = |l: Seq<u8>| log_record(ts@, stream, l);
            if pred(line@) {
                assert(prefix1.filter(pred) == prefix.filter(pred).push(line@));
                assert(prefix1.filter(pred).map_values(f) =~~= prefix.filter(pred).map_values(
                    f,
                ).push(f(line@)));
            } else {
                assert(prefix1.filter(pred) == prefix.filter(pred));
            }
        }
        i = i + 1;
    }
    proof {
        assert(lines.deep_view().subrange(0, i as int) =~= lines.deep_view());
    }
    r
}

} // verus!
