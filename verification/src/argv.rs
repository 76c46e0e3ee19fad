//! The argument vector the runtime helper execs the OCI runtime with.

use vstd::prelude::*;
use vstd::string::StringSliceAdditionalSpecFns;
use crate::bytes::{dup_bytes, lit_bytes};

verus! {

/// The byte of a single quote.
pub const QUOTE: u8 = 39;

/// A value with every leading and trailing single quote removed.
pub open spec fn trim_quotes(s: Seq<u8>) -> Seq<u8>
    decreases s.len(),
{
    if s.len() > 0 && s[0] == QUOTE {
        trim_quotes(s.skip(1))
    } else if s.len() > 0 && s[s.len() - 1] == QUOTE {
        trim_quotes(s.drop_last())
    } else {
        s
    }
}

/// The argv of the runtime invocation: the runtime's path, the extra
/// arguments with their quotes trimmed, then
/// `create --bundle <bundle> --pid-file <pidfile> <container-id>`.
/// Each argument with its quotes trimmed.
pub open spec fn trimmed_args(args: Seq<Seq<u8>>) -> Seq<Seq<u8>> {
    args.map_values(|a: Seq<u8>| trim_quotes(a))
}

pub open spec fn argv_spec(
    runtime_path: Seq<u8>,
    args: Seq<Seq<u8>>,
    bundle: Seq<u8>,
    pidfile: Seq<u8>,
    container_id: Seq<u8>,
) -> Seq<Seq<u8>> {
    seq![runtime_path] + trimmed_args(args) + seq![
        "create".spec_bytes(),
        "--bundle".spec_bytes(),
        bundle,
        "--pid-file".spec_bytes(),
        pidfile,
        container_id,
    ]
}

/// Copies `data[start..end]` with leading and trailing quotes removed.
fn trim_quotes_range(data: &Vec<u8>, start: usize, end: usize) -> (r: Vec<u8>)
    requires
        start <= end <= data@.len(),
    ensures
        r@ == trim_quotes(data@.subrange(start as int, end as int)),
    decreases end - start,
{
    let ghost s = data@.subrange(start as int, end as int);
    if start < end && data[start] == QUOTE {
        proof {
            assert(s.skip(1) =~= data@.subrange(start as int + 1, end as int));
        }
        trim_quotes_range(data, start + 1, end)
    } else if start < end && data[end - 1] == QUOTE {
        proof {
            assert(s.drop_last() =~= data@.subrange(start as int, end as int - 1));
        }
        trim_quotes_range(data, start, end - 1)
    } else {
        let mut r: Vec<u8> = Vec::new();
        let mut i: usize = start;
        while i < end
            invariant
                start <= i <= end <= data@.len(),
                r@ == data@.subrange(start as int, i as int),
            decreases end - i,
        {
            r.push(data[i]);
            assert(r@ =~= data@.subrange(start as int, i as int + 1));
            i = i + 1;
        }
        assert(r@ == s);
        r
    }
}

/// Removes every leading and trailing single quote of a value.
pub fn trim_quote_bytes(data: &Vec<u8>) -> (r: Vec<u8>)
    ensures
        r@ == trim_quotes(data@),
{
    let r = trim_quotes_range(data, 0, data.len());
    proof {
        assert(data@.subrange(0, data@.len() as int) =~= data@);
    }
    r
}

/// The invocation of the external OCI runtime, as plain values.
pub struct RuntimeCommand {
    pub runtime_path: Vec<u8>,
    pub runtime_args: Vec<Vec<u8>>,
    pub container_id: Vec<u8>,
    pub pidfile: Vec<u8>,
    pub bundle: Vec<u8>,
}

impl RuntimeCommand {
    /// Builds the argv the runtime helper execs: the runtime's path,
    /// each extra argument with its quotes trimmed, then the `create`
    /// subcommand with its bundle, pidfile and container id.
    pub fn to_argv(&self) -> (r: Vec<Vec<u8>>)
        ensures
            r.deep_view() == argv_spec(
                self.runtime_path@,
                self.runtime_args.deep_view(),
                self.bundle@,
                self.pidfile@,
                self.container_id@,
            ),
    {
        let mut r: Vec<Vec<u8>> = Vec::new();
        r.push(dup_bytes(&self.runtime_path));
        let mut i: usize = 0;
        proof {
            assert(self.runtime_args.deep_view().subrange(0, 0) =~= Seq::<Seq<u8>>::empty());
            assert(r.deep_view() =~~= seq![self.runtime_path@] + trimmed_args(
                self.runtime_args.deep_view().subrange(0, 0),
            ));
        }
        while i < self.runtime_args.len()
            invariant
                i <= self.runtime_args.len(),
                self.runtime_args.deep_view().len() == self.runtime_args@.len(),
                r.deep_view() =~~= seq![self.runtime_path@] + trimmed_args(
                    self.runtime_args.deep_view().subrange(0, i as int),
                ),
            decreases self.runtime_args.len() - i,
        {
            let ghost pre = self.runtime_args.deep_view().subrange(0, i as int);
            let ghost pre_r = r.deep_view();
            let trimmed = trim_quote_bytes(&self.runtime_args[i]);
            r.push(trimmed);
            proof {
                let p1 = self.runtime_args.deep_view().subrange(0, i as int + 1);
                assert(r.deep_view() =~~= pre_r.push(trimmed@));
                assert(self.runtime_args@[i as int].deep_view() =~= self.runtime_args@[i as int]@);
                assert(p1 =~~= pre.push(self.runtime_args@[i as int]@));
                assert(trimmed_args(p1) =~~= trimmed_args(pre).push(
                    trim_quotes(self.runtime_args@[i as int]@),
                ));
                assert(r.deep_view() =~~= seq![self.runtime_path@] + trimmed_args(p1));
            }
            i = i + 1;
        }
        proof {
            assert(self.runtime_args.deep_view().subrange(0, i as int)
                =~= self.runtime_args.deep_view());
        }
        r.push(lit_bytes("create"));
        r.push(lit_bytes("--bundle"));
        r.push(dup_bytes(&self.bundle));
        r.push(lit_bytes("--pid-file"));
        r.push(dup_bytes(&self.pidfile));
        r.push(dup_bytes(&self.container_id));
        proof {
            assert(r.deep_view() =~~= argv_spec(
                self.runtime_path@,
                self.runtime_args.deep_view(),
                self.bundle@,
                self.pidfile@,
                self.container_id@,
            ));
        }
        r
    }
}

} // verus!
