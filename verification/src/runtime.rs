//! The doctor's runtime settings: the command runner's and the
//! orchestrator's time budgets, the process scanner, the context every
//! detector reads, how a detector can fail, how the failures are
//! listed, and how a `/proc` scan recognises a binary's processes.
use std::collections::HashMap;
use std::time::Duration;
use crate::managed::{lemma_lt_irreflexive, lemma_lt_total, lemma_lt_transitive, lt_chars, seq_lt};
use crate::text::chars_of;
use vstd::prelude::*;

verus! {

/// Runs programs with a per-call time limit.
#[derive(Debug)]
pub struct TokioCommandRunner {
    pub timeout: Duration,
}

impl TokioCommandRunner {
    /// A runner with the given per-call limit.
    pub fn with_timeout(timeout: Duration) -> (r: TokioCommandRunner)
        ensures
            r.timeout == timeout,
    {
        TokioCommandRunner { timeout }
    }
}

/// Finds running processes by walking `/proc`.
#[derive(Debug, Default, Clone, Copy)]
pub struct ProcfsScanner;

impl ProcfsScanner {
    pub fn new() -> (s: ProcfsScanner) {
        ProcfsScanner
    }
}

/// The orchestrator's settings: the budget for all detectors together.
#[derive(Debug)]
pub struct OrchestratorConfig {
    pub total_timeout: Duration,
}

/// How a detector failed.
#[derive(Debug)]
pub enum DetectorError {
    /// It ran past its time limit.
    Timeout(Duration),
    /// It panicked.
    Panicked,
    /// Anything else, described.
    Other(String),
}

/// What every detector reads: the environment, an optional root that
/// file paths are resolved under (tests), and the `--app` argument.
#[derive(Debug, Clone, Default)]
pub struct DetectorContext {
    pub env: HashMap<String, String>,
    pub sysroot: Option<String>,
    pub target_app: Option<String>,
}


/// A detector that failed, and why.
#[derive(Debug, Clone)]
pub struct Anomaly {
    pub detector: String,
    pub reason: String,
}

/// Where an anomaly goes among anomalies sorted by detector id: before
/// the first one whose id is larger, so after every one with the same id.
pub open spec fn anomaly_pos(o: Seq<Anomaly>, x: Anomaly) -> int
    decreases o.len(),
{
    if o.len() == 0 {
        0
    } else {
        let k = anomaly_pos(o.drop_last(), x);
        if k < o.len() - 1 {
            k
        } else if seq_lt(x.detector@, o.last().detector@) {
            o.len() - 1
        } else {
            o.len() as int
        }
    }
}

/// The anomalies sorted by detector id, those of one detector in the
/// order they came (a stable sort).
pub open spec fn anomalies_sorted_spec(s: Seq<Anomaly>) -> Seq<Anomaly>
    decreases s.len(),
{
    if s.len() == 0 {
        seq![]
    } else {
        let r = anomalies_sorted_spec(s.drop_last());
        r.insert(anomaly_pos(r, s.last()), s.last())
    }
}

proof fn lemma_anomaly_pos(o: Seq<Anomaly>, x: Anomaly, k: int)
    requires
        0 <= k <= o.len(),
        forall|j: int| 0 <= j < k ==> !seq_lt(x.detector@, (#[trigger] o[j]).detector@),
        k < o.len() ==> seq_lt(x.detector@, o[k].detector@),
    ensures
        anomaly_pos(o, x) == k,
    decreases o.len(),
{
    if o.len() > 0 {
        let d = o.drop_last();
        if k < o.len() - 1 {
            assert(d[k] == o[k]);
            lemma_anomaly_pos(d, x, k);
        } else {
            lemma_anomaly_pos(d, x, d.len() as int);
        }
    }
}

/// Sorts anomalies by detector id so a report lists them the same way
/// whatever order the detectors finished in.
pub fn sort_anomalies(anomalies: Vec<Anomaly>) -> (r: Vec<Anomaly>)
    ensures
        r@ == anomalies_sorted_spec(anomalies@),
        forall|i: int, j: int| 0 <= i < j < r@.len() ==> !seq_lt((#[trigger] r@[j]).detector@, (#[trigger] r@[i]).detector@),
{
    let ghost all = anomalies@;
    assert(all.len() == anomalies.len());
    let mut out: Vec<Anomaly> = Vec::new();
    let mut rest = anomalies;
    assert(all.take(0) =~= Seq::<Anomaly>::empty());
    let mut i: usize = 0;
    while rest.len() > 0
        invariant
            all.len() <= usize::MAX,
            i + rest@.len() == all.len(),
            rest@ == all.skip(i as int),
            out@ == anomalies_sorted_spec(all.take(i as int)),
            forall|a: int, b: int| 0 <= a < b < out@.len() ==> !seq_lt((#[trigger] out@[b]).detector@, (#[trigger] out@[a]).detector@),
        decreases rest@.len(),
    {
        let x = rest.remove(0);
        assert(x == all[i as int]);
        assert(all.take(i + 1).drop_last() =~= all.take(i as int));
        assert(all.take(i + 1).last() == all[i as int]);
        let ghost o = out@;
        let xd = chars_of(x.detector.as_str());
        let mut k: usize = 0;
        while k < out.len() && !lt_chars(&xd, &chars_of(out[k].detector.as_str()))
            invariant
                k <= out.len(),
                out@ == o,
                xd@ == x.detector@,
                forall|j: int| 0 <= j < k ==> !seq_lt(x.detector@, (#[trigger] o[j]).detector@),
            decreases out.len() - k,
        {
            k += 1;
        }
        proof {
            lemma_anomaly_pos(o, x, k as int);
        }
        out.insert(k, x);
        assert(out@ =~= o.insert(k as int, x));
        assert forall|a: int, b: int| 0 <= a < b < out@.len() implies !seq_lt((#[trigger] out@[b]).detector@, (#[trigger] out@[a]).detector@) by {
            if b < k {
                assert(out@[a] == o[a] && out@[b] == o[b]);
            } else if b == k {
                assert(out@[a] == o[a]);
            } else if a == k {
                assert(out@[b] == o[b - 1]);
                if seq_lt(o[b - 1].detector@, x.detector@) {
                    if b - 1 > k {
                        lemma_lt_transitive(o[b - 1].detector@, x.detector@, o[k as int].detector@);
                    } else {
                        lemma_lt_total(x.detector@, o[k as int].detector@);
                        lemma_lt_transitive(o[b - 1].detector@, x.detector@, o[b - 1].detector@);
                        lemma_lt_irreflexive(o[b - 1].detector@);
                    }
                }
            } else if a < k {
                assert(out@[a] == o[a] && out@[b] == o[b - 1]);
            } else {
                assert(out@[a] == o[a - 1] && out@[b] == o[b - 1]);
            }
        }
        assert(all.skip(i as int).skip(1) =~= all.skip(i + 1));
        i += 1;
    }
    assert(all.take(i as int) =~= all);
    out
}


// ------------------------------------------------------------ process scan

/// The non-empty NUL-separated pieces of `s`, with `cur` the piece read
/// so far.
pub open spec fn args_acc(s: Seq<u8>, cur: Seq<u8>) -> Seq<Seq<u8>>
    decreases s.len(),
{
    if s.len() == 0 {
        if cur.len() > 0 { seq![cur] } else { seq![] }
    } else if s[0] == 0 {
        (if cur.len() > 0 { seq![cur] } else { seq![] }) + args_acc(s.drop_first(), seq![])
    } else {
        args_acc(s.drop_first(), cur.push(s[0]))
    }
}

pub open spec fn byte_views(v: Seq<Vec<u8>>) -> Seq<Seq<u8>> {
    Seq::new(v.len(), |i: int| v[i]@)
}

/// The arguments in a `/proc/<pid>/cmdline`: its NUL-separated pieces,
/// empty ones dropped.
pub fn cmdline_args(bytes: &[u8]) -> (r: Vec<Vec<u8>>)
    ensures
        byte_views(r@) == args_acc(bytes@, seq![]),
{
    let mut out: Vec<Vec<u8>> = Vec::new();
    let mut cur: Vec<u8> = Vec::new();
    let mut i: usize = 0;
    assert(bytes@.skip(0) =~= bytes@);
    assert(byte_views(out@) =~= Seq::<Seq<u8>>::empty());
    assert(Seq::<Seq<u8>>::empty() + args_acc(bytes@, seq![]) =~= args_acc(bytes@, seq![]));
    while i < bytes.len()
        invariant
            i <= bytes.len(),
            args_acc(bytes@, seq![]) == byte_views(out@) + args_acc(bytes@.skip(i as int), cur@),
        decreases bytes.len() - i,
    {
        let ghost rest = bytes@.skip(i as int);
        let ghost c0 = cur@;
        let ghost o0 = byte_views(out@);
        assert(rest.drop_first() =~= bytes@.skip(i + 1));
        assert(rest[0] == bytes@[i as int]);
        if bytes[i] == 0 {
            if cur.len() > 0 {
                out.push(cur);
                assert(byte_views(out@) =~= o0.push(c0));
                assert(o0 + (seq![c0] + args_acc(rest.drop_first(), seq![])) =~= o0.push(c0) + args_acc(rest.drop_first(), seq![]));
            } else {
                assert(o0 + (Seq::<Seq<u8>>::empty() + args_acc(rest.drop_first(), seq![])) =~= o0 + args_acc(rest.drop_first(), seq![]));
            }
            cur = Vec::new();
            assert(cur@ =~= Seq::<u8>::empty());
        } else {
            cur.push(bytes[i]);
        }
        i += 1;
    }
    assert(bytes@.skip(i as int) =~= Seq::<u8>::empty());
    if cur.len() > 0 {
        let ghost o0 = byte_views(out@);
        let ghost c0 = cur@;
        out.push(cur);
        assert(byte_views(out@) =~= o0 + seq![c0]);
    } else {
        assert(byte_views(out@) + Seq::<Seq<u8>>::empty() =~= byte_views(out@));
    }
    out
}

/// A `/proc` entry names a process when it is all ASCII digits.
pub fn is_pid_dir(name: &str) -> (b: bool)
    ensures
        b == forall|i: int| 0 <= i < name@.len() ==> '0' <= #[trigger] name@[i] <= '9',
{
    let c = chars_of(name);
    let mut i: usize = 0;
    while i < c.len()
        invariant
            i <= c.len(),
            c@ == name@,
            forall|j: int| 0 <= j < i ==> '0' <= #[trigger] name@[j] <= '9',
        decreases c.len() - i,
    {
        if !('0' <= c[i] && c[i] <= '9') {
            return false;
        }
        i += 1;
    }
    true
}

/// A process whose first argument is `argv0` runs `binary` when the two
/// are the same path, or when they name the same file (where the binary
/// has a file name).
pub open spec fn runs_binary_spec(argv0: Seq<char>, binary: Seq<char>) -> bool {
    let target = match crate::apps::file_name_spec(binary) {
        Some(n) => n,
        None => seq![],
    };
    let base = match crate::apps::file_name_spec(argv0) {
        Some(n) => n,
        None => argv0,
    };
    argv0 == binary || (target.len() > 0 && base == target)
}

/// Whether a process started as `argv0` runs `binary`.
pub fn runs_binary(argv0: &str, binary: &str) -> (b: bool)
    ensures
        b == runs_binary_spec(argv0@, binary@),
{
    let a = chars_of(argv0);
    let t = chars_of(binary);
    if crate::text::seq_eq(&a, &t) {
        return true;
    }
    let target = match crate::apps::file_name(&t) {
        Some(n) => n,
        None => Vec::new(),
    };
    let base = match crate::apps::file_name(&a) {
        Some(n) => n,
        None => crate::text::slice_of(&a, 0, a.len()),
    };
    assert(base@ == match crate::apps::file_name_spec(argv0@) {
        Some(n) => n,
        None => argv0@,
    }) by {
        if crate::apps::file_name_spec(argv0@) is None {
            assert(base@ =~= a@);
        }
    }
    target.len() > 0 && crate::text::seq_eq(&base, &target)
}

} // verus!
