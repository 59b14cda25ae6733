use vstd::prelude::*;
use crate::error::Error;
use crate::text::{strip_dot_spec, strip_one_trailing_dot};

verus! {

/// What the reverse lookup of one host came back with.
#[derive(Clone, Debug)]
pub enum LookupOutcome {
    /// The names the resolver gave, as it gave them.
    Resolved(Vec<String>),
    /// The resolver has no name for the host.
    NoRecord,
    /// Any other failure: the run cannot go on.
    Fatal,
}

/// The counters of a run.
#[derive(Clone, Copy, Debug, PartialEq, Eq)]
pub struct RunSummary {
    pub total: u64,
    pub successful: u64,
    pub failed: u64,
}

/// Where a run stands after a sequence of outcomes.
pub struct Progress {
    pub successful: nat,
    pub failed: nat,
    pub lines: Seq<Seq<char>>,
    pub aborted: bool,
}

/// The output lines of one outcome: each resolved name without its final dot.
pub open spec fn outcome_lines(o: LookupOutcome) -> Seq<Seq<char>> {
    match o {
        LookupOutcome::Resolved(names) => names@.map_values(|n: String| strip_dot_spec(n@)),
        _ => Seq::empty(),
    }
}

/// The output lines of a sequence of outcomes, in order.
pub open spec fn all_lines(outs: Seq<LookupOutcome>) -> Seq<Seq<char>>
    decreases outs.len(),
{
    if outs.len() == 0 {
        Seq::empty()
    } else {
        all_lines(outs.drop_last()) + outcome_lines(outs.last())
    }
}

/// The run after taking `outs` in order: a resolved host counts as one
/// success and gives its lines, a missing record counts as one failure, and
/// the first fatal outcome ends the run, so that nothing after it counts.
pub open spec fn progress(outs: Seq<LookupOutcome>) -> Progress
    decreases outs.len(),
{
    if outs.len() == 0 {
        Progress { successful: 0, failed: 0, lines: Seq::empty(), aborted: false }
    } else {
        let prev = progress(outs.drop_last());
        if prev.aborted {
            prev
        } else {
            match outs.last() {
                LookupOutcome::Resolved(_) => Progress {
                    successful: prev.successful + 1,
                    lines: prev.lines + outcome_lines(outs.last()),
                    ..prev
                },
                LookupOutcome::NoRecord => Progress { failed: prev.failed + 1, ..prev },
                LookupOutcome::Fatal => Progress { aborted: true, ..prev },
            }
        }
    }
}

/// Strips one trailing dot from each name.
pub fn strip_names(names: &Vec<String>) -> (r: Vec<String>)
    ensures
        r@.map_values(|n: String| n@) == names@.map_values(|n: String| strip_dot_spec(n@)),
{
    let mut out: Vec<String> = Vec::new();
    let mut i: usize = 0;
    while i < names.len()
        invariant
            i <= names.len(),
            out@.map_values(|n: String| n@) == names@.take(i as int).map_values(
                |n: String| strip_dot_spec(n@),
            ),
        decreases names.len() - i,
    {
        let ghost before = out@.map_values(|n: String| n@);
        let s = strip_one_trailing_dot(names[i].as_str());
        out.push(s);
        assert(names@.take(i + 1).map_values(|n: String| strip_dot_spec(n@)) =~= before.push(
            s@,
        ));
        i = i + 1;
    }
    assert(names@.take(names.len() as int) =~= names@);
    out
}

/// The bookkeeping of a scan: it takes the outcome of each host in turn and
/// says what to write and whether to go on.
pub struct Scan {
    pub total: u64,
    pub successful: u64,
    pub failed: u64,
    pub aborted: bool,
    /// The outcomes taken so far.
    pub history: Ghost<Seq<LookupOutcome>>,
}

impl Scan {
    pub open spec fn wf(&self) -> bool {
        let p = progress(self.history@);
        &&& self.successful == p.successful
        &&& self.failed == p.failed
        &&& self.aborted == p.aborted
        &&& self.successful + self.failed <= self.total
    }

    /// The scan takes another outcome: it has not ended on a fatal one and
    /// has hosts left.
    pub open spec fn accepts(&self) -> bool {
        !self.aborted && self.successful + self.failed < self.total
    }

    /// A scan of `total` hosts, none looked up yet.
    pub fn new(total: u64) -> (r: Scan)
        ensures
            r.wf(),
            r.total == total,
            r.history@ == Seq::<LookupOutcome>::empty(),
            r.successful == 0,
            r.failed == 0,
            !r.aborted,
    {
        Scan { total, successful: 0, failed: 0, aborted: false, history: Ghost(Seq::empty()) }
    }

    /// Whether the scan takes no more outcomes.
    pub fn is_finished(&self) -> (r: bool)
        requires
            self.wf(),
        ensures
            r == !self.accepts(),
    {
        self.aborted || self.successful + self.failed >= self.total
    }

    /// The counters so far.
    pub fn summary(&self) -> (r: RunSummary)
        ensures
            r == (RunSummary {
                total: self.total,
                successful: self.successful,
                failed: self.failed,
            }),
    {
        RunSummary { total: self.total, successful: self.successful, failed: self.failed }
    }

    /// Takes the outcome of the next host. A resolution gives the lines to
    /// write; a missing record gives none; a fatal outcome ends the scan with
    /// `ResolveError`.
    pub fn record(&mut self, outcome: &LookupOutcome) -> (r: Result<Vec<String>, Error>)
        requires
            old(self).wf(),
            old(self).accepts(),
        ensures
            final(self).wf(),
            final(self).total == old(self).total,
            final(self).history@ == old(self).history@.push(*outcome),
            match *outcome {
                LookupOutcome::Resolved(_) => {
                    &&& r is Ok
                    &&& r->Ok_0@.map_values(|n: String| n@) == outcome_lines(*outcome)
                    &&& final(self).successful == old(self).successful + 1
                    &&& final(self).failed == old(self).failed
                    &&& !final(self).aborted
                },
                LookupOutcome::NoRecord => {
                    &&& r is Ok
                    &&& r->Ok_0@.len() == 0
                    &&& final(self).successful == old(self).successful
                    &&& final(self).failed == old(self).failed + 1
                    &&& !final(self).aborted
                },
                LookupOutcome::Fatal => {
                    &&& r is Err
                    &&& r->Err_0 is ResolveError
                    &&& final(self).successful == old(self).successful
                    &&& final(self).failed == old(self).failed
                    &&& final(self).aborted
                },
            },
    {
        let ghost h = self.history@.push(*outcome);
        assert(h.drop_last() =~= self.history@);
        match outcome {
            LookupOutcome::Resolved(names) => {
                let lines = strip_names(names);
                self.successful = self.successful + 1;
                self.history = Ghost(h);
                Ok(lines)
            },
            LookupOutcome::NoRecord => {
                self.failed = self.failed + 1;
                self.history = Ghost(h);
                Ok(Vec::new())
            },
            LookupOutcome::Fatal => {
                self.aborted = true;
                self.history = Ghost(h);
                Err(Error::ResolveError)
            },
        }
    }
}

/// What a whole run gave: its counters, the lines to write, in order, and
/// whether it ended on a fatal outcome.
pub struct RunReport {
    pub summary: RunSummary,
    pub lines: Vec<String>,
    pub status: Result<(), Error>,
}

/// Takes the outcomes of a scan of `total` hosts in order, as the hosts were
/// listed, and stops at the first fatal one.
pub fn run(total: u64, outcomes: &Vec<LookupOutcome>) -> (r: RunReport)
    requires
        outcomes@.len() <= total,
    ensures
        r.summary.total == total,
        r.summary.successful == progress(outcomes@).successful,
        r.summary.failed == progress(outcomes@).failed,
        r.lines@.map_values(|n: String| n@) == progress(outcomes@).lines,
        r.status is Err <==> progress(outcomes@).aborted,
        r.status is Err ==> r.status->Err_0 is ResolveError,
        r.status is Ok ==> r.summary.successful + r.summary.failed == outcomes@.len(),
{
    let mut scan = Scan::new(total);
    let mut lines: Vec<String> = Vec::new();
    let mut status: Result<(), Error> = Ok(());
    let mut i: usize = 0;
    assert(outcomes@.take(0) =~= Seq::<LookupOutcome>::empty());
    assert(lines@.map_values(|n: String| n@) =~= Seq::<Seq<char>>::empty());
    while i < outcomes.len()
        invariant
            scan.wf(),
            scan.total == total,
            i <= outcomes@.len() <= total,
            scan.successful + scan.failed <= i,
            progress(outcomes@.take(i as int)) == progress(scan.history@),
            !scan.aborted ==> scan.history@ == outcomes@.take(i as int),
            lines@.map_values(|n: String| n@) == progress(outcomes@.take(i as int)).lines,
            status is Err <==> scan.aborted,
            status is Err ==> status->Err_0 is ResolveError,
        decreases outcomes.len() - i,
    {
        assert(outcomes@.take(i + 1).drop_last() =~= outcomes@.take(i as int));
        assert(outcomes@.take(i + 1).last() == outcomes@[i as int]);
        if !scan.aborted {
            assert(outcomes@.take(i as int).push(outcomes@[i as int]) =~= outcomes@.take(i + 1));
            match scan.record(&outcomes[i]) {
                Ok(mut more) => {
                    let ghost before = lines@.map_values(|n: String| n@);
                    let ghost added = more@.map_values(|n: String| n@);
                    lines.append(&mut more);
                    assert(lines@.map_values(|n: String| n@) =~= before + added);
                },
                Err(e) => {
                    status = Err(e);
                },
            }
        }
        i = i + 1;
    }
    assert(outcomes@.take(outcomes@.len() as int) =~= outcomes@);
    proof {
        lemma_counts(outcomes@);
    }
    RunReport { summary: scan.summary(), lines, status }
}

/// Every outcome taken counts once at most; a run that did not end on a
/// fatal outcome counts every host it took, as a success or a failure.
pub proof fn lemma_counts(outs: Seq<LookupOutcome>)
    ensures
        progress(outs).successful + progress(outs).failed <= outs.len(),
        !progress(outs).aborted ==> progress(outs).successful + progress(outs).failed == outs.len(),
    decreases outs.len(),
{
    if outs.len() > 0 {
        lemma_counts(outs.drop_last());
    }
}

/// A run in which no host has a record counts every host as failed, writes
/// nothing and ends normally.
pub proof fn lemma_all_no_record(outs: Seq<LookupOutcome>)
    requires
        forall|i: int| 0 <= i < outs.len() ==> #[trigger] outs[i] is NoRecord,
    ensures
        progress(outs).successful == 0,
        progress(outs).failed == outs.len(),
        progress(outs).lines.len() == 0,
        !progress(outs).aborted,
    decreases outs.len(),
{
    if outs.len() > 0 {
        let prev = outs.drop_last();
        assert forall|i: int| 0 <= i < prev.len() implies #[trigger] prev[i] is NoRecord by {
            assert(prev[i] == outs[i]);
        }
        lemma_all_no_record(prev);
        assert(outs.last() == outs[outs.len() - 1]);
    }
}

/// A run of resolved hosts counts each as a success and writes their lines.
proof fn lemma_all_resolved(outs: Seq<LookupOutcome>)
    requires
        forall|i: int| 0 <= i < outs.len() ==> #[trigger] outs[i] is Resolved,
    ensures
        progress(outs).successful == outs.len(),
        progress(outs).failed == 0,
        progress(outs).lines == all_lines(outs),
        !progress(outs).aborted,
    decreases outs.len(),
{
    if outs.len() > 0 {
        let prev = outs.drop_last();
        assert forall|i: int| 0 <= i < prev.len() implies #[trigger] prev[i] is Resolved by {
            assert(prev[i] == outs[i]);
        }
        lemma_all_resolved(prev);
        assert(outs.last() == outs[outs.len() - 1]);
    }
}

/// Once a run has ended, later outcomes change nothing.
proof fn lemma_abort_sticks(outs: Seq<LookupOutcome>, n: int)
    requires
        0 <= n <= outs.len(),
        progress(outs.take(n)).aborted,
    ensures
        progress(outs) == progress(outs.take(n)),
    decreases outs.len() - n,
{
    if outs.len() == n {
        assert(outs.take(n) =~= outs);
    } else {
        let prev = outs.drop_last();
        assert(prev.take(n) =~= outs.take(n));
        lemma_abort_sticks(prev, n);
    }
}

/// When host `k` is the first whose lookup fails fatally and all before it
/// resolved, the run writes exactly the lines of hosts `0..k`, in order,
/// counts `k` successes and no failure, and ends with an error.
pub proof fn lemma_fatal_ends_run(outs: Seq<LookupOutcome>, k: int)
    requires
        0 <= k < outs.len(),
        outs[k] is Fatal,
        forall|j: int| 0 <= j < k ==> #[trigger] outs[j] is Resolved,
    ensures
        progress(outs).successful == k,
        progress(outs).failed == 0,
        progress(outs).lines == all_lines(outs.take(k)),
        progress(outs).aborted,
{
    let pre = outs.take(k);
    assert forall|j: int| 0 <= j < pre.len() implies #[trigger] pre[j] is Resolved by {
        assert(pre[j] == outs[j]);
    }
    lemma_all_resolved(pre);
    assert(outs.take(k + 1).drop_last() =~= pre);
    assert(outs.take(k + 1).last() == outs[k]);
    lemma_abort_sticks(outs, k + 1);
}

} // verus!
