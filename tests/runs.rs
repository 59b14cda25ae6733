use ptrscan::error::Error;
use ptrscan::scan::{run, LookupOutcome, RunSummary, Scan};

fn resolved(names: &[&str]) -> LookupOutcome {
    LookupOutcome::Resolved(names.iter().map(|s| s.to_string()).collect())
}

#[test]
fn all_no_record() {
    let outs = vec![LookupOutcome::NoRecord, LookupOutcome::NoRecord, LookupOutcome::NoRecord];
    let r = run(3, &outs);
    assert_eq!(r.summary, RunSummary { total: 3, successful: 0, failed: 3 });
    assert!(r.lines.is_empty());
    assert!(r.status.is_ok());
}

#[test]
fn fatal_after_resolved_keeps_earlier_lines() {
    let outs = vec![
        resolved(&["a.example.", "b.example."]),
        resolved(&["c.example"]),
        LookupOutcome::Fatal,
        resolved(&["d.example."]),
        LookupOutcome::NoRecord,
    ];
    let r = run(5, &outs);
    assert_eq!(r.lines, vec!["a.example", "b.example", "c.example"]);
    assert_eq!(r.summary, RunSummary { total: 5, successful: 2, failed: 0 });
    assert_eq!(r.status, Err(Error::ResolveError));
}

#[test]
fn mixed_run_counts_hosts_not_names() {
    let outs = vec![
        resolved(&["x.example.", "y.example."]),
        LookupOutcome::NoRecord,
        resolved(&["z.example."]),
    ];
    let r = run(3, &outs);
    assert_eq!(r.summary, RunSummary { total: 3, successful: 2, failed: 1 });
    assert_eq!(r.lines, vec!["x.example", "y.example", "z.example"]);
    assert!(r.status.is_ok());
}

#[test]
fn empty_run() {
    let r = run(0, &Vec::new());
    assert_eq!(r.summary, RunSummary { total: 0, successful: 0, failed: 0 });
    assert!(r.lines.is_empty());
    assert!(r.status.is_ok());
}

#[test]
fn scan_steps() {
    let mut scan = Scan::new(3);
    assert!(!scan.is_finished());
    assert_eq!(scan.record(&resolved(&["host.example."])).unwrap(), vec!["host.example"]);
    assert!(scan.record(&LookupOutcome::NoRecord).unwrap().is_empty());
    assert!(!scan.is_finished());
    assert_eq!(scan.summary(), RunSummary { total: 3, successful: 1, failed: 1 });
    assert_eq!(scan.record(&LookupOutcome::Fatal), Err(Error::ResolveError));
    assert!(scan.is_finished());
    assert_eq!(scan.summary(), RunSummary { total: 3, successful: 1, failed: 1 });
}

#[test]
fn scan_finishes_when_hosts_run_out() {
    let mut scan = Scan::new(1);
    assert!(scan.record(&LookupOutcome::NoRecord).unwrap().is_empty());
    assert!(scan.is_finished());
}
