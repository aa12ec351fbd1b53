use gowin_flash::cap_output;
use gowin_flash::process::{
    absorbed_spawn_failure, choose_tcl_source, effective_timeout, execution_result, ExecOutcome,
    ParamError, ProcessEnd, TclSource,
};
use gowin_flash::MAX_OUTPUT_BYTES;

fn outcome(end: ProcessEnd) -> ExecOutcome {
    execution_result(end, 42, b"out".to_vec(), b"err".to_vec())
}

#[test]
fn completed_run_reports_real_exit_code() {
    let r = outcome(ProcessEnd::Completed { code: Some(3) });
    assert_eq!(r.exit_code, 3);
    assert!(!r.timed_out);
    assert_eq!(r.duration_ms, 42);
    assert_eq!(r.stdout, b"out".to_vec());
    assert_eq!(r.stderr, b"err".to_vec());
}

#[test]
fn completed_run_without_status_falls_back_to_one() {
    let r = outcome(ProcessEnd::Completed { code: None });
    assert_eq!(r.exit_code, 1);
    assert!(!r.timed_out);
}

#[test]
fn killed_run_reports_real_exit_code_and_timeout_flag() {
    let r = outcome(ProcessEnd::KilledAfterTimeout { code: Some(9) });
    assert_eq!(r.exit_code, 9);
    assert!(r.timed_out);
}

#[test]
fn killed_run_without_status_reports_timeout_sentinel() {
    let r = outcome(ProcessEnd::KilledAfterTimeout { code: None });
    assert_eq!(r.exit_code, 124);
    assert!(r.timed_out);
}

#[test]
fn unkillable_run_reports_sentinel_and_empty_output() {
    // Even when the readers captured text, an abandoned run returns none of it.
    let r = outcome(ProcessEnd::Unkillable);
    assert_eq!(r.exit_code, 124);
    assert!(r.timed_out);
    assert!(r.stdout.is_empty());
    assert!(r.stderr.is_empty());
}

#[test]
fn spawn_failure_is_absorbed_as_plain_failure() {
    let r = absorbed_spawn_failure();
    assert_eq!(r.exit_code, 1);
    assert!(!r.timed_out);
    assert!(r.stdout.is_empty());
    assert!(r.stderr.is_empty());
}

#[test]
fn effective_timeout_rejects_zero_and_applies_default() {
    assert_eq!(effective_timeout(None, 1800), Ok(1800));
    assert_eq!(effective_timeout(Some(5), 1800), Ok(5));
    assert_eq!(effective_timeout(Some(0), 1800), Err(ParamError::ZeroTimeout));
}

#[test]
fn tcl_source_prefers_path_and_rejects_neither() {
    match choose_tcl_source(Some(b"run.tcl".to_vec()), Some(b"puts hi".to_vec())) {
        Ok(TclSource::Path(p)) => assert_eq!(p, b"run.tcl".to_vec()),
        _ => panic!("expected the path to win"),
    }
    match choose_tcl_source(None, Some(b"puts hi".to_vec())) {
        Ok(TclSource::Inline(t)) => assert_eq!(t, b"puts hi".to_vec()),
        _ => panic!("expected the inline text"),
    }
    assert!(matches!(
        choose_tcl_source(None, None),
        Err(ParamError::MissingTclSource)
    ));
}

#[test]
fn captured_output_is_capped() {
    let small = cap_output(b"abc".to_vec());
    assert_eq!(small, b"abc".to_vec());
    let big = vec![7u8; MAX_OUTPUT_BYTES + 5];
    let capped = cap_output(big);
    assert_eq!(capped.len(), MAX_OUTPUT_BYTES);
    assert!(capped.iter().all(|&b| b == 7));
}
