use gowin_flash::process::{ExecOutcome, ParamError};
use gowin_flash::program::{DeviceProgramming, Variant};

fn run(exit_code: i32, stdout: &[u8], stderr: &[u8]) -> ExecOutcome {
    ExecOutcome {
        exit_code,
        timed_out: false,
        duration_ms: 5,
        stdout: stdout.to_vec(),
        stderr: stderr.to_vec(),
    }
}

fn machine(explicit_cable: Option<&[u8]>) -> DeviceProgramming {
    DeviceProgramming::new(
        b"GW5A-25A".to_vec(),
        b"15MHz".to_vec(),
        b"/work/impl/pnr/top.fs".to_vec(),
        2,
        120,
        explicit_cable.map(|c| c.to_vec()),
        true,
        true,
    )
    .unwrap()
}

fn base_args() -> Vec<Vec<u8>> {
    vec![
        b"-r".to_vec(),
        b"2".to_vec(),
        b"--device".to_vec(),
        b"GW5A-25A".to_vec(),
        b"--fsFile".to_vec(),
        b"/work/impl/pnr/top.fs".to_vec(),
        b"--frequency".to_vec(),
        b"15MHz".to_vec(),
    ]
}

fn cable_args(cable: &[u8]) -> Vec<Vec<u8>> {
    vec![
        b"-r".to_vec(),
        b"2".to_vec(),
        b"--device".to_vec(),
        b"GW5A-25A".to_vec(),
        b"--cable".to_vec(),
        cable.to_vec(),
        b"--fsFile".to_vec(),
        b"/work/impl/pnr/top.fs".to_vec(),
        b"--frequency".to_vec(),
        b"15MHz".to_vec(),
    ]
}

#[test]
fn missing_fs_file_is_rejected_before_any_attempt() {
    let r = DeviceProgramming::new(
        b"GW5A-25A".to_vec(),
        b"15MHz".to_vec(),
        b"/work/impl/pnr/top.fs".to_vec(),
        2,
        120,
        None,
        false,
        true,
    );
    assert!(matches!(r, Err(ParamError::MissingFsFile)));
}

#[test]
fn zero_timeout_is_rejected_first() {
    let r = DeviceProgramming::new(
        b"d".to_vec(),
        b"f".to_vec(),
        b"p.fs".to_vec(),
        2,
        0,
        None,
        false,
        false,
    );
    assert!(matches!(r, Err(ParamError::ZeroTimeout)));
}

#[test]
fn missing_programmer_matters_only_without_explicit_cable() {
    let r = DeviceProgramming::new(
        b"d".to_vec(),
        b"f".to_vec(),
        b"p.fs".to_vec(),
        2,
        120,
        None,
        true,
        false,
    );
    assert!(matches!(r, Err(ParamError::MissingProgrammer)));
    let ok = DeviceProgramming::new(
        b"d".to_vec(),
        b"f".to_vec(),
        b"p.fs".to_vec(),
        2,
        120,
        Some(b"X".to_vec()),
        true,
        false,
    );
    assert!(ok.is_ok());
}

#[test]
fn explicit_cable_succeeds_first_try() {
    let mut m = machine(Some(b"GWU2X"));
    let args = m.next_command().expect("with-cable attempt pending");
    assert_eq!(args, cable_args(b"GWU2X"));
    m.record(run(0, b"done", b""));
    assert!(m.next_command().is_none());
    let outcome = m.finish();
    assert_eq!(outcome.selected_cable, Some(b"GWU2X".to_vec()));
    assert!(outcome.enumeration_attempts.is_none());
    assert_eq!(outcome.variants_tried.len(), 1);
    assert_eq!(outcome.variants_tried[0].label, Variant::WithCable);
    assert_eq!(outcome.variants_tried[0].exit_code, 0);
    assert_eq!(outcome.final_result.exit_code, 0);
}

#[test]
fn failing_without_cable_run_feeds_its_own_output_back() {
    let mut m = machine(Some(b"GWU2X"));
    assert_eq!(m.next_command().unwrap(), cable_args(b"GWU2X"));
    m.record(run(2, b"", b"no such cable"));

    assert_eq!(m.next_command().unwrap(), base_args());
    m.record(run(2, b"", b"Cable: \"FT2232H-A\""));

    // The late-discovered candidate drives the terminal retry.
    assert_eq!(m.next_command().unwrap(), cable_args(b"FT2232H-A"));
    m.record(run(0, b"ok", b""));

    assert!(m.next_command().is_none());
    let outcome = m.finish();
    assert_eq!(outcome.selected_cable, Some(b"FT2232H-A".to_vec()));
    let labels: Vec<Variant> = outcome.variants_tried.iter().map(|v| v.label).collect();
    assert_eq!(
        labels,
        vec![Variant::WithCable, Variant::WithoutCable, Variant::RetryCableFromOutput]
    );
    assert!(outcome.variants_tried.len() <= 3);
    assert_eq!(outcome.final_result.exit_code, 0);
}

#[test]
fn failing_runs_with_no_recoverable_name_stop_after_two_attempts() {
    let mut m = machine(Some(b"GWU2X"));
    m.record(run(2, b"", b"no such cable"));
    m.record(run(3, b"garbage", b""));
    assert!(m.next_command().is_none());
    let outcome = m.finish();
    assert_eq!(outcome.variants_tried.len(), 2);
    assert_eq!(outcome.final_result.exit_code, 3);
    assert_eq!(outcome.selected_cable, Some(b"GWU2X".to_vec()));
}

#[test]
fn successful_without_cable_run_does_not_retry() {
    let mut m = machine(Some(b"GWU2X"));
    m.record(run(2, b"", b""));
    // Even though this run's output holds a name, success stops the run.
    m.record(run(0, b"Cable: \"FT2232H-A\"", b""));
    assert!(m.next_command().is_none());
    let outcome = m.finish();
    assert_eq!(outcome.variants_tried.len(), 2);
    assert_eq!(outcome.variants_tried[1].label, Variant::WithoutCable);
    assert_eq!(outcome.final_result.exit_code, 0);
}

#[test]
fn enumeration_fallback_name_is_used_for_with_cable_attempt() {
    // No cable supplied; all nine enumeration forms fail; the help fallback
    // yields one name, which the with-cable variant then uses.
    let mut m = machine(None);
    for _ in 0..9 {
        let args = m.next_command().expect("enumeration form pending");
        assert_eq!(args.len(), 1);
        m.record(run(1, b"unknown option", b""));
    }
    assert_eq!(m.next_command().unwrap(), vec![b"--help".to_vec()]);
    m.record(run(1, b"Usage:\nCable: GowinUSBCable0", b""));

    let args = m.next_command().expect("with-cable attempt pending");
    assert_eq!(args, cable_args(b"GowinUSBCable0"));
    m.record(run(0, b"ok", b""));

    let outcome = m.finish();
    assert_eq!(outcome.selected_cable, Some(b"GowinUSBCable0".to_vec()));
    let attempts = outcome.enumeration_attempts.expect("enumeration ran");
    assert_eq!(attempts.len(), 10);
    assert_eq!(outcome.variants_tried.len(), 1);
    assert_eq!(outcome.variants_tried[0].label, Variant::WithCable);
}

#[test]
fn enumeration_with_no_names_programs_without_cable() {
    let mut m = machine(None);
    for _ in 0..10 {
        m.record(run(1, b"", b""));
    }
    assert_eq!(m.next_command().unwrap(), base_args());
    m.record(run(0, b"ok", b""));
    let outcome = m.finish();
    assert_eq!(outcome.selected_cable, None);
    assert_eq!(outcome.variants_tried.len(), 1);
    assert_eq!(outcome.variants_tried[0].label, Variant::WithoutCable);
}

#[test]
fn embedded_resolution_deadline_is_capped() {
    let m = machine(None);
    // The overall deadline is 120 s; cable enumeration is capped at 20 s.
    assert_eq!(m.resolution.timeout_sec, 20);
    let short = DeviceProgramming::new(
        b"d".to_vec(),
        b"f".to_vec(),
        b"p.fs".to_vec(),
        2,
        5,
        None,
        true,
        true,
    )
    .unwrap();
    assert_eq!(short.resolution.timeout_sec, 5);
}

#[test]
fn timed_out_attempt_counts_as_failure() {
    let mut m = machine(Some(b"GWU2X"));
    let timed_out = ExecOutcome {
        exit_code: 124,
        timed_out: true,
        duration_ms: 130_000,
        stdout: Vec::new(),
        stderr: Vec::new(),
    };
    m.record(timed_out);
    // The with-cable attempt timed out; the without-cable fallback runs next.
    assert_eq!(m.next_command().unwrap(), base_args());
    m.record(run(2, b"", b""));
    assert!(m.next_command().is_none());
    let outcome = m.finish();
    assert_eq!(outcome.variants_tried.len(), 2);
    assert_eq!(outcome.variants_tried[0].exit_code, 124);
    assert_eq!(outcome.final_result.exit_code, 2);
}

#[test]
fn retry_count_appears_in_decimal() {
    let mut m = DeviceProgramming::new(
        b"d".to_vec(),
        b"f".to_vec(),
        b"p.fs".to_vec(),
        37,
        120,
        Some(b"X".to_vec()),
        true,
        true,
    )
    .unwrap();
    let args = m.next_command().unwrap();
    assert_eq!(args[0], b"-r".to_vec());
    assert_eq!(args[1], b"37".to_vec());
    m.record(run(0, b"", b""));
}
