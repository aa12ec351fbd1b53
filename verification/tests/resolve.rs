use gowin_flash::process::{ExecOutcome, ParamError};
use gowin_flash::resolve::CableResolution;

fn run(exit_code: i32, stdout: &[u8], stderr: &[u8]) -> ExecOutcome {
    ExecOutcome {
        exit_code,
        timed_out: false,
        duration_ms: 5,
        stdout: stdout.to_vec(),
        stderr: stderr.to_vec(),
    }
}

const FORMS: [&[u8]; 9] = [
    b"--list-cables",
    b"--list_cables",
    b"--cableList",
    b"--listCable",
    b"--cables",
    b"-l",
    b"--list",
    b"--scan",
    b"--enumerate",
];

#[test]
fn rejects_zero_timeout_and_missing_programmer() {
    assert!(matches!(
        CableResolution::new(0, true),
        Err(ParamError::ZeroTimeout)
    ));
    assert!(matches!(
        CableResolution::new(20, false),
        Err(ParamError::MissingProgrammer)
    ));
    // The zero deadline is rejected first.
    assert!(matches!(
        CableResolution::new(0, false),
        Err(ParamError::ZeroTimeout)
    ));
}

#[test]
fn tries_all_nine_forms_then_help_and_stops() {
    let mut m = CableResolution::new(20, true).unwrap();
    for form in FORMS.iter() {
        let args = m.next_args().expect("a form should be pending");
        assert_eq!(args, vec![form.to_vec()]);
        m.record(&run(1, b"unknown option", b""));
    }
    let args = m.next_args().expect("the help fallback should be pending");
    assert_eq!(args, vec![b"--help".to_vec()]);
    m.record(&run(1, b"Usage: programmer_cli\nCable: GowinUSBCable0", b""));
    assert!(m.finished);
    assert!(m.next_args().is_none());
    assert_eq!(m.attempts.len(), 10);
    assert_eq!(m.cables, vec![b"GowinUSBCable0".to_vec()]);
    for (i, a) in m.attempts.iter().enumerate() {
        assert_eq!(a.exit_code, 1);
        if i < 9 {
            assert_eq!(a.args, vec![FORMS[i].to_vec()]);
        } else {
            assert_eq!(a.args, vec![b"--help".to_vec()]);
        }
    }
}

#[test]
fn stops_at_first_successful_form_with_names() {
    let mut m = CableResolution::new(20, true).unwrap();
    let args = m.next_args().unwrap();
    assert_eq!(args, vec![b"--list-cables".to_vec()]);
    m.record(&run(0, b"Cable: GWU2X-A", b""));
    assert!(m.finished);
    assert_eq!(m.attempts.len(), 1);
    assert_eq!(m.cables, vec![b"GWU2X-A".to_vec()]);
}

#[test]
fn zero_exit_without_names_does_not_stop() {
    let mut m = CableResolution::new(20, true).unwrap();
    m.record(&run(0, b"nothing attached", b""));
    assert!(!m.finished);
    assert_eq!(m.attempts.len(), 1);
    assert!(m.cables.is_empty());
    assert_eq!(m.next_args().unwrap(), vec![b"--list_cables".to_vec()]);
}

#[test]
fn names_on_failing_exit_do_not_stop() {
    let mut m = CableResolution::new(20, true).unwrap();
    m.record(&run(2, b"Cable: GWU2X-A", b""));
    assert!(!m.finished);
    assert!(m.cables.is_empty());
}

#[test]
fn names_parsed_from_stderr_too() {
    let mut m = CableResolution::new(20, true).unwrap();
    m.record(&run(0, b"", b"found \"Gowin USB Cable(FT2232H)\""));
    assert!(m.finished);
    assert_eq!(m.attempts.len(), 1);
    assert_eq!(m.cables[0], b"Gowin USB Cable(FT2232H)".to_vec());
}

#[test]
fn empty_help_output_finishes_with_no_cables() {
    let mut m = CableResolution::new(20, true).unwrap();
    for _ in 0..9 {
        m.record(&run(1, b"", b""));
    }
    m.record(&run(0, b"no cables here", b""));
    assert!(m.finished);
    assert!(m.cables.is_empty());
    assert_eq!(m.attempts.len(), 10);
}
