//! Result model of the managed external process primitive.
//!
//! A managed run races process completion against a soft deadline; on expiry
//! a termination signal is sent and a fixed grace period is waited; a process
//! still alive after that is abandoned. Every run ends in exactly one of the
//! three terminal states of [`ProcessEnd`], and [`execution_result`] turns
//! that state into the uniform record handed to callers.

use vstd::prelude::*;

verus! {

/// The exit code reported for a run that had to be terminated and whose real
/// status could not be observed (conventional timeout exit code).
pub const TIMEOUT_EXIT_CODE: i32 = 124;

/// The fallback exit code for a process that finished on its own but whose
/// status carried no code.
pub const UNKNOWN_EXIT_CODE: i32 = 1;

/// Grace period, in seconds, between the termination signal and abandoning
/// an unkillable process.
pub const GRACE_PERIOD_SEC: u64 = 10;

/// Default soft deadline, in seconds, for script execution.
pub const DEFAULT_SCRIPT_TIMEOUT_SEC: u64 = 1800;

/// Default soft deadline, in seconds, for cable enumeration.
pub const DEFAULT_LIST_TIMEOUT_SEC: u64 = 20;

/// Default soft deadline, in seconds, for device programming.
pub const DEFAULT_PROGRAM_TIMEOUT_SEC: u64 = 120;

/// A caller-side input rejected before any process is spawned.
#[derive(Clone, Copy, Debug, PartialEq, Eq, Structural)]
pub enum ParamError {
    /// The caller supplied a zero soft deadline, which would time out at once.
    ZeroTimeout,
    /// Neither a script path nor inline script text was supplied.
    MissingTclSource,
    /// The programmer executable does not exist at the resolved path.
    MissingProgrammer,
    /// The bitstream artifact to program does not exist.
    MissingFsFile,
}

/// Uniform record of one managed external process run.
pub struct ExecOutcome {
    /// The process's exit status, the timeout sentinel, or the unknown-status
    /// fallback; never absent.
    pub exit_code: i32,
    /// Whether the process was asked to terminate before this record was
    /// produced.
    pub timed_out: bool,
    /// Wall-clock duration of the run in milliseconds.
    pub duration_ms: u128,
    /// Captured standard output, capped at the output ceiling.
    pub stdout: Vec<u8>,
    /// Captured standard error, capped at the output ceiling.
    pub stderr: Vec<u8>,
}

/// How a managed run came to an end: the three terminal states of the
/// two-tier timeout.
pub enum ProcessEnd {
    /// The process finished before the soft deadline; `code` is its exit
    /// status, when one was observable.
    Completed { code: Option<i32> },
    /// The soft deadline elapsed, the termination signal was sent, and the
    /// process exited within the grace period.
    KilledAfterTimeout { code: Option<i32> },
    /// The process had still not exited when the grace period ran out and
    /// its readers were abandoned.
    Unkillable,
}

/// Spec-level equality of two run records.
pub open spec fn outcome_eq(a: ExecOutcome, b: ExecOutcome) -> bool {
    &&& a.exit_code == b.exit_code
    &&& a.timed_out == b.timed_out
    &&& a.duration_ms == b.duration_ms
    &&& a.stdout@ == b.stdout@
    &&& a.stderr@ == b.stderr@
}

/// Builds the uniform result record for a run that ended as `end` says.
///
/// A completed run reports its real exit code (falling back to
/// `UNKNOWN_EXIT_CODE`) and `timed_out == false`. A run killed after the soft
/// deadline reports its real exit code (falling back to `TIMEOUT_EXIT_CODE`)
/// and `timed_out == true`. An unkillable run reports `TIMEOUT_EXIT_CODE`,
/// `timed_out == true`, and empty output: what its readers captured is not
/// returned.
pub fn execution_result(end: ProcessEnd, duration_ms: u128, stdout: Vec<u8>, stderr: Vec<u8>) -> (
    r: ExecOutcome)
    ensures
        r.duration_ms == duration_ms,
        r.timed_out == !(end is Completed),
        match end {
            ProcessEnd::Completed { code } => {
                &&& r.exit_code == if code is Some {
                    code.unwrap()
                } else {
                    UNKNOWN_EXIT_CODE
                }
                &&& r.stdout@ == stdout@
                &&& r.stderr@ == stderr@
            },
            ProcessEnd::KilledAfterTimeout { code } => {
                &&& r.exit_code == if code is Some {
                    code.unwrap()
                } else {
                    TIMEOUT_EXIT_CODE
                }
                &&& r.stdout@ == stdout@
                &&& r.stderr@ == stderr@
            },
            ProcessEnd::Unkillable => {
                &&& r.exit_code == TIMEOUT_EXIT_CODE
                &&& r.stdout@ == Seq::<u8>::empty()
                &&& r.stderr@ == Seq::<u8>::empty()
            },
        },
{
    match end {
        ProcessEnd::Completed { code } => {
            let exit_code = match code {
                Option::Some(c) => c,
                Option::None => UNKNOWN_EXIT_CODE,
            };
            ExecOutcome { exit_code, timed_out: false, duration_ms, stdout, stderr }
        },
        ProcessEnd::KilledAfterTimeout { code } => {
            let exit_code = match code {
                Option::Some(c) => c,
                Option::None => TIMEOUT_EXIT_CODE,
            };
            ExecOutcome { exit_code, timed_out: true, duration_ms, stdout, stderr }
        },
        ProcessEnd::Unkillable => {
            let empty_out: Vec<u8> = Vec::new();
            let empty_err: Vec<u8> = Vec::new();
            ExecOutcome {
                exit_code: TIMEOUT_EXIT_CODE,
                timed_out: true,
                duration_ms,
                stdout: empty_out,
                stderr: empty_err,
            }
        },
    }
}

/// The record substituted when spawning an enumeration attempt fails: such a
/// failure is absorbed as a plain failing run, not propagated.
pub fn absorbed_spawn_failure() -> (r: ExecOutcome)
    ensures
        r.exit_code == UNKNOWN_EXIT_CODE,
        !r.timed_out,
        r.duration_ms == 0,
        r.stdout@ == Seq::<u8>::empty(),
        r.stderr@ == Seq::<u8>::empty(),
{
    ExecOutcome {
        exit_code: UNKNOWN_EXIT_CODE,
        timed_out: false,
        duration_ms: 0,
        stdout: Vec::new(),
        stderr: Vec::new(),
    }
}

/// Resolves the caller-supplied soft deadline against an operation's
/// default. A supplied zero is a parameter error; an absent value means the
/// default.
pub fn effective_timeout(requested: Option<u64>, default: u64) -> (r: Result<u64, ParamError>)
    requires
        default >= 1,
    ensures
        match r {
            Result::Ok(t) => t >= 1 && t == (if requested is Some {
                requested.unwrap()
            } else {
                default
            }),
            Result::Err(e) => e == ParamError::ZeroTimeout && requested == Option::Some(0u64),
        },
{
    match requested {
        Option::Some(t) => {
            if t == 0 {
                Result::Err(ParamError::ZeroTimeout)
            } else {
                Result::Ok(t)
            }
        },
        Option::None => Result::Ok(default),
    }
}

/// The script to run: an existing file, or inline text to be materialised by
/// the caller.
pub enum TclSource {
    /// A path to a script file, resolved by the caller against the project
    /// root.
    Path(Vec<u8>),
    /// Inline script text.
    Inline(Vec<u8>),
}

/// Picks the script source for a script-execution request: an explicit path
/// wins over inline text, and supplying neither is a parameter error.
pub fn choose_tcl_source(tcl_path: Option<Vec<u8>>, tcl_inline: Option<Vec<u8>>) -> (r: Result<
    TclSource,
    ParamError,
>)
    ensures
        match r {
            Result::Ok(s) => match s {
                TclSource::Path(p) => tcl_path is Some && p@ == tcl_path.unwrap()@,
                TclSource::Inline(t) => tcl_path is None && tcl_inline is Some && t@
                    == tcl_inline.unwrap()@,
            },
            Result::Err(e) => e == ParamError::MissingTclSource && tcl_path is None
                && tcl_inline is None,
        },
{
    match tcl_path {
        Option::Some(p) => Result::Ok(TclSource::Path(p)),
        Option::None => match tcl_inline {
            Option::Some(t) => Result::Ok(TclSource::Inline(t)),
            Option::None => Result::Err(ParamError::MissingTclSource),
        },
    }
}

} // verus!
