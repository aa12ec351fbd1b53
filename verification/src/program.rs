//! The device-programming protocol: program a bitstream despite an
//! unreliable programmer CLI, with a layered cable-selection fallback.
//!
//! A run first selects a cable: the caller's explicit name, or the first
//! name discovered by the embedded cable-resolution protocol. Programming is
//! then attempted with the cable flag, then without it, and — when the
//! without-cable run fails but its own output yields a cable name — once
//! more with that late-discovered name. The run stops at the first attempt
//! that exits zero, and never makes more than three programming attempts.
//! Attempts are strictly sequential: the cable and programmer are singular
//! hardware.

use vstd::prelude::*;
use vstd::string::StrSliceExecFns;
use vstd::string::StringSliceAdditionalSpecFns;

use crate::heuristics::{parse_cable_names, parse_cables, views};
use crate::process::{outcome_eq, ExecOutcome, ParamError, DEFAULT_LIST_TIMEOUT_SEC};
use crate::resolve::{combine_output, combined, enum_form, Attempt, CableResolution};

verus! {

/// The label of one programming attempt.
#[derive(Clone, Copy, Debug, PartialEq, Eq)]
pub enum Variant {
    /// The fixed argument template with the selected cable flag inserted.
    WithCable,
    /// The fixed argument template alone.
    WithoutCable,
    /// The template with the cable name recovered from the failing
    /// without-cable run's own output.
    RetryCableFromOutput,
}

/// One recorded programming attempt: which variant ran and how it exited.
#[derive(Clone, Copy, Debug, PartialEq, Eq)]
pub struct VariantTried {
    pub label: Variant,
    pub exit_code: i32,
}

/// Where a programming run stands.
#[derive(Clone, Copy, Debug, PartialEq, Eq)]
pub enum Phase {
    /// The embedded cable-resolution protocol is still running.
    Resolving,
    /// Next: program with the selected cable flag.
    WithCable,
    /// Next: program without a cable flag.
    WithoutCable,
    /// Next: program once more with the late-discovered cable name.
    RetryFromOutput,
    /// The run is over; the last attempt's record is the final result.
    Done,
}

/// The decimal digits of `n`.
pub open spec fn dec_rep(n: nat) -> Seq<u8>
    decreases n,
{
    if n < 10 {
        seq![(48 + n) as u8]
    } else {
        dec_rep(n / 10).push((48 + n % 10) as u8)
    }
}

/// Formats a retry count as its decimal digits.
fn u32_to_dec(n: u32) -> (r: Vec<u8>)
    ensures
        r@ == dec_rep(n as nat),
    decreases n,
{
    if n < 10 {
        let mut v: Vec<u8> = Vec::new();
        v.push(48 + (n as u8));
        proof {
            assert(v@ =~= dec_rep(n as nat));
        }
        v
    } else {
        let mut v = u32_to_dec(n / 10);
        v.push(48 + ((n % 10) as u8));
        proof {
            assert(v@ =~= dec_rep((n / 10) as nat).push((48 + (n as nat) % 10) as u8));
        }
        v
    }
}

/// Copy of a byte string.
fn clone_bytes(s: &[u8]) -> (r: Vec<u8>)
    ensures
        r@ == s@,
{
    let mut r: Vec<u8> = Vec::new();
    let mut k: usize = 0;
    let n = s.len();
    while k < n
        invariant
            n == s@.len(),
            0 <= k <= n,
            r@ == s@.take(k as int),
        decreases n - k,
    {
        r.push(s[k]);
        proof {
            assert(s@.take(k + 1) =~= s@.take(k as int).push(s@[k as int]));
        }
        k += 1;
    }
    proof {
        assert(s@.take(n as int) =~= s@);
    }
    r
}

/// The view of an optional byte string.
pub open spec fn opt_view(o: Option<Vec<u8>>) -> Option<Seq<u8>> {
    match o {
        Option::Some(v) => Option::Some(v@),
        Option::None => Option::None,
    }
}

/// The device-programming state machine. The caller repeatedly asks for the
/// next command's arguments, runs the programmer executable, and feeds the
/// run's record back.
pub struct DeviceProgramming {
    /// Target device identifier, passed through verbatim.
    pub device: Vec<u8>,
    /// Programming frequency, passed through verbatim.
    pub frequency: Vec<u8>,
    /// Absolute path of the bitstream artifact.
    pub fs_path: Vec<u8>,
    /// Retry count handed to the programmer.
    pub retries: u32,
    /// Soft deadline, in seconds, for each programming run.
    pub timeout_sec: u64,
    /// The embedded cable-resolution protocol.
    pub resolution: CableResolution,
    /// Whether cable selection went through the resolution protocol (no
    /// explicit cable was supplied).
    pub used_enumeration: bool,
    /// The cable name the cable flag carries, once one is selected.
    pub selected_cable: Option<Vec<u8>>,
    /// A cable name recovered from the failing without-cable run's output.
    pub late_cable: Option<Vec<u8>>,
    /// Where the run stands.
    pub phase: Phase,
    /// Every programming attempt made, in order.
    pub tried: Vec<VariantTried>,
    /// The record of the last programming attempt.
    pub final_result: Option<ExecOutcome>,
}

impl DeviceProgramming {
    /// Structural invariant: at most three programming attempts are ever
    /// recorded; the final result is exactly the last attempt's record; the
    /// retry variant is only ever pending after a failing without-cable
    /// attempt whose output yielded a cable name.
    pub open spec fn wf(self) -> bool {
        &&& self.timeout_sec >= 1
        &&& self.tried@.len() <= 3
        &&& self.resolution.wf()
        &&& (self.final_result is Some <==> self.tried@.len() > 0)
        &&& (self.final_result is Some ==> self.final_result.unwrap().exit_code
            == self.tried@.last().exit_code)
        &&& match self.phase {
            Phase::Resolving => {
                &&& self.used_enumeration
                &&& !self.resolution.finished
                &&& self.tried@.len() == 0
                &&& self.selected_cable is None
                &&& self.late_cable is None
            },
            Phase::WithCable => {
                &&& self.tried@.len() == 0
                &&& self.selected_cable is Some
                &&& self.late_cable is None
            },
            Phase::WithoutCable => {
                &&& self.tried@.len() <= 1
                &&& self.late_cable is None
                &&& (self.tried@.len() == 1 ==> self.tried@[0].label == Variant::WithCable
                    && self.tried@[0].exit_code != 0)
            },
            Phase::RetryFromOutput => {
                &&& self.late_cable is Some
                &&& 1 <= self.tried@.len() <= 2
                &&& self.tried@.last().label == Variant::WithoutCable
                &&& self.tried@.last().exit_code != 0
            },
            Phase::Done => self.tried@.len() >= 1,
        }
    }

    /// The fixed argument template: retry count, device, bitstream path,
    /// frequency.
    pub open spec fn base_args(self) -> Seq<Seq<u8>> {
        seq![
            "-r".spec_bytes(),
            dec_rep(self.retries as nat),
            "--device".spec_bytes(),
            self.device@,
            "--fsFile".spec_bytes(),
            self.fs_path@,
            "--frequency".spec_bytes(),
            self.frequency@,
        ]
    }

    /// The template with the cable flag inserted after its first four
    /// entries.
    pub open spec fn cable_args(self, cable: Seq<u8>) -> Seq<Seq<u8>> {
        self.base_args().take(4) + seq!["--cable".spec_bytes(), cable] + self.base_args().skip(4)
    }

    /// The request fields never change over a run.
    pub open spec fn same_request(pre: Self, post: Self) -> bool {
        &&& post.device@ == pre.device@
        &&& post.frequency@ == pre.frequency@
        &&& post.fs_path@ == pre.fs_path@
        &&& post.retries == pre.retries
        &&& post.timeout_sec == pre.timeout_sec
        &&& post.used_enumeration == pre.used_enumeration
    }

    /// Transition on a fed-back enumeration run: the embedded resolution
    /// protocol advances; once it stops, its first discovered name (if any)
    /// becomes the selected cable and programming proceeds with it, else
    /// without a cable.
    pub open spec fn step_resolving(pre: Self, post: Self, outcome: ExecOutcome) -> bool {
        &&& Self::same_request(pre, post)
        &&& post.tried@ == pre.tried@
        &&& post.final_result is None
        &&& post.late_cable is None
        &&& CableResolution::step(pre.resolution, post.resolution, outcome)
        &&& if post.resolution.finished {
            if views(post.resolution.cables@).len() > 0 {
                &&& post.phase is WithCable
                &&& opt_view(post.selected_cable) == Option::Some(
                    views(post.resolution.cables@)[0],
                )
            } else {
                &&& post.phase is WithoutCable
                &&& post.selected_cable is None
            }
        } else {
            &&& post.phase is Resolving
            &&& post.selected_cable is None
        }
    }

    /// Transition on the with-cable attempt: record it; stop on success,
    /// else fall back to programming without a cable flag.
    pub open spec fn step_with_cable(pre: Self, post: Self, outcome: ExecOutcome) -> bool {
        &&& Self::same_request(pre, post)
        &&& post.resolution == pre.resolution
        &&& opt_view(post.selected_cable) == opt_view(pre.selected_cable)
        &&& post.late_cable is None
        &&& post.tried@ == pre.tried@.push(
            VariantTried { label: Variant::WithCable, exit_code: outcome.exit_code },
        )
        &&& post.final_result is Some
        &&& outcome_eq(post.final_result.unwrap(), outcome)
        &&& post.phase == if outcome.exit_code == 0 {
            Phase::Done
        } else {
            Phase::WithoutCable
        }
    }

    /// Transition on the without-cable attempt: record it; stop on success;
    /// on failure, a cable name recovered from this run's own output (its
    /// first parsed candidate) schedules the terminal retry, else the run is
    /// over.
    pub open spec fn step_without_cable(pre: Self, post: Self, outcome: ExecOutcome) -> bool {
        let parsed = parse_cables(combined(outcome.stdout@, outcome.stderr@));
        &&& Self::same_request(pre, post)
        &&& post.resolution == pre.resolution
        &&& opt_view(post.selected_cable) == opt_view(pre.selected_cable)
        &&& post.tried@ == pre.tried@.push(
            VariantTried { label: Variant::WithoutCable, exit_code: outcome.exit_code },
        )
        &&& post.final_result is Some
        &&& outcome_eq(post.final_result.unwrap(), outcome)
        &&& if outcome.exit_code != 0 && parsed.len() > 0 {
            &&& post.phase is RetryFromOutput
            &&& opt_view(post.late_cable) == Option::Some(parsed[0])
        } else {
            &&& post.phase is Done
            &&& post.late_cable is None
        }
    }

    /// Transition on the terminal retry attempt: record it; the
    /// late-discovered name becomes the selected cable and the run is over
    /// regardless of outcome.
    pub open spec fn step_retry(pre: Self, post: Self, outcome: ExecOutcome) -> bool {
        &&& Self::same_request(pre, post)
        &&& post.resolution == pre.resolution
        &&& post.tried@ == pre.tried@.push(
            VariantTried { label: Variant::RetryCableFromOutput, exit_code: outcome.exit_code },
        )
        &&& post.final_result is Some
        &&& outcome_eq(post.final_result.unwrap(), outcome)
        &&& post.phase is Done
        &&& opt_view(post.selected_cable) == opt_view(pre.late_cable)
        &&& opt_view(post.late_cable) == opt_view(pre.late_cable)
    }

    /// Starts a programming run. A zero deadline, a missing bitstream
    /// artifact and — when cable resolution will be needed — a missing
    /// programmer executable are parameter errors, rejected in that order
    /// before any process is spawned.
    pub fn new(
        device: Vec<u8>,
        frequency: Vec<u8>,
        fs_path: Vec<u8>,
        retries: u32,
        timeout_sec: u64,
        explicit_cable: Option<Vec<u8>>,
        fs_file_exists: bool,
        programmer_exists: bool,
    ) -> (r: Result<Self, ParamError>)
        ensures
            match r {
                Result::Ok(m) => {
                    &&& timeout_sec >= 1
                    &&& fs_file_exists
                    &&& m.wf()
                    &&& m.device@ == device@
                    &&& m.frequency@ == frequency@
                    &&& m.fs_path@ == fs_path@
                    &&& m.retries == retries
                    &&& m.timeout_sec == timeout_sec
                    &&& m.tried@.len() == 0
                    &&& m.final_result is None
                    &&& m.late_cable is None
                    &&& m.resolution.attempts@.len() == 0
                    &&& match explicit_cable {
                        Option::Some(c) => {
                            &&& !m.used_enumeration
                            &&& m.phase is WithCable
                            &&& opt_view(m.selected_cable) == Option::Some(c@)
                        },
                        Option::None => {
                            &&& programmer_exists
                            &&& m.used_enumeration
                            &&& m.phase is Resolving
                            &&& m.selected_cable is None
                            &&& m.resolution.timeout_sec == if timeout_sec
                                < DEFAULT_LIST_TIMEOUT_SEC {
                                timeout_sec
                            } else {
                                DEFAULT_LIST_TIMEOUT_SEC
                            }
                        },
                    }
                },
                Result::Err(e) => {
                    &&& (timeout_sec == 0 || !fs_file_exists || (explicit_cable is None
                        && !programmer_exists))
                    &&& e == if timeout_sec == 0 {
                        ParamError::ZeroTimeout
                    } else if !fs_file_exists {
                        ParamError::MissingFsFile
                    } else {
                        ParamError::MissingProgrammer
                    }
                },
            },
    {
        if timeout_sec == 0 {
            return Result::Err(ParamError::ZeroTimeout);
        }
        if !fs_file_exists {
            return Result::Err(ParamError::MissingFsFile);
        }
        let list_timeout = if timeout_sec < DEFAULT_LIST_TIMEOUT_SEC {
            timeout_sec
        } else {
            DEFAULT_LIST_TIMEOUT_SEC
        };
        match explicit_cable {
            Option::Some(c) => Result::Ok(
                DeviceProgramming {
                    device,
                    frequency,
                    fs_path,
                    retries,
                    timeout_sec,
                    resolution: CableResolution {
                        timeout_sec: list_timeout,
                        next_form: 0,
                        finished: false,
                        cables: Vec::new(),
                        attempts: Vec::new(),
                    },
                    used_enumeration: false,
                    selected_cable: Option::Some(c),
                    late_cable: Option::None,
                    phase: Phase::WithCable,
                    tried: Vec::new(),
                    final_result: Option::None,
                },
            ),
            Option::None => {
                if !programmer_exists {
                    return Result::Err(ParamError::MissingProgrammer);
                }
                Result::Ok(
                    DeviceProgramming {
                        device,
                        frequency,
                        fs_path,
                        retries,
                        timeout_sec,
                        resolution: CableResolution {
                            timeout_sec: list_timeout,
                            next_form: 0,
                            finished: false,
                            cables: Vec::new(),
                            attempts: Vec::new(),
                        },
                        used_enumeration: true,
                        selected_cable: Option::None,
                        late_cable: Option::None,
                        phase: Phase::Resolving,
                        tried: Vec::new(),
                        final_result: Option::None,
                    },
                )
            },
        }
    }

    /// Builds the fixed argument template.
    fn base_args_vec(&self) -> (r: Vec<Vec<u8>>)
        ensures
            views(r@) == self.base_args(),
    {
        let mut r: Vec<Vec<u8>> = Vec::new();
        r.push("-r".as_bytes_vec());
        r.push(u32_to_dec(self.retries));
        r.push("--device".as_bytes_vec());
        r.push(clone_bytes(self.device.as_slice()));
        r.push("--fsFile".as_bytes_vec());
        r.push(clone_bytes(self.fs_path.as_slice()));
        r.push("--frequency".as_bytes_vec());
        r.push(clone_bytes(self.frequency.as_slice()));
        proof {
            assert(views(r@) =~= self.base_args());
        }
        r
    }

    /// Builds the template with the cable flag inserted.
    fn cable_args_vec(&self, cable: &[u8]) -> (r: Vec<Vec<u8>>)
        ensures
            views(r@) == self.cable_args(cable@),
    {
        let mut r: Vec<Vec<u8>> = Vec::new();
        r.push("-r".as_bytes_vec());
        r.push(u32_to_dec(self.retries));
        r.push("--device".as_bytes_vec());
        r.push(clone_bytes(self.device.as_slice()));
        r.push("--cable".as_bytes_vec());
        r.push(clone_bytes(cable));
        r.push("--fsFile".as_bytes_vec());
        r.push(clone_bytes(self.fs_path.as_slice()));
        r.push("--frequency".as_bytes_vec());
        r.push(clone_bytes(self.frequency.as_slice()));
        proof {
            assert(views(r@) =~= self.cable_args(cable@));
        }
        r
    }

    /// The argument list of the next programmer invocation, or `None` once
    /// the run is over. While resolving, this is the resolution protocol's
    /// next enumeration form.
    pub fn next_command(&self) -> (r: Option<Vec<Vec<u8>>>)
        requires
            self.wf(),
        ensures
            match r {
                Option::Some(args) => !(self.phase is Done) && match self.phase {
                    Phase::Resolving => views(args@) == seq![
                        enum_form(self.resolution.next_form as int),
                    ],
                    Phase::WithCable => views(args@) == self.cable_args(
                        self.selected_cable.unwrap()@,
                    ),
                    Phase::WithoutCable => views(args@) == self.base_args(),
                    Phase::RetryFromOutput => views(args@) == self.cable_args(
                        self.late_cable.unwrap()@,
                    ),
                    Phase::Done => false,
                },
                Option::None => self.phase is Done,
            },
    {
        match self.phase {
            Phase::Resolving => self.resolution.next_args(),
            Phase::WithCable => {
                match &self.selected_cable {
                    Option::Some(c) => Option::Some(self.cable_args_vec(c.as_slice())),
                    Option::None => {
                        proof {
                            assert(false);
                        }
                        Option::None
                    },
                }
            },
            Phase::WithoutCable => Option::Some(self.base_args_vec()),
            Phase::RetryFromOutput => {
                match &self.late_cable {
                    Option::Some(c) => Option::Some(self.cable_args_vec(c.as_slice())),
                    Option::None => {
                        proof {
                            assert(false);
                        }
                        Option::None
                    },
                }
            },
            Phase::Done => Option::None,
        }
    }

    /// Feeds back the record of the run just made and advances the machine,
    /// as the phase's step predicate describes.
    pub fn record(&mut self, outcome: ExecOutcome)
        requires
            old(self).wf(),
            !(old(self).phase is Done),
        ensures
            final(self).wf(),
            match old(self).phase {
                Phase::Resolving => Self::step_resolving(*old(self), *final(self), outcome),
                Phase::WithCable => Self::step_with_cable(*old(self), *final(self), outcome),
                Phase::WithoutCable => Self::step_without_cable(*old(self), *final(self), outcome),
                Phase::RetryFromOutput => Self::step_retry(*old(self), *final(self), outcome),
                Phase::Done => false,
            },
    {
        let ph = self.phase;
        match ph {
            Phase::Resolving => {
                self.resolution.record(&outcome);
                if self.resolution.finished {
                    if self.resolution.cables.len() > 0 {
                        let c = clone_bytes(self.resolution.cables[0].as_slice());
                        proof {
                            assert(views(self.resolution.cables@)[0]
                                == self.resolution.cables@[0]@);
                        }
                        self.selected_cable = Option::Some(c);
                        self.phase = Phase::WithCable;
                    } else {
                        self.phase = Phase::WithoutCable;
                    }
                }
            },
            Phase::WithCable => {
                self.tried.push(
                    VariantTried { label: Variant::WithCable, exit_code: outcome.exit_code },
                );
                let code = outcome.exit_code;
                self.final_result = Option::Some(outcome);
                if code == 0 {
                    self.phase = Phase::Done;
                } else {
                    self.phase = Phase::WithoutCable;
                }
            },
            Phase::WithoutCable => {
                self.tried.push(
                    VariantTried { label: Variant::WithoutCable, exit_code: outcome.exit_code },
                );
                let code = outcome.exit_code;
                if code != 0 {
                    let text = combine_output(&outcome);
                    let parsed = parse_cable_names(text.as_slice());
                    if parsed.len() > 0 {
                        let c = clone_bytes(parsed[0].as_slice());
                        proof {
                            assert(views(parsed@)[0] == parsed@[0]@);
                        }
                        self.late_cable = Option::Some(c);
                        self.phase = Phase::RetryFromOutput;
                    } else {
                        self.phase = Phase::Done;
                    }
                } else {
                    self.phase = Phase::Done;
                }
                self.final_result = Option::Some(outcome);
            },
            Phase::RetryFromOutput => {
                self.tried.push(
                    VariantTried {
                        label: Variant::RetryCableFromOutput,
                        exit_code: outcome.exit_code,
                    },
                );
                let c = match &self.late_cable {
                    Option::Some(v) => clone_bytes(v.as_slice()),
                    Option::None => {
                        proof {
                            assert(false);
                        }
                        Vec::new()
                    },
                };
                self.selected_cable = Option::Some(c);
                self.final_result = Option::Some(outcome);
                self.phase = Phase::Done;
            },
            Phase::Done => {
                proof {
                    assert(false);
                }
            },
        }
    }
}

/// The final report of one programming run.
pub struct ProgrammingOutcome {
    /// The cable name ultimately used, if any.
    pub selected_cable: Option<Vec<u8>>,
    /// The enumeration attempts of the embedded cable resolution, when it
    /// ran.
    pub enumeration_attempts: Option<Vec<Attempt>>,
    /// Every programming attempt, in order.
    pub variants_tried: Vec<VariantTried>,
    /// The last attempt's record.
    pub final_result: ExecOutcome,
}

impl DeviceProgramming {
    /// Closes a finished run into its report: the full attempt history, the
    /// cable ultimately used, and — always — the last attempt's record.
    pub fn finish(self) -> (r: ProgrammingOutcome)
        requires
            self.wf(),
            self.phase is Done,
        ensures
            opt_view(r.selected_cable) == opt_view(self.selected_cable),
            r.variants_tried@ == self.tried@,
            outcome_eq(r.final_result, self.final_result.unwrap()),
            r.enumeration_attempts is Some <==> self.used_enumeration,
            self.used_enumeration ==> r.enumeration_attempts.unwrap()@ == self.resolution.attempts@,
    {
        let final_result = match self.final_result {
            Option::Some(o) => o,
            Option::None => {
                proof {
                    assert(false);
                }
                crate::process::absorbed_spawn_failure()
            },
        };
        ProgrammingOutcome {
            selected_cable: self.selected_cable,
            enumeration_attempts: if self.used_enumeration {
                Option::Some(self.resolution.attempts)
            } else {
                Option::None
            },
            variants_tried: self.tried,
            final_result,
        }
    }
}

/// The programming protocol never performs more than three programming
/// attempts: with the cable flag, without it, and the single retry with a
/// late-discovered name.
pub proof fn lemma_programming_attempt_bound(m: DeviceProgramming)
    requires
        m.wf(),
    ensures
        m.tried@.len() <= 3,
{
}

/// The retry variant is only ever pending after a without-cable attempt that
/// exited non-zero, with the cable name recovered from that run's own
/// output.
pub proof fn lemma_retry_follows_failing_without_cable(m: DeviceProgramming)
    requires
        m.wf(),
        m.phase is RetryFromOutput,
    ensures
        m.late_cable is Some,
        m.tried@.last().label == Variant::WithoutCable,
        m.tried@.last().exit_code != 0,
{
}

} // verus!
