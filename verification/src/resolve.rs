//! The cable-resolution protocol: enumerate programming cables despite a
//! CLI whose enumeration flag is not contractually stable.
//!
//! Nine single-flag argument forms are tried in a fixed order; the protocol
//! stops at the first form that both exits zero and yields at least one
//! parsed cable name. When every form fails, `--help` is invoked once as a
//! fallback and whatever its output yields (possibly nothing) is the result.
//! Every attempt is recorded. The protocol is a state machine: the caller
//! asks for the next argument form, runs the programmer executable, and
//! feeds the run's record back.

use vstd::prelude::*;
use vstd::string::StrSliceExecFns;
use vstd::string::StringSliceAdditionalSpecFns;

use crate::heuristics::{parse_cable_names, parse_cables, views};
use crate::process::{ExecOutcome, ParamError};

verus! {

/// The number of distinct enumeration argument forms tried before the help
/// fallback.
pub const ENUM_FORM_COUNT: usize = 9;

/// One recorded invocation of the programmer executable: the arguments it
/// was given and the exit code it returned.
pub struct Attempt {
    pub args: Vec<Vec<u8>>,
    pub exit_code: i32,
}

/// The single argument of the `i`-th enumeration attempt: the nine
/// enumeration flag spellings in their fixed order, then the help fallback.
pub open spec fn enum_form(i: int) -> Seq<u8> {
    if i == 0 {
        "--list-cables".spec_bytes()
    } else if i == 1 {
        "--list_cables".spec_bytes()
    } else if i == 2 {
        "--cableList".spec_bytes()
    } else if i == 3 {
        "--listCable".spec_bytes()
    } else if i == 4 {
        "--cables".spec_bytes()
    } else if i == 5 {
        "-l".spec_bytes()
    } else if i == 6 {
        "--list".spec_bytes()
    } else if i == 7 {
        "--scan".spec_bytes()
    } else if i == 8 {
        "--enumerate".spec_bytes()
    } else {
        "--help".spec_bytes()
    }
}

/// Builds the single argument of the `i`-th enumeration attempt.
fn form_arg(i: usize) -> (v: Vec<u8>)
    requires
        i <= ENUM_FORM_COUNT,
    ensures
        v@ == enum_form(i as int),
{
    let s: &str = if i == 0 {
        "--list-cables"
    } else if i == 1 {
        "--list_cables"
    } else if i == 2 {
        "--cableList"
    } else if i == 3 {
        "--listCable"
    } else if i == 4 {
        "--cables"
    } else if i == 5 {
        "-l"
    } else if i == 6 {
        "--list"
    } else if i == 7 {
        "--scan"
    } else if i == 8 {
        "--enumerate"
    } else {
        "--help"
    };
    s.as_bytes_vec()
}

/// The text handed to the output heuristics for one run: standard output and
/// standard error joined by a newline.
pub open spec fn combined(stdout: Seq<u8>, stderr: Seq<u8>) -> Seq<u8> {
    stdout + seq![10u8] + stderr
}

/// Joins a run's captured standard output and standard error.
pub fn combine_output(outcome: &ExecOutcome) -> (r: Vec<u8>)
    ensures
        r@ == combined(outcome.stdout@, outcome.stderr@),
{
    let mut r: Vec<u8> = Vec::new();
    let mut k: usize = 0;
    let n = outcome.stdout.len();
    while k < n
        invariant
            n == outcome.stdout@.len(),
            0 <= k <= n,
            r@ == outcome.stdout@.take(k as int),
        decreases n - k,
    {
        r.push(outcome.stdout[k]);
        proof {
            assert(outcome.stdout@.take(k + 1) =~= outcome.stdout@.take(k as int).push(
                outcome.stdout@[k as int],
            ));
        }
        k += 1;
    }
    r.push(10);
    let m = outcome.stderr.len();
    let mut j: usize = 0;
    proof {
        assert(outcome.stdout@.take(n as int) =~= outcome.stdout@);
        assert(r@ =~= outcome.stdout@ + seq![10u8] + outcome.stderr@.take(0));
    }
    while j < m
        invariant
            m == outcome.stderr@.len(),
            0 <= j <= m,
            r@ == outcome.stdout@ + seq![10u8] + outcome.stderr@.take(j as int),
        decreases m - j,
    {
        r.push(outcome.stderr[j]);
        proof {
            assert(outcome.stdout@ + seq![10u8] + outcome.stderr@.take(j + 1) =~= (outcome.stdout@
                + seq![10u8] + outcome.stderr@.take(j as int)).push(outcome.stderr@[j as int]));
        }
        j += 1;
    }
    proof {
        assert(outcome.stderr@.take(m as int) =~= outcome.stderr@);
    }
    r
}

/// The cable-resolution state machine.
pub struct CableResolution {
    /// Soft deadline, in seconds, for each enumeration run.
    pub timeout_sec: u64,
    /// Index of the next attempt: `0..=8` are the enumeration forms, `9` is
    /// the help fallback.
    pub next_form: usize,
    /// Whether the protocol has stopped.
    pub finished: bool,
    /// The discovered cable names, in first-seen order.
    pub cables: Vec<Vec<u8>>,
    /// Every attempt made, in order.
    pub attempts: Vec<Attempt>,
}

impl CableResolution {
    /// Structural invariant of the protocol: at most ten attempts are ever
    /// recorded (nine forms and one help fallback), attempts are made in
    /// their fixed order, and no names are reported before the protocol
    /// stops.
    pub open spec fn wf(self) -> bool {
        &&& self.timeout_sec >= 1
        &&& self.attempts@.len() <= 10
        &&& (forall|i: int|
            0 <= i < self.attempts@.len() ==> views(#[trigger] self.attempts@[i].args@) == seq![
                enum_form(i),
            ])
        &&& (!self.finished ==> {
            &&& self.next_form <= 9
            &&& self.attempts@.len() == self.next_form
            &&& self.cables@.len() == 0
        })
    }

    /// How one fed-back run record advances the protocol from `pre` to
    /// `post`: the attempt is recorded; an enumeration form that exits zero
    /// and yields at least one name stops the protocol with those names; a
    /// failing form advances to the next; the help fallback always stops the
    /// protocol with whatever its output yields.
    pub open spec fn step(pre: Self, post: Self, outcome: ExecOutcome) -> bool {
        let parsed = parse_cables(combined(outcome.stdout@, outcome.stderr@));
        &&& post.timeout_sec == pre.timeout_sec
        &&& post.attempts@.len() == pre.attempts@.len() + 1
        &&& (forall|i: int|
            0 <= i < pre.attempts@.len() ==> views(#[trigger] post.attempts@[i].args@) == views(
                pre.attempts@[i].args@,
            ) && post.attempts@[i].exit_code == pre.attempts@[i].exit_code)
        &&& views(post.attempts@.last().args@) == seq![enum_form(pre.next_form as int)]
        &&& post.attempts@.last().exit_code == outcome.exit_code
        &&& if pre.next_form < 9 {
            if outcome.exit_code == 0 && parsed.len() > 0 {
                &&& post.finished
                &&& views(post.cables@) == parsed
            } else {
                &&& !post.finished
                &&& post.next_form == pre.next_form + 1
                &&& post.cables@.len() == 0
            }
        } else {
            &&& post.finished
            &&& views(post.cables@) == parsed
        }
    }

    /// Starts a resolution run. The programmer executable's absence and a
    /// zero deadline are parameter errors, rejected before any process is
    /// spawned (the deadline is checked first).
    pub fn new(timeout_sec: u64, programmer_exists: bool) -> (r: Result<Self, ParamError>)
        ensures
            match r {
                Result::Ok(m) => {
                    &&& timeout_sec >= 1 && programmer_exists
                    &&& m.wf()
                    &&& m.timeout_sec == timeout_sec
                    &&& m.next_form == 0
                    &&& !m.finished
                    &&& m.attempts@.len() == 0
                    &&& m.cables@.len() == 0
                },
                Result::Err(e) => {
                    &&& (timeout_sec == 0 || !programmer_exists)
                    &&& e == if timeout_sec == 0 {
                        ParamError::ZeroTimeout
                    } else {
                        ParamError::MissingProgrammer
                    }
                },
            },
    {
        if timeout_sec == 0 {
            return Result::Err(ParamError::ZeroTimeout);
        }
        if !programmer_exists {
            return Result::Err(ParamError::MissingProgrammer);
        }
        Result::Ok(
            CableResolution {
                timeout_sec,
                next_form: 0,
                finished: false,
                cables: Vec::new(),
                attempts: Vec::new(),
            },
        )
    }

    /// The argument list of the next attempt, or `None` once the protocol
    /// has stopped.
    pub fn next_args(&self) -> (r: Option<Vec<Vec<u8>>>)
        requires
            self.wf(),
        ensures
            match r {
                Option::Some(args) => !self.finished && views(args@) == seq![
                    enum_form(self.next_form as int),
                ],
                Option::None => self.finished,
            },
    {
        if self.finished {
            return Option::None;
        }
        let mut args: Vec<Vec<u8>> = Vec::new();
        args.push(form_arg(self.next_form));
        proof {
            assert(views(args@) =~= seq![enum_form(self.next_form as int)]);
        }
        Option::Some(args)
    }

    /// Feeds back the record of the attempt just run and advances the
    /// protocol, as [`CableResolution::step`] describes.
    pub fn record(&mut self, outcome: &ExecOutcome)
        requires
            old(self).wf(),
            !old(self).finished,
        ensures
            final(self).wf(),
            Self::step(*old(self), *final(self), *outcome),
    {
        let args = match self.next_args() {
            Option::Some(a) => a,
            Option::None => {
                proof {
                    assert(false);
                }
                Vec::new()
            },
        };
        let ghost pre_attempts = self.attempts@;
        self.attempts.push(Attempt { args, exit_code: outcome.exit_code });
        proof {
            assert(self.attempts@.last() == self.attempts@[pre_attempts.len() as int]);
            assert(forall|i: int|
                0 <= i < pre_attempts.len() ==> #[trigger] self.attempts@[i] == pre_attempts[i]);
        }
        let text = combine_output(outcome);
        let parsed = parse_cable_names(text.as_slice());
        if self.next_form < ENUM_FORM_COUNT {
            if outcome.exit_code == 0 && parsed.len() > 0 {
                self.finished = true;
                self.cables = parsed;
            } else {
                self.next_form += 1;
            }
        } else {
            self.finished = true;
            self.cables = parsed;
        }
    }
}

/// The resolution protocol never issues more than ten enumeration attempts:
/// the nine fixed forms and the one help fallback.
pub proof fn lemma_resolution_attempt_bound(r: CableResolution)
    requires
        r.wf(),
    ensures
        r.attempts@.len() <= 10,
{
}

} // verus!
