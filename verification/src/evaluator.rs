//! The process-based objective-function evaluator: its immutable
//! configuration, the argument list handed to the external program, and the
//! classification of every process outcome into exactly one evaluation
//! result. Spawning, waiting, killing and reaping are the caller's
//! asynchronous work; everything decided about them is stated here.

use vstd::prelude::*;
use crate::error::Error;
use crate::error::ProcOutputWithObjFuncArg;
use crate::json::child_obj_val;

verus! {

/// Configuration of the external objective-function program: executable
/// path, fixed argument list, and the optional kill timeout in
/// milliseconds. Immutable; reused across evaluation calls.
pub struct ObjFuncProcessDef {
    pub program: String,
    pub args: Vec<String>,
    pub kill_obj_func_after: Option<u64>,
}

/// How one evaluation call must wait on the spawned process.
pub enum WaitPlan {
    /// No kill timeout is configured: wait unconditionally for exit, with
    /// no timer involved.
    WaitToExit,
    /// Race the process's natural exit against a timer of this many
    /// milliseconds.
    RaceAgainstTimer(u64),
}

/// Which of the two raced outcomes became ready first.
pub enum TimedWaitEvent {
    TimerElapsed,
    ProcessExited,
}

/// What the evaluation call must do after the race.
pub enum TimedWaitAction {
    /// Best-effort kill, then reap the process, discard its status, and
    /// return success with no objective value.
    KillReapAndNoValue,
    /// The process exited naturally: classify its captured output.
    ClassifyExit,
}

/// The exit is a success exactly when the process exited with code 0;
/// a nonzero code or a signal (no code at all) is a failure.
pub open spec fn exit_success(exit_code: Option<i32>) -> bool {
    exit_code == Some(0i32)
}

/// The three classes an exited process's outcome falls into.
pub enum OutcomeKind {
    /// Exit code 0 and well-formed output: an objective value or none.
    Success,
    /// Exit code 0 but malformed output.
    InvalidOutput,
    /// Any unsuccessful exit.
    ProcFailed,
}

/// The class of an exited process, from its exit code and captured
/// standard output alone.
pub open spec fn classification(exit_code: Option<i32>, stdout: Seq<u8>) -> OutcomeKind {
    if !exit_success(exit_code) {
        OutcomeKind::ProcFailed
    } else if child_obj_val(stdout) is Some {
        OutcomeKind::Success
    } else {
        OutcomeKind::InvalidOutput
    }
}

/// The executable objective value agrees with the spec-level one.
pub open spec fn opt_bytes_eq(v: Option<Vec<u8>>, ov: Option<Seq<u8>>) -> bool {
    match v {
        None => ov is None,
        Some(t) => ov == Some(t@),
    }
}

/// The diagnostic capture holds exactly the given argument, streams and
/// exit code.
pub open spec fn capture_matches(
    c: ProcOutputWithObjFuncArg,
    arg: Seq<char>,
    out: Seq<u8>,
    err: Seq<u8>,
    exit_code: Option<i32>,
) -> bool {
    c.obj_func_arg@ == arg && c.stdout@ == out && c.stderr@ == err && c.exit_code == exit_code
}

impl ObjFuncProcessDef {
    /// Build the immutable process definition.
    pub fn new(program: String, args: Vec<String>, kill_obj_func_after: Option<u64>) -> (d: Self)
        ensures
            d.program == program,
            d.args == args,
            d.kill_obj_func_after == kill_obj_func_after,
    {
        ObjFuncProcessDef { program, args, kill_obj_func_after }
    }

    /// The full argument list for one evaluation: the configured fixed
    /// arguments followed by the encoded candidate as the final argument.
    pub fn full_args(&self, encoded_candidate: &String) -> (r: Vec<String>)
        ensures
            r@ == self.args@.push(*encoded_candidate),
    {
        let mut r: Vec<String> = Vec::new();
        let mut idx: usize = 0;
        while idx < self.args.len()
            invariant
                idx <= self.args@.len(),
                r@ == self.args@.subrange(0, idx as int),
            decreases self.args@.len() - idx,
        {
            r.push(self.args[idx].clone());
            assert(self.args@.subrange(0, idx + 1) =~= self.args@.subrange(0, idx as int).push(
                self.args@[idx as int],
            ));
            idx = idx + 1;
        }
        assert(self.args@.subrange(0, self.args@.len() as int) =~= self.args@);
        r.push(encoded_candidate.clone());
        r
    }

    /// How to wait on the spawned process: a race is set up exactly when a
    /// kill timeout is configured, with that duration; otherwise no timer
    /// takes part at all.
    pub fn wait_plan(&self) -> (p: WaitPlan)
        ensures
            (match self.kill_obj_func_after {
                None => p is WaitToExit,
                Some(ms) => p == WaitPlan::RaceAgainstTimer(ms),
            }),
    {
        match self.kill_obj_func_after {
            None => WaitPlan::WaitToExit,
            Some(ms) => WaitPlan::RaceAgainstTimer(ms),
        }
    }
}

/// The decision after racing the timer against the process's exit: an
/// elapsed timer means kill, reap, and success with no value — a soft
/// outcome, never an error; a natural exit means classify the output.
pub fn on_timed_wait(e: TimedWaitEvent) -> (a: TimedWaitAction)
    ensures
        (e is TimerElapsed <==> a is KillReapAndNoValue),
        (e is ProcessExited <==> a is ClassifyExit),
{
    match e {
        TimedWaitEvent::TimerElapsed => TimedWaitAction::KillReapAndNoValue,
        TimedWaitEvent::ProcessExited => TimedWaitAction::ClassifyExit,
    }
}

/// Classify one exited process: exit code 0 with well-formed output is a
/// success carrying the optional objective value (as the bytes of its
/// number literal); exit code 0 with malformed output is the invalid-output
/// error; any other exit is the process-failed error. Both errors carry the
/// whole diagnostic capture, nothing discarded.
pub fn classify_child_output(
    obj_func_arg: String,
    exit_code: Option<i32>,
    stdout: Vec<u8>,
    stderr: Vec<u8>,
) -> (r: Result<Option<Vec<u8>>, Error>)
    ensures
        (r is Ok <==> classification(exit_code, stdout@) is Success),
        exit_success(exit_code) ==> (match child_obj_val(stdout@) {
            Some(ov) => r matches Ok(v) && opt_bytes_eq(v, ov),
            None => r matches Err(Error::ObjFuncProcInvalidOutput(c)) && capture_matches(
                c,
                obj_func_arg@,
                stdout@,
                stderr@,
                exit_code,
            ),
        }),
        !exit_success(exit_code) ==> (r matches Err(Error::ObjFuncProcFailed(c))
            && capture_matches(c, obj_func_arg@, stdout@, stderr@, exit_code)),
{
    let success = match exit_code {
        Some(code) => code == 0,
        None => false,
    };
    if success {
        match crate::json::parse_child_output(stdout.as_slice()) {
            Some(v) => Ok(v),
            None => Err(
                Error::ObjFuncProcInvalidOutput(
                    ProcOutputWithObjFuncArg::new(obj_func_arg, stdout, stderr, exit_code),
                ),
            ),
        }
    } else {
        Err(
            Error::ObjFuncProcFailed(
                ProcOutputWithObjFuncArg::new(obj_func_arg, stdout, stderr, exit_code),
            ),
        )
    }
}

/// Law: every evaluation of an exited process falls into exactly one class,
/// and each class holds if and only if its defining condition does.
pub proof fn lemma_classification_total(exit_code: Option<i32>, stdout: Seq<u8>)
    ensures
        classification(exit_code, stdout) is Success <==> (exit_success(exit_code)
            && child_obj_val(stdout) is Some),
        classification(exit_code, stdout) is InvalidOutput <==> (exit_success(exit_code)
            && child_obj_val(stdout) is None),
        classification(exit_code, stdout) is ProcFailed <==> !exit_success(exit_code),
{
}

/// Law: a process that exits 0 and writes the canonical framing of any
/// well-formed number literal is classified a success carrying exactly that
/// literal as its objective value.
pub proof fn lemma_canonical_number_is_success(t: Seq<u8>)
    requires
        crate::json::sp_number(t, 0) == Some(t.len() as int),
    ensures
        classification(Some(0i32), crate::json::canonical_output(t)) is Success,
        child_obj_val(crate::json::canonical_output(t)) == Some(Some(t)),
{
    crate::json::lemma_canonical_output_parses(t);
}

/// Law: a process that exits 0 and reports a null objective is classified a
/// success with an absent value — distinct from every failure.
pub proof fn lemma_canonical_null_is_success()
    ensures
        classification(
            Some(0i32),
            crate::json::canonical_output(seq![0x6eu8, 0x75u8, 0x6cu8, 0x6cu8]),
        ) is Success,
        child_obj_val(crate::json::canonical_output(seq![0x6eu8, 0x75u8, 0x6cu8, 0x6cu8]))
            == Some(None::<Seq<u8>>),
{
    crate::json::lemma_canonical_null_output_parses();
}

/// Law: evaluation is deterministic in what the process did. Two calls that
/// observe the same exit code and the same captured output are classified
/// identically.
pub proof fn lemma_classification_deterministic(
    code1: Option<i32>,
    out1: Seq<u8>,
    code2: Option<i32>,
    out2: Seq<u8>,
)
    requires
        code1 == code2,
        out1 == out2,
    ensures
        classification(code1, out1) == classification(code2, out2),
{
}

} // verus!
