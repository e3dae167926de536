//! The run-level and evaluation-level error taxonomy.

use vstd::prelude::*;

verus! {

/// Everything captured about one external process invocation, kept for
/// error reporting: the textual candidate argument that was passed to the
/// process, its captured standard output and standard error, and its exit
/// code (`None` when the process was ended by a signal).
#[derive(Debug)]
pub struct ProcOutputWithObjFuncArg {
    pub obj_func_arg: String,
    pub stdout: Vec<u8>,
    pub stderr: Vec<u8>,
    pub exit_code: Option<i32>,
}

impl ProcOutputWithObjFuncArg {
    pub fn new(obj_func_arg: String, stdout: Vec<u8>, stderr: Vec<u8>, exit_code: Option<i32>) -> (r: Self)
        ensures
            r.obj_func_arg == obj_func_arg,
            r.stdout == stdout,
            r.stderr == stderr,
            r.exit_code == exit_code,
    {
        ProcOutputWithObjFuncArg { obj_func_arg, stdout, stderr, exit_code }
    }
}

/// A terminal error of a run or of one evaluation call.
#[derive(Debug)]
pub enum Error {
    /// The control channel closed, or a command other than `Terminate`
    /// arrived: the caller is treated as disconnected and the run ends.
    ClientHungUp,
    /// A second `Terminate` arrived after the single-use abort signal was
    /// already consumed: a typed programming-error outcome.
    AlreadyTerminated,
    /// The external objective-function process exited unsuccessfully.
    ObjFuncProcFailed(ProcOutputWithObjFuncArg),
    /// The external process exited successfully but its standard output was
    /// not a well-formed result object.
    ObjFuncProcInvalidOutput(ProcOutputWithObjFuncArg),
    /// The operating system could not start the external process at all;
    /// carries the OS error rendered as text.
    ProcStartFailed(String),
}

} // verus!
