use vstd::prelude::*;

use crate::errors::ExecutionError;

verus! {

/// What a finished process wrote and how it exited.
#[derive(Debug, Clone)]
pub struct ProcOutput {
    pub outs: String,
    pub errs: String,
    pub exit_code: i32,
}

/// A finished process, or the reason it could not be run.
pub type ProcSpawnResult = Result<ProcOutput, ExecutionError>;

} // verus!
