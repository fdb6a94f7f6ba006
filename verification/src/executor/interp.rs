//! Execution reported as an [`Execution`].

use vstd::prelude::*;
use crate::decoder::image::image_supported;
use crate::decoder::module::{Module, info_fits};
use crate::decoder::types::Word;
use crate::executor::entry::{Entry, entry_target};
use crate::executor::execution::{entry_outcome, run_fits_entry};
use crate::executor::runtime::ExecutionResult;
use crate::executor::error::ExecuteError;
use crate::executor::host::Host;
use crate::executor::record::StepObserver;

verus! {

/// The outcome of an execution.
#[derive(Clone, Debug, PartialEq, Eq)]
pub struct Execution {
    /// The entry function's return values, empty if the program exited.
    pub returns: Vec<Word>,
    /// The status code if the program halted through `proc_exit`.
    pub exit: Option<i32>,
    /// The number of operators executed (records emitted).
    pub steps: u64,
}

/// An execution's outcome as an [`ExecutionResult`].
pub open spec fn as_result(e: Execution) -> ExecutionResult {
    ExecutionResult { returns: e.returns, exit: e.exit, steps: e.steps }
}

/// An execution's result as an [`ExecutionResult`].
pub open spec fn as_results(r: Result<Execution, ExecuteError>) -> Result<ExecutionResult, ExecuteError> {
    match r {
        Ok(e) => Ok(as_result(e)),
        Err(x) => Err(x),
    }
}

/// Executes a validated module under its static register schedule, reporting
/// the outcome as an [`Execution`]; see [`crate::executor::execute`].
pub fn execute<O: StepObserver, H: Host>(
    module: &Module,
    entry: &Entry,
    args: &[Word],
    host: &mut H,
    observer: &mut O,
) -> (r: Result<Execution, ExecuteError>)
    ensures
        !info_fits(module.sections_view()) || !image_supported(module.sections_view()) ==> r is Err,
        entry_target(*entry, module.sections_view()) is Err ==> (r matches Err(e) && (e is Lift || e is Decode
            || e is UndefinedEntry)),
        r matches Ok(res) ==> run_fits_entry(as_result(res), *entry, args@, module.sections_view()),
        r matches Ok(res) ==> (res.exit is Some ==> res.returns@.len() == 0),
        O::keeps_records() ==> (r matches Ok(res) ==> final(observer).records().len() == old(observer).records().len()
            + res.steps),
        entry_outcome::<H>(as_results(r), *entry, args@, module.sections_view(), old(host)@, final(host)@),
{
    let res = crate::executor::execution::execute(module, entry, args, host, observer)?;
    Ok(Execution { returns: res.returns, exit: res.exit, steps: res.steps })
}

} // verus!
