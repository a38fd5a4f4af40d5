//! Why a benchmark does not run to its end.

use vstd::prelude::*;
use crate::exec::ConfigError;

verus! {

/// Why a benchmark does not run to its end.
#[derive(Clone, Copy, Debug, PartialEq, Eq, Structural)]
pub enum FloodError {
    /// The run was interrupted from outside. The statistics gathered up to then stand.
    Interrupted,
    /// The shape of the load is not one that can run.
    Config(ConfigError),
}

/// The error of a benchmark whose warm-up ended with the run interrupted or not: the main
/// phase does not start after an interruption.
pub fn after_warmup(interrupted: bool) -> (r: Result<(), FloodError>)
    ensures
        r == if interrupted {
            Err::<(), FloodError>(FloodError::Interrupted)
        } else {
            Ok::<(), FloodError>(())
        },
{
    if interrupted {
        Err(FloodError::Interrupted)
    } else {
        Ok(())
    }
}

} // verus!
