//! The bibliography engine's outcome, from the history code it returns.

use vstd::prelude::*;

verus! {

/// How an engine run went, where it ran to its end.
#[derive(Clone, Copy, Debug, PartialEq, Eq, Structural)]
pub enum TexResult {
    Spotless,
    Warnings,
    Errors,
}

/// Why an engine run did not come to a result.
#[derive(Clone, Copy, Debug, PartialEq, Eq, Structural)]
pub enum EngineFailure {
    /// The engine stopped on a fatal error that it did not describe.
    Fatal,
    /// The engine stopped and left a message that describes why.
    Aborted,
    /// The engine returned a history code that has no meaning.
    UnexpectedHistory(i32),
}

/// The meaning of a history code.
pub open spec fn history_meaning(code: i32) -> Result<TexResult, EngineFailure> {
    if code == 0 {
        Ok(TexResult::Spotless)
    } else if code == 1 {
        Ok(TexResult::Warnings)
    } else if code == 2 {
        Ok(TexResult::Errors)
    } else if code == 3 {
        Err(EngineFailure::Fatal)
    } else if code == 99 {
        Err(EngineFailure::Aborted)
    } else {
        Err(EngineFailure::UnexpectedHistory(code))
    }
}

/// Maps the history code that the engine returns to the run's outcome.
pub fn history_to_result(code: i32) -> (r: Result<TexResult, EngineFailure>)
    ensures
        r == history_meaning(code),
{
    match code {
        0 => Ok(TexResult::Spotless),
        1 => Ok(TexResult::Warnings),
        2 => Ok(TexResult::Errors),
        3 => Err(EngineFailure::Fatal),
        99 => Err(EngineFailure::Aborted),
        x => Err(EngineFailure::UnexpectedHistory(x)),
    }
}

/// The bibliography engine.
pub struct BibtexEngine {}

impl BibtexEngine {
    pub fn new() -> BibtexEngine {
        BibtexEngine {  }
    }
}

} // verus!
