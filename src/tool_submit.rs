use vstd::prelude::*;

use crate::agent::{MatchResult, SUBMIT_TOOL_NAME};

verus! {

/// The arguments of the terminal tool: a match result, every field optional.
#[derive(Debug)]
pub struct SubmitArgs {
    pub id: Option<i32>,
    pub name: Option<String>,
    pub season: Option<i32>,
    pub confidence_score: Option<i32>,
}

impl SubmitArgs {
    /// The match result that the arguments state.
    pub fn into_result(self) -> (r: MatchResult)
        ensures
            r.id == self.id,
            r.name == self.name,
            r.season == self.season,
            r.confidence_score == self.confidence_score,
    {
        MatchResult {
            id: self.id,
            name: self.name,
            season: self.season,
            confidence_score: self.confidence_score,
        }
    }
}

/// The terminal tool, with a season number among its arguments.
#[derive(Debug)]
pub struct SubmitTool {}

/// The terminal tool without a season number, for catalogs without seasons.
#[derive(Debug)]
pub struct SubmitBGMTool {}

#[derive(Debug)]
pub struct SubmitError {
    pub message: String,
}

impl SubmitTool {
    pub fn new() -> (r: Self) {
        SubmitTool {}
    }

    /// The name under which the model calls it.
    pub fn name(&self) -> (r: &'static str)
        ensures
            r@ == SUBMIT_TOOL_NAME@,
    {
        SUBMIT_TOOL_NAME
    }

    /// Calling it does nothing: its arguments are the answer.
    pub fn call(&self, _args: SubmitArgs) -> (r: Result<(), SubmitError>)
        ensures
            r is Ok,
    {
        Ok(())
    }
}

impl SubmitBGMTool {
    pub fn name(&self) -> (r: &'static str)
        ensures
            r@ == SUBMIT_TOOL_NAME@,
    {
        SUBMIT_TOOL_NAME
    }

    pub fn call(&self, _args: SubmitArgs) -> (r: Result<(), SubmitError>)
        ensures
            r is Ok,
    {
        Ok(())
    }
}

} // verus!
