//! The errors that a chat session reports to its client.

use crate::turn::{error_text, TurnError};
use vstd::prelude::*;

verus! {

/// Something that was asked for is not there.
#[derive(Clone, Debug, PartialEq, Eq)]
pub struct NoData {
    pub msg: String,
}

impl NoData {
    /// The error in words: its message.
    pub fn to_string(&self) -> (text: String)
        ensures
            text@ == self.msg@,
    {
        self.msg.clone()
    }
}

/// A turn with the model failed.
#[derive(Clone, Debug, PartialEq, Eq)]
pub struct LLMError {
    pub msg: String,
}

impl LLMError {
    /// The report of a failed turn: the words of its error.
    pub fn new(error: &TurnError) -> (report: Self)
        ensures
            report.msg@ == error_text(error@),
    {
        LLMError { msg: error.to_string() }
    }

    /// The error in words: its message.
    pub fn to_string(&self) -> (text: String)
        ensures
            text@ == self.msg@,
    {
        self.msg.clone()
    }
}

} // verus!
