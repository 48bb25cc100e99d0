//! The ways in which one computation can fail.

use vstd::prelude::*;

verus! {

/// Why a computation was abandoned. Every error ends the computation: no
/// partial result is ever handed out.
#[derive(Clone, Copy, Debug, PartialEq, Eq, Structural, Hash)]
pub enum PipelineError {
    /// The raw bytes of the input could not be decoded to text.
    Decode,
    /// The input holds no data row.
    EmptyInput,
    /// A row has no readable timestamp, or a power value that is no number.
    MalformedRecord,
    /// The load is a primary load, and no factor came with it.
    MissingFactor,
}

impl PipelineError {
    /// The message shown to the user.
    pub fn message(&self) -> (r: String)
        ensures
            r@ == self.message_text(),
    {
        match self {
            PipelineError::Decode => "failed to decode the input as text".to_owned(),
            PipelineError::EmptyInput => "the input holds no data row".to_owned(),
            PipelineError::MalformedRecord => "failed to read a record of the input".to_owned(),
            PipelineError::MissingFactor => "a primary load needs a factor".to_owned(),
        }
    }

    /// The text of the message shown to the user.
    pub open spec fn message_text(self) -> Seq<char> {
        match self {
            PipelineError::Decode => "failed to decode the input as text"@,
            PipelineError::EmptyInput => "the input holds no data row"@,
            PipelineError::MalformedRecord => "failed to read a record of the input"@,
            PipelineError::MissingFactor => "a primary load needs a factor"@,
        }
    }
}

} // verus!
