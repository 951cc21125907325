//! What is taken from an answer of a Gemini model.

use vstd::prelude::*;
use vstd::string::*;

verus! {

/// Why an answer holds no text.
#[derive(Clone, Copy, Debug, PartialEq, Eq, Structural)]
pub enum GeminiError {
    /// The answer holds no candidate.
    NoCandidates,
    /// The first candidate holds no part.
    NoParts,
}

/// What an error is called.
pub open spec fn error_text(error: GeminiError) -> Seq<char> {
    match error {
        GeminiError::NoCandidates => "No candidates found in Gemini response"@,
        GeminiError::NoParts => "No parts found in Gemini response"@,
    }
}

impl GeminiError {
    /// What the error is called.
    pub fn message(&self) -> (text: String)
        ensures
            text@ == error_text(*self),
    {
        match self {
            GeminiError::NoCandidates => String::from_str("No candidates found in Gemini response"),
            GeminiError::NoParts => String::from_str("No parts found in Gemini response"),
        }
    }
}

/// The text of an answer, given the texts of the parts of each of its
/// candidates: the first part of the first candidate.
pub fn first_text(candidates: &Vec<Vec<String>>) -> (text: Result<String, GeminiError>)
    ensures
        candidates.len() == 0 ==> text == Err::<String, GeminiError>(GeminiError::NoCandidates),
        candidates.len() > 0 && candidates[0].len() == 0 ==> text == Err::<String, GeminiError>(
            GeminiError::NoParts,
        ),
        candidates.len() > 0 && candidates[0].len() > 0 ==> text == Ok::<String, GeminiError>(
            candidates[0][0],
        ),
{
    if candidates.len() == 0 {
        Err(GeminiError::NoCandidates)
    } else if candidates[0].len() == 0 {
        Err(GeminiError::NoParts)
    } else {
        Ok(candidates[0][0].clone())
    }
}

} // verus!
