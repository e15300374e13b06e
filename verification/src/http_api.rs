//! The answer shapes of the local transcription endpoint. The server
//! itself is an external collaborator.

use vstd::prelude::*;

verus! {

/// A successful transcription answer.
pub struct TranscriptionResponse {
    pub text: String,
}

/// A failure answer.
pub struct ErrorResponse {
    pub error: String,
}

} // verus!
