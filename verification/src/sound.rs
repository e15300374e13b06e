//! Notification sounds played when a recording starts or stops.

use vstd::prelude::*;

verus! {

/// The cue sounds the application can play around a recording session.
pub enum Sound {
    StartRecording,
    StopRecording,
}

impl Sound {
    /// Name of the bundled audio file for this cue. Both cues currently
    /// share one file.
    pub fn filename(&self) -> (r: &'static str)
        ensures
            r@ == "start_record.mp3"@,
    {
        match self {
            Sound::StartRecording => "start_record.mp3",
            Sound::StopRecording => "start_record.mp3",
        }
    }
}

} // verus!
