//! Why a recording can fail.

use crate::text::push_text;
use vstd::prelude::*;

verus! {

/// Why a recording could not be made.
#[derive(Debug)]
pub enum RecorderError {
    NoInputDevice,
    StreamConfig(String),
    StreamError(String),
}

impl RecorderError {
    /// What the error says.
    pub open spec fn says(self) -> Seq<char> {
        match self {
            RecorderError::NoInputDevice =>
                "No audio input device found. Grant microphone access to your terminal in System Settings > Privacy > Microphone"@,
            RecorderError::StreamConfig(e) => "Audio config error: "@ + e@,
            RecorderError::StreamError(e) => "Audio stream error: "@ + e@,
        }
    }

    /// The error in words.
    pub fn message(&self) -> (msg: String)
        ensures
            msg@ == self.says(),
    {
        match self {
            RecorderError::NoInputDevice =>
                "No audio input device found. Grant microphone access to your terminal in System Settings > Privacy > Microphone".to_owned(),
            RecorderError::StreamConfig(e) => {
                let mut msg = "Audio config error: ".to_owned();
                push_text(&mut msg, e.as_str());
                msg
            },
            RecorderError::StreamError(e) => {
                let mut msg = "Audio stream error: ".to_owned();
                push_text(&mut msg, e.as_str());
                msg
            },
        }
    }
}

} // verus!
