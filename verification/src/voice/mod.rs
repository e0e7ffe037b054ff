//! Voice input: recording, transcription and the state that is shown of them.

pub mod recorder;
pub mod transcriber;

use crate::text::copy_text;
use recorder::RecorderError;
use transcriber::TranscriberError;
use vstd::prelude::*;

verus! {

/// What voice input is doing.
#[derive(Debug)]
pub enum VoiceState {
    Idle,
    Recording,
    /// Bytes loaded, and bytes in all.
    Downloading(u64, u64),
    Transcribing,
    Error(String),
}

/// Something that happened in voice input.
pub enum VoiceEvent {
    StateChanged(VoiceState),
    Transcribed(String),
    DownloadProgress(u64, u64),
    Error(String),
}

/// A voice state with its texts as sequences.
pub enum VoiceStateView {
    Idle,
    Recording,
    Downloading(u64, u64),
    Transcribing,
    Error(Seq<char>),
}

/// A voice event with its texts as sequences.
pub enum VoiceEventView {
    StateChanged(VoiceStateView),
    Transcribed(Seq<char>),
    DownloadProgress(u64, u64),
    Error(Seq<char>),
}

impl View for VoiceState {
    type V = VoiceStateView;

    open spec fn view(&self) -> VoiceStateView {
        match *self {
            VoiceState::Idle => VoiceStateView::Idle,
            VoiceState::Recording => VoiceStateView::Recording,
            VoiceState::Downloading(dl, total) => VoiceStateView::Downloading(dl, total),
            VoiceState::Transcribing => VoiceStateView::Transcribing,
            VoiceState::Error(msg) => VoiceStateView::Error(msg@),
        }
    }
}

impl View for VoiceEvent {
    type V = VoiceEventView;

    open spec fn view(&self) -> VoiceEventView {
        match *self {
            VoiceEvent::StateChanged(state) => VoiceEventView::StateChanged(state@),
            VoiceEvent::Transcribed(text) => VoiceEventView::Transcribed(text@),
            VoiceEvent::DownloadProgress(dl, total) => VoiceEventView::DownloadProgress(dl, total),
            VoiceEvent::Error(msg) => VoiceEventView::Error(msg@),
        }
    }
}

impl Clone for VoiceState {
    fn clone(&self) -> (copy: Self)
        ensures
            copy@ == self@,
    {
        match self {
            VoiceState::Idle => VoiceState::Idle,
            VoiceState::Recording => VoiceState::Recording,
            VoiceState::Downloading(dl, total) => VoiceState::Downloading(*dl, *total),
            VoiceState::Transcribing => VoiceState::Transcribing,
            VoiceState::Error(msg) => VoiceState::Error(copy_text(msg)),
        }
    }
}

/// The contents of a list of events.
pub open spec fn event_views(events: Seq<VoiceEvent>) -> Seq<VoiceEventView> {
    Seq::new(events.len(), |i: int| events[i]@)
}

/// What is to be done next for voice input.
#[derive(Clone, Copy, PartialEq, Eq, Structural, Debug)]
pub enum VoiceRequest {
    Nothing,
    /// Start to record.
    Start,
    /// Stop the recording.
    Stop,
    /// Transcribe what was recorded.
    Transcribe,
    /// Load the transcriber, and when it is there, transcribe what was recorded.
    LoadAndTranscribe,
}

/// Longest recording, in milliseconds.
pub const MAX_RECORDING_MS: u64 = 300000;

/// The state of voice input.
pub struct VoiceManager {
    pub state: VoiceState,
    /// Whether a recording runs.
    pub recorder: bool,
    /// Whether the transcriber is loaded.
    pub transcriber: bool,
    /// When the recording began, in milliseconds.
    pub recording_start: Option<u64>,
}

/// What a key press for voice input asks for, in a given state.
pub open spec fn toggle_request(state: VoiceStateView, recorder: bool) -> VoiceRequest {
    match state {
        VoiceStateView::Idle | VoiceStateView::Error(_) => VoiceRequest::Start,
        VoiceStateView::Recording => if recorder {
            VoiceRequest::Stop
        } else {
            VoiceRequest::Nothing
        },
        _ => VoiceRequest::Nothing,
    }
}

/// Whether a recording that began at `start` has come to its longest time at `now`.
pub open spec fn timed_out(start: Option<u64>, now: u64) -> bool {
    match start {
        Some(t) => now - t >= MAX_RECORDING_MS,
        None => false,
    }
}

impl VoiceManager {
    /// Voice input with nothing going on.
    pub fn new() -> (mgr: Self)
        ensures
            mgr.state@ == VoiceStateView::Idle,
            !mgr.recorder,
            !mgr.transcriber,
            mgr.recording_start is None,
    {
        VoiceManager {
            state: VoiceState::Idle,
            recorder: false,
            transcriber: false,
            recording_start: None,
        }
    }

    /// What voice input is doing.
    pub fn state(&self) -> (state: &VoiceState)
        ensures
            *state == self.state,
    {
        &self.state
    }

    /// Starts or stops a recording; ignored while a recording is transcribed.
    pub fn toggle(&mut self) -> (request: VoiceRequest)
        ensures
            request == toggle_request(old(self).state@, old(self).recorder),
            final(self).state == old(self).state,
            final(self).transcriber == old(self).transcriber,
            final(self).recorder == (old(self).recorder && !(old(self).state is Recording)),
            final(self).recording_start == if old(self).state is Recording {
                None
            } else {
                old(self).recording_start
            },
    {
        match &self.state {
            VoiceState::Idle => VoiceRequest::Start,
            VoiceState::Recording => self.stop_and_transcribe(),
            VoiceState::Downloading(_, _) | VoiceState::Transcribing => VoiceRequest::Nothing,
            VoiceState::Error(_) => VoiceRequest::Start,
        }
    }

    /// Check if recording has exceeded max duration; auto-stop if so.
    pub fn check_timeout(&mut self, now: u64) -> (request: VoiceRequest)
        ensures
            final(self).state == old(self).state,
            final(self).transcriber == old(self).transcriber,
            old(self).state is Recording && timed_out(old(self).recording_start, now) ==> {
                &&& request == toggle_request(old(self).state@, old(self).recorder)
                &&& !final(self).recorder
                &&& final(self).recording_start is None
            },
            !(old(self).state is Recording && timed_out(old(self).recording_start, now)) ==> {
                &&& request == VoiceRequest::Nothing
                &&& final(self).recorder == old(self).recorder
                &&& final(self).recording_start == old(self).recording_start
            },
    {
        match &self.state {
            VoiceState::Recording => match self.recording_start {
                Some(start) => if now >= start && now - start >= MAX_RECORDING_MS {
                    self.stop_and_transcribe()
                } else {
                    VoiceRequest::Nothing
                },
                None => VoiceRequest::Nothing,
            },
            _ => VoiceRequest::Nothing,
        }
    }

    /// Ends the recording, if there is one.
    fn stop_and_transcribe(&mut self) -> (request: VoiceRequest)
        ensures
            request == if old(self).recorder {
                VoiceRequest::Stop
            } else {
                VoiceRequest::Nothing
            },
            final(self).state == old(self).state,
            final(self).transcriber == old(self).transcriber,
            !final(self).recorder,
            final(self).recording_start is None,
    {
        self.recording_start = None;
        if self.recorder {
            self.recorder = false;
            VoiceRequest::Stop
        } else {
            VoiceRequest::Nothing
        }
    }

    /// Takes in how the start of a recording went.
    pub fn recording_started(&mut self, outcome: Result<(), RecorderError>, now: u64) -> (events:
        Vec<VoiceEvent>)
        ensures
            final(self).transcriber == old(self).transcriber,
            match outcome {
                Ok(_) => {
                    &&& final(self).state@ == VoiceStateView::Recording
                    &&& final(self).recorder
                    &&& final(self).recording_start == Some(now)
                    &&& event_views(events@) == seq![
                        VoiceEventView::StateChanged(VoiceStateView::Recording),
                    ]
                },
                Err(e) => {
                    &&& final(self).state@ == VoiceStateView::Error(e.says())
                    &&& final(self).recorder == old(self).recorder
                    &&& final(self).recording_start == old(self).recording_start
                    &&& event_views(events@) == seq![VoiceEventView::Error(e.says())]
                },
            },
    {
        let mut events: Vec<VoiceEvent> = Vec::new();
        match outcome {
            Ok(_) => {
                self.recorder = true;
                self.state = VoiceState::Recording;
                self.recording_start = Some(now);
                events.push(VoiceEvent::StateChanged(VoiceState::Recording));
                assert(event_views(events@) =~= seq![
                    VoiceEventView::StateChanged(VoiceStateView::Recording),
                ]);
            },
            Err(e) => {
                let msg = e.message();
                self.state = VoiceState::Error(copy_text(&msg));
                events.push(VoiceEvent::Error(msg));
                assert(event_views(events@) =~= seq![VoiceEventView::Error(e.says())]);
            },
        }
        events
    }

    /// Takes in how the end of a recording went: the number of its samples, or the error.
    pub fn recording_stopped(&mut self, outcome: Result<usize, RecorderError>) -> (r: (
        Vec<VoiceEvent>,
        VoiceRequest,
    ))
        ensures
            final(self).recorder == old(self).recorder,
            final(self).transcriber == old(self).transcriber,
            final(self).recording_start == old(self).recording_start,
            match outcome {
                Err(e) => {
                    &&& final(self).state@ == VoiceStateView::Error(e.says())
                    &&& event_views(r.0@) == seq![VoiceEventView::Error(e.says())]
                    &&& r.1 == VoiceRequest::Nothing
                },
                Ok(samples) => if samples == 0 {
                    &&& final(self).state@ == VoiceStateView::Idle
                    &&& event_views(r.0@) == seq![
                        VoiceEventView::StateChanged(VoiceStateView::Idle),
                    ]
                    &&& r.1 == VoiceRequest::Nothing
                } else if old(self).transcriber {
                    &&& final(self).state@ == VoiceStateView::Transcribing
                    &&& event_views(r.0@) == seq![
                        VoiceEventView::StateChanged(VoiceStateView::Transcribing),
                    ]
                    &&& r.1 == VoiceRequest::Transcribe
                } else {
                    &&& final(self).state@ == VoiceStateView::Transcribing
                    &&& event_views(r.0@) == seq![
                        VoiceEventView::StateChanged(VoiceStateView::Downloading(0, 0)),
                    ]
                    &&& r.1 == VoiceRequest::LoadAndTranscribe
                },
            },
    {
        let mut events: Vec<VoiceEvent> = Vec::new();
        let request = match outcome {
            Err(e) => {
                let msg = e.message();
                self.state = VoiceState::Error(copy_text(&msg));
                events.push(VoiceEvent::Error(msg));
                assert(event_views(events@) =~= seq![VoiceEventView::Error(e.says())]);
                VoiceRequest::Nothing
            },
            Ok(samples) => if samples == 0 {
                self.state = VoiceState::Idle;
                events.push(VoiceEvent::StateChanged(VoiceState::Idle));
                assert(event_views(events@) =~= seq![
                    VoiceEventView::StateChanged(VoiceStateView::Idle),
                ]);
                VoiceRequest::Nothing
            } else if self.transcriber {
                self.state = VoiceState::Transcribing;
                events.push(VoiceEvent::StateChanged(VoiceState::Transcribing));
                assert(event_views(events@) =~= seq![
                    VoiceEventView::StateChanged(VoiceStateView::Transcribing),
                ]);
                VoiceRequest::Transcribe
            } else {
                self.state = VoiceState::Transcribing;
                events.push(VoiceEvent::StateChanged(VoiceState::Downloading(0, 0)));
                assert(event_views(events@) =~= seq![
                    VoiceEventView::StateChanged(VoiceStateView::Downloading(0, 0)),
                ]);
                VoiceRequest::LoadAndTranscribe
            },
        };
        (events, request)
    }
}

/// What is reported when the transcriber was loaded, or could not be. `None` stands for a
/// loader that went away without a word.
pub fn load_event(outcome: Option<Result<(), TranscriberError>>) -> (event: VoiceEvent)
    ensures
        event@ == match outcome {
            Some(Ok(_)) => VoiceEventView::StateChanged(VoiceStateView::Transcribing),
            Some(Err(e)) => VoiceEventView::Error(e.says()),
            None => VoiceEventView::Error("Transcriber init failed"@),
        },
{
    match outcome {
        Some(Ok(_)) => VoiceEvent::StateChanged(VoiceState::Transcribing),
        Some(Err(e)) => VoiceEvent::Error(e.message()),
        None => VoiceEvent::Error("Transcriber init failed".to_owned()),
    }
}

/// What is reported of a transcription.
pub fn transcription_event(outcome: Result<String, TranscriberError>) -> (event: VoiceEvent)
    ensures
        event@ == match outcome {
            Ok(text) => VoiceEventView::Transcribed(text@),
            Err(e) => VoiceEventView::Error(e.says()),
        },
{
    match outcome {
        Ok(text) => VoiceEvent::Transcribed(text),
        Err(e) => VoiceEvent::Error(e.message()),
    }
}

/// A key press is ignored while a recording is transcribed or a model is loaded.
pub proof fn toggle_is_ignored_while_busy(state: VoiceStateView, recorder: bool)
    requires
        state is Transcribing || state is Downloading,
    ensures
        toggle_request(state, recorder) == VoiceRequest::Nothing,
{
}

/// A key press starts a recording where none runs, also after an error, and stops the one that
/// runs.
pub proof fn toggle_starts_and_stops(state: VoiceStateView)
    ensures
        state is Idle || state is Error ==> toggle_request(state, false) == VoiceRequest::Start
            && toggle_request(state, true) == VoiceRequest::Start,
        state is Recording ==> toggle_request(state, true) == VoiceRequest::Stop
            && toggle_request(state, false) == VoiceRequest::Nothing,
{
}

/// A recording has come to its longest time five minutes after it began, and not before.
pub proof fn recordings_take_five_minutes_at_most(start: u64, now: u64)
    ensures
        timed_out(Some(start), now) <==> now >= start + 5 * 60 * 1000,
        !timed_out(None, now),
{
}

/// What the errors of voice input say.
pub proof fn errors_say_what_went_wrong(rec: RecorderError, tr: TranscriberError)
    ensures
        rec matches RecorderError::StreamConfig(e) ==> rec.says() == "Audio config error: "@ + e@,
        rec matches RecorderError::StreamError(e) ==> rec.says() == "Audio stream error: "@ + e@,
        tr matches TranscriberError::Transcription(e) ==> tr.says() == "Transcription failed: "@
            + e@,
        tr matches TranscriberError::WavWrite(e) ==> tr.says() == "WAV write failed: "@ + e@,
{
}

} // verus!
