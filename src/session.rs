//! The recording session state machine: `Idle -> Recording -> Transcribing -> Idle`,
//! with cancellation back to `Idle`. At most one capture session exists at a time.

use vstd::prelude::*;
use crate::history::HistoryKind;
use crate::models::ModelError;

verus! {

/// Where the dictation pipeline stands.
#[derive(Clone, Copy, Debug, PartialEq, Eq, Structural)]
pub enum AudioState {
    Idle,
    Recording,
    Transcribing,
}

/// Why a command on the session was refused.
#[derive(Clone, Copy, Debug, PartialEq, Eq, Structural)]
pub enum SessionError {
    /// A recording or its transcription is already in progress.
    AlreadyActive,
    /// There is no recording to stop.
    NoActiveRecording,
    /// The recording was started but its capture stream is not open yet.
    CaptureNotReady,
}

/// Why a recording could not start.
#[derive(Clone, Debug)]
pub enum StartError {
    /// The session refused the start.
    Session(SessionError),
    /// The recognizer model is unknown or its files are missing.
    Model(ModelError),
}

impl SessionError {
    /// The user-facing message for the refusal.
    pub fn message(&self) -> (r: String)
        ensures
            *self == SessionError::AlreadyActive ==> r@ == "当前已有录音进行中"@,
            *self == SessionError::NoActiveRecording ==> r@ == "当前没有正在进行的录音"@,
            *self == SessionError::CaptureNotReady ==> r@ == "录音准备中，请稍候再试"@,
    {
        match self {
            SessionError::AlreadyActive => {
                proof { reveal_strlit("当前已有录音进行中"); }
                "当前已有录音进行中".to_owned()
            },
            SessionError::NoActiveRecording => {
                proof { reveal_strlit("当前没有正在进行的录音"); }
                "当前没有正在进行的录音".to_owned()
            },
            SessionError::CaptureNotReady => {
                proof { reveal_strlit("录音准备中，请稍候再试"); }
                "录音准备中，请稍候再试".to_owned()
            },
        }
    }
}

/// The orchestrator's state: the pipeline stage, whether a capture session is
/// open, and what the current recording is for.
#[derive(Clone, Copy, Debug, PartialEq, Eq, Structural)]
pub struct AudioRuntimeState {
    pub state: AudioState,
    pub capture_open: bool,
    pub history_kind: HistoryKind,
}

impl AudioRuntimeState {
    /// A capture session is open only while recording.
    pub open spec fn wf(self) -> bool {
        self.capture_open ==> self.state == AudioState::Recording
    }

    pub open spec fn spec_can_start(self) -> bool {
        self.state == AudioState::Idle
    }

    pub open spec fn spec_after_start(self, kind: HistoryKind, model_ready: bool) -> AudioRuntimeState {
        if model_ready && self.spec_can_start() {
            AudioRuntimeState { state: AudioState::Recording, capture_open: false, history_kind: kind }
        } else {
            self
        }
    }

    pub open spec fn spec_after_cancel(self) -> AudioRuntimeState {
        AudioRuntimeState { state: AudioState::Idle, capture_open: false, ..self }
    }

    pub open spec fn spec_stop_result(self) -> Result<HistoryKind, SessionError> {
        if self.state != AudioState::Recording {
            Err(SessionError::NoActiveRecording)
        } else if !self.capture_open {
            Err(SessionError::CaptureNotReady)
        } else {
            Ok(self.history_kind)
        }
    }

    pub open spec fn spec_after_stop(self) -> AudioRuntimeState {
        if self.spec_stop_result() is Ok {
            AudioRuntimeState { state: AudioState::Transcribing, capture_open: false, ..self }
        } else if self.state == AudioState::Recording {
            AudioRuntimeState { state: AudioState::Idle, capture_open: false, ..self }
        } else {
            self
        }
    }

    /// The idle state a process starts in.
    pub fn new() -> (r: AudioRuntimeState)
        ensures
            r.state == AudioState::Idle,
            !r.capture_open,
            r.history_kind == HistoryKind::Dictation,
            r.wf(),
    {
        AudioRuntimeState { state: AudioState::Idle, capture_open: false, history_kind: HistoryKind::Dictation }
    }

    /// Begins a recording of the given kind, given whether the recognizer
    /// model is ready. A model that is not ready is reported first; otherwise
    /// the start is refused unless idle. A refused start changes nothing.
    pub fn start_recording(&mut self, kind: HistoryKind, model: Result<(), ModelError>) -> (r: Result<(), StartError>)
        requires
            old(self).wf(),
        ensures
            final(self).wf(),
            *final(self) == old(self).spec_after_start(kind, model is Ok),
            r is Ok <==> (model is Ok && old(self).spec_can_start()),
            model matches Err(e) ==> (r matches Err(StartError::Model(e2)) && e2 == e),
            model is Ok && !old(self).spec_can_start() ==> (r matches Err(StartError::Session(e))
                && e == SessionError::AlreadyActive),
    {
        if let Err(e) = model {
            return Err(StartError::Model(e));
        }
        if self.state != AudioState::Idle {
            return Err(StartError::Session(SessionError::AlreadyActive));
        }
        self.state = AudioState::Recording;
        self.capture_open = false;
        self.history_kind = kind;
        Ok(())
    }

    /// Records that the capture stream of the current recording is open.
    /// Returns `false`, and changes nothing, when no recording awaits one; the
    /// caller then closes the stream it opened.
    pub fn capture_opened(&mut self) -> (r: bool)
        requires
            old(self).wf(),
        ensures
            final(self).wf(),
            r == (old(self).state == AudioState::Recording && !old(self).capture_open),
            r ==> *final(self) == (AudioRuntimeState { capture_open: true, ..*old(self) }),
            !r ==> *final(self) == *old(self),
    {
        if self.state == AudioState::Recording && !self.capture_open {
            self.capture_open = true;
            true
        } else {
            false
        }
    }

    /// Stops the recording: the capture is finalised and transcription begins.
    /// Returns the kind of the recording, or the reason there is nothing to
    /// stop. A recording whose capture never opened ends, back to idle.
    pub fn stop_recording(&mut self) -> (r: Result<HistoryKind, SessionError>)
        requires
            old(self).wf(),
        ensures
            final(self).wf(),
            r == old(self).spec_stop_result(),
            *final(self) == old(self).spec_after_stop(),
    {
        if self.state != AudioState::Recording {
            return Err(SessionError::NoActiveRecording);
        }
        if !self.capture_open {
            self.state = AudioState::Idle;
            return Err(SessionError::CaptureNotReady);
        }
        self.state = AudioState::Transcribing;
        self.capture_open = false;
        Ok(self.history_kind)
    }

    /// Discards the current recording, if any, and returns to idle. Never fails.
    pub fn cancel_recording(&mut self)
        requires
            old(self).wf(),
        ensures
            final(self).wf(),
            *final(self) == old(self).spec_after_cancel(),
    {
        self.state = AudioState::Idle;
        self.capture_open = false;
    }

    /// Returns to idle once a transcription has completed or failed, or when the
    /// capture stream could not be opened.
    pub fn set_idle(&mut self)
        requires
            old(self).wf(),
        ensures
            final(self).wf(),
            final(self).state == AudioState::Idle,
            !final(self).capture_open,
            final(self).history_kind == old(self).history_kind,
    {
        self.state = AudioState::Idle;
        self.capture_open = false;
    }
}

/// Starting while a recording or its transcription is in progress is refused
/// and leaves the state, with its one capture session, exactly as it was.
pub proof fn lemma_single_flight(s: AudioRuntimeState, kind: HistoryKind, model_ready: bool)
    requires
        s.wf(),
        s.state == AudioState::Recording || s.state == AudioState::Transcribing,
    ensures
        !s.spec_can_start(),
        s.spec_after_start(kind, model_ready) == s,
{
}

/// Right after a cancellation, a new recording can always be started (with
/// the model ready).
pub proof fn lemma_cancel_then_start(s: AudioRuntimeState, kind: HistoryKind)
    requires
        s.wf(),
    ensures
        s.spec_after_cancel().wf(),
        s.spec_after_cancel().spec_can_start(),
        s.spec_after_cancel().spec_after_start(kind, true).state == AudioState::Recording,
{
}

/// A stop during a recording always leaves the recording: transcription
/// begins, or the session is idle again.
pub proof fn lemma_stop_leaves_recording(s: AudioRuntimeState)
    requires
        s.wf(),
        s.state == AudioState::Recording,
    ensures
        s.spec_after_stop().state == AudioState::Transcribing || s.spec_after_stop().state == AudioState::Idle,
        s.spec_stop_result() is Err ==> s.spec_after_stop().state == AudioState::Idle,
{
}

/// Stopping when idle reports that there is no active recording and stays idle.
pub proof fn lemma_stop_when_idle(s: AudioRuntimeState)
    requires
        s.wf(),
        s.state == AudioState::Idle,
    ensures
        s.spec_stop_result() == Err::<HistoryKind, SessionError>(SessionError::NoActiveRecording),
        s.spec_after_stop() == s,
        s.spec_after_stop().state == AudioState::Idle,
{
}

} // verus!
