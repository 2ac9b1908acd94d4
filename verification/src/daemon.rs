//! The daemon lifecycle state machine: which resources are held, whether a
//! processing task is running, and the guarded transitions between those
//! states.
//!
//! The struct here is the decision core.  The surrounding process owns the
//! real resources — audio stream, recognition engine, keyboard handle,
//! spawned tasks — and mirrors each acquisition or release by the matching
//! transition on this state, so every guard and every error path is checked
//! here.

use crate::config::Config;
use crate::ipc::StatusInfo;
use vstd::prelude::*;
use vstd::string::StringExecFns;

verus! {

/// Everything a daemon operation can refuse with.  Each variant carries the
/// exact message the control channel reports.
#[derive(Debug, Clone, PartialEq)]
pub enum DaemonError {
    AlreadyProcessing,
    AudioReceiverUnavailable,
    AlreadyPaused,
    AlreadyActive,
    NoAudioCapture,
    LanguageLength(String),
    LanguageChars(String),
}

impl DaemonError {
    pub open spec fn spec_message(&self) -> Seq<char> {
        match self {
            DaemonError::AlreadyProcessing => "Already processing audio"@,
            DaemonError::AudioReceiverUnavailable => "Audio receiver not available"@,
            DaemonError::AlreadyPaused => "Already paused or not started"@,
            DaemonError::AlreadyActive => "Already active, cannot resume"@,
            DaemonError::NoAudioCapture =>
                "Cannot resume: audio capture not running. Use Start instead."@,
            DaemonError::LanguageLength(l) => "Invalid language code: '"@ + l@
                + "'. Expected 2-3 letter ISO 639-1 code (e.g., 'en', 'es', 'fr')"@,
            DaemonError::LanguageChars(l) => "Invalid language code: '"@ + l@
                + "'. Must be lowercase ASCII letters only"@,
        }
    }

    /// The message reported to the client for this error.
    pub fn message(&self) -> (r: String)
        ensures
            r@ == self.spec_message(),
    {
        match self {
            DaemonError::AlreadyProcessing => String::from_str("Already processing audio"),
            DaemonError::AudioReceiverUnavailable => String::from_str(
                "Audio receiver not available",
            ),
            DaemonError::AlreadyPaused => String::from_str("Already paused or not started"),
            DaemonError::AlreadyActive => String::from_str("Already active, cannot resume"),
            DaemonError::NoAudioCapture => String::from_str(
                "Cannot resume: audio capture not running. Use Start instead.",
            ),
            DaemonError::LanguageLength(l) => {
                let mut s = String::from_str("Invalid language code: '");
                s.append(l.as_str());
                s.append("'. Expected 2-3 letter ISO 639-1 code (e.g., 'en', 'es', 'fr')");
                s
            },
            DaemonError::LanguageChars(l) => {
                let mut s = String::from_str("Invalid language code: '");
                s.append(l.as_str());
                s.append("'. Must be lowercase ASCII letters only");
                s
            },
        }
    }
}

/// The mathematical state of the daemon: its flags and current language.
#[verifier::ext_equal]
pub struct DaemonModel {
    pub language: Seq<char>,
    pub is_active: bool,
    pub is_processing: bool,
    pub has_audio_capture: bool,
    pub has_audio_rx: bool,
    pub whisper_loaded: bool,
    pub streaming_loaded: bool,
    pub has_keyboard: bool,
    pub has_vad_task: bool,
    pub has_streaming_task: bool,
}

/// The state after a stop: the processing task, the audio stream and the
/// receiver are released and the daemon deactivates.  Loaded recognition
/// engines — batch and streaming alike — stay loaded: reloading a model is
/// expensive, so stop releases only the cheap resources.
pub open spec fn spec_stop(m: DaemonModel) -> DaemonModel {
    DaemonModel {
        is_active: false,
        is_processing: false,
        has_audio_capture: false,
        has_audio_rx: false,
        has_vad_task: false,
        has_streaming_task: false,
        ..m
    }
}

/// The state after the processing task alone is torn down (pause path):
/// audio capture stays, and so do the loaded engines.
pub open spec fn spec_stop_processing(m: DaemonModel) -> DaemonModel {
    DaemonModel { is_processing: false, has_vad_task: false, has_streaming_task: false, ..m }
}

/// Stopping is idempotent: a second stop finds nothing left to release and
/// leaves the state exactly as the first one did.
pub proof fn lemma_stop_idempotent(m: DaemonModel)
    ensures
        spec_stop(spec_stop(m)) == spec_stop(m),
{
}

/// The central lifecycle owner.  Boolean fields record which outside
/// resources the surrounding process currently holds on the daemon's behalf.
pub struct DaemonState {
    pub config: Config,
    pub language: String,
    pub is_active: bool,
    pub is_processing: bool,
    pub has_audio_capture: bool,
    pub has_audio_rx: bool,
    pub whisper_loaded: bool,
    pub streaming_loaded: bool,
    pub has_keyboard: bool,
    pub has_vad_task: bool,
    pub has_streaming_task: bool,
}

impl View for DaemonState {
    type V = DaemonModel;

    open spec fn view(&self) -> DaemonModel {
        DaemonModel {
            language: self.language@,
            is_active: self.is_active,
            is_processing: self.is_processing,
            has_audio_capture: self.has_audio_capture,
            has_audio_rx: self.has_audio_rx,
            whisper_loaded: self.whisper_loaded,
            streaming_loaded: self.streaming_loaded,
            has_keyboard: self.has_keyboard,
            has_vad_task: self.has_vad_task,
            has_streaming_task: self.has_streaming_task,
        }
    }
}

impl DaemonState {
    /// A fresh daemon: nothing acquired, nothing running, the language taken
    /// from configuration.
    pub fn new(config: Config) -> (r: Self)
        ensures
            r.config == config,
            r@.language == config.whisper.language@,
            !r@.is_active,
            !r@.is_processing,
            !r@.has_audio_capture,
            !r@.has_audio_rx,
            !r@.whisper_loaded,
            !r@.streaming_loaded,
            !r@.has_keyboard,
            !r@.has_vad_task,
            !r@.has_streaming_task,
    {
        let language = config.whisper.language.clone();
        DaemonState {
            config,
            language,
            is_active: false,
            is_processing: false,
            has_audio_capture: false,
            has_audio_rx: false,
            whisper_loaded: false,
            streaming_loaded: false,
            has_keyboard: false,
            has_vad_task: false,
            has_streaming_task: false,
        }
    }

    /// Marks the daemon active; idempotent, touches nothing else.
    pub fn activate(&mut self) -> (r: Result<(), DaemonError>)
        ensures
            r is Ok,
            final(self)@ =~= (DaemonModel { is_active: true, ..old(self)@ }),
            final(self).config == old(self).config,
    {
        self.is_active = true;
        Ok(())
    }

    /// Marks the daemon inactive; idempotent, touches nothing else.
    pub fn deactivate(&mut self) -> (r: Result<(), DaemonError>)
        ensures
            r is Ok,
            final(self)@ =~= (DaemonModel { is_active: false, ..old(self)@ }),
            final(self).config == old(self).config,
    {
        self.is_active = false;
        Ok(())
    }

    /// A snapshot for the `Status` command.  `is_running` reflects process
    /// liveness, so it is always true once this code answers at all.
    pub fn get_status(&self) -> (r: StatusInfo)
        ensures
            r.is_running == true,
            r.is_active == self@.is_active,
            r.language@ == self@.language,
    {
        StatusInfo {
            is_running: true,
            is_active: self.is_active,
            language: self.language.clone(),
        }
    }

    /// Claims the audio receiver and starts the batch (voice-activity)
    /// processing task.  Refused while a task is already processing, or when
    /// no receiver is available to hand over.
    pub fn start_vad_processing(&mut self) -> (r: Result<(), DaemonError>)
        ensures
            final(self).config == old(self).config,
            old(self)@.is_processing ==> r == Err::<(), DaemonError>(
                DaemonError::AlreadyProcessing,
            ) && final(self)@ =~= old(self)@,
            !old(self)@.is_processing && !old(self)@.has_audio_rx ==> r == Err::<(), DaemonError>(
                DaemonError::AudioReceiverUnavailable,
            ) && final(self)@ =~= old(self)@,
            !old(self)@.is_processing && old(self)@.has_audio_rx ==> r is Ok && final(self)@ =~= (
            DaemonModel {
                is_processing: true,
                has_audio_rx: false,
                has_vad_task: true,
                ..old(self)@
            }),
    {
        if self.is_processing {
            return Err(DaemonError::AlreadyProcessing);
        }
        if !self.has_audio_rx {
            return Err(DaemonError::AudioReceiverUnavailable);
        }
        self.has_audio_rx = false;
        self.is_processing = true;
        self.has_vad_task = true;
        Ok(())
    }

    /// Claims the audio receiver and starts the streaming-window processing
    /// task, under the same guards as the batch path.
    pub fn start_streaming_processing(&mut self) -> (r: Result<(), DaemonError>)
        ensures
            final(self).config == old(self).config,
            old(self)@.is_processing ==> r == Err::<(), DaemonError>(
                DaemonError::AlreadyProcessing,
            ) && final(self)@ =~= old(self)@,
            !old(self)@.is_processing && !old(self)@.has_audio_rx ==> r == Err::<(), DaemonError>(
                DaemonError::AudioReceiverUnavailable,
            ) && final(self)@ =~= old(self)@,
            !old(self)@.is_processing && old(self)@.has_audio_rx ==> r is Ok && final(self)@ =~= (
            DaemonModel {
                is_processing: true,
                has_audio_rx: false,
                has_streaming_task: true,
                ..old(self)@
            }),
    {
        if self.is_processing {
            return Err(DaemonError::AlreadyProcessing);
        }
        if !self.has_audio_rx {
            return Err(DaemonError::AudioReceiverUnavailable);
        }
        self.has_audio_rx = false;
        self.is_processing = true;
        self.has_streaming_task = true;
        Ok(())
    }

    /// Tears down the processing tasks; safe to call when nothing is
    /// running.  Loaded engines stay warm — only the streaming session state
    /// (window, last emitted text) is discarded, by the surrounding process
    /// calling the streaming engine's own stop.
    pub fn stop_vad_processing(&mut self)
        ensures
            final(self)@ =~= spec_stop_processing(old(self)@),
            final(self).config == old(self).config,
    {
        self.is_processing = false;
        self.has_vad_task = false;
        self.has_streaming_task = false;
    }

    /// Records that the processing task exited on its own — its audio
    /// stream closed — and cleared the processing flag behind itself.
    pub fn processing_ended(&mut self)
        ensures
            final(self)@ =~= (DaemonModel {
                is_processing: false,
                has_vad_task: false,
                has_streaming_task: false,
                ..old(self)@
            }),
            final(self).config == old(self).config,
    {
        self.is_processing = false;
        self.has_vad_task = false;
        self.has_streaming_task = false;
    }

    /// Records that the surrounding process attached a live audio stream and
    /// its multicast receiver.
    pub fn attach_audio(&mut self)
        ensures
            final(self)@ =~= (DaemonModel {
                has_audio_capture: true,
                has_audio_rx: true,
                ..old(self)@
            }),
            final(self).config == old(self).config,
    {
        self.has_audio_capture = true;
        self.has_audio_rx = true;
    }

    /// Records that the batch recognition engine finished loading.
    pub fn mark_whisper_loaded(&mut self)
        ensures
            final(self)@ =~= (DaemonModel { whisper_loaded: true, ..old(self)@ }),
            final(self).config == old(self).config,
    {
        self.whisper_loaded = true;
    }

    /// Records that the streaming recognition engine finished loading.
    pub fn mark_streaming_loaded(&mut self)
        ensures
            final(self)@ =~= (DaemonModel { streaming_loaded: true, ..old(self)@ }),
            final(self).config == old(self).config,
    {
        self.streaming_loaded = true;
    }

    /// Records that the keystroke-output handle was acquired.
    pub fn mark_keyboard_ready(&mut self)
        ensures
            final(self)@ =~= (DaemonModel { has_keyboard: true, ..old(self)@ }),
            final(self).config == old(self).config,
    {
        self.has_keyboard = true;
    }
}

} // verus!
