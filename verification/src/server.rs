//! Command dispatch: rate limiting, language validation, and the guarded
//! lifecycle transitions behind each control command.
//!
//! The functions here decide; the surrounding process performs the outside
//! work.  A `Start` (or a toggle that starts) needs resources acquired
//! first, so dispatch hands back `StartRequested` and the process drives the
//! acquisition steps against `DaemonState` before committing.

use crate::daemon::{spec_stop, spec_stop_processing, DaemonError, DaemonModel, DaemonState};
use crate::ipc::{Command, Response, StatusInfo};
use crate::rate_limit::{check_step, CommandRateLimiter};
use vstd::prelude::*;
use vstd::string::{StrSliceExecFns, StringExecFns};

verus! {

/// A valid language code: two or three ASCII lowercase letters.
pub open spec fn valid_language_code(s: Seq<char>) -> bool {
    &&& 2 <= s.len() <= 3
    &&& forall|i: int| 0 <= i < s.len() ==> 'a' <= #[trigger] s[i] <= 'z'
}

/// Validates a language code: two or three characters, ASCII lowercase
/// letters only.  Accepts exactly the valid codes; the error names what was
/// wrong.
pub fn validate_language(code: &str) -> (r: Result<(), DaemonError>)
    ensures
        r is Ok <==> valid_language_code(code@),
        match r {
            Ok(()) => valid_language_code(code@),
            Err(DaemonError::LanguageLength(l)) => l@ == code@ && !(2 <= code@.len() <= 3),
            Err(DaemonError::LanguageChars(l)) => l@ == code@ && 2 <= code@.len() <= 3 && !(
            forall|i: int| 0 <= i < code@.len() ==> 'a' <= #[trigger] code@[i] <= 'z'),
            Err(_) => false,
        },
{
    let n = code.unicode_len();
    if n < 2 || n > 3 {
        return Err(DaemonError::LanguageLength(code.to_owned()));
    }
    let mut i: usize = 0;
    while i < n
        invariant
            i <= n,
            n == code@.len(),
            2 <= n <= 3,
            forall|j: int| 0 <= j < i ==> 'a' <= #[trigger] code@[j] <= 'z',
        decreases n - i,
    {
        let c = code.get_char(i);
        if c < 'a' || c > 'z' {
            return Err(DaemonError::LanguageChars(code.to_owned()));
        }
        i = i + 1;
    }
    Ok(())
}

/// What dispatch asks of the surrounding process.
#[derive(Debug)]
pub enum CommandOutcome {
    /// The command was fully handled; send this response.
    Reply(Response),
    /// A start was requested: acquire resources, then commit the start.
    StartRequested,
}

/// What a start must still acquire, resolved against the current state.
#[derive(Debug, Clone, PartialEq)]
pub struct StartPlan {
    pub use_streaming: bool,
    pub need_engine: bool,
    pub need_keyboard: bool,
}

/// Resolves the mode from configuration and lists the missing resources.
/// Refused while audio is already being processed; the state is untouched
/// either way.
pub fn plan_start(state: &DaemonState) -> (r: Result<StartPlan, DaemonError>)
    ensures
        state@.is_processing ==> r == Err::<StartPlan, DaemonError>(DaemonError::AlreadyProcessing),
        !state@.is_processing ==> r == Ok::<StartPlan, DaemonError>(StartPlan {
            use_streaming: state.config.whisper.streaming_mode,
            need_engine: if state.config.whisper.streaming_mode {
                !state@.streaming_loaded
            } else {
                !state@.whisper_loaded
            },
            need_keyboard: !state@.has_keyboard,
        }),
{
    if state.is_processing {
        return Err(DaemonError::AlreadyProcessing);
    }
    let use_streaming = state.config.whisper.streaming_mode;
    Ok(StartPlan {
        use_streaming,
        need_engine: if use_streaming {
            !state.streaming_loaded
        } else {
            !state.whisper_loaded
        },
        need_keyboard: !state.has_keyboard,
    })
}

/// Commits a start once resources are acquired: claims the receiver —
/// subscribing a fresh one from the held audio stream when a previous task
/// consumed it — spawns the mode's processing task, and activates.  Fails
/// without touching the state if processing is already under way or neither
/// a receiver nor a stream to subscribe to exists.
pub fn commit_start(state: &mut DaemonState) -> (r: Result<Response, DaemonError>)
    ensures
        final(state).config == old(state).config,
        old(state)@.is_processing ==> r == Err::<Response, DaemonError>(
            DaemonError::AlreadyProcessing,
        ) && final(state)@ =~= old(state)@,
        !old(state)@.is_processing && !old(state)@.has_audio_rx && !old(state)@.has_audio_capture ==> r == Err::<Response, DaemonError>(
            DaemonError::AudioReceiverUnavailable,
        ) && final(state)@ =~= old(state)@,
        !old(state)@.is_processing && (old(state)@.has_audio_rx || old(state)@.has_audio_capture) ==> r == Ok::<Response, DaemonError>(Response::Okay) && final(state)@ =~= (DaemonModel {
            is_active: true,
            is_processing: true,
            has_audio_rx: false,
            has_vad_task: !old(state).config.whisper.streaming_mode || old(state)@.has_vad_task,
            has_streaming_task: old(state).config.whisper.streaming_mode || old(state)@.has_streaming_task,
            ..old(state)@
        }),
{
    if !state.is_processing && !state.has_audio_rx && state.has_audio_capture {
        // The running stream can always hand out a fresh receiver; the
        // surrounding process subscribes one for the new task.
        state.has_audio_rx = true;
    }
    let use_streaming = state.config.whisper.streaming_mode;
    if use_streaming {
        match state.start_streaming_processing() {
            Ok(()) => {},
            Err(e) => {
                return Err(e);
            },
        }
    } else {
        match state.start_vad_processing() {
            Ok(()) => {},
            Err(e) => {
                return Err(e);
            },
        }
    }
    match state.activate() {
        Ok(()) => {},
        Err(e) => {
            return Err(e);
        },
    }
    Ok(Response::Okay)
}

/// Stops processing, releases audio capture and the receiver, and
/// deactivates; loaded engines stay warm.  Safe when nothing is running,
/// and therefore idempotent.
pub fn handle_stop(state: &mut DaemonState) -> (r: Result<Response, DaemonError>)
    ensures
        r == Ok::<Response, DaemonError>(Response::Okay),
        final(state)@ =~= spec_stop(old(state)@),
        final(state).config == old(state).config,
{
    state.stop_vad_processing();
    state.has_audio_capture = false;
    state.has_audio_rx = false;
    match state.deactivate() {
        Ok(()) => {},
        Err(e) => {
            return Err(e);
        },
    }
    Ok(Response::Okay)
}

/// Pauses transcription: stops the processing task but keeps audio capture
/// alive.  Refused when the daemon is not active.
pub fn handle_pause(state: &mut DaemonState) -> (r: Result<Response, DaemonError>)
    ensures
        final(state).config == old(state).config,
        !old(state)@.is_active ==> r == Err::<Response, DaemonError>(DaemonError::AlreadyPaused)
            && final(state)@ =~= old(state)@,
        old(state)@.is_active ==> r == Ok::<Response, DaemonError>(Response::Okay) && final(state)@ =~= (DaemonModel { is_active: false, ..spec_stop_processing(old(state)@) }),
{
    if !state.is_active {
        return Err(DaemonError::AlreadyPaused);
    }
    state.stop_vad_processing();
    match state.deactivate() {
        Ok(()) => {},
        Err(e) => {
            return Err(e);
        },
    }
    Ok(Response::Okay)
}

/// Resumes transcription after a pause: subscribes a fresh receiver from
/// the still-running audio capture, restarts the mode's processing task and
/// reactivates.  Refused when already active, or when no audio capture is
/// running (a start is needed, not a resume); succeeds whenever the daemon
/// is inactive, not processing, and capture is held.
pub fn handle_resume(state: &mut DaemonState) -> (r: Result<Response, DaemonError>)
    ensures
        final(state).config == old(state).config,
        old(state)@.is_active ==> r == Err::<Response, DaemonError>(DaemonError::AlreadyActive)
            && final(state)@ =~= old(state)@,
        !old(state)@.is_active && !old(state)@.has_audio_capture ==> r == Err::<
            Response,
            DaemonError,
        >(DaemonError::NoAudioCapture) && final(state)@ =~= old(state)@,
        !old(state)@.is_active && old(state)@.has_audio_capture && old(state)@.is_processing ==> r
            == Err::<Response, DaemonError>(DaemonError::AlreadyProcessing) && final(state)@ =~= old(state)@,
        !old(state)@.is_active && old(state)@.has_audio_capture && !old(state)@.is_processing ==> r
            == Ok::<Response, DaemonError>(Response::Okay) && final(state)@ =~= (DaemonModel {
            is_active: true,
            is_processing: true,
            has_audio_rx: false,
            has_vad_task: !old(state).config.whisper.streaming_mode || old(state)@.has_vad_task,
            has_streaming_task: old(state).config.whisper.streaming_mode || old(state)@.has_streaming_task,
            ..old(state)@
        }),
{
    if state.is_active {
        return Err(DaemonError::AlreadyActive);
    }
    if !state.has_audio_capture {
        return Err(DaemonError::NoAudioCapture);
    }
    if !state.is_processing {
        // The running stream can always hand out a fresh receiver; the
        // surrounding process subscribes one for the restarted task.
        state.has_audio_rx = true;
    }
    let use_streaming = state.config.whisper.streaming_mode;
    if use_streaming {
        match state.start_streaming_processing() {
            Ok(()) => {},
            Err(e) => {
                return Err(e);
            },
        }
    } else {
        match state.start_vad_processing() {
            Ok(()) => {},
            Err(e) => {
                return Err(e);
            },
        }
    }
    match state.activate() {
        Ok(()) => {},
        Err(e) => {
            return Err(e);
        },
    }
    Ok(Response::Okay)
}

/// Sets the transcription language after validating it.  The status
/// reflects the change at once; the surrounding process forwards it to a
/// loaded streaming engine so later windows use it too.
pub fn handle_set_language(state: &mut DaemonState, lang: &str) -> (r: Result<
    Response,
    DaemonError,
>)
    ensures
        final(state).config == old(state).config,
        valid_language_code(lang@) ==> r == Ok::<Response, DaemonError>(Response::Okay) && final(state)@ =~= (DaemonModel { language: lang@, ..old(state)@ }),
        !valid_language_code(lang@) ==> final(state)@ =~= old(state)@ && match r {
            Err(DaemonError::LanguageLength(l)) => l@ == lang@ && !(2 <= lang@.len() <= 3),
            Err(DaemonError::LanguageChars(l)) => l@ == lang@ && 2 <= lang@.len() <= 3,
            _ => false,
        },
{
    match validate_language(lang) {
        Ok(()) => {},
        Err(e) => {
            return Err(e);
        },
    }
    state.language = lang.to_owned();
    Ok(Response::Okay)
}

/// The message sent when the rate limiter refuses a command.
pub fn rate_limit_message() -> (r: String)
    ensures
        r@ == "Rate limit exceeded. Please wait before sending more commands."@,
{
    String::from_str("Rate limit exceeded. Please wait before sending more commands.")
}

/// Turns a refused operation into the error response the client receives:
/// errors never close the connection without a reply.
pub fn error_response(e: &DaemonError) -> (r: Response)
    ensures
        match r {
            Response::Error(m) => m@ == e.spec_message(),
            _ => false,
        },
{
    Response::Error(e.message())
}

/// Dispatches one decoded command at time `now_ms`: consults the rate
/// limiter first, then performs the matching lifecycle transition.  `Start`,
/// and a toggle that finds the daemon inactive, come back as
/// `StartRequested`: the caller acquires resources and then commits.
pub fn execute_command(
    state: &mut DaemonState,
    limiter: &mut CommandRateLimiter,
    command: &Command,
    now_ms: u64,
) -> (r: Result<CommandOutcome, DaemonError>)
    requires
        old(limiter).wf(),
    ensures
        final(limiter).wf(),
        final(limiter).commands_per_second == old(limiter).commands_per_second,
        final(limiter).burst_capacity == old(limiter).burst_capacity,
        final(limiter).enabled == old(limiter).enabled,
        final(state).config == old(state).config,
        ({
            let admitted = if old(limiter).enabled {
                check_step(
                    old(limiter).commands_per_second as int,
                    old(limiter).burst_capacity as int,
                    old(limiter)@,
                    now_ms as int,
                ).1
            } else {
                true
            };
            let bucket_after = if old(limiter).enabled {
                check_step(
                    old(limiter).commands_per_second as int,
                    old(limiter).burst_capacity as int,
                    old(limiter)@,
                    now_ms as int,
                ).0
            } else {
                old(limiter)@
            };
            &&& final(limiter)@ == bucket_after
            &&& if !admitted {
                final(state)@ =~= old(state)@ && match r {
                    Ok(CommandOutcome::Reply(Response::Error(m))) => m@
                        == "Rate limit exceeded. Please wait before sending more commands."@,
                    _ => false,
                }
            } else {
                match command {
                    Command::Start => r == Ok::<CommandOutcome, DaemonError>(
                        CommandOutcome::StartRequested,
                    ) && final(state)@ =~= old(state)@,
                    Command::Stop => final(state)@ =~= spec_stop(old(state)@) && match r {
                        Ok(CommandOutcome::Reply(resp)) => resp == Response::Okay,
                        _ => false,
                    },
                    Command::Status => final(state)@ =~= old(state)@ && match r {
                        Ok(CommandOutcome::Reply(Response::Status(st))) => st.is_running
                            && st.is_active == old(state)@.is_active && st.language@ == old(state)@.language,
                        _ => false,
                    },
                    Command::Toggle => if old(state)@.is_active {
                        final(state)@ =~= spec_stop(old(state)@) && match r {
                            Ok(CommandOutcome::Reply(resp)) => resp == Response::Okay,
                            _ => false,
                        }
                    } else {
                        r == Ok::<CommandOutcome, DaemonError>(CommandOutcome::StartRequested)
                            && final(state)@ =~= old(state)@
                    },
                    Command::Pause => if !old(state)@.is_active {
                        r == Err::<CommandOutcome, DaemonError>(DaemonError::AlreadyPaused)
                            && final(state)@ =~= old(state)@
                    } else {
                        final(state)@ =~= (DaemonModel {
                            is_active: false,
                            ..spec_stop_processing(old(state)@)
                        }) && match r {
                            Ok(CommandOutcome::Reply(resp)) => resp == Response::Okay,
                            _ => false,
                        }
                    },
                    Command::Resume => if old(state)@.is_active {
                        r == Err::<CommandOutcome, DaemonError>(DaemonError::AlreadyActive)
                            && final(state)@ =~= old(state)@
                    } else if !old(state)@.has_audio_capture {
                        r == Err::<CommandOutcome, DaemonError>(DaemonError::NoAudioCapture)
                            && final(state)@ =~= old(state)@
                    } else if old(state)@.is_processing {
                        r == Err::<CommandOutcome, DaemonError>(DaemonError::AlreadyProcessing)
                            && final(state)@ =~= old(state)@
                    } else {
                        final(state)@ =~= (DaemonModel {
                            is_active: true,
                            is_processing: true,
                            has_audio_rx: false,
                            has_vad_task: !old(state).config.whisper.streaming_mode || old(state)@.has_vad_task,
                            has_streaming_task: old(state).config.whisper.streaming_mode || old(state)@.has_streaming_task,
                            ..old(state)@
                        }) && match r {
                            Ok(CommandOutcome::Reply(resp)) => resp == Response::Okay,
                            _ => false,
                        }
                    },
                    Command::SetLanguage(lang) => if valid_language_code(lang@) {
                        final(state)@ =~= (DaemonModel { language: lang@, ..old(state)@ })
                            && match r {
                            Ok(CommandOutcome::Reply(resp)) => resp == Response::Okay,
                            _ => false,
                        }
                    } else {
                        final(state)@ =~= old(state)@ && match r {
                            Err(DaemonError::LanguageLength(l)) => l@ == lang@ && !(2 <= lang@.len()
                                <= 3),
                            Err(DaemonError::LanguageChars(l)) => l@ == lang@ && 2 <= lang@.len()
                                <= 3,
                            _ => false,
                        }
                    },
                }
            }
        }),
{
    if !limiter.check(now_ms) {
        return Ok(CommandOutcome::Reply(Response::Error(rate_limit_message())));
    }
    match command {
        Command::Start => Ok(CommandOutcome::StartRequested),
        Command::Stop => {
            let resp = handle_stop(state)?;
            Ok(CommandOutcome::Reply(resp))
        },
        Command::Pause => {
            let resp = handle_pause(state)?;
            Ok(CommandOutcome::Reply(resp))
        },
        Command::Resume => {
            let resp = handle_resume(state)?;
            Ok(CommandOutcome::Reply(resp))
        },
        Command::Status => {
            let status = state.get_status();
            Ok(CommandOutcome::Reply(Response::Status(status)))
        },
        Command::SetLanguage(lang) => {
            let resp = handle_set_language(state, lang.as_str())?;
            Ok(CommandOutcome::Reply(resp))
        },
        Command::Toggle => {
            if state.is_active {
                let resp = handle_stop(state)?;
                Ok(CommandOutcome::Reply(resp))
            } else {
                Ok(CommandOutcome::StartRequested)
            }
        },
    }
}

} // verus!
