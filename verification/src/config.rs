//! Configuration of the daemon, consumed as plain data.
//!
//! Gains and detection thresholds are fixed-point values in thousandths:
//! a gain of `1000` is unity, a threshold of `20` is two percent of full
//! scale.  Reading a configuration file is the surrounding process's job;
//! this module only defines the shape of the data and its defaults.

use vstd::prelude::*;
use vstd::string::StringExecFns;

verus! {

#[derive(Debug, Clone, PartialEq)]
pub struct AudioConfig {
    pub device: String,
    pub sample_rate: u32,
    pub chunk_size: u32,
    pub gain_milli: u32,
    pub channels: u16,
}

#[derive(Debug, Clone, PartialEq)]
pub struct VadConfig {
    pub threshold_start_milli: u32,
    pub threshold_stop_milli: u32,
    pub min_speech_duration_ms: u32,
    pub min_silence_duration_ms: u32,
}

#[derive(Debug, Clone, PartialEq)]
pub struct WhisperConfig {
    pub model_path: Option<String>,
    pub model_url: String,
    pub model_checksum: Option<String>,
    pub language: String,
    pub n_thread: u32,
    pub backend: String,
    pub streaming_mode: bool,
    pub min_audio_samples: usize,
    pub sampling_strategy: String,
}

#[derive(Debug, Clone, PartialEq)]
pub struct StreamingConfig {
    pub step_ms: u32,
    pub length_ms: u32,
    pub keep_ms: u32,
}

#[derive(Debug, Clone, PartialEq)]
pub struct BufferConfig {
    pub broadcast_capacity: usize,
}

#[derive(Debug, Clone, PartialEq)]
pub struct OutputConfig {
    pub typing_mode: String,
}

#[derive(Debug, Clone, PartialEq)]
pub struct RateLimitConfig {
    pub commands_per_second: u32,
    pub burst_capacity: u32,
    pub enabled: bool,
}

#[derive(Debug, Clone, PartialEq)]
pub struct TimeoutsConfig {
    pub whisper_timeout_seconds: u64,
    pub keyboard_timeout_seconds: u64,
    pub socket_connect_timeout_seconds: u64,
    pub socket_operation_timeout_seconds: u64,
    pub model_download_timeout_seconds: u64,
}

#[derive(Debug, Clone, PartialEq)]
pub struct Config {
    pub audio: AudioConfig,
    pub vad: VadConfig,
    pub whisper: WhisperConfig,
    pub streaming: StreamingConfig,
    pub buffer: BufferConfig,
    pub output: OutputConfig,
    pub rate_limit: RateLimitConfig,
    pub timeouts: TimeoutsConfig,
}

pub fn default_sample_rate() -> (r: u32)
    ensures
        r == 16000,
{
    16000
}

pub fn default_chunk_size() -> (r: u32)
    ensures
        r == 512,
{
    512
}

/// Unity gain, in thousandths.
pub fn default_gain_milli() -> (r: u32)
    ensures
        r == 1000,
{
    1000
}

pub fn default_channels() -> (r: u16)
    ensures
        r == 1,
{
    1
}

/// Two percent of full scale, in thousandths.
pub fn default_threshold_start_milli() -> (r: u32)
    ensures
        r == 20,
{
    20
}

/// One percent of full scale, in thousandths.
pub fn default_threshold_stop_milli() -> (r: u32)
    ensures
        r == 10,
{
    10
}

pub fn default_min_speech_duration() -> (r: u32)
    ensures
        r == 250,
{
    250
}

pub fn default_min_silence_duration() -> (r: u32)
    ensures
        r == 1000,
{
    1000
}

pub fn default_model_url() -> (r: String)
    ensures
        r@ == "https://huggingface.co/ggerganov/whisper.cpp/resolve/main/ggml-base.bin"@,
{
    String::from_str("https://huggingface.co/ggerganov/whisper.cpp/resolve/main/ggml-base.bin")
}

pub fn default_language() -> (r: String)
    ensures
        r@ == "en"@,
{
    String::from_str("en")
}

pub fn default_n_thread() -> (r: u32)
    ensures
        r == 4,
{
    4
}

pub fn default_backend() -> (r: String)
    ensures
        r@ == "cpu"@,
{
    String::from_str("cpu")
}

pub fn default_streaming_mode() -> (r: bool)
    ensures
        r == false,
{
    false
}

pub fn default_min_audio_samples() -> (r: usize)
    ensures
        r == 18000,
{
    18000
}

pub fn default_sampling_strategy() -> (r: String)
    ensures
        r@ == "greedy"@,
{
    String::from_str("greedy")
}

pub fn default_streaming_step_ms() -> (r: u32)
    ensures
        r == 3000,
{
    3000
}

pub fn default_streaming_length_ms() -> (r: u32)
    ensures
        r == 10000,
{
    10000
}

pub fn default_streaming_keep_ms() -> (r: u32)
    ensures
        r == 500,
{
    500
}

pub fn default_broadcast_capacity() -> (r: usize)
    ensures
        r == 100,
{
    100
}

pub fn default_typing_mode() -> (r: String)
    ensures
        r@ == "instant"@,
{
    String::from_str("instant")
}

pub fn default_commands_per_second() -> (r: u32)
    ensures
        r == 10,
{
    10
}

pub fn default_burst_capacity() -> (r: u32)
    ensures
        r == 20,
{
    20
}

pub fn default_rate_limit_enabled() -> (r: bool)
    ensures
        r == true,
{
    true
}

pub fn default_whisper_timeout() -> (r: u64)
    ensures
        r == 30,
{
    30
}

pub fn default_keyboard_timeout() -> (r: u64)
    ensures
        r == 5,
{
    5
}

pub fn default_socket_connect_timeout() -> (r: u64)
    ensures
        r == 5,
{
    5
}

pub fn default_socket_operation_timeout() -> (r: u64)
    ensures
        r == 10,
{
    10
}

pub fn default_model_download_timeout() -> (r: u64)
    ensures
        r == 300,
{
    300
}

impl Default for AudioConfig {
    fn default() -> (r: Self)
        ensures
            r.device@ == "default"@,
            r.sample_rate == 16000,
            r.chunk_size == 512,
            r.gain_milli == 1000,
            r.channels == 1,
    {
        AudioConfig {
            device: String::from_str("default"),
            sample_rate: default_sample_rate(),
            chunk_size: default_chunk_size(),
            gain_milli: default_gain_milli(),
            channels: default_channels(),
        }
    }
}

impl Default for VadConfig {
    fn default() -> (r: Self)
        ensures
            r.threshold_start_milli == 20,
            r.threshold_stop_milli == 10,
            r.min_speech_duration_ms == 250,
            r.min_silence_duration_ms == 1000,
    {
        VadConfig {
            threshold_start_milli: default_threshold_start_milli(),
            threshold_stop_milli: default_threshold_stop_milli(),
            min_speech_duration_ms: default_min_speech_duration(),
            min_silence_duration_ms: default_min_silence_duration(),
        }
    }
}

impl Default for WhisperConfig {
    fn default() -> (r: Self)
        ensures
            r.model_path is None,
            r.model_url@ == "https://huggingface.co/ggerganov/whisper.cpp/resolve/main/ggml-base.bin"@,
            r.model_checksum is None,
            r.language@ == "en"@,
            r.n_thread == 4,
            r.backend@ == "cpu"@,
            r.streaming_mode == false,
            r.min_audio_samples == 18000,
            r.sampling_strategy@ == "greedy"@,
    {
        WhisperConfig {
            model_path: None,
            model_url: default_model_url(),
            model_checksum: None,
            language: default_language(),
            n_thread: default_n_thread(),
            backend: default_backend(),
            streaming_mode: default_streaming_mode(),
            min_audio_samples: default_min_audio_samples(),
            sampling_strategy: default_sampling_strategy(),
        }
    }
}

impl Default for StreamingConfig {
    fn default() -> (r: Self)
        ensures
            r.step_ms == 3000,
            r.length_ms == 10000,
            r.keep_ms == 500,
    {
        StreamingConfig {
            step_ms: default_streaming_step_ms(),
            length_ms: default_streaming_length_ms(),
            keep_ms: default_streaming_keep_ms(),
        }
    }
}

impl Default for BufferConfig {
    fn default() -> (r: Self)
        ensures
            r.broadcast_capacity == 100,
    {
        BufferConfig { broadcast_capacity: default_broadcast_capacity() }
    }
}

impl Default for OutputConfig {
    fn default() -> (r: Self)
        ensures
            r.typing_mode@ == "instant"@,
    {
        OutputConfig { typing_mode: default_typing_mode() }
    }
}

impl Default for RateLimitConfig {
    fn default() -> (r: Self)
        ensures
            r.commands_per_second == 10,
            r.burst_capacity == 20,
            r.enabled == true,
    {
        RateLimitConfig {
            commands_per_second: default_commands_per_second(),
            burst_capacity: default_burst_capacity(),
            enabled: default_rate_limit_enabled(),
        }
    }
}

impl Default for TimeoutsConfig {
    fn default() -> (r: Self)
        ensures
            r.whisper_timeout_seconds == 30,
            r.keyboard_timeout_seconds == 5,
            r.socket_connect_timeout_seconds == 5,
            r.socket_operation_timeout_seconds == 10,
            r.model_download_timeout_seconds == 300,
    {
        TimeoutsConfig {
            whisper_timeout_seconds: default_whisper_timeout(),
            keyboard_timeout_seconds: default_keyboard_timeout(),
            socket_connect_timeout_seconds: default_socket_connect_timeout(),
            socket_operation_timeout_seconds: default_socket_operation_timeout(),
            model_download_timeout_seconds: default_model_download_timeout(),
        }
    }
}

impl Default for Config {
    fn default() -> (r: Self)
        ensures
            r.audio.device@ == "default"@,
            r.audio.sample_rate == 16000,
            r.audio.chunk_size == 512,
            r.audio.gain_milli == 1000,
            r.audio.channels == 1,
            r.vad.threshold_start_milli == 20,
            r.vad.threshold_stop_milli == 10,
            r.vad.min_speech_duration_ms == 250,
            r.vad.min_silence_duration_ms == 1000,
            r.whisper.model_path is None,
            r.whisper.model_url@ == "https://huggingface.co/ggerganov/whisper.cpp/resolve/main/ggml-base.bin"@,
            r.whisper.model_checksum is None,
            r.whisper.language@ == "en"@,
            r.whisper.n_thread == 4,
            r.whisper.backend@ == "cpu"@,
            r.whisper.streaming_mode == false,
            r.whisper.min_audio_samples == 18000,
            r.whisper.sampling_strategy@ == "greedy"@,
            r.streaming.step_ms == 3000,
            r.streaming.length_ms == 10000,
            r.streaming.keep_ms == 500,
            r.buffer.broadcast_capacity == 100,
            r.output.typing_mode@ == "instant"@,
            r.rate_limit.commands_per_second == 10,
            r.rate_limit.burst_capacity == 20,
            r.rate_limit.enabled == true,
            r.timeouts.whisper_timeout_seconds == 30,
            r.timeouts.keyboard_timeout_seconds == 5,
            r.timeouts.socket_connect_timeout_seconds == 5,
            r.timeouts.socket_operation_timeout_seconds == 10,
            r.timeouts.model_download_timeout_seconds == 300,
    {
        Config {
            audio: AudioConfig::default(),
            vad: VadConfig::default(),
            whisper: WhisperConfig::default(),
            streaming: StreamingConfig::default(),
            buffer: BufferConfig::default(),
            output: OutputConfig::default(),
            rate_limit: RateLimitConfig::default(),
            timeouts: TimeoutsConfig::default(),
        }
    }
}

} // verus!
