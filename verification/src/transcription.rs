//! Real-time audio transcription of a Twitch stream.
//!
//! Audio goes from streamlink through ffmpeg to Deepgram's speech-to-text
//! WebSocket API. This module says how the commands and the connection are set
//! up, what becomes of each thing that happens on the way, and when the pipeline
//! is started again.

use crate::number::{decimal, to_decimal, Confidence};
use crate::text::{
    chars_of, has_word, join2, join4, same_text, string_of, trim, trimmed, word_at,
};
use vstd::arithmetic::power2::{lemma2_to64, lemma_pow2_unfold, pow2};
use vstd::prelude::*;
use vstd::slice::slice_subrange;
use vstd::utf8::encode_utf8;

verus! {

/// Size of audio chunks to read from ffmpeg stdout, in bytes.
/// 16kHz sample rate * 1 channel * 2 bytes/sample * 0.25 seconds = 8000 bytes per 250ms.
pub const AUDIO_CHUNK_SIZE: usize = 8000;

/// Seconds to wait for the first audio, which Twitch ads may delay.
pub const FIRST_AUDIO_TIMEOUT_SECS: u64 = 90;

/// Maximum reconnect backoff, in seconds.
pub const MAX_BACKOFF_SECS: u64 = 30;

/// Initial reconnect backoff, in seconds.
pub const INITIAL_BACKOFF_SECS: u64 = 1;

/// Minimum transcript length to display, in bytes (filters noise artifacts).
pub const MIN_TRANSCRIPT_LEN: usize = 2;

/// The message that asks Deepgram to finish the stream.
pub const CLOSE_STREAM: &'static str = "{\"type\":\"CloseStream\"}";

/// Events sent from the transcription pipeline to the display loop.
#[derive(Debug, Clone)]
pub enum TranscriptionEvent {
    /// A partial (interim) transcription result that may be refined.
    Interim {
        /// The interim transcript text.
        transcript: String,
    },
    /// A finalized transcription result that will not change.
    Final {
        /// The final transcript text.
        transcript: String,
        /// Deepgram's confidence score for this result.
        confidence: Confidence,
    },
    /// A recoverable error occurred in the pipeline.
    Error(String),
    /// The pipeline has fully shut down.
    Shutdown,
}

/// What a [`TranscriptionEvent`] holds.
pub enum EventModel {
    Interim { transcript: Seq<char> },
    Final { transcript: Seq<char>, confidence: Confidence },
    Error(Seq<char>),
    Shutdown,
}

impl DeepView for TranscriptionEvent {
    type V = EventModel;

    open spec fn deep_view(&self) -> EventModel {
        match self {
            TranscriptionEvent::Interim { transcript } => EventModel::Interim {
                transcript: transcript@,
            },
            TranscriptionEvent::Final { transcript, confidence } => EventModel::Final {
                transcript: transcript@,
                confidence: *confidence,
            },
            TranscriptionEvent::Error(message) => EventModel::Error(message@),
            TranscriptionEvent::Shutdown => EventModel::Shutdown,
        }
    }
}

/// Configuration for the transcription pipeline.
#[derive(Debug, Clone)]
pub struct TranscriptionConfig {
    /// Deepgram API key.
    pub api_key: String,
    /// Twitch channel name (without #).
    pub channel: String,
    /// Deepgram language code (e.g., "ru", "en", "multi").
    pub language: String,
    /// Deepgram model (e.g., "nova-2").
    pub model: String,
}

/// What a [`TranscriptionConfig`] holds.
pub struct TranscriptionConfigModel {
    pub api_key: Seq<char>,
    pub channel: Seq<char>,
    pub language: Seq<char>,
    pub model: Seq<char>,
}

impl DeepView for TranscriptionConfig {
    type V = TranscriptionConfigModel;

    open spec fn deep_view(&self) -> TranscriptionConfigModel {
        TranscriptionConfigModel {
            api_key: self.api_key@,
            channel: self.channel@,
            language: self.language@,
            model: self.model@,
        }
    }
}

// Commands and connection.

/// A required command that is not installed.
pub open spec fn missing_dependency(command: Seq<char>, install_hint: Seq<char>) -> Seq<char> {
    "'"@ + command + "' not found on PATH. "@ + install_hint
}

/// Checks that a required external command was found on PATH.
///
/// Returns an error with the install hint if it was not.
pub fn check_dependency(command: &str, install_hint: &str, found: bool) -> (r: Result<(), String>)
    ensures
        r is Ok <==> found,
        r matches Err(message) ==> message@ == missing_dependency(command@, install_hint@),
{
    if found {
        Ok(())
    } else {
        Err(join4("'", command, "' not found on PATH. ", install_hint))
    }
}

/// The arguments with which streamlink writes the audio of a channel.
///
/// Takes the audio alone where it can be had, else the smallest video, and
/// starts from the most recent segment to keep the latency low.
pub open spec fn streamlink_arguments(channel: Seq<char>) -> Seq<Seq<char>> {
    seq![
        "twitch.tv/"@ + channel,
        "audio_only,worst"@,
        "--stdout"@,
        "--twitch-low-latency"@,
        "--hls-live-edge"@,
        "1"@,
    ]
}

/// The arguments with which streamlink writes the audio of a channel.
pub fn streamlink_args(channel: &str) -> (r: Vec<String>)
    ensures
        r.deep_view() == streamlink_arguments(channel@),
{
    let r = vec![
        join2("twitch.tv/", channel),
        "audio_only,worst".to_string(),
        "--stdout".to_string(),
        "--twitch-low-latency".to_string(),
        "--hls-live-edge".to_string(),
        "1".to_string(),
    ];
    assert(r.deep_view() =~= streamlink_arguments(channel@));
    r
}

/// The arguments with which ffmpeg turns its input into 16kHz mono 16-bit
/// signed little-endian PCM, without video and with little buffering.
pub open spec fn ffmpeg_arguments() -> Seq<Seq<char>> {
    seq![
        "-probesize"@,
        "1000000"@,
        "-analyzeduration"@,
        "500000"@,
        "-fflags"@,
        "+nobuffer"@,
        "-flags"@,
        "low_delay"@,
        "-i"@,
        "pipe:0"@,
        "-vn"@,
        "-f"@,
        "s16le"@,
        "-acodec"@,
        "pcm_s16le"@,
        "-ar"@,
        "16000"@,
        "-ac"@,
        "1"@,
        "-loglevel"@,
        "quiet"@,
        "pipe:1"@,
    ]
}

/// The arguments of ffmpeg.
pub fn ffmpeg_args() -> (r: Vec<&'static str>)
    ensures
        r.deep_view() == ffmpeg_arguments(),
{
    let r = vec![
        "-probesize",
        "1000000",
        "-analyzeduration",
        "500000",
        "-fflags",
        "+nobuffer",
        "-flags",
        "low_delay",
        "-i",
        "pipe:0",
        "-vn",
        "-f",
        "s16le",
        "-acodec",
        "pcm_s16le",
        "-ar",
        "16000",
        "-ac",
        "1",
        "-loglevel",
        "quiet",
        "pipe:1",
    ];
    assert(r.deep_view() =~= ffmpeg_arguments());
    r
}

/// The URL of Deepgram's streaming API for a configuration.
pub open spec fn deepgram_url(config: TranscriptionConfigModel) -> Seq<char> {
    "wss://api.deepgram.com/v1/listen?encoding=linear16&sample_rate=16000&channels=1&model="@
        + config.model + "&interim_results=true&smart_format=true&language="@ + config.language
}

/// The headers of the WebSocket handshake, with the given key.
pub open spec fn deepgram_headers(config: TranscriptionConfigModel, key: Seq<char>) -> Seq<
    (Seq<char>, Seq<char>),
> {
    seq![
        ("Host"@, "api.deepgram.com"@),
        ("Connection"@, "Upgrade"@),
        ("Upgrade"@, "websocket"@),
        ("Sec-WebSocket-Version"@, "13"@),
        ("Sec-WebSocket-Key"@, key),
        ("Authorization"@, "Token "@ + config.api_key),
    ]
}

impl TranscriptionConfig {
    /// The URL of Deepgram's streaming API.
    pub fn listen_url(&self) -> (r: String)
        ensures
            r@ == deepgram_url(self.deep_view()),
    {
        join4(
            "wss://api.deepgram.com/v1/listen?encoding=linear16&sample_rate=16000&channels=1&model=",
            self.model.as_str(),
            "&interim_results=true&smart_format=true&language=",
            self.language.as_str(),
        )
    }

    /// The headers of the WebSocket handshake, with the given key.
    pub fn handshake_headers(&self, key: &str) -> (r: Vec<(String, String)>)
        ensures
            r.deep_view() == deepgram_headers(self.deep_view(), key@),
    {
        let r = vec![
            ("Host".to_string(), "api.deepgram.com".to_string()),
            ("Connection".to_string(), "Upgrade".to_string()),
            ("Upgrade".to_string(), "websocket".to_string()),
            ("Sec-WebSocket-Version".to_string(), "13".to_string()),
            ("Sec-WebSocket-Key".to_string(), key.to_string()),
            ("Authorization".to_string(), join2("Token ", self.api_key.as_str())),
        ];
        assert(r.deep_view() =~= deepgram_headers(self.deep_view(), key@));
        r
    }
}

// Results.

/// Top-level Deepgram streaming API response.
#[derive(Debug, Clone)]
pub struct DeepgramResponse {
    /// Response type. Only "Results" messages hold a transcript.
    pub response_type: Option<String>,
    /// Channel data containing transcription alternatives.
    pub channel: Option<DeepgramChannel>,
    /// Whether this audio segment's transcript is finalized.
    pub is_final: Option<bool>,
}

/// Channel data from a Deepgram response.
#[derive(Debug, Clone)]
pub struct DeepgramChannel {
    /// List of transcription alternatives, ordered by confidence.
    pub alternatives: Vec<DeepgramAlternative>,
}

/// A single transcription alternative from Deepgram.
#[derive(Debug, Clone)]
pub struct DeepgramAlternative {
    /// The transcribed text.
    pub transcript: String,
    /// Confidence score between 0.0 and 1.0.
    pub confidence: Confidence,
}

/// What a [`DeepgramAlternative`] holds.
pub struct AlternativeModel {
    pub transcript: Seq<char>,
    pub confidence: Confidence,
}

/// What a [`DeepgramResponse`] holds.
pub struct ResponseModel {
    pub response_type: Option<Seq<char>>,
    pub channel: Option<Seq<AlternativeModel>>,
    pub is_final: Option<bool>,
}

impl DeepView for DeepgramAlternative {
    type V = AlternativeModel;

    open spec fn deep_view(&self) -> AlternativeModel {
        AlternativeModel { transcript: self.transcript@, confidence: self.confidence }
    }
}

impl DeepView for DeepgramChannel {
    type V = Seq<AlternativeModel>;

    open spec fn deep_view(&self) -> Seq<AlternativeModel> {
        self.alternatives.deep_view()
    }
}

impl DeepView for DeepgramResponse {
    type V = ResponseModel;

    open spec fn deep_view(&self) -> ResponseModel {
        ResponseModel {
            response_type: self.response_type.deep_view(),
            channel: self.channel.deep_view(),
            is_final: self.is_final,
        }
    }
}

/// A transcript that is worth passing on: what is left of it without white
/// space at the ends is long enough.
pub open spec fn audible(transcript: Seq<char>) -> bool {
    encode_utf8(trimmed(transcript)).len() >= MIN_TRANSCRIPT_LEN
}

/// The event of a response: its first alternative, where it is of type
/// "Results" and the transcript is no noise.
pub open spec fn event_of(response: ResponseModel) -> Option<EventModel> {
    if response.response_type == Some("Results"@) && response.channel is Some
        && response.channel->0.len() > 0 && audible(response.channel->0[0].transcript) {
        let first = response.channel->0[0];
        Some(
            if response.is_final == Some(true) {
                EventModel::Final {
                    transcript: trimmed(first.transcript),
                    confidence: first.confidence,
                }
            } else {
                EventModel::Interim { transcript: trimmed(first.transcript) }
            },
        )
    } else {
        None
    }
}

/// The event of a text frame: none where the frame could not be read.
pub open spec fn event_in(response: Option<ResponseModel>) -> Option<EventModel> {
    match response {
        Some(r) => event_of(r),
        None => None,
    }
}

/// Turns a Deepgram response into a `TranscriptionEvent`; `response` is `None`
/// for a frame that could not be read.
///
/// Returns `None` for such frames, non-Results messages, empty transcripts, or
/// very short utterances that are likely noise artifacts.
pub fn parse_deepgram_response(response: &Option<DeepgramResponse>) -> (r: Option<
    TranscriptionEvent,
>)
    ensures
        r.deep_view() == event_in(response.deep_view()),
{
    let response = match response {
        Some(response) => response,
        None => {
            return None;
        },
    };
    match &response.response_type {
        Some(kind) => if !same_text(kind.as_str(), "Results") {
            return None;
        },
        None => {
            return None;
        },
    }
    let channel = match &response.channel {
        Some(channel) => channel,
        None => {
            return None;
        },
    };
    if channel.alternatives.len() == 0 {
        return None;
    }
    let alt = &channel.alternatives[0];
    assert(response.deep_view().channel->0[0] == alt.deep_view());
    let chars = chars_of(alt.transcript.as_str());
    let transcript = string_of(trim(chars.as_slice()));
    if transcript.as_str().as_bytes().len() < MIN_TRANSCRIPT_LEN {
        return None;
    }
    let is_final = match response.is_final {
        Some(b) => b,
        None => false,
    };
    if is_final {
        Some(TranscriptionEvent::Final { transcript, confidence: alt.confidence })
    } else {
        Some(TranscriptionEvent::Interim { transcript })
    }
}

// The two ends of the connection.

/// The outcome of waiting for the first audio.
#[derive(Debug, Clone)]
pub enum FirstRead {
    /// Nothing came in time.
    TimedOut,
    /// Reading failed.
    Failed,
    /// The first bytes of a buffer were filled.
    Read {
        /// The buffer.
        buffer: Vec<u8>,
        /// The number of bytes that were read.
        count: usize,
    },
}

/// The first audio chunk, or why there is none.
pub fn first_audio(read: FirstRead) -> (r: Result<Vec<u8>, &'static str>)
    requires
        read matches FirstRead::Read { buffer, count } ==> count <= buffer@.len(),
    ensures
        match r {
            Ok(chunk) => first_chunk(read) == Ok::<Seq<u8>, Seq<char>>(chunk@),
            Err(message) => first_chunk(read) == Err::<Seq<u8>, Seq<char>>(message@),
        },
{
    match read {
        FirstRead::TimedOut => Err(
            "Timed out waiting for audio from ffmpeg (stream may be offline)",
        ),
        FirstRead::Failed => Err("Failed to read audio from ffmpeg"),
        FirstRead::Read { buffer, count } => {
            if count == 0 {
                return Err("ffmpeg produced no audio (stream may be offline or unavailable)");
            }
            Ok(first_bytes(buffer.as_slice(), count))
        },
    }
}

fn first_bytes(buffer: &[u8], count: usize) -> (r: Vec<u8>)
    requires
        count <= buffer@.len(),
    ensures
        r@ == buffer@.take(count as int),
{
    let r = vstd::slice::slice_to_vec(slice_subrange(buffer, 0, count));
    assert(r@ =~= buffer@.take(count as int));
    r
}

/// The outcome of starting streamlink.
#[derive(Debug, Clone, Copy, PartialEq, Eq, Structural)]
pub enum StreamlinkStart {
    /// It could not be started.
    NotSpawned,
    /// Its output cannot be read.
    NoOutput,
    /// It runs.
    Running,
}

/// The outcome of starting ffmpeg.
#[derive(Debug, Clone, Copy, PartialEq, Eq, Structural)]
pub enum FfmpegStart {
    /// It cannot be given the output of streamlink.
    NoInput,
    /// It could not be started.
    NotSpawned,
    /// Its output cannot be read.
    NoOutput,
    /// It runs.
    Running,
}

/// The outcome of connecting to Deepgram.
#[derive(Debug, Clone, Copy, PartialEq, Eq, Structural)]
pub enum DeepgramStart {
    /// The request could not be built.
    BadRequest,
    /// The connection failed.
    NotConnected,
    /// The connection is there.
    Connected,
}

/// Something that happens in a single run of the pipeline.
#[derive(Debug, Clone)]
pub enum RunInput {
    /// The run begins.
    Begin,
    /// streamlink was started.
    Streamlink(StreamlinkStart),
    /// ffmpeg was started.
    Ffmpeg(FfmpegStart),
    /// The first audio was awaited.
    Audio(FirstRead),
    /// Deepgram was connected to.
    Deepgram(DeepgramStart),
    /// The audio sender or the result receiver has ended, in whatever way, or
    /// the shutdown signal has come.
    StreamEnded,
    /// Tasks and processes are gone.
    CleanedUp,
}

/// What a single run of the pipeline does next.
#[derive(Debug, Clone)]
pub enum RunStep {
    /// Start streamlink with these arguments.
    SpawnStreamlink(Vec<String>),
    /// Start ffmpeg on the output of streamlink, with these arguments.
    SpawnFfmpeg(Vec<&'static str>),
    /// Wait for the first audio of ffmpeg.
    AwaitAudio,
    /// Connect to Deepgram and keep the first audio chunk.
    Connect(Vec<u8>),
    /// Send audio, from the first chunk on, and receive results.
    Stream,
    /// Stop the tasks, then the processes.
    CleanUp,
    /// The run has ended by itself.
    Finish,
    /// The run has failed.
    Fail(&'static str),
}

/// What a [`RunStep`] holds.
pub enum RunStepModel {
    SpawnStreamlink(Seq<Seq<char>>),
    SpawnFfmpeg(Seq<Seq<char>>),
    AwaitAudio,
    Connect(Seq<u8>),
    Stream,
    CleanUp,
    Finish,
    Fail(Seq<char>),
}

impl DeepView for RunStep {
    type V = RunStepModel;

    open spec fn deep_view(&self) -> RunStepModel {
        match self {
            RunStep::SpawnStreamlink(args) => RunStepModel::SpawnStreamlink(args.deep_view()),
            RunStep::SpawnFfmpeg(args) => RunStepModel::SpawnFfmpeg(args.deep_view()),
            RunStep::AwaitAudio => RunStepModel::AwaitAudio,
            RunStep::Connect(chunk) => RunStepModel::Connect(chunk@),
            RunStep::Stream => RunStepModel::Stream,
            RunStep::CleanUp => RunStepModel::CleanUp,
            RunStep::Finish => RunStepModel::Finish,
            RunStep::Fail(message) => RunStepModel::Fail(message@),
        }
    }
}

/// The first audio chunk, or why there is none.
pub open spec fn first_chunk(read: FirstRead) -> Result<Seq<u8>, Seq<char>> {
    match read {
        FirstRead::TimedOut => Err(
            "Timed out waiting for audio from ffmpeg (stream may be offline)"@,
        ),
        FirstRead::Failed => Err("Failed to read audio from ffmpeg"@),
        FirstRead::Read { buffer, count } => if count == 0 {
            Err("ffmpeg produced no audio (stream may be offline or unavailable)"@)
        } else {
            Ok(buffer@.take(count as int))
        },
    }
}

/// What a single run does next: it starts streamlink, then ffmpeg, waits for
/// audio before it connects to Deepgram, streams, and cleans up. It fails where
/// one of the steps before the streaming does.
pub open spec fn run_step(channel: Seq<char>, input: RunInput) -> RunStepModel {
    match input {
        RunInput::Begin => RunStepModel::SpawnStreamlink(streamlink_arguments(channel)),
        RunInput::Streamlink(start) => match start {
            StreamlinkStart::NotSpawned => RunStepModel::Fail(
                "Failed to spawn streamlink process"@,
            ),
            StreamlinkStart::NoOutput => RunStepModel::Fail("streamlink stdout not captured"@),
            StreamlinkStart::Running => RunStepModel::SpawnFfmpeg(ffmpeg_arguments()),
        },
        RunInput::Ffmpeg(start) => match start {
            FfmpegStart::NoInput => RunStepModel::Fail(
                "Failed to convert streamlink stdout for ffmpeg stdin"@,
            ),
            FfmpegStart::NotSpawned => RunStepModel::Fail("Failed to spawn ffmpeg process"@),
            FfmpegStart::NoOutput => RunStepModel::Fail("ffmpeg stdout not captured"@),
            FfmpegStart::Running => RunStepModel::AwaitAudio,
        },
        RunInput::Audio(read) => match first_chunk(read) {
            Ok(chunk) => RunStepModel::Connect(chunk),
            Err(message) => RunStepModel::Fail(message),
        },
        RunInput::Deepgram(start) => match start {
            DeepgramStart::BadRequest => RunStepModel::Fail(
                "Failed to build Deepgram WebSocket request"@,
            ),
            DeepgramStart::NotConnected => RunStepModel::Fail(
                "Failed to connect to Deepgram WebSocket API"@,
            ),
            DeepgramStart::Connected => RunStepModel::Stream,
        },
        RunInput::StreamEnded => RunStepModel::CleanUp,
        RunInput::CleanedUp => RunStepModel::Finish,
    }
}

/// Decides what a single run of the pipeline does next.
pub fn run_pipeline_once(config: &TranscriptionConfig, input: RunInput) -> (r: RunStep)
    requires
        input matches RunInput::Audio(FirstRead::Read { buffer, count }) ==> count <= buffer@.len(),
    ensures
        r.deep_view() == run_step(config.channel@, input),
{
    match input {
        RunInput::Begin => RunStep::SpawnStreamlink(streamlink_args(config.channel.as_str())),
        RunInput::Streamlink(start) => match start {
            StreamlinkStart::NotSpawned => RunStep::Fail("Failed to spawn streamlink process"),
            StreamlinkStart::NoOutput => RunStep::Fail("streamlink stdout not captured"),
            StreamlinkStart::Running => RunStep::SpawnFfmpeg(ffmpeg_args()),
        },
        RunInput::Ffmpeg(start) => match start {
            FfmpegStart::NoInput => RunStep::Fail(
                "Failed to convert streamlink stdout for ffmpeg stdin",
            ),
            FfmpegStart::NotSpawned => RunStep::Fail("Failed to spawn ffmpeg process"),
            FfmpegStart::NoOutput => RunStep::Fail("ffmpeg stdout not captured"),
            FfmpegStart::Running => RunStep::AwaitAudio,
        },
        RunInput::Audio(read) => match first_audio(read) {
            Ok(chunk) => RunStep::Connect(chunk),
            Err(message) => RunStep::Fail(message),
        },
        RunInput::Deepgram(start) => match start {
            DeepgramStart::BadRequest => RunStep::Fail(
                "Failed to build Deepgram WebSocket request",
            ),
            DeepgramStart::NotConnected => RunStep::Fail(
                "Failed to connect to Deepgram WebSocket API",
            ),
            DeepgramStart::Connected => RunStep::Stream,
        },
        RunInput::StreamEnded => RunStep::CleanUp,
        RunInput::CleanedUp => RunStep::Finish,
    }
}

/// Deepgram is connected to only once audio has come, and a run that has
/// streamed ends by itself after it has cleaned up.
pub proof fn law_audio_comes_before_the_connection(channel: Seq<char>, input: RunInput)
    ensures
        run_step(channel, input) is Connect <==> (input matches RunInput::Audio(
            FirstRead::Read { buffer: _, count },
        ) && count > 0),
        run_step(channel, input) is CleanUp <==> input is StreamEnded,
        run_step(channel, input) is Finish <==> input is CleanedUp,
{
}

/// Something that the audio sender meets.
#[derive(Debug, Clone)]
pub enum AudioInput {
    /// The shutdown signal.
    Shutdown,
    /// A read from ffmpeg that filled the first bytes of a buffer.
    Read {
        /// The buffer.
        buffer: Vec<u8>,
        /// The number of bytes that were read, zero at the end of the stream.
        count: usize,
    },
    /// A read from ffmpeg that failed, with the error's message.
    ReadFailed(String),
}

/// What the audio sender does next.
#[derive(Debug, Clone)]
pub enum AudioStep {
    /// It sends bytes as a binary frame and reads on.
    Send(Vec<u8>),
    /// It sends a text frame and is done.
    Close(&'static str),
    /// It gives up with an error.
    Fail(String),
}

/// What an [`AudioStep`] holds.
pub enum AudioStepModel {
    Send(Seq<u8>),
    Close(Seq<char>),
    Fail(Seq<char>),
}

impl DeepView for AudioStep {
    type V = AudioStepModel;

    open spec fn deep_view(&self) -> AudioStepModel {
        match self {
            AudioStep::Send(bytes) => AudioStepModel::Send(bytes@),
            AudioStep::Close(s) => AudioStepModel::Close(s@),
            AudioStep::Fail(s) => AudioStepModel::Fail(s@),
        }
    }
}

/// What the audio sender does next.
pub open spec fn audio_step(input: AudioInput) -> AudioStepModel {
    match input {
        AudioInput::Shutdown => AudioStepModel::Close(CLOSE_STREAM@),
        AudioInput::Read { buffer, count } => if count == 0 {
            AudioStepModel::Close(CLOSE_STREAM@)
        } else {
            AudioStepModel::Send(buffer@.take(count as int))
        },
        AudioInput::ReadFailed(e) => AudioStepModel::Fail("Failed to read from ffmpeg: "@ + e@),
    }
}

/// Decides what the audio sender does: each chunk is sent as it was read, and
/// the stream is closed at its end and on shutdown.
pub fn send_audio_to_deepgram(input: AudioInput) -> (r: AudioStep)
    requires
        input matches AudioInput::Read { buffer, count } ==> count <= buffer@.len(),
    ensures
        r.deep_view() == audio_step(input),
        match input {
            AudioInput::Shutdown => r matches AudioStep::Close(s) && s@ == CLOSE_STREAM@,
            AudioInput::Read { buffer, count } => if count == 0 {
                r matches AudioStep::Close(s) && s@ == CLOSE_STREAM@
            } else {
                r matches AudioStep::Send(bytes) && bytes@ == buffer@.take(count as int)
            },
            AudioInput::ReadFailed(e) => r matches AudioStep::Fail(s) && s@
                == "Failed to read from ffmpeg: "@ + e@,
        },
{
    match input {
        AudioInput::Shutdown => AudioStep::Close(CLOSE_STREAM),
        AudioInput::Read { buffer, count } => {
            if count == 0 {
                AudioStep::Close(CLOSE_STREAM)
            } else {
                AudioStep::Send(first_bytes(buffer.as_slice(), count))
            }
        },
        AudioInput::ReadFailed(e) => AudioStep::Fail(
            join2("Failed to read from ffmpeg: ", e.as_str()),
        ),
    }
}

/// Something that the result receiver meets.
#[derive(Debug, Clone)]
pub enum ResultInput {
    /// The shutdown signal.
    Shutdown,
    /// A text frame, `None` where it could not be read.
    Text(Option<DeepgramResponse>),
    /// A close frame.
    Close,
    /// Any other frame.
    Other,
    /// An error of the connection, with its message.
    Failed(String),
    /// The end of the connection.
    End,
}

/// What the result receiver does next.
#[derive(Debug, Clone)]
pub enum ResultStep {
    /// It passes an event on and goes on.
    Forward(TranscriptionEvent),
    /// It goes on.
    Continue,
    /// It is done.
    Finish,
    /// It gives up with an error.
    Fail(String),
}

/// What a [`ResultStep`] holds.
pub enum ResultStepModel {
    Forward(EventModel),
    Continue,
    Finish,
    Fail(Seq<char>),
}

impl DeepView for ResultStep {
    type V = ResultStepModel;

    open spec fn deep_view(&self) -> ResultStepModel {
        match self {
            ResultStep::Forward(event) => ResultStepModel::Forward(event.deep_view()),
            ResultStep::Continue => ResultStepModel::Continue,
            ResultStep::Finish => ResultStepModel::Finish,
            ResultStep::Fail(s) => ResultStepModel::Fail(s@),
        }
    }
}

/// What the result receiver does next.
pub open spec fn result_step(input: ResultInput) -> ResultStepModel {
    match input {
        ResultInput::Shutdown => ResultStepModel::Finish,
        ResultInput::Text(response) => match event_in(response.deep_view()) {
            Some(event) => ResultStepModel::Forward(event),
            None => ResultStepModel::Continue,
        },
        ResultInput::Close => ResultStepModel::Finish,
        ResultInput::Other => ResultStepModel::Continue,
        ResultInput::Failed(e) => ResultStepModel::Fail("Deepgram WebSocket error: "@ + e@),
        ResultInput::End => ResultStepModel::Finish,
    }
}

/// Decides what the result receiver does: it passes on the events of text
/// frames, and is done on shutdown and at the end of the connection.
pub fn receive_deepgram_results(input: ResultInput) -> (r: ResultStep)
    ensures
        r.deep_view() == result_step(input),
        match input {
            ResultInput::Shutdown => r is Finish,
            ResultInput::Text(response) => match event_in(response.deep_view()) {
                Some(event) => r matches ResultStep::Forward(e) && e.deep_view() == event,
                None => r is Continue,
            },
            ResultInput::Close => r is Finish,
            ResultInput::Other => r is Continue,
            ResultInput::Failed(e) => r matches ResultStep::Fail(s) && s@
                == "Deepgram WebSocket error: "@ + e@,
            ResultInput::End => r is Finish,
        },
{
    match input {
        ResultInput::Shutdown => ResultStep::Finish,
        ResultInput::Text(response) => match parse_deepgram_response(&response) {
            Some(event) => ResultStep::Forward(event),
            None => ResultStep::Continue,
        },
        ResultInput::Close => ResultStep::Finish,
        ResultInput::Other => ResultStep::Continue,
        ResultInput::Failed(e) => ResultStep::Fail(join2("Deepgram WebSocket error: ", e.as_str())),
        ResultInput::End => ResultStep::Finish,
    }
}

// Reconnection.

/// Something that happens around the pipeline.
#[derive(Debug, Clone)]
pub enum PipelineInput {
    /// The pipeline is to be started; whether its two commands were found, and
    /// whether the program is shutting down already.
    Start {
        /// streamlink was found.
        streamlink: bool,
        /// ffmpeg was found.
        ffmpeg: bool,
        /// The shutdown signal is set.
        shutting_down: bool,
    },
    /// A run has ended by itself (e.g., the stream went offline).
    Ended,
    /// A run has failed, with the error's message.
    Failed(String),
    /// A pause is over.
    PauseOver {
        /// The shutdown signal is set.
        shutting_down: bool,
    },
    /// The shutdown signal came during a pause.
    ShutdownSignal,
}

/// Something that is to be done for the pipeline.
#[derive(Debug, Clone)]
pub enum PipelineAction {
    /// Deliver an event to the display loop.
    Send(TranscriptionEvent),
    /// Run the pipeline once.
    RunOnce,
    /// Wait for a number of seconds or for the shutdown signal.
    Pause(u64),
    /// Leave.
    Stop,
}

/// What a [`PipelineAction`] holds.
pub enum PipelineActionModel {
    Send(EventModel),
    RunOnce,
    Pause(int),
    Stop,
}

impl DeepView for PipelineAction {
    type V = PipelineActionModel;

    open spec fn deep_view(&self) -> PipelineActionModel {
        match self {
            PipelineAction::Send(event) => PipelineActionModel::Send(event.deep_view()),
            PipelineAction::RunOnce => PipelineActionModel::RunOnce,
            PipelineAction::Pause(secs) => PipelineActionModel::Pause(*secs as int),
            PipelineAction::Stop => PipelineActionModel::Stop,
        }
    }
}

/// The pipeline between two runs.
#[derive(Debug, Clone, Copy, PartialEq, Eq, Structural)]
pub struct Pipeline {
    /// Seconds to wait after the next failure.
    pub backoff_secs: u64,
}

/// The backoff after a failure: twice as long, up to the maximum.
pub open spec fn longer_backoff(backoff: int) -> int {
    if 2 * backoff <= MAX_BACKOFF_SECS {
        2 * backoff
    } else {
        MAX_BACKOFF_SECS as int
    }
}

/// The message about a failed run.
pub open spec fn failure_message(error: Seq<char>, backoff: int) -> Seq<char> {
    "STT error: "@ + error + ". Retrying in "@ + (decimal(backoff as nat) + "s..."@)
}

/// The actions that end the pipeline.
pub open spec fn farewell() -> Seq<PipelineActionModel> {
    seq![PipelineActionModel::Send(EventModel::Shutdown), PipelineActionModel::Stop]
}

/// The actions of a pipeline that goes on, unless it is to shut down.
pub open spec fn go_on(shutting_down: bool) -> Seq<PipelineActionModel> {
    if shutting_down {
        farewell()
    } else {
        seq![PipelineActionModel::RunOnce]
    }
}

/// What is done about a happening, with the given backoff.
pub open spec fn pipeline_actions(backoff: int, input: PipelineInput) -> Seq<PipelineActionModel> {
    match input {
        PipelineInput::Start { streamlink, ffmpeg, shutting_down } => if !streamlink {
            seq![
                PipelineActionModel::Send(
                    EventModel::Error(
                        missing_dependency(
                            "streamlink"@,
                            "Install with: pip install streamlink"@,
                        ),
                    ),
                ),
            ] + farewell()
        } else if !ffmpeg {
            seq![
                PipelineActionModel::Send(
                    EventModel::Error(
                        missing_dependency(
                            "ffmpeg"@,
                            "Install from: https://ffmpeg.org/download.html"@,
                        ),
                    ),
                ),
            ] + farewell()
        } else {
            go_on(shutting_down)
        },
        PipelineInput::Ended => seq![PipelineActionModel::Pause(INITIAL_BACKOFF_SECS as int)],
        PipelineInput::Failed(error) => seq![
            PipelineActionModel::Send(EventModel::Error(failure_message(error@, backoff))),
            PipelineActionModel::Pause(backoff),
        ],
        PipelineInput::PauseOver { shutting_down } => go_on(shutting_down),
        PipelineInput::ShutdownSignal => farewell(),
    }
}

/// The backoff after a happening: longer after a failure, the initial one after
/// a run that ended by itself.
pub open spec fn next_backoff(backoff: int, input: PipelineInput) -> int {
    match input {
        PipelineInput::Ended => INITIAL_BACKOFF_SECS as int,
        PipelineInput::Failed(_) => longer_backoff(backoff),
        _ => backoff,
    }
}

impl Pipeline {
    /// The backoff stays between its initial value and its maximum.
    pub open spec fn wf(self) -> bool {
        INITIAL_BACKOFF_SECS <= self.backoff_secs <= MAX_BACKOFF_SECS
    }

    /// A pipeline that has not failed yet.
    pub fn new() -> (r: Pipeline)
        ensures
            r.wf(),
            r.backoff_secs == INITIAL_BACKOFF_SECS,
    {
        Pipeline { backoff_secs: INITIAL_BACKOFF_SECS }
    }
}

fn say_farewell(actions: &mut Vec<PipelineAction>)
    ensures
        final(actions).deep_view() == old(actions).deep_view() + farewell(),
{
    actions.push(PipelineAction::Send(TranscriptionEvent::Shutdown));
    actions.push(PipelineAction::Stop);
    assert(actions.deep_view() =~= old(actions).deep_view() + farewell());
}

/// Decides what the transcription pipeline does about a happening: it checks
/// for its commands, runs again after a pause when a run has ended or failed,
/// waits longer after each failure, and says so when it leaves.
pub fn run_pipeline(pipeline: &mut Pipeline, input: PipelineInput) -> (r: Vec<PipelineAction>)
    requires
        old(pipeline).wf(),
    ensures
        final(pipeline).wf(),
        final(pipeline).backoff_secs == next_backoff(old(pipeline).backoff_secs as int, input),
        r.deep_view() == pipeline_actions(old(pipeline).backoff_secs as int, input),
{
    let mut actions: Vec<PipelineAction> = Vec::new();
    let ghost backoff = pipeline.backoff_secs as int;
    match &input {
        PipelineInput::Start { streamlink, ffmpeg, shutting_down } => {
            let first = check_dependency(
                "streamlink",
                "Install with: pip install streamlink",
                *streamlink,
            );
            let second = check_dependency(
                "ffmpeg",
                "Install from: https://ffmpeg.org/download.html",
                *ffmpeg,
            );
            match (first, second) {
                (Err(message), _) => {
                    actions.push(PipelineAction::Send(TranscriptionEvent::Error(message)));
                    say_farewell(&mut actions);
                },
                (Ok(_), Err(message)) => {
                    actions.push(PipelineAction::Send(TranscriptionEvent::Error(message)));
                    say_farewell(&mut actions);
                },
                (Ok(_), Ok(_)) => {
                    if *shutting_down {
                        say_farewell(&mut actions);
                    } else {
                        actions.push(PipelineAction::RunOnce);
                    }
                },
            }
        },
        PipelineInput::Ended => {
            pipeline.backoff_secs = INITIAL_BACKOFF_SECS;
            actions.push(PipelineAction::Pause(INITIAL_BACKOFF_SECS));
        },
        PipelineInput::Failed(error) => {
            let secs: u64 = pipeline.backoff_secs;
            let tail = join2(to_decimal(secs).as_str(), "s...");
            let message = join4("STT error: ", error.as_str(), ". Retrying in ", tail.as_str());
            actions.push(PipelineAction::Send(TranscriptionEvent::Error(message)));
            actions.push(PipelineAction::Pause(secs));
            pipeline.backoff_secs = if 2 * secs <= MAX_BACKOFF_SECS {
                2 * secs
            } else {
                MAX_BACKOFF_SECS
            };
        },
        PipelineInput::PauseOver { shutting_down } => {
            if *shutting_down {
                say_farewell(&mut actions);
            } else {
                actions.push(PipelineAction::RunOnce);
            }
        },
        PipelineInput::ShutdownSignal => {
            say_farewell(&mut actions);
        },
    }
    assert(actions.deep_view() =~= pipeline_actions(backoff, input));
    actions
}

/// The backoff after `failures` failures in a row, from the given one.
pub open spec fn backoff_after(backoff: int, failures: nat) -> int
    decreases failures,
{
    if failures == 0 {
        backoff
    } else {
        longer_backoff(backoff_after(backoff, (failures - 1) as nat))
    }
}

/// Failures in a row are followed by pauses that double from one second on and
/// stop at thirty: 1, 2, 4, 8, 16, 30, 30 and so on.
pub proof fn law_pauses_double_up_to_the_maximum(failures: nat)
    ensures
        backoff_after(INITIAL_BACKOFF_SECS as int, failures) == if pow2(failures)
            <= MAX_BACKOFF_SECS {
            pow2(failures) as int
        } else {
            MAX_BACKOFF_SECS as int
        },
    decreases failures,
{
    lemma2_to64();
    if failures > 0 {
        law_pauses_double_up_to_the_maximum((failures - 1) as nat);
        lemma_pow2_unfold(failures);
    }
}

/// Whatever happens, the pipeline waits for at least one and at most thirty
/// seconds before it runs again, and after a run that ended by itself for one.
pub proof fn law_every_pause_is_bounded(pipeline: Pipeline, input: PipelineInput, i: int, secs: int)
    requires
        pipeline.wf(),
        0 <= i < pipeline_actions(pipeline.backoff_secs as int, input).len(),
        pipeline_actions(pipeline.backoff_secs as int, input)[i] == PipelineActionModel::Pause(
            secs,
        ),
    ensures
        1 <= secs <= 30,
        input is Ended ==> secs == 1,
        next_backoff(pipeline.backoff_secs as int, input) <= 30,
{
}

/// Neither the end of a run nor its failure ends the pipeline: it waits and
/// runs again. Only the shutdown signal does, or a command that is not there
/// from the start.
pub proof fn law_only_shutdown_ends_the_pipeline(pipeline: Pipeline, input: PipelineInput)
    ensures
        pipeline_actions(pipeline.backoff_secs as int, input).last() == PipelineActionModel::Stop
            <==> match input {
            PipelineInput::Start { streamlink, ffmpeg, shutting_down } => !streamlink || !ffmpeg
                || shutting_down,
            PipelineInput::Ended => false,
            PipelineInput::Failed(_) => false,
            PipelineInput::PauseOver { shutting_down } => shutting_down,
            PipelineInput::ShutdownSignal => true,
        },
        input is Ended || input is Failed ==> pipeline_actions(
            pipeline.backoff_secs as int,
            input,
        ).last() is Pause,
{
}

/// A pipeline that leaves has said so, and does nothing after that.
pub proof fn law_shutdown_is_announced(pipeline: Pipeline, input: PipelineInput)
    ensures
        ({
            let actions = pipeline_actions(pipeline.backoff_secs as int, input);
            actions.last() == PipelineActionModel::Stop <==> actions.len() >= 2 && actions[
            actions.len() - 2] == PipelineActionModel::Send(EventModel::Shutdown)
        }),
{
}

/// The bytes that are sent for a read are those that were read, all of them and
/// no others, in their order. Where there are none, and on shutdown, the stream
/// is closed with the message that asks for it.
pub proof fn law_audio_is_sent_as_it_was_read(buffer: Vec<u8>, count: usize, e: String)
    requires
        count <= buffer@.len(),
    ensures
        ({
            let step = audio_step(AudioInput::Read { buffer, count });
            &&& count > 0 <==> step is Send
            &&& count == 0 <==> step is Close
            &&& step matches AudioStepModel::Send(bytes) ==> bytes.len() == count && forall|i: int|
                0 <= i < count ==> #[trigger] bytes[i] == buffer@[i]
        }),
        audio_step(AudioInput::Shutdown) == AudioStepModel::Close("{\"type\":\"CloseStream\"}"@),
        count == 0 ==> audio_step(AudioInput::Read { buffer, count }) == audio_step(
            AudioInput::Shutdown,
        ),
        audio_step(AudioInput::ReadFailed(e)) matches AudioStepModel::Fail(s) && s
            == "Failed to read from ffmpeg: "@ + e@,
{
}

/// The first chunk is what was read first, all of it and nothing else.
pub proof fn law_first_chunk_is_what_was_read(channel: Seq<char>, buffer: Vec<u8>, count: usize)
    requires
        count <= buffer@.len(),
        count > 0,
    ensures
        run_step(channel, RunInput::Audio(FirstRead::Read { buffer, count })) matches RunStepModel::Connect(
            chunk,
        ) && chunk.len() == count && forall|i: int|
            0 <= i < count ==> #[trigger] chunk[i] == buffer@[i],
{
}

/// An option stands among arguments with the given value behind it.
pub open spec fn has_option(args: Seq<Seq<char>>, name: Seq<char>, value: Seq<char>) -> bool {
    exists|i: int| 0 <= i < args.len() - 1 && #[trigger] args[i] == name && args[i + 1] == value
}

/// A run goes from one step to the next as each succeeds: streamlink for the
/// channel, ffmpeg, audio, Deepgram, the stream. Every other outcome of a step
/// ends it in failure.
pub proof fn law_run_goes_step_by_step(
    channel: Seq<char>,
    streamlink: StreamlinkStart,
    ffmpeg: FfmpegStart,
    deepgram: DeepgramStart,
    read: FirstRead,
)
    ensures
        run_step(channel, RunInput::Begin) matches RunStepModel::SpawnStreamlink(args) && args.len()
            == 6 && args[0] == "twitch.tv/"@ + channel && args[1] == "audio_only,worst"@
            && args.contains("--stdout"@) && args.contains("--twitch-low-latency"@) && has_option(
            args,
            "--hls-live-edge"@,
            "1"@,
        ),
        run_step(channel, RunInput::Streamlink(streamlink)) is SpawnFfmpeg <==> streamlink
            == StreamlinkStart::Running,
        run_step(channel, RunInput::Streamlink(streamlink)) is Fail <==> streamlink
            != StreamlinkStart::Running,
        run_step(channel, RunInput::Ffmpeg(ffmpeg)) is AwaitAudio <==> ffmpeg
            == FfmpegStart::Running,
        run_step(channel, RunInput::Ffmpeg(ffmpeg)) is Fail <==> ffmpeg != FfmpegStart::Running,
        run_step(channel, RunInput::Deepgram(deepgram)) is Stream <==> deepgram
            == DeepgramStart::Connected,
        run_step(channel, RunInput::Deepgram(deepgram)) is Fail <==> deepgram
            != DeepgramStart::Connected,
        run_step(channel, RunInput::Audio(read)) is Connect || run_step(
            channel,
            RunInput::Audio(read),
        ) is Fail,
{
    let args = streamlink_arguments(channel);
    assert(args[2] == "--stdout"@);
    assert(args[3] == "--twitch-low-latency"@);
    assert(args[4] == "--hls-live-edge"@ && args[5] == "1"@);
}

/// A run that fails says at which step: the program that could not be started,
/// the output that is not there, the audio that did not come, or the connection
/// that could not be made.
pub proof fn law_failed_steps_are_named(
    channel: Seq<char>,
    streamlink: StreamlinkStart,
    ffmpeg: FfmpegStart,
    deepgram: DeepgramStart,
    read: FirstRead,
)
    ensures
        run_step(channel, RunInput::Streamlink(streamlink)) matches RunStepModel::Fail(s) ==> has_word(
            s,
            "streamlink"@,
        ),
        run_step(channel, RunInput::Ffmpeg(ffmpeg)) matches RunStepModel::Fail(s) ==> has_word(
            s,
            "ffmpeg"@,
        ),
        run_step(channel, RunInput::Audio(read)) matches RunStepModel::Fail(s) ==> has_word(
            s,
            "audio"@,
        ) && has_word(s, "ffmpeg"@),
        run_step(channel, RunInput::Deepgram(deepgram)) matches RunStepModel::Fail(s) ==> has_word(
            s,
            "Deepgram"@,
        ),
{
    reveal_strlit("streamlink");
    reveal_strlit("ffmpeg");
    reveal_strlit("audio");
    reveal_strlit("Deepgram");
    reveal_strlit("Failed to spawn streamlink process");
    assert("Failed to spawn streamlink process"@.subrange(16, 26) =~= "streamlink"@);
    assert(word_at("Failed to spawn streamlink process"@, "streamlink"@, 16));
    reveal_strlit("streamlink stdout not captured");
    assert("streamlink stdout not captured"@.subrange(0, 10) =~= "streamlink"@);
    assert(word_at("streamlink stdout not captured"@, "streamlink"@, 0));
    reveal_strlit("Failed to convert streamlink stdout for ffmpeg stdin");
    assert("Failed to convert streamlink stdout for ffmpeg stdin"@.subrange(40, 46) =~= "ffmpeg"@);
    assert(word_at("Failed to convert streamlink stdout for ffmpeg stdin"@, "ffmpeg"@, 40));
    reveal_strlit("Failed to spawn ffmpeg process");
    assert("Failed to spawn ffmpeg process"@.subrange(16, 22) =~= "ffmpeg"@);
    assert(word_at("Failed to spawn ffmpeg process"@, "ffmpeg"@, 16));
    reveal_strlit("ffmpeg stdout not captured");
    assert("ffmpeg stdout not captured"@.subrange(0, 6) =~= "ffmpeg"@);
    assert(word_at("ffmpeg stdout not captured"@, "ffmpeg"@, 0));
    reveal_strlit("Timed out waiting for audio from ffmpeg (stream may be offline)");
    assert("Timed out waiting for audio from ffmpeg (stream may be offline)"@.subrange(22, 27) =~= "audio"@);
    assert(word_at("Timed out waiting for audio from ffmpeg (stream may be offline)"@, "audio"@, 22));
    assert("Timed out waiting for audio from ffmpeg (stream may be offline)"@.subrange(33, 39) =~= "ffmpeg"@);
    assert(word_at("Timed out waiting for audio from ffmpeg (stream may be offline)"@, "ffmpeg"@, 33));
    reveal_strlit("Failed to read audio from ffmpeg");
    assert("Failed to read audio from ffmpeg"@.subrange(15, 20) =~= "audio"@);
    assert(word_at("Failed to read audio from ffmpeg"@, "audio"@, 15));
    assert("Failed to read audio from ffmpeg"@.subrange(26, 32) =~= "ffmpeg"@);
    assert(word_at("Failed to read audio from ffmpeg"@, "ffmpeg"@, 26));
    reveal_strlit("ffmpeg produced no audio (stream may be offline or unavailable)");
    assert("ffmpeg produced no audio (stream may be offline or unavailable)"@.subrange(19, 24) =~= "audio"@);
    assert(word_at("ffmpeg produced no audio (stream may be offline or unavailable)"@, "audio"@, 19));
    assert("ffmpeg produced no audio (stream may be offline or unavailable)"@.subrange(0, 6) =~= "ffmpeg"@);
    assert(word_at("ffmpeg produced no audio (stream may be offline or unavailable)"@, "ffmpeg"@, 0));
    reveal_strlit("Failed to build Deepgram WebSocket request");
    assert("Failed to build Deepgram WebSocket request"@.subrange(16, 24) =~= "Deepgram"@);
    assert(word_at("Failed to build Deepgram WebSocket request"@, "Deepgram"@, 16));
    reveal_strlit("Failed to connect to Deepgram WebSocket API");
    assert("Failed to connect to Deepgram WebSocket API"@.subrange(21, 29) =~= "Deepgram"@);
    assert(word_at("Failed to connect to Deepgram WebSocket API"@, "Deepgram"@, 21));
}

/// ffmpeg is told to give the audio that Deepgram is told to expect: one channel
/// of 16-bit samples, sixteen thousand a second, and no video.
pub proof fn law_audio_has_the_announced_format(config: TranscriptionConfigModel)
    ensures
        ({
            let args = ffmpeg_arguments();
            &&& has_option(args, "-ar"@, "16000"@)
            &&& has_option(args, "-ac"@, "1"@)
            &&& has_option(args, "-f"@, "s16le"@)
            &&& has_option(args, "-acodec"@, "pcm_s16le"@)
            &&& has_option(args, "-i"@, "pipe:0"@)
            &&& args.contains("-vn"@)
            &&& args.last() == "pipe:1"@
        }),
        ({
            let head =
                "wss://api.deepgram.com/v1/listen?encoding=linear16&sample_rate=16000&channels=1&model="@;
            deepgram_url(config) == head + config.model
                + "&interim_results=true&smart_format=true&language="@ + config.language
        }),
{
    let args = ffmpeg_arguments();
    assert(args[15] == "-ar"@ && args[16] == "16000"@);
    assert(args[17] == "-ac"@ && args[18] == "1"@);
    assert(args[11] == "-f"@ && args[12] == "s16le"@);
    assert(args[13] == "-acodec"@ && args[14] == "pcm_s16le"@);
    assert(args[8] == "-i"@ && args[9] == "pipe:0"@);
    assert(args[10] == "-vn"@);
}

/// The handshake carries the key of the connection and the key of the account,
/// and asks for a WebSocket.
pub proof fn law_handshake_carries_the_keys(config: TranscriptionConfigModel, key: Seq<char>)
    ensures
        deepgram_headers(config, key).contains(("Authorization"@, "Token "@ + config.api_key)),
        deepgram_headers(config, key).contains(("Sec-WebSocket-Key"@, key)),
        deepgram_headers(config, key).contains(("Upgrade"@, "websocket"@)),
        deepgram_headers(config, key).contains(("Connection"@, "Upgrade"@)),
        deepgram_headers(config, key).contains(("Sec-WebSocket-Version"@, "13"@)),
        deepgram_headers(config, key).contains(("Host"@, "api.deepgram.com"@)),
        deepgram_headers(config, key).len() == 6,
{
    let h = deepgram_headers(config, key);
    assert(h[0] == ("Host"@, "api.deepgram.com"@));
    assert(h[1] == ("Connection"@, "Upgrade"@));
    assert(h[2] == ("Upgrade"@, "websocket"@));
    assert(h[3] == ("Sec-WebSocket-Version"@, "13"@));
    assert(h[4] == ("Sec-WebSocket-Key"@, key));
    assert(h[5] == ("Authorization"@, "Token "@ + config.api_key));
}

/// A result becomes an event exactly where it is one, has an alternative, and
/// its best one is no noise: at least two bytes without the white space at its
/// ends. The event holds that text, and is final exactly where the result says
/// so.
pub proof fn law_results_become_events(response: ResponseModel)
    ensures
        ({
            let heard = response.response_type == Some("Results"@) && response.channel is Some
                && response.channel->0.len() > 0;
            let best = response.channel->0[0];
            let r = event_in(Some(response));
            &&& r is Some <==> heard && encode_utf8(trimmed(best.transcript)).len() >= 2
            &&& r matches Some(event) ==> (event is Final <==> response.is_final == Some(true))
            &&& r matches Some(event) ==> event is Final || event is Interim
            &&& r matches Some(EventModel::Final { transcript, confidence }) ==> transcript
                == trimmed(best.transcript) && confidence == best.confidence
            &&& r matches Some(EventModel::Interim { transcript }) ==> transcript == trimmed(
                best.transcript,
            )
        }),
        event_in(None) is None,
{
}

/// Every event of a result is passed on, and nothing else is. Neither a result
/// without an event nor a frame of another kind ends the receiver; shutdown, a
/// close frame, an error and the end of the connection do.
pub proof fn law_events_are_passed_on(input: ResultInput)
    ensures
        result_step(input) matches ResultStepModel::Forward(event) ==> (
        input matches ResultInput::Text(response) && event_in(response.deep_view()) == Some(event)),
        input matches ResultInput::Text(response) ==> (event_in(
            response.deep_view(),
        ) matches Some(event) ==> result_step(input) == ResultStepModel::Forward(event)),
        result_step(input) is Finish <==> input is Shutdown || input is Close || input is End,
        result_step(input) is Fail <==> input is Failed,
        input matches ResultInput::Failed(e) ==> (result_step(input) matches ResultStepModel::Fail(s)
            && s == "Deepgram WebSocket error: "@ + e@),
{
}

/// The backoff after several failures in a row.
pub open spec fn failed_again(backoff: int, errors: Seq<String>) -> int
    decreases errors.len(),
{
    if errors.len() == 0 {
        backoff
    } else {
        next_backoff(
            failed_again(backoff, errors.drop_last()),
            PipelineInput::Failed(errors.last()),
        )
    }
}

/// A failure is shown with its error and with the pause that follows it, and
/// that pause is one second after the first failure and twice as long after each
/// further one, up to thirty.
pub proof fn law_failures_are_shown_and_waited_out(errors: Seq<String>, error: String)
    ensures
        ({
            let secs: int = if pow2(errors.len()) <= 30 {
                pow2(errors.len()) as int
            } else {
                30
            };
            pipeline_actions(failed_again(1, errors), PipelineInput::Failed(error)) == seq![
                PipelineActionModel::Send(
                    EventModel::Error(
                        "STT error: "@ + error@ + ". Retrying in "@ + decimal(secs as nat)
                            + "s..."@,
                    ),
                ),
                PipelineActionModel::Pause(secs),
            ]
        }),
{
    lemma_failed_again(errors);
    law_pauses_double_up_to_the_maximum(errors.len());
    let secs = failed_again(1, errors);
    assert("STT error: "@ + error@ + ". Retrying in "@ + (decimal(secs as nat) + "s..."@)
        =~= "STT error: "@ + error@ + ". Retrying in "@ + decimal(secs as nat) + "s..."@);
}

proof fn lemma_failed_again(errors: Seq<String>)
    ensures
        failed_again(1, errors) == backoff_after(1, errors.len()),
    decreases errors.len(),
{
    if errors.len() > 0 {
        lemma_failed_again(errors.drop_last());
    }
}

/// A run that ended by itself is waited out for a second and makes up for the
/// failures before it. Nothing but runs changes the backoff.
pub proof fn law_an_ended_run_makes_up_for_failures(backoff: int, input: PipelineInput)
    ensures
        next_backoff(backoff, PipelineInput::Ended) == 1,
        pipeline_actions(backoff, PipelineInput::Ended) == seq![PipelineActionModel::Pause(1)],
        !(input is Ended) && !(input is Failed) ==> next_backoff(backoff, input) == backoff,
{
}

/// The pipeline runs where its commands are there and after every pause, unless
/// it is to shut down; a command that is missing is named, with what to do.
pub proof fn law_pipeline_runs_unless_told_otherwise(
    backoff: int,
    streamlink: bool,
    ffmpeg: bool,
    shutting_down: bool,
)
    ensures
        ({
            let start = pipeline_actions(
                backoff,
                PipelineInput::Start { streamlink, ffmpeg, shutting_down },
            );
            let again = pipeline_actions(backoff, PipelineInput::PauseOver { shutting_down });
            &&& start == seq![PipelineActionModel::RunOnce] <==> streamlink && ffmpeg
                && !shutting_down
            &&& again == seq![PipelineActionModel::RunOnce] <==> !shutting_down
            &&& !streamlink ==> start[0] == PipelineActionModel::Send(
                EventModel::Error(
                    "'streamlink' not found on PATH. Install with: pip install streamlink"@,
                ),
            )
            &&& streamlink && !ffmpeg ==> start[0] == PipelineActionModel::Send(
                EventModel::Error(
                    "'ffmpeg' not found on PATH. Install from: https://ffmpeg.org/download.html"@,
                ),
            )
            &&& !streamlink || !ffmpeg ==> start.len() == 3
            &&& streamlink && ffmpeg && shutting_down ==> start.len() == 2
        }),
{
    reveal_strlit("'");
    reveal_strlit("streamlink");
    reveal_strlit("ffmpeg");
    reveal_strlit("' not found on PATH. ");
    reveal_strlit("Install with: pip install streamlink");
    reveal_strlit("Install from: https://ffmpeg.org/download.html");
    reveal_strlit("'streamlink' not found on PATH. Install with: pip install streamlink");
    reveal_strlit("'ffmpeg' not found on PATH. Install from: https://ffmpeg.org/download.html");
    assert(missing_dependency("streamlink"@, "Install with: pip install streamlink"@)
        =~= "'streamlink' not found on PATH. Install with: pip install streamlink"@);
    assert(missing_dependency("ffmpeg"@, "Install from: https://ffmpeg.org/download.html"@)
        =~= "'ffmpeg' not found on PATH. Install from: https://ffmpeg.org/download.html"@);
    let start = pipeline_actions(
        backoff,
        PipelineInput::Start { streamlink, ffmpeg, shutting_down },
    );
    let again = pipeline_actions(backoff, PipelineInput::PauseOver { shutting_down });
    if shutting_down {
        assert(again.len() == 2);
    }
}

} // verus!
