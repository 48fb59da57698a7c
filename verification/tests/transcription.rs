use serde_json::Value;
use twitch_translator::number::Confidence;
use twitch_translator::transcription::{
    check_dependency, ffmpeg_args, first_audio, parse_deepgram_response as parse_response,
    receive_deepgram_results, run_pipeline, run_pipeline_once, send_audio_to_deepgram,
    streamlink_args, AudioInput, AudioStep, DeepgramAlternative, DeepgramChannel,
    DeepgramResponse, DeepgramStart, FfmpegStart, FirstRead, Pipeline, PipelineAction,
    PipelineInput, ResultInput, ResultStep, RunInput, RunStep, StreamlinkStart,
    TranscriptionConfig, TranscriptionEvent, AUDIO_CHUNK_SIZE,
};

/// Reads one alternative, as a structure with two required fields.
fn alternative(value: &Value) -> Option<DeepgramAlternative> {
    Some(DeepgramAlternative {
        transcript: value.get("transcript")?.as_str()?.to_string(),
        confidence: Confidence { bits: value.get("confidence")?.as_f64()?.to_bits() },
    })
}

/// Reads a text frame, as a structure whose three fields may be missing.
fn read(json: &str) -> Option<DeepgramResponse> {
    let value: Value = serde_json::from_str(json).ok()?;
    value.as_object()?;
    let channel = match value.get("channel") {
        Some(channel) => {
            let mut alternatives = Vec::new();
            for item in channel.get("alternatives")?.as_array()? {
                alternatives.push(alternative(item)?);
            }
            Some(DeepgramChannel { alternatives })
        }
        None => None,
    };
    Some(DeepgramResponse {
        response_type: value.get("type").and_then(|v| v.as_str()).map(|s| s.to_string()),
        channel,
        is_final: value.get("is_final").and_then(|v| v.as_bool()),
    })
}

fn parse_deepgram_response(json: &str) -> Option<TranscriptionEvent> {
    parse_response(&read(json))
}

#[test]
fn test_parse_deepgram_final_result() {
    let json = r#"{
        "type": "Results",
        "channel": {
            "alternatives": [{"transcript": "hello world", "confidence": 0.98}]
        },
        "is_final": true,
        "speech_final": true
    }"#;

    let event = parse_deepgram_response(json);
    match event {
        Some(TranscriptionEvent::Final { transcript, confidence }) => {
            assert_eq!(transcript, "hello world");
            assert!(f64::from_bits(confidence.bits) > 0.9);
        }
        other => panic!("Expected Final event, got {:?}", other),
    }
}

#[test]
fn test_parse_deepgram_is_final_produces_final() {
    let json = r#"{
        "type": "Results",
        "channel": {
            "alternatives": [{"transcript": "hello world", "confidence": 0.95}]
        },
        "is_final": true
    }"#;

    match parse_deepgram_response(json) {
        Some(TranscriptionEvent::Final { transcript, .. }) => {
            assert_eq!(transcript, "hello world");
        }
        other => panic!("Expected Final event, got {:?}", other),
    }
}

#[test]
fn test_parse_deepgram_interim_result() {
    let json = r#"{
        "type": "Results",
        "channel": {
            "alternatives": [{"transcript": "hello", "confidence": 0.85}]
        },
        "is_final": false,
        "speech_final": false
    }"#;

    match parse_deepgram_response(json) {
        Some(TranscriptionEvent::Interim { transcript }) => {
            assert_eq!(transcript, "hello");
        }
        other => panic!("Expected Interim event, got {:?}", other),
    }
}

#[test]
fn test_parse_deepgram_empty_transcript() {
    let json = r#"{
        "type": "Results",
        "channel": {
            "alternatives": [{"transcript": "", "confidence": 0.0}]
        },
        "is_final": true,
        "speech_final": true
    }"#;

    assert!(parse_deepgram_response(json).is_none());
}

#[test]
fn test_parse_deepgram_short_transcript() {
    let json = r#"{
        "type": "Results",
        "channel": {
            "alternatives": [{"transcript": "a", "confidence": 0.5}]
        },
        "is_final": true
    }"#;

    // Single character filtered out as noise
    assert!(parse_deepgram_response(json).is_none());
}

#[test]
fn test_parse_deepgram_non_results_type() {
    let json = r#"{"type": "Metadata", "request_id": "abc123"}"#;
    assert!(parse_deepgram_response(json).is_none());
}

#[test]
fn test_parse_deepgram_malformed_json() {
    assert!(parse_deepgram_response("not json").is_none());
    assert!(parse_deepgram_response("{}").is_none());
}

#[test]
fn test_parse_deepgram_missing_alternatives() {
    let json = r#"{
        "type": "Results",
        "channel": { "alternatives": [] },
        "is_final": true
    }"#;
    assert!(parse_deepgram_response(json).is_none());
}

#[test]
fn test_parse_deepgram_whitespace_only_transcript() {
    let json = r#"{
        "type": "Results",
        "channel": {
            "alternatives": [{"transcript": "   ", "confidence": 0.5}]
        },
        "is_final": true
    }"#;

    // Whitespace-only filtered out after trim
    assert!(parse_deepgram_response(json).is_none());
}

#[test]
fn test_parse_deepgram_missing_is_final_defaults_to_interim() {
    let json = r#"{
        "type": "Results",
        "channel": {
            "alternatives": [{"transcript": "test phrase", "confidence": 0.9}]
        }
    }"#;

    // Missing is_final defaults to false → Interim
    match parse_deepgram_response(json) {
        Some(TranscriptionEvent::Interim { transcript }) => {
            assert_eq!(transcript, "test phrase");
        }
        other => panic!("Expected Interim event, got {:?}", other),
    }
}

#[test]
fn transcripts_are_measured_in_bytes_and_trimmed() {
    let json = r#"{"type": "Results", "channel": {"alternatives": [
        {"transcript": " я ", "confidence": 1.0}, {"transcript": "other", "confidence": 0.1}]}}"#;
    match parse_deepgram_response(json) {
        Some(TranscriptionEvent::Interim { transcript }) => assert_eq!(transcript, "я"),
        other => panic!("{:?}", other),
    }
    assert!(parse_deepgram_response(r#"{"type": "Results"}"#).is_none());
    assert!(parse_response(&None).is_none());
}

fn config() -> TranscriptionConfig {
    TranscriptionConfig {
        api_key: "key".to_string(),
        channel: "abc".to_string(),
        language: "ru".to_string(),
        model: "nova-2".to_string(),
    }
}

#[test]
fn connection_to_deepgram() {
    assert_eq!(
        config().listen_url(),
        "wss://api.deepgram.com/v1/listen?encoding=linear16&sample_rate=16000&channels=1&model=nova-2&interim_results=true&smart_format=true&language=ru"
    );
    let headers = config().handshake_headers("abcd");
    assert_eq!(headers.len(), 6);
    assert_eq!(headers[0], ("Host".to_string(), "api.deepgram.com".to_string()));
    assert_eq!(headers[1], ("Connection".to_string(), "Upgrade".to_string()));
    assert_eq!(headers[2], ("Upgrade".to_string(), "websocket".to_string()));
    assert_eq!(headers[3], ("Sec-WebSocket-Version".to_string(), "13".to_string()));
    assert_eq!(headers[4], ("Sec-WebSocket-Key".to_string(), "abcd".to_string()));
    assert_eq!(headers[5], ("Authorization".to_string(), "Token key".to_string()));
}

#[test]
fn commands() {
    assert_eq!(
        streamlink_args("abc"),
        vec![
            "twitch.tv/abc",
            "audio_only,worst",
            "--stdout",
            "--twitch-low-latency",
            "--hls-live-edge",
            "1"
        ]
    );
    let args = ffmpeg_args();
    assert_eq!(args.len(), 22);
    assert_eq!(args[0], "-probesize");
    assert_eq!(args[16], "16000");
    assert_eq!(args[21], "pipe:1");
    assert_eq!(AUDIO_CHUNK_SIZE, 8000);
    assert_eq!(check_dependency("a", "b", true), Ok(()));
    assert_eq!(
        check_dependency("a", "Install b", false),
        Err("'a' not found on PATH. Install b".to_string())
    );
}

#[test]
fn first_audio_or_why_there_is_none() {
    assert_eq!(
        first_audio(FirstRead::TimedOut),
        Err("Timed out waiting for audio from ffmpeg (stream may be offline)")
    );
    assert_eq!(first_audio(FirstRead::Failed), Err("Failed to read audio from ffmpeg"));
    assert_eq!(
        first_audio(FirstRead::Read { buffer: vec![1, 2], count: 0 }),
        Err("ffmpeg produced no audio (stream may be offline or unavailable)")
    );
    assert_eq!(first_audio(FirstRead::Read { buffer: vec![1, 2, 3], count: 2 }), Ok(vec![1, 2]));
}

#[test]
fn audio_is_sent_as_it_is_read() {
    match send_audio_to_deepgram(AudioInput::Read { buffer: vec![7, 8, 9], count: 2 }) {
        AudioStep::Send(bytes) => assert_eq!(bytes, vec![7, 8]),
        other => panic!("{:?}", other),
    }
    for input in [AudioInput::Shutdown, AudioInput::Read { buffer: vec![7], count: 0 }] {
        match send_audio_to_deepgram(input) {
            AudioStep::Close(s) => assert_eq!(s, r#"{"type":"CloseStream"}"#),
            other => panic!("{:?}", other),
        }
    }
    match send_audio_to_deepgram(AudioInput::ReadFailed("gone".to_string())) {
        AudioStep::Fail(s) => assert_eq!(s, "Failed to read from ffmpeg: gone"),
        other => panic!("{:?}", other),
    }
}

#[test]
fn results_are_passed_on() {
    let json = r#"{"type": "Results", "channel": {"alternatives": [
        {"transcript": "hello", "confidence": 1}]}}"#;
    match receive_deepgram_results(ResultInput::Text(read(json))) {
        ResultStep::Forward(TranscriptionEvent::Interim { transcript }) => {
            assert_eq!(transcript, "hello")
        }
        other => panic!("{:?}", other),
    }
    assert!(matches!(receive_deepgram_results(ResultInput::Text(None)), ResultStep::Continue));
    assert!(matches!(receive_deepgram_results(ResultInput::Other), ResultStep::Continue));
    assert!(matches!(receive_deepgram_results(ResultInput::Shutdown), ResultStep::Finish));
    assert!(matches!(receive_deepgram_results(ResultInput::Close), ResultStep::Finish));
    assert!(matches!(receive_deepgram_results(ResultInput::End), ResultStep::Finish));
    match receive_deepgram_results(ResultInput::Failed("x".to_string())) {
        ResultStep::Fail(s) => assert_eq!(s, "Deepgram WebSocket error: x"),
        other => panic!("{:?}", other),
    }
}

fn error_of(action: &PipelineAction) -> String {
    match action {
        PipelineAction::Send(TranscriptionEvent::Error(s)) => s.clone(),
        other => panic!("{:?}", other),
    }
}

fn leaves(actions: &[PipelineAction]) -> bool {
    matches!(
        actions,
        [PipelineAction::Send(TranscriptionEvent::Shutdown), PipelineAction::Stop]
    )
}

#[test]
fn pauses_double_up_to_thirty_seconds() {
    let mut pipeline = Pipeline::new();
    let mut pauses = Vec::new();
    for _ in 0..7 {
        let actions = run_pipeline(&mut pipeline, PipelineInput::Failed("gone".to_string()));
        assert_eq!(actions.len(), 2);
        match actions[1] {
            PipelineAction::Pause(secs) => {
                assert_eq!(
                    error_of(&actions[0]),
                    format!("STT error: gone. Retrying in {}s...", secs)
                );
                pauses.push(secs);
            }
            _ => panic!("no pause"),
        }
    }
    assert_eq!(pauses, vec![1, 2, 4, 8, 16, 30, 30]);
    let actions = run_pipeline(&mut pipeline, PipelineInput::Ended);
    assert!(matches!(actions.as_slice(), [PipelineAction::Pause(1)]));
    assert_eq!(pipeline.backoff_secs, 1);
}

#[test]
fn pipeline_starts_and_leaves() {
    let mut pipeline = Pipeline::new();
    let start = |streamlink, ffmpeg, shutting_down| PipelineInput::Start {
        streamlink,
        ffmpeg,
        shutting_down,
    };
    let actions = run_pipeline(&mut pipeline, start(false, false, false));
    assert_eq!(
        error_of(&actions[0]),
        "'streamlink' not found on PATH. Install with: pip install streamlink"
    );
    assert!(leaves(&actions[1..]));
    let actions = run_pipeline(&mut pipeline, start(true, false, false));
    assert_eq!(
        error_of(&actions[0]),
        "'ffmpeg' not found on PATH. Install from: https://ffmpeg.org/download.html"
    );
    assert!(leaves(&actions[1..]));
    let actions = run_pipeline(&mut pipeline, start(true, true, false));
    assert!(matches!(actions.as_slice(), [PipelineAction::RunOnce]));
    assert!(leaves(&run_pipeline(&mut pipeline, start(true, true, true))));
    let over = |shutting_down| PipelineInput::PauseOver { shutting_down };
    assert!(leaves(&run_pipeline(&mut pipeline, over(true))));
    let actions = run_pipeline(&mut pipeline, over(false));
    assert!(matches!(actions.as_slice(), [PipelineAction::RunOnce]));
    assert!(leaves(&run_pipeline(&mut pipeline, PipelineInput::ShutdownSignal)));
}

#[test]
fn steps_of_a_run() {
    let next = |input| run_pipeline_once(&config(), input);
    match next(RunInput::Begin) {
        RunStep::SpawnStreamlink(args) => assert_eq!(args[0], "twitch.tv/abc"),
        other => panic!("{:?}", other),
    }
    match next(RunInput::Streamlink(StreamlinkStart::Running)) {
        RunStep::SpawnFfmpeg(args) => assert_eq!(args, ffmpeg_args()),
        other => panic!("{:?}", other),
    }
    assert!(matches!(next(RunInput::Ffmpeg(FfmpegStart::Running)), RunStep::AwaitAudio));
    match next(RunInput::Audio(FirstRead::Read { buffer: vec![1, 2], count: 1 })) {
        RunStep::Connect(chunk) => assert_eq!(chunk, vec![1]),
        other => panic!("{:?}", other),
    }
    assert!(matches!(next(RunInput::Deepgram(DeepgramStart::Connected)), RunStep::Stream));
    assert!(matches!(next(RunInput::StreamEnded), RunStep::CleanUp));
    assert!(matches!(next(RunInput::CleanedUp), RunStep::Finish));
}

#[test]
fn failures_of_a_run() {
    let failure = |input| match run_pipeline_once(&config(), input) {
        RunStep::Fail(message) => message,
        other => panic!("{:?}", other),
    };
    assert_eq!(
        failure(RunInput::Streamlink(StreamlinkStart::NotSpawned)),
        "Failed to spawn streamlink process"
    );
    assert_eq!(
        failure(RunInput::Streamlink(StreamlinkStart::NoOutput)),
        "streamlink stdout not captured"
    );
    assert_eq!(
        failure(RunInput::Ffmpeg(FfmpegStart::NoInput)),
        "Failed to convert streamlink stdout for ffmpeg stdin"
    );
    assert_eq!(
        failure(RunInput::Ffmpeg(FfmpegStart::NotSpawned)),
        "Failed to spawn ffmpeg process"
    );
    assert_eq!(failure(RunInput::Ffmpeg(FfmpegStart::NoOutput)), "ffmpeg stdout not captured");
    assert_eq!(
        failure(RunInput::Audio(FirstRead::TimedOut)),
        "Timed out waiting for audio from ffmpeg (stream may be offline)"
    );
    assert_eq!(
        failure(RunInput::Deepgram(DeepgramStart::BadRequest)),
        "Failed to build Deepgram WebSocket request"
    );
    assert_eq!(
        failure(RunInput::Deepgram(DeepgramStart::NotConnected)),
        "Failed to connect to Deepgram WebSocket API"
    );
}
