//! Twitch chat client: what it sends, shows, starts and broadcasts for each
//! thing that happens.
//!
//! The client itself does no I/O. [`TwitchClient::run`] takes one happening and
//! gives back the effects that the program around it carries out in order. Work
//! that waits for a translation is handed out as a [`Task`].

use crate::cache::TranslationModel;
use crate::config::{Config, ConfigModel};
use crate::display::{
    audio_error_line, display_audio_error, display_message, display_name, display_opening,
    display_switched, display_transcript, display_waiting, divider,
    law_audio_lines_say_what_was_heard, message_line, opening_lines, rule_of,
    show_translation_result, shown_name, thick_divider, transcript_line, translation_lines,
    transliterate, transliteration,
};
use crate::events::{
    ChannelChangedEvent, ChatEventModel, ChatMessageEvent, ReplyContext, ReplyContextModel,
    TranscriptEventModel, TranscriptionMessageEvent, WebEvent, WebEventModel,
};
use crate::irc::{
    chat_line, chat_of, law_chat_line_read_back, login_char, login_name, parse_privmsg, ChatMessage,
    ChatModel,
};
use crate::language::{code_and_name, detected, detection_in, DetectionModel, DetectionResult};
use crate::letter_case::uppercase;
use crate::number::Confidence;
use crate::style::{shown_text, span, Face, Ink, StyledModel, StyledText};
use crate::text::{
    ascii_uppered, chars_of, copy_text, join2, join3, law_lines_add_up, law_one_line_is_one_line,
    lines, lines_of, same_text, starts_with_word, trimmed, word_at,
};
use crate::transcription::{
    EventModel, TranscriptionConfig, TranscriptionConfigModel, TranscriptionEvent,
};
use crate::translator::{
    has_foreign, law_affixes_rejoin, pending_of, translator_for, PendingModel, PendingTranslation,
    TranslationResult, Translator, TranslatorModel,
};
use vstd::prelude::*;
use vstd::utf8::{encode_utf8, is_ascii_chars};

verus! {

/// Twitch IRC WebSocket URL.
pub const TWITCH_IRC_WSS: &'static str = "wss://irc-ws.chat.twitch.tv:443";

/// Milliseconds to wait after the last interim update before auto-committing it.
/// Handles cases where Deepgram doesn't finalize a segment.
pub const INTERIM_COMMIT_TIMEOUT_MS: u64 = 2000;

/// What a task is about.
#[derive(Debug, Clone)]
pub enum Subject {
    /// A chat message.
    Chat(ChatMessage),
    /// A finalized transcript.
    Transcript(String),
}

/// Work that waits for a translation: a message or transcript that is to be
/// translated, shown and broadcast.
#[derive(Debug, Clone)]
pub struct Task {
    /// What the task is about.
    pub subject: Subject,
    /// The generation of the client when the task was handed out.
    pub generation: u64,
    /// The source language of all messages, where one is set.
    pub default_language: Option<String>,
    /// Minimum confidence of a language detection.
    pub threshold: Confidence,
}

/// A frame of a channel switch whose fate the client waits for.
#[derive(Debug, Clone)]
pub enum SwitchStage {
    /// The frame that leaves the old channel; the new one comes next.
    Part(String),
    /// The frame that joins the new channel.
    Join,
}

/// Something that is to be done for the client.
#[derive(Debug, Clone)]
pub enum Effect {
    /// Send a text frame to the IRC server.
    Send(String),
    /// Send a text frame of a channel switch to the IRC server, and report at
    /// once whether it was sent.
    SendStage(String, SwitchStage),
    /// Show a line on the terminal.
    Print(Vec<StyledText>),
    /// Broadcast an event to the web clients.
    Broadcast(WebEvent),
    /// Start a transcription pipeline and await its events.
    StartTranscription(TranscriptionConfig),
    /// Signal the transcription pipeline to shut down.
    StopTranscription,
    /// Hand out a task.
    Spawn(Task),
    /// Leave the main loop.
    Exit,
    /// Leave the main loop with an error.
    Fail(&'static str),
}

/// Something that happens to the client.
#[derive(Debug, Clone)]
pub enum LoopAction {
    /// An IRC text message was received.
    IrcMessage(String),
    /// An IRC WebSocket error occurred.
    IrcError(String),
    /// The IRC WebSocket connection was closed.
    IrcClosed,
    /// The IRC keepalive timeout expired.
    IrcTimeout,
    /// A transcription event was received from the STT pipeline.
    SttEvent(TranscriptionEvent),
    /// The transcription channel was closed (pipeline exited).
    SttClosed,
    /// An interim transcript has been sitting for too long without being finalized.
    SttInterimTimeout,
    /// A control command was received from the web UI (e.g., switch channel).
    SwitchChannel(String),
    /// A frame of a channel switch was sent, or could not be.
    StageSent(SwitchStage, bool),
}

/// What surrounds a happening.
#[derive(Debug, Clone, Copy)]
pub struct Moment {
    /// A clock that only goes forward, in milliseconds.
    pub now_ms: u64,
    /// Unix time in milliseconds.
    pub timestamp: u64,
    /// The width of the terminal.
    pub width: usize,
}

/// Twitch IRC client of one channel at a time.
#[derive(Debug, Clone)]
pub struct TwitchClient {
    /// Application configuration.
    pub config: Config,
    /// Translation service.
    pub translator: Translator,
    /// Generation counter incremented on each channel switch. Tasks carry the
    /// value at which they were handed out and broadcast nothing if it has
    /// changed, so that no events of the old channel appear after a switch.
    pub generation: u64,
    /// Whether the events of a transcription pipeline are awaited.
    pub stt_open: bool,
    /// Whether there is a transcription pipeline to shut down.
    pub stt_running: bool,
    /// The current interim transcript.
    pub current_interim: Option<String>,
    /// The last finalized transcript, to leave out identical results that follow
    /// each other.
    pub last_final_transcript: Option<String>,
    /// When the current interim was last updated, in milliseconds.
    pub interim_set_at: Option<u64>,
}

/// What a [`Subject`] holds.
pub enum SubjectModel {
    Chat(ChatModel),
    Transcript(Seq<char>),
}

/// What a [`Task`] holds.
pub struct TaskModel {
    pub subject: SubjectModel,
    pub generation: u64,
    pub default_language: Option<Seq<char>>,
    pub threshold: Confidence,
}

/// What a [`SwitchStage`] holds.
pub enum StageModel {
    Part(Seq<char>),
    Join,
}

/// What an [`Effect`] holds.
pub enum EffectModel {
    Send(Seq<char>),
    SendStage(Seq<char>, StageModel),
    Print(Seq<StyledModel>),
    Broadcast(WebEventModel),
    StartTranscription(TranscriptionConfigModel),
    StopTranscription,
    Spawn(TaskModel),
    Exit,
    Fail(Seq<char>),
}

/// What a [`LoopAction`] holds.
pub enum ActionModel {
    IrcMessage(Seq<char>),
    IrcError(Seq<char>),
    IrcClosed,
    IrcTimeout,
    SttEvent(EventModel),
    SttClosed,
    SttInterimTimeout,
    SwitchChannel(Seq<char>),
    StageSent(StageModel, bool),
}

/// What a [`TwitchClient`] holds.
pub struct ClientModel {
    pub config: ConfigModel,
    pub translator: TranslatorModel,
    pub generation: u64,
    pub stt_open: bool,
    pub stt_running: bool,
    pub current_interim: Option<Seq<char>>,
    pub last_final_transcript: Option<Seq<char>>,
    pub interim_set_at: Option<u64>,
}

impl DeepView for Subject {
    type V = SubjectModel;

    open spec fn deep_view(&self) -> SubjectModel {
        match self {
            Subject::Chat(msg) => SubjectModel::Chat(msg.deep_view()),
            Subject::Transcript(s) => SubjectModel::Transcript(s@),
        }
    }
}

impl DeepView for Task {
    type V = TaskModel;

    open spec fn deep_view(&self) -> TaskModel {
        TaskModel {
            subject: self.subject.deep_view(),
            generation: self.generation,
            default_language: self.default_language.deep_view(),
            threshold: self.threshold,
        }
    }
}

impl DeepView for SwitchStage {
    type V = StageModel;

    open spec fn deep_view(&self) -> StageModel {
        match self {
            SwitchStage::Part(channel) => StageModel::Part(channel@),
            SwitchStage::Join => StageModel::Join,
        }
    }
}

impl DeepView for Effect {
    type V = EffectModel;

    open spec fn deep_view(&self) -> EffectModel {
        match self {
            Effect::Send(s) => EffectModel::Send(s@),
            Effect::SendStage(s, stage) => EffectModel::SendStage(s@, stage.deep_view()),
            Effect::Print(line) => EffectModel::Print(line.deep_view()),
            Effect::Broadcast(event) => EffectModel::Broadcast(event.deep_view()),
            Effect::StartTranscription(config) => EffectModel::StartTranscription(
                config.deep_view(),
            ),
            Effect::StopTranscription => EffectModel::StopTranscription,
            Effect::Spawn(task) => EffectModel::Spawn(task.deep_view()),
            Effect::Exit => EffectModel::Exit,
            Effect::Fail(message) => EffectModel::Fail(message@),
        }
    }
}

impl DeepView for LoopAction {
    type V = ActionModel;

    open spec fn deep_view(&self) -> ActionModel {
        match self {
            LoopAction::IrcMessage(text) => ActionModel::IrcMessage(text@),
            LoopAction::IrcError(message) => ActionModel::IrcError(message@),
            LoopAction::IrcClosed => ActionModel::IrcClosed,
            LoopAction::IrcTimeout => ActionModel::IrcTimeout,
            LoopAction::SttEvent(event) => ActionModel::SttEvent(event.deep_view()),
            LoopAction::SttClosed => ActionModel::SttClosed,
            LoopAction::SttInterimTimeout => ActionModel::SttInterimTimeout,
            LoopAction::SwitchChannel(channel) => ActionModel::SwitchChannel(channel@),
            LoopAction::StageSent(stage, sent) => ActionModel::StageSent(stage.deep_view(), *sent),
        }
    }
}

impl DeepView for TwitchClient {
    type V = ClientModel;

    open spec fn deep_view(&self) -> ClientModel {
        ClientModel {
            config: self.config.deep_view(),
            translator: self.translator.deep_view(),
            generation: self.generation,
            stt_open: self.stt_open,
            stt_running: self.stt_running,
            current_interim: self.current_interim.deep_view(),
            last_final_transcript: self.last_final_transcript.deep_view(),
            interim_set_at: self.interim_set_at,
        }
    }
}

impl ClientModel {
    /// An interim transcript has its time, events are awaited from a pipeline
    /// alone, and a pipeline has its key.
    pub open spec fn wf(self) -> bool {
        &&& self.current_interim is Some <==> self.interim_set_at is Some
        &&& self.stt_open ==> self.stt_running
        &&& self.stt_running ==> self.config.deepgram_api_key is Some
    }
}

// What the client does.

/// A raw IRC message as it is sent.
pub open spec fn frame(message: Seq<char>) -> Seq<char> {
    message + "\r\n"@
}

/// The password: the OAuth token, or one for anonymous access.
pub open spec fn password(oauth_token: Option<Seq<char>>) -> Seq<char> {
    match oauth_token {
        Some(t) => "oauth:"@ + t,
        None => "SCHMOOPIIE"@,
    }
}

/// The configuration of a pipeline for the current channel.
pub open spec fn pipeline_config(c: ConfigModel) -> TranscriptionConfigModel {
    TranscriptionConfigModel {
        api_key: c.deepgram_api_key->0,
        channel: c.channel,
        language: c.stt_language,
        model: c.deepgram_model,
    }
}

/// The effects that start a pipeline, where there is a key for it.
pub open spec fn pipeline_start(c: ConfigModel) -> Seq<EffectModel> {
    if c.deepgram_api_key is Some {
        seq![EffectModel::StartTranscription(pipeline_config(c))]
    } else {
        Seq::empty()
    }
}

/// A client that has just connected.
pub open spec fn fresh_client(config: ConfigModel, translator: TranslatorModel) -> ClientModel {
    ClientModel {
        config,
        translator,
        generation: 0,
        stt_open: config.deepgram_api_key is Some,
        stt_running: config.deepgram_api_key is Some,
        current_interim: None,
        last_final_transcript: None,
        interim_set_at: None,
    }
}

/// What is done on connecting: capabilities, password and name, then the
/// channel, then the transcription.
pub open spec fn connect_effects(config: ConfigModel) -> Seq<EffectModel> {
    seq![
        EffectModel::Send(frame("CAP REQ :twitch.tv/tags twitch.tv/commands"@)),
        EffectModel::Send(frame("PASS "@ + password(config.oauth_token))),
        EffectModel::Send(frame("NICK "@ + config.username)),
        EffectModel::Send(frame("JOIN #"@ + config.channel)),
    ] + pipeline_start(config)
}

/// What is done before the first happening.
pub open spec fn welcome_effects(width: nat) -> Seq<EffectModel> {
    seq![
        EffectModel::Print(seq![rule_of('━', width)]),
        EffectModel::Print(
            seq![span("Waiting for messages..."@, Ink::BrightBlack, Face::Italic)],
        ),
    ]
}

/// When the interim transcript of a client is to be committed, in milliseconds.
pub open spec fn commit_deadline(s: ClientModel) -> Option<int> {
    if s.stt_open && s.interim_set_at is Some {
        Some(s.interim_set_at->0 + INTERIM_COMMIT_TIMEOUT_MS)
    } else {
        None
    }
}

/// A client without an interim transcript.
pub open spec fn cleared(s: ClientModel) -> ClientModel {
    ClientModel { current_interim: None, interim_set_at: None, ..s }
}

/// A task that the client hands out.
pub open spec fn task_for(s: ClientModel, subject: SubjectModel) -> TaskModel {
    TaskModel {
        subject,
        generation: s.generation,
        default_language: s.config.default_language,
        threshold: s.config.detection_confidence_threshold,
    }
}

/// A client that has shown a transcript.
pub open spec fn transcribed(s: ClientModel, transcript: Seq<char>) -> ClientModel {
    ClientModel { last_final_transcript: Some(transcript), ..cleared(s) }
}

/// One line of the server: a ping is answered, a chat message handed out.
pub open spec fn line_step(s: ClientModel, line: Seq<char>) -> (ClientModel, Seq<EffectModel>) {
    if word_at(line, "PING"@, 0) {
        (s, seq![EffectModel::Send(frame("PONG :tmi.twitch.tv"@))])
    } else {
        match chat_of(line) {
            Some(msg) => (
                cleared(s),
                seq![EffectModel::Spawn(task_for(s, SubjectModel::Chat(msg)))],
            ),
            None => (s, Seq::empty()),
        }
    }
}

/// Several lines of the server, the first one first.
pub open spec fn lines_step(s: ClientModel, all: Seq<Seq<char>>) -> (ClientModel, Seq<EffectModel>)
    decreases all.len(),
{
    if all.len() == 0 {
        (s, Seq::empty())
    } else {
        let first = line_step(s, all[0]);
        let rest = lines_step(first.0, all.skip(1));
        (rest.0, first.1 + rest.1)
    }
}

/// A transcript that is to be shown.
pub open spec fn transcript_step(s: ClientModel, transcript: Seq<char>) -> (
    ClientModel,
    Seq<EffectModel>,
) {
    (
        transcribed(s, transcript),
        seq![EffectModel::Spawn(task_for(s, SubjectModel::Transcript(transcript)))],
    )
}

/// An event of the transcription. Interim results are kept without being shown;
/// a final result is shown unless it is the one before again.
pub open spec fn event_step(s: ClientModel, event: EventModel, now_ms: u64) -> (
    ClientModel,
    Seq<EffectModel>,
) {
    match event {
        EventModel::Interim { transcript } => (
            ClientModel {
                current_interim: Some(transcript),
                interim_set_at: Some(now_ms),
                ..s
            },
            Seq::empty(),
        ),
        EventModel::Final { transcript, confidence: _ } => if s.last_final_transcript == Some(
            transcript,
        ) {
            (cleared(s), Seq::empty())
        } else {
            transcript_step(s, transcript)
        },
        EventModel::Error(message) => (
            cleared(s),
            seq![EffectModel::Print(audio_error_line(message))],
        ),
        EventModel::Shutdown => (cleared(s), Seq::empty()),
    }
}

/// The generation after one more channel switch, in 64 bits.
pub open spec fn next_generation(generation: u64) -> u64 {
    if generation == u64::MAX {
        0
    } else {
        (generation + 1) as u64
    }
}

/// A client that is about to leave its channel: what it has handed out is stale.
pub open spec fn departing(s: ClientModel) -> ClientModel {
    ClientModel { generation: next_generation(s.generation), ..s }
}

/// A client that has left its channel for another one.
pub open spec fn moved(s: ClientModel, channel: Seq<char>) -> ClientModel {
    ClientModel { config: ConfigModel { channel, ..s.config }, ..s }
}

/// A client that has joined its channel: nothing is kept of the transcripts, and
/// a pipeline that was there is replaced by a new one.
pub open spec fn settled(s: ClientModel) -> ClientModel {
    let again = s.stt_running && s.config.deepgram_api_key is Some;
    ClientModel {
        stt_open: if s.stt_running {
            again
        } else {
            s.stt_open
        },
        stt_running: again,
        last_final_transcript: None,
        ..cleared(s)
    }
}

/// A client after a whole switch to a channel.
pub open spec fn switched(s: ClientModel, channel: Seq<char>) -> ClientModel {
    settled(moved(departing(s), channel))
}

/// What is done when the new channel is joined.
pub open spec fn settle_effects(s: ClientModel, m: Moment) -> Seq<EffectModel> {
    (if s.stt_running {
        seq![EffectModel::StopTranscription] + pipeline_start(s.config)
    } else {
        Seq::empty()
    }) + seq![
        EffectModel::Broadcast(
            WebEventModel::ChannelChanged { channel: s.config.channel, timestamp: m.timestamp },
        ),
        EffectModel::Print(seq![rule_of('━', m.width as nat)]),
        EffectModel::Print(
            seq![
                span(
                    "Switched to #"@ + s.config.channel + " - waiting for messages..."@,
                    Ink::BrightGreen,
                    Face::Bold,
                ),
            ],
        ),
    ]
}

/// What is done when a frame cannot be sent.
pub open spec fn send_failure() -> Seq<EffectModel> {
    seq![EffectModel::Fail("Failed to send IRC message"@)]
}

/// The fate of a frame of a channel switch: the old channel is given up only
/// once it has been left, and the rest is done only once the new one has been
/// joined. A frame that could not be sent changes nothing.
pub open spec fn stage_step(s: ClientModel, stage: StageModel, sent: bool, m: Moment) -> (
    ClientModel,
    Seq<EffectModel>,
) {
    if !sent {
        (s, send_failure())
    } else {
        match stage {
            StageModel::Part(channel) => (
                moved(s, channel),
                seq![EffectModel::SendStage(frame("JOIN #"@ + channel), StageModel::Join)],
            ),
            StageModel::Join => (settled(s), settle_effects(s, m)),
        }
    }
}

/// What is done when the client leaves.
pub open spec fn leave_effects(s: ClientModel) -> Seq<EffectModel> {
    if s.stt_running {
        seq![EffectModel::StopTranscription, EffectModel::Exit]
    } else {
        seq![EffectModel::Exit]
    }
}

/// The client after a happening, and what is done about it.
pub open spec fn step(s: ClientModel, action: ActionModel, m: Moment) -> (
    ClientModel,
    Seq<EffectModel>,
) {
    match action {
        ActionModel::IrcMessage(text) => lines_step(s, lines_of(text)),
        ActionModel::IrcError(_) => (s, leave_effects(s)),
        ActionModel::IrcClosed => (s, leave_effects(s)),
        ActionModel::IrcTimeout => (s, seq![EffectModel::Send(frame("PING :tmi.twitch.tv"@))]),
        ActionModel::SttEvent(event) => event_step(s, event, m.now_ms),
        ActionModel::SttClosed => (ClientModel { stt_open: false, ..s }, Seq::empty()),
        ActionModel::SttInterimTimeout => match s.current_interim {
            Some(transcript) => transcript_step(s, transcript),
            None => (s, Seq::empty()),
        },
        ActionModel::SwitchChannel(channel) => (
            departing(s),
            seq![
                EffectModel::SendStage(
                    frame("PART #"@ + s.config.channel),
                    StageModel::Part(channel),
                ),
            ],
        ),
        ActionModel::StageSent(stage, sent) => stage_step(s, stage, sent, m),
    }
}

fn frame_of(message: &str) -> (r: Effect)
    ensures
        r.deep_view() == EffectModel::Send(frame(message@)),
{
    Effect::Send(join2(message, "\r\n"))
}

fn one_span(s: StyledText) -> (r: Vec<StyledText>)
    ensures
        r.deep_view() == seq![s.deep_view()],
{
    let ghost model = s.deep_view();
    let r = vec![s];
    assert(r.deep_view() =~= seq![model]);
    r
}

impl TwitchClient {
    /// A client that connects with the given configuration, and what it does
    /// first.
    pub fn new(config: Config, translator: Translator) -> (r: (TwitchClient, Vec<Effect>))
        ensures
            r.0.deep_view() == fresh_client(config.deep_view(), translator.deep_view()),
            r.0.deep_view().wf(),
            r.1.deep_view() == connect_effects(config.deep_view()),
    {
        let stt = config.deepgram_api_key.is_some();
        let client = TwitchClient {
            config,
            translator,
            generation: 0,
            stt_open: stt,
            stt_running: stt,
            current_interim: None,
            last_final_transcript: None,
            interim_set_at: None,
        };
        let mut effects: Vec<Effect> = Vec::new();
        client.authenticate(&mut effects);
        client.join_channel(&mut effects);
        client.start_pipeline(&mut effects);
        assert(effects.deep_view() =~= connect_effects(client.config.deep_view()));
        (client, effects)
    }

    /// Authenticates with the Twitch IRC server.
    fn authenticate(&self, effects: &mut Vec<Effect>)
        ensures
            final(effects).deep_view() == old(effects).deep_view()
                + connect_effects(self.config.deep_view()).take(3),
    {
        let pass = match &self.config.oauth_token {
            Some(t) => join2("oauth:", t.as_str()),
            None => "SCHMOOPIIE".to_string(),
        };
        effects.push(frame_of("CAP REQ :twitch.tv/tags twitch.tv/commands"));
        effects.push(frame_of(join2("PASS ", pass.as_str()).as_str()));
        effects.push(frame_of(join2("NICK ", self.config.username.as_str()).as_str()));
        assert(effects.deep_view() =~= old(effects).deep_view() + connect_effects(
            self.config.deep_view(),
        ).take(3));
    }

    /// Joins the configured channel.
    fn join_channel(&self, effects: &mut Vec<Effect>)
        ensures
            final(effects).deep_view() == old(effects).deep_view().push(
                EffectModel::Send(frame("JOIN #"@ + self.config.channel@)),
            ),
    {
        effects.push(frame_of(join2("JOIN #", self.config.channel.as_str()).as_str()));
        assert(effects.deep_view() =~= old(effects).deep_view().push(
            EffectModel::Send(frame("JOIN #"@ + self.config.channel@)),
        ));
    }

    /// Starts a transcription pipeline if a Deepgram API key is configured.
    fn start_pipeline(&self, effects: &mut Vec<Effect>)
        ensures
            final(effects).deep_view() == old(effects).deep_view() + pipeline_start(
                self.config.deep_view(),
            ),
    {
        if let Some(api_key) = &self.config.deepgram_api_key {
            effects.push(
                Effect::StartTranscription(
                    TranscriptionConfig {
                        api_key: api_key.clone(),
                        channel: self.config.channel.clone(),
                        language: self.config.stt_language.clone(),
                        model: self.config.deepgram_model.clone(),
                    },
                ),
            );
        }
        assert(effects.deep_view() =~= old(effects).deep_view() + pipeline_start(
            self.config.deep_view(),
        ));
    }

    /// What the client shows before the first happening.
    pub fn welcome(&self, width: usize) -> (r: Vec<Effect>)
        ensures
            r.deep_view() == welcome_effects(width as nat),
    {
        let r = vec![
            Effect::Print(one_span(thick_divider(width))),
            Effect::Print(one_span(display_waiting())),
        ];
        assert(r.deep_view() =~= welcome_effects(width as nat));
        r
    }

    /// When the current interim is to be committed, in milliseconds; `None`
    /// where there is none or nothing is awaited from a pipeline.
    pub fn interim_deadline(&self) -> (r: Option<u128>)
        ensures
            r == match self.interim_set_at {
                Some(t) => if self.stt_open {
                    Some((t + INTERIM_COMMIT_TIMEOUT_MS) as u128)
                } else {
                    None
                },
                None => None,
            },
            match r {
                Some(t) => commit_deadline(self.deep_view()) == Some(t as int),
                None => commit_deadline(self.deep_view()) is None,
            },
    {
        if !self.stt_open {
            return None;
        }
        match self.interim_set_at {
            Some(t) => Some(t as u128 + INTERIM_COMMIT_TIMEOUT_MS as u128),
            None => None,
        }
    }

    /// Resets interim tracking state.
    fn clear_interim_transcript(&mut self)
        ensures
            final(self).deep_view() == cleared(old(self).deep_view()),
    {
        self.current_interim = None;
        self.interim_set_at = None;
    }

    /// A task with the current settings of the client.
    fn task(&self, subject: Subject) -> (r: Task)
        ensures
            r.deep_view() == task_for(self.deep_view(), subject.deep_view()),
    {
        Task {
            subject,
            generation: self.generation,
            default_language: copy_text(&self.config.default_language),
            threshold: self.config.detection_confidence_threshold,
        }
    }

    /// Handles a single IRC message line.
    fn handle_irc_message(&mut self, line: &str, effects: &mut Vec<Effect>)
        ensures
            final(self).deep_view() == line_step(old(self).deep_view(), line@).0,
            final(effects).deep_view() == old(effects).deep_view() + line_step(
                old(self).deep_view(),
                line@,
            ).1,
    {
        let ghost expected = line_step(self.deep_view(), line@).1;
        if starts_with_word(chars_of(line).as_slice(), "PING") {
            effects.push(frame_of("PONG :tmi.twitch.tv"));
        } else if let Some(msg) = parse_privmsg(line) {
            self.process_chat_message(msg, effects);
        }
        assert(effects.deep_view() =~= old(effects).deep_view() + expected);
    }

    /// Hands out a chat message.
    fn process_chat_message(&mut self, msg: ChatMessage, effects: &mut Vec<Effect>)
        ensures
            final(self).deep_view() == cleared(old(self).deep_view()),
            final(effects).deep_view() == old(effects).deep_view().push(
                EffectModel::Spawn(
                    task_for(old(self).deep_view(), SubjectModel::Chat(msg.deep_view())),
                ),
            ),
    {
        let ghost model = EffectModel::Spawn(
            task_for(self.deep_view(), SubjectModel::Chat(msg.deep_view())),
        );
        let task = self.task(Subject::Chat(msg));
        self.clear_interim_transcript();
        effects.push(Effect::Spawn(task));
        assert(effects.deep_view() =~= old(effects).deep_view().push(model));
    }

    /// Hands out a finalized transcript and remembers it.
    fn display_final_transcript(&mut self, transcript: String, effects: &mut Vec<Effect>)
        ensures
            final(self).deep_view() == transcript_step(old(self).deep_view(), transcript@).0,
            final(effects).deep_view() == old(effects).deep_view() + transcript_step(
                old(self).deep_view(),
                transcript@,
            ).1,
    {
        let ghost expected = transcript_step(self.deep_view(), transcript@).1;
        self.last_final_transcript = Some(transcript.clone());
        let task = self.task(Subject::Transcript(transcript));
        self.clear_interim_transcript();
        effects.push(Effect::Spawn(task));
        assert(effects.deep_view() =~= old(effects).deep_view() + expected);
    }

    /// Handles a transcription event from the STT pipeline.
    fn handle_transcription_event(
        &mut self,
        event: TranscriptionEvent,
        now_ms: u64,
        effects: &mut Vec<Effect>,
    )
        ensures
            final(self).deep_view() == event_step(
                old(self).deep_view(),
                event.deep_view(),
                now_ms,
            ).0,
            final(effects).deep_view() == old(effects).deep_view() + event_step(
                old(self).deep_view(),
                event.deep_view(),
                now_ms,
            ).1,
    {
        let ghost expected = event_step(self.deep_view(), event.deep_view(), now_ms).1;
        match event {
            TranscriptionEvent::Interim { transcript } => {
                self.current_interim = Some(transcript);
                self.interim_set_at = Some(now_ms);
            },
            TranscriptionEvent::Final { transcript, confidence: _ } => {
                let is_duplicate = match &self.last_final_transcript {
                    Some(last) => same_text(last.as_str(), transcript.as_str()),
                    None => false,
                };
                if is_duplicate {
                    self.clear_interim_transcript();
                } else {
                    self.display_final_transcript(transcript, effects);
                }
            },
            TranscriptionEvent::Error(message) => {
                self.clear_interim_transcript();
                effects.push(Effect::Print(display_audio_error(message.as_str())));
            },
            TranscriptionEvent::Shutdown => {
                self.clear_interim_transcript();
            },
        }
        assert(effects.deep_view() =~= old(effects).deep_view() + expected);
    }

    /// Shuts down the current transcription pipeline and starts a new one for
    /// the current channel.
    fn restart_transcription_pipeline(&mut self, effects: &mut Vec<Effect>)
        requires
            old(self).stt_running,
        ensures
            final(self).deep_view() == (ClientModel {
                stt_open: old(self).config.deepgram_api_key is Some,
                stt_running: old(self).config.deepgram_api_key is Some,
                ..old(self).deep_view()
            }),
            final(effects).deep_view() == old(effects).deep_view() + (seq![
                EffectModel::StopTranscription,
            ] + pipeline_start(old(self).config.deep_view())),
    {
        effects.push(Effect::StopTranscription);
        let stt = self.config.deepgram_api_key.is_some();
        self.stt_running = stt;
        self.stt_open = stt;
        self.start_pipeline(effects);
        assert(effects.deep_view() =~= old(effects).deep_view() + (seq![
            EffectModel::StopTranscription,
        ] + pipeline_start(self.config.deep_view())));
    }

    /// Begins the switch to a new Twitch channel at runtime: parts the old IRC
    /// channel.
    fn handle_channel_switch(&mut self, new_channel: String, effects: &mut Vec<Effect>)
        ensures
            final(self).deep_view() == departing(old(self).deep_view()),
            final(effects).deep_view() == old(effects).deep_view().push(
                EffectModel::SendStage(
                    frame("PART #"@ + old(self).config.channel@),
                    StageModel::Part(new_channel@),
                ),
            ),
    {
        let ghost model = EffectModel::SendStage(
            frame("PART #"@ + self.config.channel@),
            StageModel::Part(new_channel@),
        );
        self.generation = if self.generation == u64::MAX {
            0
        } else {
            self.generation + 1
        };
        let part = join3("PART #", self.config.channel.as_str(), "\r\n");
        effects.push(Effect::SendStage(part, SwitchStage::Part(new_channel)));
        assert(effects.deep_view() =~= old(effects).deep_view().push(model));
    }

    /// Goes on with a switch once the old channel has been parted: updates the
    /// channel and joins the new one.
    fn enter_channel(&mut self, new_channel: String, effects: &mut Vec<Effect>)
        ensures
            final(self).deep_view() == moved(old(self).deep_view(), new_channel@),
            final(effects).deep_view() == old(effects).deep_view().push(
                EffectModel::SendStage(frame("JOIN #"@ + new_channel@), StageModel::Join),
            ),
    {
        let ghost model = EffectModel::SendStage(frame("JOIN #"@ + new_channel@), StageModel::Join);
        let join = join3("JOIN #", new_channel.as_str(), "\r\n");
        self.config.channel = new_channel;
        effects.push(Effect::SendStage(join, SwitchStage::Join));
        assert(effects.deep_view() =~= old(effects).deep_view().push(model));
    }

    /// Ends a switch once the new channel has been joined: resets transcript
    /// state, restarts the transcription pipeline if it was active, and tells the
    /// web clients.
    fn settle(&mut self, m: Moment, effects: &mut Vec<Effect>)
        ensures
            final(self).deep_view() == settled(old(self).deep_view()),
            final(effects).deep_view() == old(effects).deep_view() + settle_effects(
                old(self).deep_view(),
                m,
            ),
    {
        let ghost before = self.deep_view();
        let ghost expected = settle_effects(self.deep_view(), m);
        let ghost start = effects.deep_view();
        self.clear_interim_transcript();
        self.last_final_transcript = None;
        if self.stt_running {
            self.restart_transcription_pipeline(effects);
        }
        let ghost restarted = effects.deep_view();
        proof {
            let middle = if before.stt_running {
                seq![EffectModel::StopTranscription] + pipeline_start(before.config)
            } else {
                Seq::empty()
            };
            assert(restarted =~= start + middle);
        }
        effects.push(
            Effect::Broadcast(
                WebEvent::ChannelChanged(
                    ChannelChangedEvent {
                        channel: self.config.channel.clone(),
                        timestamp: m.timestamp,
                    },
                ),
            ),
        );
        effects.push(Effect::Print(one_span(thick_divider(m.width))));
        effects.push(Effect::Print(one_span(display_switched(self.config.channel.as_str()))));
        proof {
            let n = expected.len() as int;
            assert(effects.deep_view() =~= restarted + expected.skip(n - 3));
            assert(effects.deep_view() =~= start + expected);
        }
    }

    /// Takes one happening and gives back what is to be done about it.
    pub fn run(&mut self, action: LoopAction, m: Moment) -> (r: Vec<Effect>)
        ensures
            final(self).deep_view() == step(old(self).deep_view(), action.deep_view(), m).0,
            r.deep_view() == step(old(self).deep_view(), action.deep_view(), m).1,
    {
        let mut effects: Vec<Effect> = Vec::new();
        let ghost start = self.deep_view();
        let ghost model = action.deep_view();
        match action {
            LoopAction::IrcMessage(text) => {
                let all = lines(chars_of(text.as_str()).as_slice());
                let mut i: usize = 0;
                assert(all.deep_view().skip(0) =~= all.deep_view());
                assert(effects.deep_view() + lines_step(start, all.deep_view()).1 =~= lines_step(
                    start,
                    all.deep_view(),
                ).1);
                while i < all.len()
                    invariant
                        i <= all@.len(),
                        lines_step(self.deep_view(), all.deep_view().skip(i as int)).0
                            == lines_step(start, all.deep_view()).0,
                        effects.deep_view() + lines_step(
                            self.deep_view(),
                            all.deep_view().skip(i as int),
                        ).1 == lines_step(start, all.deep_view()).1,
                    decreases all@.len() - i,
                {
                    let ghost rest = all.deep_view().skip(i as int);
                    let ghost before = effects.deep_view();
                    let ghost s = self.deep_view();
                    self.handle_irc_message(all[i].as_str(), &mut effects);
                    i += 1;
                    proof {
                        assert(rest.skip(1) =~= all.deep_view().skip(i as int));
                        assert(rest[0] == all@[i - 1]@);
                        let first = line_step(s, rest[0]);
                        let tail = lines_step(first.0, rest.skip(1));
                        assert(effects.deep_view() + tail.1 =~= before + (first.1 + tail.1));
                    }
                }
                assert(all.deep_view().skip(i as int).len() == 0);
                assert(effects.deep_view() + Seq::<EffectModel>::empty() =~= effects.deep_view());
            },
            LoopAction::IrcError(_) => {
                self.leave(&mut effects);
            },
            LoopAction::IrcClosed => {
                self.leave(&mut effects);
            },
            LoopAction::IrcTimeout => {
                effects.push(frame_of("PING :tmi.twitch.tv"));
            },
            LoopAction::SttEvent(event) => {
                self.handle_transcription_event(event, m.now_ms, &mut effects);
            },
            LoopAction::SttClosed => {
                self.stt_open = false;
            },
            LoopAction::SttInterimTimeout => {
                let interim = copy_text(&self.current_interim);
                if let Some(transcript) = interim {
                    self.display_final_transcript(transcript, &mut effects);
                }
            },
            LoopAction::SwitchChannel(channel) => {
                self.handle_channel_switch(channel, &mut effects);
            },
            LoopAction::StageSent(_, false) => {
                effects.push(Effect::Fail("Failed to send IRC message"));
            },
            LoopAction::StageSent(SwitchStage::Part(channel), true) => {
                self.enter_channel(channel, &mut effects);
            },
            LoopAction::StageSent(SwitchStage::Join, true) => {
                self.settle(m, &mut effects);
            },
        }
        assert(effects.deep_view() =~= step(start, model, m).1);
        effects
    }

    /// Leaves the main loop and signals the transcription pipeline to shut down.
    fn leave(&self, effects: &mut Vec<Effect>)
        ensures
            final(effects).deep_view() == old(effects).deep_view() + leave_effects(
                self.deep_view(),
            ),
    {
        if self.stt_running {
            effects.push(Effect::StopTranscription);
        }
        effects.push(Effect::Exit);
        assert(effects.deep_view() =~= old(effects).deep_view() + leave_effects(self.deep_view()));
    }
}

// Tasks.

/// The source language of a text.
#[derive(Debug, Clone)]
pub struct Source {
    /// The language code (e.g., "ru").
    pub code: String,
    /// The name that is shown (e.g., "Russian").
    pub name: String,
}

/// What a [`Source`] holds.
pub struct SourceModel {
    pub code: Seq<char>,
    pub name: Seq<char>,
}

impl DeepView for Source {
    type V = SourceModel;

    open spec fn deep_view(&self) -> SourceModel {
        SourceModel { code: self.code@, name: self.name@ }
    }
}

/// The source language of a text: the one that is set for all
/// messages, else the one that was detected if it is not English and certain
/// enough.
pub open spec fn source_of(
    default_language: Option<Seq<char>>,
    threshold: Confidence,
    detection: Option<DetectionModel>,
) -> Option<SourceModel> {
    match default_language {
        Some(lang) => Some(SourceModel { code: lang, name: uppercase(lang) }),
        None => match detection {
            Some(d) => if !d.is_english && d.confidence.reaches(threshold) {
                Some(SourceModel { code: d.language, name: d.language_name })
            } else {
                None
            },
            None => None,
        },
    }
}

/// The source language of a text, by what was detected.
pub fn choose_source(
    default_language: &Option<String>,
    threshold: Confidence,
    detection: &Option<DetectionResult>,
) -> (r: Option<Source>)
    ensures
        r.deep_view() == source_of(
            default_language.deep_view(),
            threshold,
            detection.deep_view(),
        ),
        default_language is Some && is_ascii_chars(default_language->0@) ==> r is Some
            && r->0.name@ == ascii_uppered(default_language->0@),
{
    if let Some(lang) = default_language {
        return Some(Source { code: lang.clone(), name: lang.as_str().to_uppercase() });
    }
    match detection {
        Some(d) => if !d.is_english && d.confidence.at_least(threshold) {
            Some(Source { code: d.language.clone(), name: d.language_name.clone() })
        } else {
            None
        },
        None => None,
    }
}

impl TaskModel {
    /// The text that the task is about.
    pub open spec fn text(self) -> Seq<char> {
        match self.subject {
            SubjectModel::Chat(msg) => msg.content,
            SubjectModel::Transcript(s) => s,
        }
    }

    /// The lines that are shown before the translation is there.
    pub open spec fn opening(self, width: nat) -> Seq<Seq<StyledModel>> {
        match self.subject {
            SubjectModel::Chat(msg) => opening_lines(msg, width),
            SubjectModel::Transcript(s) => seq![seq![rule_of('─', width)], transcript_line(s)],
        }
    }

    /// The translation that is to be done: the text's, from the source language.
    /// There is none without a source language.
    pub open spec fn pending(self, source: Option<SourceModel>) -> Option<PendingModel> {
        match source {
            Some(s) => pending_of(self.text(), s.code),
            None => None,
        }
    }

    /// The lines that are shown once the translation is there or it is clear
    /// that there is none.
    pub open spec fn closing(
        self,
        source: Option<SourceModel>,
        result: Option<TranslationModel>,
        transliterated: Seq<char>,
    ) -> Seq<Seq<StyledModel>> {
        (match self.subject {
            SubjectModel::Chat(msg) => seq![message_line(msg, result is Some)],
            SubjectModel::Transcript(_) => Seq::empty(),
        }) + (match result {
            Some(t) => translation_lines(self.text(), name_of(source), t, transliterated),
            None => Seq::empty(),
        })
    }

    /// The event that is broadcast in the end.
    pub open spec fn event(
        self,
        source: Option<SourceModel>,
        result: Option<TranslationModel>,
        timestamp: u64,
    ) -> WebEventModel {
        let translation = match result {
            Some(t) => Some(t.translation),
            None => None,
        };
        let romanization = match result {
            Some(t) => t.romanization,
            None => None,
        };
        match self.subject {
            SubjectModel::Chat(msg) => WebEventModel::ChatMessage(
                ChatEventModel {
                    username: shown_name(msg),
                    color: msg.color,
                    is_broadcaster: msg.is_broadcaster,
                    is_mod: msg.is_mod,
                    is_vip: msg.is_vip,
                    content: msg.content,
                    translation,
                    romanization,
                    source_language: code_of(source),
                    language_name: name_of(source),
                    reply_to: match msg.reply_to {
                        Some(reply) => Some(
                            ReplyContextModel {
                                parent_username: reply.parent_display_name,
                                parent_message: reply.parent_msg_body,
                            },
                        ),
                        None => None,
                    },
                    timestamp,
                },
            ),
            SubjectModel::Transcript(transcript) => WebEventModel::Transcription(
                TranscriptEventModel {
                    transcript,
                    translation,
                    romanization,
                    source_language: code_of(source),
                    language_name: name_of(source),
                    timestamp,
                },
            ),
        }
    }

    /// What is broadcast in the end: nothing if the channel has been switched
    /// since the task was handed out.
    pub open spec fn outcome(
        self,
        source: Option<SourceModel>,
        result: Option<TranslationModel>,
        generation: u64,
        timestamp: u64,
    ) -> Option<WebEventModel> {
        if generation != self.generation {
            None
        } else {
            Some(self.event(source, result, timestamp))
        }
    }
}

/// The code of the language, where there is one.
pub open spec fn code_of(source: Option<SourceModel>) -> Option<Seq<char>> {
    match source {
        Some(s) => Some(s.code),
        None => None,
    }
}

/// The name of the language, where there is one.
pub open spec fn name_of(source: Option<SourceModel>) -> Option<Seq<char>> {
    match source {
        Some(s) => Some(s.name),
        None => None,
    }
}

fn source_code(source: &Option<Source>) -> (r: Option<String>)
    ensures
        r.deep_view() == code_of(source.deep_view()),
{
    match source {
        Some(s) => Some(s.code.clone()),
        None => None,
    }
}

fn source_name(source: &Option<Source>) -> (r: Option<String>)
    ensures
        r.deep_view() == name_of(source.deep_view()),
{
    match source {
        Some(s) => Some(s.name.clone()),
        None => None,
    }
}

impl Task {
    /// The text that the task is about.
    pub fn text(&self) -> (r: &str)
        ensures
            r@ == self.deep_view().text(),
    {
        match &self.subject {
            Subject::Chat(msg) => msg.content.as_str(),
            Subject::Transcript(s) => s.as_str(),
        }
    }

    /// The lines that are shown before the translation is there.
    pub fn opening(&self, width: usize) -> (r: Vec<Vec<StyledText>>)
        ensures
            r.deep_view() == self.deep_view().opening(width as nat),
    {
        match &self.subject {
            Subject::Chat(msg) => display_opening(msg, width),
            Subject::Transcript(s) => {
                let r = vec![one_span(divider(width)), display_transcript(s.as_str())];
                assert(r.deep_view() =~= self.deep_view().opening(width as nat));
                r
            },
        }
    }

    /// The source language of the text; `None` where it is not to
    /// be translated.
    pub fn detect_source(&self, translator: &Translator) -> (r: Option<Source>)
        ensures
            r.deep_view() == source_of(
                self.default_language.deep_view(),
                self.threshold,
                detection_in(self.deep_view().text(), translator.min_confidence),
            ),
    {
        let detection = if self.default_language.is_some() {
            None
        } else {
            translator.detect_language(self.text())
        };
        choose_source(&self.default_language, self.threshold, &detection)
    }

    /// The translation that is to be done, with the source language at hand;
    /// `None` where there is none to do.
    pub fn pending(&self, translator: &Translator, source: &Option<Source>) -> (r: Option<
        PendingTranslation,
    >)
        ensures
            r.deep_view() == self.deep_view().pending(source.deep_view()),
    {
        match source {
            Some(s) => translator.translate(self.text(), s.code.as_str()),
            None => None,
        }
    }

    /// The lines that are shown in the end, with the transliteration of the text
    /// at hand.
    pub fn closing_with(
        &self,
        source: &Option<Source>,
        result: &Option<TranslationResult>,
        transliterated: &str,
    ) -> (r: Vec<Vec<StyledText>>)
        ensures
            r.deep_view() == self.deep_view().closing(
                source.deep_view(),
                result.deep_view(),
                transliterated@,
            ),
    {
        let mut all: Vec<Vec<StyledText>> = Vec::new();
        if let Subject::Chat(msg) = &self.subject {
            all.push(display_message(msg, result.is_some()));
        }
        let ghost head = all.deep_view();
        assert(head =~= match self.deep_view().subject {
            SubjectModel::Chat(msg) => seq![message_line(msg, result is Some)],
            SubjectModel::Transcript(_) => Seq::empty(),
        });
        if let Some(t) = result {
            let name = match source {
                Some(s) => Some(s.name.as_str()),
                None => None,
            };
            let mut more = show_translation_result(self.text(), name, t, transliterated);
            let ghost tail = more.deep_view();
            all.append(&mut more);
            assert(all.deep_view() =~= head + tail);
        } else {
            assert(all.deep_view() =~= head + Seq::<Seq<StyledModel>>::empty());
        }
        all
    }

    /// The lines that are shown once the translation is there or it is clear
    /// that there is none.
    pub fn closing(&self, source: &Option<Source>, result: &Option<TranslationResult>) -> (r: Vec<
        Vec<StyledText>,
    >)
        ensures
            r.deep_view() == self.deep_view().closing(
                source.deep_view(),
                result.deep_view(),
                transliteration(self.deep_view().text()),
            ),
    {
        let transliterated = transliterate(self.text());
        self.closing_with(source, result, transliterated.as_str())
    }

    /// What is broadcast in the end, with the client's current generation:
    /// nothing if the channel has been switched since the task was handed out.
    pub fn finish(
        &self,
        source: &Option<Source>,
        result: &Option<TranslationResult>,
        generation: u64,
        timestamp: u64,
    ) -> (r: Option<WebEvent>)
        ensures
            r.deep_view() == self.deep_view().outcome(
                source.deep_view(),
                result.deep_view(),
                generation,
                timestamp,
            ),
    {
        if generation != self.generation {
            return None;
        }
        let translation = match result {
            Some(t) => Some(t.translation.clone()),
            None => None,
        };
        let romanization = match result {
            Some(t) => copy_text(&t.romanization),
            None => None,
        };
        match &self.subject {
            Subject::Chat(msg) => Some(
                WebEvent::ChatMessage(
                    ChatMessageEvent {
                        username: display_name(msg).to_string(),
                        color: copy_text(&msg.color),
                        is_broadcaster: msg.is_broadcaster,
                        is_mod: msg.is_mod,
                        is_vip: msg.is_vip,
                        content: msg.content.clone(),
                        translation,
                        romanization,
                        source_language: source_code(source),
                        language_name: source_name(source),
                        reply_to: match &msg.reply_to {
                            Some(reply) => Some(
                                ReplyContext {
                                    parent_username: reply.parent_display_name.clone(),
                                    parent_message: reply.parent_msg_body.clone(),
                                },
                            ),
                            None => None,
                        },
                        timestamp,
                    },
                ),
            ),
            Subject::Transcript(transcript) => Some(
                WebEvent::Transcription(
                    TranscriptionMessageEvent {
                        transcript: transcript.clone(),
                        translation,
                        romanization,
                        source_language: source_code(source),
                        language_name: source_name(source),
                        timestamp,
                    },
                ),
            ),
        }
    }
}

// Laws.

/// The client after several happenings, the first one first.
pub open spec fn after_all(s: ClientModel, actions: Seq<(ActionModel, Moment)>) -> ClientModel
    decreases actions.len(),
{
    if actions.len() == 0 {
        s
    } else {
        let before = after_all(s, actions.drop_last());
        step(before, actions.last().0, actions.last().1).0
    }
}

proof fn lemma_lines_keep(s: ClientModel, all: Seq<Seq<char>>)
    ensures
        lines_step(s, all).0 == s || lines_step(s, all).0 == cleared(s),
    decreases all.len(),
{
    if all.len() > 0 {
        let first = line_step(s, all[0]);
        lemma_lines_keep(first.0, all.skip(1));
    }
}

/// Whatever happens, a client stays well-formed: an interim transcript has its
/// time, and events are awaited from a pipeline that has its key.
pub proof fn law_client_stays_well_formed(s: ClientModel, action: ActionModel, m: Moment)
    requires
        s.wf(),
    ensures
        step(s, action, m).0.wf(),
{
    if let ActionModel::IrcMessage(text) = action {
        lemma_lines_keep(s, lines_of(text));
    }
}

proof fn lemma_lines_step_adds_up(s: ClientModel, first: Seq<Seq<char>>, second: Seq<Seq<char>>)
    ensures
        ({
            let one = lines_step(s, first);
            let two = lines_step(one.0, second);
            lines_step(s, first + second) == (two.0, one.1 + two.1)
        }),
    decreases first.len(),
{
    let all = first + second;
    if first.len() == 0 {
        assert(all =~= second);
        assert(Seq::<EffectModel>::empty() + lines_step(s, second).1 =~= lines_step(s, second).1);
    } else {
        let head = line_step(s, first[0]);
        lemma_lines_step_adds_up(head.0, first.skip(1), second);
        assert(all.skip(1) =~= first.skip(1) + second);
        assert(all[0] == first[0]);
        let rest = lines_step(head.0, first.skip(1));
        let two = lines_step(rest.0, second);
        assert(head.1 + (rest.1 + two.1) =~= (head.1 + rest.1) + two.1);
    }
}

/// What a frame does is what its parts do one after the other, wherever it is
/// parted after a line end: no line is lost for the lines before it.
pub proof fn law_frames_add_up(s: ClientModel, first: Seq<char>, second: Seq<char>, m: Moment)
    requires
        first.len() == 0 || first.last() == '\n',
    ensures
        ({
            let one = step(s, ActionModel::IrcMessage(first), m);
            let two = step(one.0, ActionModel::IrcMessage(second), m);
            step(s, ActionModel::IrcMessage(first + second), m) == (two.0, one.1 + two.1)
        }),
{
    law_lines_add_up(first, second);
    lemma_lines_step_adds_up(s, lines_of(first), lines_of(second));
}

/// Each line of the server is answered by itself: a ping by a pong, a chat line
/// by a task about its message, which carries the client's generation and its
/// settings and ends the interim transcript. Any other line does nothing.
pub proof fn law_line_of_the_server(s: ClientModel, line: Seq<char>, m: Moment)
    requires
        !line.contains('\n'),
    ensures
        ({
            let r = step(s, ActionModel::IrcMessage(line + seq!['\r', '\n']), m);
            if word_at(line, "PING"@, 0) {
                &&& r.0 == s
                &&& r.1 == seq![EffectModel::Send("PONG :tmi.twitch.tv\r\n"@)]
            } else if chat_of(line) is Some {
                &&& r.0.current_interim is None && r.0.interim_set_at is None
                &&& s == (ClientModel {
                    current_interim: s.current_interim,
                    interim_set_at: s.interim_set_at,
                    ..r.0
                })
                &&& r.1.len() == 1
                &&& r.1[0] matches EffectModel::Spawn(task) && task.subject == SubjectModel::Chat(
                    chat_of(line)->0,
                ) && task.generation == s.generation && task.default_language
                    == s.config.default_language && task.threshold
                    == s.config.detection_confidence_threshold
            } else {
                &&& r.0 == s
                &&& r.1.len() == 0
            }
        }),
{
    law_one_line_is_one_line(line);
    reveal_with_fuel(lines_step, 2);
    reveal_strlit("PONG :tmi.twitch.tv\r\n");
    reveal_strlit("PONG :tmi.twitch.tv");
    reveal_strlit("\r\n");
    assert("PONG :tmi.twitch.tv"@ + "\r\n"@ =~= "PONG :tmi.twitch.tv\r\n"@);
    let one = line_step(s, line);
    assert(seq![line].skip(1) =~= Seq::<Seq<char>>::empty());
    assert(one.1 + Seq::<EffectModel>::empty() =~= one.1);
}

/// A message that a user writes in the channel becomes one task about that user
/// and that message, and nothing else.
pub proof fn law_message_becomes_a_task(
    s: ClientModel,
    user: Seq<char>,
    channel: Seq<char>,
    message: Seq<char>,
    m: Moment,
)
    requires
        login_name(user),
        login_name(channel),
        !message.contains('\n'),
    ensures
        ({
            let line = ":"@ + user + "!"@ + user + "@"@ + user + ".tmi.twitch.tv PRIVMSG #"@
                + channel + " :"@ + message + "\r\n"@;
            let effects = step(s, ActionModel::IrcMessage(line), m).1;
            &&& effects.len() == 1
            &&& effects[0] matches EffectModel::Spawn(task)
            &&& task.generation == s.generation
            &&& task.subject matches SubjectModel::Chat(msg)
            &&& msg.username == user && msg.content == trimmed(message)
            &&& msg.display_name is None && msg.color is None && msg.reply_to is None
            &&& !msg.is_mod && !msg.is_broadcaster && !msg.is_vip
        }),
{
    let line = chat_line(user, channel, message);
    law_chat_line_read_back(user, channel, message);
    reveal_strlit(":");
    reveal_strlit("!");
    reveal_strlit("@");
    reveal_strlit(".tmi.twitch.tv ");
    reveal_strlit(".tmi.twitch.tv PRIVMSG #");
    reveal_strlit("PRIVMSG");
    reveal_strlit(" #");
    reveal_strlit(" :");
    reveal_strlit("\r\n");
    reveal_strlit("PING");
    let sent = ":"@ + user + "!"@ + user + "@"@ + user + ".tmi.twitch.tv PRIVMSG #"@ + channel
        + " :"@ + message + "\r\n"@;
    assert(".tmi.twitch.tv PRIVMSG #"@ =~= ".tmi.twitch.tv "@ + "PRIVMSG"@ + " #"@);
    assert("\r\n"@ =~= seq!['\r', '\n']);
    assert(sent =~= line + seq!['\r', '\n']);
    let head = ":"@ + user + "!"@ + user + "@"@ + user + ".tmi.twitch.tv PRIVMSG #"@ + channel
        + " :"@;
    assert(line =~= head + message);
    lemma_head_is_one_line(user, channel);
    assert forall|j: int| 0 <= j < line.len() implies line[j] != '\n' by {
        if j < head.len() {
            assert(line[j] == head[j]);
        } else {
            assert(line[j] == message[j - head.len()]);
        }
    }
    if word_at(line, "PING"@, 0) {
        assert(line.subrange(0, 4)[0] == line[0]);
        assert(line[0] == ':');
    }
    law_line_of_the_server(s, line, m);
}

proof fn lemma_head_is_one_line(user: Seq<char>, channel: Seq<char>)
    requires
        login_name(user),
        login_name(channel),
    ensures
        !(":"@ + user + "!"@ + user + "@"@ + user + ".tmi.twitch.tv PRIVMSG #"@ + channel
            + " :"@).contains('\n'),
{
    reveal_strlit(":");
    reveal_strlit("!");
    reveal_strlit("@");
    reveal_strlit(".tmi.twitch.tv PRIVMSG #");
    reveal_strlit(" :");
    lemma_free_name(user);
    lemma_free_name(channel);
    let a = ":"@ + user;
    let b = a + "!"@;
    let c = b + user;
    let d = c + "@"@;
    let e = d + user;
    let f = e + ".tmi.twitch.tv PRIVMSG #"@;
    let g = f + channel;
    lemma_free_join(":"@, user);
    lemma_free_join(a, "!"@);
    lemma_free_join(b, user);
    lemma_free_join(c, "@"@);
    lemma_free_join(d, user);
    lemma_free_join(e, ".tmi.twitch.tv PRIVMSG #"@);
    lemma_free_join(f, channel);
    lemma_free_join(g, " :"@);
}

proof fn lemma_free_name(name: Seq<char>)
    requires
        login_name(name),
    ensures
        !name.contains('\n'),
{
    assert forall|j: int| 0 <= j < name.len() implies name[j] != '\n' by {
        assert(login_char(name[j]));
    }
}

proof fn lemma_free_join(a: Seq<char>, b: Seq<char>)
    requires
        !a.contains('\n'),
        !b.contains('\n'),
    ensures
        !(a + b).contains('\n'),
{
    assert forall|j: int| 0 <= j < (a + b).len() implies (a + b)[j] != '\n' by {
        if j < a.len() {
            assert((a + b)[j] == a[j]);
        } else {
            assert((a + b)[j] == b[j - a.len()]);
        }
    }
}

/// Lines as the server sends them in one frame.
pub open spec fn sent_lines(all: Seq<Seq<char>>) -> Seq<char>
    decreases all.len(),
{
    if all.len() == 0 {
        Seq::empty()
    } else {
        sent_lines(all.drop_last()) + (all.last() + seq!['\r', '\n'])
    }
}

/// However many lines a frame has, each chat line among them has its task:
/// there are as many tasks as chat lines, and one about each message.
pub proof fn law_every_chat_line_has_its_task(s: ClientModel, all: Seq<Seq<char>>, m: Moment)
    requires
        forall|i: int| 0 <= i < all.len() ==> !(#[trigger] all[i]).contains('\n'),
    ensures
        ({
            let effects = step(s, ActionModel::IrcMessage(sent_lines(all)), m).1;
            let is_task = |e: EffectModel| e is Spawn;
            let is_chat = |line: Seq<char>| chat_of(line) is Some && !word_at(line, "PING"@, 0);
            &&& effects.filter(is_task).len() == all.filter(is_chat).len()
            &&& forall|i: int|
                0 <= i < all.len() && is_chat(#[trigger] all[i]) ==> effects.contains(
                    EffectModel::Spawn(
                        TaskModel {
                            subject: SubjectModel::Chat(chat_of(all[i])->0),
                            generation: s.generation,
                            default_language: s.config.default_language,
                            threshold: s.config.detection_confidence_threshold,
                        },
                    ),
                )
        }),
    decreases all.len(),
{
    let is_task = |e: EffectModel| e is Spawn;
    let is_chat = |line: Seq<char>| chat_of(line) is Some && !word_at(line, "PING"@, 0);
    reveal(Seq::filter);
    if all.len() == 0 {
        assert(step(s, ActionModel::IrcMessage(sent_lines(all)), m).1.len() == 0);
    } else {
        let init = all.drop_last();
        let last = all.last();
        assert forall|i: int| 0 <= i < init.len() implies !(#[trigger] init[i]).contains('\n') by {
            assert(init[i] == all[i]);
        }
        law_every_chat_line_has_its_task(s, init, m);
        let before = sent_lines(init);
        if before.len() > 0 {
            assert(before.last() == '\n');
        }
        let end = last + seq!['\r', '\n'];
        law_frames_add_up(s, before, end, m);
        let one = step(s, ActionModel::IrcMessage(before), m);
        lemma_lines_keep(s, lines_of(before));
        law_line_of_the_server(one.0, last, m);
        let two = step(one.0, ActionModel::IrcMessage(end), m);
        let effects = step(s, ActionModel::IrcMessage(sent_lines(all)), m).1;
        assert(effects == one.1 + two.1);
        Seq::filter_distributes_over_add(one.1, two.1, is_task);
        assert(two.1.filter(is_task).len() == if is_chat(last) {
            1nat
        } else {
            0nat
        }) by {
            reveal_with_fuel(Seq::filter, 2);
            if two.1.len() == 1 {
                assert(two.1.drop_last() =~= Seq::<EffectModel>::empty());
                assert(two.1.last() == two.1[0]);
            }
        }
        assert(all.filter(is_chat).len() == init.filter(is_chat).len() + if is_chat(last) {
            1nat
        } else {
            0nat
        });
        assert forall|i: int| 0 <= i < all.len() && is_chat(#[trigger] all[i]) implies
            effects.contains(
            EffectModel::Spawn(
                TaskModel {
                    subject: SubjectModel::Chat(chat_of(all[i])->0),
                    generation: s.generation,
                    default_language: s.config.default_language,
                    threshold: s.config.detection_confidence_threshold,
                },
            ),
        ) by {
            let wanted = EffectModel::Spawn(
                TaskModel {
                    subject: SubjectModel::Chat(chat_of(all[i])->0),
                    generation: s.generation,
                    default_language: s.config.default_language,
                    threshold: s.config.detection_confidence_threshold,
                },
            );
            if i < all.len() - 1 {
                assert(init[i] == all[i]);
                assert(one.1.contains(wanted));
                let k = choose|k: int| 0 <= k < one.1.len() && one.1[k] == wanted;
                assert(effects[k] == wanted);
            } else {
                assert(two.1[0] == wanted);
                assert(effects[one.1.len() as int] == wanted);
            }
        }
    }
}

/// Nothing but the request for a channel switch changes the generation, and
/// nothing but leaving the old channel for it changes the channel; the rest of
/// the configuration and the translation service never change.
pub proof fn law_only_a_switch_changes_the_channel(s: ClientModel, action: ActionModel, m: Moment)
    ensures
        !(action is SwitchChannel) ==> step(s, action, m).0.generation == s.generation,
        !(action matches ActionModel::StageSent(StageModel::Part(_), true)) ==> step(
            s,
            action,
            m,
        ).0.config == s.config,
        step(s, action, m).0.config == (ConfigModel {
            channel: step(s, action, m).0.config.channel,
            ..s.config
        }),
        step(s, action, m).0.translator == s.translator,
{
    if let ActionModel::IrcMessage(text) = action {
        lemma_lines_keep(s, lines_of(text));
    }
}

/// A switch whose frames are sent parts the old channel, joins the new one, and
/// then tells the web clients; it ends on the new channel, one generation later
/// and without any transcript. A transcription that was running is stopped and
/// started again for the new channel.
pub proof fn law_switch_goes_through(
    s: ClientModel,
    channel: Seq<char>,
    m: Moment,
    n: Moment,
    o: Moment,
)
    ensures
        ({
            let one = step(s, ActionModel::SwitchChannel(channel), m);
            let two = step(one.0, ActionModel::StageSent(StageModel::Part(channel), true), n);
            let three = step(two.0, ActionModel::StageSent(StageModel::Join, true), o);
            let again = s.stt_running && s.config.deepgram_api_key is Some;
            let k: int = if again {
                2
            } else if s.stt_running {
                1
            } else {
                0
            };
            &&& one.1 == seq![
                EffectModel::SendStage(
                    "PART #"@ + s.config.channel + "\r\n"@,
                    StageModel::Part(channel),
                ),
            ]
            &&& two.1 == seq![
                EffectModel::SendStage("JOIN #"@ + channel + "\r\n"@, StageModel::Join),
            ]
            &&& three.1 == settle_effects(two.0, o)
            &&& three.1.len() == k + 3
            &&& s.stt_running ==> three.1[0] == EffectModel::StopTranscription
            &&& again ==> three.1[1] == EffectModel::StartTranscription(
                TranscriptionConfigModel {
                    api_key: s.config.deepgram_api_key->0,
                    channel,
                    language: s.config.stt_language,
                    model: s.config.deepgram_model,
                },
            )
            &&& three.1[k] == EffectModel::Broadcast(
                WebEventModel::ChannelChanged { channel, timestamp: o.timestamp },
            )
            &&& three.1[k + 1] == EffectModel::Print(seq![rule_of('━', o.width as nat)])
            &&& three.1[k + 2] matches EffectModel::Print(line) && shown_text(line)
                == "Switched to #"@ + channel + " - waiting for messages..."@
            &&& three.0 == switched(s, channel)
            &&& three.0.config == (ConfigModel { channel, ..s.config })
            &&& three.0.translator == s.translator
            &&& three.0.generation == next_generation(s.generation)
            &&& three.0.generation as int == (s.generation + 1) % 0x1_0000_0000_0000_0000
            &&& three.0.current_interim is None
            &&& three.0.interim_set_at is None
            &&& three.0.last_final_transcript is None
            &&& three.0.stt_running == again
            &&& s.stt_running ==> three.0.stt_open == again
            &&& !s.stt_running ==> three.0.stt_open == s.stt_open
        }),
{
    let two = moved(departing(s), channel);
    let effects = settle_effects(two, o);
    assert(effects[effects.len() - 3] == EffectModel::Broadcast(
        WebEventModel::ChannelChanged { channel, timestamp: o.timestamp },
    ));
    let line = effects[effects.len() - 1]->Print_0;
    assert(line.drop_last() =~= Seq::<StyledModel>::empty());
    reveal_with_fuel(shown_text, 2);
    assert(shown_text(line) =~= line[0].text);
}

/// A switch whose first frame cannot be sent ends in an error: the client keeps
/// its channel and its transcripts, and broadcasts nothing.
pub proof fn law_failed_part_keeps_the_channel(
    s: ClientModel,
    channel: Seq<char>,
    m: Moment,
    n: Moment,
)
    ensures
        ({
            let one = step(s, ActionModel::SwitchChannel(channel), m);
            let two = step(one.0, ActionModel::StageSent(StageModel::Part(channel), false), n);
            &&& two.0 == departing(s)
            &&& two.0 == (ClientModel { generation: two.0.generation, ..s })
            &&& two.0.config == s.config
            &&& two.0.last_final_transcript == s.last_final_transcript
            &&& two.1 == seq![EffectModel::Fail("Failed to send IRC message"@)]
        }),
{
}

/// A switch whose second frame cannot be sent ends in an error on the new
/// channel; the client keeps its transcripts and broadcasts nothing.
pub proof fn law_failed_join_tells_nobody(
    s: ClientModel,
    channel: Seq<char>,
    m: Moment,
    n: Moment,
    o: Moment,
)
    ensures
        ({
            let one = step(s, ActionModel::SwitchChannel(channel), m);
            let two = step(one.0, ActionModel::StageSent(StageModel::Part(channel), true), n);
            let three = step(two.0, ActionModel::StageSent(StageModel::Join, false), o);
            &&& three.0 == moved(departing(s), channel)
            &&& three.0 == (ClientModel {
                generation: three.0.generation,
                config: ConfigModel { channel, ..s.config },
                ..s
            })
            &&& three.1 == seq![EffectModel::Fail("Failed to send IRC message"@)]
        }),
{
}

/// A final result that comes again right after itself is shown once.
pub proof fn law_duplicate_finals_are_shown_once(
    s: ClientModel,
    transcript: Seq<char>,
    first: Confidence,
    second: Confidence,
    m: Moment,
    n: Moment,
)
    ensures
        ({
            let once = ActionModel::SttEvent(
                EventModel::Final { transcript, confidence: first },
            );
            let again = ActionModel::SttEvent(
                EventModel::Final { transcript, confidence: second },
            );
            step(step(s, once, m).0, again, n).1 == Seq::<EffectModel>::empty()
        }),
{
}

/// An interim transcript that is never finalized is not lost: it is shown when
/// its time is over, and the same text as a late final result is then not shown
/// again.
pub proof fn law_stale_interims_are_committed(
    s: ClientModel,
    transcript: Seq<char>,
    confidence: Confidence,
    m: Moment,
    n: Moment,
    o: Moment,
)
    ensures
        ({
            let heard = step(s, ActionModel::SttEvent(EventModel::Interim { transcript }), m);
            let committed = step(heard.0, ActionModel::SttInterimTimeout, n);
            let late = step(
                committed.0,
                ActionModel::SttEvent(EventModel::Final { transcript, confidence }),
                o,
            );
            &&& heard.1 == Seq::<EffectModel>::empty()
            &&& heard.0.interim_set_at == Some(m.now_ms)
            &&& committed.1 == seq![
                EffectModel::Spawn(task_for(s, SubjectModel::Transcript(transcript))),
            ]
            &&& committed.0.current_interim is None
            &&& late.1 == Seq::<EffectModel>::empty()
        }),
{
}

/// A chat message forgets the interim transcript, so that no stale timeout
/// shows it.
pub proof fn law_chat_forgets_the_interim(s: ClientModel, line: Seq<char>, m: Moment)
    requires
        chat_of(line) is Some,
        !word_at(line, "PING"@, 0),
    ensures
        step(line_step(s, line).0, ActionModel::SttInterimTimeout, m).1
            == Seq::<EffectModel>::empty(),
{
}

/// Once the channel of a switch is joined, nothing is known of the transcripts
/// before: the next final result is shown, whatever it says.
pub proof fn law_a_switch_forgets_transcripts(
    s: ClientModel,
    transcript: Seq<char>,
    confidence: Confidence,
    m: Moment,
    n: Moment,
)
    ensures
        ({
            let after = step(s, ActionModel::StageSent(StageModel::Join, true), m).0;
            &&& after.current_interim is None
            &&& after.interim_set_at is None
            &&& step(
                after,
                ActionModel::SttEvent(EventModel::Final { transcript, confidence }),
                n,
            ).1 == seq![
                EffectModel::Spawn(task_for(after, SubjectModel::Transcript(transcript))),
            ]
        }),
{
}

/// The number of channel switches among happenings.
pub open spec fn switches(actions: Seq<(ActionModel, Moment)>) -> nat
    decreases actions.len(),
{
    if actions.len() == 0 {
        0
    } else {
        switches(actions.drop_last()) + if actions.last().0 is SwitchChannel {
            1nat
        } else {
            0nat
        }
    }
}

proof fn lemma_generation(s: ClientModel, actions: Seq<(ActionModel, Moment)>)
    ensures
        after_all(s, actions).generation == (s.generation + switches(actions))
            % 0x1_0000_0000_0000_0000,
    decreases actions.len(),
{
    if actions.len() > 0 {
        let last = actions.last();
        lemma_generation(s, actions.drop_last());
        law_only_a_switch_changes_the_channel(
            after_all(s, actions.drop_last()),
            last.0,
            last.1,
        );
    }
}

/// On connecting the client asks for tags, logs in with its token, or without
/// one as anybody may, and joins its channel. A transcription is started for
/// that channel where there is a key for it.
pub proof fn law_connecting_logs_in_and_joins(config: ConfigModel, translator: TranslatorModel)
    ensures
        ({
            let client = fresh_client(config, translator);
            let effects = connect_effects(config);
            &&& effects.len() == if config.deepgram_api_key is Some {
                5nat
            } else {
                4nat
            }
            &&& effects[0] == EffectModel::Send(
                "CAP REQ :twitch.tv/tags twitch.tv/commands\r\n"@,
            )
            &&& config.oauth_token matches Some(token) ==> effects[1] == EffectModel::Send(
                "PASS oauth:"@ + token + "\r\n"@,
            )
            &&& config.oauth_token is None ==> effects[1] == EffectModel::Send(
                "PASS SCHMOOPIIE\r\n"@,
            )
            &&& effects[2] == EffectModel::Send("NICK "@ + config.username + "\r\n"@)
            &&& effects[3] == EffectModel::Send("JOIN #"@ + config.channel + "\r\n"@)
            &&& config.deepgram_api_key matches Some(api_key) ==> effects[4]
                == EffectModel::StartTranscription(
                TranscriptionConfigModel {
                    api_key,
                    channel: config.channel,
                    language: config.stt_language,
                    model: config.deepgram_model,
                },
            )
            &&& client.config == config && client.translator == translator
            &&& client.generation == 0
            &&& client.stt_open == (config.deepgram_api_key is Some)
            &&& client.stt_running == (config.deepgram_api_key is Some)
            &&& client.current_interim is None && client.interim_set_at is None
            &&& client.last_final_transcript is None
        }),
{
    reveal_strlit("CAP REQ :twitch.tv/tags twitch.tv/commands");
    reveal_strlit("CAP REQ :twitch.tv/tags twitch.tv/commands\r\n");
    reveal_strlit("\r\n");
    reveal_strlit("PASS oauth:");
    reveal_strlit("PASS ");
    reveal_strlit("oauth:");
    reveal_strlit("SCHMOOPIIE");
    reveal_strlit("PASS SCHMOOPIIE\r\n");
    assert("CAP REQ :twitch.tv/tags twitch.tv/commands"@ + "\r\n"@
        =~= "CAP REQ :twitch.tv/tags twitch.tv/commands\r\n"@);
    assert("PASS "@ + "SCHMOOPIIE"@ + "\r\n"@ =~= "PASS SCHMOOPIIE\r\n"@);
    if let Some(token) = config.oauth_token {
        assert("PASS "@ + ("oauth:"@ + token) + "\r\n"@ =~= "PASS oauth:"@ + token + "\r\n"@);
    }
}

/// Before the first happening a thick line is drawn through the terminal, and
/// the client says that it waits.
pub proof fn law_welcome_says_that_the_client_waits(width: nat)
    ensures
        welcome_effects(width).len() == 2,
        welcome_effects(width)[0] == EffectModel::Print(seq![rule_of('━', width)]),
        welcome_effects(width)[1] matches EffectModel::Print(line) && shown_text(line)
            == "Waiting for messages..."@,
{
    let line = welcome_effects(width)[1]->Print_0;
    assert(line.drop_last() =~= Seq::<StyledModel>::empty());
    reveal_with_fuel(shown_text, 2);
    assert(shown_text(line) =~= line[0].text);
}

/// A silent server is pinged. When the connection is gone the client leaves, and
/// stops a transcription that is running before it does; it changes nothing.
pub proof fn law_connection_is_kept_or_left(
    s: ClientModel,
    message: Seq<char>,
    m: Moment,
)
    ensures
        step(s, ActionModel::IrcTimeout, m) == (
            s,
            seq![EffectModel::Send("PING :tmi.twitch.tv\r\n"@)],
        ),
        step(s, ActionModel::IrcClosed, m) == step(s, ActionModel::IrcError(message), m),
        step(s, ActionModel::IrcClosed, m).0 == s,
        step(s, ActionModel::IrcClosed, m).1.last() == EffectModel::Exit,
        step(s, ActionModel::IrcClosed, m).1.contains(EffectModel::StopTranscription)
            <==> s.stt_running,
        step(s, ActionModel::IrcClosed, m).1.len() <= 2,
{
    reveal_strlit("PING :tmi.twitch.tv");
    reveal_strlit("PING :tmi.twitch.tv\r\n");
    reveal_strlit("\r\n");
    assert("PING :tmi.twitch.tv"@ + "\r\n"@ =~= "PING :tmi.twitch.tv\r\n"@);
    if s.stt_running {
        assert(leave_effects(s)[0] == EffectModel::StopTranscription);
    }
}

/// A final transcript becomes one task about it, with the client's generation
/// and settings, unless it is the last one again; either way it takes the place
/// of the interim transcript.
pub proof fn law_final_transcripts_become_tasks(
    s: ClientModel,
    transcript: Seq<char>,
    confidence: Confidence,
    m: Moment,
)
    ensures
        ({
            let event = EventModel::Final { transcript, confidence };
            let r = step(s, ActionModel::SttEvent(event), m);
            &&& r.0 == (ClientModel {
                current_interim: None,
                interim_set_at: None,
                last_final_transcript: Some(transcript),
                ..s
            })
            &&& s.last_final_transcript == Some(transcript) ==> r.1.len() == 0
            &&& s.last_final_transcript != Some(transcript) ==> r.1 == seq![
                EffectModel::Spawn(
                    TaskModel {
                        subject: SubjectModel::Transcript(transcript),
                        generation: s.generation,
                        default_language: s.config.default_language,
                        threshold: s.config.detection_confidence_threshold,
                    },
                ),
            ]
        }),
{
}

/// An interim transcript is kept, shown nowhere, and due two seconds after it
/// was last heard; when it is committed it becomes a task as a final one does.
pub proof fn law_interim_transcripts_wait(
    s: ClientModel,
    transcript: Seq<char>,
    m: Moment,
    n: Moment,
)
    ensures
        ({
            let event = EventModel::Interim { transcript };
            let heard = step(s, ActionModel::SttEvent(event), m);
            let due = step(heard.0, ActionModel::SttInterimTimeout, n);
            &&& heard.1.len() == 0
            &&& heard.0 == (ClientModel {
                current_interim: Some(transcript),
                interim_set_at: Some(m.now_ms),
                ..s
            })
            &&& s.stt_open ==> commit_deadline(heard.0) == Some(m.now_ms + 2000)
            &&& !s.stt_open ==> commit_deadline(heard.0) is None
            &&& due.0 == (ClientModel {
                current_interim: None,
                interim_set_at: None,
                last_final_transcript: Some(transcript),
                ..s
            })
            &&& commit_deadline(due.0) is None
            &&& due.1 == seq![
                EffectModel::Spawn(
                    TaskModel {
                        subject: SubjectModel::Transcript(transcript),
                        generation: s.generation,
                        default_language: s.config.default_language,
                        threshold: s.config.detection_confidence_threshold,
                    },
                ),
            ]
        }),
        s.current_interim is None ==> step(s, ActionModel::SttInterimTimeout, m) == (
            s,
            Seq::<EffectModel>::empty(),
        ),
{
}

/// An error of the transcription is shown with its message; that, and the end
/// of a pipeline, drops the interim transcript and nothing else. A pipeline that
/// is gone is no longer listened to.
pub proof fn law_transcription_errors_are_shown(s: ClientModel, message: Seq<char>, m: Moment)
    ensures
        ({
            let failed = step(s, ActionModel::SttEvent(EventModel::Error(message)), m);
            let ended = step(s, ActionModel::SttEvent(EventModel::Shutdown), m);
            let closed = step(s, ActionModel::SttClosed, m);
            &&& failed.0 == (ClientModel { current_interim: None, interim_set_at: None, ..s })
            &&& failed.1.len() == 1
            &&& failed.1[0] matches EffectModel::Print(line) && shown_text(line) == "[Audio] "@
                + message
            &&& ended.0 == (ClientModel { current_interim: None, interim_set_at: None, ..s })
            &&& ended.1.len() == 0
            &&& closed.0 == (ClientModel { stt_open: false, ..s })
            &&& closed.1.len() == 0
            &&& commit_deadline(closed.0) is None
        }),
{
    law_audio_lines_say_what_was_heard(message);
}

/// The event that a finished task broadcasts is about the task's own subject
/// and carries the result as it is: its translation and its romanization where
/// there is one, and none where there is none; likewise the source language.
pub proof fn law_event_carries_the_translation(
    task: TaskModel,
    source: Option<SourceModel>,
    result: Option<TranslationModel>,
    timestamp: u64,
)
    ensures
        task.subject matches SubjectModel::Transcript(transcript) ==> {
            &&& task.outcome(source, result, task.generation, timestamp) matches Some(
                WebEventModel::Transcription(e),
            )
            &&& e.transcript == transcript
            &&& result matches Some(t) ==> e.translation == Some(t.translation) && e.romanization
                == t.romanization
            &&& result is None ==> e.translation is None && e.romanization is None
            &&& source matches Some(from) ==> e.source_language == Some(from.code)
                && e.language_name == Some(from.name)
            &&& source is None ==> e.source_language is None && e.language_name is None
            &&& e.timestamp == timestamp
        },
        task.subject matches SubjectModel::Chat(msg) ==> {
            &&& task.outcome(source, result, task.generation, timestamp) matches Some(
                WebEventModel::ChatMessage(e),
            )
            &&& e.content == msg.content
            &&& result matches Some(t) ==> e.translation == Some(t.translation) && e.romanization
                == t.romanization
            &&& result is None ==> e.translation is None && e.romanization is None
            &&& source matches Some(from) ==> e.source_language == Some(from.code)
                && e.language_name == Some(from.name)
            &&& source is None ==> e.source_language is None && e.language_name is None
            &&& e.timestamp == timestamp
            &&& msg.display_name matches Some(name) ==> e.username == name
            &&& msg.display_name is None ==> e.username == msg.username
            &&& e.color == msg.color
            &&& e.is_broadcaster == msg.is_broadcaster
            &&& e.is_mod == msg.is_mod
            &&& e.is_vip == msg.is_vip
            &&& e.reply_to is Some <==> msg.reply_to is Some
            &&& msg.reply_to matches Some(reply) ==> e.reply_to->0.parent_username
                == reply.parent_display_name && e.reply_to->0.parent_message
                == reply.parent_msg_body
        },
{
}

/// A task asks for the translation of its own text, whole, from its source
/// language; without a source language it asks for none.
pub proof fn law_tasks_ask_for_their_text(task: TaskModel, source: SourceModel)
    ensures
        task.pending(None) is None,
        task.pending(Some(source)) is Some <==> has_foreign(trimmed(task.text())),
        task.pending(Some(source)) matches Some(p) ==> p.source_lang == source.code && p.prefix
            + p.core + p.suffix == task.text(),
        task.subject matches SubjectModel::Chat(msg) ==> task.text() == msg.content,
        task.subject matches SubjectModel::Transcript(transcript) ==> task.text() == transcript,
{
    law_affixes_rejoin(task.text());
}

/// What a task shows in the end: of a chat message the message itself, and then
/// what there is to show of its translation, under the name of its language; of
/// a transcript the latter alone, as it was shown already.
pub proof fn law_tasks_show_their_text(
    task: TaskModel,
    source: Option<SourceModel>,
    result: Option<TranslationModel>,
    transliterated: Seq<char>,
    width: nat,
)
    ensures
        ({
            let lines = task.closing(source, result, transliterated);
            let shown = match result {
                Some(t) => translation_lines(
                    task.text(),
                    if source is Some {
                        Some(source->0.name)
                    } else {
                        None
                    },
                    t,
                    transliterated,
                ),
                None => Seq::empty(),
            };
            &&& task.subject matches SubjectModel::Chat(msg) ==> lines.len() == shown.len() + 1
                && lines[0] == message_line(msg, result is Some) && lines.skip(1) == shown
                && task.opening(width) == opening_lines(msg, width)
            &&& task.subject matches SubjectModel::Transcript(transcript) ==> lines == shown
                && task.opening(width).len() == 2 && task.opening(width)[0] == seq![
                rule_of('─', width),
            ] && shown_text(task.opening(width)[1]) == "[Audio] "@ + transcript
        }),
{
    let lines = task.closing(source, result, transliterated);
    match task.subject {
        SubjectModel::Chat(_) => {
            if result is Some {
                assert(lines.skip(1) =~= translation_lines(
                    task.text(),
                    name_of(source),
                    result->0,
                    transliterated,
                ));
            } else {
                assert(lines.skip(1) =~= Seq::<Seq<StyledModel>>::empty());
            }
        },
        SubjectModel::Transcript(transcript) => {
            law_audio_lines_say_what_was_heard(transcript);
            if result is Some {
                assert(lines =~= translation_lines(
                    task.text(),
                    name_of(source),
                    result->0,
                    transliterated,
                ));
            }
        },
    }
}

/// A task that was handed out before a channel switch broadcasts nothing after
/// it, however many other things have happened (short of 2^64 switches).
pub proof fn law_stale_tasks_broadcast_nothing(
    s: ClientModel,
    subject: SubjectModel,
    actions: Seq<(ActionModel, Moment)>,
    source: Option<SourceModel>,
    result: Option<TranslationModel>,
    timestamp: u64,
)
    requires
        0 < switches(actions) < 0x1_0000_0000_0000_0000,
    ensures
        task_for(s, subject).outcome(
            source,
            result,
            after_all(s, actions).generation,
            timestamp,
        ) is None,
{
    lemma_generation(s, actions);
}

/// A task whose channel is still the current one broadcasts its event.
pub proof fn law_current_tasks_broadcast(
    s: ClientModel,
    subject: SubjectModel,
    actions: Seq<(ActionModel, Moment)>,
    source: Option<SourceModel>,
    result: Option<TranslationModel>,
    timestamp: u64,
)
    requires
        switches(actions) == 0,
    ensures
        task_for(s, subject).outcome(
            source,
            result,
            after_all(s, actions).generation,
            timestamp,
        ) == Some(task_for(s, subject).event(source, result, timestamp)),
{
    lemma_generation(s, actions);
}

/// Where a language is set for all messages, nothing hangs on the detection.
pub proof fn law_default_language_bypasses_detection(
    lang: Seq<char>,
    threshold: Confidence,
    detection: Option<DetectionModel>,
)
    ensures
        source_of(Some(lang), threshold, detection) == Some(
            SourceModel { code: lang, name: uppercase(lang) },
        ),
{
}

/// English text is not translated unless a language is set for all messages.
pub proof fn law_english_is_not_translated(
    task: TaskModel,
    threshold: Confidence,
    detection: DetectionModel,
)
    requires
        detection.is_english,
    ensures
        source_of(None, threshold, Some(detection)) is None,
        task.pending(source_of(None, threshold, Some(detection))) is None,
{
}

/// Where no language is set for all messages, the configured threshold decides:
/// a text has a source language exactly where it has three bytes, a language
/// other than English is found in it, and the confidence reaches the threshold.
pub proof fn law_threshold_decides(config: ConfigModel, text: Seq<char>)
    ensures
        source_of(
            None,
            config.detection_confidence_threshold,
            detection_in(text, translator_for(config).min_confidence),
        ) == match detected(text) {
            Some((code, bits)) => if encode_utf8(text).len() >= 3 && code != "eng"@
                && (Confidence { bits }).reaches(config.detection_confidence_threshold) {
                Some(SourceModel { code: code_and_name(code).0, name: code_and_name(code).1 })
            } else {
                None
            },
            None => None,
        },
{
}

} // verus!
