use twitch_translator::config::{Config, ConfidenceSetting, Settings};
use twitch_translator::events::WebEvent;
use twitch_translator::irc::parse_privmsg;
use twitch_translator::language::{detection_from, lang_to_code_and_name, DetectionResult};
use twitch_translator::number::Confidence;
use twitch_translator::style::StyledText;
use twitch_translator::transcription::TranscriptionEvent;
use twitch_translator::translator::{TranslationBackend, TranslationResult, Translator};
use twitch_translator::twitch::{
    choose_source, Effect, LoopAction, Moment, Source, Subject, SwitchStage, Task,
    TwitchClient, TWITCH_IRC_WSS,
};

fn text(s: &str) -> Option<String> {
    Some(s.to_string())
}

fn config(key: Option<&str>) -> Config {
    let settings = Settings {
        twitch_channel: text("abc"),
        twitch_username: text("me"),
        twitch_oauth_token: None,
        translation_backend: None,
        translation_api_url: None,
        detection_confidence: ConfidenceSetting::Unset,
        default_language: None,
        cache_size_mb: None,
        deepgram_api_key: key.map(|s| s.to_string()),
        deepgram_model: None,
        stt_language: None,
        web_port: None,
        irc_timeout_secs: None,
    };
    Config::from_settings(&settings, 1).unwrap()
}

fn translator() -> Translator {
    Translator::new("http://localhost:4000", TranslationBackend::Google, 50)
}

fn client(key: Option<&str>) -> (TwitchClient, Vec<Effect>) {
    TwitchClient::new(config(key), translator())
}

fn moment(now_ms: u64) -> Moment {
    Moment { now_ms, timestamp: 77, width: 3 }
}

fn words(line: &[StyledText]) -> String {
    line.iter().map(|s| s.text.as_str()).collect()
}

/// Effects in a short form.
fn brief(effects: &[Effect]) -> Vec<String> {
    effects
        .iter()
        .map(|e| match e {
            Effect::Send(s) => format!("send {}", s),
            Effect::SendStage(s, SwitchStage::Part(channel)) => {
                format!("part for {} {}", channel, s)
            }
            Effect::SendStage(s, SwitchStage::Join) => format!("join {}", s),
            Effect::Print(line) => format!("print {}", words(line)),
            Effect::Broadcast(WebEvent::ChannelChanged(e)) => {
                format!("changed {} {}", e.channel, e.timestamp)
            }
            Effect::Broadcast(_) => "broadcast".to_string(),
            Effect::StartTranscription(c) => {
                format!("start {} {} {} {}", c.api_key, c.channel, c.language, c.model)
            }
            Effect::StopTranscription => "stop".to_string(),
            Effect::Spawn(task) => match &task.subject {
                Subject::Chat(msg) => format!("chat {} {}", msg.username, msg.content),
                Subject::Transcript(s) => format!("transcript {}", s),
            },
            Effect::Exit => "exit".to_string(),
            Effect::Fail(message) => format!("fail {}", message),
        })
        .collect()
}

fn interim(s: &str) -> LoopAction {
    LoopAction::SttEvent(TranscriptionEvent::Interim { transcript: s.to_string() })
}

fn finished(s: &str) -> LoopAction {
    LoopAction::SttEvent(TranscriptionEvent::Final {
        transcript: s.to_string(),
        confidence: Confidence { bits: 0 },
    })
}

#[test]
fn connecting() {
    assert_eq!(TWITCH_IRC_WSS, "wss://irc-ws.chat.twitch.tv:443");
    let (anonymous, effects) = client(None);
    assert_eq!(
        brief(&effects),
        vec![
            "send CAP REQ :twitch.tv/tags twitch.tv/commands\r\n",
            "send PASS SCHMOOPIIE\r\n",
            "send NICK me\r\n",
            "send JOIN #abc\r\n",
        ]
    );
    assert!(!anonymous.stt_open && !anonymous.stt_running);
    let mut c = config(Some("key"));
    c.oauth_token = text("secret");
    let (_, effects) = TwitchClient::new(c, translator());
    let effects = brief(&effects);
    assert_eq!(effects[1], "send PASS oauth:secret\r\n");
    assert_eq!(effects[4], "start key abc multi nova-2");
    assert_eq!(brief(&anonymous.welcome(3)), vec!["print ━━", "print Waiting for messages..."]);
}

#[test]
fn lines_of_the_server() {
    let (mut client, _) = client(None);
    let frame = "PING :tmi.twitch.tv\r\n:bob!bob@bob.tmi.twitch.tv PRIVMSG #abc : hi \r\n:x 001\r\n";
    let effects = client.run(LoopAction::IrcMessage(frame.to_string()), moment(0));
    assert_eq!(brief(&effects), vec!["send PONG :tmi.twitch.tv\r\n", "chat bob hi"]);
    let effects = client.run(LoopAction::IrcTimeout, moment(0));
    assert_eq!(brief(&effects), vec!["send PING :tmi.twitch.tv\r\n"]);
}

#[test]
fn leaving() {
    let (mut quiet, _) = client(None);
    let effects = quiet.run(LoopAction::IrcClosed, moment(0));
    assert_eq!(brief(&effects), vec!["exit"]);
    let (mut loud, _) = client(Some("key"));
    let effects = loud.run(LoopAction::IrcError("gone".to_string()), moment(0));
    assert_eq!(brief(&effects), vec!["stop", "exit"]);
}

#[test]
fn duplicate_finals_are_shown_once() {
    let (mut client, _) = client(Some("key"));
    assert_eq!(brief(&client.run(finished("one"), moment(0))), vec!["transcript one"]);
    assert!(client.run(finished("one"), moment(1)).is_empty());
    assert_eq!(brief(&client.run(finished("two"), moment(2))), vec!["transcript two"]);
    assert_eq!(brief(&client.run(finished("one"), moment(3))), vec!["transcript one"]);
}

#[test]
fn stale_interims_are_committed() {
    let (mut client, _) = client(Some("key"));
    assert!(client.run(interim("a"), moment(5)).is_empty());
    assert!(client.run(interim("ab"), moment(10)).is_empty());
    assert_eq!(client.interim_deadline(), Some(2010));
    let effects = client.run(LoopAction::SttInterimTimeout, moment(2010));
    assert_eq!(brief(&effects), vec!["transcript ab"]);
    assert_eq!(client.interim_deadline(), None);
    assert!(client.run(finished("ab"), moment(2011)).is_empty());
    assert!(client.run(LoopAction::SttInterimTimeout, moment(2012)).is_empty());
}

#[test]
fn interims_are_forgotten() {
    let (mut client, _) = client(Some("key"));
    client.run(interim("a"), moment(5));
    let chat = ":bob!b PRIVMSG #abc :hi".to_string();
    client.run(LoopAction::IrcMessage(chat), moment(6));
    assert_eq!(client.current_interim, None);
    assert_eq!(client.interim_deadline(), None);
    client.run(interim("a"), moment(7));
    let error = LoopAction::SttEvent(TranscriptionEvent::Error("bad".to_string()));
    assert_eq!(brief(&client.run(error, moment(8))), vec!["print [Audio] bad"]);
    assert_eq!(client.current_interim, None);
    client.run(interim("a"), moment(9));
    let shutdown = LoopAction::SttEvent(TranscriptionEvent::Shutdown);
    assert!(client.run(shutdown, moment(10)).is_empty());
    assert_eq!(client.current_interim, None);
    client.run(interim("a"), moment(11));
    assert!(client.run(LoopAction::SttClosed, moment(12)).is_empty());
    assert_eq!(client.interim_deadline(), None);
    assert!(client.stt_running);
}

fn switch_to(channel: &str) -> LoopAction {
    LoopAction::SwitchChannel(channel.to_string())
}

fn parted(channel: &str, sent: bool) -> LoopAction {
    LoopAction::StageSent(SwitchStage::Part(channel.to_string()), sent)
}

fn joined(sent: bool) -> LoopAction {
    LoopAction::StageSent(SwitchStage::Join, sent)
}

#[test]
fn switching_the_channel() {
    let (mut client, _) = client(Some("key"));
    client.run(finished("one"), moment(0));
    client.run(interim("two"), moment(1));
    let effects = client.run(switch_to("new"), moment(2));
    assert_eq!(brief(&effects), vec!["part for new PART #abc\r\n"]);
    assert_eq!(client.generation, 1);
    assert_eq!(client.config.channel, "abc");
    let effects = client.run(parted("new", true), moment(3));
    assert_eq!(brief(&effects), vec!["join JOIN #new\r\n"]);
    assert_eq!(client.config.channel, "new");
    let effects = client.run(joined(true), moment(4));
    assert_eq!(
        brief(&effects),
        vec![
            "stop",
            "start key new multi nova-2",
            "changed new 77",
            "print ━━",
            "print Switched to #new - waiting for messages...",
        ]
    );
    assert_eq!(client.generation, 1);
    assert_eq!(client.config.channel, "new");
    assert_eq!(client.current_interim, None);
    assert_eq!(brief(&client.run(finished("one"), moment(5))), vec!["transcript one"]);
}

#[test]
fn switching_without_transcription() {
    let (mut client, _) = client(None);
    client.generation = u64::MAX;
    assert_eq!(client.run(switch_to("new"), moment(2)).len(), 1);
    assert_eq!(client.generation, 0);
    assert_eq!(client.run(parted("new", true), moment(2)).len(), 1);
    assert_eq!(client.run(joined(true), moment(2)).len(), 3);
    assert!(!client.stt_running && !client.stt_open);
}

#[test]
fn failed_switches() {
    let (mut client, _) = client(Some("key"));
    client.run(finished("one"), moment(0));
    client.run(interim("two"), moment(1));
    client.run(switch_to("new"), moment(2));
    let effects = client.run(parted("new", false), moment(3));
    assert_eq!(brief(&effects), vec!["fail Failed to send IRC message"]);
    assert_eq!(client.config.channel, "abc");
    assert_eq!(client.current_interim, text("two"));
    assert_eq!(client.last_final_transcript, text("one"));
    client.run(parted("new", true), moment(4));
    let effects = client.run(joined(false), moment(5));
    assert_eq!(brief(&effects), vec!["fail Failed to send IRC message"]);
    assert_eq!(client.config.channel, "new");
    assert_eq!(client.current_interim, text("two"));
    assert!(client.stt_running);
}

fn chat_task(client: &mut TwitchClient, line: &str) -> Task {
    match client.run(LoopAction::IrcMessage(line.to_string()), moment(0)).pop() {
        Some(Effect::Spawn(task)) => task,
        other => panic!("{:?}", other),
    }
}

const CHAT: &str = "@badges=vip/1;color=#0000FF;display-name=Bob;mod=0;reply-parent-display-name=Eve;reply-parent-msg-body=a\\sb :bob!bob@bob PRIVMSG #abc :привет";

#[test]
fn finished_chat_task() {
    let (mut client, _) = client(None);
    let task = chat_task(&mut client, CHAT);
    assert_eq!(task.text(), "привет");
    let opening = task.opening(3);
    assert_eq!(words(&opening[0]), "──");
    assert_eq!(words(&opening[1]), "  ┌─ replying to Eve \"a b\"");
    let source = Some(Source { code: "ru".to_string(), name: "Russian".to_string() });
    let result = Some(TranslationResult {
        translation: "hello".to_string(),
        romanization: text("privet"),
    });
    let closing = task.closing(&source, &result);
    let shown: Vec<String> = closing.iter().map(|l| words(l)).collect();
    assert_eq!(shown, vec!["[V] Bob: привет", "  ♪ privet", "  ↳ [Russian] hello"]);
    match task.finish(&source, &result, client.generation, 99) {
        Some(WebEvent::ChatMessage(e)) => {
            assert_eq!(e.username, "Bob");
            assert_eq!(e.color, text("#0000FF"));
            assert!(e.is_vip && !e.is_mod && !e.is_broadcaster);
            assert_eq!(e.content, "привет");
            assert_eq!(e.translation, text("hello"));
            assert_eq!(e.romanization, text("privet"));
            assert_eq!(e.source_language, text("ru"));
            assert_eq!(e.language_name, text("Russian"));
            assert_eq!(e.timestamp, 99);
            let reply = e.reply_to.unwrap();
            assert_eq!(reply.parent_username, "Eve");
            assert_eq!(reply.parent_message, "a b");
        }
        other => panic!("{:?}", other),
    }
}

#[test]
fn untranslated_chat_task() {
    let (mut client, _) = client(None);
    let task = chat_task(&mut client, ":bob!b PRIVMSG #abc :hi");
    let closing = task.closing_with(&None, &None, "");
    assert_eq!(closing.len(), 1);
    assert_eq!(words(&closing[0]), "bob: hi");
    match task.finish(&None, &None, 0, 1) {
        Some(WebEvent::ChatMessage(e)) => {
            assert_eq!(e.username, "bob");
            assert_eq!(e.translation, None);
            assert_eq!(e.source_language, None);
            assert!(e.reply_to.is_none());
        }
        other => panic!("{:?}", other),
    }
}

#[test]
fn stale_tasks_broadcast_nothing() {
    let (mut client, _) = client(None);
    let task = chat_task(&mut client, CHAT);
    client.run(switch_to("new"), moment(1));
    assert!(task.finish(&None, &None, client.generation, 1).is_none());
}

#[test]
fn transcript_task() {
    let (mut client, _) = client(Some("key"));
    let task = match client.run(finished("hello"), moment(0)).pop() {
        Some(Effect::Spawn(task)) => task,
        other => panic!("{:?}", other),
    };
    let opening = task.opening(3);
    assert_eq!(words(&opening[0]), "──");
    assert_eq!(words(&opening[1]), "[Audio] hello");
    assert!(task.closing(&None, &None).is_empty());
    match task.finish(&None, &None, 0, 5) {
        Some(WebEvent::Transcription(e)) => {
            assert_eq!(e.transcript, "hello");
            assert_eq!(e.translation, None);
            assert_eq!(e.timestamp, 5);
        }
        other => panic!("{:?}", other),
    }
}

fn detection(code: &str, score: f64) -> Option<DetectionResult> {
    Some(detection_from(code, score.to_bits()))
}

#[test]
fn sources() {
    let half = Confidence { bits: 0.5f64.to_bits() };
    let forced = choose_source(&text("ru"), half, &detection("eng", 1.0)).unwrap();
    assert_eq!(forced.code, "ru");
    assert_eq!(forced.name, "RU");
    let found = choose_source(&None, half, &detection("deu", 0.5)).unwrap();
    assert_eq!(found.code, "de");
    assert_eq!(found.name, "German");
    assert!(choose_source(&None, half, &detection("deu", 0.49)).is_none());
    assert!(choose_source(&None, half, &detection("eng", 1.0)).is_none());
    assert!(choose_source(&None, half, &None).is_none());
}

#[test]
fn sources_of_tasks() {
    let (mut client, _) = client(None);
    client.config.detection_confidence_threshold = Confidence { bits: 0 };
    let line = ":bob!b PRIVMSG #abc :привет всем, как у вас сегодня дела";
    let task = chat_task(&mut client, line);
    let open = translator().with_min_confidence(Confidence { bits: 0 });
    assert_eq!(task.detect_source(&open).unwrap().code, "ru");
    let closed = translator().with_min_confidence(Confidence { bits: 2.0f64.to_bits() });
    assert!(task.detect_source(&closed).is_none());
    client.config.default_language = text("uk");
    let task = chat_task(&mut client, ":bob!b PRIVMSG #abc :hi");
    assert_eq!(task.detect_source(&client.translator).unwrap().name, "UK");
}

#[test]
fn translations_of_tasks() {
    let (mut client, _) = client(None);
    let task = chat_task(&mut client, ":bob!b PRIVMSG #abc :5 Привет!");
    let source = Some(Source { code: "ru".to_string(), name: "Russian".to_string() });
    let pending = task.pending(&client.translator, &source).unwrap();
    assert_eq!(pending.prefix, "5 ");
    assert_eq!(pending.core, "Привет");
    assert_eq!(pending.suffix, "!");
    assert_eq!(pending.key, "привет");
    assert_eq!(pending.source_lang, "ru");
    assert!(task.pending(&client.translator, &None).is_none());
    let plain = chat_task(&mut client, ":bob!b PRIVMSG #abc :hi");
    assert!(plain.pending(&client.translator, &source).is_none());
}

#[test]
fn language_names() {
    assert_eq!(lang_to_code_and_name("jpn"), ("ja", "Japanese"));
    assert_eq!(lang_to_code_and_name("cmn"), ("zh", "Chinese"));
    assert_eq!(lang_to_code_and_name("eng"), ("en", "English"));
    assert_eq!(lang_to_code_and_name("xyz"), ("auto", "Unknown"));
}

#[test]
fn chat_lines() {
    let msg = parse_privmsg(CHAT).unwrap();
    assert_eq!(msg.username, "bob");
    assert_eq!(msg.display_name, text("Bob"));
    assert!(msg.is_vip);
    let plain = parse_privmsg(":eve!e@e PRIVMSG #abc : a : b ").unwrap();
    assert_eq!(plain.username, "eve");
    assert_eq!(plain.content, "a : b");
    assert_eq!(plain.display_name, None);
    assert!(plain.reply_to.is_none());
    assert!(parse_privmsg(":eve!e@e JOIN #abc").is_none());
    assert!(parse_privmsg("PRIVMSG #abc").is_none());
    let badges = "@mod=1;badges=broadcaster/1,moderator/1;display-name=;color= :x!x PRIVMSG #a :m";
    let msg = parse_privmsg(badges).unwrap();
    assert!(msg.is_broadcaster && msg.is_mod && !msg.is_vip);
    assert_eq!(msg.display_name, None);
    assert_eq!(msg.color, None);
    // A later tag counts over an earlier one.
    let undone = "@badges=moderator/1;mod=0 :x!x PRIVMSG #a :m";
    assert!(!parse_privmsg(undone).unwrap().is_mod);
    let half = "@reply-parent-display-name=Eve :x!x PRIVMSG #a :m";
    assert!(parse_privmsg(half).unwrap().reply_to.is_none());
    let escapes = "@reply-parent-display-name=E;reply-parent-msg-body=a\\:b\\\\c\\n :x!x PRIVMSG #a :m";
    let reply = parse_privmsg(escapes).unwrap().reply_to.unwrap();
    assert_eq!(reply.parent_msg_body, "a:b\\c\n");
}
