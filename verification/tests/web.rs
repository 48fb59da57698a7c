use twitch_translator::events::{ChannelChangedEvent, WebEvent};
use twitch_translator::web::{
    handle_ws_connection, start_web_server, switch_answer, ConfigResponse, ControlCommand,
    LiveInput, LiveStep, SwitchOutcome, WebState,
};

fn server() -> WebState {
    start_web_server("Abc".to_string())
}

#[test]
fn server_starts_with_its_channel() {
    let state = server();
    assert_eq!(state.config_handler().channel, "Abc");
    assert!(state.replay().is_empty());
}

#[test]
fn replay_holds_the_last_hundred_events() {
    let mut state = server();
    for i in 0..99 {
        state.record(i.to_string());
    }
    assert_eq!(state.replay().len(), 99);
    for i in 99..250 {
        state.record(i.to_string());
    }
    let expected: Vec<String> = (150..250).map(|i: i32| i.to_string()).collect();
    assert_eq!(state.replay(), expected);
}

#[test]
fn buffer_takes_events_up() {
    let mut state = server();
    assert!(state.buffer(LiveInput::Event(Some("a".to_string()))));
    assert!(state.buffer(LiveInput::Event(None)));
    assert!(state.buffer(LiveInput::Lagged));
    assert!(!state.buffer(LiveInput::Closed));
    assert_eq!(state.replay(), vec!["a".to_string()]);
}

#[test]
fn switching_clears_the_buffer() {
    let mut state = server();
    state.record("event".to_string());
    match state.switch_channel_handler("  New_Channel1 ", 42) {
        SwitchOutcome::Switched {
            response,
            event: WebEvent::ChannelChanged(event),
            command: ControlCommand::SwitchChannel(channel),
        } => {
            assert_eq!(response.channel, "new_channel1");
            assert_eq!(event.channel, "new_channel1");
            assert_eq!(event.timestamp, 42);
            assert_eq!(channel, "new_channel1");
        }
        other => panic!("{:?}", other),
    }
    assert_eq!(state.config_handler().channel, "new_channel1");
    assert!(state.replay().is_empty());
}

#[test]
fn switching_to_the_current_channel_changes_nothing() {
    let mut state = start_web_server("abc".to_string());
    state.record("event".to_string());
    match state.switch_channel_handler("ABC", 42) {
        SwitchOutcome::Unchanged(response) => assert_eq!(response.channel, "abc"),
        other => panic!("{:?}", other),
    }
    assert_eq!(state.replay().len(), 1);
}

#[test]
fn names_that_are_no_channels() {
    let mut state = server();
    state.record("event".to_string());
    let long = "a".repeat(26);
    for name in ["", "   ", "a b", "a-b", "#abc", "я", long.as_str()] {
        assert!(matches!(state.switch_channel_handler(name, 42), SwitchOutcome::Invalid));
    }
    assert_eq!(state.replay().len(), 1);
    let longest = "b".repeat(25);
    assert!(matches!(
        state.switch_channel_handler(&longest, 42),
        SwitchOutcome::Switched { .. }
    ));
}

#[test]
fn answers_to_a_switch() {
    let response = |s: &str| ConfigResponse { channel: s.to_string() };
    assert_eq!(switch_answer(SwitchOutcome::Invalid, true).unwrap_err(), 400);
    let unchanged = SwitchOutcome::Unchanged(response("a"));
    assert_eq!(switch_answer(unchanged, false).unwrap().channel, "a");
    let switched = |s: &str| {
        let event = ChannelChangedEvent { channel: s.to_string(), timestamp: 1 };
        SwitchOutcome::Switched {
            response: response(s),
            event: WebEvent::ChannelChanged(event),
            command: ControlCommand::SwitchChannel(s.to_string()),
        }
    };
    assert_eq!(switch_answer(switched("b"), true).unwrap().channel, "b");
    assert_eq!(switch_answer(switched("b"), false).unwrap_err(), 500);
}

#[test]
fn connections_go_on_until_the_end() {
    match handle_ws_connection(LiveInput::Event(Some("x".to_string()))) {
        LiveStep::Send(s) => assert_eq!(s, "x"),
        other => panic!("{:?}", other),
    }
    assert!(matches!(handle_ws_connection(LiveInput::Event(None)), LiveStep::Continue));
    assert!(matches!(handle_ws_connection(LiveInput::Lagged), LiveStep::Continue));
    assert!(matches!(handle_ws_connection(LiveInput::Closed), LiveStep::Finish));
}
