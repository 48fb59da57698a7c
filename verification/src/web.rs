//! Web UI server with WebSocket live feed: the channel that it shows, the
//! recent events that a new client is sent, and the switch to another channel.
//!
//! - `GET /` serves the web UI.
//! - `GET /ws` sends the recent events and then every new one.
//! - `GET /api/config` answers with the current channel.
//! - `POST /api/channel` switches the channel.

use crate::events::{ChannelChangedEvent, WebEvent, WebEventModel};
use crate::irc::login_char;
use crate::letter_case::lowercase;
use crate::text::{
    ascii_lower, ascii_lowered, chars_of, law_trimming_takes_the_white_space, same_text, string_of,
    trim, trimmed, white_space,
};
use std::collections::VecDeque;
use vstd::prelude::*;
use vstd::utf8::is_ascii_chars;

verus! {

/// Maximum number of recent events kept in the replay buffer.
/// New WebSocket clients receive this history on connect.
pub const REPLAY_BUFFER_SIZE: usize = 100;

/// Maximum length of a channel name (Twitch rules).
pub const MAX_CHANNEL_LEN: usize = 25;

/// The status of a switch to something that is no channel name.
pub const BAD_REQUEST: u16 = 400;

/// The status of a switch that could not be passed on.
pub const INTERNAL_SERVER_ERROR: u16 = 500;

/// Command sent from web handlers to the event loop of the chat client.
#[derive(Debug)]
pub enum ControlCommand {
    /// Switch to a different Twitch channel.
    SwitchChannel(String),
}

/// Response from the `/api/config` and `/api/channel` endpoints.
#[derive(Debug)]
pub struct ConfigResponse {
    /// The Twitch channel name for the player embed.
    pub channel: String,
}

/// Shared state of the web server.
#[derive(Debug)]
pub struct WebState {
    /// The Twitch channel name (without #).
    pub channel: String,
    /// Ring buffer of recent events, as JSON, for replay on new connections.
    pub recent_events: VecDeque<String>,
}

impl WebState {
    /// The recent events, the oldest first.
    pub open spec fn recent(self) -> Seq<Seq<char>> {
        self.recent_events@.map_values(|s: String| s@)
    }

    /// The buffer holds no more than it may.
    pub open spec fn wf(self) -> bool {
        self.recent_events@.len() <= REPLAY_BUFFER_SIZE
    }
}

/// A buffer after one more event: the oldest one leaves where it is full.
pub open spec fn recorded(buffer: Seq<Seq<char>>, event: Seq<char>) -> Seq<Seq<char>> {
    if buffer.len() >= REPLAY_BUFFER_SIZE {
        buffer.skip(1).push(event)
    } else {
        buffer.push(event)
    }
}

/// A character of a channel name.
pub open spec fn channel_char(c: char) -> bool {
    ('a' <= c && c <= 'z') || ('A' <= c && c <= 'Z') || ('0' <= c && c <= '9') || c == '_'
}

/// A channel name: 1 to 25 ASCII letters, digits and underscores.
pub open spec fn channel_name(s: Seq<char>) -> bool {
    1 <= s.len() <= MAX_CHANNEL_LEN && (forall|i: int|
        0 <= i < s.len() ==> channel_char(#[trigger] s[i]))
}

/// The channel that a request asks for: without white space at the ends, in
/// lower case.
pub open spec fn requested_channel(requested: Seq<char>) -> Seq<char> {
    lowercase(trimmed(requested))
}

/// What becomes of a request to switch the channel.
#[derive(Debug)]
pub enum SwitchOutcome {
    /// The request names no channel.
    Invalid,
    /// The request names the current channel.
    Unchanged(ConfigResponse),
    /// The channel was switched: the event is to be broadcast to all clients,
    /// then the command sent to the event loop of the chat client.
    Switched {
        /// The answer to the request.
        response: ConfigResponse,
        /// The event for the clients.
        event: WebEvent,
        /// The command for the chat client.
        command: ControlCommand,
    },
}

/// What a [`SwitchOutcome`] holds.
pub enum OutcomeModel {
    Invalid,
    Unchanged(Seq<char>),
    Switched { response: Seq<char>, event: WebEventModel, command: Seq<char> },
}

impl DeepView for SwitchOutcome {
    type V = OutcomeModel;

    open spec fn deep_view(&self) -> OutcomeModel {
        match self {
            SwitchOutcome::Invalid => OutcomeModel::Invalid,
            SwitchOutcome::Unchanged(response) => OutcomeModel::Unchanged(response.channel@),
            SwitchOutcome::Switched {
                response,
                event,
                command: ControlCommand::SwitchChannel(channel),
            } => OutcomeModel::Switched {
                response: response.channel@,
                event: event.deep_view(),
                command: channel@,
            },
        }
    }
}

/// What a [`WebState`] holds.
pub struct StateModel {
    pub channel: Seq<char>,
    pub recent: Seq<Seq<char>>,
}

impl DeepView for WebState {
    type V = StateModel;

    open spec fn deep_view(&self) -> StateModel {
        StateModel { channel: self.channel@, recent: self.recent() }
    }
}

/// The state after a request to switch the channel, and what becomes of the
/// request.
pub open spec fn switch_step(s: StateModel, requested: Seq<char>, timestamp: u64) -> (
    StateModel,
    OutcomeModel,
) {
    let name = requested_channel(requested);
    if !channel_name(name) {
        (s, OutcomeModel::Invalid)
    } else if s.channel == name {
        (s, OutcomeModel::Unchanged(name))
    } else {
        (
            StateModel { channel: name, recent: Seq::empty() },
            OutcomeModel::Switched {
                response: name,
                event: WebEventModel::ChannelChanged { channel: name, timestamp },
                command: name,
            },
        )
    }
}

/// The answer to a request to switch the channel.
pub open spec fn answer_to(outcome: OutcomeModel, sent: bool) -> Result<Seq<char>, u16> {
    match outcome {
        OutcomeModel::Invalid => Err(BAD_REQUEST),
        OutcomeModel::Unchanged(channel) => Ok(channel),
        OutcomeModel::Switched { response, event: _, command: _ } => if sent {
            Ok(response)
        } else {
            Err(INTERNAL_SERVER_ERROR)
        },
    }
}

/// Something that a subscriber to the live events meets.
#[derive(Debug)]
pub enum LiveInput {
    /// An event as JSON, `None` where it could not be written.
    Event(Option<String>),
    /// Events were missed.
    Lagged,
    /// There will be no more events.
    Closed,
}

/// What a subscriber to the live events does next.
#[derive(Debug)]
pub enum LiveStep {
    /// It sends a text frame and goes on.
    Send(String),
    /// It goes on.
    Continue,
    /// It is done.
    Finish,
}

/// What a [`LiveInput`] holds.
pub enum LiveInputModel {
    Event(Option<Seq<char>>),
    Lagged,
    Closed,
}

/// What a [`LiveStep`] holds.
pub enum LiveStepModel {
    Send(Seq<char>),
    Continue,
    Finish,
}

impl DeepView for LiveInput {
    type V = LiveInputModel;

    open spec fn deep_view(&self) -> LiveInputModel {
        match self {
            LiveInput::Event(json) => LiveInputModel::Event(json.deep_view()),
            LiveInput::Lagged => LiveInputModel::Lagged,
            LiveInput::Closed => LiveInputModel::Closed,
        }
    }
}

impl DeepView for LiveStep {
    type V = LiveStepModel;

    open spec fn deep_view(&self) -> LiveStepModel {
        match self {
            LiveStep::Send(s) => LiveStepModel::Send(s@),
            LiveStep::Continue => LiveStepModel::Continue,
            LiveStep::Finish => LiveStepModel::Finish,
        }
    }
}

/// What a client's connection does about a live event.
pub open spec fn live_step(input: LiveInputModel) -> LiveStepModel {
    match input {
        LiveInputModel::Event(Some(json)) => LiveStepModel::Send(json),
        LiveInputModel::Event(None) => LiveStepModel::Continue,
        LiveInputModel::Lagged => LiveStepModel::Continue,
        LiveInputModel::Closed => LiveStepModel::Finish,
    }
}

/// The replay buffer after a live event was met.
pub open spec fn taken_up(buffer: Seq<Seq<char>>, input: LiveInputModel) -> Seq<Seq<char>> {
    match input {
        LiveInputModel::Event(Some(json)) => recorded(buffer, json),
        _ => buffer,
    }
}

/// The state with which the web server starts.
pub fn start_web_server(channel: String) -> (r: WebState)
    ensures
        r.wf(),
        r.channel@ == channel@,
        r.recent() == Seq::<Seq<char>>::empty(),
{
    let r = WebState { channel, recent_events: VecDeque::with_capacity(REPLAY_BUFFER_SIZE) };
    assert(r.recent() =~= Seq::<Seq<char>>::empty());
    r
}

/// Decides what a client's connection does about a live event. It is not ended
/// by an event that could not be written nor by events that were missed.
pub fn handle_ws_connection(input: LiveInput) -> (r: LiveStep)
    ensures
        r.deep_view() == live_step(input.deep_view()),
        match input {
            LiveInput::Event(Some(json)) => r == LiveStep::Send(json),
            LiveInput::Event(None) => r is Continue,
            LiveInput::Lagged => r is Continue,
            LiveInput::Closed => r is Finish,
        },
{
    match input {
        LiveInput::Event(Some(json)) => LiveStep::Send(json),
        LiveInput::Event(None) => LiveStep::Continue,
        LiveInput::Lagged => LiveStep::Continue,
        LiveInput::Closed => LiveStep::Finish,
    }
}

fn is_channel_char(c: char) -> (r: bool)
    ensures
        r == channel_char(c),
{
    ('a' <= c && c <= 'z') || ('A' <= c && c <= 'Z') || ('0' <= c && c <= '9') || c == '_'
}

fn is_channel_name(s: &str) -> (r: bool)
    ensures
        r == channel_name(s@),
{
    let chars = chars_of(s);
    if chars.len() == 0 || chars.len() > MAX_CHANNEL_LEN {
        return false;
    }
    let mut i: usize = 0;
    while i < chars.len()
        invariant
            i <= chars@.len(),
            chars@ == s@,
            forall|j: int| 0 <= j < i ==> channel_char(#[trigger] s@[j]),
        decreases chars@.len() - i,
    {
        if !is_channel_char(chars[i]) {
            assert(!channel_char(s@[i as int]));
            return false;
        }
        i += 1;
    }
    true
}

impl WebState {
    /// Adds an event to the replay buffer.
    pub fn record(&mut self, json: String)
        requires
            old(self).wf(),
        ensures
            final(self).wf(),
            final(self).channel@ == old(self).channel@,
            final(self).recent() == recorded(old(self).recent(), json@),
    {
        let ghost before = self.recent();
        let ghost event = json@;
        if self.recent_events.len() >= REPLAY_BUFFER_SIZE {
            self.recent_events.pop_front();
            assert(self.recent() =~= before.skip(1));
        }
        self.recent_events.push_back(json);
        assert(self.recent() =~= recorded(before, event));
    }

    /// Takes up a live event into the replay buffer. Says whether there may be
    /// more to come.
    pub fn buffer(&mut self, input: LiveInput) -> (more: bool)
        requires
            old(self).wf(),
        ensures
            final(self).wf(),
            final(self).channel@ == old(self).channel@,
            more == !(input is Closed),
            final(self).recent() == taken_up(old(self).recent(), input.deep_view()),
            final(self).recent() == match input {
                LiveInput::Event(Some(json)) => recorded(old(self).recent(), json@),
                _ => old(self).recent(),
            },
    {
        match input {
            LiveInput::Event(Some(json)) => {
                self.record(json);
                true
            },
            LiveInput::Event(None) => true,
            LiveInput::Lagged => true,
            LiveInput::Closed => false,
        }
    }

    /// The recent events, the oldest first: what a new client is sent.
    pub fn replay(&self) -> (r: Vec<String>)
        ensures
            r.deep_view() == self.recent(),
    {
        let mut r: Vec<String> = Vec::new();
        let mut i: usize = 0;
        while i < self.recent_events.len()
            invariant
                i <= self.recent_events@.len(),
                r@.len() == i,
                forall|j: int| 0 <= j < i ==> (#[trigger] r@[j])@ == self.recent_events@[j]@,
            decreases self.recent_events@.len() - i,
        {
            r.push(self.recent_events[i].clone());
            i += 1;
        }
        assert(r.deep_view() =~= self.recent());
        r
    }

    /// Returns the current configuration for the UI.
    pub fn config_handler(&self) -> (r: ConfigResponse)
        ensures
            r.channel@ == self.channel@,
    {
        ConfigResponse { channel: self.channel.clone() }
    }

    /// Handles channel switch requests from the web UI.
    ///
    /// Validates the channel name, updates the channel and clears the replay
    /// buffer, so that new clients don't see the old channel's messages. Gives
    /// the event that tells all clients of the switch at the given time, and the
    /// command for the chat client.
    pub fn switch_channel_handler(&mut self, requested: &str, timestamp: u64) -> (r: SwitchOutcome)
        requires
            old(self).wf(),
        ensures
            final(self).wf(),
            (final(self).deep_view(), r.deep_view()) == switch_step(
                old(self).deep_view(),
                requested@,
                timestamp,
            ),
            is_ascii_chars(trimmed(requested@)) ==> requested_channel(requested@) == ascii_lowered(
                trimmed(requested@),
            ),
            ({
                let name = requested_channel(requested@);
                if !channel_name(name) {
                    &&& r is Invalid
                    &&& *final(self) == *old(self)
                } else if old(self).channel@ == name {
                    &&& r matches SwitchOutcome::Unchanged(response) && response.channel@ == name
                    &&& *final(self) == *old(self)
                } else {
                    &&& r matches SwitchOutcome::Switched {
                        response,
                        event,
                        command: ControlCommand::SwitchChannel(channel),
                    } && response.channel@ == name && channel@ == name && event.deep_view()
                        == (WebEventModel::ChannelChanged { channel: name, timestamp })
                    &&& final(self).channel@ == name
                    &&& final(self).recent() == Seq::<Seq<char>>::empty()
                }
            }),
    {
        let chars = chars_of(requested);
        let name = string_of(trim(chars.as_slice())).as_str().to_lowercase();
        if !is_channel_name(name.as_str()) {
            return SwitchOutcome::Invalid;
        }
        if same_text(self.channel.as_str(), name.as_str()) {
            return SwitchOutcome::Unchanged(ConfigResponse { channel: name });
        }
        self.channel = name.clone();
        self.recent_events.clear();
        assert(self.recent() =~= Seq::<Seq<char>>::empty());
        SwitchOutcome::Switched {
            response: ConfigResponse { channel: name.clone() },
            event: WebEvent::ChannelChanged(
                ChannelChangedEvent { channel: name.clone(), timestamp },
            ),
            command: ControlCommand::SwitchChannel(name),
        }
    }
}

/// The answer to a request to switch the channel: the channel that is current
/// now, or an HTTP status. `sent` says whether the command of a switch could be
/// passed on.
pub fn switch_answer(outcome: SwitchOutcome, sent: bool) -> (r: Result<ConfigResponse, u16>)
    ensures
        match outcome {
            SwitchOutcome::Invalid => r == Err::<ConfigResponse, u16>(BAD_REQUEST),
            SwitchOutcome::Unchanged(response) => r == Ok::<ConfigResponse, u16>(response),
            SwitchOutcome::Switched { response, event: _, command: _ } => if sent {
                r == Ok::<ConfigResponse, u16>(response)
            } else {
                r == Err::<ConfigResponse, u16>(INTERNAL_SERVER_ERROR)
            },
        },
        answer_to(outcome.deep_view(), sent) == match r {
            Ok(response) => Ok::<Seq<char>, u16>(response.channel@),
            Err(status) => Err(status),
        },
{
    match outcome {
        SwitchOutcome::Invalid => Err(BAD_REQUEST),
        SwitchOutcome::Unchanged(response) => Ok(response),
        SwitchOutcome::Switched { response, event: _, command: _ } => if sent {
            Ok(response)
        } else {
            Err(INTERNAL_SERVER_ERROR)
        },
    }
}

/// A buffer after several events, the first one first.
pub open spec fn all_recorded(buffer: Seq<Seq<char>>, events: Seq<Seq<char>>) -> Seq<Seq<char>>
    decreases events.len(),
{
    if events.len() == 0 {
        buffer
    } else {
        recorded(all_recorded(buffer, events.drop_last()), events.last())
    }
}

/// The replay buffer of a server holds the last hundred events in the order in
/// which they came, or all of them where there are fewer.
pub proof fn law_replay_is_the_recent_history(events: Seq<Seq<char>>)
    ensures
        all_recorded(Seq::empty(), events) == if events.len() <= REPLAY_BUFFER_SIZE {
            events
        } else {
            events.skip(events.len() - REPLAY_BUFFER_SIZE)
        },
    decreases events.len(),
{
    if events.len() > 0 {
        let init = events.drop_last();
        law_replay_is_the_recent_history(init);
        let before = all_recorded(Seq::empty(), init);
        if events.len() <= REPLAY_BUFFER_SIZE {
            assert(before.push(events.last()) =~= events);
        } else {
            assert(before.skip(1).push(events.last()) =~= events.skip(
                events.len() - REPLAY_BUFFER_SIZE,
            ));
        }
    }
}

/// A replay buffer after several things were met, the first one first.
pub open spec fn all_taken_up(buffer: Seq<Seq<char>>, inputs: Seq<LiveInputModel>) -> Seq<Seq<char>>
    decreases inputs.len(),
{
    if inputs.len() == 0 {
        buffer
    } else {
        taken_up(all_taken_up(buffer, inputs.drop_last()), inputs.last())
    }
}

/// The events that could be written among what a subscriber meets.
pub open spec fn written_events(inputs: Seq<LiveInputModel>) -> Seq<Seq<char>>
    decreases inputs.len(),
{
    if inputs.len() == 0 {
        Seq::empty()
    } else {
        match inputs.last() {
            LiveInputModel::Event(Some(json)) => written_events(inputs.drop_last()).push(json),
            _ => written_events(inputs.drop_last()),
        }
    }
}

proof fn lemma_all_taken_up(inputs: Seq<LiveInputModel>)
    ensures
        all_taken_up(Seq::empty(), inputs) == all_recorded(Seq::empty(), written_events(inputs)),
    decreases inputs.len(),
{
    if inputs.len() > 0 {
        lemma_all_taken_up(inputs.drop_last());
        if let LiveInputModel::Event(Some(json)) = inputs.last() {
            let events = written_events(inputs);
            assert(events.drop_last() =~= written_events(inputs.drop_last()));
            assert(events.last() == json);
        }
    }
}

/// A new client is sent the last hundred events that could be written, in their
/// order, or all of them where there are fewer, whatever else was met between
/// them.
pub proof fn law_new_clients_see_the_recent_events(inputs: Seq<LiveInputModel>)
    ensures
        ({
            let events = written_events(inputs);
            all_taken_up(Seq::empty(), inputs) == if events.len() <= 100 {
                events
            } else {
                events.skip(events.len() - 100)
            }
        }),
{
    lemma_all_taken_up(inputs);
    law_replay_is_the_recent_history(written_events(inputs));
}

/// A connected client is sent every event that could be written, as it is, and
/// nothing else. Only the end of the events ends its connection.
pub proof fn law_clients_are_sent_every_event(input: LiveInputModel)
    ensures
        input matches LiveInputModel::Event(Some(json)) <==> live_step(input) is Send,
        live_step(input) matches LiveStepModel::Send(s) ==> input == LiveInputModel::Event(Some(s)),
        live_step(input) is Finish <==> input is Closed,
{
}

/// A request that names a channel leads to it: the state, the answer, the event
/// and the command all name that channel, and the events of the old one are
/// gone. Asking for the same channel again then changes nothing more.
pub proof fn law_switch_leads_to_the_channel(
    s: StateModel,
    requested: Seq<char>,
    timestamp: u64,
    later: u64,
)
    requires
        channel_name(requested_channel(requested)),
        s.channel != requested_channel(requested),
    ensures
        ({
            let one = switch_step(s, requested, timestamp);
            let two = switch_step(one.0, requested, later);
            let name = lowercase(trimmed(requested));
            &&& one.0.channel == name
            &&& one.0.recent.len() == 0
            &&& one.1 matches OutcomeModel::Switched { response, event, command }
            &&& response == name
            &&& command == name
            &&& event == (WebEventModel::ChannelChanged { channel: name, timestamp })
            &&& answer_to(one.1, true) == Ok::<Seq<char>, u16>(name)
            &&& answer_to(one.1, false) == Err::<Seq<char>, u16>(500)
            &&& two.0 == one.0
            &&& two.1 == OutcomeModel::Unchanged(name)
            &&& answer_to(two.1, true) == Ok::<Seq<char>, u16>(name)
            &&& answer_to(two.1, false) == Ok::<Seq<char>, u16>(name)
        }),
{
}

/// Of two requests the later one counts, and nothing is left of the first.
pub proof fn law_the_last_switch_counts(
    s: StateModel,
    first: Seq<char>,
    second: Seq<char>,
    m: u64,
    n: u64,
)
    requires
        channel_name(requested_channel(first)),
        channel_name(requested_channel(second)),
        requested_channel(first) != requested_channel(second),
    ensures
        ({
            let one = switch_step(s, first, m);
            let two = switch_step(one.0, second, n);
            &&& two.0 == (StateModel {
                channel: requested_channel(second),
                recent: Seq::<Seq<char>>::empty(),
            })
            &&& two.1 is Switched
        }),
{
}

/// A request that names no channel is refused and changes nothing.
pub proof fn law_refused_switches_change_nothing(s: StateModel, requested: Seq<char>, m: u64)
    requires
        !channel_name(requested_channel(requested)),
    ensures
        switch_step(s, requested, m).0 == s,
        answer_to(switch_step(s, requested, m).1, true) == Err::<Seq<char>, u16>(400),
        answer_to(switch_step(s, requested, m).1, false) == Err::<Seq<char>, u16>(400),
{
}

/// The names of channels are the texts of one to twenty-five ASCII letters,
/// digits and underscores: every such text is one, and a text with any other
/// character, or of another length, is none.
pub proof fn law_channel_names(s: Seq<char>, i: int)
    ensures
        1 <= s.len() <= 25 && (forall|j: int|
            0 <= j < s.len() ==> login_char(ascii_lower(#[trigger] s[j]))) ==> channel_name(s),
        channel_name(s) ==> 1 <= s.len() <= 25,
        channel_name(s) && 0 <= i < s.len() ==> login_char(ascii_lower(s[i])),
{
    if forall|j: int| 0 <= j < s.len() ==> login_char(ascii_lower(#[trigger] s[j])) {
        assert forall|j: int| 0 <= j < s.len() implies channel_char(#[trigger] s[j]) by {
            assert(login_char(ascii_lower(s[j])));
        }
    }
    if channel_name(s) && 0 <= i < s.len() {
        assert(channel_char(s[i]));
    }
}

/// White space around the name in a request does not matter.
pub proof fn law_requests_are_trimmed(before: Seq<char>, name: Seq<char>, after: Seq<char>)
    requires
        forall|i: int| 0 <= i < before.len() ==> white_space(#[trigger] before[i]),
        forall|i: int| 0 <= i < after.len() ==> white_space(#[trigger] after[i]),
        name.len() > 0 ==> !white_space(name[0]) && !white_space(name.last()),
    ensures
        requested_channel(before + name + after) == lowercase(name),
{
    law_trimming_takes_the_white_space(before, name, after);
}

} // verus!
