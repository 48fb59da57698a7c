//! The translation API: an HTTP server that passes requests on to Google
//! Translate.
//!
//! `GET /translate/:source/:target/:text` answers with the translation and, if
//! available, the romanization of the text; `GET /health` answers `OK`.

use crate::cache::TranslationModel;
use crate::json::{item_at, json_model, json_read, parse_json, text_at, JsonModel};
use crate::number::{decimal, law_numbers_read_back, number_up_to, parse_number};
use crate::percent::{
    law_decode_undoes_encode, law_plain_text_decodes_to_itself, url_decode, url_decode_error,
    url_decoded, url_encode, url_encoded,
};
use crate::text::{chars_of, is_empty, join2, join3, join4};
use crate::translator::{is_success, success_status};
use serde_json::Value;
use vstd::prelude::*;

verus! {

/// The port of the server where none is set.
pub const DEFAULT_PORT: u16 = 4000;

/// The address of the server where none is set.
pub const DEFAULT_HOST: &'static str = "127.0.0.1";

/// The header `User-Agent` of a request to Google.
pub const USER_AGENT: &'static str =
    "Mozilla/5.0 (Windows NT 10.0; Win64; x64) AppleWebKit/537.36";

/// The status of a request that makes no sense.
pub const BAD_REQUEST: u16 = 400;

/// The status of a request that Google did not answer as it should.
pub const BAD_GATEWAY: u16 = 502;

/// Response from the translation API.
#[derive(Debug, Clone)]
pub struct TranslationResponse {
    /// The translated text.
    pub translation: String,
    /// Romanization/pronunciation of the source text (if available).
    pub romanization: Option<String>,
}

impl DeepView for TranslationResponse {
    type V = TranslationModel;

    open spec fn deep_view(&self) -> TranslationModel {
        TranslationModel {
            translation: self.translation@,
            romanization: self.romanization.deep_view(),
        }
    }
}

/// Error response.
#[derive(Debug, Clone)]
pub struct ErrorResponse {
    /// The HTTP status.
    pub status: u16,
    /// What is wrong.
    pub error: String,
}

/// What an [`ErrorResponse`] holds.
pub struct ErrorModel {
    pub status: u16,
    pub error: Seq<char>,
}

impl DeepView for ErrorResponse {
    type V = ErrorModel;

    open spec fn deep_view(&self) -> ErrorModel {
        ErrorModel { status: self.status, error: self.error@ }
    }
}

/// What an answer holds: a translation or an error.
pub open spec fn answer(r: Result<TranslationResponse, ErrorResponse>) -> Result<
    TranslationModel,
    ErrorModel,
> {
    match r {
        Ok(response) => Ok(response.deep_view()),
        Err(e) => Err(e.deep_view()),
    }
}

/// Health check endpoint.
pub fn health_check() -> (r: &'static str)
    ensures
        r@ == "OK"@,
{
    "OK"
}

/// The port that a setting gives.
pub open spec fn port_of(setting: Option<Seq<char>>) -> Option<u16> {
    match setting {
        Some(s) => match number_up_to(s, 65535) {
            Some(n) => Some(n as u16),
            None => None,
        },
        None => Some(DEFAULT_PORT),
    }
}

/// The port that a setting gives: the default where it is not set, none where
/// it is no port number.
pub fn server_port(setting: &Option<String>) -> (r: Option<u16>)
    ensures
        r == match setting.deep_view() {
            Some(s) => match number_up_to(s, 65535) {
                Some(n) => Some(n as u16),
                None => None,
            },
            None => Some(DEFAULT_PORT),
        },
        r == port_of(setting.deep_view()),
{
    match setting {
        Some(s) => match parse_number(chars_of(s.as_str()).as_slice(), 65535) {
            Some(n) => Some(n as u16),
            None => None,
        },
        None => Some(DEFAULT_PORT),
    }
}

/// The URL at which Google translates a text.
pub open spec fn google_url(source: Seq<char>, target: Seq<char>, text: Seq<char>) -> Seq<char> {
    "https://translate.googleapis.com/translate_a/single?client=gtx&sl="@ + source + "&tl="@ + target
        + "&dt=t&dt=rm&q="@ + url_encoded(text)
}

/// The URL of the request to Google for a text as it stands in a path, or the
/// error where it cannot be decoded.
pub open spec fn upstream_url(source: Seq<char>, target: Seq<char>, text: Seq<char>) -> Result<
    Seq<char>,
    ErrorModel,
> {
    match url_decoded(text) {
        Some(decoded) => Ok(google_url(source, target, decoded)),
        None => Err(
            ErrorModel {
                status: BAD_REQUEST,
                error: "Invalid text encoding: "@ + url_decode_error(text),
            },
        ),
    }
}

/// The URL of the request to Google for the endpoint's parameters, where the
/// text is URL-encoded.
pub fn translate(source: &str, target: &str, text: &str) -> (r: Result<String, ErrorResponse>)
    ensures
        match r {
            Ok(url) => upstream_url(source@, target@, text@) == Ok::<Seq<char>, ErrorModel>(url@),
            Err(e) => upstream_url(source@, target@, text@) == Err::<Seq<char>, ErrorModel>(
                e.deep_view(),
            ),
        },
{
    let decoded = match url_decode(text) {
        Ok(decoded) => decoded,
        Err(message) => {
            return Err(
                ErrorResponse {
                    status: BAD_REQUEST,
                    error: join2("Invalid text encoding: ", message.as_str()),
                },
            );
        },
    };
    let encoded = url_encode(decoded.as_str());
    let head = join4(
        "https://translate.googleapis.com/translate_a/single?client=gtx&sl=",
        source,
        "&tl=",
        target,
    );
    Ok(join3(head.as_str(), "&dt=t&dt=rm&q=", encoded.as_str()))
}

/// One segment of Google's reply: a piece of the translation, and a
/// romanization.
#[derive(Debug, Clone)]
pub struct Segment {
    /// The translated text, where there is one.
    pub translation: Option<String>,
    /// The romanization, where there is one.
    pub romanization: Option<String>,
}

/// What a [`Segment`] holds.
pub struct SegmentModel {
    pub translation: Option<Seq<char>>,
    pub romanization: Option<Seq<char>>,
}

impl DeepView for Segment {
    type V = SegmentModel;

    open spec fn deep_view(&self) -> SegmentModel {
        SegmentModel {
            translation: self.translation.deep_view(),
            romanization: self.romanization.deep_view(),
        }
    }
}

/// The pieces of the translation one after the other.
pub open spec fn joined_translation(segments: Seq<SegmentModel>) -> Seq<char>
    decreases segments.len(),
{
    if segments.len() == 0 {
        Seq::empty()
    } else {
        joined_translation(segments.drop_last()) + match segments.last().translation {
            Some(s) => s,
            None => Seq::empty(),
        }
    }
}

/// The last romanization that is not empty.
pub open spec fn last_romanization(segments: Seq<SegmentModel>) -> Option<Seq<char>>
    decreases segments.len(),
{
    if segments.len() == 0 {
        None
    } else if segments.last().romanization is Some && segments.last().romanization->0.len() > 0 {
        segments.last().romanization
    } else {
        last_romanization(segments.drop_last())
    }
}

/// The error of a reply that cannot be used.
pub open spec fn bad_gateway(message: Seq<char>) -> ErrorModel {
    ErrorModel { status: BAD_GATEWAY, error: message }
}

/// The answer that segments give: an error where they hold no translation.
pub open spec fn answer_of(segments: Seq<SegmentModel>) -> Result<TranslationModel, ErrorModel> {
    if joined_translation(segments).len() == 0 {
        Err(bad_gateway("Empty translation received from Google"@))
    } else {
        Ok(
            TranslationModel {
                translation: joined_translation(segments),
                romanization: last_romanization(segments),
            },
        )
    }
}

/// The answer that segments give.
pub fn join_segments(segments: &Vec<Segment>) -> (r: Result<TranslationResponse, ErrorResponse>)
    ensures
        answer(r) == answer_of(segments.deep_view()),
{
    let mut translation = String::new();
    let mut romanization: Option<String> = None;
    let mut i: usize = 0;
    assert(segments.deep_view().take(0) =~= Seq::<SegmentModel>::empty());
    while i < segments.len()
        invariant
            i <= segments@.len(),
            translation@ == joined_translation(segments.deep_view().take(i as int)),
            romanization.deep_view() == last_romanization(segments.deep_view().take(i as int)),
        decreases segments@.len() - i,
    {
        let ghost before = segments.deep_view().take(i as int);
        let ghost after = segments.deep_view().take(i + 1);
        let ghost said = translation@;
        proof {
            assert(after.drop_last() =~= before);
            assert(after.last() == segments@[i as int].deep_view());
        }
        let segment = &segments[i];
        if let Some(text) = &segment.translation {
            translation.append(text.as_str());
        } else {
            assert(said + Seq::<char>::empty() =~= said);
        }
        if let Some(rom) = &segment.romanization {
            if !is_empty(rom.as_str()) {
                romanization = Some(rom.clone());
            }
        }
        i += 1;
    }
    assert(segments.deep_view().take(i as int) =~= segments.deep_view());
    if is_empty(translation.as_str()) {
        return Err(
            ErrorResponse {
                status: BAD_GATEWAY,
                error: "Empty translation received from Google".to_string(),
            },
        );
    }
    Ok(TranslationResponse { translation, romanization })
}

/// A segment of a reply: its translation stands first and its romanization
/// fourth.
pub open spec fn segment_of(json: JsonModel) -> SegmentModel {
    SegmentModel { translation: json.text_at(0), romanization: json.text_at(3) }
}

/// The segments of a reply: the array that stands first in it.
pub open spec fn segments_of(json: JsonModel) -> Option<Seq<SegmentModel>> {
    match json.at(0) {
        Some(JsonModel::Array(items)) => Some(items.map_values(|item: JsonModel| segment_of(item))),
        _ => None,
    }
}

/// The segments of a reply, where there are any.
pub fn read_segments(json: &Value) -> (r: Option<Vec<Segment>>)
    ensures
        r.deep_view() == segments_of(json_model(*json)),
{
    let first = match item_at(json, 0) {
        Some(first) => first,
        None => {
            return None;
        },
    };
    let items = match first.as_array() {
        Some(items) => items,
        None => {
            return None;
        },
    };
    let mut segments: Vec<Segment> = Vec::new();
    let mut i: usize = 0;
    while i < items.len()
        invariant
            i <= items@.len(),
            segments@.len() == i,
            forall|j: int|
                0 <= j < i ==> (#[trigger] segments@[j]).deep_view() == segment_of(
                    json_model(items@[j]),
                ),
        decreases items@.len() - i,
    {
        let item = &items[i];
        segments.push(Segment { translation: text_at(item, 0), romanization: text_at(item, 3) });
        i += 1;
    }
    assert(segments.deep_view() =~= segments_of(json_model(*json))->0);
    Some(segments)
}

/// What came of the request to Google.
#[derive(Debug)]
pub enum UpstreamReply {
    /// The request could not be sent, with the error's message.
    Unreachable(String),
    /// There was an answer.
    Answer {
        /// The HTTP status.
        status: u16,
        /// The status with its meaning (e.g., "404 Not Found").
        status_text: String,
        /// The body, or the message of the error that reading it gave.
        body: Result<String, String>,
    },
}

/// The answer that the body of a reply gives.
pub open spec fn body_answer(json: Result<JsonModel, Seq<char>>) -> Result<
    TranslationModel,
    ErrorModel,
> {
    match json {
        Err(message) => Err(bad_gateway("Failed to parse translation response: "@ + message)),
        Ok(json) => match segments_of(json) {
            None => Err(bad_gateway("Invalid translation response format: missing segments"@)),
            Some(segments) => answer_of(segments),
        },
    }
}

/// The answer that a reply gives.
pub open spec fn reply_answer(reply: UpstreamReply) -> Result<TranslationModel, ErrorModel> {
    match reply {
        UpstreamReply::Unreachable(message) => Err(
            bad_gateway("Failed to reach translation service: "@ + message@),
        ),
        UpstreamReply::Answer { status, status_text, body } => if !success_status(status) {
            Err(bad_gateway("Translation service returned error: "@ + status_text@))
        } else {
            match body {
                Err(message) => Err(
                    bad_gateway("Failed to read translation response: "@ + message@),
                ),
                Ok(text) => body_answer(json_read(text@)),
            }
        },
    }
}

fn gateway_error(head: &str, message: &str) -> (r: ErrorResponse)
    ensures
        r.deep_view() == bad_gateway(head@ + message@),
{
    ErrorResponse { status: BAD_GATEWAY, error: join2(head, message) }
}

/// The answer that a reply gives, where it has been read as JSON or could not
/// be.
pub fn answer_from_json(json: &Result<Value, String>) -> (r: Result<
    TranslationResponse,
    ErrorResponse,
>)
    ensures
        answer(r) == body_answer(
            match *json {
                Ok(value) => Ok(json_model(value)),
                Err(message) => Err(message@),
            },
        ),
{
    match json {
        Err(message) => Err(
            gateway_error("Failed to parse translation response: ", message.as_str()),
        ),
        Ok(value) => match read_segments(value) {
            None => Err(
                ErrorResponse {
                    status: BAD_GATEWAY,
                    error: "Invalid translation response format: missing segments".to_string(),
                },
            ),
            Some(segments) => join_segments(&segments),
        },
    }
}

/// The answer to a request for a translation, by what came of the request to
/// Google.
pub fn answer_from_reply(reply: &UpstreamReply) -> (r: Result<TranslationResponse, ErrorResponse>)
    ensures
        answer(r) == reply_answer(*reply),
{
    match reply {
        UpstreamReply::Unreachable(message) => Err(
            gateway_error("Failed to reach translation service: ", message.as_str()),
        ),
        UpstreamReply::Answer { status, status_text, body } => {
            if !is_success(*status) {
                return Err(
                    gateway_error("Translation service returned error: ", status_text.as_str()),
                );
            }
            match body {
                Err(message) => Err(
                    gateway_error("Failed to read translation response: ", message.as_str()),
                ),
                Ok(text) => answer_from_json(&parse_json(text.as_str())),
            }
        },
    }
}

/// The text that a client encodes into the path is the text that Google is
/// asked to translate, from the one language to the other; so is text without a
/// `%` that it does not encode. Text that cannot be decoded is refused.
pub proof fn law_text_reaches_google(source: Seq<char>, target: Seq<char>, text: Seq<char>)
    ensures
        ({
            let url =
                "https://translate.googleapis.com/translate_a/single?client=gtx&sl="@ + source
                + "&tl="@ + target + "&dt=t&dt=rm&q="@ + url_encoded(text);
            &&& url == google_url(source, target, text)
            &&& url_decoded(url_encoded(text)) == Some(text)
            &&& upstream_url(source, target, url_encoded(text)) == Ok::<Seq<char>, ErrorModel>(url)
            &&& !text.contains('%') ==> upstream_url(source, target, text) == Ok::<
                Seq<char>,
                ErrorModel,
            >(url)
        }),
        url_decoded(text) is None ==> (upstream_url(source, target, text) matches Err(e) && e.status
            == 400),
        url_decoded(text) is Some ==> upstream_url(source, target, text) is Ok,
{
    law_decode_undoes_encode(text);
    if !text.contains('%') {
        law_plain_text_decodes_to_itself(text);
    }
}

/// An answer is never empty: where there is a translation, it holds something,
/// and so does the romanization.
pub proof fn law_answers_hold_something(segments: Seq<SegmentModel>)
    ensures
        answer_of(segments) matches Ok(t) ==> t.translation.len() > 0 && (t.romanization matches Some(
            rom,
        ) ==> rom.len() > 0),
{
    lemma_last_romanization(segments);
}

proof fn lemma_last_romanization(segments: Seq<SegmentModel>)
    ensures
        last_romanization(segments) matches Some(rom) ==> rom.len() > 0,
    decreases segments.len(),
{
    if segments.len() > 0 {
        lemma_last_romanization(segments.drop_last());
    }
}

/// Segments without a translation and without a romanization change nothing.
pub proof fn law_empty_segments_change_nothing(segments: Seq<SegmentModel>)
    ensures
        ({
            let more = segments.push(SegmentModel { translation: None, romanization: None });
            answer_of(more) == answer_of(segments)
        }),
{
    let more = segments.push(SegmentModel { translation: None, romanization: None });
    assert(more.drop_last() =~= segments);
    assert(joined_translation(segments) + Seq::<char>::empty() =~= joined_translation(segments));
}

/// The translation of a reply is that of its segments in their order, none of
/// them left out and none repeated.
pub proof fn law_translations_add_up(first: Seq<SegmentModel>, second: Seq<SegmentModel>)
    ensures
        joined_translation(first + second) == joined_translation(first) + joined_translation(
            second,
        ),
    decreases second.len(),
{
    let all = first + second;
    if second.len() == 0 {
        assert(all =~= first);
        assert(joined_translation(first) + joined_translation(second) =~= joined_translation(first));
    } else {
        law_translations_add_up(first, second.drop_last());
        assert(all.drop_last() =~= first + second.drop_last());
        assert(joined_translation(all) =~= joined_translation(first) + joined_translation(second));
    }
}

/// A single segment gives its own translation and romanization, where it has
/// them.
pub proof fn law_one_segment_is_the_answer(segment: SegmentModel)
    ensures
        segment.translation matches Some(text) ==> (text.len() > 0 ==> (answer_of(
            seq![segment],
        ) matches Ok(t) && t.translation == text)),
        segment.translation is None ==> answer_of(seq![segment]) is Err,
        segment.romanization matches Some(rom) ==> (rom.len() > 0 ==> last_romanization(
            seq![segment],
        ) == Some(rom)),
{
    reveal_with_fuel(joined_translation, 2);
    let none = Seq::<SegmentModel>::empty();
    assert(seq![segment].drop_last() =~= none);
    if let Some(text) = segment.translation {
        assert(Seq::<char>::empty() + text =~= text);
    }
}

/// A segment whose romanization is worth something.
pub open spec fn romanizes(segment: SegmentModel) -> bool {
    segment.romanization is Some && segment.romanization->0.len() > 0
}

/// The romanization of a reply is that of the last segment that has one.
pub proof fn law_last_romanization_counts(segments: Seq<SegmentModel>)
    ensures
        match last_romanization(segments) {
            Some(rom) => exists|i: int|
                0 <= i < segments.len() && romanizes(#[trigger] segments[i])
                    && segments[i].romanization == Some(rom) && (forall|j: int|
                    i < j < segments.len() ==> !romanizes(#[trigger] segments[j])),
            None => forall|j: int| 0 <= j < segments.len() ==> !romanizes(#[trigger] segments[j]),
        },
    decreases segments.len(),
{
    if segments.len() > 0 {
        let n = segments.len() - 1;
        let init = segments.drop_last();
        if romanizes(segments.last()) {
            assert(segments[n] == segments.last());
        } else {
            law_last_romanization_counts(init);
            assert forall|j: int| 0 <= j < n implies init[j] == #[trigger] segments[j] by {}
            if last_romanization(init) is Some {
                let rom = last_romanization(init)->0;
                let i = choose|i: int|
                    0 <= i < init.len() && romanizes(#[trigger] init[i]) && init[i].romanization
                        == Some(rom) && (forall|j: int|
                        i < j < init.len() ==> !romanizes(#[trigger] init[j]));
                assert(segments[i] == init[i]);
                assert forall|j: int| i < j < segments.len() implies !romanizes(
                    #[trigger] segments[j],
                ) by {
                    if j < n {
                        assert(segments[j] == init[j]);
                    } else {
                        assert(segments[j] == segments.last());
                    }
                }
            } else {
                assert forall|j: int| 0 <= j < segments.len() implies !romanizes(
                    #[trigger] segments[j],
                ) by {
                    if j < n {
                        assert(segments[j] == init[j]);
                    } else {
                        assert(segments[j] == segments.last());
                    }
                }
            }
        }
    }
}

/// An answer is what the segments say together; it is an error, of the gateway's
/// kind, exactly where they say nothing.
pub proof fn law_answer_is_what_the_segments_say(segments: Seq<SegmentModel>)
    ensures
        answer_of(segments) is Ok <==> joined_translation(segments).len() > 0,
        answer_of(segments) matches Ok(t) ==> t.translation == joined_translation(segments)
            && t.romanization == last_romanization(segments),
        answer_of(segments) matches Err(e) ==> e.status == 502,
{
}

/// The segments of a reply stand in its first item, each with its translation
/// first and its romanization fourth. A reply of another shape has none.
pub proof fn law_segments_are_read_by_position(json: JsonModel, i: int)
    ensures
        segments_of(json) is Some <==> (json matches JsonModel::Array(outer) && outer.len() > 0
            && outer[0] is Array),
        json matches JsonModel::Array(outer) ==> (outer.len() > 0 ==> (
        outer[0] matches JsonModel::Array(items) ==> segments_of(json)->0.len() == items.len() && (0
            <= i < items.len() ==> (items[i] matches JsonModel::Array(parts) ==> {
            let segment = segments_of(json)->0[i];
            &&& segment.translation == if parts.len() > 0 && parts[0] is Text {
                Some(parts[0]->Text_0)
            } else {
                None
            }
            &&& segment.romanization == if parts.len() > 3 && parts[3] is Text {
                Some(parts[3]->Text_0)
            } else {
                None
            }
        })))),
{
}

/// Whatever goes wrong behind the proxy is an error of the gateway; only a reply
/// of success whose body could be read gives an answer, and it is the body's.
pub proof fn law_failures_are_the_gateways(
    reply: UpstreamReply,
    json: Result<JsonModel, Seq<char>>,
)
    ensures
        reply_answer(reply) matches Err(e) ==> e.status == 502,
        reply_answer(reply) is Ok ==> (reply matches UpstreamReply::Answer {
            status,
            status_text: _,
            body,
        } && 200 <= status <= 299 && body is Ok),
        reply matches UpstreamReply::Answer { status, status_text: _, body: Ok(text) } ==> (200
            <= status <= 299 ==> reply_answer(reply) == body_answer(json_read(text@))),
        json is Err ==> body_answer(json) is Err,
        json matches Ok(value) ==> (segments_of(value) is None ==> body_answer(json) is Err),
        json matches Ok(value) ==> (segments_of(value) matches Some(segments) ==> body_answer(json)
            == answer_of(segments)),
{
}

/// A port that is set in decimal is that port, one that is not set is 4000, and
/// a number beyond the ports is refused.
pub proof fn law_port_is_the_one_that_is_set(port: nat)
    ensures
        port <= 65535 ==> port_of(Some(decimal(port))) == Some(port as u16),
        port > 65535 ==> port_of(Some(decimal(port))) is None,
        port_of(None) == Some(4000u16),
{
    law_numbers_read_back(port, 65535);
}

/// A text ends with another one.
pub open spec fn ends_with(s: Seq<char>, end: Seq<char>) -> bool {
    end.len() <= s.len() && s.skip(s.len() - end.len()) == end
}

/// An error names its cause at its end: the message of the failure behind it,
/// or the status with which Google answered.
pub proof fn law_errors_name_their_cause(reply: UpstreamReply, text: Seq<char>, message: Seq<char>)
    ensures
        reply matches UpstreamReply::Unreachable(cause) ==> (reply_answer(reply) matches Err(e)
            && ends_with(e.error, cause@)),
        reply matches UpstreamReply::Answer { status, status_text, body: _ } ==> (!(200 <= status
            <= 299) ==> (reply_answer(reply) matches Err(e) && ends_with(e.error, status_text@))),
        reply matches UpstreamReply::Answer { status, status_text: _, body: Err(cause) } ==> (200
            <= status <= 299 ==> (reply_answer(reply) matches Err(e) && ends_with(
            e.error,
            cause@,
        ))),
        body_answer(Err(message)) matches Err(e) && ends_with(e.error, message),
        url_decoded(text) is None ==> (upstream_url(text, text, text) matches Err(e) && ends_with(
            e.error,
            url_decode_error(text),
        )),
{
    lemma_ends("Failed to parse translation response: "@, message);
    lemma_ends("Invalid text encoding: "@, url_decode_error(text));
    match reply {
        UpstreamReply::Unreachable(cause) => {
            lemma_ends("Failed to reach translation service: "@, cause@);
        },
        UpstreamReply::Answer { status: _, status_text, body } => {
            lemma_ends("Translation service returned error: "@, status_text@);
            if let Err(cause) = body {
                lemma_ends("Failed to read translation response: "@, cause@);
            }
        },
    }
}

proof fn lemma_ends(head: Seq<char>, end: Seq<char>)
    ensures
        ends_with(head + end, end),
{
    assert((head + end).skip(head.len() as int) =~= end);
}

} // verus!
