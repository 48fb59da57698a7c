use serde_json::Value;
use twitch_translator::api::{
    answer_from_json, answer_from_reply, health_check, join_segments, read_segments, server_port,
    translate, Segment, TranslationResponse, UpstreamReply,
};
use twitch_translator::json::text_at;

fn reply(status: u16, status_text: &str, body: Result<&str, &str>) -> UpstreamReply {
    UpstreamReply::Answer {
        status,
        status_text: status_text.to_string(),
        body: body.map(|s| s.to_string()).map_err(|s| s.to_string()),
    }
}

fn ok(body: &str) -> TranslationResponse {
    answer_from_reply(&reply(200, "200 OK", Ok(body))).unwrap()
}

fn error(reply: &UpstreamReply) -> String {
    let e = answer_from_reply(reply).unwrap_err();
    assert_eq!(e.status, 502);
    e.error
}

#[test]
fn health() {
    assert_eq!(health_check(), "OK");
}

#[test]
fn ports() {
    assert_eq!(server_port(&None), Some(4000));
    assert_eq!(server_port(&Some("8080".to_string())), Some(8080));
    assert_eq!(server_port(&Some("65536".to_string())), None);
    assert_eq!(server_port(&Some("x".to_string())), None);
}

#[test]
fn google_is_asked_for_the_decoded_text() {
    assert_eq!(
        translate("ru", "en", "%D0%B4%D0%B0 a%26b").unwrap(),
        "https://translate.googleapis.com/translate_a/single?client=gtx&sl=ru&tl=en&dt=t&dt=rm&q=%D0%B4%D0%B0%20a%26b"
    );
}

#[test]
fn text_may_stand_in_the_path_as_it_is() {
    assert_eq!(translate("ru", "en", "привет").unwrap(), translate("ru", "en", "%D0%BF%D1%80%D0%B8%D0%B2%D0%B5%D1%82").unwrap());
    assert!(translate("ru", "en", "100%").unwrap().ends_with("&q=100%25"));
}

#[test]
fn text_that_is_no_utf8_is_refused() {
    let e = translate("ru", "en", "%FF").unwrap_err();
    assert_eq!(e.status, 400);
    assert!(e.error.starts_with("Invalid text encoding: "));
    assert!(e.error.len() > "Invalid text encoding: ".len());
}

#[test]
fn segments_are_joined() {
    let answer = ok(
        r#"[[["Hello ","Привет ",null,null,3],["world","мир"],[null,null,null,"Privet mir"]],null,"ru"]"#,
    );
    assert_eq!(answer.translation, "Hello world");
    assert_eq!(answer.romanization, Some("Privet mir".to_string()));
}

#[test]
fn last_romanization_that_is_not_empty_counts() {
    let answer = ok(r#"[[["a",0,0,"one"],["b",0,0,"two"],["c",0,0,""],"x",[1,2,3,4]]]"#);
    assert_eq!(answer.translation, "abc");
    assert_eq!(answer.romanization, Some("two".to_string()));
    assert_eq!(ok(r#"[[["a"]]]"#).romanization, None);
}

#[test]
fn replies_that_cannot_be_used() {
    assert_eq!(
        error(&UpstreamReply::Unreachable("no route".to_string())),
        "Failed to reach translation service: no route"
    );
    assert_eq!(
        error(&reply(429, "429 Too Many Requests", Ok("[]"))),
        "Translation service returned error: 429 Too Many Requests"
    );
    assert_eq!(
        error(&reply(200, "200 OK", Err("reset"))),
        "Failed to read translation response: reset"
    );
    assert!(error(&reply(200, "200 OK", Ok("not json")))
        .starts_with("Failed to parse translation response: expected"));
    for body in ["[]", "{}", "[1]", "[{}]", "\"x\""] {
        assert_eq!(
            error(&reply(200, "200 OK", Ok(body))),
            "Invalid translation response format: missing segments"
        );
    }
    for body in ["[[]]", r#"[[["",1]]]"#, "[[[null]]]"] {
        assert_eq!(
            error(&reply(200, "200 OK", Ok(body))),
            "Empty translation received from Google"
        );
    }
}

#[test]
fn plain_segments() {
    let segment = |t: Option<&str>, r: Option<&str>| Segment {
        translation: t.map(|s| s.to_string()),
        romanization: r.map(|s| s.to_string()),
    };
    let answer =
        join_segments(&vec![segment(Some("x"), Some("r")), segment(None, None)]).unwrap();
    assert_eq!(answer.translation, "x");
    assert_eq!(answer.romanization, Some("r".to_string()));
    let e = join_segments(&vec![segment(None, Some("r"))]).unwrap_err();
    assert_eq!(e.error, "Empty translation received from Google");
}

#[test]
fn json_by_position() {
    let value: Value = serde_json::from_str(r#"["a", ["b"], 3]"#).unwrap();
    assert_eq!(text_at(&value, 0), Some("a".to_string()));
    assert_eq!(text_at(&value, 1), None);
    assert_eq!(text_at(&value, 2), None);
    assert_eq!(text_at(&value, 9), None);
    assert!(read_segments(&value).is_none());
    assert!(answer_from_json(&Ok(value)).is_err());
    let e = answer_from_json(&Err("bad".to_string())).unwrap_err();
    assert_eq!(e.error, "Failed to parse translation response: bad");
}
