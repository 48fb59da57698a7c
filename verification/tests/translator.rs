use std::str::FromStr;
use twitch_translator::cache::{CachedTranslation, Param, TranslationCache};
use twitch_translator::config::{Config, ConfidenceSetting, Settings};
use twitch_translator::language::certain_detection_from;
use twitch_translator::number::Confidence;
use twitch_translator::translator::{
    extract_ascii_affixes, is_emoji, is_success, needs_translation, reconstruct_with_affixes,
    ApiRequest, ServiceReply, TranslateInput, TranslateStep, TranslationBackend,
    TranslationResult, Translator,
};

#[test]
fn test_extract_ascii_affixes_leading_number() {
    let (prefix, core, suffix) = extract_ascii_affixes("5 снайперов");
    assert_eq!(prefix, "5 ");
    assert_eq!(core, "снайперов");
    assert_eq!(suffix, "");
}

#[test]
fn test_extract_ascii_affixes_trailing_punctuation() {
    let (prefix, core, suffix) = extract_ascii_affixes("снайперов!!!");
    assert_eq!(prefix, "");
    assert_eq!(core, "снайперов");
    assert_eq!(suffix, "!!!");
}

#[test]
fn test_extract_ascii_affixes_both_sides() {
    let (prefix, core, suffix) = extract_ascii_affixes("10 привет 20");
    assert_eq!(prefix, "10 ");
    assert_eq!(core, "привет");
    assert_eq!(suffix, " 20");
}

#[test]
fn test_extract_ascii_affixes_no_affixes() {
    let (prefix, core, suffix) = extract_ascii_affixes("привет");
    assert_eq!(prefix, "");
    assert_eq!(core, "привет");
    assert_eq!(suffix, "");
}

#[test]
fn test_extract_ascii_affixes_all_ascii() {
    let (prefix, core, suffix) = extract_ascii_affixes("hello world");
    assert_eq!(prefix, "");
    assert_eq!(core, "hello world");
    assert_eq!(suffix, "");
}

#[test]
fn test_extract_ascii_affixes_empty() {
    let (prefix, core, suffix) = extract_ascii_affixes("");
    assert_eq!(prefix, "");
    assert_eq!(core, "");
    assert_eq!(suffix, "");
}

#[test]
fn test_extract_ascii_affixes_complex() {
    let (prefix, core, suffix) = extract_ascii_affixes("123 тест test");
    assert_eq!(prefix, "123 ");
    assert_eq!(core, "тест");
    assert_eq!(suffix, " test");
}

#[test]
fn test_needs_translation_ascii_only() {
    assert!(!needs_translation("hello world"));
    assert!(!needs_translation("123"));
    assert!(!needs_translation("!@#$%"));
    assert!(!needs_translation("   "));
    assert!(!needs_translation(""));
}

#[test]
fn test_needs_translation_cyrillic() {
    assert!(needs_translation("привет"));
    assert!(needs_translation("5 снайперов"));
    assert!(needs_translation("hello мир"));
}

#[test]
fn test_needs_translation_with_emoji() {
    // Emoji alone should not trigger translation
    assert!(!needs_translation("😀"));
    assert!(!needs_translation("hello 😀"));
    // But non-ASCII text with emoji should
    assert!(needs_translation("привет 😀"));
}

#[test]
fn white_space_at_the_ends_needs_no_translation() {
    // U+3000 is white space beyond ASCII, U+200B is none.
    assert!(!needs_translation("\u{3000}hello\u{a0}"));
    assert!(needs_translation("a\u{3000}b"));
    assert!(needs_translation("\u{200b}"));
}

#[test]
fn emoji_ranges() {
    assert!(is_emoji('😀'));
    assert!(is_emoji('☀'));
    assert!(is_emoji('✂'));
    assert!(is_emoji('\u{fe0f}'));
    assert!(is_emoji('🀄'));
    assert!(is_emoji('\u{1faff}'));
    assert!(!is_emoji('\u{1fb00}'));
    assert!(!is_emoji('a'));
    assert!(!is_emoji('я'));
}

#[test]
fn affixes_rejoin() {
    for text in ["5 снайперов", "снайперов!!!", "hello", "", "а b в 😀"] {
        let (prefix, core, suffix) = extract_ascii_affixes(text);
        assert_eq!(reconstruct_with_affixes(prefix, core, suffix), text);
    }
    assert_eq!(reconstruct_with_affixes("1", "2", "3"), "123");
}

#[test]
fn inner_ascii_belongs_to_the_core() {
    assert_eq!(extract_ascii_affixes("😀 да ok нет ☀"), ("😀 ", "да ok нет", " ☀"));
}

#[test]
fn backends_by_name() {
    assert_eq!(TranslationBackend::from_str("libretranslate"), Ok(TranslationBackend::LibreTranslate));
    assert_eq!(TranslationBackend::from_str("LIBRE"), Ok(TranslationBackend::LibreTranslate));
    assert_eq!(TranslationBackend::from_str("google"), Ok(TranslationBackend::Google));
    assert_eq!(TranslationBackend::from_str(""), Ok(TranslationBackend::Google));
    assert_eq!(TranslationBackend::default(), TranslationBackend::Google);
}

fn translator(backend: TranslationBackend) -> Translator {
    Translator::new("http://localhost:4000//", backend, 50)
}

#[test]
fn translator_counts_megabytes() {
    let t = translator(TranslationBackend::Google);
    assert_eq!(t.cache_size_bytes, 52428800);
    assert_eq!(t.api_url, "http://localhost:4000//");
    assert_eq!(t.backend, TranslationBackend::Google);
}

#[test]
fn google_request_has_the_core_in_its_path() {
    let t = translator(TranslationBackend::Google);
    let pending = t.translate("5 Да, нет!", "ru").unwrap();
    assert_eq!(pending.prefix, "5 ");
    assert_eq!(pending.core, "Да, нет");
    assert_eq!(pending.suffix, "!");
    assert_eq!(pending.key, "да, нет");
    match t.request(&pending) {
        ApiRequest::Google { url } => assert_eq!(
            url,
            "http://localhost:4000/translate/ru/en/%D0%94%D0%B0%2C%20%D0%BD%D0%B5%D1%82"
        ),
        other => panic!("{:?}", other),
    }
}

#[test]
fn libretranslate_request_has_the_core_in_its_body() {
    let t = translator(TranslationBackend::LibreTranslate);
    let pending = t.translate("10 привет", "ru").unwrap();
    match t.request(&pending) {
        ApiRequest::LibreTranslate { url, q, source, target } => {
            assert_eq!(url, "http://localhost:4000//");
            assert_eq!(q, "привет");
            assert_eq!(source, "ru");
            assert_eq!(target, "en");
        }
        other => panic!("{:?}", other),
    }
}

#[test]
fn plain_text_is_not_translated() {
    let t = translator(TranslationBackend::Google);
    assert!(t.translate("hello 😀 123", "ru").is_none());
}

#[test]
fn cached_core_serves_other_affixes_and_cases() {
    let t = translator(TranslationBackend::Google);
    let cache = TranslationCache::with_max_size(t.cache_size_bytes);
    let first = t.translate("5 Снайперов", "ru").unwrap();
    let reply = TranslationResult {
        translation: "snipers".to_string(),
        romanization: Some("snayperov".to_string()),
    };
    let fresh = first.answer_from_service(&reply);
    assert_eq!(fresh.translation, "5 snipers");
    assert_eq!(fresh.romanization, Some("5 snayperov".to_string()));
    let stored = first.storage(&cache, &reply);
    let second = t.translate("10 снайперов!", "ru").unwrap();
    let sought = second.lookup(&cache);
    match (&stored.params[0], &sought.params[0]) {
        (Param::Text(a), Param::Text(b)) => assert_eq!(a, b),
        other => panic!("{:?}", other),
    }
    let cached = CachedTranslation { translation: "snipers".to_string(), romanization: None };
    let answer = second.answer_from_cache(&cached);
    assert_eq!(answer.translation, "10 snipers!");
    assert_eq!(answer.romanization, None);
}

#[test]
fn success_statuses() {
    assert!(is_success(200));
    assert!(is_success(299));
    assert!(!is_success(199));
    assert!(!is_success(300));
}

fn content() -> Option<TranslationResult> {
    Some(TranslationResult {
        translation: "hello".to_string(),
        romanization: Some("privet".to_string()),
    })
}

#[test]
fn replies_of_the_proxy() {
    let t = translator(TranslationBackend::Google);
    let ok = t
        .read_reply(ServiceReply::Answer {
            status: 200,
            status_text: "200 OK".to_string(),
            content: content(),
        })
        .unwrap();
    assert_eq!(ok.translation, "hello");
    assert_eq!(ok.romanization, Some("privet".to_string()));
    assert_eq!(
        t.read_reply(ServiceReply::Unsent).unwrap_err(),
        "Failed to send request to translation API"
    );
    assert_eq!(
        t.read_reply(ServiceReply::Answer {
            status: 502,
            status_text: "502 Bad Gateway".to_string(),
            content: content(),
        })
        .unwrap_err(),
        "Translation API returned status: 502 Bad Gateway"
    );
    assert_eq!(
        t.read_reply(ServiceReply::Answer {
            status: 200,
            status_text: "200 OK".to_string(),
            content: None,
        })
        .unwrap_err(),
        "Failed to parse translation API response"
    );
}

#[test]
fn replies_of_libretranslate() {
    let t = translator(TranslationBackend::LibreTranslate);
    let ok = t
        .read_reply(ServiceReply::Answer {
            status: 200,
            status_text: "200 OK".to_string(),
            content: content(),
        })
        .unwrap();
    assert_eq!(ok.romanization, None);
    assert_eq!(
        t.read_reply(ServiceReply::Unsent).unwrap_err(),
        "Failed to send request to LibreTranslate API"
    );
    assert_eq!(
        t.read_reply(ServiceReply::Answer {
            status: 404,
            status_text: "404 Not Found".to_string(),
            content: None,
        })
        .unwrap_err(),
        "LibreTranslate API returned status: 404 Not Found"
    );
    assert_eq!(
        t.read_reply(ServiceReply::Answer {
            status: 200,
            status_text: "200 OK".to_string(),
            content: None,
        })
        .unwrap_err(),
        "Failed to parse LibreTranslate API response"
    );
}

#[test]
fn russian_is_detected() {
    let certain = translator(TranslationBackend::Google);
    // The detector is not certain enough of this text.
    assert!(certain.detect_language("привет всем, как у вас сегодня дела").is_none());
    let t = certain.with_min_confidence(Confidence { bits: 0 });
    let d = t.detect_language("привет всем, как у вас сегодня дела").unwrap();
    assert!(!d.confidence.at_least(Confidence { bits: 0.5f64.to_bits() }));
    assert_eq!(d.language, "ru");
    assert_eq!(d.language_name, "Russian");
    assert!(!d.is_english);
    let e = t
        .detect_language("The quick brown fox jumps over the lazy dog and runs away")
        .unwrap();
    assert_eq!(e.language, "en");
    assert!(e.is_english);
    assert!(t.detect_language("hi").is_none());
}

#[test]
fn uncertain_detections_are_none() {
    let score = |n: f64| Confidence { bits: n.to_bits() };
    let found = |n: f64, least: f64| certain_detection_from("rus", n.to_bits(), score(least));
    assert_eq!(found(0.5, 0.5).unwrap().language, "ru");
    assert_eq!(found(0.75, 0.5).unwrap().confidence, score(0.75));
    assert_eq!(found(0.0, 0.0).unwrap().language_name, "Russian");
    assert!(found(0.49, 0.5).is_none());
    assert!(found(0.0, 0.5).is_none());
    assert!(found(f64::NAN, 0.0).is_none());

    let t = translator(TranslationBackend::Google);
    assert_eq!(t.min_confidence, score(0.5));
    let open = t.clone().with_min_confidence(score(0.0));
    assert_eq!(open.api_url, t.api_url);
    assert_eq!(open.cache_size_bytes, t.cache_size_bytes);
    for text in ["привет всем, как дела", "bonjour", "guten Tag zusammen", "да нет", "hola amigo"] {
        let any = open.detect_language(text).unwrap();
        assert_eq!(t.detect_language(text).is_some(), any.confidence.at_least(score(0.5)));
        // A minimum above every score leaves nothing.
        let closed = t.clone().with_min_confidence(score(2.0));
        assert!(closed.detect_language(text).is_none());
    }
}

#[test]
fn translator_of_a_configuration() {
    let settings = Settings {
        twitch_channel: Some("abc".to_string()),
        twitch_username: None,
        twitch_oauth_token: None,
        translation_backend: Some("libre".to_string()),
        translation_api_url: Some("http://api".to_string()),
        detection_confidence: ConfidenceSetting::Number(Confidence { bits: 0.25f64.to_bits() }),
        default_language: None,
        cache_size_mb: Some("2".to_string()),
        deepgram_api_key: None,
        deepgram_model: None,
        stt_language: None,
        web_port: None,
        irc_timeout_secs: None,
    };
    let t = Translator::for_config(&Config::load(&settings).unwrap());
    assert_eq!(t.api_url, "http://api");
    assert_eq!(t.backend, TranslationBackend::LibreTranslate);
    assert_eq!(t.cache_size_bytes, 2 * 1024 * 1024);
    assert_eq!(f64::from_bits(t.min_confidence.bits), 0.25);
}

#[test]
fn steps_of_a_translation() {
    let t = translator(TranslationBackend::Google);
    let cache = TranslationCache::with_max_size(t.cache_size_bytes);
    let pending = t.translate("5 ПРИВЕТ!", "ru").unwrap();
    match pending.advance(&t, &cache, TranslateInput::Cached(None)) {
        TranslateStep::Ask(ApiRequest::Google { url }) => {
            assert!(url.starts_with("http://localhost:4000/translate/ru/en/%D0%9F"))
        }
        other => panic!("{:?}", other),
    }
    let reply = ServiceReply::Answer {
        status: 200,
        status_text: "200 OK".to_string(),
        content: content(),
    };
    let fresh = match pending.advance(&t, &cache, TranslateInput::Reply(reply)) {
        TranslateStep::Finish { result, store: Some(store) } => {
            match &store.params[0] {
                Param::Text(key) => assert_eq!(key, "привет"),
                other => panic!("{:?}", other),
            }
            result
        }
        other => panic!("{:?}", other),
    };
    assert_eq!(fresh.translation, "5 hello!");
    let row = CachedTranslation {
        translation: "hello".to_string(),
        romanization: Some("privet".to_string()),
    };
    match pending.advance(&t, &cache, TranslateInput::Cached(Some(row))) {
        TranslateStep::Finish { result, store: None } => {
            assert_eq!(result.translation, fresh.translation);
            assert_eq!(result.romanization, fresh.romanization);
        }
        other => panic!("{:?}", other),
    }
    match pending.advance(&t, &cache, TranslateInput::Reply(ServiceReply::Unsent)) {
        TranslateStep::Fail(s) => assert_eq!(s, "Failed to send request to translation API"),
        other => panic!("{:?}", other),
    }
}

#[test]
fn more_text_needs_translation_too() {
    for (before, after) in [("", ""), (" hello ", ""), ("", "  \n"), ("\u{3000}", " 123 ")] {
        assert!(needs_translation(&format!("{}привет{}", before, after)));
        assert!(!needs_translation(&format!("{}bye{}", before, after)));
    }
}

#[test]
fn detections_lie_between_zero_and_one() {
    let translator = Translator::new("http://localhost:4000", TranslationBackend::Google, 50);
    for text in ["привет всем, как дела", "こんにちは世界", "guten Morgen, wie geht es dir", "я", ""] {
        if let Some(found) = translator.detect_language(text) {
            assert!(found.confidence.is_in_unit_range());
        }
    }
}
