use twitch_translator::clock::{current_timestamp_ms, rand_number, reduced_nanos, timestamp_ms};
use twitch_translator::config::{Config, ConfidenceSetting, ConfigError, Settings};
use twitch_translator::number::{parse_number, to_decimal, Confidence};
use twitch_translator::translator::TranslationBackend;

fn settings() -> Settings {
    Settings {
        twitch_channel: Some("abc".to_string()),
        twitch_username: None,
        twitch_oauth_token: None,
        translation_backend: None,
        translation_api_url: None,
        detection_confidence: ConfidenceSetting::Unset,
        default_language: None,
        cache_size_mb: None,
        deepgram_api_key: None,
        deepgram_model: None,
        stt_language: None,
        web_port: None,
        irc_timeout_secs: None,
    }
}

fn text(s: &str) -> Option<String> {
    Some(s.to_string())
}

#[test]
fn defaults() {
    let c = Config::from_settings(&settings(), 123).unwrap();
    assert_eq!(c.channel, "abc");
    assert_eq!(c.username, "justinfan123");
    assert_eq!(c.oauth_token, None);
    assert_eq!(c.translation_backend, TranslationBackend::Google);
    assert_eq!(c.translation_api_url, "http://localhost:4000");
    assert_eq!(f64::from_bits(c.detection_confidence_threshold.bits), 0.5);
    assert_eq!(c.default_language, None);
    assert_eq!(c.cache_size_mb, 50);
    assert_eq!(c.deepgram_api_key, None);
    assert_eq!(c.deepgram_model, "nova-2");
    assert_eq!(c.stt_language, "multi");
    assert_eq!(c.web_port, 3000);
    assert_eq!(c.irc_timeout_secs, 300);
}

#[test]
fn everything_can_be_set() {
    let s = Settings {
        twitch_channel: text("x"),
        twitch_username: text("me"),
        twitch_oauth_token: text("token"),
        translation_backend: text("Libre"),
        translation_api_url: text("http://api"),
        detection_confidence: ConfidenceSetting::Number(Confidence { bits: 0.75f64.to_bits() }),
        default_language: text("ru"),
        cache_size_mb: text("+7"),
        deepgram_api_key: text("key"),
        deepgram_model: text("nova-3"),
        stt_language: text("de"),
        web_port: text("65535"),
        irc_timeout_secs: text("18446744073709551615"),
    };
    let c = Config::load(&s).unwrap();
    assert_eq!(c.channel, "x");
    assert_eq!(c.username, "me");
    assert_eq!(c.oauth_token, text("token"));
    assert_eq!(c.translation_backend, TranslationBackend::LibreTranslate);
    assert_eq!(c.translation_api_url, "http://api");
    assert_eq!(f64::from_bits(c.detection_confidence_threshold.bits), 0.75);
    assert_eq!(c.default_language, text("ru"));
    assert_eq!(c.cache_size_mb, 7);
    assert_eq!(c.deepgram_api_key, text("key"));
    assert_eq!(c.deepgram_model, "nova-3");
    assert_eq!(c.stt_language, "de");
    assert_eq!(c.web_port, 65535);
    assert_eq!(c.irc_timeout_secs, u64::MAX);
}

#[test]
fn some_defaults_follow_other_settings() {
    let mut s = settings();
    s.translation_backend = text("libretranslate");
    s.default_language = text("ru");
    let c = Config::from_settings(&s, 0).unwrap();
    assert_eq!(c.translation_api_url, "http://localhost:4000");
    assert_eq!(c.stt_language, "ru");
    assert_eq!(c.username, "justinfan0");
}

#[test]
fn thresholds_lie_between_zero_and_one() {
    let mut s = settings();
    for n in [0.0, -0.0, f64::MIN_POSITIVE, 0.5, 1.0] {
        s.detection_confidence = ConfidenceSetting::Number(Confidence { bits: n.to_bits() });
        assert!(Confidence { bits: n.to_bits() }.is_in_unit_range());
        let c = Config::load(&s).unwrap();
        assert_eq!(f64::from_bits(c.detection_confidence_threshold.bits), n);
    }
    for n in [-0.1, 1.5, 1.0 + f64::EPSILON, f64::INFINITY, f64::NEG_INFINITY, f64::NAN, -f64::NAN]
    {
        s.detection_confidence = ConfidenceSetting::Number(Confidence { bits: n.to_bits() });
        assert!(!Confidence { bits: n.to_bits() }.is_in_unit_range());
        assert_eq!(Config::load(&s).unwrap_err(), ConfigError::DetectionConfidence);
    }
}

#[test]
fn sizes_and_timeouts_may_be_zero() {
    let mut s = settings();
    s.cache_size_mb = text("0");
    s.irc_timeout_secs = text("0");
    s.web_port = text("0");
    let c = Config::load(&s).unwrap();
    assert_eq!((c.cache_size_mb, c.irc_timeout_secs, c.web_port), (0, 0, 0));
}

#[test]
fn errors_in_their_order() {
    let mut s = settings();
    s.twitch_channel = None;
    s.detection_confidence = ConfidenceSetting::Malformed;
    s.cache_size_mb = text("-1");
    s.web_port = text("65536");
    s.irc_timeout_secs = text("");
    let error = |s: &Settings| Config::load(s).unwrap_err();
    assert_eq!(error(&s), ConfigError::MissingChannel);
    assert_eq!(error(&s).message(), "TWITCH_CHANNEL environment variable is required");
    s.twitch_channel = text("abc");
    assert_eq!(error(&s), ConfigError::DetectionConfidence);
    assert_eq!(
        error(&s).message(),
        "DETECTION_CONFIDENCE must be a valid number between 0.0 and 1.0"
    );
    s.detection_confidence = ConfidenceSetting::Unset;
    assert_eq!(error(&s), ConfigError::CacheSize);
    assert_eq!(error(&s).message(), "CACHE_SIZE_MB must be a valid positive number");
    s.cache_size_mb = None;
    assert_eq!(error(&s), ConfigError::WebPort);
    assert_eq!(error(&s).message(), "WEB_PORT must be a valid port number");
    s.web_port = None;
    assert_eq!(error(&s), ConfigError::IrcTimeout);
    assert_eq!(error(&s).message(), "IRC_TIMEOUT_SECS must be a valid positive number");
    s.irc_timeout_secs = None;
    assert!(Config::load(&s).is_ok());
}

#[test]
fn anonymous_names_end_in_a_small_number() {
    let c = Config::load(&settings()).unwrap();
    let digits = c.username.strip_prefix("justinfan").unwrap();
    assert!(digits.parse::<u32>().unwrap() < 99999);
    assert!(rand_number() < 99999);
}

#[test]
fn numbers_in_text() {
    let parse = |s: &str, max| parse_number(&s.chars().collect::<Vec<char>>(), max);
    for s in ["0", "007", "+42", "18446744073709551615", "18446744073709551616", "", "+", "++1",
        "-1", "1 ", "٣"]
    {
        assert_eq!(parse(s, u64::MAX), s.parse::<u64>().ok());
        assert_eq!(parse(s, 65535), s.parse::<u16>().ok().map(|n| n as u64));
    }
    for n in [0, 9, 10, 4000, u64::MAX] {
        assert_eq!(to_decimal(n), n.to_string());
    }
}

#[test]
fn scores_are_ordered_as_numbers() {
    let scores = [
        f64::NEG_INFINITY, -1.5, -1.0, -f64::MIN_POSITIVE, -0.0, 0.0, f64::MIN_POSITIVE, 0.25, 0.5,
        1.0, f64::INFINITY, f64::NAN, -f64::NAN,
    ];
    for a in scores {
        for b in scores {
            let x = Confidence { bits: a.to_bits() };
            let y = Confidence { bits: b.to_bits() };
            assert_eq!(x.at_least(y), a >= b);
        }
    }
}

#[test]
fn clock_readings() {
    assert_eq!(timestamp_ms(None), 0);
    assert_eq!(timestamp_ms(Some((1, 999_999_999))), 1999);
    assert_eq!(timestamp_ms(Some((u64::MAX, 0))), u64::MAX.wrapping_mul(1000));
    assert_eq!(reduced_nanos(None), 0);
    assert_eq!(reduced_nanos(Some((0, 100_000))), 1);
    assert_eq!(reduced_nanos(Some((1, 5))), (1_000_000_005u64 % 99999) as u32);
    // Some time after the beginning of 2024.
    assert!(current_timestamp_ms() > 1_704_067_200_000);
}
