//! Application configuration, read from settings such as environment variables.

use crate::clock::rand_number;
use crate::number::{decimal, number_up_to, parse_number, to_decimal, Confidence, HALF_BITS};
use crate::text::{chars_of, copy_text, join2};
use crate::translator::{backend_named, TranslationBackend};
use core::str::FromStr;
use vstd::prelude::*;

verus! {

/// Where the translation API is found by default.
pub const DEFAULT_API_URL: &'static str = "http://localhost:4000";

/// The setting `DETECTION_CONFIDENCE`.
#[derive(Debug, Clone, Copy, PartialEq, Eq, Structural)]
pub enum ConfidenceSetting {
    /// It is not set.
    Unset,
    /// It is set to a number.
    Number(Confidence),
    /// It is set to a text that is no number.
    Malformed,
}

/// The settings as they are found, before anything is made of them. A variable
/// that is not set is `None`.
#[derive(Debug, Clone)]
pub struct Settings {
    /// `TWITCH_CHANNEL`: the channel to join (required).
    pub twitch_channel: Option<String>,
    /// `TWITCH_USERNAME`: username (defaults to anonymous).
    pub twitch_username: Option<String>,
    /// `TWITCH_OAUTH_TOKEN`: OAuth token (omit for anonymous access).
    pub twitch_oauth_token: Option<String>,
    /// `TRANSLATION_BACKEND`: "google" (default) or "libretranslate".
    pub translation_backend: Option<String>,
    /// `TRANSLATION_API_URL`: translation API server URL.
    pub translation_api_url: Option<String>,
    /// `DETECTION_CONFIDENCE`: minimum confidence for language detection.
    pub detection_confidence: ConfidenceSetting,
    /// `DEFAULT_LANGUAGE`: source language code of all messages.
    pub default_language: Option<String>,
    /// `CACHE_SIZE_MB`: maximum cache size in megabytes.
    pub cache_size_mb: Option<String>,
    /// `DEEPGRAM_API_KEY`: Deepgram API key to enable audio transcription.
    pub deepgram_api_key: Option<String>,
    /// `DEEPGRAM_MODEL`: Deepgram model for transcription.
    pub deepgram_model: Option<String>,
    /// `STT_LANGUAGE`: language hint for speech-to-text.
    pub stt_language: Option<String>,
    /// `WEB_PORT`: port of the web UI.
    pub web_port: Option<String>,
    /// `IRC_TIMEOUT_SECS`: seconds without a message before a keepalive.
    pub irc_timeout_secs: Option<String>,
}

/// Application configuration.
#[derive(Debug, Clone)]
pub struct Config {
    /// The Twitch channel to connect to (without the # prefix).
    pub channel: String,
    /// OAuth token for Twitch IRC authentication, none for anonymous access.
    pub oauth_token: Option<String>,
    /// Twitch username for IRC authentication.
    pub username: String,
    /// URL of the translation API endpoint.
    pub translation_api_url: String,
    /// Which translation backend to use.
    pub translation_backend: TranslationBackend,
    /// Minimum confidence threshold for language detection (0.0 to 1.0).
    /// Messages with detection confidence below this will not be translated.
    pub detection_confidence_threshold: Confidence,
    /// Default source language code (e.g., "ru", "es", "fr"). When set, it is
    /// the source language of all messages, bypassing language detection
    /// entirely.
    pub default_language: Option<String>,
    /// Maximum size of the translation cache in megabytes.
    pub cache_size_mb: u64,
    /// Deepgram API key for speech-to-text transcription. If not set,
    /// transcription is disabled.
    pub deepgram_api_key: Option<String>,
    /// Deepgram model to use for transcription.
    pub deepgram_model: String,
    /// Language hint for Deepgram speech-to-text.
    pub stt_language: String,
    /// Port for the web UI HTTP/WebSocket server.
    pub web_port: u16,
    /// Timeout in seconds for the IRC WebSocket read loop. If no message is
    /// received within this duration, a keepalive PING is sent.
    pub irc_timeout_secs: u64,
}

/// What is wrong with the settings.
#[derive(Debug, Clone, Copy, PartialEq, Eq, Structural)]
pub enum ConfigError {
    /// `TWITCH_CHANNEL` is not set.
    MissingChannel,
    /// `DETECTION_CONFIDENCE` is no number from 0.0 to 1.0.
    DetectionConfidence,
    /// `CACHE_SIZE_MB` is no positive number.
    CacheSize,
    /// `WEB_PORT` is no port number.
    WebPort,
    /// `IRC_TIMEOUT_SECS` is no positive number.
    IrcTimeout,
}

/// What [`Settings`] hold.
pub struct SettingsModel {
    pub twitch_channel: Option<Seq<char>>,
    pub twitch_username: Option<Seq<char>>,
    pub twitch_oauth_token: Option<Seq<char>>,
    pub translation_backend: Option<Seq<char>>,
    pub translation_api_url: Option<Seq<char>>,
    pub detection_confidence: ConfidenceSetting,
    pub default_language: Option<Seq<char>>,
    pub cache_size_mb: Option<Seq<char>>,
    pub deepgram_api_key: Option<Seq<char>>,
    pub deepgram_model: Option<Seq<char>>,
    pub stt_language: Option<Seq<char>>,
    pub web_port: Option<Seq<char>>,
    pub irc_timeout_secs: Option<Seq<char>>,
}

/// What a [`Config`] holds.
pub struct ConfigModel {
    pub channel: Seq<char>,
    pub oauth_token: Option<Seq<char>>,
    pub username: Seq<char>,
    pub translation_api_url: Seq<char>,
    pub translation_backend: TranslationBackend,
    pub detection_confidence_threshold: Confidence,
    pub default_language: Option<Seq<char>>,
    pub cache_size_mb: u64,
    pub deepgram_api_key: Option<Seq<char>>,
    pub deepgram_model: Seq<char>,
    pub stt_language: Seq<char>,
    pub web_port: u16,
    pub irc_timeout_secs: u64,
}

impl DeepView for Settings {
    type V = SettingsModel;

    open spec fn deep_view(&self) -> SettingsModel {
        SettingsModel {
            twitch_channel: self.twitch_channel.deep_view(),
            twitch_username: self.twitch_username.deep_view(),
            twitch_oauth_token: self.twitch_oauth_token.deep_view(),
            translation_backend: self.translation_backend.deep_view(),
            translation_api_url: self.translation_api_url.deep_view(),
            detection_confidence: self.detection_confidence,
            default_language: self.default_language.deep_view(),
            cache_size_mb: self.cache_size_mb.deep_view(),
            deepgram_api_key: self.deepgram_api_key.deep_view(),
            deepgram_model: self.deepgram_model.deep_view(),
            stt_language: self.stt_language.deep_view(),
            web_port: self.web_port.deep_view(),
            irc_timeout_secs: self.irc_timeout_secs.deep_view(),
        }
    }
}

impl DeepView for Config {
    type V = ConfigModel;

    open spec fn deep_view(&self) -> ConfigModel {
        ConfigModel {
            channel: self.channel@,
            oauth_token: self.oauth_token.deep_view(),
            username: self.username@,
            translation_api_url: self.translation_api_url@,
            translation_backend: self.translation_backend,
            detection_confidence_threshold: self.detection_confidence_threshold,
            default_language: self.default_language.deep_view(),
            cache_size_mb: self.cache_size_mb,
            deepgram_api_key: self.deepgram_api_key.deep_view(),
            deepgram_model: self.deepgram_model@,
            stt_language: self.stt_language@,
            web_port: self.web_port,
            irc_timeout_secs: self.irc_timeout_secs,
        }
    }
}

/// A value where it is set, else its default.
pub open spec fn value_or(value: Option<Seq<char>>, default: Seq<char>) -> Seq<char> {
    match value {
        Some(s) => s,
        None => default,
    }
}

/// A number where it is set, else its default; none where it is set to
/// something else than a number up to `max`.
pub open spec fn number_or(value: Option<Seq<char>>, default: u64, max: u64) -> Option<u64> {
    match value {
        Some(s) => number_up_to(s, max),
        None => Some(default),
    }
}

/// The threshold: one half where it is not set; none where it is set to
/// something else than a number from 0.0 to 1.0.
pub open spec fn threshold_of(setting: ConfidenceSetting) -> Option<Confidence> {
    match setting {
        ConfidenceSetting::Unset => Some(Confidence { bits: HALF_BITS }),
        ConfidenceSetting::Number(c) => if c.in_unit_range() {
            Some(c)
        } else {
            None
        },
        ConfidenceSetting::Malformed => None,
    }
}

/// The backend that is set, Google where none is.
pub open spec fn backend_of(value: Option<Seq<char>>) -> TranslationBackend {
    match value {
        Some(s) => backend_named(s),
        None => TranslationBackend::Google,
    }
}

/// The configuration that settings give, with `number` for an anonymous
/// username, or what is wrong with them. Where several settings are wrong, the
/// first in this order counts: channel, confidence, cache size, web port,
/// timeout.
pub open spec fn config_of(s: SettingsModel, number: nat) -> Result<ConfigModel, ConfigError> {
    if s.twitch_channel is None {
        Err(ConfigError::MissingChannel)
    } else if threshold_of(s.detection_confidence) is None {
        Err(ConfigError::DetectionConfidence)
    } else if number_or(s.cache_size_mb, 50, u64::MAX) is None {
        Err(ConfigError::CacheSize)
    } else if number_or(s.web_port, 3000, 65535) is None {
        Err(ConfigError::WebPort)
    } else if number_or(s.irc_timeout_secs, 300, u64::MAX) is None {
        Err(ConfigError::IrcTimeout)
    } else {
        Ok(
            ConfigModel {
                channel: s.twitch_channel->0,
                oauth_token: s.twitch_oauth_token,
                username: value_or(s.twitch_username, "justinfan"@ + decimal(number)),
                translation_api_url: value_or(s.translation_api_url, DEFAULT_API_URL@),
                translation_backend: backend_of(s.translation_backend),
                detection_confidence_threshold: threshold_of(s.detection_confidence)->0,
                default_language: s.default_language,
                cache_size_mb: number_or(s.cache_size_mb, 50, u64::MAX)->0,
                deepgram_api_key: s.deepgram_api_key,
                deepgram_model: value_or(s.deepgram_model, "nova-2"@),
                stt_language: value_or(s.stt_language, value_or(s.default_language, "multi"@)),
                web_port: number_or(s.web_port, 3000, 65535)->0 as u16,
                irc_timeout_secs: number_or(s.irc_timeout_secs, 300, u64::MAX)->0,
            },
        )
    }
}

/// What a load gives: the configuration or what is wrong.
pub open spec fn loaded(r: Result<Config, ConfigError>) -> Result<ConfigModel, ConfigError> {
    match r {
        Ok(config) => Ok(config.deep_view()),
        Err(e) => Err(e),
    }
}

fn text_or(value: &Option<String>, default: &str) -> (r: String)
    ensures
        r@ == value_or(value.deep_view(), default@),
{
    match value {
        Some(s) => s.clone(),
        None => default.to_string(),
    }
}

fn parse_or(value: &Option<String>, default: u64, max: u64) -> (r: Option<u64>)
    ensures
        r == number_or(value.deep_view(), default, max),
{
    match value {
        Some(s) => parse_number(chars_of(s.as_str()).as_slice(), max),
        None => Some(default),
    }
}

impl ConfigError {
    /// The error as a message.
    pub fn message(&self) -> (r: &'static str)
        ensures
            r@ == match *self {
                ConfigError::MissingChannel =>
                    "TWITCH_CHANNEL environment variable is required"@,
                ConfigError::DetectionConfidence =>
                    "DETECTION_CONFIDENCE must be a valid number between 0.0 and 1.0"@,
                ConfigError::CacheSize => "CACHE_SIZE_MB must be a valid positive number"@,
                ConfigError::WebPort => "WEB_PORT must be a valid port number"@,
                ConfigError::IrcTimeout => "IRC_TIMEOUT_SECS must be a valid positive number"@,
            },
    {
        match self {
            ConfigError::MissingChannel => "TWITCH_CHANNEL environment variable is required",
            ConfigError::DetectionConfidence =>
                "DETECTION_CONFIDENCE must be a valid number between 0.0 and 1.0",
            ConfigError::CacheSize => "CACHE_SIZE_MB must be a valid positive number",
            ConfigError::WebPort => "WEB_PORT must be a valid port number",
            ConfigError::IrcTimeout => "IRC_TIMEOUT_SECS must be a valid positive number",
        }
    }
}

impl Config {
    /// The configuration that settings give, with `number` for an anonymous
    /// username.
    pub fn from_settings(settings: &Settings, number: u32) -> (r: Result<Config, ConfigError>)
        ensures
            loaded(r) == config_of(settings.deep_view(), number as nat),
    {
        let channel = match &settings.twitch_channel {
            Some(s) => s.clone(),
            None => {
                return Err(ConfigError::MissingChannel);
            },
        };
        let anonymous = join2("justinfan", to_decimal(number as u64).as_str());
        let username = text_or(&settings.twitch_username, anonymous.as_str());
        let backend = match &settings.translation_backend {
            Some(s) => match TranslationBackend::from_str(s.as_str()) {
                Ok(backend) => backend,
                Err(_) => TranslationBackend::default(),
            },
            None => TranslationBackend::default(),
        };
        let threshold = match settings.detection_confidence {
            ConfidenceSetting::Unset => Confidence { bits: HALF_BITS },
            ConfidenceSetting::Number(c) => {
                if !c.is_in_unit_range() {
                    return Err(ConfigError::DetectionConfidence);
                }
                c
            },
            ConfidenceSetting::Malformed => {
                return Err(ConfigError::DetectionConfidence);
            },
        };
        let cache_size_mb: u64 = match parse_or(&settings.cache_size_mb, 50, u64::MAX) {
            Some(n) => n,
            None => {
                return Err(ConfigError::CacheSize);
            },
        };
        let web_port: u16 = match parse_or(&settings.web_port, 3000, 65535) {
            Some(n) => n as u16,
            None => {
                return Err(ConfigError::WebPort);
            },
        };
        let irc_timeout_secs: u64 = match parse_or(&settings.irc_timeout_secs, 300, u64::MAX) {
            Some(n) => n,
            None => {
                return Err(ConfigError::IrcTimeout);
            },
        };
        let language = text_or(&settings.default_language, "multi");
        Ok(
            Config {
                channel,
                oauth_token: copy_text(&settings.twitch_oauth_token),
                username,
                translation_api_url: text_or(&settings.translation_api_url, DEFAULT_API_URL),
                translation_backend: backend,
                detection_confidence_threshold: threshold,
                default_language: copy_text(&settings.default_language),
                cache_size_mb,
                deepgram_api_key: copy_text(&settings.deepgram_api_key),
                deepgram_model: text_or(&settings.deepgram_model, "nova-2"),
                stt_language: text_or(&settings.stt_language, language.as_str()),
                web_port,
                irc_timeout_secs,
            },
        )
    }

    /// Loads the configuration from settings. An anonymous username ends in a
    /// number that the clock gives.
    pub fn load(settings: &Settings) -> (r: Result<Config, ConfigError>)
        ensures
            exists|number: nat|
                number < 99999 && loaded(r) == #[trigger] config_of(settings.deep_view(), number),
    {
        let number: u32 = rand_number();
        Config::from_settings(settings, number)
    }
}

/// Settings that name a channel and nothing else that could be malformed give a
/// configuration: every other value has a default.
pub proof fn law_only_the_channel_is_required(s: SettingsModel, number: nat)
    requires
        s.twitch_channel is Some,
        s.detection_confidence is Unset,
        s.cache_size_mb is None,
        s.web_port is None,
        s.irc_timeout_secs is None,
    ensures
        config_of(s, number) is Ok,
        config_of(s, number)->Ok_0.channel == s.twitch_channel->0,
{
}

/// The threshold of a configuration is a number from 0.0 to 1.0.
pub proof fn law_threshold_is_in_range(s: SettingsModel, number: nat)
    requires
        config_of(s, number) is Ok,
    ensures
        config_of(s, number)->Ok_0.detection_confidence_threshold.in_unit_range(),
{
}

/// The speech-to-text language follows the default language unless it is set.
pub proof fn law_speech_follows_default_language(s: SettingsModel, number: nat)
    requires
        config_of(s, number) is Ok,
        s.stt_language is None,
        s.default_language is Some,
    ensures
        config_of(s, number)->Ok_0.stt_language == s.default_language->0,
{
}

/// Every setting that is made is taken over as it is, and every setting that is
/// not made has its documented default.
pub proof fn law_settings_are_taken_over(s: SettingsModel, number: nat)
    requires
        config_of(s, number) is Ok,
    ensures
        ({
            let c = config_of(s, number)->Ok_0;
            &&& s.twitch_channel == Some(c.channel)
            &&& c.oauth_token == s.twitch_oauth_token
            &&& c.default_language == s.default_language
            &&& c.deepgram_api_key == s.deepgram_api_key
            &&& s.twitch_username matches Some(name) ==> c.username == name
            &&& s.twitch_username is None ==> c.username == "justinfan"@ + decimal(number)
            &&& s.translation_api_url matches Some(url) ==> c.translation_api_url == url
            &&& s.translation_api_url is None ==> c.translation_api_url == "http://localhost:4000"@
            &&& s.translation_backend matches Some(name) ==> c.translation_backend == backend_named(
                name,
            )
            &&& s.translation_backend is None ==> c.translation_backend
                == TranslationBackend::Google
            &&& s.detection_confidence matches ConfidenceSetting::Number(n)
                ==> c.detection_confidence_threshold == n
            &&& s.detection_confidence is Unset ==> c.detection_confidence_threshold.bits
                == 0x3fe0_0000_0000_0000
            &&& s.deepgram_model matches Some(model) ==> c.deepgram_model == model
            &&& s.deepgram_model is None ==> c.deepgram_model == "nova-2"@
            &&& s.stt_language matches Some(lang) ==> c.stt_language == lang
            &&& s.stt_language is None && s.default_language is None ==> c.stt_language == "multi"@
            &&& s.cache_size_mb matches Some(n) ==> number_up_to(n, u64::MAX) == Some(
                c.cache_size_mb,
            )
            &&& s.cache_size_mb is None ==> c.cache_size_mb == 50
            &&& s.web_port matches Some(n) ==> number_up_to(n, 65535) == Some(c.web_port as u64)
            &&& s.web_port is None ==> c.web_port == 3000
            &&& s.irc_timeout_secs matches Some(n) ==> number_up_to(n, u64::MAX) == Some(
                c.irc_timeout_secs,
            )
            &&& s.irc_timeout_secs is None ==> c.irc_timeout_secs == 300
        }),
{
}

/// A setting that cannot be read.
pub open spec fn unreadable(setting: Option<Seq<char>>, max: u64) -> bool {
    setting is Some && number_up_to(setting->0, max) is None
}

/// Settings are refused exactly where the channel is missing or one of the
/// numbers cannot be read, and the first thing that is wrong is named.
pub proof fn law_wrong_settings_are_named(s: SettingsModel, number: nat)
    ensures
        ({
            let no_channel = s.twitch_channel is None;
            let confidence = match s.detection_confidence {
                ConfidenceSetting::Unset => false,
                ConfidenceSetting::Number(n) => !n.in_unit_range(),
                ConfidenceSetting::Malformed => true,
            };
            let size = unreadable(s.cache_size_mb, u64::MAX);
            let port = unreadable(s.web_port, 65535);
            let timeout = unreadable(s.irc_timeout_secs, u64::MAX);
            let c = config_of(s, number);
            &&& c is Ok <==> !no_channel && !confidence && !size && !port && !timeout
            &&& c == Err::<ConfigModel, ConfigError>(ConfigError::MissingChannel) <==> no_channel
            &&& c == Err::<ConfigModel, ConfigError>(ConfigError::DetectionConfidence)
                <==> !no_channel && confidence
            &&& c == Err::<ConfigModel, ConfigError>(ConfigError::CacheSize) <==> !no_channel
                && !confidence && size
            &&& c == Err::<ConfigModel, ConfigError>(ConfigError::WebPort) <==> !no_channel
                && !confidence && !size && port
            &&& c == Err::<ConfigModel, ConfigError>(ConfigError::IrcTimeout) <==> !no_channel
                && !confidence && !size && !port && timeout
        }),
{
}

} // verus!
