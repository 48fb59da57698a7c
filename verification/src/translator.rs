//! Translation of messages to English, by a Google Translate proxy or by
//! LibreTranslate.
//!
//! Only the part of a message that is neither ASCII nor emoji is translated and
//! cached. The numbers and punctuation around it are put back afterwards, so
//! that "5 снайперов" and "10 снайперов" share one cached translation.

use crate::cache::{
    insertion_of, lookup_of, optional_param, CachedTranslation, ParamModel, Statement,
    StatementModel, TranslationCache, TranslationModel,
};
use crate::config::{Config, ConfigModel};
use crate::language::{self, detection_in};
use crate::letter_case::lowercase;
use crate::number::{Confidence, HALF_BITS};
use crate::percent::{law_decode_undoes_encode, url_decoded, url_encode, url_encoded};
use crate::text::{
    ascii_lowered, chars_of, is_word, join2, join3, law_copies_at_the_ends_are_left_out,
    law_trimming_takes_the_white_space, lemma_trimmed, string_of, trim, trim_end_char, trimmed,
    white_space, without_trailing,
};
use vstd::prelude::*;
use vstd::utf8::is_ascii_chars;

pub use crate::language::DetectionResult;

verus! {

/// Result of a translation request.
#[derive(Debug, Clone)]
pub struct TranslationResult {
    /// The translated text.
    pub translation: String,
    /// Romanization/pronunciation of the source text (if available).
    pub romanization: Option<String>,
}

impl DeepView for TranslationResult {
    type V = TranslationModel;

    open spec fn deep_view(&self) -> TranslationModel {
        TranslationModel {
            translation: self.translation@,
            romanization: self.romanization.deep_view(),
        }
    }
}

/// Translation backend to use.
#[derive(Debug, Clone, Copy, PartialEq, Eq, Structural)]
pub enum TranslationBackend {
    /// Google Translate via your translation-api proxy server.
    Google,
    /// LibreTranslate - open-source translation (lower quality, no pronunciation).
    LibreTranslate,
}

impl Default for TranslationBackend {
    fn default() -> (r: TranslationBackend)
        ensures
            r == TranslationBackend::Google,
    {
        TranslationBackend::Google
    }
}

/// The backend that a text in lower case names: LibreTranslate for
/// "libretranslate" and "libre", Google for anything else.
pub open spec fn backend_by_name(name: Seq<char>) -> TranslationBackend {
    if name == "libretranslate"@ || name == "libre"@ {
        TranslationBackend::LibreTranslate
    } else {
        TranslationBackend::Google
    }
}

/// The backend that a text names in any case.
pub open spec fn backend_named(s: Seq<char>) -> TranslationBackend {
    backend_by_name(lowercase(s))
}

impl core::str::FromStr for TranslationBackend {
    type Err = core::convert::Infallible;

    /// Parses the backend from a string.
    fn from_str(s: &str) -> (r: Result<TranslationBackend, core::convert::Infallible>)
        ensures
            r == Ok::<TranslationBackend, core::convert::Infallible>(backend_named(s@)),
            is_ascii_chars(s@) ==> backend_named(s@) == backend_by_name(ascii_lowered(s@)),
    {
        let lower = s.to_lowercase();
        let chars = chars_of(lower.as_str());
        if is_word(chars.as_slice(), "libretranslate") || is_word(chars.as_slice(), "libre") {
            Ok(TranslationBackend::LibreTranslate)
        } else {
            Ok(TranslationBackend::Google)
        }
    }
}

/// Whether a character lies in one of the common emoji ranges.
pub open spec fn emoji(c: char) -> bool {
    let code = c as u32;
    (0x1F300 <= code <= 0x1F9FF) || (0x2600 <= code <= 0x26FF) || (0x2700 <= code <= 0x27BF) || (
    0xFE00 <= code <= 0xFE0F) || (0x1F000 <= code <= 0x1F02F) || (0x1FA00 <= code <= 0x1FAFF)
}

/// A character that calls for translation: neither ASCII nor emoji.
pub open spec fn foreign(c: char) -> bool {
    (c as u32) >= 0x80 && !emoji(c)
}

/// A text holds a character that calls for translation.
pub open spec fn has_foreign(s: Seq<char>) -> bool {
    exists|i: int| 0 <= i < s.len() && foreign(#[trigger] s[i])
}

/// The number of characters before the first foreign one.
pub open spec fn leading_plain(s: Seq<char>) -> int
    decreases s.len(),
{
    if s.len() == 0 || foreign(s[0]) {
        0
    } else {
        1 + leading_plain(s.skip(1))
    }
}

/// The number of characters after the last foreign one.
pub open spec fn trailing_plain(s: Seq<char>) -> int
    decreases s.len(),
{
    if s.len() == 0 || foreign(s.last()) {
        0
    } else {
        1 + trailing_plain(s.drop_last())
    }
}

/// What stands before the first foreign character; nothing where there is none.
pub open spec fn prefix_of(s: Seq<char>) -> Seq<char> {
    if has_foreign(s) {
        s.take(leading_plain(s))
    } else {
        Seq::empty()
    }
}

/// What stands from the first foreign character to the last one; the whole
/// text where there is none.
pub open spec fn core_of(s: Seq<char>) -> Seq<char> {
    if has_foreign(s) {
        s.subrange(leading_plain(s), s.len() - trailing_plain(s))
    } else {
        s
    }
}

/// What stands after the last foreign character; nothing where there is none.
pub open spec fn suffix_of(s: Seq<char>) -> Seq<char> {
    if has_foreign(s) {
        s.skip(s.len() - trailing_plain(s))
    } else {
        Seq::empty()
    }
}

proof fn lemma_leading(s: Seq<char>)
    requires
        has_foreign(s),
    ensures
        0 <= leading_plain(s) < s.len(),
        foreign(s[leading_plain(s)]),
        forall|j: int| 0 <= j < leading_plain(s) ==> !foreign(#[trigger] s[j]),
    decreases s.len(),
{
    if !foreign(s[0]) {
        let t = s.skip(1);
        let i = choose|i: int| 0 <= i < s.len() && foreign(#[trigger] s[i]);
        assert(t[i - 1] == s[i]);
        lemma_leading(t);
        assert forall|j: int| 0 <= j < leading_plain(s) implies !foreign(#[trigger] s[j]) by {
            if j > 0 {
                assert(t[j - 1] == s[j]);
            }
        }
    }
}

proof fn lemma_trailing(s: Seq<char>)
    requires
        has_foreign(s),
    ensures
        0 <= trailing_plain(s) < s.len(),
        foreign(s[s.len() - 1 - trailing_plain(s)]),
        forall|j: int| s.len() - trailing_plain(s) <= j < s.len() ==> !foreign(#[trigger] s[j]),
    decreases s.len(),
{
    if !foreign(s.last()) {
        let t = s.drop_last();
        let i = choose|i: int| 0 <= i < s.len() && foreign(#[trigger] s[i]);
        assert(t[i] == s[i]);
        lemma_trailing(t);
        assert forall|j: int|
            s.len() - trailing_plain(s) <= j < s.len() implies !foreign(#[trigger] s[j]) by {
            if j < s.len() - 1 {
                assert(t[j] == s[j]);
            }
        }
    }
}

proof fn lemma_ends(s: Seq<char>)
    requires
        has_foreign(s),
    ensures
        0 <= leading_plain(s) < s.len() - trailing_plain(s) <= s.len(),
{
    lemma_leading(s);
    lemma_trailing(s);
    assert(foreign(s[leading_plain(s)]));
}

proof fn lemma_leading_is(s: Seq<char>, n: int)
    requires
        0 <= n < s.len(),
        foreign(s[n]),
        forall|j: int| 0 <= j < n ==> !foreign(#[trigger] s[j]),
    ensures
        has_foreign(s),
        leading_plain(s) == n,
{
    assert(has_foreign(s));
    lemma_leading(s);
    let k = leading_plain(s);
    assert(foreign(s[k]));
}

proof fn lemma_trailing_is(s: Seq<char>, n: int)
    requires
        0 <= n < s.len(),
        foreign(s[s.len() - 1 - n]),
        forall|j: int| s.len() - n <= j < s.len() ==> !foreign(#[trigger] s[j]),
    ensures
        has_foreign(s),
        trailing_plain(s) == n,
{
    assert(has_foreign(s));
    lemma_trailing(s);
    let k = trailing_plain(s);
    assert(foreign(s[s.len() - 1 - k]));
}

/// Checks if a character is likely an emoji.
pub fn is_emoji(c: char) -> (r: bool)
    ensures
        r == emoji(c),
{
    let code: u32 = c as u32;
    (0x1F300 <= code && code <= 0x1F9FF)  // Pictographs, emoticons and the like
     || (0x2600 <= code && code <= 0x26FF)  // Miscellaneous symbols
     || (0x2700 <= code && code <= 0x27BF)  // Dingbats
     || (0xFE00 <= code && code <= 0xFE0F)  // Variation selectors
     || (0x1F000 <= code && code <= 0x1F02F)  // Mahjong, domino
     || (0x1FA00 <= code && code <= 0x1FAFF)  // Chess, symbols

}

/// Whether a character calls for translation.
fn is_foreign(c: char) -> (r: bool)
    ensures
        r == foreign(c),
{
    c as u32 >= 0x80 && !is_emoji(c)
}

/// Checks if text contains non-ASCII characters that need translation.
///
/// Emojis, ASCII text and white space at the ends do not.
pub fn needs_translation(text: &str) -> (r: bool)
    ensures
        r == has_foreign(trimmed(text@)),
{
    let chars = chars_of(text);
    let t = trim(chars.as_slice());
    let mut i: usize = 0;
    while i < t.len()
        invariant
            i <= t@.len(),
            t@ == trimmed(text@),
            forall|j: int| 0 <= j < i ==> !foreign(#[trigger] t@[j]),
        decreases t@.len() - i,
    {
        if is_foreign(t[i]) {
            assert(foreign(t@[i as int]));
            return true;
        }
        i += 1;
    }
    false
}

/// Splits a text into what stands before its first foreign character, what
/// stands between the first and the last one, and what stands after that.
///
/// - `"5 снайперов"` gives `("5 ", "снайперов", "")`
/// - `"снайперов!!!"` gives `("", "снайперов", "!!!")`
/// - `"10 привет 20"` gives `("10 ", "привет", " 20")`
/// - `"hello"` gives `("", "hello", "")` (no foreign character)
pub fn extract_ascii_affixes(text: &str) -> (r: (&str, &str, &str))
    ensures
        r.0@ == prefix_of(text@),
        r.1@ == core_of(text@),
        r.2@ == suffix_of(text@),
{
    let chars = chars_of(text);
    let n: usize = chars.len();
    let mut first: usize = 0;
    while first < n && !is_foreign(chars[first])
        invariant
            first <= n,
            n == chars@.len(),
            chars@ == text@,
            forall|j: int| 0 <= j < first ==> !foreign(#[trigger] text@[j]),
        decreases n - first,
    {
        first += 1;
    }
    if first == n {
        assert(text@.subrange(0, 0) =~= Seq::<char>::empty());
        return (text.substring_char(0, 0), text, text.substring_char(0, 0));
    }
    let mut end: usize = n;
    while !is_foreign(chars[end - 1])
        invariant
            first < end <= n,
            n == chars@.len(),
            chars@ == text@,
            foreign(text@[first as int]),
            forall|j: int| end <= j < n ==> !foreign(#[trigger] text@[j]),
        decreases end,
    {
        end -= 1;
    }
    proof {
        lemma_leading_is(text@, first as int);
        lemma_trailing_is(text@, n - end);
    }
    (
        text.substring_char(0, first),
        text.substring_char(first, end),
        text.substring_char(end, n),
    )
}

/// Reconstructs a string by joining a prefix, core, and suffix.
pub fn reconstruct_with_affixes(prefix: &str, core: &str, suffix: &str) -> (r: String)
    ensures
        r@ == prefix@ + core@ + suffix@,
{
    join3(prefix, core, suffix)
}

/// A translation of the core, with prefix and suffix put back around the
/// translated text and around the romanization.
pub open spec fn with_affixes(
    prefix: Seq<char>,
    core: TranslationModel,
    suffix: Seq<char>,
) -> TranslationModel {
    TranslationModel {
        translation: prefix + core.translation + suffix,
        romanization: match core.romanization {
            Some(r) => Some(prefix + r + suffix),
            None => None,
        },
    }
}

fn put_back(
    prefix: &str,
    translation: &str,
    romanization: &Option<String>,
    suffix: &str,
) -> (r: TranslationResult)
    ensures
        r.deep_view() == with_affixes(
            prefix@,
            TranslationModel {
                translation: translation@,
                romanization: romanization.deep_view(),
            },
            suffix@,
        ),
{
    TranslationResult {
        translation: reconstruct_with_affixes(prefix, translation, suffix),
        romanization: match romanization {
            Some(s) => Some(reconstruct_with_affixes(prefix, s.as_str(), suffix)),
            None => None,
        },
    }
}

/// A translation that is under way.
#[derive(Debug, Clone)]
pub struct PendingTranslation {
    /// What stands before the core.
    pub prefix: String,
    /// The part to translate.
    pub core: String,
    /// What stands after the core.
    pub suffix: String,
    /// The core in lower case: the key under which the cache holds it.
    pub key: String,
    /// The source language code.
    pub source_lang: String,
}

/// What a [`PendingTranslation`] holds.
pub struct PendingModel {
    pub prefix: Seq<char>,
    pub core: Seq<char>,
    pub suffix: Seq<char>,
    pub key: Seq<char>,
    pub source_lang: Seq<char>,
}

impl DeepView for PendingTranslation {
    type V = PendingModel;

    open spec fn deep_view(&self) -> PendingModel {
        PendingModel {
            prefix: self.prefix@,
            core: self.core@,
            suffix: self.suffix@,
            key: self.key@,
            source_lang: self.source_lang@,
        }
    }
}

/// The translation of a text that is to be done; none where the text does not
/// need translation.
pub open spec fn pending_of(text: Seq<char>, source_lang: Seq<char>) -> Option<PendingModel> {
    if has_foreign(trimmed(text)) {
        Some(
            PendingModel {
                prefix: prefix_of(text),
                core: core_of(text),
                suffix: suffix_of(text),
                key: lowercase(core_of(text)),
                source_lang,
            },
        )
    } else {
        None
    }
}

impl PendingTranslation {
    /// The statement that looks for the core in the cache.
    pub fn lookup(&self, cache: &TranslationCache) -> (r: Statement)
        ensures
            r.deep_view() == lookup_of(self.key@, self.source_lang@),
    {
        cache.get(self.key.as_str(), self.source_lang.as_str())
    }

    /// The statement that stores the service's translation of the core.
    pub fn storage(&self, cache: &TranslationCache, reply: &TranslationResult) -> (r: Statement)
        ensures
            r.deep_view() == insertion_of(self.key@, self.source_lang@, reply.deep_view()),
    {
        let romanization = match &reply.romanization {
            Some(s) => Some(s.as_str()),
            None => None,
        };
        cache.insert(
            self.key.as_str(),
            self.source_lang.as_str(),
            reply.translation.as_str(),
            romanization,
        )
    }

    /// The answer when the cache holds a translation of the core.
    pub fn answer_from_cache(&self, cached: &CachedTranslation) -> (r: TranslationResult)
        ensures
            r.deep_view() == with_affixes(self.prefix@, cached.deep_view(), self.suffix@),
    {
        put_back(
            self.prefix.as_str(),
            cached.translation.as_str(),
            &cached.romanization,
            self.suffix.as_str(),
        )
    }

    /// The answer when the service has translated the core.
    pub fn answer_from_service(&self, reply: &TranslationResult) -> (r: TranslationResult)
        ensures
            r.deep_view() == with_affixes(self.prefix@, reply.deep_view(), self.suffix@),
    {
        put_back(
            self.prefix.as_str(),
            reply.translation.as_str(),
            &reply.romanization,
            self.suffix.as_str(),
        )
    }
}

/// A request to a translation service.
#[derive(Debug, Clone)]
pub enum ApiRequest {
    /// A GET request to the proxy for Google Translate.
    Google {
        /// The URL, which carries the text.
        url: String,
    },
    /// A POST request to LibreTranslate, with a JSON body of the other fields.
    LibreTranslate {
        /// The URL.
        url: String,
        /// The text to translate.
        q: String,
        /// The source language code.
        source: String,
        /// The target language code.
        target: String,
    },
}

/// What an [`ApiRequest`] holds.
pub enum RequestModel {
    Google { url: Seq<char> },
    LibreTranslate { url: Seq<char>, q: Seq<char>, source: Seq<char>, target: Seq<char> },
}

impl DeepView for ApiRequest {
    type V = RequestModel;

    open spec fn deep_view(&self) -> RequestModel {
        match self {
            ApiRequest::Google { url } => RequestModel::Google { url: url@ },
            ApiRequest::LibreTranslate { url, q, source, target } => RequestModel::LibreTranslate {
                url: url@,
                q: q@,
                source: source@,
                target: target@,
            },
        }
    }
}

/// An HTTP status that stands for success.
pub open spec fn success_status(status: u16) -> bool {
    200 <= status < 300
}

/// Whether an HTTP status stands for success.
pub fn is_success(status: u16) -> (r: bool)
    ensures
        r == success_status(status),
{
    200 <= status && status < 300
}

/// The URL at which the proxy translates a text to English.
pub open spec fn proxy_url(api_url: Seq<char>, source: Seq<char>, text: Seq<char>) -> Seq<char> {
    without_trailing(api_url, '/') + "/translate/"@ + source + "/en/"@ + url_encoded(text)
}

/// The request that has a text translated to English.
pub open spec fn request_for(
    backend: TranslationBackend,
    api_url: Seq<char>,
    source: Seq<char>,
    text: Seq<char>,
) -> RequestModel {
    match backend {
        TranslationBackend::Google => RequestModel::Google { url: proxy_url(api_url, source, text) },
        TranslationBackend::LibreTranslate => RequestModel::LibreTranslate {
            url: api_url,
            q: text,
            source,
            target: "en"@,
        },
    }
}

/// What came of a request to the translation service.
#[derive(Debug, Clone)]
pub enum ServiceReply {
    /// The request could not be sent.
    Unsent,
    /// There was an answer.
    Answer {
        /// The HTTP status.
        status: u16,
        /// The status with its meaning (e.g., "404 Not Found").
        status_text: String,
        /// The translation in the body, `None` where the body could not be read.
        content: Option<TranslationResult>,
    },
}

/// The name of a service in messages.
pub open spec fn service_name(backend: TranslationBackend) -> Seq<char> {
    match backend {
        TranslationBackend::Google => "translation API"@,
        TranslationBackend::LibreTranslate => "LibreTranslate API"@,
    }
}

/// The translation that a reply gives, or a message. LibreTranslate gives no
/// romanization.
pub open spec fn reply_content(backend: TranslationBackend, reply: ServiceReply) -> Result<
    TranslationModel,
    Seq<char>,
> {
    match reply {
        ServiceReply::Unsent => Err("Failed to send request to "@ + service_name(backend)),
        ServiceReply::Answer { status, status_text, content } => if !success_status(status) {
            Err(
                (match backend {
                    TranslationBackend::Google => "Translation API returned status: "@,
                    TranslationBackend::LibreTranslate => "LibreTranslate API returned status: "@,
                }) + status_text@,
            )
        } else {
            match content {
                Some(t) => Ok(
                    TranslationModel {
                        translation: t.translation@,
                        romanization: match backend {
                            TranslationBackend::Google => t.romanization.deep_view(),
                            TranslationBackend::LibreTranslate => None,
                        },
                    },
                ),
                None => Err("Failed to parse "@ + service_name(backend) + " response"@),
            }
        },
    }
}

/// Translation service that detects languages and translates to English.
#[derive(Debug, Clone)]
pub struct Translator {
    /// Base URL for the translation API.
    pub api_url: String,
    /// Which backend to use.
    pub backend: TranslationBackend,
    /// Maximum size of the cache in bytes.
    pub cache_size_bytes: u64,
    /// Minimum confidence for detection.
    pub min_confidence: Confidence,
}

/// What a [`Translator`] holds.
pub struct TranslatorModel {
    pub api_url: Seq<char>,
    pub backend: TranslationBackend,
    pub cache_size_bytes: u64,
    pub min_confidence: Confidence,
}

impl DeepView for Translator {
    type V = TranslatorModel;

    open spec fn deep_view(&self) -> TranslatorModel {
        TranslatorModel {
            api_url: self.api_url@,
            backend: self.backend,
            cache_size_bytes: self.cache_size_bytes,
            min_confidence: self.min_confidence,
        }
    }
}

/// The translator that a configuration asks for.
pub open spec fn translator_for(config: ConfigModel) -> TranslatorModel {
    TranslatorModel {
        api_url: config.translation_api_url,
        backend: config.translation_backend,
        cache_size_bytes: (config.cache_size_mb * 1048576) as u64,
        min_confidence: config.detection_confidence_threshold,
    }
}

impl Translator {
    /// A translator with the given service, backend and cache size in
    /// megabytes. The minimum confidence for detection is one half.
    pub fn new(api_url: &str, backend: TranslationBackend, cache_size_mb: u64) -> (r: Translator)
        requires
            cache_size_mb * 1048576 <= u64::MAX,
        ensures
            r.deep_view() == (TranslatorModel {
                api_url: api_url@,
                backend,
                cache_size_bytes: (cache_size_mb * 1048576) as u64,
                min_confidence: Confidence { bits: HALF_BITS },
            }),
    {
        let cache_size_bytes: u64 = cache_size_mb * 1024 * 1024;
        Translator {
            api_url: api_url.to_string(),
            backend,
            cache_size_bytes,
            min_confidence: Confidence { bits: HALF_BITS },
        }
    }

    /// The translator with another minimum confidence for detection.
    pub fn with_min_confidence(self, min_confidence: Confidence) -> (r: Translator)
        ensures
            r.deep_view() == (TranslatorModel { min_confidence, ..self.deep_view() }),
    {
        Translator {
            api_url: self.api_url,
            backend: self.backend,
            cache_size_bytes: self.cache_size_bytes,
            min_confidence,
        }
    }

    /// The translator that a configuration asks for.
    pub fn for_config(config: &Config) -> (r: Translator)
        requires
            config.cache_size_mb * 1048576 <= u64::MAX,
        ensures
            r.deep_view() == translator_for(config.deep_view()),
    {
        Translator::new(
            config.translation_api_url.as_str(),
            config.translation_backend,
            config.cache_size_mb,
        ).with_min_confidence(config.detection_confidence_threshold)
    }

    /// Detects the language of the given text.
    ///
    /// Gives the detected language and the confidence, or `None` if detection
    /// failed or the confidence is too low.
    pub fn detect_language(&self, text: &str) -> (r: Option<DetectionResult>)
        ensures
            r.deep_view() == detection_in(text@, self.min_confidence),
            r matches Some(d) ==> d.confidence.in_unit_range() && d.confidence.reaches(
                self.min_confidence,
            ),
    {
        language::detect_language(text, self.min_confidence)
    }

    /// Begins the translation of a text to English; `None` if the text does not
    /// need translation.
    pub fn translate(&self, text: &str, source_lang: &str) -> (r: Option<PendingTranslation>)
        ensures
            r.deep_view() == pending_of(text@, source_lang@),
    {
        if !needs_translation(text) {
            return None;
        }
        let (prefix, core, suffix) = extract_ascii_affixes(text);
        Some(
            PendingTranslation {
                prefix: prefix.to_string(),
                core: core.to_string(),
                suffix: suffix.to_string(),
                key: core.to_lowercase(),
                source_lang: source_lang.to_string(),
            },
        )
    }

    /// The request to the service for a translation that the cache lacks.
    pub fn request(&self, pending: &PendingTranslation) -> (r: ApiRequest)
        ensures
            r.deep_view() == request_for(
                self.backend,
                self.api_url@,
                pending.source_lang@,
                pending.core@,
            ),
    {
        match self.backend {
            TranslationBackend::Google => {
                let chars = chars_of(self.api_url.as_str());
                let base = string_of(trim_end_char(chars.as_slice(), '/'));
                let encoded = url_encode(pending.core.as_str());
                let head = join3(base.as_str(), "/translate/", pending.source_lang.as_str());
                ApiRequest::Google { url: join3(head.as_str(), "/en/", encoded.as_str()) }
            },
            TranslationBackend::LibreTranslate => ApiRequest::LibreTranslate {
                url: self.api_url.clone(),
                q: pending.core.clone(),
                source: pending.source_lang.clone(),
                target: "en".to_string(),
            },
        }
    }
}

impl Translator {
    /// The translation of the core that a reply gives, or what went wrong.
    pub fn read_reply(&self, reply: ServiceReply) -> (r: Result<TranslationResult, String>)
        ensures
            match r {
                Ok(t) => reply_content(self.backend, reply) == Ok::<TranslationModel, Seq<char>>(
                    t.deep_view(),
                ),
                Err(message) => reply_content(self.backend, reply) == Err::<
                    TranslationModel,
                    Seq<char>,
                >(message@),
            },
    {
        let name = match self.backend {
            TranslationBackend::Google => "translation API",
            TranslationBackend::LibreTranslate => "LibreTranslate API",
        };
        match reply {
            ServiceReply::Unsent => Err(join2("Failed to send request to ", name)),
            ServiceReply::Answer { status, status_text, content } => {
                if !is_success(status) {
                    let head = match self.backend {
                        TranslationBackend::Google => "Translation API returned status: ",
                        TranslationBackend::LibreTranslate =>
                            "LibreTranslate API returned status: ",
                    };
                    return Err(join2(head, status_text.as_str()));
                }
                match content {
                    Some(t) => Ok(
                        TranslationResult {
                            translation: t.translation,
                            romanization: match self.backend {
                                TranslationBackend::Google => t.romanization,
                                TranslationBackend::LibreTranslate => None,
                            },
                        },
                    ),
                    None => Err(join3("Failed to parse ", name, " response")),
                }
            },
        }
    }
}

/// What came of the last step of a translation.
#[derive(Debug, Clone)]
pub enum TranslateInput {
    /// The cache was asked for the core, and holds this.
    Cached(Option<CachedTranslation>),
    /// The service was asked for the core.
    Reply(ServiceReply),
}

/// What a translation needs next.
#[derive(Debug, Clone)]
pub enum TranslateStep {
    /// The service is to be asked.
    Ask(ApiRequest),
    /// The translation is there.
    Finish {
        /// The translation of the whole text.
        result: TranslationResult,
        /// The statement that stores a new translation of the core.
        store: Option<Statement>,
    },
    /// There is no translation, for this reason.
    Fail(String),
}

/// What a [`TranslateStep`] holds.
pub enum StepModel {
    Ask(RequestModel),
    Finish { result: TranslationModel, store: Option<StatementModel> },
    Fail(Seq<char>),
}

impl DeepView for TranslateStep {
    type V = StepModel;

    open spec fn deep_view(&self) -> StepModel {
        match self {
            TranslateStep::Ask(request) => StepModel::Ask(request.deep_view()),
            TranslateStep::Finish { result, store } => StepModel::Finish {
                result: result.deep_view(),
                store: store.deep_view(),
            },
            TranslateStep::Fail(message) => StepModel::Fail(message@),
        }
    }
}

/// The step after the cache was asked: its answer is used, and the service is
/// asked where it has none.
pub open spec fn step_after_cache(
    p: PendingModel,
    backend: TranslationBackend,
    api_url: Seq<char>,
    cached: Option<TranslationModel>,
) -> StepModel {
    match cached {
        Some(row) => StepModel::Finish {
            result: with_affixes(p.prefix, row, p.suffix),
            store: None,
        },
        None => StepModel::Ask(request_for(backend, api_url, p.source_lang, p.core)),
    }
}

/// The step after the service was asked: its translation is stored and used.
pub open spec fn step_after_service(p: PendingModel, content: Result<TranslationModel, Seq<char>>) ->
    StepModel {
    match content {
        Ok(core) => StepModel::Finish {
            result: with_affixes(p.prefix, core, p.suffix),
            store: Some(insertion_of(p.key, p.source_lang, core)),
        },
        Err(message) => StepModel::Fail(message),
    }
}

impl PendingTranslation {
    /// What the translation needs next.
    pub fn advance(
        &self,
        translator: &Translator,
        cache: &TranslationCache,
        input: TranslateInput,
    ) -> (r: TranslateStep)
        ensures
            r.deep_view() == match input {
                TranslateInput::Cached(cached) => step_after_cache(
                    self.deep_view(),
                    translator.backend,
                    translator.api_url@,
                    cached.deep_view(),
                ),
                TranslateInput::Reply(reply) => step_after_service(
                    self.deep_view(),
                    reply_content(translator.backend, reply),
                ),
            },
    {
        match input {
            TranslateInput::Cached(Some(cached)) => TranslateStep::Finish {
                result: self.answer_from_cache(&cached),
                store: None,
            },
            TranslateInput::Cached(None) => TranslateStep::Ask(translator.request(self)),
            TranslateInput::Reply(reply) => match translator.read_reply(reply) {
                Ok(core) => TranslateStep::Finish {
                    result: self.answer_from_service(&core),
                    store: Some(self.storage(cache, &core)),
                },
                Err(message) => TranslateStep::Fail(message),
            },
        }
    }
}

/// A text is answered from the cache as it was answered by the service: the
/// translation that was stored for it gives the same result again.
pub proof fn law_cached_answers_are_the_same(
    p: PendingModel,
    backend: TranslationBackend,
    api_url: Seq<char>,
    core: TranslationModel,
)
    ensures
        step_after_service(p, Ok(core)) matches StepModel::Finish { result: fresh, store } && (
        step_after_cache(p, backend, api_url, Some(core)) matches StepModel::Finish {
            result: cached,
            store: again,
        } && fresh == cached && store == Some(insertion_of(p.key, p.source_lang, core)) && again
            is None),
{
}

/// Splitting a text and joining the parts gives back the text.
pub proof fn law_affixes_rejoin(text: Seq<char>)
    ensures
        prefix_of(text) + core_of(text) + suffix_of(text) == text,
{
    if has_foreign(text) {
        lemma_ends(text);
    }
    assert(prefix_of(text) + core_of(text) + suffix_of(text) =~= text);
}

/// Where a text holds a foreign character, its core starts and ends with one,
/// and prefix and suffix hold none.
pub proof fn law_core_is_bounded_by_foreign_characters(text: Seq<char>)
    requires
        has_foreign(text),
    ensures
        core_of(text).len() > 0,
        foreign(core_of(text)[0]),
        foreign(core_of(text).last()),
        !has_foreign(prefix_of(text)),
        !has_foreign(suffix_of(text)),
{
    lemma_ends(text);
    lemma_leading(text);
    lemma_trailing(text);
    let p = prefix_of(text);
    let x = suffix_of(text);
    assert forall|i: int| 0 <= i < p.len() implies !foreign(#[trigger] p[i]) by {
        assert(p[i] == text[i]);
    }
    assert forall|i: int| 0 <= i < x.len() implies !foreign(#[trigger] x[i]) by {
        assert(x[i] == text[text.len() - trailing_plain(text) + i]);
    }
}

/// The core does not depend on the numbers, punctuation and emojis around it:
/// all texts with the same core share one cache entry.
pub proof fn law_affixes_do_not_change_the_core(
    prefix: Seq<char>,
    core: Seq<char>,
    suffix: Seq<char>,
)
    requires
        !has_foreign(prefix),
        !has_foreign(suffix),
        core.len() > 0,
        foreign(core[0]),
        foreign(core.last()),
    ensures
        prefix_of(prefix + core + suffix) == prefix,
        core_of(prefix + core + suffix) == core,
        suffix_of(prefix + core + suffix) == suffix,
{
    let text = prefix + core + suffix;
    let n = prefix.len() as int;
    let m = suffix.len() as int;
    assert(text[n] == core[0]);
    assert(text[n + core.len() - 1] == core.last());
    assert forall|j: int| 0 <= j < n implies !foreign(#[trigger] text[j]) by {
        assert(text[j] == prefix[j]);
    }
    assert forall|j: int| text.len() - m <= j < text.len() implies !foreign(#[trigger] text[j]) by {
        assert(text[j] == suffix[j - n - core.len()]);
    }
    lemma_leading_is(text, n);
    lemma_trailing_is(text, m);
    assert(prefix_of(text) =~= prefix);
    assert(core_of(text) =~= core);
    assert(suffix_of(text) =~= suffix);
}

/// Text of ASCII characters and emojis alone is not translated: English text,
/// numbers and punctuation among it.
pub proof fn law_plain_text_is_not_translated(text: Seq<char>, source_lang: Seq<char>)
    requires
        !has_foreign(text),
    ensures
        pending_of(text, source_lang) is None,
{
    let (from, to) = lemma_trimmed(text);
    if has_foreign(trimmed(text)) {
        let i = choose|i: int| 0 <= i < trimmed(text).len() && foreign(#[trigger] trimmed(text)[i]);
        assert(foreign(text[from + i]));
    }
}

/// A text that needs translation still needs it with other text around it.
pub proof fn law_more_text_needs_translation_too(
    before: Seq<char>,
    text: Seq<char>,
    after: Seq<char>,
)
    requires
        has_foreign(trimmed(text)),
    ensures
        has_foreign(trimmed(before + text + after)),
{
    let whole = before + text + after;
    let n = before.len() as int;
    let (from, to) = lemma_trimmed(text);
    let (first, last) = lemma_trimmed(whole);
    let i = choose|i: int| 0 <= i < trimmed(text).len() && foreign(#[trigger] trimmed(text)[i]);
    assert(whole[n + from] == text[from]);
    assert(whole[n + to - 1] == text[to - 1]);
    assert(first <= n + from);
    assert(n + to - 1 < last);
    assert(trimmed(whole)[n + from + i - first] == text[from + i]);
    assert(foreign(trimmed(whole)[n + from + i - first]));
}

/// ASCII text is not translated.
pub proof fn law_ascii_text_is_not_translated(text: Seq<char>, source_lang: Seq<char>)
    requires
        is_ascii_chars(text),
    ensures
        pending_of(text, source_lang) is None,
{
    if has_foreign(text) {
        let i = choose|i: int| 0 <= i < text.len() && foreign(#[trigger] text[i]);
        assert(text[i] as u32 <= 0x7f);
    }
    law_plain_text_is_not_translated(text, source_lang);
}

/// Two texts whose cores are equal in lower case have one cache key, and what
/// is stored for the first answers the second as the service would: the same
/// translation, between the second text's own prefix and suffix.
pub proof fn law_cache_is_shared(
    first: Seq<char>,
    second: Seq<char>,
    source_lang: Seq<char>,
    reply: TranslationModel,
)
    requires
        has_foreign(trimmed(first)),
        has_foreign(trimmed(second)),
        lowercase(core_of(first)) == lowercase(core_of(second)),
    ensures
        ({
            let one = pending_of(first, source_lang)->0;
            let two = pending_of(second, source_lang)->0;
            &&& pending_of(first, source_lang) is Some
            &&& pending_of(second, source_lang) is Some
            &&& lookup_of(two.key, two.source_lang) == lookup_of(
                one.key,
                one.source_lang,
            )
            &&& insertion_of(one.key, one.source_lang, reply).params.take(2)
                == lookup_of(two.key, two.source_lang).params
            &&& insertion_of(one.key, one.source_lang, reply).params.skip(2) == seq![
                ParamModel::Text(reply.translation),
                optional_param(reply.romanization),
            ]
            &&& with_affixes(two.prefix, reply, two.suffix).translation == prefix_of(second)
                + reply.translation + suffix_of(second)
        }),
{
    let one = pending_of(first, source_lang)->0;
    assert(insertion_of(one.key, one.source_lang, reply).params.take(2)
        =~= lookup_of(one.key, one.source_lang).params);
    assert(insertion_of(one.key, one.source_lang, reply).params.skip(2) =~= seq![
        ParamModel::Text(reply.translation),
        optional_param(reply.romanization),
    ]);
}

proof fn lemma_pending_of_parts(
    prefix: Seq<char>,
    core: Seq<char>,
    suffix: Seq<char>,
    source_lang: Seq<char>,
)
    requires
        !has_foreign(prefix),
        !has_foreign(suffix),
        core.len() > 0,
        foreign(core[0]),
        foreign(core.last()),
        has_foreign(trimmed(prefix + core + suffix)),
    ensures
        pending_of(prefix + core + suffix, source_lang) == Some(
            PendingModel { prefix, core, suffix, key: lowercase(core), source_lang },
        ),
{
    law_affixes_do_not_change_the_core(prefix, core, suffix);
}

/// White space around a text, of whatever script, calls for no translation.
pub proof fn law_white_space_is_not_translated(
    before: Seq<char>,
    text: Seq<char>,
    after: Seq<char>,
    source_lang: Seq<char>,
)
    requires
        forall|i: int| 0 <= i < before.len() ==> white_space(#[trigger] before[i]),
        forall|i: int| 0 <= i < after.len() ==> white_space(#[trigger] after[i]),
        text.len() > 0 ==> !white_space(text[0]) && !white_space(text.last()),
        !has_foreign(text),
    ensures
        pending_of(before + text + after, source_lang) is None,
{
    law_trimming_takes_the_white_space(before, text, after);
}

/// What is asked for is the core alone, in the language of the text: first the
/// cache, by the core in lower case, and then the service, where the cache has
/// nothing.
pub proof fn law_core_is_what_is_asked_for(
    prefix: Seq<char>,
    core: Seq<char>,
    suffix: Seq<char>,
    source_lang: Seq<char>,
    backend: TranslationBackend,
    api_url: Seq<char>,
)
    requires
        !has_foreign(prefix),
        !has_foreign(suffix),
        core.len() > 0,
        foreign(core[0]),
        foreign(core.last()),
        has_foreign(trimmed(prefix + core + suffix)),
    ensures
        ({
            let pending = pending_of(prefix + core + suffix, source_lang);
            let p = pending->0;
            &&& pending is Some
            &&& lookup_of(p.key, p.source_lang).params == seq![
                ParamModel::Text(lowercase(core)),
                ParamModel::Text(source_lang),
            ]
            &&& step_after_cache(p, backend, api_url, None) == StepModel::Ask(
                request_for(backend, api_url, source_lang, core),
            )
        }),
{
    lemma_pending_of_parts(prefix, core, suffix, source_lang);
}

/// Whatever stands around the core of a text comes back around its translation
/// and around its romanization, from the cache as from the service. What the
/// service says of the core is stored as it is, without what stands around it.
pub proof fn law_affixes_come_back(
    prefix: Seq<char>,
    core: Seq<char>,
    suffix: Seq<char>,
    source_lang: Seq<char>,
    backend: TranslationBackend,
    api_url: Seq<char>,
    row: TranslationModel,
)
    requires
        !has_foreign(prefix),
        !has_foreign(suffix),
        core.len() > 0,
        foreign(core[0]),
        foreign(core.last()),
        has_foreign(trimmed(prefix + core + suffix)),
    ensures
        ({
            let pending = pending_of(prefix + core + suffix, source_lang);
            let from_cache = step_after_cache(pending->0, backend, api_url, Some(row));
            let from_service = step_after_service(pending->0, Ok(row));
            &&& pending is Some
            &&& from_cache matches StepModel::Finish { result: a, store: none }
            &&& from_service matches StepModel::Finish { result: b, store: kept }
            &&& none is None
            &&& a.translation == prefix + row.translation + suffix
            &&& row.romanization matches Some(rom) ==> a.romanization == Some(prefix + rom + suffix)
            &&& row.romanization is None ==> a.romanization is None
            &&& b.translation == prefix + row.translation + suffix
            &&& row.romanization matches Some(rom) ==> b.romanization == Some(prefix + rom + suffix)
            &&& row.romanization is None ==> b.romanization is None
            &&& kept matches Some(statement)
            &&& statement.params.len() == 4
            &&& statement.params[0] == ParamModel::Text(lowercase(core))
            &&& statement.params[1] == ParamModel::Text(source_lang)
            &&& statement.params[2] == ParamModel::Text(row.translation)
            &&& statement.params[3] == if row.romanization is Some {
                ParamModel::Text(row.romanization->0)
            } else {
                ParamModel::Null
            }
        }),
{
    lemma_pending_of_parts(prefix, core, suffix, source_lang);
}

/// A service that fails gives no translation, and nothing is stored.
pub proof fn law_failures_store_nothing(p: PendingModel, message: Seq<char>)
    ensures
        step_after_service(p, Err(message)) == StepModel::Fail(message),
{
}

/// The proxy is asked at its own address, with or without slashes at the end,
/// for a translation to English; the last part of the path is the text again
/// once it is decoded. LibreTranslate is given text and languages as they are.
pub proof fn law_requests_carry_the_text(
    api_url: Seq<char>,
    slashes: nat,
    source: Seq<char>,
    text: Seq<char>,
)
    requires
        api_url.len() == 0 || api_url.last() != '/',
    ensures
        ({
            let base = api_url + Seq::new(slashes, |i: int| '/');
            let asked = request_for(TranslationBackend::Google, base, source, text);
            let posted = request_for(TranslationBackend::LibreTranslate, base, source, text);
            &&& asked == RequestModel::Google {
                url: api_url + "/translate/"@ + source + "/en/"@ + url_encoded(text),
            }
            &&& url_decoded(url_encoded(text)) == Some(text)
            &&& posted == RequestModel::LibreTranslate {
                url: base,
                q: text,
                source,
                target: seq!['e', 'n'],
            }
        }),
{
    law_copies_at_the_ends_are_left_out(api_url, '/', slashes);
    law_decode_undoes_encode(text);
    reveal_strlit("en");
    assert("en"@ =~= seq!['e', 'n']);
}

/// A reply is a translation exactly where its status is one of success and its
/// body could be read, and then it is the one in the body. Only the proxy gives
/// romanizations.
pub proof fn law_replies_give_their_translation(
    backend: TranslationBackend,
    status: u16,
    status_text: String,
    content: Option<TranslationResult>,
)
    ensures
        ({
            let r = reply_content(
                backend,
                ServiceReply::Answer { status, status_text, content },
            );
            &&& r is Ok <==> 200 <= status <= 299 && content is Some
            &&& r matches Ok(t) ==> t.translation == content->0.translation@
            &&& r matches Ok(t) ==> t.romanization == if backend == TranslationBackend::Google {
                content->0.romanization.deep_view()
            } else {
                None
            }
        }),
        reply_content(backend, ServiceReply::Unsent) is Err,
{
}

/// What goes wrong with a service is said under the service's own name: that it
/// was not reached, with which status it answered, or that its answer could not
/// be read.
pub proof fn law_failures_name_the_service(
    backend: TranslationBackend,
    status: u16,
    status_text: String,
    content: Option<TranslationResult>,
)
    ensures
        ({
            let google = backend == TranslationBackend::Google;
            let answered = reply_content(
                backend,
                ServiceReply::Answer { status, status_text, content },
            );
            &&& reply_content(backend, ServiceReply::Unsent) == Err::<TranslationModel, Seq<char>>(
                if google {
                    "Failed to send request to translation API"@
                } else {
                    "Failed to send request to LibreTranslate API"@
                },
            )
            &&& !(200 <= status <= 299) ==> answered == Err::<TranslationModel, Seq<char>>(
                (if google {
                    "Translation API returned status: "@
                } else {
                    "LibreTranslate API returned status: "@
                }) + status_text@,
            )
            &&& 200 <= status <= 299 && content is None ==> answered == Err::<
                TranslationModel,
                Seq<char>,
            >(
                if google {
                    "Failed to parse translation API response"@
                } else {
                    "Failed to parse LibreTranslate API response"@
                },
            )
        }),
{
    reveal_strlit("Failed to send request to ");
    reveal_strlit("translation API");
    reveal_strlit("LibreTranslate API");
    reveal_strlit("Failed to send request to translation API");
    reveal_strlit("Failed to send request to LibreTranslate API");
    reveal_strlit("Failed to parse ");
    reveal_strlit(" response");
    reveal_strlit("Failed to parse translation API response");
    reveal_strlit("Failed to parse LibreTranslate API response");
    assert("Failed to send request to "@ + "translation API"@
        =~= "Failed to send request to translation API"@);
    assert("Failed to send request to "@ + "LibreTranslate API"@
        =~= "Failed to send request to LibreTranslate API"@);
    assert("Failed to parse "@ + "translation API"@ + " response"@
        =~= "Failed to parse translation API response"@);
    assert("Failed to parse "@ + "LibreTranslate API"@ + " response"@
        =~= "Failed to parse LibreTranslate API response"@);
}

/// The characters that call for translation are all beyond ASCII, letters of
/// every script among them, but for the blocks of emojis and their variation
/// selectors.
pub proof fn law_letters_of_all_scripts_are_foreign(c: char)
    ensures
        foreign(c) <==> {
            let code = c as u32;
            ||| 0x80 <= code < 0x2600
            ||| 0x27c0 <= code < 0xfe00
            ||| 0xfe10 <= code < 0x1f000
            ||| 0x1f030 <= code < 0x1f300
            ||| 0x1fb00 <= code
        },
{
}

/// The two names of LibreTranslate, and no other text, choose it, in whatever
/// case they are written.
pub proof fn law_backends_have_their_names(s: Seq<char>, t: Seq<char>)
    ensures
        lowercase(s) == lowercase(t) ==> backend_named(s) == backend_named(t),
        backend_named(s) == TranslationBackend::LibreTranslate <==> lowercase(s)
            == "libretranslate"@ || lowercase(s) == "libre"@,
        backend_named(s) == TranslationBackend::Google || backend_named(s)
            == TranslationBackend::LibreTranslate,
{
}

/// A configuration has the translator that it asks for: its service, its
/// backend, the size of its cache and its least confidence.
pub proof fn law_configured_translator(config: ConfigModel)
    requires
        config.cache_size_mb <= 0xfff_ffff_ffff,
    ensures
        translator_for(config).api_url == config.translation_api_url,
        translator_for(config).backend == config.translation_backend,
        translator_for(config).cache_size_bytes == config.cache_size_mb * 1024 * 1024,
        translator_for(config).min_confidence == config.detection_confidence_threshold,
{
}

} // verus!
