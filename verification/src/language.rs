//! Languages: detection, codes and names.

use crate::number::Confidence;
use crate::text::{chars_of, is_word};
use vstd::prelude::*;
use vstd::utf8::encode_utf8;

verus! {

/// Result of language detection on a text.
#[derive(Debug, Clone)]
pub struct DetectionResult {
    /// The detected language code (e.g., "es", "fr", "de").
    pub language: String,
    /// The full language name (e.g., "Spanish", "French", "German").
    pub language_name: String,
    /// Confidence score from 0.0 to 1.0.
    pub confidence: Confidence,
    /// Whether the text is detected as English.
    pub is_english: bool,
}

/// What a [`DetectionResult`] holds.
pub struct DetectionModel {
    pub language: Seq<char>,
    pub language_name: Seq<char>,
    pub confidence: Confidence,
    pub is_english: bool,
}

impl DeepView for DetectionResult {
    type V = DetectionModel;

    open spec fn deep_view(&self) -> DetectionModel {
        DetectionModel {
            language: self.language@,
            language_name: self.language_name@,
            confidence: self.confidence,
            is_english: self.is_english,
        }
    }
}

/// The two-letter code and the English name of the language with the given
/// ISO 639-3 code; `auto` and `Unknown` for any other.
pub open spec fn code_and_name(code: Seq<char>) -> (Seq<char>, Seq<char>) {
    if code == "afr"@ {
        ("af"@, "Afrikaans"@)
    } else if code == "ara"@ {
        ("ar"@, "Arabic"@)
    } else if code == "bul"@ {
        ("bg"@, "Bulgarian"@)
    } else if code == "ben"@ {
        ("bn"@, "Bengali"@)
    } else if code == "cat"@ {
        ("ca"@, "Catalan"@)
    } else if code == "ces"@ {
        ("cs"@, "Czech"@)
    } else if code == "cmn"@ {
        ("zh"@, "Chinese"@)
    } else if code == "dan"@ {
        ("da"@, "Danish"@)
    } else if code == "deu"@ {
        ("de"@, "German"@)
    } else if code == "ell"@ {
        ("el"@, "Greek"@)
    } else if code == "eng"@ {
        ("en"@, "English"@)
    } else if code == "epo"@ {
        ("eo"@, "Esperanto"@)
    } else if code == "spa"@ {
        ("es"@, "Spanish"@)
    } else if code == "est"@ {
        ("et"@, "Estonian"@)
    } else if code == "fin"@ {
        ("fi"@, "Finnish"@)
    } else if code == "fra"@ {
        ("fr"@, "French"@)
    } else if code == "heb"@ {
        ("he"@, "Hebrew"@)
    } else if code == "hin"@ {
        ("hi"@, "Hindi"@)
    } else if code == "hrv"@ {
        ("hr"@, "Croatian"@)
    } else if code == "hun"@ {
        ("hu"@, "Hungarian"@)
    } else if code == "ind"@ {
        ("id"@, "Indonesian"@)
    } else if code == "ita"@ {
        ("it"@, "Italian"@)
    } else if code == "jpn"@ {
        ("ja"@, "Japanese"@)
    } else if code == "kat"@ {
        ("ka"@, "Georgian"@)
    } else if code == "kor"@ {
        ("ko"@, "Korean"@)
    } else if code == "lat"@ {
        ("la"@, "Latin"@)
    } else if code == "lav"@ {
        ("lv"@, "Latvian"@)
    } else if code == "lit"@ {
        ("lt"@, "Lithuanian"@)
    } else if code == "mkd"@ {
        ("mk"@, "Macedonian"@)
    } else if code == "nld"@ {
        ("nl"@, "Dutch"@)
    } else if code == "nob"@ {
        ("nb"@, "Norwegian"@)
    } else if code == "pol"@ {
        ("pl"@, "Polish"@)
    } else if code == "por"@ {
        ("pt"@, "Portuguese"@)
    } else if code == "ron"@ {
        ("ro"@, "Romanian"@)
    } else if code == "rus"@ {
        ("ru"@, "Russian"@)
    } else if code == "slk"@ {
        ("sk"@, "Slovak"@)
    } else if code == "slv"@ {
        ("sl"@, "Slovenian"@)
    } else if code == "swe"@ {
        ("sv"@, "Swedish"@)
    } else if code == "tam"@ {
        ("ta"@, "Tamil"@)
    } else if code == "tha"@ {
        ("th"@, "Thai"@)
    } else if code == "tur"@ {
        ("tr"@, "Turkish"@)
    } else if code == "ukr"@ {
        ("uk"@, "Ukrainian"@)
    } else if code == "urd"@ {
        ("ur"@, "Urdu"@)
    } else if code == "vie"@ {
        ("vi"@, "Vietnamese"@)
    } else {
        ("auto"@, "Unknown"@)
    }
}

/// The detection result for the ISO 639-3 code and the score that the detector
/// gives, the score as the bits of its binary64 representation.
pub open spec fn detection_of(code: Seq<char>, bits: u64) -> DetectionModel {
    DetectionModel {
        language: code_and_name(code).0,
        language_name: code_and_name(code).1,
        confidence: Confidence { bits },
        is_english: code == "eng"@,
    }
}

/// What `whatlang::detect` finds in a text: the ISO 639-3 code of the language
/// and the bits of the confidence.
pub uninterp spec fn detected(text: Seq<char>) -> Option<(Seq<char>, u64)>;

/// The detection result for what the detector gives; none where the confidence
/// is too low.
pub open spec fn certain_detection(code: Seq<char>, bits: u64, least: Confidence) -> Option<
    DetectionModel,
> {
    if (Confidence { bits }).reaches(least) {
        Some(detection_of(code, bits))
    } else {
        None
    }
}

/// The detection result for a text: none below three bytes, where detection is
/// unreliable, and none where the detector finds no language or its confidence
/// is too low.
pub open spec fn detection_in(text: Seq<char>, least: Confidence) -> Option<DetectionModel> {
    if encode_utf8(text).len() < 3 {
        None
    } else {
        match detected(text) {
            Some((code, bits)) => certain_detection(code, bits, least),
            None => None,
        }
    }
}

/// `whatlang::detect`, with the language by its ISO 639-3 code (`Lang::code`)
/// and the confidence by its bits. The result depends on the text alone; the
/// confidence is a number from 0.0 to 1.0.
#[verifier::external_body]
fn whatlang_detect(text: &str) -> (r: Option<(String, u64)>)
    ensures
        match r {
            Some(found) => detected(text@) == Some((found.0@, found.1)) && (Confidence {
                bits: found.1,
            }).in_unit_range(),
            None => detected(text@) is None,
        },
{
    whatlang::detect(text).map(
        |info| (info.lang().code().to_string(), info.confidence().to_bits()),
    )
}

/// The two-letter code and the English name of a language, by its ISO 639-3
/// code.
pub fn lang_to_code_and_name(code: &str) -> (r: (&'static str, &'static str))
    ensures
        (r.0@, r.1@) == code_and_name(code@),
{
    let chars = chars_of(code);
    let s = chars.as_slice();
    if is_word(s, "afr") {
        ("af", "Afrikaans")
    } else if is_word(s, "ara") {
        ("ar", "Arabic")
    } else if is_word(s, "bul") {
        ("bg", "Bulgarian")
    } else if is_word(s, "ben") {
        ("bn", "Bengali")
    } else if is_word(s, "cat") {
        ("ca", "Catalan")
    } else if is_word(s, "ces") {
        ("cs", "Czech")
    } else if is_word(s, "cmn") {
        ("zh", "Chinese")
    } else if is_word(s, "dan") {
        ("da", "Danish")
    } else if is_word(s, "deu") {
        ("de", "German")
    } else if is_word(s, "ell") {
        ("el", "Greek")
    } else if is_word(s, "eng") {
        ("en", "English")
    } else if is_word(s, "epo") {
        ("eo", "Esperanto")
    } else if is_word(s, "spa") {
        ("es", "Spanish")
    } else if is_word(s, "est") {
        ("et", "Estonian")
    } else if is_word(s, "fin") {
        ("fi", "Finnish")
    } else if is_word(s, "fra") {
        ("fr", "French")
    } else if is_word(s, "heb") {
        ("he", "Hebrew")
    } else if is_word(s, "hin") {
        ("hi", "Hindi")
    } else if is_word(s, "hrv") {
        ("hr", "Croatian")
    } else if is_word(s, "hun") {
        ("hu", "Hungarian")
    } else if is_word(s, "ind") {
        ("id", "Indonesian")
    } else if is_word(s, "ita") {
        ("it", "Italian")
    } else if is_word(s, "jpn") {
        ("ja", "Japanese")
    } else if is_word(s, "kat") {
        ("ka", "Georgian")
    } else if is_word(s, "kor") {
        ("ko", "Korean")
    } else if is_word(s, "lat") {
        ("la", "Latin")
    } else if is_word(s, "lav") {
        ("lv", "Latvian")
    } else if is_word(s, "lit") {
        ("lt", "Lithuanian")
    } else if is_word(s, "mkd") {
        ("mk", "Macedonian")
    } else if is_word(s, "nld") {
        ("nl", "Dutch")
    } else if is_word(s, "nob") {
        ("nb", "Norwegian")
    } else if is_word(s, "pol") {
        ("pl", "Polish")
    } else if is_word(s, "por") {
        ("pt", "Portuguese")
    } else if is_word(s, "ron") {
        ("ro", "Romanian")
    } else if is_word(s, "rus") {
        ("ru", "Russian")
    } else if is_word(s, "slk") {
        ("sk", "Slovak")
    } else if is_word(s, "slv") {
        ("sl", "Slovenian")
    } else if is_word(s, "swe") {
        ("sv", "Swedish")
    } else if is_word(s, "tam") {
        ("ta", "Tamil")
    } else if is_word(s, "tha") {
        ("th", "Thai")
    } else if is_word(s, "tur") {
        ("tr", "Turkish")
    } else if is_word(s, "ukr") {
        ("uk", "Ukrainian")
    } else if is_word(s, "urd") {
        ("ur", "Urdu")
    } else if is_word(s, "vie") {
        ("vi", "Vietnamese")
    } else {
        ("auto", "Unknown")
    }
}

/// The detection result for what the detector found.
pub fn detection_from(code: &str, bits: u64) -> (r: DetectionResult)
    ensures
        r.deep_view() == detection_of(code@, bits),
{
    let (language, language_name) = lang_to_code_and_name(code);
    DetectionResult {
        language: language.to_string(),
        language_name: language_name.to_string(),
        confidence: Confidence { bits },
        is_english: is_word(chars_of(code).as_slice(), "eng"),
    }
}

/// The detection result for what the detector found, or `None` if the confidence
/// is too low.
pub fn certain_detection_from(code: &str, bits: u64, least: Confidence) -> (r: Option<
    DetectionResult,
>)
    ensures
        r.deep_view() == certain_detection(code@, bits, least),
{
    if (Confidence { bits }).at_least(least) {
        Some(detection_from(code, bits))
    } else {
        None
    }
}

/// Detects the language of a text. Gives `None` if detection failed or the
/// confidence is less than `least`.
pub fn detect_language(text: &str, least: Confidence) -> (r: Option<DetectionResult>)
    ensures
        r.deep_view() == detection_in(text@, least),
        r matches Some(d) ==> d.confidence.in_unit_range() && d.confidence.reaches(least),
{
    if text.as_bytes().len() < 3 {
        return None;
    }
    match whatlang_detect(text) {
        Some(found) => certain_detection_from(found.0.as_str(), found.1, least),
        None => None,
    }
}

/// A result is marked English exactly where its language code is `en`.
pub proof fn law_english_by_code(code: Seq<char>, bits: u64)
    ensures
        detection_of(code, bits).is_english <==> detection_of(code, bits).language == "en"@,
{
    reveal_strlit("af");
    reveal_strlit("ar");
    reveal_strlit("bg");
    reveal_strlit("bn");
    reveal_strlit("ca");
    reveal_strlit("cs");
    reveal_strlit("zh");
    reveal_strlit("da");
    reveal_strlit("de");
    reveal_strlit("el");
    reveal_strlit("en");
    reveal_strlit("eo");
    reveal_strlit("es");
    reveal_strlit("et");
    reveal_strlit("fi");
    reveal_strlit("fr");
    reveal_strlit("he");
    reveal_strlit("hi");
    reveal_strlit("hr");
    reveal_strlit("hu");
    reveal_strlit("id");
    reveal_strlit("it");
    reveal_strlit("ja");
    reveal_strlit("ka");
    reveal_strlit("ko");
    reveal_strlit("la");
    reveal_strlit("lv");
    reveal_strlit("lt");
    reveal_strlit("mk");
    reveal_strlit("nl");
    reveal_strlit("nb");
    reveal_strlit("pl");
    reveal_strlit("pt");
    reveal_strlit("ro");
    reveal_strlit("ru");
    reveal_strlit("sk");
    reveal_strlit("sl");
    reveal_strlit("sv");
    reveal_strlit("ta");
    reveal_strlit("th");
    reveal_strlit("tr");
    reveal_strlit("uk");
    reveal_strlit("ur");
    reveal_strlit("vi");
    reveal_strlit("auto");
    reveal_strlit("afr");
    reveal_strlit("ara");
    reveal_strlit("bul");
    reveal_strlit("ben");
    reveal_strlit("cat");
    reveal_strlit("ces");
    reveal_strlit("cmn");
    reveal_strlit("dan");
    reveal_strlit("deu");
    reveal_strlit("ell");
    reveal_strlit("eng");
    let two = code_and_name(code).0;
    if two == "en"@ {
        assert(two[0] == 'e' && two[1] == 'n' && two.len() == 2);
    }
    if code == "eng"@ {
        assert(code[0] == 'e' && code[1] == 'n');
    }
}

/// The languages that the detector knows: ISO 639-3 code, two-letter code and
/// English name, as the ISO tables have them.
pub open spec fn known_languages() -> Seq<(Seq<char>, Seq<char>, Seq<char>)> {
    seq![
        ("afr"@, "af"@, "Afrikaans"@),
        ("ara"@, "ar"@, "Arabic"@),
        ("bul"@, "bg"@, "Bulgarian"@),
        ("ben"@, "bn"@, "Bengali"@),
        ("cat"@, "ca"@, "Catalan"@),
        ("ces"@, "cs"@, "Czech"@),
        ("cmn"@, "zh"@, "Chinese"@),
        ("dan"@, "da"@, "Danish"@),
        ("deu"@, "de"@, "German"@),
        ("ell"@, "el"@, "Greek"@),
        ("eng"@, "en"@, "English"@),
        ("epo"@, "eo"@, "Esperanto"@),
        ("spa"@, "es"@, "Spanish"@),
        ("est"@, "et"@, "Estonian"@),
        ("fin"@, "fi"@, "Finnish"@),
        ("fra"@, "fr"@, "French"@),
        ("heb"@, "he"@, "Hebrew"@),
        ("hin"@, "hi"@, "Hindi"@),
        ("hrv"@, "hr"@, "Croatian"@),
        ("hun"@, "hu"@, "Hungarian"@),
        ("ind"@, "id"@, "Indonesian"@),
        ("ita"@, "it"@, "Italian"@),
        ("jpn"@, "ja"@, "Japanese"@),
        ("kat"@, "ka"@, "Georgian"@),
        ("kor"@, "ko"@, "Korean"@),
        ("lat"@, "la"@, "Latin"@),
        ("lav"@, "lv"@, "Latvian"@),
        ("lit"@, "lt"@, "Lithuanian"@),
        ("mkd"@, "mk"@, "Macedonian"@),
        ("nld"@, "nl"@, "Dutch"@),
        ("nob"@, "nb"@, "Norwegian"@),
        ("pol"@, "pl"@, "Polish"@),
        ("por"@, "pt"@, "Portuguese"@),
        ("ron"@, "ro"@, "Romanian"@),
        ("rus"@, "ru"@, "Russian"@),
        ("slk"@, "sk"@, "Slovak"@),
        ("slv"@, "sl"@, "Slovenian"@),
        ("swe"@, "sv"@, "Swedish"@),
        ("tam"@, "ta"@, "Tamil"@),
        ("tha"@, "th"@, "Thai"@),
        ("tur"@, "tr"@, "Turkish"@),
        ("ukr"@, "uk"@, "Ukrainian"@),
        ("urd"@, "ur"@, "Urdu"@),
        ("vie"@, "vi"@, "Vietnamese"@),
    ]
}

/// A number that tells the codes and the names apart, by their length and three
/// of their characters.
spec fn text_mark(s: Seq<char>) -> int {
    s.len() * 2097152 + s[0] as int * 16384 + s[1] as int * 128 + s.last() as int
}

/// The place of a language in the table, by the mark of its ISO 639-3 code.
spec fn place_by_codes(n: int) -> int {
    if n == 7893874 {
        0
    } else if n == 7895393 {
        1
    } else if n == 7912172 {
        2
    } else if n == 7910126 {
        3
    } else if n == 7926004 {
        4
    } else if n == 7926515 {
        5
    } else if n == 7927534 {
        6
    } else if n == 7942382 {
        7
    } else if n == 7942901 {
        8
    } else if n == 7960172 {
        9
    } else if n == 7960423 {
        10
    } else if n == 7960687 {
        11
    } else if n == 8190049 {
        12
    } else if n == 7961076 {
        13
    } else if n == 7976174 {
        14
    } else if n == 7977313 {
        15
    } else if n == 8008418 {
        16
    } else if n == 8008942 {
        17
    } else if n == 8010102 {
        18
    } else if n == 8010478 {
        19
    } else if n == 8025956 {
        20
    } else if n == 8026721 {
        21
    } else if n == 8042606 {
        22
    } else if n == 8057076 {
        23
    } else if n == 8058866 {
        24
    } else if n == 8073460 {
        25
    } else if n == 8073462 {
        26
    } else if n == 8074484 {
        27
    } else if n == 8091108 {
        28
    } else if n == 8107620 {
        29
    } else if n == 8108002 {
        30
    } else if n == 8140780 {
        31
    } else if n == 8140786 {
        32
    } else if n == 8173550 {
        33
    } else if n == 8174323 {
        34
    } else if n == 8189547 {
        35
    } else if n == 8189558 {
        36
    } else if n == 8190949 {
        37
    } else if n == 8204525 {
        38
    } else if n == 8205409 {
        39
    } else if n == 8207090 {
        40
    } else if n == 8222194 {
        41
    } else if n == 8223076 {
        42
    } else if n == 8238309 {
        43
    } else {
        44
    }
}

proof fn lemma_marks_of_codes()
    ensures
        text_mark("afr"@) == 7893874,
        text_mark("ara"@) == 7895393,
        text_mark("bul"@) == 7912172,
        text_mark("ben"@) == 7910126,
        text_mark("cat"@) == 7926004,
        text_mark("ces"@) == 7926515,
        text_mark("cmn"@) == 7927534,
        text_mark("dan"@) == 7942382,
        text_mark("deu"@) == 7942901,
        text_mark("ell"@) == 7960172,
        text_mark("eng"@) == 7960423,
        text_mark("epo"@) == 7960687,
        text_mark("spa"@) == 8190049,
        text_mark("est"@) == 7961076,
        text_mark("fin"@) == 7976174,
        text_mark("fra"@) == 7977313,
        text_mark("heb"@) == 8008418,
        text_mark("hin"@) == 8008942,
        text_mark("hrv"@) == 8010102,
        text_mark("hun"@) == 8010478,
        text_mark("ind"@) == 8025956,
        text_mark("ita"@) == 8026721,
        text_mark("jpn"@) == 8042606,
        text_mark("kat"@) == 8057076,
        text_mark("kor"@) == 8058866,
        text_mark("lat"@) == 8073460,
        text_mark("lav"@) == 8073462,
        text_mark("lit"@) == 8074484,
        text_mark("mkd"@) == 8091108,
        text_mark("nld"@) == 8107620,
        text_mark("nob"@) == 8108002,
        text_mark("pol"@) == 8140780,
        text_mark("por"@) == 8140786,
        text_mark("ron"@) == 8173550,
        text_mark("rus"@) == 8174323,
        text_mark("slk"@) == 8189547,
        text_mark("slv"@) == 8189558,
        text_mark("swe"@) == 8190949,
        text_mark("tam"@) == 8204525,
        text_mark("tha"@) == 8205409,
        text_mark("tur"@) == 8207090,
        text_mark("ukr"@) == 8222194,
        text_mark("urd"@) == 8223076,
        text_mark("vie"@) == 8238309,
{
    reveal_strlit("afr");
    reveal_strlit("ara");
    reveal_strlit("bul");
    reveal_strlit("ben");
    reveal_strlit("cat");
    reveal_strlit("ces");
    reveal_strlit("cmn");
    reveal_strlit("dan");
    reveal_strlit("deu");
    reveal_strlit("ell");
    reveal_strlit("eng");
    reveal_strlit("epo");
    reveal_strlit("spa");
    reveal_strlit("est");
    reveal_strlit("fin");
    reveal_strlit("fra");
    reveal_strlit("heb");
    reveal_strlit("hin");
    reveal_strlit("hrv");
    reveal_strlit("hun");
    reveal_strlit("ind");
    reveal_strlit("ita");
    reveal_strlit("jpn");
    reveal_strlit("kat");
    reveal_strlit("kor");
    reveal_strlit("lat");
    reveal_strlit("lav");
    reveal_strlit("lit");
    reveal_strlit("mkd");
    reveal_strlit("nld");
    reveal_strlit("nob");
    reveal_strlit("pol");
    reveal_strlit("por");
    reveal_strlit("ron");
    reveal_strlit("rus");
    reveal_strlit("slk");
    reveal_strlit("slv");
    reveal_strlit("swe");
    reveal_strlit("tam");
    reveal_strlit("tha");
    reveal_strlit("tur");
    reveal_strlit("ukr");
    reveal_strlit("urd");
    reveal_strlit("vie");
}

/// The place of a language in the table, by the mark of its two-letter code.
spec fn place_by_short_codes(n: int) -> int {
    if n == 5796710 {
        0
    } else if n == 5798258 {
        1
    } else if n == 5813223 {
        2
    } else if n == 5814126 {
        3
    } else if n == 5828833 {
        4
    } else if n == 5831155 {
        5
    } else if n == 6206568 {
        6
    } else if n == 5845217 {
        7
    } else if n == 5845733 {
        8
    } else if n == 5863020 {
        9
    } else if n == 5863278 {
        10
    } else if n == 5863407 {
        11
    } else if n == 5863923 {
        12
    } else if n == 5864052 {
        13
    } else if n == 5879017 {
        14
    } else if n == 5880178 {
        15
    } else if n == 5911269 {
        16
    } else if n == 5911785 {
        17
    } else if n == 5912946 {
        18
    } else if n == 5913333 {
        19
    } else if n == 5927524 {
        20
    } else if n == 5929588 {
        21
    } else if n == 5943521 {
        22
    } else if n == 5959905 {
        23
    } else if n == 5961711 {
        24
    } else if n == 5976289 {
        25
    } else if n == 5978998 {
        26
    } else if n == 5978740 {
        27
    } else if n == 5993963 {
        28
    } else if n == 6010476 {
        29
    } else if n == 6009186 {
        30
    } else if n == 6043244 {
        31
    } else if n == 6044276 {
        32
    } else if n == 6076399 {
        33
    } else if n == 6077173 {
        34
    } else if n == 6092267 {
        35
    } else if n == 6092396 {
        36
    } else if n == 6093686 {
        37
    } else if n == 6107361 {
        38
    } else if n == 6108264 {
        39
    } else if n == 6109554 {
        40
    } else if n == 6125035 {
        41
    } else if n == 6125938 {
        42
    } else if n == 6141161 {
        43
    } else {
        44
    }
}

proof fn lemma_marks_of_short_codes()
    ensures
        text_mark("af"@) == 5796710,
        text_mark("ar"@) == 5798258,
        text_mark("bg"@) == 5813223,
        text_mark("bn"@) == 5814126,
        text_mark("ca"@) == 5828833,
        text_mark("cs"@) == 5831155,
        text_mark("zh"@) == 6206568,
        text_mark("da"@) == 5845217,
        text_mark("de"@) == 5845733,
        text_mark("el"@) == 5863020,
        text_mark("en"@) == 5863278,
        text_mark("eo"@) == 5863407,
        text_mark("es"@) == 5863923,
        text_mark("et"@) == 5864052,
        text_mark("fi"@) == 5879017,
        text_mark("fr"@) == 5880178,
        text_mark("he"@) == 5911269,
        text_mark("hi"@) == 5911785,
        text_mark("hr"@) == 5912946,
        text_mark("hu"@) == 5913333,
        text_mark("id"@) == 5927524,
        text_mark("it"@) == 5929588,
        text_mark("ja"@) == 5943521,
        text_mark("ka"@) == 5959905,
        text_mark("ko"@) == 5961711,
        text_mark("la"@) == 5976289,
        text_mark("lv"@) == 5978998,
        text_mark("lt"@) == 5978740,
        text_mark("mk"@) == 5993963,
        text_mark("nl"@) == 6010476,
        text_mark("nb"@) == 6009186,
        text_mark("pl"@) == 6043244,
        text_mark("pt"@) == 6044276,
        text_mark("ro"@) == 6076399,
        text_mark("ru"@) == 6077173,
        text_mark("sk"@) == 6092267,
        text_mark("sl"@) == 6092396,
        text_mark("sv"@) == 6093686,
        text_mark("ta"@) == 6107361,
        text_mark("th"@) == 6108264,
        text_mark("tr"@) == 6109554,
        text_mark("uk"@) == 6125035,
        text_mark("ur"@) == 6125938,
        text_mark("vi"@) == 6141161,
{
    reveal_strlit("af");
    reveal_strlit("ar");
    reveal_strlit("bg");
    reveal_strlit("bn");
    reveal_strlit("ca");
    reveal_strlit("cs");
    reveal_strlit("zh");
    reveal_strlit("da");
    reveal_strlit("de");
    reveal_strlit("el");
    reveal_strlit("en");
    reveal_strlit("eo");
    reveal_strlit("es");
    reveal_strlit("et");
    reveal_strlit("fi");
    reveal_strlit("fr");
    reveal_strlit("he");
    reveal_strlit("hi");
    reveal_strlit("hr");
    reveal_strlit("hu");
    reveal_strlit("id");
    reveal_strlit("it");
    reveal_strlit("ja");
    reveal_strlit("ka");
    reveal_strlit("ko");
    reveal_strlit("la");
    reveal_strlit("lv");
    reveal_strlit("lt");
    reveal_strlit("mk");
    reveal_strlit("nl");
    reveal_strlit("nb");
    reveal_strlit("pl");
    reveal_strlit("pt");
    reveal_strlit("ro");
    reveal_strlit("ru");
    reveal_strlit("sk");
    reveal_strlit("sl");
    reveal_strlit("sv");
    reveal_strlit("ta");
    reveal_strlit("th");
    reveal_strlit("tr");
    reveal_strlit("uk");
    reveal_strlit("ur");
    reveal_strlit("vi");
}

/// The place of a language in the table, by the mark of its name.
spec fn place_by_names(n: int) -> int {
    if n == 19952499 {
        0
    } else if n == 13662563 {
        1
    } else if n == 19970798 {
        2
    } else if n == 15774441 {
        3
    } else if n == 15790318 {
        4
    } else if n == 11599208 {
        5
    } else if n == 15791205 {
        6
    } else if n == 13709544 {
        7
    } else if n == 13759214 {
        8
    } else if n == 11663723 {
        9
    } else if n == 15824744 {
        10
    } else if n == 20019695 {
        11
    } else if n == 16054376 {
        12
    } else if n == 17922542 {
        13
    } else if n == 15840488 {
        14
    } else if n == 13744488 {
        15
    } else if n == 13775607 {
        16
    } else if n == 11678953 {
        17
    } else if n == 17889646 {
        18
    } else if n == 20069102 {
        19
    } else if n == 22181742 {
        20
    } else if n == 15891054 {
        21
    } else if n == 18002149 {
        22
    } else if n == 17953518 {
        23
    } else if n == 13826030 {
        24
    } else if n == 11743470 {
        25
    } else if n == 15937774 {
        26
    } else if n == 22230254 {
        27
    } else if n == 22245614 {
        28
    } else if n == 11614952 {
        29
    } else if n == 20166638 {
        30
    } else if n == 13907944 {
        31
    } else if n == 22296549 {
        32
    } else if n == 18135022 {
        33
    } else if n == 16038638 {
        34
    } else if n == 13956715 {
        35
    } else if n == 20248174 {
        36
    } else if n == 16055272 {
        37
    } else if n == 11874540 {
        38
    } else if n == 9778281 {
        39
    } else if n == 16071400 {
        40
    } else if n == 20280814 {
        41
    } else if n == 9795957 {
        42
    } else if n == 22394085 {
        43
    } else {
        44
    }
}

proof fn lemma_marks_of_names()
    ensures
        text_mark("Afrikaans"@) == 19952499,
        text_mark("Arabic"@) == 13662563,
        text_mark("Bulgarian"@) == 19970798,
        text_mark("Bengali"@) == 15774441,
        text_mark("Catalan"@) == 15790318,
        text_mark("Czech"@) == 11599208,
        text_mark("Chinese"@) == 15791205,
        text_mark("Danish"@) == 13709544,
        text_mark("German"@) == 13759214,
        text_mark("Greek"@) == 11663723,
        text_mark("English"@) == 15824744,
        text_mark("Esperanto"@) == 20019695,
        text_mark("Spanish"@) == 16054376,
        text_mark("Estonian"@) == 17922542,
        text_mark("Finnish"@) == 15840488,
        text_mark("French"@) == 13744488,
        text_mark("Hebrew"@) == 13775607,
        text_mark("Hindi"@) == 11678953,
        text_mark("Croatian"@) == 17889646,
        text_mark("Hungarian"@) == 20069102,
        text_mark("Indonesian"@) == 22181742,
        text_mark("Italian"@) == 15891054,
        text_mark("Japanese"@) == 18002149,
        text_mark("Georgian"@) == 17953518,
        text_mark("Korean"@) == 13826030,
        text_mark("Latin"@) == 11743470,
        text_mark("Latvian"@) == 15937774,
        text_mark("Lithuanian"@) == 22230254,
        text_mark("Macedonian"@) == 22245614,
        text_mark("Dutch"@) == 11614952,
        text_mark("Norwegian"@) == 20166638,
        text_mark("Polish"@) == 13907944,
        text_mark("Portuguese"@) == 22296549,
        text_mark("Romanian"@) == 18135022,
        text_mark("Russian"@) == 16038638,
        text_mark("Slovak"@) == 13956715,
        text_mark("Slovenian"@) == 20248174,
        text_mark("Swedish"@) == 16055272,
        text_mark("Tamil"@) == 11874540,
        text_mark("Thai"@) == 9778281,
        text_mark("Turkish"@) == 16071400,
        text_mark("Ukrainian"@) == 20280814,
        text_mark("Urdu"@) == 9795957,
        text_mark("Vietnamese"@) == 22394085,
{
    reveal_strlit("Afrikaans");
    reveal_strlit("Arabic");
    reveal_strlit("Bulgarian");
    reveal_strlit("Bengali");
    reveal_strlit("Catalan");
    reveal_strlit("Czech");
    reveal_strlit("Chinese");
    reveal_strlit("Danish");
    reveal_strlit("German");
    reveal_strlit("Greek");
    reveal_strlit("English");
    reveal_strlit("Esperanto");
    reveal_strlit("Spanish");
    reveal_strlit("Estonian");
    reveal_strlit("Finnish");
    reveal_strlit("French");
    reveal_strlit("Hebrew");
    reveal_strlit("Hindi");
    reveal_strlit("Croatian");
    reveal_strlit("Hungarian");
    reveal_strlit("Indonesian");
    reveal_strlit("Italian");
    reveal_strlit("Japanese");
    reveal_strlit("Georgian");
    reveal_strlit("Korean");
    reveal_strlit("Latin");
    reveal_strlit("Latvian");
    reveal_strlit("Lithuanian");
    reveal_strlit("Macedonian");
    reveal_strlit("Dutch");
    reveal_strlit("Norwegian");
    reveal_strlit("Polish");
    reveal_strlit("Portuguese");
    reveal_strlit("Romanian");
    reveal_strlit("Russian");
    reveal_strlit("Slovak");
    reveal_strlit("Slovenian");
    reveal_strlit("Swedish");
    reveal_strlit("Tamil");
    reveal_strlit("Thai");
    reveal_strlit("Turkish");
    reveal_strlit("Ukrainian");
    reveal_strlit("Urdu");
    reveal_strlit("Vietnamese");
}

proof fn lemma_place(i: int)
    requires
        0 <= i < known_languages().len(),
    ensures
        known_languages().len() == 44,
        place_by_codes(text_mark(known_languages()[i].0)) == i,
        place_by_short_codes(text_mark(known_languages()[i].1)) == i,
        place_by_names(text_mark(known_languages()[i].2)) == i,
{
    lemma_marks_of_codes();
    lemma_marks_of_short_codes();
    lemma_marks_of_names();
    if i == 0 {
    } else if i == 1 {
    } else if i == 2 {
    } else if i == 3 {
    } else if i == 4 {
    } else if i == 5 {
    } else if i == 6 {
    } else if i == 7 {
    } else if i == 8 {
    } else if i == 9 {
    } else if i == 10 {
    } else if i == 11 {
    } else if i == 12 {
    } else if i == 13 {
    } else if i == 14 {
    } else if i == 15 {
    } else if i == 16 {
    } else if i == 17 {
    } else if i == 18 {
    } else if i == 19 {
    } else if i == 20 {
    } else if i == 21 {
    } else if i == 22 {
    } else if i == 23 {
    } else if i == 24 {
    } else if i == 25 {
    } else if i == 26 {
    } else if i == 27 {
    } else if i == 28 {
    } else if i == 29 {
    } else if i == 30 {
    } else if i == 31 {
    } else if i == 32 {
    } else if i == 33 {
    } else if i == 34 {
    } else if i == 35 {
    } else if i == 36 {
    } else if i == 37 {
    } else if i == 38 {
    } else if i == 39 {
    } else if i == 40 {
    } else if i == 41 {
    } else if i == 42 {
    } else if i == 43 {
    }
}

/// Each known language has its own entry of the table: its code gives the
/// two-letter code and the name that stand there. Any other code gives `auto`
/// and `Unknown`.
pub proof fn law_languages_are_those_of_the_table(code: Seq<char>, i: int)
    ensures
        0 <= i < known_languages().len() && code == known_languages()[i].0 ==> code_and_name(code)
            == (known_languages()[i].1, known_languages()[i].2),
        (forall|j: int| 0 <= j < known_languages().len() ==> code != #[trigger] known_languages()[j].0)
            ==> code_and_name(code) == ("auto"@, "Unknown"@),
{
    lemma_marks_of_codes();
    if 0 <= i < known_languages().len() && code == known_languages()[i].0 {
        if i == 0 {
        } else if i == 1 {
        } else if i == 2 {
        } else if i == 3 {
        } else if i == 4 {
        } else if i == 5 {
        } else if i == 6 {
        } else if i == 7 {
        } else if i == 8 {
        } else if i == 9 {
        } else if i == 10 {
        } else if i == 11 {
        } else if i == 12 {
        } else if i == 13 {
        } else if i == 14 {
        } else if i == 15 {
        } else if i == 16 {
        } else if i == 17 {
        } else if i == 18 {
        } else if i == 19 {
        } else if i == 20 {
        } else if i == 21 {
        } else if i == 22 {
        } else if i == 23 {
        } else if i == 24 {
        } else if i == 25 {
        } else if i == 26 {
        } else if i == 27 {
        } else if i == 28 {
        } else if i == 29 {
        } else if i == 30 {
        } else if i == 31 {
        } else if i == 32 {
        } else if i == 33 {
        } else if i == 34 {
        } else if i == 35 {
        } else if i == 36 {
        } else if i == 37 {
        } else if i == 38 {
        } else if i == 39 {
        } else if i == 40 {
        } else if i == 41 {
        } else if i == 42 {
        } else if i == 43 {
        }
    }
    if forall|j: int| 0 <= j < known_languages().len() ==> code != #[trigger] known_languages()[j].0 {
        assert(known_languages()[0].0 == "afr"@);
        assert(known_languages()[1].0 == "ara"@);
        assert(known_languages()[2].0 == "bul"@);
        assert(known_languages()[3].0 == "ben"@);
        assert(known_languages()[4].0 == "cat"@);
        assert(known_languages()[5].0 == "ces"@);
        assert(known_languages()[6].0 == "cmn"@);
        assert(known_languages()[7].0 == "dan"@);
        assert(known_languages()[8].0 == "deu"@);
        assert(known_languages()[9].0 == "ell"@);
        assert(known_languages()[10].0 == "eng"@);
        assert(known_languages()[11].0 == "epo"@);
        assert(known_languages()[12].0 == "spa"@);
        assert(known_languages()[13].0 == "est"@);
        assert(known_languages()[14].0 == "fin"@);
        assert(known_languages()[15].0 == "fra"@);
        assert(known_languages()[16].0 == "heb"@);
        assert(known_languages()[17].0 == "hin"@);
        assert(known_languages()[18].0 == "hrv"@);
        assert(known_languages()[19].0 == "hun"@);
        assert(known_languages()[20].0 == "ind"@);
        assert(known_languages()[21].0 == "ita"@);
        assert(known_languages()[22].0 == "jpn"@);
        assert(known_languages()[23].0 == "kat"@);
        assert(known_languages()[24].0 == "kor"@);
        assert(known_languages()[25].0 == "lat"@);
        assert(known_languages()[26].0 == "lav"@);
        assert(known_languages()[27].0 == "lit"@);
        assert(known_languages()[28].0 == "mkd"@);
        assert(known_languages()[29].0 == "nld"@);
        assert(known_languages()[30].0 == "nob"@);
        assert(known_languages()[31].0 == "pol"@);
        assert(known_languages()[32].0 == "por"@);
        assert(known_languages()[33].0 == "ron"@);
        assert(known_languages()[34].0 == "rus"@);
        assert(known_languages()[35].0 == "slk"@);
        assert(known_languages()[36].0 == "slv"@);
        assert(known_languages()[37].0 == "swe"@);
        assert(known_languages()[38].0 == "tam"@);
        assert(known_languages()[39].0 == "tha"@);
        assert(known_languages()[40].0 == "tur"@);
        assert(known_languages()[41].0 == "ukr"@);
        assert(known_languages()[42].0 == "urd"@);
        assert(known_languages()[43].0 == "vie"@);
    }
}

/// No two known languages share a code or a name.
pub proof fn law_table_entries_differ(i: int, j: int)
    requires
        0 <= i < known_languages().len(),
        0 <= j < known_languages().len(),
        i != j,
    ensures
        known_languages()[i].0 != known_languages()[j].0,
        known_languages()[i].1 != known_languages()[j].1,
        known_languages()[i].2 != known_languages()[j].2,
{
    lemma_place(i);
    lemma_place(j);
}

/// Languages are told apart: different codes of the detector that are known
/// give different two-letter codes and different names.
pub proof fn law_languages_are_told_apart(a: Seq<char>, b: Seq<char>)
    requires
        a != b,
        code_and_name(a) != ("auto"@, "Unknown"@),
        code_and_name(b) != ("auto"@, "Unknown"@),
    ensures
        code_and_name(a).0 != code_and_name(b).0,
        code_and_name(a).1 != code_and_name(b).1,
{
    law_languages_are_those_of_the_table(a, -1);
    law_languages_are_those_of_the_table(b, -1);
    let i = choose|i: int| 0 <= i < known_languages().len() && a == #[trigger] known_languages()[i].0;
    let j = choose|j: int| 0 <= j < known_languages().len() && b == #[trigger] known_languages()[j].0;
    law_languages_are_those_of_the_table(a, i);
    law_languages_are_those_of_the_table(b, j);
    law_table_entries_differ(i, j);
}

/// A text has a detection exactly where it has three bytes, the detector finds a
/// language in it, and the score is at least the one that is asked for.
pub proof fn law_detections_are_certain(text: Seq<char>, least: Confidence)
    ensures
        detection_in(text, least) is Some <==> encode_utf8(text).len() >= 3 && detected(text) is Some
            && (Confidence { bits: (detected(text)->0).1 }).reaches(least),
        detection_in(text, least) matches Some(d) ==> d == detection_of(
            (detected(text)->0).0,
            (detected(text)->0).1,
        ),
{
}

/// A detection keeps the score of the detector, and says of a text that it is
/// English exactly where the detector does.
pub proof fn law_detection_keeps_the_score(code: Seq<char>, bits: u64)
    ensures
        detection_of(code, bits).confidence.bits == bits,
        detection_of(code, bits).is_english <==> code == seq!['e', 'n', 'g'],
        (detection_of(code, bits).language, detection_of(code, bits).language_name)
            == code_and_name(code),
{
    reveal_strlit("eng");
    assert("eng"@ =~= seq!['e', 'n', 'g']);
}

} // verus!
