//! What is shown on the terminal: badges, colored names, translations, reply
//! context, dividers and the header.
//!
//! A line is a list of styled texts that follow each other.

use crate::cache::TranslationModel;
use crate::irc::{ChatMessage, ChatModel, ReplyInfo, ReplyModel};
use crate::letter_case::{lowercase, uppercase};
use crate::number::{decimal, digit_char, is_digit};
use crate::percent::{hex_digit, hex_value};
use crate::style::{
    color_params, face_params, joined_params, label_span, law_colored_text_is_shown,
    law_shown_text_adds_up, lemma_reopened, opening, optional_params, painted, plain_span,
    rendering, reset, shown_text, span, stands_for, Face, Ink, StyledModel, StyledText,
};
use crate::text::{
    ascii_lower, ascii_lowered, chars_of, has_word, is_empty, join2, join3, repeated, same_text,
    string_of, trim, trim_start_char, trimmed, without_leading, word_at,
};
use crate::translator::TranslationResult;
use vstd::prelude::*;
use vstd::slice::slice_subrange;
use vstd::utf8::{encode_utf8, is_ascii_chars, is_ascii_chars_encode_utf8};

verus! {

/// Number of characters of a parent message that a reply shows.
pub const REPLY_PREVIEW_CHARS: usize = 50;

/// The title of the program.
pub const TITLE: &'static str = "Twitch Chat Translator";

/// What the program does.
pub const SUBTITLE: &'static str = "Translating non-English messages to English";

// Colors.

/// The value of a hexadecimal number of two characters: two digits, or a plus
/// sign and one digit.
pub open spec fn pair_value(a: u8, b: u8) -> Option<int> {
    match (hex_value(a), hex_value(b)) {
        (Some(x), Some(y)) => Some(16 * x + y),
        (None, Some(y)) => if a == 0x2b {
            Some(y)
        } else {
            None
        },
        _ => None,
    }
}

/// The bytes of a color without the `#` in front.
pub open spec fn color_bytes(hex: Seq<char>) -> Seq<u8> {
    encode_utf8(without_leading(hex, '#'))
}

/// The red, green and blue parts of a color of three hexadecimal pairs.
pub open spec fn color_of(hex: Seq<char>) -> Option<(u8, u8, u8)> {
    let b = color_bytes(hex);
    if b.len() == 6 && pair_value(b[0], b[1]) is Some && pair_value(b[2], b[3]) is Some
        && pair_value(b[4], b[5]) is Some {
        Some(
            (
                pair_value(b[0], b[1])->0 as u8,
                pair_value(b[2], b[3])->0 as u8,
                pair_value(b[4], b[5])->0 as u8,
            ),
        )
    } else {
        None
    }
}

fn digit_value(b: u8) -> (r: Option<u8>)
    ensures
        match r {
            Some(v) => v < 16 && hex_value(b) == Some(v as int),
            None => hex_value(b) is None,
        },
{
    if 0x30 <= b && b <= 0x39 {
        Some((b - 0x30) as u8)
    } else if 0x41 <= b && b <= 0x46 {
        Some((b - 0x37) as u8)
    } else if 0x61 <= b && b <= 0x66 {
        Some((b - 0x57) as u8)
    } else {
        None
    }
}

fn pair(a: u8, b: u8) -> (r: Option<u8>)
    ensures
        match r {
            Some(v) => pair_value(a, b) == Some(v as int),
            None => pair_value(a, b) is None,
        },
{
    match (digit_value(a), digit_value(b)) {
        (Some(x), Some(y)) => Some(16 * x + y),
        (None, Some(y)) => if a == 0x2b {
            Some(y)
        } else {
            None
        },
        _ => None,
    }
}

/// Parses a hex color string (e.g., "#FF0000") into RGB components.
pub fn parse_hex_color(hex: &str) -> (r: Option<(u8, u8, u8)>)
    ensures
        r == color_of(hex@),
{
    let chars = chars_of(hex);
    let digits = string_of(trim_start_char(chars.as_slice(), '#'));
    let b = digits.as_str().as_bytes();
    if b.len() != 6 {
        return None;
    }
    match (pair(b[0], b[1]), pair(b[2], b[3]), pair(b[4], b[5])) {
        (Some(r), Some(g), Some(b)) => Some((r, g, b)),
        _ => None,
    }
}

/// The sum of bytes.
pub open spec fn byte_sum(bytes: Seq<u8>) -> nat
    decreases bytes.len(),
{
    if bytes.len() == 0 {
        0
    } else {
        byte_sum(bytes.drop_last()) + bytes.last() as nat
    }
}

/// One of twelve colors.
pub open spec fn palette(i: int) -> Ink {
    if i == 0 {
        Ink::TrueColor(255, 0, 0)
    } else if i == 1 {
        Ink::TrueColor(0, 255, 0)
    } else if i == 2 {
        Ink::TrueColor(0, 0, 255)
    } else if i == 3 {
        Ink::TrueColor(255, 255, 0)
    } else if i == 4 {
        Ink::TrueColor(255, 0, 255)
    } else if i == 5 {
        Ink::TrueColor(0, 255, 255)
    } else if i == 6 {
        Ink::TrueColor(255, 127, 0)
    } else if i == 7 {
        Ink::TrueColor(127, 255, 0)
    } else if i == 8 {
        Ink::TrueColor(255, 0, 127)
    } else if i == 9 {
        Ink::TrueColor(0, 127, 255)
    } else if i == 10 {
        Ink::TrueColor(127, 0, 255)
    } else {
        Ink::TrueColor(255, 127, 127)
    }
}

/// The color that a name has by itself: by the sum of its bytes, in 32 bits.
pub open spec fn color_by_name(name: Seq<char>) -> Ink {
    palette((byte_sum(encode_utf8(name)) as int % 0x1_0000_0000) % 12)
}

/// The color of a name: the one that is given, if it can be read.
pub open spec fn name_ink(name: Seq<char>, color: Option<Seq<char>>) -> Ink {
    match color {
        Some(hex) => match color_of(hex) {
            Some(c) => Ink::TrueColor(c.0, c.1, c.2),
            None => color_by_name(name),
        },
        None => color_by_name(name),
    }
}

fn own_color(name: &str) -> (r: Ink)
    ensures
        r == color_by_name(name@),
{
    let bytes = name.as_bytes();
    let mut hash: u32 = 0;
    let mut i: usize = 0;
    while i < bytes.len()
        invariant
            i <= bytes@.len(),
            hash == byte_sum(bytes@.take(i as int)) as int % 0x1_0000_0000,
        decreases bytes@.len() - i,
    {
        assert(bytes@.take(i + 1).drop_last() =~= bytes@.take(i as int));
        let wide: u64 = hash as u64 + bytes[i] as u64;
        hash = (wide % 0x1_0000_0000) as u32;
        i += 1;
    }
    assert(bytes@.take(i as int) =~= bytes@);
    let index: u32 = hash % 12;
    match index {
        0 => Ink::TrueColor(255, 0, 0),
        1 => Ink::TrueColor(0, 255, 0),
        2 => Ink::TrueColor(0, 0, 255),
        3 => Ink::TrueColor(255, 255, 0),
        4 => Ink::TrueColor(255, 0, 255),
        5 => Ink::TrueColor(0, 255, 255),
        6 => Ink::TrueColor(255, 127, 0),
        7 => Ink::TrueColor(127, 255, 0),
        8 => Ink::TrueColor(255, 0, 127),
        9 => Ink::TrueColor(0, 127, 255),
        10 => Ink::TrueColor(127, 0, 255),
        _ => Ink::TrueColor(255, 127, 127),
    }
}

/// Colorizes a username based on Twitch color or generates one.
pub fn colorize_username(username: &str, color: &Option<String>) -> (r: StyledText)
    ensures
        r.deep_view() == span(username@, name_ink(username@, color.deep_view()), Face::Bold),
{
    if let Some(hex) = color {
        if let Some((r, g, b)) = parse_hex_color(hex.as_str()) {
            return StyledText::inked(username, Ink::TrueColor(r, g, b), Face::Bold);
        }
    }
    StyledText::inked(username, own_color(username), Face::Bold)
}

// Badges.

/// The badge of a user: the broadcaster's, else the moderator's, else the
/// VIP's.
pub open spec fn badge_of(is_broadcaster: bool, is_mod: bool, is_vip: bool) -> Option<StyledModel> {
    if is_broadcaster {
        Some(label_span("[B]"@, Ink::TrueColor(255, 0, 0)))
    } else if is_mod {
        Some(label_span("[M]"@, Ink::TrueColor(0, 173, 3)))
    } else if is_vip {
        Some(label_span("[V]"@, Ink::TrueColor(224, 5, 185)))
    } else {
        None
    }
}

/// The badge of a user.
pub fn badge(is_broadcaster: bool, is_mod: bool, is_vip: bool) -> (r: Option<StyledText>)
    ensures
        r.deep_view() == badge_of(is_broadcaster, is_mod, is_vip),
{
    if is_broadcaster {
        Some(StyledText::label("[B]", Ink::TrueColor(255, 0, 0)))
    } else if is_mod {
        Some(StyledText::label("[M]", Ink::TrueColor(0, 173, 3)))
    } else if is_vip {
        Some(StyledText::label("[V]", Ink::TrueColor(224, 5, 185)))
    } else {
        None
    }
}

/// What a badge may look like before a name: its rendering and a space.
pub open spec fn badge_rendering(badge: Option<StyledModel>, r: Seq<char>) -> bool {
    match badge {
        Some(label) => exists|head: Seq<char>|
            rendering(label, head) && r == #[trigger] (head + " "@),
        None => r == Seq::<char>::empty(),
    }
}

/// Builds a badge prefix string with icons for broadcaster, mod, and VIP.
pub fn build_badge_prefix(is_broadcaster: bool, is_mod: bool, is_vip: bool) -> (r: String)
    ensures
        badge_rendering(badge_of(is_broadcaster, is_mod, is_vip), r@),
{
    match badge(is_broadcaster, is_mod, is_vip) {
        Some(label) => {
            let head = label.to_string();
            join2(head.as_str(), " ")
        },
        None => String::new(),
    }
}

/// A character of a control sequence or a space.
spec fn control_char(c: char) -> bool {
    is_digit(c) || c == ';' || c == 'm' || c == '[' || c == ' ' || c == '\x1b'
}

/// Text of such characters alone.
spec fn control_text(s: Seq<char>) -> bool {
    forall|i: int| 0 <= i < s.len() ==> control_char(#[trigger] s[i])
}

proof fn lemma_control_join(a: Seq<char>, b: Seq<char>)
    requires
        control_text(a),
        control_text(b),
    ensures
        control_text(a + b),
{
    assert forall|i: int| 0 <= i < (a + b).len() implies control_char(#[trigger] (a + b)[i]) by {
        if i < a.len() {
            assert((a + b)[i] == a[i]);
        } else {
            assert((a + b)[i] == b[i - a.len()]);
        }
    }
}

proof fn lemma_decimal_is_control(n: nat)
    ensures
        control_text(decimal(n)),
    decreases n,
{
    if n >= 10 {
        lemma_decimal_is_control(n / 10);
        let head = decimal(n / 10);
        let d = digit_char(n % 10);
        assert(is_digit(d));
        assert forall|i: int| 0 <= i < head.push(d).len() implies control_char(
            #[trigger] head.push(d)[i],
        ) by {
            if i < head.len() {
                assert(head.push(d)[i] == head[i]);
            }
        }
    } else {
        assert(is_digit(digit_char(n)));
    }
}

proof fn lemma_params_are_control(ink: Ink, behind: bool, true_colors: bool, nearest: int)
    ensures
        control_text(color_params(ink, behind, true_colors, nearest)),
{
    assert forall|n: nat| control_text(#[trigger] decimal(n)) by {
        lemma_decimal_is_control(n);
    }
    if let Ink::TrueColor(r, g, b) = ink {
        if true_colors {
            reveal_strlit(";2;");
            reveal_strlit(";");
            let first = decimal(
                (if behind {
                    48int
                } else {
                    38int
                }) as nat,
            );
            let red = decimal(r as nat);
            let green = decimal(g as nat);
            let blue = decimal(b as nat);
            lemma_control_join(first, ";2;"@);
            lemma_control_join(first + ";2;"@, red);
            lemma_control_join(first + ";2;"@ + red, ";"@);
            lemma_control_join(first + ";2;"@ + red + ";"@, green);
            lemma_control_join(first + ";2;"@ + red + ";"@ + green, ";"@);
            lemma_control_join(first + ";2;"@ + red + ";"@ + green + ";"@, blue);
        }
    }
}

proof fn lemma_joined_params(a: Seq<char>, b: Seq<char>)
    requires
        control_text(a),
        control_text(b),
    ensures
        control_text(joined_params(a, b)),
{
    reveal_strlit(";");
    lemma_control_join(a, ";"@);
    lemma_control_join(a + ";"@, b);
}

proof fn lemma_opening_is_control(s: StyledModel, true_colors: bool, ground: int, ink: int)
    ensures
        control_text(opening(s, true_colors, ground, ink)),
{
    reveal_strlit("1");
    reveal_strlit("2");
    reveal_strlit("3");
    reveal_strlit("\x1b[");
    reveal_strlit("m");
    if let Some(i) = s.ground {
        lemma_params_are_control(i, true, true_colors, ground);
    }
    if let Some(i) = s.ink {
        lemma_params_are_control(i, false, true_colors, ink);
    }
    let behind = optional_params(s.ground, true, true_colors, ground);
    let letters = optional_params(s.ink, false, true_colors, ink);
    lemma_joined_params(face_params(s.face), behind);
    lemma_joined_params(joined_params(face_params(s.face), behind), letters);
    let params = joined_params(joined_params(face_params(s.face), behind), letters);
    lemma_control_join("\x1b["@, params);
    lemma_control_join("\x1b["@ + params, "m"@);
}

/// A letter that a label lacks is not in its rendering before a name either.
proof fn lemma_letter_free(label: StyledModel, r: Seq<char>, letter: char)
    requires
        badge_rendering(Some(label), r),
        !label.text.contains('\x1b'),
        !label.text.contains(letter),
        !control_char(letter),
    ensures
        !r.contains(letter),
{
    reveal_strlit(" ");
    reveal_strlit("\x1b[0m");
    let head = choose|head: Seq<char>| rendering(label, head) && r == #[trigger] (head + " "@);
    if head != label.text {
        let (t, g, i) = choose|t: bool, g: int, i: int|
            stands_for(g, label.ground) && stands_for(i, label.ink) && head == #[trigger] painted(
                label,
                t,
                g,
                i,
            );
        let open = opening(label, t, g, i);
        lemma_opening_is_control(label, t, g, i);
        lemma_reopened(label.text, open);
        assert forall|j: int| 0 <= j < r.len() implies r[j] != letter by {
            if j < open.len() {
                assert(r[j] == open[j]);
            } else if j < open.len() + label.text.len() {
                assert(r[j] == label.text[j - open.len()]);
            } else if j < r.len() - 1 {
                assert(r[j] == reset()[j - open.len() - label.text.len()]);
            }
        }
    } else {
        assert forall|j: int| 0 <= j < r.len() implies r[j] != letter by {
            if j < head.len() {
                assert(r[j] == label.text[j]);
            }
        }
    }
}

proof fn lemma_label_is_shown(label: StyledModel, r: Seq<char>)
    requires
        badge_rendering(Some(label), r),
        !label.text.contains('\x1b'),
    ensures
        has_word(r, label.text),
{
    let head = choose|head: Seq<char>| rendering(label, head) && r == #[trigger] (head + " "@);
    law_colored_text_is_shown(label, head);
    let i = choose|i: int| word_at(head, label.text, i);
    assert(r.subrange(i, i + label.text.len()) =~= head.subrange(i, i + label.text.len()));
    assert(word_at(r, label.text, i));
}

/// A word with a letter that a text lacks does not stand in it.
proof fn lemma_word_free(r: Seq<char>, w: Seq<char>, i: int)
    requires
        0 <= i < w.len(),
        !r.contains(w[i]),
    ensures
        !has_word(r, w),
{
    if has_word(r, w) {
        let k = choose|k: int| word_at(r, w, k);
        assert(r.subrange(k, k + w.len())[i] == r[k + i]);
    }
}

/// The badge of a user is shown whole before the name, and no other badge is:
/// the broadcaster's, else the moderator's, else the VIP's.
pub proof fn law_badge_is_shown(is_broadcaster: bool, is_mod: bool, is_vip: bool, r: Seq<char>)
    requires
        badge_rendering(badge_of(is_broadcaster, is_mod, is_vip), r),
    ensures
        has_word(r, "[B]"@) <==> is_broadcaster,
        has_word(r, "[M]"@) <==> !is_broadcaster && is_mod,
        has_word(r, "[V]"@) <==> !is_broadcaster && !is_mod && is_vip,
        !is_broadcaster && !is_mod && !is_vip ==> r.len() == 0,
{
    reveal_strlit("[B]");
    reveal_strlit("[M]");
    reveal_strlit("[V]");
    if let Some(label) = badge_of(is_broadcaster, is_mod, is_vip) {
        lemma_label_is_shown(label, r);
        if !is_broadcaster {
            lemma_letter_free(label, r, 'B');
        }
        if is_broadcaster || !is_mod {
            lemma_letter_free(label, r, 'M');
        }
        if is_broadcaster || is_mod {
            lemma_letter_free(label, r, 'V');
        }
    }
    if !is_broadcaster {
        lemma_word_free(r, "[B]"@, 1);
    }
    if is_broadcaster || !is_mod {
        lemma_word_free(r, "[M]"@, 1);
    }
    if is_broadcaster || is_mod || !is_vip {
        lemma_word_free(r, "[V]"@, 1);
    }
}

// Romanization.

/// What `any_ascii` makes of a text.
pub uninterp spec fn transliteration(s: Seq<char>) -> Seq<char>;

/// `any_ascii::any_ascii` replaces each character by ASCII characters, by
/// itself and without regard to the others, and leaves ASCII characters as they
/// are. Its tables are not written out here.
#[verifier::external_body]
pub(crate) fn transliterate(s: &str) -> (r: String)
    ensures
        r@ == transliteration(s@),
        is_ascii_chars(r@),
        is_ascii_chars(s@) ==> r@ == s@,
{
    any_ascii::any_ascii(s)
}

/// The romanization of a text: the one that came with the translation unless it
/// is empty, else the transliteration if it is neither empty nor the text.
pub open spec fn romanization_by(
    text: Seq<char>,
    given: Option<Seq<char>>,
    transliterated: Seq<char>,
) -> Option<Seq<char>> {
    if given is Some && given->0.len() > 0 {
        given
    } else if !is_ascii_chars(text) && transliterated.len() > 0 && transliterated != text {
        Some(transliterated)
    } else {
        None
    }
}

/// The romanization of a text, with its transliteration at hand.
pub fn choose_romanization(text: &str, given: Option<&str>, transliterated: &str) -> (r: Option<
    String,
>)
    ensures
        r.deep_view() == romanization_by(text@, given.deep_view(), transliterated@),
{
    if let Some(rom) = given {
        if !is_empty(rom) {
            return Some(rom.to_string());
        }
    }
    if !text.is_ascii() && !is_empty(transliterated) && !same_text(transliterated, text) {
        return Some(transliterated.to_string());
    }
    None
}

/// Gets romanization, using any_ascii as fallback if Google doesn't provide one.
///
/// Returns None if the text is ASCII-only or if transliteration matches the original.
pub fn get_romanization(text: &str, google_romanization: Option<&str>) -> (r: Option<String>)
    ensures
        r.deep_view() == romanization_by(
            text@,
            google_romanization.deep_view(),
            transliteration(text@),
        ),
        google_romanization is None ==> (r matches Some(rom) ==> is_ascii_chars(rom@)),
        is_ascii_chars(text@) && google_romanization is None ==> r is None,
{
    let transliterated = transliterate(text);
    choose_romanization(text, google_romanization, transliterated.as_str())
}

// Lines.

/// Whether a translation says something else than the text: the two differ
/// once white space at the ends and the case of letters are left out.
pub open spec fn worth_showing(text: Seq<char>, translation: Seq<char>) -> bool {
    lowercase(trimmed(translation)) != lowercase(trimmed(text))
}

/// The line with the romanization.
pub open spec fn romanization_line(romanization: Seq<char>) -> Seq<StyledModel> {
    seq![
        plain_span("  "@),
        span("♪"@, Ink::BrightYellow, Face::Regular),
        plain_span(" "@),
        span(romanization, Ink::BrightWhite, Face::Dimmed),
    ]
}

/// The language as it stands before a translation, `?` where it is not known.
pub open spec fn language_mark(lang_name: Option<Seq<char>>) -> Seq<char> {
    "["@ + (match lang_name {
        Some(name) => name,
        None => "?"@,
    }) + "]"@
}

/// The line with the translation.
pub open spec fn translation_line(lang_name: Option<Seq<char>>, translation: Seq<char>) -> Seq<
    StyledModel,
> {
    seq![
        plain_span("  "@),
        span("↳"@, Ink::BrightCyan, Face::Regular),
        plain_span(" "@),
        span(language_mark(lang_name), Ink::BrightMagenta, Face::Bold),
        plain_span(" "@),
        span(translation, Ink::BrightGreen, Face::Italic),
    ]
}

/// The lines with a translation of a text.
pub open spec fn shown_lines(
    text: Seq<char>,
    lang_name: Option<Seq<char>>,
    result: TranslationModel,
    transliterated: Seq<char>,
) -> Seq<Seq<StyledModel>> {
    match romanization_by(text, result.romanization, transliterated) {
        Some(rom) => seq![
            romanization_line(rom),
            translation_line(lang_name, result.translation),
        ],
        None => seq![translation_line(lang_name, result.translation)],
    }
}

/// The lines with a translation of a text: none where it says nothing else than
/// the text.
pub open spec fn translation_lines(
    text: Seq<char>,
    lang_name: Option<Seq<char>>,
    result: TranslationModel,
    transliterated: Seq<char>,
) -> Seq<Seq<StyledModel>> {
    if worth_showing(text, result.translation) {
        shown_lines(text, lang_name, result, transliterated)
    } else {
        Seq::empty()
    }
}

fn show_romanization(romanization: &str) -> (r: Vec<StyledText>)
    ensures
        r.deep_view() == romanization_line(romanization@),
{
    let r = vec![
        StyledText::plain("  "),
        StyledText::inked("♪", Ink::BrightYellow, Face::Regular),
        StyledText::plain(" "),
        StyledText::inked(romanization, Ink::BrightWhite, Face::Dimmed),
    ];
    assert(r.deep_view() =~= romanization_line(romanization@));
    r
}

fn show_translation(lang_name: Option<&str>, translation: &str) -> (r: Vec<StyledText>)
    ensures
        r.deep_view() == translation_line(lang_name.deep_view(), translation@),
{
    let name = match lang_name {
        Some(name) => name,
        None => "?",
    };
    let mark = join3("[", name, "]");
    let r = vec![
        StyledText::plain("  "),
        StyledText::inked("↳", Ink::BrightCyan, Face::Regular),
        StyledText::plain(" "),
        StyledText::inked(mark.as_str(), Ink::BrightMagenta, Face::Bold),
        StyledText::plain(" "),
        StyledText::inked(translation, Ink::BrightGreen, Face::Italic),
    ];
    assert(r.deep_view() =~= translation_line(lang_name.deep_view(), translation@));
    r
}

/// The lines with a translation, with the transliteration of the text at hand.
pub fn show_lines(
    source_text: &str,
    lang_name: Option<&str>,
    result: &TranslationResult,
    transliterated: &str,
) -> (r: Vec<Vec<StyledText>>)
    ensures
        r.deep_view() == shown_lines(
            source_text@,
            lang_name.deep_view(),
            result.deep_view(),
            transliterated@,
        ),
{
    let given = match &result.romanization {
        Some(s) => Some(s.as_str()),
        None => None,
    };
    let mut lines: Vec<Vec<StyledText>> = Vec::new();
    if let Some(romanization) = choose_romanization(source_text, given, transliterated) {
        lines.push(show_romanization(romanization.as_str()));
    }
    lines.push(show_translation(lang_name, result.translation.as_str()));
    assert(lines.deep_view() =~= shown_lines(
        source_text@,
        lang_name.deep_view(),
        result.deep_view(),
        transliterated@,
    ));
    lines
}

/// A text without white space at its ends, in lower case.
fn plainly(s: &str) -> (r: String)
    ensures
        r@ == lowercase(trimmed(s@)),
        is_ascii_chars(trimmed(s@)) ==> r@ == ascii_lowered(trimmed(s@)),
{
    let chars = chars_of(s);
    string_of(trim(chars.as_slice())).as_str().to_lowercase()
}

/// Whether a translation says something else than the text.
pub fn is_worth_showing(source_text: &str, translation: &str) -> (r: bool)
    ensures
        r == worth_showing(source_text@, translation@),
        is_ascii_chars(trimmed(source_text@)) && is_ascii_chars(trimmed(translation@)) ==> r == (
        ascii_lowered(trimmed(translation@)) != ascii_lowered(trimmed(source_text@))),
{
    let source = plainly(source_text);
    let translated = plainly(translation);
    !same_text(translated.as_str(), source.as_str())
}

/// The lines with a translation unless it says nothing else than the text, with
/// the transliteration of the text at hand.
pub fn show_translation_result(
    source_text: &str,
    lang_name: Option<&str>,
    result: &TranslationResult,
    transliterated: &str,
) -> (r: Vec<Vec<StyledText>>)
    ensures
        r.deep_view() == translation_lines(
            source_text@,
            lang_name.deep_view(),
            result.deep_view(),
            transliterated@,
        ),
{
    if is_worth_showing(source_text, result.translation.as_str()) {
        return show_lines(source_text, lang_name, result, transliterated);
    }
    let none: Vec<Vec<StyledText>> = Vec::new();
    assert(none.deep_view() =~= Seq::<Seq<StyledModel>>::empty());
    none
}

/// The translation result (romanization + translated text) as it is shown on
/// the terminal.
///
/// Shows nothing if the translation is identical to the source text (case-insensitive).
pub fn display_translation_result(
    source_text: &str,
    lang_name: Option<&str>,
    result: &TranslationResult,
) -> (r: Vec<Vec<StyledText>>)
    ensures
        r.deep_view() == translation_lines(
            source_text@,
            lang_name.deep_view(),
            result.deep_view(),
            transliteration(source_text@),
        ),
{
    let transliterated = transliterate(source_text);
    show_translation_result(source_text, lang_name, result, transliterated.as_str())
}

/// A translation that is the text again shows nothing, whatever the case of its
/// letters and the white space around it.
pub proof fn law_identical_translations_show_nothing(
    text: Seq<char>,
    lang_name: Option<Seq<char>>,
    result: TranslationModel,
    transliterated: Seq<char>,
)
    requires
        lowercase(trimmed(result.translation)) == lowercase(trimmed(text)),
    ensures
        translation_lines(text, lang_name, result, transliterated)
            == Seq::<Seq<StyledModel>>::empty(),
{
}

/// The start of a message as a reply shows it, with three dots where something
/// is left out.
pub open spec fn preview(body: Seq<char>) -> Seq<char> {
    if body.len() > REPLY_PREVIEW_CHARS {
        body.take(REPLY_PREVIEW_CHARS as int) + "..."@
    } else {
        body
    }
}

/// The line above a reply.
pub open spec fn reply_line(reply: ReplyModel) -> Seq<StyledModel> {
    seq![
        plain_span("  "@),
        span("┌─ replying to"@, Ink::BrightBlack, Face::Regular),
        plain_span(" "@),
        span(reply.parent_display_name, Ink::BrightBlue, Face::Regular),
        plain_span(" "@),
        span("\""@ + preview(reply.parent_msg_body) + "\""@, Ink::BrightBlack, Face::Italic),
    ]
}

/// The context of a reply (the message being replied to), as it is shown above
/// the chat message.
pub fn display_reply_context(reply: &ReplyInfo) -> (r: Vec<StyledText>)
    ensures
        r.deep_view() == reply_line(reply.deep_view()),
{
    let body = chars_of(reply.parent_msg_body.as_str());
    let shown = if body.len() > REPLY_PREVIEW_CHARS {
        let head = string_of(slice_subrange(body.as_slice(), 0, REPLY_PREVIEW_CHARS));
        assert(head@ =~= body@.take(REPLY_PREVIEW_CHARS as int));
        join2(head.as_str(), "...")
    } else {
        string_of(body.as_slice())
    };
    let quoted = join3("\"", shown.as_str(), "\"");
    let r = vec![
        StyledText::plain("  "),
        StyledText::inked("┌─ replying to", Ink::BrightBlack, Face::Regular),
        StyledText::plain(" "),
        StyledText::inked(reply.parent_display_name.as_str(), Ink::BrightBlue, Face::Regular),
        StyledText::plain(" "),
        StyledText::inked(quoted.as_str(), Ink::BrightBlack, Face::Italic),
    ];
    assert(r.deep_view() =~= reply_line(reply.deep_view()));
    r
}

/// A reply shows its parent message whole, or its first fifty characters and
/// three dots.
pub proof fn law_previews_are_short(body: Seq<char>)
    ensures
        preview(body).len() <= 53,
        body.len() <= 50 ==> preview(body) == body,
        body.len() > 50 ==> preview(body) == body.take(50) + seq!['.', '.', '.'],
{
    reveal_strlit("...");
    assert("..."@ =~= seq!['.', '.', '.']);
}

/// A character repeated for one column less than the terminal has.
pub open spec fn rule_of(c: char, width: nat) -> StyledModel {
    span(
        Seq::new(
            if width == 0 {
                0
            } else {
                (width - 1) as nat
            },
            |i: int| c,
        ),
        Ink::BrightBlack,
        Face::Regular,
    )
}

fn rule(c: char, width: usize) -> (r: StyledText)
    ensures
        r.deep_view() == rule_of(c, width as nat),
{
    let n: usize = if width == 0 {
        0
    } else {
        width - 1
    };
    let s = repeated(c, n);
    StyledText::inked(s.as_str(), Ink::BrightBlack, Face::Regular)
}

/// The width of a terminal of the given number of columns, with a default where
/// there is none.
pub fn get_terminal_width(columns: Option<u16>) -> (r: usize)
    ensures
        r == match columns {
            Some(w) => w as int,
            None => 80,
        },
{
    match columns {
        Some(w) => w as usize,
        None => 80,
    }
}

/// A divider line that spans the terminal width.
pub fn divider(width: usize) -> (r: StyledText)
    ensures
        r.deep_view() == rule_of('─', width as nat),
{
    rule('─', width)
}

/// A thick divider line that spans the terminal width.
pub fn thick_divider(width: usize) -> (r: StyledText)
    ensures
        r.deep_view() == rule_of('━', width as nat),
{
    rule('━', width)
}

/// The name under which a message is shown.
pub open spec fn shown_name(msg: ChatModel) -> Seq<char> {
    match msg.display_name {
        Some(name) => name,
        None => msg.username,
    }
}

/// The name under which a message is shown: the display name, where there is
/// one.
pub fn display_name(msg: &ChatMessage) -> (r: &str)
    ensures
        r@ == shown_name(msg.deep_view()),
{
    match &msg.display_name {
        Some(name) => name.as_str(),
        None => msg.username.as_str(),
    }
}

/// The lines before a message: a divider and, for a reply, its context.
pub open spec fn opening_lines(msg: ChatModel, width: nat) -> Seq<Seq<StyledModel>> {
    match msg.reply_to {
        Some(reply) => seq![seq![rule_of('─', width)], reply_line(reply)],
        None => seq![seq![rule_of('─', width)]],
    }
}

/// The line of a message: badge, name and content. The content of a message
/// that was translated is brighter.
pub open spec fn message_line(msg: ChatModel, translated: bool) -> Seq<StyledModel> {
    let name = shown_name(msg);
    (match badge_of(msg.is_broadcaster, msg.is_mod, msg.is_vip) {
        Some(label) => seq![label, plain_span(" "@)],
        None => Seq::empty(),
    }) + seq![
        span(name, name_ink(name, msg.color), Face::Bold),
        plain_span(": "@),
        if translated {
            span(msg.content, Ink::BrightWhite, Face::Regular)
        } else {
            plain_span(msg.content)
        },
    ]
}

/// The lines before a message.
pub fn display_opening(msg: &ChatMessage, width: usize) -> (r: Vec<Vec<StyledText>>)
    ensures
        r.deep_view() == opening_lines(msg.deep_view(), width as nat),
{
    let first = vec![divider(width)];
    assert(first.deep_view() =~= seq![rule_of('─', width as nat)]);
    let mut lines: Vec<Vec<StyledText>> = Vec::new();
    lines.push(first);
    if let Some(reply) = &msg.reply_to {
        lines.push(display_reply_context(reply));
    }
    assert(lines.deep_view() =~= opening_lines(msg.deep_view(), width as nat));
    lines
}

/// The line of a message.
pub fn display_message(msg: &ChatMessage, translated: bool) -> (r: Vec<StyledText>)
    ensures
        r.deep_view() == message_line(msg.deep_view(), translated),
{
    let mut spans: Vec<StyledText> = Vec::new();
    if let Some(label) = badge(msg.is_broadcaster, msg.is_mod, msg.is_vip) {
        spans.push(label);
        spans.push(StyledText::plain(" "));
    }
    spans.push(colorize_username(display_name(msg), &msg.color));
    spans.push(StyledText::plain(": "));
    if translated {
        spans.push(StyledText::inked(msg.content.as_str(), Ink::BrightWhite, Face::Regular));
    } else {
        spans.push(StyledText::plain(msg.content.as_str()));
    }
    assert(spans.deep_view() =~= message_line(msg.deep_view(), translated));
    spans
}

/// The line of a finalized transcript.
pub open spec fn transcript_line(transcript: Seq<char>) -> Seq<StyledModel> {
    seq![
        label_span("[Audio]"@, Ink::TrueColor(138, 43, 226)),
        plain_span(" "@),
        span(transcript, Ink::BrightWhite, Face::Regular),
    ]
}

/// The line of an error of the transcription.
pub open spec fn audio_error_line(message: Seq<char>) -> Seq<StyledModel> {
    seq![
        label_span("[Audio]"@, Ink::TrueColor(200, 30, 30)),
        plain_span(" "@),
        span(message, Ink::BrightRed, Face::Regular),
    ]
}

/// The line of a finalized transcript.
pub fn display_transcript(transcript: &str) -> (r: Vec<StyledText>)
    ensures
        r.deep_view() == transcript_line(transcript@),
{
    let r = vec![
        StyledText::label("[Audio]", Ink::TrueColor(138, 43, 226)),
        StyledText::plain(" "),
        StyledText::inked(transcript, Ink::BrightWhite, Face::Regular),
    ];
    assert(r.deep_view() =~= transcript_line(transcript@));
    r
}

/// The line of an error of the transcription.
pub fn display_audio_error(message: &str) -> (r: Vec<StyledText>)
    ensures
        r.deep_view() == audio_error_line(message@),
{
    let r = vec![
        StyledText::label("[Audio]", Ink::TrueColor(200, 30, 30)),
        StyledText::plain(" "),
        StyledText::inked(message, Ink::BrightRed, Face::Regular),
    ];
    assert(r.deep_view() =~= audio_error_line(message@));
    r
}

/// The line that is shown while nothing has come yet.
pub fn display_waiting() -> (r: StyledText)
    ensures
        r.deep_view() == span("Waiting for messages..."@, Ink::BrightBlack, Face::Italic),
{
    StyledText::inked("Waiting for messages...", Ink::BrightBlack, Face::Italic)
}

/// The line that is shown after a channel switch.
pub fn display_switched(channel: &str) -> (r: StyledText)
    ensures
        r.deep_view() == span(
            "Switched to #"@ + channel@ + " - waiting for messages..."@,
            Ink::BrightGreen,
            Face::Bold,
        ),
{
    let s = join3("Switched to #", channel, " - waiting for messages...");
    StyledText::inked(s.as_str(), Ink::BrightGreen, Face::Bold)
}

// The header.

/// `n` spaces.
pub open spec fn spaces(n: int) -> Seq<char> {
    Seq::new(n as nat, |i: int| ' ')
}

/// A text in the middle of `width` columns, nearer to the left where the space
/// does not divide evenly.
pub open spec fn centered(s: Seq<char>, width: int) -> Seq<char> {
    let left = (width - s.len()) / 2;
    spaces(left) + s + spaces(width - left - s.len())
}

/// A line of the box in which the title stands.
pub open spec fn box_line(left: Seq<char>, middle: Seq<char>, right: Seq<char>) -> Seq<StyledModel> {
    seq![span(left + middle + right, Ink::BrightCyan, Face::Bold)]
}

/// The columns inside the box: one is left free, two hold the borders.
pub open spec fn inner_width(width: int) -> int {
    width - 3
}

/// The line that says which channel is joined.
pub open spec fn connecting_line(channel: Seq<char>) -> Seq<StyledModel> {
    seq![
        span("Connecting to:"@, Ink::BrightYellow, Face::Regular),
        plain_span(" "@),
        span("#"@ + channel, Ink::BrightGreen, Face::Bold),
    ]
}

/// The line that says what is translated.
pub open spec fn mode_line(default_language: Option<Seq<char>>) -> Seq<StyledModel> {
    match default_language {
        Some(lang) => seq![
            span("Mode:"@, Ink::BrightYellow, Face::Regular),
            plain_span(" "@),
            span("Translating ALL messages from"@, Ink::White, Face::Regular),
            plain_span(" "@),
            span(uppercase(lang), Ink::BrightMagenta, Face::Bold),
        ],
        None => seq![
            span("Mode:"@, Ink::BrightYellow, Face::Regular),
            plain_span(" "@),
            span("Auto-detecting non-English messages"@, Ink::White, Face::Regular),
        ],
    }
}

/// What is shown first: the title in a box, the channel and the mode.
pub open spec fn header_lines(
    width: int,
    channel: Seq<char>,
    default_language: Option<Seq<char>>,
) -> Seq<Seq<StyledModel>> {
    let inner = inner_width(width);
    let bar = Seq::new(inner as nat, |i: int| '═');
    seq![
        Seq::empty(),
        box_line("╔"@, bar, "╗"@),
        box_line("║"@, centered(TITLE@, inner), "║"@),
        box_line("║"@, centered(SUBTITLE@, inner), "║"@),
        box_line("╚"@, bar, "╝"@),
        Seq::empty(),
        connecting_line(channel),
        mode_line(default_language),
        Seq::empty(),
    ]
}

/// Where a header fits: the subtitle and the borders have their columns.
pub open spec fn header_fits(width: int) -> bool {
    inner_width(width) >= SUBTITLE@.len() && inner_width(width) >= TITLE@.len()
}

/// Whether the header fits into a terminal of the given width.
pub fn is_wide_enough(width: usize) -> (r: bool)
    ensures
        r == header_fits(width as int),
{
    let title = chars_of(TITLE);
    let subtitle = chars_of(SUBTITLE);
    width >= 3 && width - 3 >= subtitle.len() && width - 3 >= title.len()
}

fn center(s: &str, width: usize) -> (r: String)
    requires
        s@.len() <= width,
    ensures
        r@ == centered(s@, width as int),
{
    let chars = chars_of(s);
    let left: usize = (width - chars.len()) / 2;
    let right: usize = width - left - chars.len();
    let before = repeated(' ', left);
    let after = repeated(' ', right);
    assert(before@ =~= spaces(left as int));
    assert(after@ =~= spaces(right as int));
    join3(before.as_str(), s, after.as_str())
}

fn boxed(left: &str, middle: &str, right: &str) -> (r: Vec<StyledText>)
    ensures
        r.deep_view() == box_line(left@, middle@, right@),
{
    let s = join3(left, middle, right);
    let r = vec![StyledText::inked(s.as_str(), Ink::BrightCyan, Face::Bold)];
    assert(r.deep_view() =~= box_line(left@, middle@, right@));
    r
}

fn show_channel(channel: &str) -> (r: Vec<StyledText>)
    ensures
        r.deep_view() == connecting_line(channel@),
{
    let name = join2("#", channel);
    let r = vec![
        StyledText::inked("Connecting to:", Ink::BrightYellow, Face::Regular),
        StyledText::plain(" "),
        StyledText::inked(name.as_str(), Ink::BrightGreen, Face::Bold),
    ];
    assert(r.deep_view() =~= connecting_line(channel@));
    r
}

fn show_mode(default_language: &Option<String>) -> (r: Vec<StyledText>)
    ensures
        r.deep_view() == mode_line(default_language.deep_view()),
{
    let r = match default_language {
        Some(lang) => {
            let upper = lang.as_str().to_uppercase();
            vec![
                StyledText::inked("Mode:", Ink::BrightYellow, Face::Regular),
                StyledText::plain(" "),
                StyledText::inked("Translating ALL messages from", Ink::White, Face::Regular),
                StyledText::plain(" "),
                StyledText::inked(upper.as_str(), Ink::BrightMagenta, Face::Bold),
            ]
        },
        None => vec![
            StyledText::inked("Mode:", Ink::BrightYellow, Face::Regular),
            StyledText::plain(" "),
            StyledText::inked("Auto-detecting non-English messages", Ink::White, Face::Regular),
        ],
    };
    assert(r.deep_view() =~= mode_line(default_language.deep_view()));
    r
}

/// What is shown first, in a terminal of the given width.
pub fn display_header(width: usize, channel: &str, default_language: &Option<String>) -> (r: Vec<
    Vec<StyledText>,
>)
    requires
        header_fits(width as int),
    ensures
        r.deep_view() == header_lines(width as int, channel@, default_language.deep_view()),
{
    let inner: usize = width - 3;
    let bar = repeated('═', inner);
    let title = center(TITLE, inner);
    let subtitle = center(SUBTITLE, inner);
    let mut lines: Vec<Vec<StyledText>> = Vec::new();
    lines.push(Vec::new());
    lines.push(boxed("╔", bar.as_str(), "╗"));
    lines.push(boxed("║", title.as_str(), "║"));
    lines.push(boxed("║", subtitle.as_str(), "║"));
    lines.push(boxed("╚", bar.as_str(), "╝"));
    lines.push(Vec::new());
    lines.push(show_channel(channel));
    lines.push(show_mode(default_language));
    lines.push(Vec::new());
    proof {
        let expected = header_lines(width as int, channel@, default_language.deep_view());
        assert(bar@ =~= Seq::new(inner as nat, |i: int| '═'));
        assert(lines@[0].deep_view() =~= expected[0]);
        assert(lines@[5].deep_view() =~= expected[5]);
        assert(lines@[8].deep_view() =~= expected[8]);
        assert(lines.deep_view() =~= expected);
    }
    lines
}

/// Every line of the box around the title takes up the terminal but for one
/// column.
pub proof fn law_box_fits_the_terminal(
    width: int,
    channel: Seq<char>,
    default_language: Option<Seq<char>>,
    i: int,
)
    requires
        header_fits(width),
        1 <= i <= 4,
    ensures
        header_lines(width, channel, default_language)[i].len() == 1,
        header_lines(width, channel, default_language)[i][0].text.len() == width - 1,
{
    reveal_strlit("╔");
    reveal_strlit("╗");
    reveal_strlit("║");
    reveal_strlit("╚");
    reveal_strlit("╝");
    let inner = inner_width(width);
    assert(centered(TITLE@, inner).len() == inner);
    assert(centered(SUBTITLE@, inner).len() == inner);
}

// What the lines say.

proof fn lemma_text_of_three(a: StyledModel, b: StyledModel, c: StyledModel)
    ensures
        shown_text(seq![a, b, c]) == a.text + b.text + c.text,
{
    reveal_with_fuel(shown_text, 4);
    let all = seq![a, b, c];
    assert(all.drop_last() =~= seq![a, b]);
    assert(seq![a, b].drop_last() =~= seq![a]);
    assert(seq![a].drop_last() =~= Seq::<StyledModel>::empty());
    assert(shown_text(seq![a]) =~= a.text);
}

proof fn lemma_text_of_two(a: StyledModel, b: StyledModel)
    ensures
        shown_text(seq![a, b]) == a.text + b.text,
{
    reveal_with_fuel(shown_text, 3);
    assert(seq![a, b].drop_last() =~= seq![a]);
    assert(seq![a].drop_last() =~= Seq::<StyledModel>::empty());
    assert(shown_text(seq![a]) =~= a.text);
}

/// The line of a message says who wrote it and what, after the badge of the
/// highest rank that the user has.
pub proof fn law_message_line_says_who_and_what(msg: ChatModel, translated: bool)
    ensures
        ({
            let name = if msg.display_name is Some {
                msg.display_name->0
            } else {
                msg.username
            };
            shown_text(message_line(msg, translated)) == (if msg.is_broadcaster {
                "[B] "@
            } else if msg.is_mod {
                "[M] "@
            } else if msg.is_vip {
                "[V] "@
            } else {
                ""@
            }) + name + ": "@ + msg.content
        }),
{
    reveal_strlit("[B] ");
    reveal_strlit("[M] ");
    reveal_strlit("[V] ");
    reveal_strlit("[B]");
    reveal_strlit("[M]");
    reveal_strlit("[V]");
    reveal_strlit(" ");
    reveal_strlit("");
    let line = message_line(msg, translated);
    let n = line.len() - 3;
    let head = line.take(n);
    let tail = line.skip(n);
    assert(line =~= head + tail);
    law_shown_text_adds_up(head, tail);
    assert(tail =~= seq![line[n], line[n + 1], line[n + 2]]);
    lemma_text_of_three(line[n], line[n + 1], line[n + 2]);
    if let Some(label) = badge_of(msg.is_broadcaster, msg.is_mod, msg.is_vip) {
        assert(head =~= seq![label, plain_span(" "@)]);
        lemma_text_of_two(label, plain_span(" "@));
        assert("[B]"@ + " "@ =~= "[B] "@);
        assert("[M]"@ + " "@ =~= "[M] "@);
        assert("[V]"@ + " "@ =~= "[V] "@);
    } else {
        assert(head =~= Seq::<StyledModel>::empty());
        assert(shown_text(head) =~= ""@);
    }
    let name = if msg.display_name is Some {
        msg.display_name->0
    } else {
        msg.username
    };
    let badge = shown_text(head);
    assert(badge + (name + ": "@ + msg.content) =~= badge + name + ": "@ + msg.content);
}

/// The name in the line of a message has the user's color, and the content
/// stands out exactly where it was translated.
pub proof fn law_message_line_has_the_users_color(msg: ChatModel, translated: bool)
    ensures
        ({
            let line = message_line(msg, translated);
            let n = line.len() as int;
            &&& n >= 3
            &&& line[n - 3].ink == Some(name_ink(line[n - 3].text, msg.color))
            &&& line[n - 3].text == shown_name(msg)
            &&& line[n - 1].text == msg.content
            &&& line[n - 1].ink == if translated {
                Some(Ink::BrightWhite)
            } else {
                None
            }
        }),
{
}

/// A translation that says something new is shown with its language, after the
/// romanization of the text where there is one: the one that came with the
/// translation unless it is empty, else the transliteration of a text beyond
/// ASCII.
pub proof fn law_translation_is_shown(
    text: Seq<char>,
    lang_name: Option<Seq<char>>,
    result: TranslationModel,
    transliterated: Seq<char>,
)
    requires
        lowercase(trimmed(result.translation)) != lowercase(trimmed(text)),
    ensures
        ({
            let lines = translation_lines(text, lang_name, result, transliterated);
            let given = result.romanization is Some && result.romanization->0.len() > 0;
            &&& 1 <= lines.len() <= 2
            &&& shown_text(lines.last()) == "  ↳ ["@ + (if lang_name is Some {
                lang_name->0
            } else {
                "?"@
            }) + "] "@ + result.translation
            &&& given ==> lines.len() == 2 && shown_text(lines[0]) == "  ♪ "@
                + result.romanization->0
            &&& !given && lines.len() == 2 ==> shown_text(lines[0]) == "  ♪ "@ + transliterated
            &&& !given ==> (lines.len() == 2 <==> !is_ascii_chars(text) && transliterated.len() > 0
                && transliterated != text)
        }),
{
    reveal_strlit("  ");
    reveal_strlit("♪");
    reveal_strlit("↳");
    reveal_strlit(" ");
    reveal_strlit("[");
    reveal_strlit("]");
    reveal_strlit("  ↳ [");
    reveal_strlit("] ");
    reveal_strlit("  ♪ ");
    let rom = if result.romanization is Some && result.romanization->0.len() > 0 {
        result.romanization->0
    } else {
        transliterated
    };
    let upper = romanization_line(rom);
    assert(upper =~= seq![upper[0], upper[1]] + seq![upper[2], upper[3]]);
    law_shown_text_adds_up(seq![upper[0], upper[1]], seq![upper[2], upper[3]]);
    lemma_text_of_two(upper[0], upper[1]);
    lemma_text_of_two(upper[2], upper[3]);
    assert("  "@ + "♪"@ + (" "@ + rom) =~= "  ♪ "@ + rom);
    let line = translation_line(lang_name, result.translation);
    let name = if lang_name is Some {
        lang_name->0
    } else {
        "?"@
    };
    assert(line =~= seq![line[0], line[1], line[2]] + seq![line[3], line[4], line[5]]);
    law_shown_text_adds_up(seq![line[0], line[1], line[2]], seq![line[3], line[4], line[5]]);
    lemma_text_of_three(line[0], line[1], line[2]);
    lemma_text_of_three(line[3], line[4], line[5]);
    assert("  "@ + "↳"@ + " "@ + ("["@ + name + "]"@ + " "@ + result.translation) =~= "  ↳ ["@
        + name + "] "@ + result.translation);
}

/// The line above a reply says whom it answers and how that message begins.
pub proof fn law_reply_line_says_whom_it_answers(reply: ReplyModel)
    ensures
        ({
            let body = reply.parent_msg_body;
            shown_text(reply_line(reply)) == "  ┌─ replying to "@ + reply.parent_display_name
                + " \""@ + (if body.len() <= 50 {
                body
            } else {
                body.take(50) + seq!['.', '.', '.']
            }) + "\""@
        }),
{
    law_previews_are_short(reply.parent_msg_body);
    reveal_strlit("  ");
    reveal_strlit(" ");
    reveal_strlit("\"");
    reveal_strlit(" \"");
    reveal_strlit("┌─ replying to");
    reveal_strlit("  ┌─ replying to ");
    let line = reply_line(reply);
    let name = reply.parent_display_name;
    let start = preview(reply.parent_msg_body);
    assert(line =~= seq![line[0], line[1], line[2]] + seq![line[3], line[4], line[5]]);
    law_shown_text_adds_up(seq![line[0], line[1], line[2]], seq![line[3], line[4], line[5]]);
    lemma_text_of_three(line[0], line[1], line[2]);
    lemma_text_of_three(line[3], line[4], line[5]);
    assert("  "@ + "┌─ replying to"@ + " "@ + (name + " "@ + ("\""@ + start + "\""@))
        =~= "  ┌─ replying to "@ + name + " \""@ + start + "\""@);
}

/// Before a message stands a divider, and between the two the message that it
/// answers, where it is a reply.
pub proof fn law_replies_show_their_parent(msg: ChatModel, width: nat)
    ensures
        opening_lines(msg, width).len() == if msg.reply_to is Some {
            2nat
        } else {
            1nat
        },
        opening_lines(msg, width)[0] == seq![rule_of('─', width)],
        msg.reply_to matches Some(reply) ==> opening_lines(msg, width)[1] == reply_line(reply),
{
}

/// The lines of transcripts and of their errors say what they are about.
pub proof fn law_audio_lines_say_what_was_heard(s: Seq<char>)
    ensures
        shown_text(transcript_line(s)) == "[Audio] "@ + s,
        shown_text(audio_error_line(s)) == "[Audio] "@ + s,
        transcript_line(s)[0] != audio_error_line(s)[0],
{
    reveal_strlit("[Audio]");
    reveal_strlit(" ");
    reveal_strlit("[Audio] ");
    let a = transcript_line(s);
    let b = audio_error_line(s);
    lemma_text_of_three(a[0], a[1], a[2]);
    lemma_text_of_three(b[0], b[1], b[2]);
    assert("[Audio]"@ + " "@ + s =~= "[Audio] "@ + s);
    assert(a[0].ground != b[0].ground);
}

/// A divider is one character over and over, one column short of the terminal.
pub proof fn law_dividers_span_the_terminal(c: char, width: nat)
    ensures
        width > 0 ==> rule_of(c, width).text.len() == width - 1,
        width == 0 ==> rule_of(c, width).text.len() == 0,
        forall|i: int| 0 <= i < rule_of(c, width).text.len() ==> rule_of(c, width).text[i] == c,
{
}

/// A text in the middle stands there whole, between spaces alone, at most one
/// more of them on its right than on its left.
pub proof fn law_centered_text_stands_in_the_middle(s: Seq<char>, width: int)
    requires
        s.len() <= width,
    ensures
        exists|left: nat, right: nat|
            #![trigger spaces(left as int), spaces(right as int)]
            left + s.len() + right == width && (right == left || right == left + 1) && centered(
                s,
                width,
            ) == Seq::new(left, |i: int| ' ') + s + Seq::new(right, |i: int| ' '),
{
    let left = ((width - s.len()) / 2) as nat;
    let right = (width - left - s.len()) as nat;
    assert(spaces(left as int) =~= Seq::new(left, |i: int| ' '));
    assert(spaces(right as int) =~= Seq::new(right, |i: int| ' '));
    assert(centered(s, width) =~= Seq::new(left, |i: int| ' ') + s + Seq::new(
        right,
        |i: int| ' ',
    ));
}

/// The header fits where its longest line does, with two borders and one column
/// to spare, and says which channel is joined and what is translated.
pub proof fn law_header_says_what_is_done(
    width: int,
    channel: Seq<char>,
    default_language: Option<Seq<char>>,
)
    ensures
        header_fits(width) <==> width >= 46,
        header_lines(width, channel, default_language).len() == 9,
        header_lines(width, channel, default_language)[2][0].text == "║"@ + centered(
            "Twitch Chat Translator"@,
            width - 3,
        ) + "║"@,
        header_lines(width, channel, default_language)[3][0].text == "║"@ + centered(
            "Translating non-English messages to English"@,
            width - 3,
        ) + "║"@,
        shown_text(header_lines(width, channel, default_language)[6]) == "Connecting to: #"@
            + channel,
        shown_text(header_lines(width, channel, default_language)[7]) == if default_language is Some {
            "Mode: Translating ALL messages from "@ + uppercase(default_language->0)
        } else {
            "Mode: Auto-detecting non-English messages"@
        },
{
    reveal_strlit("Translating non-English messages to English");
    reveal_strlit("Twitch Chat Translator");
    reveal_strlit("Connecting to: #");
    reveal_strlit("Connecting to:");
    reveal_strlit("#");
    reveal_strlit(" ");
    reveal_strlit("Mode:");
    reveal_strlit("Translating ALL messages from");
    reveal_strlit("Mode: Translating ALL messages from ");
    reveal_strlit("Auto-detecting non-English messages");
    reveal_strlit("Mode: Auto-detecting non-English messages");
    let a = connecting_line(channel);
    lemma_text_of_three(a[0], a[1], a[2]);
    assert("Connecting to:"@ + " "@ + ("#"@ + channel) =~= "Connecting to: #"@ + channel);
    let b = mode_line(default_language);
    if default_language is Some {
        assert(b =~= seq![b[0], b[1], b[2]] + seq![b[3], b[4]]);
        law_shown_text_adds_up(seq![b[0], b[1], b[2]], seq![b[3], b[4]]);
        lemma_text_of_three(b[0], b[1], b[2]);
        lemma_text_of_two(b[3], b[4]);
        let lang = uppercase(default_language->0);
        assert("Mode:"@ + " "@ + "Translating ALL messages from"@ + (" "@ + lang)
            =~= "Mode: Translating ALL messages from "@ + lang);
    } else {
        lemma_text_of_three(b[0], b[1], b[2]);
        assert("Mode:"@ + " "@ + "Auto-detecting non-English messages"@
            =~= "Mode: Auto-detecting non-English messages"@);
    }
}

/// A color that is written in hexadecimal, in either case, with or without the
/// `#`, is read back as its three parts.
pub proof fn law_hex_colors_read_back(r: u8, g: u8, b: u8)
    ensures
        ({
            let upper = seq![
                hex_digit(r as int / 16),
                hex_digit(r as int % 16),
                hex_digit(g as int / 16),
                hex_digit(g as int % 16),
                hex_digit(b as int / 16),
                hex_digit(b as int % 16),
            ];
            &&& color_of(seq!['#'] + upper) == Some((r, g, b))
            &&& color_of(upper) == Some((r, g, b))
            &&& color_of(seq!['#'] + ascii_lowered(upper)) == Some((r, g, b))
            &&& color_of(ascii_lowered(upper)) == Some((r, g, b))
        }),
{
    let upper = seq![
        hex_digit(r as int / 16),
        hex_digit(r as int % 16),
        hex_digit(g as int / 16),
        hex_digit(g as int % 16),
        hex_digit(b as int / 16),
        hex_digit(b as int % 16),
    ];
    lemma_hex_digits(r as int / 16);
    lemma_hex_digits(r as int % 16);
    lemma_hex_digits(g as int / 16);
    lemma_hex_digits(g as int % 16);
    lemma_hex_digits(b as int / 16);
    lemma_hex_digits(b as int % 16);
    lemma_color_read(upper, r, g, b);
    let lower = ascii_lowered(upper);
    assert(lower =~= seq![
        ascii_lower(upper[0]),
        ascii_lower(upper[1]),
        ascii_lower(upper[2]),
        ascii_lower(upper[3]),
        ascii_lower(upper[4]),
        ascii_lower(upper[5]),
    ]);
    lemma_color_read(lower, r, g, b);
}

proof fn lemma_hex_digits(d: int)
    requires
        0 <= d < 16,
    ensures
        (hex_digit(d) as u32) < 0x80,
        hex_digit(d) != '#',
        hex_value(hex_digit(d) as u8) == Some(d),
        (ascii_lower(hex_digit(d)) as u32) < 0x80,
        ascii_lower(hex_digit(d)) != '#',
        hex_value(ascii_lower(hex_digit(d)) as u8) == Some(d),
{
}

proof fn lemma_color_read(s: Seq<char>, r: u8, g: u8, b: u8)
    requires
        s.len() == 6,
        is_ascii_chars(s),
        s[0] != '#',
        hex_value(s[0] as u8) == Some(r as int / 16),
        hex_value(s[1] as u8) == Some(r as int % 16),
        hex_value(s[2] as u8) == Some(g as int / 16),
        hex_value(s[3] as u8) == Some(g as int % 16),
        hex_value(s[4] as u8) == Some(b as int / 16),
        hex_value(s[5] as u8) == Some(b as int % 16),
    ensures
        color_of(s) == Some((r, g, b)),
        color_of(seq!['#'] + s) == Some((r, g, b)),
{
    is_ascii_chars_encode_utf8(s);
    assert((seq!['#'] + s).skip(1) =~= s);
    assert(without_leading(s, '#') == s);
    assert(without_leading(seq!['#'] + s, '#') == s);
}

/// A color has six digits and no other characters but plus signs: a text with
/// anything else behind its `#` is none.
pub proof fn law_other_texts_are_no_colors(hex: Seq<char>, i: int)
    requires
        0 <= i < encode_utf8(without_leading(hex, '#')).len(),
        hex_value(encode_utf8(without_leading(hex, '#'))[i]) is None,
        encode_utf8(without_leading(hex, '#'))[i] != 0x2b,
    ensures
        color_of(hex) is None,
{
}

/// A color has exactly six digits behind its `#`.
pub proof fn law_colors_have_six_digits(hex: Seq<char>)
    ensures
        color_of(hex) is Some ==> encode_utf8(without_leading(hex, '#')).len() == 6,
{
}

/// A name has the color that its user has chosen, where that is a color; else
/// one of its own that is the same every time.
pub proof fn law_chosen_colors_are_used(name: Seq<char>, color: Option<Seq<char>>)
    ensures
        color matches Some(hex) ==> (color_of(hex) matches Some((r, g, b)) ==> name_ink(name, color)
            == Ink::TrueColor(r, g, b)),
        color is None || color_of(color->0) is None ==> name_ink(name, color) == name_ink(
            name,
            None,
        ),
{
}

/// The twelve colors that names have by themselves.
pub open spec fn name_colors() -> Seq<(u8, u8, u8)> {
    seq![
        (255, 0, 0),
        (0, 255, 0),
        (0, 0, 255),
        (255, 255, 0),
        (255, 0, 255),
        (0, 255, 255),
        (255, 127, 0),
        (127, 255, 0),
        (255, 0, 127),
        (0, 127, 255),
        (127, 0, 255),
        (255, 127, 127),
    ]
}

/// The color that a name has by itself is found by counting through the twelve
/// colors, a step for each unit of each byte: a name of one byte stands at that
/// byte, and a further ASCII character moves on by its code.
pub proof fn law_own_colors_are_counted(name: Seq<char>, c: char, at: int)
    requires
        is_ascii_chars(name),
        (c as u32) < 0x80,
        name.len() < 0x100_0000,
        0 <= at < 12,
        color_by_name(name) == Ink::TrueColor(
            name_colors()[at].0,
            name_colors()[at].1,
            name_colors()[at].2,
        ),
    ensures
        color_by_name(Seq::empty()) == Ink::TrueColor(255, 0, 0),
        ({
            let next = name_colors()[(at + c as u32) % 12];
            color_by_name(name.push(c)) == Ink::TrueColor(next.0, next.1, next.2)
        }),
{
    let more = name.push(c);
    assert(is_ascii_chars(more));
    is_ascii_chars_encode_utf8(name);
    is_ascii_chars_encode_utf8(more);
    let empty = Seq::<char>::empty();
    assert(is_ascii_chars(empty));
    is_ascii_chars_encode_utf8(empty);
    assert(encode_utf8(more) =~= encode_utf8(name).push(c as u8));
    assert(encode_utf8(more).drop_last() =~= encode_utf8(name));
    lemma_byte_sum_is_small(encode_utf8(name));
    let sum = byte_sum(encode_utf8(name)) as int;
    assert(byte_sum(encode_utf8(more)) == sum + c as u32);
    assert(sum % 12 == at);
    assert((sum + c as u32) % 12 == (at + c as u32) % 12);
}

proof fn lemma_byte_sum_is_small(bytes: Seq<u8>)
    ensures
        byte_sum(bytes) <= 255 * bytes.len(),
    decreases bytes.len(),
{
    if bytes.len() > 0 {
        lemma_byte_sum_is_small(bytes.drop_last());
    }
}

} // verus!
