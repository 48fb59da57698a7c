use twitch_translator::display::{
    badge, build_badge_prefix, choose_romanization, colorize_username, display_audio_error,
    display_header, display_message, display_name, display_opening, display_reply_context,
    display_switched, display_transcript, display_translation_result, display_waiting, divider,
    get_romanization, get_terminal_width, is_wide_enough, is_worth_showing, parse_hex_color,
    show_lines, show_translation_result, thick_divider,
};
use twitch_translator::irc::{ChatMessage, ReplyInfo};
use twitch_translator::style::{render_line, Face, Ink, StyledText};
use twitch_translator::translator::TranslationResult;

fn words(line: &[StyledText]) -> String {
    line.iter().map(|s| s.text.as_str()).collect()
}

fn message() -> ChatMessage {
    ChatMessage {
        username: "user".to_string(),
        content: "привет".to_string(),
        display_name: Some("User".to_string()),
        color: Some("#0A0b0C".to_string()),
        is_mod: true,
        is_broadcaster: false,
        is_vip: true,
        reply_to: Some(ReplyInfo {
            parent_display_name: "Parent".to_string(),
            parent_msg_body: "hi".to_string(),
        }),
    }
}

#[test]
fn test_parse_hex_color_valid() {
    assert_eq!(parse_hex_color("#FF0000"), Some((255, 0, 0)));
    assert_eq!(parse_hex_color("#00FF00"), Some((0, 255, 0)));
    assert_eq!(parse_hex_color("#0000FF"), Some((0, 0, 255)));
    assert_eq!(parse_hex_color("#FFFFFF"), Some((255, 255, 255)));
    assert_eq!(parse_hex_color("#000000"), Some((0, 0, 0)));
    assert_eq!(parse_hex_color("#ff5500"), Some((255, 85, 0)));
}

#[test]
fn test_parse_hex_color_without_hash() {
    assert_eq!(parse_hex_color("FF0000"), Some((255, 0, 0)));
}

#[test]
fn test_parse_hex_color_invalid() {
    assert_eq!(parse_hex_color("#FFF"), None); // Too short
    assert_eq!(parse_hex_color("#FFFFFFF"), None); // Too long
    assert_eq!(parse_hex_color(""), None); // Empty
    assert_eq!(parse_hex_color("#GGGGGG"), None); // Invalid hex
}

#[test]
fn hex_pairs_may_have_a_plus_sign() {
    assert_eq!(parse_hex_color("##+F+a0b"), Some((15, 10, 11)));
    assert_eq!(parse_hex_color("-10000"), None);
    assert_eq!(parse_hex_color("+ 0000"), None);
    assert_eq!(parse_hex_color("яяя"), None);
}

#[test]
fn colors_across_characters() {
    for color in ["#aééb", "€€", "00a€", "€€€", "zza€"] {
        assert_eq!(parse_hex_color(color), None);
        let name = colorize_username("a", &Some(color.to_string()));
        assert_eq!(name.ink, Some(Ink::TrueColor(0, 255, 0)));
    }
}

#[test]
fn test_build_badge_prefix_broadcaster() {
    let prefix = build_badge_prefix(true, false, false);
    assert!(prefix.contains("[B]"));
}

#[test]
fn test_build_badge_prefix_moderator() {
    let prefix = build_badge_prefix(false, true, false);
    assert!(prefix.contains("[M]"));
}

#[test]
fn test_build_badge_prefix_vip() {
    let prefix = build_badge_prefix(false, false, true);
    assert!(prefix.contains("[V]"));
}

#[test]
fn test_build_badge_prefix_no_badge() {
    let prefix = build_badge_prefix(false, false, false);
    assert!(prefix.is_empty());
}

#[test]
fn test_build_badge_prefix_broadcaster_takes_precedence() {
    // Broadcaster should take precedence over mod and VIP
    let prefix = build_badge_prefix(true, true, true);
    assert!(prefix.contains("[B]"));
    assert!(!prefix.contains("[M]"));
    assert!(!prefix.contains("[V]"));
}

#[test]
fn badges() {
    let b = badge(true, true, true).unwrap();
    assert_eq!(b.text, "[B]");
    assert_eq!(b.ground, Some(Ink::TrueColor(255, 0, 0)));
    let m = badge(false, true, true).unwrap();
    assert_eq!(m.text, "[M]");
    assert_eq!(m.ground, Some(Ink::TrueColor(0, 173, 3)));
    let v = badge(false, false, true).unwrap();
    assert_eq!(v.text, "[V]");
    assert_eq!(v.ground, Some(Ink::TrueColor(224, 5, 185)));
    assert_eq!(v.ink, Some(Ink::TrueColor(255, 255, 255)));
    assert_eq!(v.face, Face::Bold);
    assert!(badge(false, false, false).is_none());
}

#[test]
fn test_get_romanization_with_google() {
    // Google romanization takes precedence
    let result = get_romanization("привет", Some("privet"));
    assert_eq!(result, Some("privet".to_string()));
}

#[test]
fn test_get_romanization_fallback_to_any_ascii() {
    // Falls back to any_ascii when Google doesn't provide romanization
    let result = get_romanization("привет", None);
    assert!(result.is_some());
    assert_eq!(result, Some("privet".to_string()));
}

#[test]
fn test_get_romanization_empty_google() {
    // Empty Google romanization should trigger fallback
    let result = get_romanization("привет", Some(""));
    assert!(result.is_some());
}

#[test]
fn test_get_romanization_ascii_text() {
    // ASCII text shouldn't get romanization
    let result = get_romanization("hello", None);
    assert_eq!(result, None);
}

#[test]
fn romanization_with_a_transliteration() {
    assert_eq!(choose_romanization("я", None, "ya"), Some("ya".to_string()));
    assert_eq!(choose_romanization("я", Some("ja"), "ya"), Some("ja".to_string()));
    assert_eq!(choose_romanization("я", None, ""), None);
    assert_eq!(choose_romanization("я", None, "я"), None);
    assert_eq!(choose_romanization("a", None, "b"), None);
    assert_eq!(get_romanization("a", Some("b")), Some("b".to_string()));
}

#[test]
fn test_colorize_username_with_color() {
    let colored = colorize_username("TestUser", &Some("#FF0000".to_string()));
    // Just verify it doesn't panic; actual color is hard to test
    assert!(!colored.to_string().is_empty());
}

#[test]
fn test_colorize_username_without_color() {
    let colored = colorize_username("TestUser", &None);
    // Should generate a consistent color based on username hash
    assert!(!colored.to_string().is_empty());
}

#[test]
fn test_colorize_username_consistency() {
    // Same username should produce same color
    let colored1 = colorize_username("TestUser", &None);
    let colored2 = colorize_username("TestUser", &None);
    assert_eq!(colored1.to_string(), colored2.to_string());
}

#[test]
fn names_have_colors_by_their_bytes() {
    // 'a' is 97, and 97 % 12 is 1.
    assert_eq!(colorize_username("a", &None).ink, Some(Ink::TrueColor(0, 255, 0)));
    // 97 + 98 = 195, and 195 % 12 is 3.
    assert_eq!(colorize_username("ab", &None).ink, Some(Ink::TrueColor(255, 255, 0)));
    assert_eq!(colorize_username("", &None).ink, Some(Ink::TrueColor(255, 0, 0)));
    let given = colorize_username("a", &Some("#010203".to_string()));
    assert_eq!(given.ink, Some(Ink::TrueColor(1, 2, 3)));
    assert_eq!(given.face, Face::Bold);
    let unreadable = colorize_username("a", &Some("red".to_string()));
    assert_eq!(unreadable.ink, Some(Ink::TrueColor(0, 255, 0)));
}

#[test]
fn translations_are_shown_with_romanization() {
    let result = TranslationResult { translation: "hello".to_string(), romanization: None };
    let lines = display_translation_result("привет", Some("Russian"), &result);
    assert_eq!(lines.len(), 2);
    assert_eq!(words(&lines[0]), "  ♪ privet");
    assert_eq!(words(&lines[1]), "  ↳ [Russian] hello");
    assert_eq!(lines[1][5].ink, Some(Ink::BrightGreen));
    assert_eq!(lines[1][5].face, Face::Italic);
    let unknown = show_translation_result("я", None, &result, "");
    assert_eq!(unknown.len(), 1);
    assert_eq!(words(&unknown[0]), "  ↳ [?] hello");
}

#[test]
fn translations_that_say_nothing_new_are_not_shown() {
    let same = TranslationResult { translation: " HELLO ".to_string(), romanization: None };
    assert!(display_translation_result("hello", Some("X"), &same).is_empty());
    for (source, translation) in
        [("я", "Я"), ("ПРИВЕТ", "привет"), (" ÉTÉ", "été "), ("ΟΔΟΣ", "οδος")]
    {
        assert!(!is_worth_showing(source, translation));
        let result = TranslationResult {
            translation: translation.to_string(),
            romanization: Some("x".to_string()),
        };
        assert!(display_translation_result(source, Some("X"), &result).is_empty());
    }
    assert!(is_worth_showing("привет", "hello"));
    assert!(is_worth_showing("a b", "ab"));
}

#[test]
fn lines_with_a_translation() {
    let result = TranslationResult { translation: "Я".to_string(), romanization: None };
    let lines = show_lines("я", Some("X"), &result, "ya");
    let shown: Vec<String> = lines.iter().map(|l| words(l)).collect();
    assert_eq!(shown, vec!["  ♪ ya", "  ↳ [X] Я"]);
}

#[test]
fn long_parents_are_cut() {
    let mut reply = ReplyInfo {
        parent_display_name: "Bob".to_string(),
        parent_msg_body: "я".repeat(50),
    };
    let line = display_reply_context(&reply);
    assert_eq!(words(&line), format!("  ┌─ replying to Bob \"{}\"", "я".repeat(50)));
    reply.parent_msg_body = "я".repeat(51);
    let line = display_reply_context(&reply);
    assert_eq!(words(&line), format!("  ┌─ replying to Bob \"{}...\"", "я".repeat(50)));
}

#[test]
fn dividers_leave_one_column_free() {
    assert_eq!(divider(4).text, "───");
    assert_eq!(divider(0).text, "");
    assert_eq!(thick_divider(3).text, "━━");
    assert_eq!(divider(4).ink, Some(Ink::BrightBlack));
    assert_eq!(get_terminal_width(Some(132)), 132);
    assert_eq!(get_terminal_width(None), 80);
}

#[test]
fn messages_on_the_terminal() {
    let msg = message();
    assert_eq!(display_name(&msg), "User");
    let opening = display_opening(&msg, 3);
    assert_eq!(opening.len(), 2);
    assert_eq!(words(&opening[0]), "──");
    assert_eq!(words(&opening[1]), "  ┌─ replying to Parent \"hi\"");
    let line = display_message(&msg, true);
    assert_eq!(words(&line), "[M] User: привет");
    assert_eq!(line[2].ink, Some(Ink::TrueColor(10, 11, 12)));
    assert_eq!(line[4].ink, Some(Ink::BrightWhite));
    assert_eq!(display_message(&msg, false)[4].ink, None);
    let mut plain = message();
    plain.display_name = None;
    plain.is_mod = false;
    plain.is_vip = false;
    plain.reply_to = None;
    assert_eq!(display_opening(&plain, 3).len(), 1);
    assert_eq!(words(&display_message(&plain, false)), "user: привет");
}

#[test]
fn audio_lines() {
    let line = display_transcript("hi");
    assert_eq!(words(&line), "[Audio] hi");
    assert_eq!(line[0].ground, Some(Ink::TrueColor(138, 43, 226)));
    let error = display_audio_error("bad");
    assert_eq!(words(&error), "[Audio] bad");
    assert_eq!(error[0].ground, Some(Ink::TrueColor(200, 30, 30)));
    assert_eq!(error[2].ink, Some(Ink::BrightRed));
}

#[test]
fn notices() {
    assert_eq!(display_waiting().text, "Waiting for messages...");
    assert_eq!(display_switched("abc").text, "Switched to #abc - waiting for messages...");
    assert_eq!(display_switched("abc").ink, Some(Ink::BrightGreen));
}

#[test]
fn header_fills_the_terminal() {
    assert!(is_wide_enough(46));
    assert!(!is_wide_enough(45));
    assert!(!is_wide_enough(0));
    let lines = display_header(50, "abc", &None);
    assert_eq!(lines.len(), 9);
    assert!(lines[0].is_empty() && lines[5].is_empty() && lines[8].is_empty());
    assert_eq!(words(&lines[1]), format!("╔{}╗", "═".repeat(47)));
    assert_eq!(
        words(&lines[2]),
        format!("║{}Twitch Chat Translator{}║", " ".repeat(12), " ".repeat(13))
    );
    assert_eq!(
        words(&lines[3]),
        "║  Translating non-English messages to English  ║"
    );
    assert_eq!(words(&lines[4]), format!("╚{}╝", "═".repeat(47)));
    assert_eq!(words(&lines[6]), "Connecting to: #abc");
    assert_eq!(words(&lines[7]), "Mode: Auto-detecting non-English messages");
    let forced = display_header(50, "abc", &Some("ru".to_string()));
    assert_eq!(words(&forced[7]), "Mode: Translating ALL messages from RU");
}

#[test]
fn lines_hold_their_texts() {
    let line = display_message(&message(), true);
    let shown = render_line(&line);
    for part in ["[M]", "User", ": ", "привет"] {
        assert!(shown.contains(part));
    }
}
