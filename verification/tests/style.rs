use colored::control::set_override;
use twitch_translator::style::{render_line, Face, Ink, StyledText};

fn text(ink: Option<Ink>, ground: Option<Ink>, face: Face) -> StyledText {
    StyledText { text: "hi".to_string(), ink, ground, face }
}

#[test]
fn styles_become_control_sequences() {
    set_override(true);
    assert_eq!(text(None, None, Face::Regular).to_string(), "hi");
    assert_eq!(text(None, None, Face::Bold).to_string(), "\x1b[1mhi\x1b[0m");
    assert_eq!(
        text(Some(Ink::BrightRed), None, Face::Regular).to_string(),
        "\x1b[91mhi\x1b[0m"
    );
    assert_eq!(
        text(Some(Ink::White), Some(Ink::BrightBlue), Face::Dimmed).to_string(),
        "\x1b[2;104;37mhi\x1b[0m"
    );
    assert_eq!(
        text(Some(Ink::BrightGreen), None, Face::Italic).to_string(),
        "\x1b[3;92mhi\x1b[0m"
    );
}

#[test]
fn every_color_has_its_code() {
    set_override(true);
    let inks = [
        (Ink::White, 37),
        (Ink::BrightBlack, 90),
        (Ink::BrightRed, 91),
        (Ink::BrightGreen, 92),
        (Ink::BrightYellow, 93),
        (Ink::BrightBlue, 94),
        (Ink::BrightMagenta, 95),
        (Ink::BrightCyan, 96),
        (Ink::BrightWhite, 97),
    ];
    for (ink, code) in inks {
        let letters = text(Some(ink), None, Face::Regular).to_string();
        assert_eq!(letters, format!("\x1b[{}mhi\x1b[0m", code));
        let behind = text(None, Some(ink), Face::Regular).to_string();
        assert_eq!(behind, format!("\x1b[{}mhi\x1b[0m", code + 10));
    }
}

#[test]
fn true_colors_or_the_nearest_code() {
    set_override(true);
    let colors = [
        ((1, 20, 255), 34),
        ((0, 0, 0), 30),
        ((255, 255, 255), 97),
        ((0, 173, 3), 32),
        ((224, 5, 185), 35),
        ((100, 100, 250), 94),
        // As far from the darker red as from the brighter one.
        ((230, 0, 0), 31),
    ];
    for ((r, g, b), code) in colors {
        let ink = Some(Ink::TrueColor(r, g, b));
        let letters = text(ink, None, Face::Bold).to_string();
        let behind = text(None, ink, Face::Regular).to_string();
        let whole = letters == format!("\x1b[1;38;2;{};{};{}mhi\x1b[0m", r, g, b)
            && behind == format!("\x1b[48;2;{};{};{}mhi\x1b[0m", r, g, b);
        let nearest = letters == format!("\x1b[1;{}mhi\x1b[0m", code)
            && behind == format!("\x1b[{}mhi\x1b[0m", code + 10);
        assert!(whole || nearest);
    }
}

#[test]
fn styles_go_on_after_an_inner_reset() {
    set_override(true);
    let mut s = text(Some(Ink::BrightRed), None, Face::Regular);
    s.text = "a\x1b[0mb".to_string();
    assert_eq!(s.to_string(), "\x1b[91ma\x1b[0m\x1b[91mb\x1b[0m");
}

#[test]
fn colors_can_be_off() {
    set_override(false);
    assert_eq!(text(Some(Ink::BrightRed), None, Face::Bold).to_string(), "hi");
}

#[test]
fn a_line_is_its_texts_in_order() {
    set_override(true);
    let line = vec![
        StyledText::plain("a "),
        StyledText::inked("b", Ink::BrightCyan, Face::Regular),
        StyledText::plain(" c"),
    ];
    assert_eq!(render_line(&line), "a \x1b[96mb\x1b[0m c");
    assert_eq!(render_line(&Vec::new()), "");
    assert_eq!(StyledText::label("x", Ink::White).ground, Some(Ink::White));
}
