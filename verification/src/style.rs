//! Text with terminal colors.

use crate::number::decimal;
use crate::text::{has_word, word_at};
use colored::{Color, ColoredString, Colorize};
use vstd::prelude::*;

verus! {

/// A color of the terminal.
#[derive(Debug, Clone, Copy, PartialEq, Eq, Structural)]
pub enum Ink {
    White,
    BrightBlack,
    BrightRed,
    BrightGreen,
    BrightYellow,
    BrightBlue,
    BrightMagenta,
    BrightCyan,
    BrightWhite,
    /// A color by its red, green and blue parts.
    TrueColor(u8, u8, u8),
}

/// The face of the letters.
#[derive(Debug, Clone, Copy, PartialEq, Eq, Structural)]
pub enum Face {
    Regular,
    Bold,
    Dimmed,
    Italic,
}

/// A text with its colors.
#[derive(Debug, Clone)]
pub struct StyledText {
    /// The text.
    pub text: String,
    /// The color of the letters, if not the terminal's own.
    pub ink: Option<Ink>,
    /// The color behind the letters, if not the terminal's own.
    pub ground: Option<Ink>,
    /// The face of the letters.
    pub face: Face,
}

/// What a [`StyledText`] holds.
pub struct StyledModel {
    pub text: Seq<char>,
    pub ink: Option<Ink>,
    pub ground: Option<Ink>,
    pub face: Face,
}

impl DeepView for StyledText {
    type V = StyledModel;

    open spec fn deep_view(&self) -> StyledModel {
        StyledModel { text: self.text@, ink: self.ink, ground: self.ground, face: self.face }
    }
}

/// A text in the terminal's own colors.
pub open spec fn plain_span(text: Seq<char>) -> StyledModel {
    StyledModel { text, ink: None, ground: None, face: Face::Regular }
}

/// A text in the given color and face.
pub open spec fn span(text: Seq<char>, ink: Ink, face: Face) -> StyledModel {
    StyledModel { text, ink: Some(ink), ground: None, face }
}

/// A bold text in white on the given color.
pub open spec fn label_span(text: Seq<char>, ground: Ink) -> StyledModel {
    StyledModel {
        text,
        ink: Some(Ink::TrueColor(255, 255, 255)),
        ground: Some(ground),
        face: Face::Bold,
    }
}

/// The red, green and blue parts of the sixteen plain colors, in the order of
/// their codes.
pub open spec fn palette() -> Seq<(int, int, int)> {
    seq![
        (0, 0, 0),
        (205, 0, 0),
        (0, 205, 0),
        (205, 205, 0),
        (0, 0, 238),
        (205, 0, 205),
        (0, 205, 205),
        (229, 229, 229),
        (127, 127, 127),
        (255, 0, 0),
        (0, 255, 0),
        (255, 255, 0),
        (92, 92, 255),
        (255, 0, 255),
        (0, 255, 255),
        (255, 255, 255),
    ]
}

/// The code of a plain color as letter color.
pub open spec fn plain_code(i: int) -> int {
    if i < 8 {
        30 + i
    } else {
        82 + i
    }
}

/// The square of the distance between a plain color and a true color.
pub open spec fn distance(i: int, parts: (u8, u8, u8)) -> int {
    let (r, g, b) = palette()[i];
    (r - parts.0) * (r - parts.0) + (g - parts.1) * (g - parts.1) + (b - parts.2) * (b - parts.2)
}

/// The plain color that is nearest to a true color, the first one of several.
pub open spec fn is_nearest(i: int, parts: (u8, u8, u8)) -> bool {
    &&& 0 <= i < palette().len()
    &&& forall|j: int|
        0 <= j < palette().len() ==> distance(i, parts) <= #[trigger] distance(j, parts) && (j < i
            ==> distance(i, parts) < distance(j, parts))
}

/// The plain color that stands for a color where there are no true colors; it
/// is of no account unless the color is a true one.
pub open spec fn stands_for(i: int, ink: Option<Ink>) -> bool {
    ink matches Some(Ink::TrueColor(r, g, b)) ==> is_nearest(i, (r, g, b))
}

/// The parameters of the control sequence for a color: the letter color by
/// codes from 30 and 90 and by `38`, the color behind by codes that are ten
/// higher. A terminal without true colors gets the code of the plain color
/// `nearest` for them.
pub open spec fn color_params(ink: Ink, behind: bool, true_colors: bool, nearest: int) -> Seq<char> {
    let shift: int = if behind {
        10
    } else {
        0
    };
    match ink {
        Ink::White => decimal((37 + shift) as nat),
        Ink::BrightBlack => decimal((90 + shift) as nat),
        Ink::BrightRed => decimal((91 + shift) as nat),
        Ink::BrightGreen => decimal((92 + shift) as nat),
        Ink::BrightYellow => decimal((93 + shift) as nat),
        Ink::BrightBlue => decimal((94 + shift) as nat),
        Ink::BrightMagenta => decimal((95 + shift) as nat),
        Ink::BrightCyan => decimal((96 + shift) as nat),
        Ink::BrightWhite => decimal((97 + shift) as nat),
        Ink::TrueColor(r, g, b) => if true_colors {
            decimal((38 + shift) as nat) + ";2;"@ + decimal(r as nat) + ";"@ + decimal(g as nat)
                + ";"@ + decimal(b as nat)
        } else {
            decimal((plain_code(nearest) + shift) as nat)
        },
    }
}

/// The parameter for a face.
pub open spec fn face_params(face: Face) -> Seq<char> {
    match face {
        Face::Regular => Seq::empty(),
        Face::Bold => "1"@,
        Face::Dimmed => "2"@,
        Face::Italic => "3"@,
    }
}

/// Two lists of parameters as one.
pub open spec fn joined_params(a: Seq<char>, b: Seq<char>) -> Seq<char> {
    if a.len() == 0 {
        b
    } else if b.len() == 0 {
        a
    } else {
        a + ";"@ + b
    }
}

/// The parameters for an optional color.
pub open spec fn optional_params(
    ink: Option<Ink>,
    behind: bool,
    true_colors: bool,
    nearest: int,
) -> Seq<char> {
    match ink {
        Some(i) => color_params(i, behind, true_colors, nearest),
        None => Seq::empty(),
    }
}

/// The control sequence that starts a style: the face, then the color behind
/// the letters, then the color of the letters.
pub open spec fn opening(
    s: StyledModel,
    true_colors: bool,
    nearest_ground: int,
    nearest_ink: int,
) -> Seq<char> {
    "\x1b["@ + joined_params(
        joined_params(
            face_params(s.face),
            optional_params(s.ground, true, true_colors, nearest_ground),
        ),
        optional_params(s.ink, false, true_colors, nearest_ink),
    ) + "m"@
}

/// The control sequence that ends a style.
pub open spec fn reset() -> Seq<char> {
    "\x1b[0m"@
}

/// A text with the style started again after each reset inside it.
pub open spec fn reopened(text: Seq<char>, open: Seq<char>) -> Seq<char>
    decreases text.len(),
{
    if text.len() == 0 {
        text
    } else if word_at(text, reset(), 0) && reset().len() > 0 {
        reset() + open + reopened(text.skip(reset().len() as int), open)
    } else {
        seq![text[0]] + reopened(text.skip(1), open)
    }
}

/// A styled text between its control sequences.
pub open spec fn painted(
    s: StyledModel,
    true_colors: bool,
    nearest_ground: int,
    nearest_ink: int,
) -> Seq<char> {
    let open = opening(s, true_colors, nearest_ground, nearest_ink);
    open + reopened(s.text, open) + reset()
}

/// What a styled text may look like on its way to the terminal: the text
/// alone, where colors are off or none is asked for, or the text between its
/// control sequences, with the nearest plain colors where there are no true
/// ones.
pub open spec fn rendering(s: StyledModel, r: Seq<char>) -> bool {
    ||| r == s.text
    ||| {
        &&& s != plain_span(s.text)
        &&& exists|true_colors: bool, nearest_ground: int, nearest_ink: int|
            stands_for(nearest_ground, s.ground) && stands_for(nearest_ink, s.ink) && r
                == #[trigger] painted(s, true_colors, nearest_ground, nearest_ink)
    }
}

/// The display form of a `colored::ColoredString` with the given text, colors
/// and face. Whether there are control sequences, and whether true colors are
/// used in them, depends on the environment (`NO_COLOR`, `CLICOLOR`,
/// `COLORTERM`, the terminal). Without them the plain color at the least distance
/// stands for a true color, the first one of several.
#[verifier::external_body]
fn paint(text: &str, ink: Option<Ink>, ground: Option<Ink>, face: Face) -> (r: String)
    ensures
        rendering(StyledModel { text: text@, ink, ground, face }, r@),
{
    let color = |i: Ink| match i {
        Ink::White => Color::White, Ink::BrightBlack => Color::BrightBlack,
        Ink::BrightRed => Color::BrightRed, Ink::BrightGreen => Color::BrightGreen,
        Ink::BrightYellow => Color::BrightYellow, Ink::BrightBlue => Color::BrightBlue,
        Ink::BrightMagenta => Color::BrightMagenta, Ink::BrightCyan => Color::BrightCyan,
        Ink::BrightWhite => Color::BrightWhite,
        Ink::TrueColor(r, g, b) => Color::TrueColor { r, g, b },
    };
    let mut s = ColoredString::from(text);
    s.fgcolor = ink.map(color);
    s.bgcolor = ground.map(color);
    match face {
        Face::Regular => s, Face::Bold => s.bold(), Face::Dimmed => s.dimmed(), Face::Italic => s.italic(),
    }.to_string()
}

impl StyledText {
    /// A text in the terminal's own colors.
    pub fn plain(text: &str) -> (r: StyledText)
        ensures
            r.deep_view() == plain_span(text@),
    {
        StyledText { text: text.to_string(), ink: None, ground: None, face: Face::Regular }
    }

    /// A text in the given color and face.
    pub fn inked(text: &str, ink: Ink, face: Face) -> (r: StyledText)
        ensures
            r.deep_view() == span(text@, ink, face),
    {
        StyledText { text: text.to_string(), ink: Some(ink), ground: None, face }
    }

    /// A bold text in white on the given color.
    pub fn label(text: &str, ground: Ink) -> (r: StyledText)
        ensures
            r.deep_view() == label_span(text@, ground),
    {
        StyledText {
            text: text.to_string(),
            ink: Some(Ink::TrueColor(255, 255, 255)),
            ground: Some(ground),
            face: Face::Bold,
        }
    }

    /// The text with the control sequences that the terminal is to be given.
    pub fn to_string(&self) -> (r: String)
        ensures
            rendering(self.deep_view(), r@),
    {
        paint(self.text.as_str(), self.ink, self.ground, self.face)
    }
}

/// What a line of styled texts may look like on its way to the terminal.
pub open spec fn line_rendering(spans: Seq<StyledModel>, r: Seq<char>) -> bool
    decreases spans.len(),
{
    if spans.len() == 0 {
        r == Seq::<char>::empty()
    } else {
        exists|head: Seq<char>, tail: Seq<char>|
            line_rendering(spans.drop_last(), head) && rendering(spans.last(), tail) && r
                == #[trigger] (head + tail)
    }
}

/// The text of a line without its colors.
pub open spec fn shown_text(spans: Seq<StyledModel>) -> Seq<char>
    decreases spans.len(),
{
    if spans.len() == 0 {
        Seq::empty()
    } else {
        shown_text(spans.drop_last()) + spans.last().text
    }
}

/// A line of styled texts, one after the other.
pub fn render_line(spans: &Vec<StyledText>) -> (r: String)
    ensures
        line_rendering(spans.deep_view(), r@),
{
    let mut r = String::new();
    let mut i: usize = 0;
    while i < spans.len()
        invariant
            i <= spans@.len(),
            line_rendering(spans.deep_view().take(i as int), r@),
        decreases spans@.len() - i,
    {
        let part = spans[i].to_string();
        let ghost head = r@;
        r.append(part.as_str());
        i += 1;
        proof {
            let all = spans.deep_view();
            assert(all.take(i as int).drop_last() =~= all.take(i - 1));
            assert(all.take(i as int).last() == spans@[i - 1].deep_view());
            assert(r@ == head + part@);
        }
    }
    assert(spans.deep_view().take(i as int) =~= spans.deep_view());
    r
}

pub proof fn lemma_reopened(text: Seq<char>, open: Seq<char>)
    requires
        !text.contains('\x1b'),
    ensures
        reopened(text, open) == text,
    decreases text.len(),
{
    reveal_strlit("\x1b[0m");
    if text.len() > 0 {
        assert(text[0] != '\x1b');
        if word_at(text, reset(), 0) {
            assert(text.subrange(0, 4)[0] == text[0]);
        }
        assert forall|i: int| 0 <= i < text.skip(1).len() implies text.skip(1)[i] != '\x1b' by {
            assert(text[i + 1] != '\x1b');
        }
        lemma_reopened(text.skip(1), open);
        assert(seq![text[0]] + text.skip(1) =~= text);
    }
}

proof fn lemma_nearest_among(n: int, parts: (u8, u8, u8)) -> (i: int)
    requires
        0 < n <= palette().len(),
    ensures
        0 <= i < n,
        forall|j: int|
            0 <= j < n ==> distance(i, parts) <= #[trigger] distance(j, parts) && (j < i
                ==> distance(i, parts) < distance(j, parts)),
    decreases n,
{
    if n == 1 {
        0
    } else {
        let i = lemma_nearest_among(n - 1, parts);
        if distance(n - 1, parts) < distance(i, parts) {
            n - 1
        } else {
            i
        }
    }
}

/// Every true color has exactly one nearest plain color.
pub proof fn law_one_plain_color_is_nearest(parts: (u8, u8, u8))
    ensures
        exists|i: int| #[trigger] is_nearest(i, parts),
        forall|i: int, j: int| #[trigger]
            is_nearest(i, parts) && #[trigger] is_nearest(j, parts) ==> i == j,
{
    let i = lemma_nearest_among(palette().len() as int, parts);
    assert(is_nearest(i, parts));
    assert forall|i: int, j: int| #[trigger]
        is_nearest(i, parts) && #[trigger] is_nearest(j, parts) implies i == j by {
        assert(distance(i, parts) <= distance(j, parts));
        assert(distance(j, parts) <= distance(i, parts));
    }
}

/// However a text without control characters is colored, it is shown whole.
pub proof fn law_colored_text_is_shown(s: StyledModel, r: Seq<char>)
    requires
        !s.text.contains('\x1b'),
        rendering(s, r),
    ensures
        has_word(r, s.text),
{
    if r == s.text {
        assert(r.subrange(0, s.text.len() as int) =~= s.text);
        assert(word_at(r, s.text, 0));
    } else {
        let (t, g, i) = choose|t: bool, g: int, i: int|
            stands_for(g, s.ground) && stands_for(i, s.ink) && r == #[trigger] painted(s, t, g, i);
        let open = opening(s, t, g, i);
        lemma_reopened(s.text, open);
        assert(r.subrange(open.len() as int, (open.len() + s.text.len()) as int) =~= s.text);
        assert(word_at(r, s.text, open.len() as int));
    }
}

/// The text of a line is that of its two parts one after the other.
pub proof fn law_shown_text_adds_up(first: Seq<StyledModel>, second: Seq<StyledModel>)
    ensures
        shown_text(first + second) == shown_text(first) + shown_text(second),
    decreases second.len(),
{
    let all = first + second;
    if second.len() == 0 {
        assert(all =~= first);
        assert(shown_text(first) + shown_text(second) =~= shown_text(first));
    } else {
        law_shown_text_adds_up(first, second.drop_last());
        assert(all.drop_last() =~= first + second.drop_last());
        assert(shown_text(all) =~= shown_text(first) + shown_text(second));
    }
}

} // verus!
