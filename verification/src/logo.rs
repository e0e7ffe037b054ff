//! The logo that is shown at the start.

use crate::style::Color;
use crate::text::{chars_of, push_text};
use crate::ui::overlay;
use crate::ui::overlay::{StyledText, StyledView};
use vstd::prelude::*;

verus! {

/// The colour of the frame.
pub open spec fn frame_color() -> Color {
    Color::Rgb(0, 180, 180)
}

/// The colour of the letters.
pub open spec fn letter_color() -> Color {
    Color::Rgb(0, 255, 255)
}

/// The colour of the small print.
pub open spec fn dim_color() -> Color {
    Color::Rgb(100, 100, 100)
}

/// Line `i` of the letters.
pub open spec fn letters_text(i: int) -> Seq<char> {
    if i == 0 {
        "    ░█████╗░██████╗░░█████╗░"@
    } else if i == 1 {
        "    ██╔══██╗██╔══██╗██╔══██╗"@
    } else if i == 2 {
        "    ██║░░╚═╝██║░░██║██║░░╚═╝"@
    } else if i == 3 {
        "    ██║░░██╗██║░░██║██║░░██╗"@
    } else if i == 4 {
        "    ╚█████╔╝██████╔╝╚█████╔╝"@
    } else {
        "    ░╚════╝░╚═════╝░░╚════╝░"@
    }
}

/// Line `i` of the letters.
fn letters(i: usize) -> (s: &'static str)
    ensures
        s@ == letters_text(i as int),
{
    if i == 0 {
        "    ░█████╗░██████╗░░█████╗░"
    } else if i == 1 {
        "    ██╔══██╗██╔══██╗██╔══██╗"
    } else if i == 2 {
        "    ██║░░╚═╝██║░░██║██║░░╚═╝"
    } else if i == 3 {
        "    ██║░░██╗██║░░██║██║░░██╗"
    } else if i == 4 {
        "    ╚█████╔╝██████╔╝╚█████╔╝"
    } else {
        "    ░╚════╝░╚═════╝░░╚════╝░"
    }
}

/// `s` with spaces behind it, up to `width` characters.
pub open spec fn padded(s: Seq<char>, width: nat) -> Seq<char> {
    if s.len() < width {
        s + Seq::new((width - s.len()) as nat, |i: int| ' ')
    } else {
        s
    }
}

/// Text in a colour.
pub open spec fn tinted(s: Seq<char>, color: Color) -> StyledView {
    overlay::colored(s, color, false)
}

/// The first `n` lines of the letters in the frame.
pub open spec fn framed_letters(n: nat) -> Seq<StyledView>
    decreases n,
{
    if n == 0 {
        seq![]
    } else {
        framed_letters((n - 1) as nat) + seq![
            tinted("  │"@, frame_color()),
            tinted(padded(letters_text(n - 1), 50), letter_color()),
            tinted("│\n"@, frame_color()),
        ]
    }
}

/// The upper end of the logo.
pub open spec fn upper_end() -> Seq<StyledView> {
    seq![
        overlay::unstyled("\n"@),
        tinted("  ╭──────────────────────────────────────────────────╮\n"@, frame_color()),
        tinted("  │                                                  │\n"@, frame_color()),
    ]
}

/// The lower end of the logo, with the name of the assistant that is orchestrated.
pub open spec fn lower_end(assistant: Seq<char>) -> Seq<StyledView> {
    seq![
        tinted("  │                                                  │\n"@, frame_color()),
        tinted("  │"@, frame_color()),
        tinted("    c l a u d e - d e v e l o p m e n t - c l i   "@, dim_color()),
        tinted("│\n"@, frame_color()),
        tinted("  │                                                  │\n"@, frame_color()),
        tinted("  ╰──────────────────────────────────────────────────╯\n"@, frame_color()),
        overlay::unstyled("\n"@),
        tinted("  v0.1.0 · Multi-session "@ + assistant + " orchestrator\n"@, dim_color()),
        tinted("  for GPU-accelerated terminals\n\n"@, dim_color()),
    ]
}

fn push_piece(pieces: &mut Vec<StyledText>, piece: &str, color: Option<Color>)
    ensures
        overlay::piece_views(final(pieces)@) == overlay::piece_views(old(pieces)@).push(
            (StyledView { text: piece@, color, bold: false }),
        ),
{
    let ghost before = overlay::piece_views(pieces@);
    pieces.push(StyledText { text: piece.to_owned(), color, bold: false });
    assert(overlay::piece_views(pieces@) =~= before.push(
        StyledView { text: piece@, color, bold: false },
    ));
}

fn pad(s: &str, width: usize) -> (r: String)
    ensures
        r@ == padded(s@, width as nat),
{
    let mut r = s.to_owned();
    let mut n: usize = chars_of(s).len();
    while n < width
        invariant
            s@.len() <= n,
            n <= width || n == s@.len(),
            r@ == s@ + Seq::new((n - s@.len()) as nat, |i: int| ' '),
        decreases width - n,
    {
        r.push(' ');
        n = n + 1;
        assert(r@ =~= s@ + Seq::new((n - s@.len()) as nat, |i: int| ' '));
    }
    assert(r@ =~= padded(s@, width as nat));
    r
}

/// The pieces of the logo, in the order in which they are printed, with the name of the
/// assistant that is orchestrated.
pub fn logo(assistant: &str) -> (pieces: Vec<StyledText>)
    ensures
        overlay::piece_views(pieces@) == upper_end() + framed_letters(6) + lower_end(assistant@),
{
    let frame = Some(Color::Rgb(0, 180, 180));
    let body = Some(Color::Rgb(0, 255, 255));
    let dim = Some(Color::Rgb(100, 100, 100));
    let mut pieces: Vec<StyledText> = Vec::new();
    push_piece(&mut pieces, "\n", None);
    push_piece(&mut pieces, "  ╭──────────────────────────────────────────────────╮\n", frame);
    push_piece(&mut pieces, "  │                                                  │\n", frame);
    assert(overlay::piece_views(pieces@) =~= upper_end() + framed_letters(0));
    let mut i: usize = 0;
    while i < 6
        invariant
            i <= 6,
            frame == Some(frame_color()),
            body == Some(letter_color()),
            overlay::piece_views(pieces@) == upper_end() + framed_letters(i as nat),
        decreases 6 - i,
    {
        push_piece(&mut pieces, "  │", frame);
        let line = pad(letters(i), 50);
        push_piece(&mut pieces, line.as_str(), body);
        push_piece(&mut pieces, "│\n", frame);
        i = i + 1;
        assert(overlay::piece_views(pieces@) =~= upper_end() + framed_letters(i as nat));
    }
    push_piece(&mut pieces, "  │                                                  │\n", frame);
    push_piece(&mut pieces, "  │", frame);
    push_piece(&mut pieces, "    c l a u d e - d e v e l o p m e n t - c l i   ", dim);
    push_piece(&mut pieces, "│\n", frame);
    push_piece(&mut pieces, "  │                                                  │\n", frame);
    push_piece(&mut pieces, "  ╰──────────────────────────────────────────────────╯\n", frame);
    push_piece(&mut pieces, "\n", None);
    let mut version = "  v0.1.0 · Multi-session ".to_owned();
    push_text(&mut version, assistant);
    push_text(&mut version, " orchestrator\n");
    push_piece(&mut pieces, version.as_str(), dim);
    push_piece(&mut pieces, "  for GPU-accelerated terminals\n\n", dim);
    assert(overlay::piece_views(pieces@) =~= upper_end() + framed_letters(6) + lower_end(assistant@));
    pieces
}

/// Every line of the letters is fifty characters wide in the frame, between two edges, and the
/// letters begin each of them.
pub proof fn letters_fill_the_frame(n: nat, k: int)
    requires
        0 <= k < n <= 6,
    ensures
        framed_letters(n).len() == 3 * n,
        ({
            let line = framed_letters(n)[3 * k + 1].text;
            &&& line.len() == 50
            &&& line.take(28) == letters_text(k)
            &&& forall|i: int| 28 <= i < 50 ==> #[trigger] line[i] == ' '
        }),
        framed_letters(n)[3 * k].text == "  │"@,
        framed_letters(n)[3 * k + 2].text == "│\n"@,
    decreases n,
{
    reveal_strlit("    ░█████╗░██████╗░░█████╗░");
    reveal_strlit("    ██╔══██╗██╔══██╗██╔══██╗");
    reveal_strlit("    ██║░░╚═╝██║░░██║██║░░╚═╝");
    reveal_strlit("    ██║░░██╗██║░░██║██║░░██╗");
    reveal_strlit("    ╚█████╔╝██████╔╝╚█████╔╝");
    reveal_strlit("    ░╚════╝░╚═════╝░░╚════╝░");
    letters_count((n - 1) as nat);
    if k < n - 1 {
        letters_fill_the_frame((n - 1) as nat, k);
    } else {
        let line = padded(letters_text(k), 50);
        assert(line.take(28) =~= letters_text(k));
    }
}

proof fn letters_count(n: nat)
    ensures
        framed_letters(n).len() == 3 * n,
    decreases n,
{
    if n > 0 {
        letters_count((n - 1) as nat);
    }
}

} // verus!
