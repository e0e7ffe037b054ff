//! Correction of spoken commands by the orchestrator: the prompt that asks for it, and the
//! corrected text in what is on the screen afterwards.

use crate::pane::extract;
use crate::text;
use crate::text::{
    byte_len_of, chars_of, contains_text, parse_number, push_text, same_chars, split_of,
    starts_with_text, to_text, trim_of,
};
use vstd::prelude::*;

verus! {

/// What a setting in milliseconds means: the number that it holds, else the default.
pub open spec fn setting(value: Option<Seq<char>>, default: u64) -> u64 {
    match value {
        Some(s) => match text::parsed(s, u64::MAX as nat) {
            Some(n) => n as u64,
            None => default,
        },
        None => default,
    }
}

/// The number of a setting, `default` where it is missing or not a number.
fn setting_of(value: &Option<String>, default: u64) -> (ms: u64)
    ensures
        ms == setting(text::opt_text(*value), default),
{
    match value {
        Some(s) => match parse_number(s.as_str()) {
            Some(n) => n,
            None => default,
        },
        None => default,
    }
}

/// Longest wait for a correction, from the setting for it.
pub fn correction_timeout_ms(value: &Option<String>) -> (ms: u64)
    ensures
        ms == setting(text::opt_text(*value), 5000),
{
    setting_of(value, 5000)
}

/// Time without output after which a correction is complete, from the setting for it.
pub fn correction_quiescence_ms(value: &Option<String>) -> (ms: u64)
    ensures
        ms == setting(text::opt_text(*value), 500),
{
    setting_of(value, 500)
}

/// The start of the prompt, up to the spoken command.
pub open spec fn prompt_start() -> Seq<char> {
    "다음 음성 명령의 오타를 보정해서 [CDC_CORRECT] 태그 안에 결과만 출력해: "@
}

/// The line of the prompt behind the spoken command.
pub open spec fn prompt_example() -> Seq<char> {
    "예시: [CDC_CORRECT]보정된 텍스트[/CDC_CORRECT]"@
}

/// The prompt that asks for a correction of `raw`.
pub open spec fn prompt(raw: Seq<char>) -> Seq<char> {
    (prompt_start() + raw).push('\n') + prompt_example()
}

/// The prompt that asks for a correction of a spoken command.
pub fn format_correction_prompt(raw: &str) -> (r: String)
    ensures
        r@ == prompt(raw@),
{
    let mut r = "다음 음성 명령의 오타를 보정해서 [CDC_CORRECT] 태그 안에 결과만 출력해: ".to_owned();
    push_text(&mut r, raw);
    r.push('\n');
    push_text(&mut r, "예시: [CDC_CORRECT]보정된 텍스트[/CDC_CORRECT]");
    r
}

/// Whether a line, without the white space around it, may be a corrected command: it is not
/// short, not the command `raw` itself, not the prompt, and no ornament.
pub open spec fn may_be_correction(line: Seq<char>, raw: Seq<char>) -> bool {
    &&& line.len() > 0
    &&& text::byte_len(line) >= 3
    &&& line != raw
    &&& !(text::holds(line, "음성 명령"@) && text::holds(line, "보정"@))
    &&& !text::holds(line, "[CDC_CORRECT]"@)
    &&& !text::begins_with(line, ">"@)
    &&& !text::begins_with(line, "❯"@)
    &&& !text::begins_with(line, "```"@)
}

/// The last of `lines` that may be a corrected command, without the white space around it.
pub open spec fn last_correction(lines: Seq<Seq<char>>, raw: Seq<char>) -> Option<Seq<char>>
    decreases lines.len(),
{
    if lines.len() == 0 {
        None
    } else if may_be_correction(text::trim(lines.last()), raw) {
        Some(text::trim(lines.last()))
    } else {
        last_correction(lines.drop_last(), raw)
    }
}

/// The corrected command in the text of a screen, found without markers.
pub open spec fn guessed(screen: Seq<char>, raw: Seq<char>) -> Option<Seq<char>> {
    last_correction(text::split_at_char(screen, '\n'), text::trim(raw))
}

/// The corrected command: what stands between the markers, else a line that looks like it,
/// else the command as it was spoken.
pub open spec fn corrected(screen: Seq<char>, raw: Seq<char>) -> Seq<char> {
    match extract::between(screen, "[CDC_CORRECT]"@, "[/CDC_CORRECT]"@) {
        Some(s) => s,
        None => match guessed(screen, raw) {
            Some(s) => s,
            None => raw,
        },
    }
}

fn looks_corrected(line: &Vec<char>, raw: &Vec<char>) -> (r: bool)
    ensures
        r == may_be_correction(line@, raw@),
{
    if line.len() == 0 || byte_len_of(line) < 3 {
        return false;
    }
    if same_chars(line, raw) {
        return false;
    }
    if contains_text(line, "음성 명령") && contains_text(line, "보정") {
        return false;
    }
    if contains_text(line, "[CDC_CORRECT]") {
        return false;
    }
    if starts_with_text(line, ">") || starts_with_text(line, "❯") {
        return false;
    }
    !starts_with_text(line, "```")
}

/// Heuristic extraction: find a line in grid output that looks like a corrected version.
/// Skips lines that match the prompt or are clearly UI chrome.
pub fn heuristic_extract_correction(grid_text: &str, raw_text: &str) -> (r: Option<String>)
    ensures
        text::opt_text(r) == guessed(grid_text@, raw_text@),
{
    let raw = trim_of(&chars_of(raw_text));
    let lines = split_of(&chars_of(grid_text), '\n');
    let ghost all = text::nested(lines@);
    let mut i: usize = lines.len();
    assert(all.take(i as int) =~= all);
    while i > 0
        invariant
            i <= lines.len(),
            raw@ == text::trim(raw_text@),
            all == text::nested(lines@),
            all == text::split_at_char(grid_text@, '\n'),
            last_correction(all.take(i as int), raw@) == last_correction(all, raw@),
        decreases i,
    {
        let line = trim_of(&lines[i - 1]);
        assert(all.take(i as int).drop_last() =~= all.take(i - 1));
        assert(all.take(i as int).last() == lines@[i - 1]@);
        if looks_corrected(&line, &raw) {
            return Some(to_text(&line));
        }
        i = i - 1;
    }
    None
}

/// White space at the end goes, and nothing in front of the last other character.
proof fn trim_end_keeps(s: Seq<char>, i: int)
    requires
        0 <= i < s.len(),
        !text::is_space(s[i]),
    ensures
        i < text::trim_end(s).len() <= s.len(),
        text::trim_end(s) == s.take(text::trim_end(s).len() as int),
    decreases s.len(),
{
    if text::is_space(s.last()) {
        trim_end_keeps(s.drop_last(), i);
        let n = text::trim_end(s).len() as int;
        assert(s.drop_last().take(n) =~= s.take(n));
    } else {
        assert(s.take(s.len() as int) =~= s);
    }
}

proof fn pieces_of_one_line(s: Seq<char>)
    requires
        forall|i: int| 0 <= i < s.len() ==> #[trigger] s[i] != '\n',
    ensures
        text::split_at_char(s, '\n') == seq![s],
    decreases s.len(),
{
    if s.len() == 0 {
        assert(s =~= Seq::empty());
    } else {
        pieces_of_one_line(s.drop_last());
        let before = seq![s.drop_last()];
        assert(s.drop_last().push(s.last()) =~= s);
        assert(before.drop_last().push(before.last().push(s.last())) =~= seq![s]);
    }
}

proof fn pieces_of_two_lines(a: Seq<char>, b: Seq<char>)
    requires
        forall|i: int| 0 <= i < a.len() ==> #[trigger] a[i] != '\n',
        forall|i: int| 0 <= i < b.len() ==> #[trigger] b[i] != '\n',
    ensures
        text::split_at_char(a.push('\n') + b, '\n') == seq![a, b],
    decreases b.len(),
{
    let s = a.push('\n') + b;
    if b.len() == 0 {
        assert(s =~= a.push('\n'));
        assert(s.drop_last() =~= a);
        pieces_of_one_line(a);
        assert(b =~= Seq::empty());
        assert(seq![a].push(b) =~= seq![a, b]);
    } else {
        let c = b.drop_last();
        pieces_of_two_lines(a, c);
        assert(s.drop_last() =~= a.push('\n') + c);
        assert(s.last() == b.last());
        assert(c.push(b.last()) =~= b);
        let before = seq![a, c];
        assert(before.drop_last().push(before.last().push(s.last())) =~= seq![a, b]);
    }
}

/// The prompt itself, where it stands on the screen, is not taken for the correction that it
/// asks for.
pub proof fn prompt_is_no_correction(raw: Seq<char>)
    requires
        forall|i: int| 0 <= i < raw.len() ==> #[trigger] raw[i] != '\n',
    ensures
        guessed(prompt(raw), raw) is None,
{
    reveal_strlit("다음 음성 명령의 오타를 보정해서 [CDC_CORRECT] 태그 안에 결과만 출력해: ");
    reveal_strlit("예시: [CDC_CORRECT]보정된 텍스트[/CDC_CORRECT]");
    reveal_strlit("[CDC_CORRECT]");
    let tag = "[CDC_CORRECT]"@;
    let a = prompt_start() + raw;
    let b = prompt_example();
    pieces_of_two_lines(a, b);
    // The tag stands in both lines, in front of a character that is not white space.
    trim_end_keeps(a, 34);
    assert(text::trim(a) == text::trim_end(a));
    assert(text::trim_end(a).subrange(19, 32) =~= tag);
    assert(text::occurs_at(text::trim(a), tag, 19));
    assert(text::trim(b) == b);
    assert(b.subrange(4, 17) =~= tag);
    assert(text::occurs_at(b, tag, 4));
    reveal_with_fuel(last_correction, 3);
    assert(seq![a, b].drop_last() =~= seq![a]);
}

} // verus!
