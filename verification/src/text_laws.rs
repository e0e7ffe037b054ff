//! Laws of text.

use crate::text;
use vstd::prelude::*;

verus! {

/// Whether `part` stands in `s` with `front` before it.
pub open spec fn stands_behind(s: Seq<char>, part: Seq<char>, front: Seq<char>) -> bool {
    exists|back: Seq<char>| s == #[trigger] (front + part + back)
}

/// Whether `part` stands anywhere in `s`.
pub open spec fn has_inside(s: Seq<char>, part: Seq<char>) -> bool {
    exists|front: Seq<char>| #[trigger] stands_behind(s, part, front)
}

/// A text stands in another one at an index where it does so with that many characters before
/// it.
pub proof fn standing_is_having_a_front(s: Seq<char>, part: Seq<char>, i: int)
    ensures
        text::occurs_at(s, part, i) <==> 0 <= i <= s.len() && stands_behind(s, part, s.take(i)),
{
    if text::occurs_at(s, part, i) {
        let back = s.skip(i + part.len());
        assert(s =~= s.take(i) + part + back);
    }
    if 0 <= i <= s.len() && stands_behind(s, part, s.take(i)) {
        let back = choose|back: Seq<char>| s == #[trigger] (s.take(i) + part + back);
        assert(s.len() == i + part.len() + back.len());
        assert(s.subrange(i, i + part.len()) =~= part) by {
            assert forall|k: int| 0 <= k < part.len() implies s[i + k] == part[k] by {
                assert((s.take(i) + part + back)[i + k] == part[k]);
            }
        }
    }
}

/// A text holds another one where that stands in it, whatever is around it.
pub proof fn holding_is_having_inside(s: Seq<char>, part: Seq<char>)
    ensures
        text::holds(s, part) <==> has_inside(s, part),
{
    if text::holds(s, part) {
        let i = choose|i: int| text::occurs_at(s, part, i);
        standing_is_having_a_front(s, part, i);
        assert(stands_behind(s, part, s.take(i)));
    }
    if has_inside(s, part) {
        let front = choose|front: Seq<char>| #[trigger] stands_behind(s, part, front);
        let back = choose|back: Seq<char>| s == #[trigger] (front + part + back);
        let i = front.len() as int;
        assert(s.take(i) =~= front);
        standing_is_having_a_front(s, part, i);
        assert(text::occurs_at(s, part, i));
    }
}

/// A text begins with another one where something behind that makes it up.
pub proof fn beginning_is_being_continued(start: Seq<char>, rest: Seq<char>, s: Seq<char>)
    ensures
        text::begins_with(start + rest, start),
        text::begins_with(s, start) ==> s == start + s.skip(start.len() as int),
{
    assert((start + rest).subrange(0, start.len() as int) =~= start);
    if text::begins_with(s, start) {
        assert(s =~= start + s.skip(start.len() as int));
    }
}

/// Whether a text is white space throughout.
pub open spec fn all_space(s: Seq<char>) -> bool {
    forall|i: int| 0 <= i < s.len() ==> text::is_space(#[trigger] s[i])
}

/// The white space: tab, line feed, vertical tab, form feed, carriage return and space in ASCII,
/// and beyond it the next line, the no-break spaces, the spaces of typography, the separators of
/// lines and paragraphs, and the ideographic space.
pub proof fn white_space(c: char)
    ensures
        (c as u32) >= 128 ==> (text::is_space(c) <==> c == '\u{85}' || c == '\u{a0}' || c
            == '\u{1680}' || ('\u{2000}' <= c && c <= '\u{200a}') || c == '\u{2028}' || c
            == '\u{2029}' || c == '\u{202f}' || c == '\u{205f}' || c == '\u{3000}'),
        (c as u32) < 128 ==> (text::is_space(c) <==> c == ' ' || c == '\t' || c == '\n' || c
            == '\r' || c as u32 == 11 || c as u32 == 12),
        0xac00 <= c as u32 <= 0xd7a3 ==> !text::is_space(c),
{
}

/// Trimming the end takes white space off the end, all of it, and nothing else.
pub proof fn trimming_the_end(s: Seq<char>)
    ensures
        ({
            let t = text::trim_end(s);
            &&& t.len() <= s.len()
            &&& s == t + s.skip(t.len() as int)
            &&& all_space(s.skip(t.len() as int))
            &&& t.len() > 0 ==> !text::is_space(t.last())
        }),
    decreases s.len(),
{
    let t = text::trim_end(s);
    if s.len() > 0 && text::is_space(s.last()) {
        trimming_the_end(s.drop_last());
        let cut = s.drop_last().skip(t.len() as int);
        assert(s.drop_last() == t + cut);
        assert(s =~= (t + cut).push(s.last()));
        assert(s.skip(t.len() as int) =~= cut.push(s.last()));
        assert(s =~= t + s.skip(t.len() as int));
        assert forall|i: int| 0 <= i < s.skip(t.len() as int).len() implies text::is_space(
            #[trigger] s.skip(t.len() as int)[i],
        ) by {
            if i < cut.len() {
                assert(text::is_space(cut[i]));
            }
        }
    } else {
        assert(s =~= t + s.skip(t.len() as int));
    }
}

proof fn trimming_the_start(s: Seq<char>)
    ensures
        ({
            let t = text::trim_start(s);
            let n = s.len() - t.len();
            &&& n >= 0
            &&& s == s.take(n) + t
            &&& all_space(s.take(n))
            &&& t.len() > 0 ==> !text::is_space(t[0])
        }),
    decreases s.len(),
{
    let t = text::trim_start(s);
    let n = s.len() - t.len();
    if s.len() > 0 && text::is_space(s[0]) {
        trimming_the_start(s.drop_first());
        let cut = s.drop_first().take(n - 1);
        assert(s.drop_first() == cut + t);
        assert(s =~= seq![s[0]] + (cut + t));
        assert(s.take(n) =~= seq![s[0]] + cut);
        assert(s =~= s.take(n) + t);
        assert forall|i: int| 0 <= i < s.take(n).len() implies text::is_space(
            #[trigger] s.take(n)[i],
        ) by {
            if i > 0 {
                assert(text::is_space(cut[i - 1]));
            }
        }
    } else {
        assert(s =~= s.take(n) + t);
    }
}

/// Trimming takes white space off both ends, all of it, and nothing else.
pub proof fn trimming(s: Seq<char>)
    ensures
        ({
            let t = text::trim(s);
            &&& t.len() > 0 ==> !text::is_space(t[0]) && !text::is_space(t.last())
            &&& exists|front: Seq<char>, back: Seq<char>|
                #![trigger all_space(front), all_space(back)]
                s == front + t + back && all_space(front) && all_space(back)
        }),
{
    let e = text::trim_end(s);
    let t = text::trim(s);
    trimming_the_end(s);
    trimming_the_start(e);
    let front = e.take(e.len() - t.len());
    let back = s.skip(e.len() as int);
    assert(all_space(front) && all_space(back));
    assert(s == front + t + back);
    if t.len() > 0 {
        assert(t.last() == e.last());
    }
}

/// Whether a character is not in a text.
pub open spec fn is_free_of(s: Seq<char>, c: char) -> bool {
    forall|i: int| 0 <= i < s.len() ==> #[trigger] s[i] != c
}

/// Texts with a character between them.
pub open spec fn with_between(parts: Seq<Seq<char>>, sep: char) -> Seq<char>
    decreases parts.len(),
{
    if parts.len() == 0 {
        Seq::empty()
    } else if parts.len() == 1 {
        parts[0]
    } else {
        with_between(parts.drop_last(), sep) + seq![sep] + parts.last()
    }
}

/// The pieces of a text hold no separator, and with separators between them they are the text.
pub proof fn splitting(s: Seq<char>, sep: char)
    ensures
        text::split_at_char(s, sep).len() > 0,
        with_between(text::split_at_char(s, sep), sep) == s,
        forall|i: int|
            0 <= i < text::split_at_char(s, sep).len() ==> is_free_of(
                #[trigger] text::split_at_char(s, sep)[i],
                sep,
            ),
    decreases s.len(),
{
    let r = text::split_at_char(s, sep);
    if s.len() == 0 {
        assert(with_between(r, sep) =~= s);
    } else {
        let before = text::split_at_char(s.drop_last(), sep);
        splitting(s.drop_last(), sep);
        if s.last() == sep {
            assert(r.drop_last() =~= before);
            assert(with_between(r, sep) =~= s);
        } else {
            let longer = before.last().push(s.last());
            assert(r.drop_last() =~= before.drop_last());
            assert(r.last() == longer);
            assert(is_free_of(before[before.len() - 1], sep));
            assert(s =~= s.drop_last().push(s.last()));
            if before.len() > 1 {
                let front = with_between(before.drop_last(), sep) + seq![sep];
                assert(s.drop_last() == front + before.last());
                assert(front + longer =~= (front + before.last()).push(s.last()));
            }
            assert(with_between(r, sep) =~= s);
            assert forall|i: int| 0 <= i < r.len() implies is_free_of(#[trigger] r[i], sep) by {
                if i < r.len() - 1 {
                    assert(r[i] == before[i]);
                }
            }
        }
    }
}

/// Lines joined have line feeds between them.
pub proof fn joining(lines: Seq<Seq<char>>)
    ensures
        text::join_lines(lines) == with_between(lines, '\n'),
    decreases lines.len(),
{
    if lines.len() > 1 {
        joining(lines.drop_last());
        assert(text::join_lines(lines) =~= with_between(lines, '\n'));
    }
}

/// A number written in decimal is read as that number, is made of digits, and has no zero in
/// front but for zero itself. A negative one has a minus sign in front.
pub proof fn numbers_are_read_back(n: nat)
    ensures
        text::number(text::digits(n)) == n,
        text::all_digits(text::digits(n)),
        text::digits(n).len() > 0,
        n > 0 ==> text::digits(n)[0] != '0',
        n < 10 ==> text::digits(n).len() == 1,
        text::signed_digits(n as int) == text::digits(n),
        n > 0 ==> text::signed_digits(-(n as int)) == seq!['-'] + text::digits(n),
    decreases n,
{
    let d = text::digits(n);
    if n < 10 {
        assert(d.drop_last() =~= Seq::empty());
        assert(text::number(d.drop_last()) == 0);
    } else {
        numbers_are_read_back(n / 10);
        assert(d.drop_last() =~= text::digits(n / 10));
        assert forall|i: int| 0 <= i < d.len() implies text::is_digit(#[trigger] d[i]) by {
            if i < d.len() - 1 {
                assert(d[i] == d.drop_last()[i]);
                assert(text::is_digit(text::digits(n / 10)[i]));
            }
        }
    }
}

/// The value of digits grows tenfold with a digit behind them.
pub proof fn numbers_are_decimal(s: Seq<char>, d: nat)
    requires
        d < 10,
    ensures
        text::number(s.push((48 + d) as u8 as char)) == 10 * text::number(s) + d,
        text::number(Seq::empty()) == 0,
{
    let t = s.push((48 + d) as u8 as char);
    assert(t.drop_last() =~= s);
}

/// A number that is small enough is taken in, with or without a plus sign, and nothing else is.
pub proof fn numbers_are_parsed(n: nat, max: nat, s: Seq<char>)
    ensures
        text::parsed(text::digits(n), max) == if n <= max {
            Some(n)
        } else {
            None
        },
        text::parsed(seq!['+'] + text::digits(n), max) == text::parsed(text::digits(n), max),
        text::parsed(Seq::empty(), max) is None,
        text::parsed(s, max) matches Some(v) ==> v <= max && forall|i: int|
            0 <= i < s.len() ==> (text::is_digit(#[trigger] s[i]) || (i == 0 && s[i] == '+')),
{
    numbers_are_read_back(n);
    let d = text::digits(n);
    assert(text::is_digit(d[0]));
    assert((seq!['+'] + d).drop_first() =~= d);
    if text::parsed(s, max) is Some && s[0] == '+' {
        assert forall|i: int| 0 < i < s.len() implies text::is_digit(#[trigger] s[i]) by {
            assert(text::is_digit(s.drop_first()[i - 1]));
        }
    }
}

/// A text clipped to a number of bytes is a start of it that takes no more than these, and the
/// character behind it, if there is one, would take more.
pub proof fn clipping(s: Seq<char>, n: nat)
    ensures
        ({
            let t = text::clipped(s, n);
            &&& t.len() <= s.len()
            &&& t == s.take(t.len() as int)
            &&& text::byte_len(t) <= n
            &&& t.len() < s.len() ==> text::byte_len(s.take(t.len() as int + 1)) > n
        }),
    decreases s.len(),
{
    let t = text::clipped(s, n);
    if text::byte_len(s) <= n || s.len() == 0 {
        assert(s.take(s.len() as int) =~= s);
    } else {
        clipping(s.drop_last(), n);
        assert(s.drop_last().take(t.len() as int) =~= s.take(t.len() as int));
        if t.len() < s.len() - 1 {
            assert(s.drop_last().take(t.len() as int + 1) =~= s.take(t.len() as int + 1));
        } else {
            assert(s.take(t.len() as int + 1) =~= s);
        }
    }
}

/// Bytes of two texts add up; ASCII takes one byte a character and Hangul three.
pub proof fn bytes_add_up(s: Seq<char>, t: Seq<char>, c: char)
    ensures
        text::byte_len(s + t) == text::byte_len(s) + text::byte_len(t),
        (c as u32) < 128 ==> text::byte_len(seq![c]) == 1,
        0xac00 <= c as u32 <= 0xd7a3 ==> text::byte_len(seq![c]) == 3,
        1 <= text::byte_len(seq![c]) <= 4,
    decreases t.len(),
{
    reveal_with_fuel(text::byte_len, 2);
    assert(seq![c].drop_last() =~= Seq::empty());
    if t.len() == 0 {
        assert(s + t =~= s);
    } else {
        bytes_add_up(s, t.drop_last(), c);
        assert((s + t).drop_last() =~= s + t.drop_last());
    }
}

/// The bytes of a text are those of its UTF-8 form.
pub proof fn bytes_are_utf8(s: Seq<char>)
    ensures
        text::byte_len(s) == vstd::utf8::encode_utf8(s).len(),
    decreases s.len(),
{
    if s.len() > 0 {
        let c = s[0];
        vstd::utf8::char_is_scalar(c);
        bytes_are_utf8(s.drop_first());
        bytes_add_up(seq![c], s.drop_first(), c);
        reveal_with_fuel(text::byte_len, 2);
        assert(seq![c].drop_last() =~= Seq::empty());
        assert(seq![c] + s.drop_first() =~= s);
        assert(text::byte_len(seq![c]) == vstd::utf8::encode_scalar(c as u32).len());
    }
}

/// What is left of a text behind some bytes of it is what stands behind the characters that take
/// them; inside a character there is nothing.
pub proof fn text_behind_bytes(front: Seq<char>, c: char, back: Seq<char>, n: nat)
    ensures
        text::after_bytes(front + back, text::byte_len(front)) == Some(back),
        0 < n < text::byte_len(seq![c]) ==> text::after_bytes(
            front + (seq![c] + back),
            text::byte_len(front) + n,
        ) is None,
    decreases front.len(),
{
    reveal_with_fuel(text::byte_len, 2);
    assert(seq![c].drop_last() =~= Seq::empty());
    if front.len() == 0 {
        assert(front + back =~= back);
        assert(front + (seq![c] + back) =~= seq![c] + back);
        assert((seq![c] + back)[0] == c);
    } else {
        let rest = front.drop_first();
        text_behind_bytes(rest, c, back, n);
        bytes_add_up(seq![front[0]], rest, c);
        assert(seq![front[0]].drop_last() =~= Seq::empty());
        assert(seq![front[0]] + rest =~= front);
        assert((front + back).drop_first() =~= rest + back);
        assert((front + (seq![c] + back)).drop_first() =~= rest + (seq![c] + back));
    }
}

} // verus!
