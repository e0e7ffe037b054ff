//! Text as sequences of characters: trimming, searching, splitting, joining and numbers.

use vstd::prelude::*;

verus! {

/// Calls `String::push`: the character is appended.
pub assume_specification[ String::push ](s: &mut String, ch: char)
    ensures
        final(s)@ == old(s)@.push(ch),
;

/// Calls `String::pop`: the last character is taken off and returned, if there is one.
pub assume_specification[ String::pop ](s: &mut String) -> (r: Option<char>)
    ensures
        old(s)@.len() == 0 ==> r is None && final(s)@ == old(s)@,
        old(s)@.len() > 0 ==> r == Some(old(s)@.last()) && final(s)@ == old(s)@.drop_last(),
;

/// The contents of a vector of vectors.
pub open spec fn nested<T>(v: Seq<Vec<T>>) -> Seq<Seq<T>> {
    Seq::new(v.len(), |i: int| v[i]@)
}

/// The characters with the `White_Space` property.
pub open spec fn is_space(c: char) -> bool {
    let u = c as u32;
    ||| 0x09 <= u <= 0x0d
    ||| u == 0x20
    ||| u == 0x85
    ||| u == 0xa0
    ||| u == 0x1680
    ||| 0x2000 <= u <= 0x200a
    ||| u == 0x2028
    ||| u == 0x2029
    ||| u == 0x202f
    ||| u == 0x205f
    ||| u == 0x3000
}

/// `s` without the white space at its end.
pub open spec fn trim_end(s: Seq<char>) -> Seq<char>
    decreases s.len(),
{
    if s.len() > 0 && is_space(s.last()) {
        trim_end(s.drop_last())
    } else {
        s
    }
}

/// `s` without the white space at its start.
pub open spec fn trim_start(s: Seq<char>) -> Seq<char>
    decreases s.len(),
{
    if s.len() > 0 && is_space(s[0]) {
        trim_start(s.drop_first())
    } else {
        s
    }
}

/// `s` without the white space around it.
pub open spec fn trim(s: Seq<char>) -> Seq<char> {
    trim_start(trim_end(s))
}

/// Whether `pat` stands in `s` at index `i`.
pub open spec fn occurs_at(s: Seq<char>, pat: Seq<char>, i: int) -> bool {
    0 <= i && i + pat.len() <= s.len() && s.subrange(i, i + pat.len()) == pat
}

/// Whether `s` begins with `pat`.
pub open spec fn begins_with(s: Seq<char>, pat: Seq<char>) -> bool {
    occurs_at(s, pat, 0)
}

/// Whether `pat` stands anywhere in `s`.
pub open spec fn holds(s: Seq<char>, pat: Seq<char>) -> bool {
    exists|i: int| occurs_at(s, pat, i)
}

/// The first index from `from` on at which `pat` stands in `s`.
pub open spec fn first_at(s: Seq<char>, pat: Seq<char>, from: int) -> Option<int>
    decreases s.len() + 1 - from,
{
    if from < 0 || from + pat.len() > s.len() {
        None
    } else if occurs_at(s, pat, from) {
        Some(from)
    } else {
        first_at(s, pat, from + 1)
    }
}

/// The lines of `lines` with a line feed between them.
pub open spec fn join_lines(lines: Seq<Seq<char>>) -> Seq<char>
    decreases lines.len(),
{
    if lines.len() == 0 {
        Seq::empty()
    } else if lines.len() == 1 {
        lines[0]
    } else {
        join_lines(lines.drop_last()).push('\n') + lines.last()
    }
}

/// The pieces of `s` between separators; one more than there are separators.
pub open spec fn split_at_char(s: Seq<char>, sep: char) -> Seq<Seq<char>>
    decreases s.len(),
{
    if s.len() == 0 {
        seq![Seq::empty()]
    } else if s.last() == sep {
        split_at_char(s.drop_last(), sep).push(Seq::empty())
    } else {
        let before = split_at_char(s.drop_last(), sep);
        before.drop_last().push(before.last().push(s.last()))
    }
}

/// The decimal digits of `n`.
pub open spec fn digits(n: nat) -> Seq<char>
    decreases n,
{
    if n < 10 {
        seq![(48 + n) as u8 as char]
    } else {
        digits(n / 10).push((48 + n % 10) as u8 as char)
    }
}

/// A whole number in decimal, with a minus sign in front if it is negative.
pub open spec fn signed_digits(n: int) -> Seq<char> {
    if n < 0 {
        seq!['-'] + digits((-n) as nat)
    } else {
        digits(n as nat)
    }
}

/// Whether `c` is one of the digits 0 to 9.
pub open spec fn is_digit(c: char) -> bool {
    '0' <= c && c <= '9'
}

/// The number that a string of digits stands for.
pub open spec fn number(s: Seq<char>) -> nat
    decreases s.len(),
{
    if s.len() == 0 {
        0
    } else {
        number(s.drop_last()) * 10 + (s.last() as u32 - '0' as u32) as nat
    }
}

/// Bytes that UTF-8 takes for `c`.
pub open spec fn utf8_len(c: char) -> nat {
    let u = c as u32;
    if u < 0x80 {
        1
    } else if u < 0x800 {
        2
    } else if u < 0x10000 {
        3
    } else {
        4
    }
}

/// Bytes that UTF-8 takes for `s`.
pub open spec fn byte_len(s: Seq<char>) -> nat
    decreases s.len(),
{
    if s.len() == 0 {
        0
    } else {
        byte_len(s.drop_last()) + utf8_len(s.last())
    }
}

/// `s` from byte `n` of its UTF-8 form on; `None` where that is inside a character or behind
/// the end.
pub open spec fn after_bytes(s: Seq<char>, n: nat) -> Option<Seq<char>>
    decreases s.len(),
{
    if n == 0 {
        Some(s)
    } else if s.len() == 0 || utf8_len(s[0]) > n {
        None
    } else {
        after_bytes(s.drop_first(), (n - utf8_len(s[0])) as nat)
    }
}

/// The longest start of `s` that takes at most `n` bytes in UTF-8.
pub open spec fn clipped(s: Seq<char>, n: nat) -> Seq<char>
    decreases s.len(),
{
    if byte_len(s) <= n || s.len() == 0 {
        s
    } else {
        clipped(s.drop_last(), n)
    }
}

/// The number that `s` stands for in decimal, with an optional plus sign in front; `None`
/// where it is not a number or larger than `max`.
pub open spec fn parsed(s: Seq<char>, max: nat) -> Option<nat> {
    let t = if s.len() > 0 && s[0] == '+' {
        s.drop_first()
    } else {
        s
    };
    if t.len() > 0 && all_digits(t) && number(t) <= max {
        Some(number(t))
    } else {
        None
    }
}

/// Whether `s` holds nothing but digits.
pub open spec fn all_digits(s: Seq<char>) -> bool {
    forall|i: int| 0 <= i < s.len() ==> is_digit(#[trigger] s[i])
}

/// The contents of a vector of strings.
pub open spec fn strings(v: Seq<String>) -> Seq<Seq<char>> {
    Seq::new(v.len(), |i: int| v[i]@)
}

/// The characters of a string.
pub fn chars_of(s: &str) -> (v: Vec<char>)
    ensures
        v@ == s@,
{
    let mut v: Vec<char> = Vec::new();
    for c in it: s.chars()
        invariant
            v@ == s@.take(it.index() as int),
            it.seq() == s@,
    {
        v.push(c);
    }
    assert(s@.take(s@.len() as int) =~= s@);
    v
}

/// The string of characters `from` up to but not including `to`.
pub fn string_of(v: &Vec<char>, from: usize, to: usize) -> (s: String)
    requires
        from <= to <= v.len(),
    ensures
        s@ == v@.subrange(from as int, to as int),
{
    let mut s = String::new();
    let mut i: usize = from;
    while i < to
        invariant
            from <= i <= to <= v@.len(),
            s@ == v@.subrange(from as int, i as int),
        decreases to - i,
    {
        s.push(v[i]);
        i = i + 1;
        assert(s@ =~= v@.subrange(from as int, i as int));
    }
    s
}

/// The string of all characters of `v`.
pub fn to_text(v: &Vec<char>) -> (s: String)
    ensures
        s@ == v@,
{
    let s = string_of(v, 0, v.len());
    assert(s@ =~= v@);
    s
}

/// Characters `from` up to but not including `to`.
pub fn slice_of(v: &Vec<char>, from: usize, to: usize) -> (r: Vec<char>)
    requires
        from <= to <= v.len(),
    ensures
        r@ == v@.subrange(from as int, to as int),
{
    let mut r: Vec<char> = Vec::new();
    let mut i: usize = from;
    while i < to
        invariant
            from <= i <= to <= v@.len(),
            r@ == v@.subrange(from as int, i as int),
        decreases to - i,
    {
        r.push(v[i]);
        i = i + 1;
        assert(r@ =~= v@.subrange(from as int, i as int));
    }
    r
}

/// Whether `c` is white space.
pub fn is_whitespace(c: char) -> (r: bool)
    ensures
        r == is_space(c),
{
    let u = c as u32;
    (0x09 <= u && u <= 0x0d) || u == 0x20 || u == 0x85 || u == 0xa0 || u == 0x1680 || (0x2000
        <= u && u <= 0x200a) || u == 0x2028 || u == 0x2029 || u == 0x202f || u == 0x205f || u
        == 0x3000
}

/// Where `v` ends without the white space at its end.
fn trimmed_end(v: &Vec<char>) -> (end: usize)
    ensures
        end <= v.len(),
        v@.subrange(0, end as int) == trim_end(v@),
{
    let mut end: usize = v.len();
    assert(v@.subrange(0, end as int) =~= v@);
    while end > 0 && is_whitespace(v[end - 1])
        invariant
            end <= v@.len(),
            trim_end(v@.subrange(0, end as int)) == trim_end(v@),
        decreases end,
    {
        assert(v@.subrange(0, end as int).drop_last() =~= v@.subrange(0, end - 1));
        end = end - 1;
    }
    end
}

/// The characters of `v` without the white space at its end.
pub fn trim_end_of(v: &Vec<char>) -> (r: Vec<char>)
    ensures
        r@ == trim_end(v@),
{
    let end = trimmed_end(v);
    slice_of(v, 0, end)
}

/// The characters of `v` without the white space around it.
pub fn trim_of(v: &Vec<char>) -> (r: Vec<char>)
    ensures
        r@ == trim(v@),
{
    let end = trimmed_end(v);
    let mut start: usize = 0;
    while start < end && is_whitespace(v[start])
        invariant
            start <= end <= v@.len(),
            trim_start(v@.subrange(start as int, end as int)) == trim(v@),
        decreases end - start,
    {
        assert(v@.subrange(start as int, end as int).drop_first() =~= v@.subrange(
            start + 1,
            end as int,
        ));
        start = start + 1;
    }
    slice_of(v, start, end)
}

/// Whether `pat` stands in `v` at index `i`.
pub fn stands_at(v: &Vec<char>, pat: &Vec<char>, i: usize) -> (r: bool)
    ensures
        r == occurs_at(v@, pat@, i as int),
{
    if i > v.len() || pat.len() > v.len() - i {
        return false;
    }
    let mut k: usize = 0;
    while k < pat.len()
        invariant
            i + pat.len() <= v.len(),
            k <= pat.len(),
            forall|j: int| 0 <= j < k ==> v@[i + j] == #[trigger] pat@[j],
        decreases pat@.len() - k,
    {
        if v[i + k] != pat[k] {
            assert(v@.subrange(i as int, i + pat@.len())[k as int] != pat@[k as int]);
            return false;
        }
        k = k + 1;
    }
    assert(v@.subrange(i as int, i + pat@.len()) =~= pat@);
    true
}

/// The first index from `from` on at which `pat` stands in `v`.
pub fn find_from(v: &Vec<char>, pat: &Vec<char>, from: usize) -> (r: Option<usize>)
    ensures
        match r {
            Some(i) => first_at(v@, pat@, from as int) == Some(i as int) && i + pat.len()
                <= v.len() && from <= i,
            None => first_at(v@, pat@, from as int) is None,
        },
{
    let mut i: usize = from;
    while i <= v.len() && pat.len() <= v.len() - i
        invariant
            from <= i,
            first_at(v@, pat@, i as int) == first_at(v@, pat@, from as int),
        decreases v@.len() + 1 - i,
    {
        if stands_at(v, pat, i) {
            return Some(i);
        }
        if i == v.len() {
            assert(first_at(v@, pat@, i + 1) is None);
            return None;
        }
        i = i + 1;
    }
    None
}

/// What `first_at` finds is the first of all places.
pub proof fn first_at_is_first(s: Seq<char>, pat: Seq<char>, from: int)
    requires
        0 <= from,
    ensures
        match first_at(s, pat, from) {
            Some(i) => from <= i && occurs_at(s, pat, i) && forall|j: int|
                from <= j < i ==> !occurs_at(s, pat, j),
            None => forall|j: int| from <= j ==> !occurs_at(s, pat, j),
        },
    decreases s.len() + 1 - from,
{
    if from + pat.len() <= s.len() && !occurs_at(s, pat, from) {
        first_at_is_first(s, pat, from + 1);
    }
}

/// Whether `lit` stands anywhere in `v`.
pub fn contains_text(v: &Vec<char>, lit: &str) -> (r: bool)
    ensures
        r == holds(v@, lit@),
{
    let pat = chars_of(lit);
    proof {
        first_at_is_first(v@, pat@, 0);
    }
    find_from(v, &pat, 0).is_some()
}

/// Whether `v` begins with `lit`.
pub fn starts_with_text(v: &Vec<char>, lit: &str) -> (r: bool)
    ensures
        r == begins_with(v@, lit@),
{
    let pat = chars_of(lit);
    stands_at(v, &pat, 0)
}

/// Whether two texts are the same.
pub fn same_chars(a: &Vec<char>, b: &Vec<char>) -> (r: bool)
    ensures
        r == (a@ == b@),
{
    if a.len() != b.len() {
        return false;
    }
    let r = stands_at(a, b, 0);
    assert(a@.subrange(0, b@.len() as int) =~= a@);
    r
}

/// Appends all of `tail`.
pub fn append_chars(v: &mut Vec<char>, tail: &Vec<char>)
    ensures
        final(v)@ == old(v)@ + tail@,
{
    let mut i: usize = 0;
    assert(v@ =~= old(v)@ + tail@.take(0));
    while i < tail.len()
        invariant
            i <= tail@.len(),
            v@ == old(v)@ + tail@.take(i as int),
        decreases tail@.len() - i,
    {
        v.push(tail[i]);
        i = i + 1;
        assert(v@ =~= old(v)@ + tail@.take(i as int));
    }
    assert(tail@.take(tail@.len() as int) =~= tail@);
}

/// The lines of `lines` with a line feed between them.
pub fn join_of(lines: &Vec<Vec<char>>) -> (r: Vec<char>)
    ensures
        r@ == join_lines(nested(lines@)),
{
    let ghost all = nested(lines@);
    let mut r: Vec<char> = Vec::new();
    let mut i: usize = 0;
    while i < lines.len()
        invariant
            i <= lines@.len(),
            all == nested(lines@),
            r@ == join_lines(all.take(i as int)),
        decreases lines@.len() - i,
    {
        if i > 0 {
            r.push('\n');
        }
        append_chars(&mut r, &lines[i]);
        assert(all.take(i + 1).drop_last() =~= all.take(i as int));
        assert(r@ =~= join_lines(all.take(i + 1)));
        i = i + 1;
    }
    assert(all.take(all.len() as int) =~= all);
    r
}

/// Appends the decimal digits of `n`.
pub fn push_digits(s: &mut String, n: u128)
    ensures
        final(s)@ == old(s)@ + digits(n as nat),
    decreases n,
{
    if n < 10 {
        s.push((48 + n) as u8 as char);
    } else {
        push_digits(s, n / 10);
        s.push((48 + n % 10) as u8 as char);
    }
    assert(s@ =~= old(s)@ + digits(n as nat));
}

/// Appends a whole number in decimal.
pub fn push_signed(s: &mut String, n: i32)
    ensures
        final(s)@ == old(s)@ + signed_digits(n as int),
{
    if n < 0 {
        s.push('-');
        push_digits(s, (-(n as i64)) as u128);
    } else {
        push_digits(s, n as u128);
    }
    assert(s@ =~= old(s)@ + signed_digits(n as int));
}

/// Appends a text.
pub fn push_text(s: &mut String, tail: &str)
    ensures
        final(s)@ == old(s)@ + tail@,
{
    s.append(tail);
}

/// A copy of a text.
pub fn copy_text(s: &String) -> (r: String)
    ensures
        r@ == s@,
{
    s.as_str().to_owned()
}

/// A copy of a text that may be missing.
pub fn copy_opt(s: &Option<String>) -> (r: Option<String>)
    ensures
        opt_text(r) == opt_text(*s),
{
    match s {
        Some(t) => Some(copy_text(t)),
        None => None,
    }
}

/// A text that may be missing.
pub open spec fn opt_text(s: Option<String>) -> Option<Seq<char>> {
    match s {
        Some(t) => Some(t@),
        None => None,
    }
}

/// Bytes that UTF-8 takes for a character.
pub fn utf8_len_of(c: char) -> (n: usize)
    ensures
        n == utf8_len(c),
{
    let u = c as u32;
    if u < 0x80 {
        1
    } else if u < 0x800 {
        2
    } else if u < 0x10000 {
        3
    } else {
        4
    }
}

/// Bytes that UTF-8 takes for a text.
pub fn byte_len_of(v: &Vec<char>) -> (n: u128)
    ensures
        n == byte_len(v@),
        n <= 4 * v.len(),
{
    let mut n: u128 = 0;
    let mut i: usize = 0;
    while i < v.len()
        invariant
            i <= v.len(),
            n == byte_len(v@.take(i as int)),
            n <= 4 * i,
        decreases v.len() - i,
    {
        n = n + utf8_len_of(v[i]) as u128;
        assert(v@.take(i + 1).drop_last() =~= v@.take(i as int));
        i = i + 1;
    }
    assert(v@.take(v@.len() as int) =~= v@);
    n
}

/// The text from byte `n` on.
pub fn after_bytes_of(v: &Vec<char>, n: u128) -> (r: Option<Vec<char>>)
    ensures
        match r {
            Some(t) => after_bytes(v@, n as nat) == Some(t@),
            None => after_bytes(v@, n as nat) is None,
        },
{
    let mut left: u128 = n;
    let mut i: usize = 0;
    assert(v@.skip(0) =~= v@);
    while left > 0 && i < v.len()
        invariant
            i <= v.len(),
            after_bytes(v@.skip(i as int), left as nat) == after_bytes(v@, n as nat),
        decreases v.len() - i,
    {
        let w = utf8_len_of(v[i]) as u128;
        if w > left {
            return None;
        }
        assert(v@.skip(i as int).drop_first() =~= v@.skip(i + 1));
        left = left - w;
        i = i + 1;
    }
    if left > 0 {
        None
    } else {
        let r = slice_of(v, i, v.len());
        assert(r@ =~= v@.skip(i as int));
        Some(r)
    }
}

/// The longest start of a text that takes at most `n` bytes.
pub fn clip_of(v: &Vec<char>, n: u128) -> (r: Vec<char>)
    ensures
        r@ == clipped(v@, n as nat),
{
    let mut end: usize = v.len();
    let mut bytes: u128 = byte_len_of(v);
    assert(v@.take(end as int) =~= v@);
    while bytes > n && end > 0
        invariant
            end <= v.len(),
            bytes == byte_len(v@.take(end as int)),
            clipped(v@.take(end as int), n as nat) == clipped(v@, n as nat),
        decreases end,
    {
        assert(v@.take(end as int).drop_last() =~= v@.take(end - 1));
        bytes = bytes - utf8_len_of(v[end - 1]) as u128;
        end = end - 1;
    }
    let r = slice_of(v, 0, end);
    assert(r@ =~= v@.take(end as int));
    r
}

/// Whether a character is a digit.
pub fn is_digit_char(c: char) -> (r: bool)
    ensures
        r == is_digit(c),
{
    '0' <= c && c <= '9'
}

proof fn number_grows(s: Seq<char>, i: int)
    requires
        0 <= i <= s.len(),
        all_digits(s),
    ensures
        number(s.take(i)) <= number(s),
    decreases s.len() - i,
{
    if i < s.len() {
        number_grows(s, i + 1);
        assert(s.take(i + 1).drop_last() =~= s.take(i));
        assert(is_digit(s[i]));
    } else {
        assert(s.take(i) =~= s);
    }
}

/// The number that the digits from `from` up to but not including `to` stand for, if it is at
/// most `max`.
pub fn number_of(v: &Vec<char>, from: usize, to: usize, max: u64) -> (r: Option<u64>)
    requires
        from <= to <= v.len(),
        all_digits(v@.subrange(from as int, to as int)),
    ensures
        match r {
            Some(n) => n == number(v@.subrange(from as int, to as int)) && n <= max,
            None => number(v@.subrange(from as int, to as int)) > max,
        },
{
    let ghost s = v@.subrange(from as int, to as int);
    let mut n: u64 = 0;
    let mut i: usize = from;
    assert(s.take(0).len() == 0);
    while i < to
        invariant
            from <= i <= to <= v.len(),
            s == v@.subrange(from as int, to as int),
            all_digits(s),
            n == number(s.take(i - from)),
            n <= max,
        decreases to - i,
    {
        let c = v[i];
        assert(c == s[i - from]);
        assert(is_digit(s[i - from]));
        let d = (c as u32 - '0' as u32) as u64;
        assert(s.take(i - from + 1).drop_last() =~= s.take(i - from));
        proof {
            number_grows(s, i - from + 1);
        }
        if n > (u64::MAX - d) / 10 || n * 10 + d > max {
            return None;
        }
        n = n * 10 + d;
        i = i + 1;
    }
    assert(s.take(to - from) =~= s);
    Some(n)
}

/// Where the digits that begin at `from` end.
pub fn digits_end(v: &Vec<char>, from: usize) -> (end: usize)
    requires
        from <= v.len(),
    ensures
        from <= end <= v.len(),
        all_digits(v@.subrange(from as int, end as int)),
        end < v.len() ==> !is_digit(v@[end as int]),
{
    let mut end: usize = from;
    while end < v.len() && is_digit_char(v[end])
        invariant
            from <= end <= v.len(),
            all_digits(v@.subrange(from as int, end as int)),
        decreases v.len() - end,
    {
        assert forall|i: int| 0 <= i < end + 1 - from implies is_digit(
            #[trigger] v@.subrange(from as int, end + 1)[i],
        ) by {
            if i < end - from {
                assert(is_digit(v@.subrange(from as int, end as int)[i]));
            }
        }
        end = end + 1;
    }
    end
}

/// The number that a text stands for in decimal.
pub fn parse_number(s: &str) -> (r: Option<u64>)
    ensures
        match r {
            Some(n) => parsed(s@, u64::MAX as nat) == Some(n as nat),
            None => parsed(s@, u64::MAX as nat) is None,
        },
{
    let v = chars_of(s);
    let from: usize = if v.len() > 0 && v[0] == '+' {
        1
    } else {
        0
    };
    let ghost t = v@.subrange(from as int, v@.len() as int);
    assert(t =~= if v@.len() > 0 && v@[0] == '+' {
        v@.drop_first()
    } else {
        v@
    });
    let end = digits_end(&v, from);
    if end < v.len() {
        assert(t[end - from] == v@[end as int]);
        return None;
    }
    if end == from {
        return None;
    }
    number_of(&v, from, end, u64::MAX)
}

/// The pieces of a text between separators.
pub fn split_of(v: &Vec<char>, sep: char) -> (r: Vec<Vec<char>>)
    ensures
        nested(r@) == split_at_char(v@, sep),
{
    let mut r: Vec<Vec<char>> = Vec::new();
    let mut piece: Vec<char> = Vec::new();
    let mut i: usize = 0;
    assert(nested(r@).push(piece@) =~= split_at_char(v@.take(0), sep));
    while i < v.len()
        invariant
            i <= v.len(),
            nested(r@).push(piece@) == split_at_char(v@.take(i as int), sep),
        decreases v.len() - i,
    {
        let ghost done = nested(r@);
        let ghost last = piece@;
        let c = v[i];
        assert(v@.take(i + 1).drop_last() =~= v@.take(i as int));
        assert(done.push(last).drop_last() =~= done);
        if c == sep {
            r.push(piece);
            piece = Vec::new();
            assert(nested(r@) =~= done.push(last));
            assert(nested(r@).push(piece@) =~= split_at_char(v@.take(i + 1), sep));
        } else {
            piece.push(c);
            assert(nested(r@).push(piece@) =~= split_at_char(v@.take(i + 1), sep));
        }
        i = i + 1;
    }
    let ghost done = nested(r@);
    let ghost last = piece@;
    r.push(piece);
    assert(nested(r@) =~= done.push(last));
    assert(v@.take(v@.len() as int) =~= v@);
    r
}

} // verus!
