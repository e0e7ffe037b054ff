//! Where a spoken command goes: to a worker that it names, or to the orchestrator.

use crate::text;
use crate::text::{
    after_bytes_of, byte_len_of, chars_of, digits_end, number_of, slice_of, stands_at, to_text,
    trim_of,
};
use vstd::prelude::*;

verus! {

/// Lower case of a text, as `str::to_lowercase` gives it.
pub uninterp spec fn lowered(s: Seq<char>) -> Seq<char>;

/// ASCII, or a syllable of Hangul, which has no case.
pub open spec fn is_simple(c: char) -> bool {
    (c as u32) < 128 || 0xac00 <= c as u32 <= 0xd7a3
}

/// Lower case of ASCII; Hangul stays as it is.
pub open spec fn simple_lower(c: char) -> char {
    if 'A' <= c && c <= 'Z' {
        (c as u32 + 32) as char
    } else {
        c
    }
}

/// Whether a text is ASCII and Hangul throughout.
pub open spec fn all_simple(s: Seq<char>) -> bool {
    forall|i: int| 0 <= i < s.len() ==> is_simple(#[trigger] s[i])
}

/// Lower case of a text that is ASCII and Hangul, one character for one.
pub open spec fn simple_lowered(s: Seq<char>) -> Seq<char> {
    Seq::new(s.len(), |i: int| simple_lower(s[i]))
}

/// Whether `lower` begins with the lower case of the first `k` characters of `s`, one for one.
pub open spec fn lower_start(s: Seq<char>, lower: Seq<char>, k: int) -> bool {
    k <= lower.len() && forall|i: int| 0 <= i < k ==> #[trigger] lower[i] == simple_lower(s[i])
}

/// Calls `str::to_lowercase`. Text is lowered from its start, character by character, so where
/// it begins with ASCII and Hangul these come out one for one, and where it is nothing else
/// nothing else comes out. The rest is left to the name.
#[verifier::external_body]
pub(crate) fn to_lowercase(s: &str) -> (lower: String)
    ensures
        lower@ == lowered(s@),
        forall|k: int|
            0 <= k <= s@.len() && (forall|i: int| 0 <= i < k ==> is_simple(#[trigger] s@[i]))
                ==> #[trigger] lower_start(s@, lower@, k),
        all_simple(s@) ==> lower@ == simple_lowered(s@),
{
    s.to_lowercase()
}

/// How a command addresses a worker, in the order in which they are tried.
pub open spec fn call_text(i: int) -> Seq<char> {
    if i == 0 {
        "워커 "@
    } else if i == 1 {
        "워커"@
    } else if i == 2 {
        "worker "@
    } else {
        "worker"@
    }
}

/// How a command addresses a worker, in the order in which they are tried.
fn call(i: usize) -> (s: &'static str)
    ensures
        s@ == call_text(i as int),
{
    if i == 0 {
        "워커 "
    } else if i == 1 {
        "워커"
    } else if i == 2 {
        "worker "
    } else {
        "worker"
    }
}

/// The particles behind the number of a worker, in the order in which they are tried.
pub open spec fn particle_text(i: int) -> Seq<char> {
    if i == 0 {
        "번에게 "@
    } else if i == 1 {
        "번에게"@
    } else if i == 2 {
        "번에 "@
    } else if i == 3 {
        "번에"@
    } else if i == 4 {
        "에게 "@
    } else if i == 5 {
        "에게"@
    } else if i == 6 {
        "한테 "@
    } else if i == 7 {
        "한테"@
    } else if i == 8 {
        "에다가 "@
    } else if i == 9 {
        "에다가"@
    } else if i == 10 {
        "에 "@
    } else {
        "에"@
    }
}

/// The particles behind the number of a worker, in the order in which they are tried.
fn particle(i: usize) -> (s: &'static str)
    ensures
        s@ == particle_text(i as int),
{
    if i == 0 {
        "번에게 "
    } else if i == 1 {
        "번에게"
    } else if i == 2 {
        "번에 "
    } else if i == 3 {
        "번에"
    } else if i == 4 {
        "에게 "
    } else if i == 5 {
        "에게"
    } else if i == 6 {
        "한테 "
    } else if i == 7 {
        "한테"
    } else if i == 8 {
        "에다가 "
    } else if i == 9 {
        "에다가"
    } else if i == 10 {
        "에 "
    } else {
        "에"
    }
}

/// The number words, in the order in which they are tried.
pub open spec fn word_text(i: int) -> Seq<char> {
    if i == 0 {
        "일"@
    } else if i == 1 {
        "이"@
    } else if i == 2 {
        "삼"@
    } else if i == 3 {
        "사"@
    } else if i == 4 {
        "오"@
    } else if i == 5 {
        "육"@
    } else if i == 6 {
        "칠"@
    } else if i == 7 {
        "팔"@
    } else if i == 8 {
        "구"@
    } else if i == 9 {
        "하나"@
    } else if i == 10 {
        "둘"@
    } else if i == 11 {
        "셋"@
    } else if i == 12 {
        "넷"@
    } else {
        "다섯"@
    }
}

/// The number words, in the order in which they are tried.
fn word(i: usize) -> (s: &'static str)
    ensures
        s@ == word_text(i as int),
{
    if i == 0 {
        "일"
    } else if i == 1 {
        "이"
    } else if i == 2 {
        "삼"
    } else if i == 3 {
        "사"
    } else if i == 4 {
        "오"
    } else if i == 5 {
        "육"
    } else if i == 6 {
        "칠"
    } else if i == 7 {
        "팔"
    } else if i == 8 {
        "구"
    } else if i == 9 {
        "하나"
    } else if i == 10 {
        "둘"
    } else if i == 11 {
        "셋"
    } else if i == 12 {
        "넷"
    } else {
        "다섯"
    }
}

/// The number of number word `i`.
pub open spec fn word_value(i: int) -> nat {
    if i < 9 {
        (i + 1) as nat
    } else {
        (i - 8) as nat
    }
}

/// The first of the particles from `i` on with which `s` begins.
pub open spec fn particle_of(s: Seq<char>, i: int) -> Option<int>
    decreases 12 - i,
{
    if i >= 12 {
        None
    } else if text::begins_with(s, particle_text(i)) {
        Some(i)
    } else {
        particle_of(s, i + 1)
    }
}

/// `s` without the particle at its start and without the white space around it.
pub open spec fn without_particle(s: Seq<char>) -> Seq<char> {
    match particle_of(s, 0) {
        Some(i) => text::trim(s.skip(particle_text(i).len() as int)),
        None => text::trim(s),
    }
}

/// The first of the ways to address a worker from `i` on with which `lower` begins.
pub open spec fn call_of(lower: Seq<char>, i: int) -> Option<int>
    decreases 4 - i,
{
    if i >= 4 {
        None
    } else if text::begins_with(lower, call_text(i)) {
        Some(i)
    } else {
        call_of(lower, i + 1)
    }
}

/// What follows the address in command `t`, whose lower case is `lower`.
pub open spec fn after_call(t: Seq<char>, lower: Seq<char>) -> Option<Seq<char>> {
    match call_of(lower, 0) {
        Some(i) => text::after_bytes(t, text::byte_len(call_text(i))),
        None => None,
    }
}

/// Worker and content where `rest` begins with one of the number words from `i` on that has
/// content behind it.
pub open spec fn route_by_word(rest: Seq<char>, i: int) -> Option<(nat, Seq<char>)>
    decreases 14 - i,
{
    if i >= 14 {
        None
    } else if text::begins_with(rest, word_text(i)) && without_particle(
        text::trim(rest.skip(word_text(i).len() as int)),
    ).len() > 0 {
        Some(
            (
                (word_value(i) - 1) as nat,
                without_particle(text::trim(rest.skip(word_text(i).len() as int))),
            ),
        )
    } else {
        route_by_word(rest, i + 1)
    }
}

/// Number of digits at the start of `s`.
pub open spec fn digit_count(s: Seq<char>) -> nat
    decreases s.len(),
{
    if s.len() > 0 && text::is_digit(s[0]) {
        1 + digit_count(s.drop_first())
    } else {
        0
    }
}

/// Worker, counted from zero, and content of a command after its address.
pub open spec fn route_rest(rest: Seq<char>) -> Option<(nat, Seq<char>)> {
    let k = digit_count(rest) as int;
    if k == 0 {
        route_by_word(rest, 0)
    } else {
        let num = text::number(rest.take(k));
        let content = without_particle(text::trim(rest.skip(k)));
        if num == 0 || num > usize::MAX || content.len() == 0 {
            None
        } else {
            Some(((num - 1) as nat, content))
        }
    }
}

/// Worker, counted from zero, and content of command `s`, where `lower` is the lower case of
/// the command without the white space around it.
pub open spec fn route(s: Seq<char>, lower: Seq<char>) -> Option<(nat, Seq<char>)> {
    match after_call(text::trim(s), lower) {
        Some(rest) => route_rest(text::trim(rest)),
        None => None,
    }
}

pub(crate) proof fn digit_count_is(s: Seq<char>, k: int)
    requires
        0 <= k <= s.len(),
        forall|i: int| 0 <= i < k ==> text::is_digit(#[trigger] s[i]),
        k < s.len() ==> !text::is_digit(s[k]),
    ensures
        digit_count(s) == k,
    decreases k,
{
    if k > 0 {
        assert(text::is_digit(s[0]));
        assert forall|i: int| 0 <= i < k - 1 implies text::is_digit(
            #[trigger] s.drop_first()[i],
        ) by {
            assert(s.drop_first()[i] == s[i + 1]);
        }
        digit_count_is(s.drop_first(), k - 1);
    }
}

/// Strip Korean particles from the beginning: 에게, 에, 번에게, 번에, 한테, 에다가
pub fn strip_particle(s: &str) -> (r: String)
    ensures
        r@ == without_particle(s@),
{
    to_text(&strip_from(&chars_of(s)))
}

fn strip_from(v: &Vec<char>) -> (r: Vec<char>)
    ensures
        r@ == without_particle(v@),
{
    let mut i: usize = 0;
    while i < 12
        invariant
            i <= 12,
            particle_of(v@, i as int) == particle_of(v@, 0),
        decreases 12 - i,
    {
        let p = chars_of(particle(i));
        if stands_at(v, &p, 0) {
            let rest = slice_of(v, p.len(), v.len());
            assert(rest@ =~= v@.skip(p@.len() as int));
            return trim_of(&rest);
        }
        i = i + 1;
    }
    trim_of(v)
}

fn rest_after_call(t: &Vec<char>, lower: &Vec<char>) -> (r: Option<Vec<char>>)
    ensures
        match r {
            Some(rest) => after_call(t@, lower@) == Some(rest@),
            None => after_call(t@, lower@) is None,
        },
{
    let mut i: usize = 0;
    while i < 4
        invariant
            i <= 4,
            call_of(lower@, i as int) == call_of(lower@, 0),
        decreases 4 - i,
    {
        let p = chars_of(call(i));
        if stands_at(lower, &p, 0) {
            let n = byte_len_of(&p);
            return after_bytes_of(t, n);
        }
        i = i + 1;
    }
    None
}

fn route_word(rest: &Vec<char>) -> (r: Option<(usize, Vec<char>)>)
    ensures
        match r {
            Some((worker, content)) => route_by_word(rest@, 0) == Some((worker as nat, content@)),
            None => route_by_word(rest@, 0) is None,
        },
{
    let mut i: usize = 0;
    while i < 14
        invariant
            i <= 14,
            route_by_word(rest@, i as int) == route_by_word(rest@, 0),
        decreases 14 - i,
    {
        let w = chars_of(word(i));
        if stands_at(rest, &w, 0) {
            let behind = slice_of(rest, w.len(), rest.len());
            assert(behind@ =~= rest@.skip(w@.len() as int));
            let content = strip_from(&trim_of(&behind));
            if content.len() > 0 {
                let worker: usize = if i < 9 {
                    i
                } else {
                    i - 9
                };
                return Some((worker, content));
            }
        }
        i = i + 1;
    }
    None
}

fn route_from(rest: &Vec<char>) -> (r: Option<(usize, Vec<char>)>)
    ensures
        match r {
            Some((worker, content)) => route_rest(rest@) == Some((worker as nat, content@)),
            None => route_rest(rest@) is None,
        },
{
    let k = digits_end(rest, 0);
    proof {
        assert forall|i: int| 0 <= i < k implies text::is_digit(#[trigger] rest@[i]) by {
            assert(rest@.subrange(0, k as int)[i] == rest@[i]);
        }
        digit_count_is(rest@, k as int);
        assert(rest@.subrange(0, k as int) =~= rest@.take(k as int));
    }
    if k == 0 {
        return route_word(rest);
    }
    let num = match number_of(rest, 0, k, usize::MAX as u64) {
        Some(num) => num as usize,
        None => return None,
    };
    if num == 0 {
        return None;
    }
    let behind = slice_of(rest, k, rest.len());
    assert(behind@ =~= rest@.skip(k as int));
    let content = strip_from(&trim_of(&behind));
    if content.len() == 0 {
        return None;
    }
    Some((num - 1, content))
}

/// Worker and content of a command whose lower case, without the white space around it, is
/// `lower`.
pub fn route_lowered(s: &str, lower: &str) -> (r: Option<(usize, String)>)
    ensures
        match r {
            Some((worker, content)) => route(s@, lower@) == Some((worker as nat, content@)),
            None => route(s@, lower@) is None,
        },
{
    let t = trim_of(&chars_of(s));
    match rest_after_call(&t, &chars_of(lower)) {
        Some(rest) => match route_from(&trim_of(&rest)) {
            Some((worker, content)) => Some((worker, to_text(&content))),
            None => None,
        },
        None => None,
    }
}

/// A command that addresses worker `n`, counted from one, in way `call`, with particle
/// `particle` between the number and the content.
pub open spec fn addressed(call: int, n: nat, particle: int, content: Seq<char>) -> Seq<char> {
    call_text(call) + text::digits(n) + particle_text(particle) + content
}

/// A text that neither begins nor ends with white space.
pub open spec fn is_trimmed(s: Seq<char>) -> bool {
    s.len() > 0 && !text::is_space(s[0]) && !text::is_space(s.last())
}

pub(crate) proof fn digits_stand_for(n: nat)
    ensures
        text::number(text::digits(n)) == n,
        text::digits(n).len() > 0,
        forall|i: int| 0 <= i < text::digits(n).len() ==> text::is_digit(
            #[trigger] text::digits(n)[i],
        ),
    decreases n,
{
    let d = text::digits(n);
    if n < 10 {
        assert(d.drop_last() =~= Seq::empty());
        assert(text::number(d.drop_last()) == 0);
    } else {
        digits_stand_for(n / 10);
        assert(d.drop_last() =~= text::digits(n / 10));
    }
}

pub(crate) proof fn bytes_in_front(s: Seq<char>, t: Seq<char>)
    ensures
        text::after_bytes(s + t, text::byte_len(s)) == Some(t),
    decreases s.len(),
{
    if s.len() == 0 {
        assert(s + t =~= t);
    } else {
        bytes_in_front(s.drop_first(), t);
        first_byte(s);
        assert((s + t).drop_first() =~= s.drop_first() + t);
    }
}

proof fn first_byte(s: Seq<char>)
    requires
        s.len() > 0,
    ensures
        text::byte_len(s) == text::utf8_len(s[0]) + text::byte_len(s.drop_first()),
    decreases s.len(),
{
    if s.len() == 1 {
        assert(s.drop_last() =~= s.drop_first());
        assert(s.drop_last().len() == 0);
    } else {
        first_byte(s.drop_last());
        assert(s.drop_last().drop_first() =~= s.drop_first().drop_last());
    }
}

/// Each particle that ends with a space is the one found at the start of a text.
proof fn particle_is_found(particle: int, content: Seq<char>)
    requires
        0 <= particle < 12,
        particle % 2 == 0,
    ensures
        particle_of(particle_text(particle) + content, 0) == Some(particle),
        particle_text(particle).len() > 0,
        !text::is_space(particle_text(particle)[0]),
        !text::is_digit(particle_text(particle)[0]),
{
    reveal_strlit("번에게 ");
    reveal_strlit("번에게");
    reveal_strlit("번에 ");
    reveal_strlit("번에");
    reveal_strlit("에게 ");
    reveal_strlit("에게");
    reveal_strlit("한테 ");
    reveal_strlit("한테");
    reveal_strlit("에다가 ");
    reveal_strlit("에다가");
    reveal_strlit("에 ");
    reveal_strlit("에");
    let s = particle_text(particle) + content;
    assert(s.subrange(0, particle_text(particle).len() as int) =~= particle_text(particle));
    assert(particle_of(s, 0) == Some(particle)) by {
        reveal_with_fuel(particle_of, 13);
        assert forall|j: int| 0 <= j < particle implies !text::begins_with(
            s,
            #[trigger] particle_text(j),
        ) by {
            let p = particle_text(j);
            if text::begins_with(s, p) {
                assert(s.subrange(0, p.len() as int)[0] == s[0]);
                assert(s.subrange(0, p.len() as int)[1] == s[1]);
                if p.len() > 2 {
                    assert(s.subrange(0, p.len() as int)[2] == s[2]);
                }
            }
        }
    }
}

/// Each way to address a worker is the one found where digits follow.
proof fn call_is_found(call: int, lower: Seq<char>)
    requires
        0 <= call < 4,
        call_text(call).len() < lower.len(),
        lower.take(call_text(call).len() as int) == call_text(call),
        text::is_digit(lower[call_text(call).len() as int]),
    ensures
        call_of(lower, 0) == Some(call),
{
    reveal_strlit("워커 ");
    reveal_strlit("워커");
    reveal_strlit("worker ");
    reveal_strlit("worker");
    reveal_with_fuel(call_of, 5);
    let c = call_text(call);
    assert(lower.subrange(0, c.len() as int) =~= lower.take(c.len() as int));
    assert forall|j: int| 0 <= j < call implies !text::begins_with(lower, #[trigger] call_text(j)) by {
        let p = call_text(j);
        if text::begins_with(lower, p) {
            assert(lower.subrange(0, p.len() as int)[0] == lower[0]);
            assert(lower.take(c.len() as int)[0] == lower[0]);
            assert(lower.subrange(0, p.len() as int)[p.len() - 1] == lower[p.len() - 1]);
            if p.len() <= c.len() {
                assert(lower.take(c.len() as int)[p.len() - 1] == lower[p.len() - 1]);
            }
        }
    }
}

/// The characters of an address come out of lower casing as they are.
proof fn call_is_simple(call: int)
    requires
        0 <= call < 4,
    ensures
        call_text(call).len() > 0,
        !text::is_space(call_text(call)[0]),
        forall|i: int|
            0 <= i < call_text(call).len() ==> is_simple(#[trigger] call_text(call)[i])
                && simple_lower(call_text(call)[i]) == call_text(call)[i],
{
    reveal_strlit("워커 ");
    reveal_strlit("워커");
    reveal_strlit("worker ");
    reveal_strlit("worker");
}

/// A command that names a worker by number gives that worker its content, whatever the content
/// is, in each way to address a worker and with each particle.
pub proof fn addressed_worker_gets_the_content(
    call: int,
    n: nat,
    particle: int,
    content: Seq<char>,
    lower: Seq<char>,
)
    requires
        0 <= call < 4,
        0 < n <= usize::MAX,
        0 <= particle < 12,
        particle % 2 == 0,
        is_trimmed(content),
        lower_start(
            addressed(call, n, particle, content),
            lower,
            (call_text(call).len() + text::digits(n).len()) as int,
        ),
    ensures
        text::trim(addressed(call, n, particle, content)) == addressed(
            call,
            n,
            particle,
            content,
        ),
        route(addressed(call, n, particle, content), lower) == Some(((n - 1) as nat, content)),
{
    let c = call_text(call);
    let d = text::digits(n);
    let p = particle_text(particle);
    let s = addressed(call, n, particle, content);
    let rest = d + p + content;
    digits_stand_for(n);
    particle_is_found(particle, content);
    call_is_simple(call);
    assert(s =~= c + rest);
    assert(text::trim(s) == s);
    assert forall|i: int| 0 <= i < c.len() implies lower.take(c.len() as int)[i] == c[i] by {
        assert(s[i] == c[i]);
        assert(lower[i] == simple_lower(s[i]));
    }
    assert(lower.take(c.len() as int) =~= c);
    assert(s[c.len() as int] == d[0]);
    assert(lower[c.len() as int] == simple_lower(s[c.len() as int]));
    assert(text::is_digit(d[0]));
    call_is_found(call, lower);
    bytes_in_front(c, rest);
    assert(rest[0] == d[0]);
    assert(rest.last() == content.last());
    assert(text::trim(rest) == rest);
    assert forall|i: int| 0 <= i < d.len() implies text::is_digit(#[trigger] rest[i]) by {
        assert(text::is_digit(d[i]));
    }
    assert(rest[d.len() as int] == p[0]);
    digit_count_is(rest, d.len() as int);
    assert(rest.take(d.len() as int) =~= d);
    let behind = p + content;
    assert(rest.skip(d.len() as int) =~= behind);
    assert(behind[0] == p[0] && behind.last() == content.last());
    assert(text::trim(behind) == behind);
    assert(behind.skip(p.len() as int) =~= content);
    assert(text::trim(content) == content);
}

/// Parse voice command for worker routing.
/// Matches patterns like "워커 1에게 ...", "worker 2에 ...", "워커 1번에 ..."
/// Returns (worker_index_0based, content_to_send) or None.
pub fn parse_worker_route(s: &str) -> (r: Option<(usize, String)>)
    ensures
        match r {
            Some((worker, content)) => route(s@, lowered(text::trim(s@))) == Some(
                (worker as nat, content@),
            ),
            None => route(s@, lowered(text::trim(s@))) is None,
        },
        all_simple(text::trim(s@)) ==> match r {
            Some((worker, content)) => route(s@, simple_lowered(text::trim(s@))) == Some(
                (worker as nat, content@),
            ),
            None => route(s@, simple_lowered(text::trim(s@))) is None,
        },
        forall|call: int, n: nat, particle: int, content: Seq<char>|
            #![trigger addressed(call, n, particle, content)]
            0 <= call < 4 && 0 < n <= usize::MAX && 0 <= particle < 12 && particle % 2 == 0
                && is_trimmed(content) && s@ == addressed(call, n, particle, content)
                ==> (r matches Some((worker, said)) && worker == n - 1 && said@ == content),
{
    let t = to_text(&trim_of(&chars_of(s)));
    let lower = to_lowercase(t.as_str());
    let r = route_lowered(s, lower.as_str());
    proof {
        assert forall|call: int, n: nat, particle: int, content: Seq<char>|
            #![trigger addressed(call, n, particle, content)]
            0 <= call < 4 && 0 < n <= usize::MAX && 0 <= particle < 12 && particle % 2 == 0
                && is_trimmed(content) && s@ == addressed(
                call,
                n,
                particle,
                content,
            ) implies (r matches Some((worker, said)) && worker == n - 1 && said@ == content) by {
            let c = call_text(call);
            let d = text::digits(n);
            let k = (c.len() + d.len()) as int;
            call_is_simple(call);
            digits_stand_for(n);
            assert(is_trimmed(s@)) by {
                assert(s@[0] == c[0]);
                assert(s@.last() == content.last());
            }
            assert(t@ == s@);
            assert forall|i: int| 0 <= i < k implies is_simple(#[trigger] s@[i]) by {
                if i < c.len() {
                    assert(s@[i] == c[i]);
                } else {
                    assert(s@[i] == d[i - c.len()]);
                    assert(text::is_digit(d[i - c.len()]));
                }
            }
            assert(lower_start(t@, lower@, k));
            addressed_worker_gets_the_content(call, n, particle, content, lower@);
        }
    }
    r
}

} // verus!
