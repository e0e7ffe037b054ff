//! Laws of the way of spoken commands: who is addressed, and what is said.

use crate::route;
use crate::text;
use crate::text_laws;
use vstd::prelude::*;

verus! {

/// How a worker is addressed.
pub open spec fn is_address(c: Seq<char>) -> bool {
    c == "워커 "@ || c == "워커"@ || c == "worker "@ || c == "worker"@
}

/// The words for the numbers from one to nine.
pub open spec fn is_word_for(w: Seq<char>, n: nat) -> bool {
    ||| n == 1 && (w == "일"@ || w == "하나"@)
    ||| n == 2 && (w == "이"@ || w == "둘"@)
    ||| n == 3 && (w == "삼"@ || w == "셋"@)
    ||| n == 4 && (w == "사"@ || w == "넷"@)
    ||| n == 5 && (w == "오"@ || w == "다섯"@)
    ||| n == 6 && w == "육"@
    ||| n == 7 && w == "칠"@
    ||| n == 8 && w == "팔"@
    ||| n == 9 && w == "구"@
}

/// The particles behind the number of a worker.
pub open spec fn is_particle(p: Seq<char>) -> bool {
    p == "번에게"@ || p == "번에"@ || p == "에게"@ || p == "한테"@ || p == "에다가"@ || p == "에"@
}

/// Whether what stands behind particle `p` makes it a longer particle.
pub open spec fn grows(p: Seq<char>, behind: Seq<char>) -> bool {
    exists|longer: Seq<char>| #[trigger] is_particle(longer) && longer.len() > p.len()
        && text_laws::stands_behind(p + behind, longer, Seq::empty())
}

/// Whether a text begins with a particle.
pub open spec fn begins_with_particle(s: Seq<char>) -> bool {
    exists|p: Seq<char>| #[trigger] is_particle(p) && text_laws::stands_behind(
        s,
        p,
        Seq::empty(),
    )
}

/// Number `k` of the particles.
spec fn base(k: int) -> Seq<char> {
    if k == 0 {
        "번에게"@
    } else if k == 1 {
        "번에"@
    } else if k == 2 {
        "에게"@
    } else if k == 3 {
        "한테"@
    } else if k == 4 {
        "에다가"@
    } else {
        "에"@
    }
}

proof fn reveal_particles()
    ensures
        "번에게 "@ == seq!['번', '에', '게', ' '],
        "번에게"@ == seq!['번', '에', '게'],
        "번에 "@ == seq!['번', '에', ' '],
        "번에"@ == seq!['번', '에'],
        "에게 "@ == seq!['에', '게', ' '],
        "에게"@ == seq!['에', '게'],
        "한테 "@ == seq!['한', '테', ' '],
        "한테"@ == seq!['한', '테'],
        "에다가 "@ == seq!['에', '다', '가', ' '],
        "에다가"@ == seq!['에', '다', '가'],
        "에 "@ == seq!['에', ' '],
        "에"@ == seq!['에'],
{
    reveal_strlit("번에게 ");
    reveal_strlit("번에게");
    reveal_strlit("번에 ");
    reveal_strlit("번에");
    reveal_strlit("에게 ");
    reveal_strlit("에게");
    reveal_strlit("한테 ");
    reveal_strlit("한테");
    reveal_strlit("에다가 ");
    reveal_strlit("에다가");
    reveal_strlit("에 ");
    reveal_strlit("에");
    assert("번에게 "@ =~= seq!['번', '에', '게', ' ']);
    assert("번에게"@ =~= seq!['번', '에', '게']);
    assert("번에 "@ =~= seq!['번', '에', ' ']);
    assert("번에"@ =~= seq!['번', '에']);
    assert("에게 "@ =~= seq!['에', '게', ' ']);
    assert("에게"@ =~= seq!['에', '게']);
    assert("한테 "@ =~= seq!['한', '테', ' ']);
    assert("한테"@ =~= seq!['한', '테']);
    assert("에다가 "@ =~= seq!['에', '다', '가', ' ']);
    assert("에다가"@ =~= seq!['에', '다', '가']);
    assert("에 "@ =~= seq!['에', ' ']);
    assert("에"@ =~= seq!['에']);
}

proof fn beginning_by_chars(s: Seq<char>, p: Seq<char>)
    ensures
        text::begins_with(s, p) <==> p.len() <= s.len() && forall|i: int|
            0 <= i < p.len() ==> #[trigger] s[i] == p[i],
        text::begins_with(s, p) <==> text_laws::stands_behind(s, p, Seq::empty()),
{
    if text::begins_with(s, p) {
        assert forall|i: int| 0 <= i < p.len() implies #[trigger] s[i] == p[i] by {
            assert(s.subrange(0, p.len() as int)[i] == s[i]);
        }
    }
    if p.len() <= s.len() && forall|i: int| 0 <= i < p.len() ==> #[trigger] s[i] == p[i] {
        assert(s.subrange(0, p.len() as int) =~= p);
    }
    text_laws::standing_is_having_a_front(s, p, 0);
    assert(s.take(0) =~= Seq::<char>::empty());
}

proof fn no_particle_before(s: Seq<char>, i: int, end: int)
    requires
        0 <= i <= end <= 12,
        forall|j: int| i <= j < end ==> !text::begins_with(s, #[trigger] route::particle_text(j)),
    ensures
        route::particle_of(s, i) == route::particle_of(s, end),
    decreases end - i,
{
    if i < end {
        assert(!text::begins_with(s, route::particle_text(i)));
        no_particle_before(s, i + 1, end);
    }
}

/// What follows a particle at the start of a text, without the white space around it.
#[verifier::spinoff_prover]
#[verifier::rlimit(40)]
proof fn particle_goes(k: int, behind: Seq<char>)
    requires
        0 <= k < 6,
        !grows(base(k), behind),
    ensures
        route::without_particle(base(k) + behind) == text::trim(behind),
{
    reveal_particles();
    let p = base(k);
    let s = p + behind;
    let spaced = behind.len() > 0 && behind[0] == ' ';
    let target: int = if spaced {
        2 * k
    } else {
        2 * k + 1
    };
    let t = route::particle_text(target);
    assert forall|i: int| 0 <= i < p.len() implies #[trigger] s[i] == p[i] by {}
    beginning_by_chars(s, t);
    assert(text::begins_with(s, t)) by {
        assert forall|i: int| 0 <= i < t.len() implies #[trigger] s[i] == t[i] by {}
    }
    assert forall|j: int| 0 <= j < target implies !text::begins_with(
        s,
        #[trigger] route::particle_text(j),
    ) by {
        let other = route::particle_text(j);
        beginning_by_chars(s, other);
        if text::begins_with(s, other) {
            assert(s[0] == other[0]);
            if other.len() > 1 {
                assert(s[1] == other[1]);
            }
            if other.len() > 2 {
                assert(s[2] == other[2]);
            }
            if j % 2 == 0 {
                assert(s[other.len() - 1] == ' ');
            }
            let longer = base(j / 2);
            beginning_by_chars(s, longer);
            assert(text::begins_with(s, longer)) by {
                assert forall|i: int| 0 <= i < longer.len() implies #[trigger] s[i] == longer[i] by {
                    assert(s[i] == other[i]);
                }
            }
            if longer.len() > p.len() {
                assert(is_particle(longer));
                assert(grows(p, behind));
            }
        }
    }
    no_particle_before(s, 0, target);
    assert(route::particle_of(s, target) == Some(target));
    if spaced {
        assert(s.skip(t.len() as int) =~= behind.drop_first());
        trim_behind_space(behind);
    } else {
        assert(s.skip(t.len() as int) =~= behind);
    }
}

proof fn trim_behind_space(s: Seq<char>)
    requires
        s.len() > 0,
        text::is_space(s[0]),
    ensures
        text::trim(s.drop_first()) == text::trim(s),
    decreases s.len(),
{
    if s.len() > 1 && text::is_space(s.last()) {
        trim_behind_space(s.drop_last());
        assert(s.drop_first().drop_last() =~= s.drop_last().drop_first());
        assert(s.drop_first().last() == s.last());
    } else if s.len() == 1 {
        reveal_with_fuel(text::trim_end, 2);
        assert(s.drop_first() =~= s.drop_last());
    } else {
        assert(s.drop_first().last() == s.last());
    }
}

proof fn trim_with_spaces(front: Seq<char>, s: Seq<char>)
    requires
        text_laws::all_space(front),
    ensures
        text::trim(front + s) == text::trim(s),
    decreases front.len(),
{
    if front.len() == 0 {
        assert(front + s =~= s);
    } else {
        let rest = front.drop_first();
        assert forall|i: int| 0 <= i < rest.len() implies text::is_space(#[trigger] rest[i]) by {
            assert(rest[i] == front[i + 1]);
        }
        assert(text::is_space(front[0]));
        trim_behind_space(front + s);
        assert((front + s).drop_first() =~= rest + s);
        trim_with_spaces(rest, s);
    }
}

/// Whether `tail` says what to do: behind white space, with or without a particle in front, and
/// with white space behind that.
pub open spec fn says(tail: Seq<char>, content: Seq<char>) -> bool {
    ||| exists|front: Seq<char>, p: Seq<char>, gap: Seq<char>|
        #![trigger text_laws::all_space(front), is_particle(p), text_laws::all_space(gap)]
        {
            &&& text_laws::all_space(front)
            &&& is_particle(p)
            &&& text_laws::all_space(gap)
            &&& !grows(p, gap + content)
            &&& tail == front + (p + (gap + content))
        }
    ||| exists|front: Seq<char>|
        #![trigger text_laws::all_space(front)]
        text_laws::all_space(front) && !begins_with_particle(content) && tail == front + content
}

proof fn trimmed_stays(s: Seq<char>)
    requires
        route::is_trimmed(s),
    ensures
        text::trim(s) == s,
{
}

#[verifier::spinoff_prover]
#[verifier::rlimit(40)]
proof fn tail_gives(tail: Seq<char>, content: Seq<char>)
    requires
        says(tail, content),
        route::is_trimmed(content),
    ensures
        route::without_particle(text::trim(tail)) == content,
{
    reveal_particles();
    trimmed_stays(content);
    if exists|front: Seq<char>, p: Seq<char>, gap: Seq<char>|
        #![trigger text_laws::all_space(front), is_particle(p), text_laws::all_space(gap)]
        {
            &&& text_laws::all_space(front)
            &&& is_particle(p)
            &&& text_laws::all_space(gap)
            &&& !grows(p, gap + content)
            &&& tail == front + (p + (gap + content))
        } {
        let (front, p, gap) = choose|front: Seq<char>, p: Seq<char>, gap: Seq<char>|
            #![trigger text_laws::all_space(front), is_particle(p), text_laws::all_space(gap)]
            {
                &&& text_laws::all_space(front)
                &&& is_particle(p)
                &&& text_laws::all_space(gap)
                &&& !grows(p, gap + content)
                &&& tail == front + (p + (gap + content))
            };
        let inner = p + (gap + content);
        trim_with_spaces(front, inner);
        assert(inner[0] == p[0]);
        assert(inner.last() == content.last());
        trimmed_stays(inner);
        let k: int = if p == "번에게"@ {
            0
        } else if p == "번에"@ {
            1
        } else if p == "에게"@ {
            2
        } else if p == "한테"@ {
            3
        } else if p == "에다가"@ {
            4
        } else {
            5
        };
        assert(base(k) == p);
        particle_goes(k, gap + content);
        trim_with_spaces(gap, content);
    } else {
        let front = choose|front: Seq<char>|
            #![trigger text_laws::all_space(front)]
            text_laws::all_space(front) && !begins_with_particle(content) && tail == front
                + content;
        trim_with_spaces(front, content);
        assert forall|j: int| 0 <= j < 12 implies !text::begins_with(
            content,
            #[trigger] route::particle_text(j),
        ) by {
            let other = route::particle_text(j);
            let p = base(j / 2);
            beginning_by_chars(content, other);
            beginning_by_chars(content, p);
            if text::begins_with(content, other) {
                assert forall|i: int| 0 <= i < p.len() implies #[trigger] content[i] == p[i] by {
                    assert(content[i] == other[i]);
                }
                assert(is_particle(p));
            }
        }
        no_particle_before(content, 0, 12);
    }
}

proof fn reveal_addresses()
    ensures
        "워커 "@ == seq!['워', '커', ' '],
        "워커"@ == seq!['워', '커'],
        "worker "@ == seq!['w', 'o', 'r', 'k', 'e', 'r', ' '],
        "worker"@ == seq!['w', 'o', 'r', 'k', 'e', 'r'],
{
    reveal_strlit("워커 ");
    reveal_strlit("워커");
    reveal_strlit("worker ");
    reveal_strlit("worker");
    assert("워커 "@ =~= seq!['워', '커', ' ']);
    assert("워커"@ =~= seq!['워', '커']);
    assert("worker "@ =~= seq!['w', 'o', 'r', 'k', 'e', 'r', ' ']);
    assert("worker"@ =~= seq!['w', 'o', 'r', 'k', 'e', 'r']);
}

/// What follows an address that white space does not follow.
#[verifier::spinoff_prover]
#[verifier::rlimit(40)]
proof fn address_goes(c: Seq<char>, rest: Seq<char>, lower: Seq<char>)
    requires
        is_address(c),
        rest.len() > 0,
        rest[0] != ' ',
        c.len() < lower.len(),
        forall|i: int| 0 <= i < c.len() ==> #[trigger] lower[i] == c[i],
        lower[c.len() as int] != ' ',
    ensures
        route::after_call(c + rest, lower) == Some(rest),
        c.len() > 0,
        !text::is_space(c[0]),
{
    reveal_addresses();
    reveal_with_fuel(route::call_of, 5);
    let k: int = if c == "워커 "@ {
        0
    } else if c == "워커"@ {
        1
    } else if c == "worker "@ {
        2
    } else {
        3
    };
    assert(route::call_text(k) == c);
    beginning_by_chars(lower, c);
    assert(text::begins_with(lower, c));
    assert forall|j: int| 0 <= j < k implies !text::begins_with(
        lower,
        #[trigger] route::call_text(j),
    ) by {
        let other = route::call_text(j);
        beginning_by_chars(lower, other);
        if text::begins_with(lower, other) {
            assert(lower[0] == other[0]);
            assert(lower[0] == c[0]);
            assert(lower[other.len() - 1] == other[other.len() - 1]);
        }
    }
    assert(route::call_of(lower, 0) == Some(k));
    route::bytes_in_front(c, rest);
}

proof fn reveal_words()
    ensures
        "일"@ == seq!['일'],
        "이"@ == seq!['이'],
        "삼"@ == seq!['삼'],
        "사"@ == seq!['사'],
        "오"@ == seq!['오'],
        "육"@ == seq!['육'],
        "칠"@ == seq!['칠'],
        "팔"@ == seq!['팔'],
        "구"@ == seq!['구'],
        "하나"@ == seq!['하', '나'],
        "둘"@ == seq!['둘'],
        "셋"@ == seq!['셋'],
        "넷"@ == seq!['넷'],
        "다섯"@ == seq!['다', '섯'],
{
    reveal_strlit("일");
    reveal_strlit("이");
    reveal_strlit("삼");
    reveal_strlit("사");
    reveal_strlit("오");
    reveal_strlit("육");
    reveal_strlit("칠");
    reveal_strlit("팔");
    reveal_strlit("구");
    reveal_strlit("하나");
    reveal_strlit("둘");
    reveal_strlit("셋");
    reveal_strlit("넷");
    reveal_strlit("다섯");
    assert("일"@ =~= seq!['일']);
    assert("이"@ =~= seq!['이']);
    assert("삼"@ =~= seq!['삼']);
    assert("사"@ =~= seq!['사']);
    assert("오"@ =~= seq!['오']);
    assert("육"@ =~= seq!['육']);
    assert("칠"@ =~= seq!['칠']);
    assert("팔"@ =~= seq!['팔']);
    assert("구"@ =~= seq!['구']);
    assert("하나"@ =~= seq!['하', '나']);
    assert("둘"@ =~= seq!['둘']);
    assert("셋"@ =~= seq!['셋']);
    assert("넷"@ =~= seq!['넷']);
    assert("다섯"@ =~= seq!['다', '섯']);
}

spec fn word_index(w: Seq<char>, n: nat) -> int {
    if n == 1 && w == "하나"@ {
        9
    } else if n == 2 && w == "둘"@ {
        10
    } else if n == 3 && w == "셋"@ {
        11
    } else if n == 4 && w == "넷"@ {
        12
    } else if n == 5 && w == "다섯"@ {
        13
    } else {
        n - 1
    }
}

proof fn no_word_before(s: Seq<char>, i: int, end: int)
    requires
        0 <= i <= end <= 14,
        forall|j: int| i <= j < end ==> !text::begins_with(s, #[trigger] route::word_text(j)),
    ensures
        route::route_by_word(s, i) == route::route_by_word(s, end),
    decreases end - i,
{
    if i < end {
        assert(!text::begins_with(s, route::word_text(i)));
        no_word_before(s, i + 1, end);
    }
}

#[verifier::spinoff_prover]
#[verifier::rlimit(40)]
proof fn word_goes(w: Seq<char>, n: nat, tail: Seq<char>, content: Seq<char>)
    requires
        is_word_for(w, n),
        says(tail, content),
        route::is_trimmed(content),
    ensures
        route::route_rest(w + tail) == Some(((n - 1) as nat, content)),
        !text::is_space(w[0]),
        w.len() > 0,
        w[0] != ' ',
{
    reveal_words();
    let s = w + tail;
    let k = word_index(w, n);
    assert(route::word_text(k) == w);
    assert(route::word_value(k) == n);
    assert(s[0] == w[0]);
    assert(!text::is_digit(s[0]));
    assert(route::digit_count(s) == 0);
    beginning_by_chars(s, w);
    assert(text::begins_with(s, w));
    assert forall|j: int| 0 <= j < k implies !text::begins_with(
        s,
        #[trigger] route::word_text(j),
    ) by {
        let other = route::word_text(j);
        beginning_by_chars(s, other);
        if text::begins_with(s, other) {
            assert(s[0] == other[0]);
        }
    }
    no_word_before(s, 0, k);
    assert(s.skip(w.len() as int) =~= tail);
    tail_gives(tail, content);
}

proof fn digits_go(n: nat, tail: Seq<char>, content: Seq<char>)
    requires
        0 < n <= usize::MAX,
        says(tail, content),
        route::is_trimmed(content),
        tail.len() > 0,
        !text::is_digit(tail[0]),
    ensures
        route::route_rest(text::digits(n) + tail) == Some(((n - 1) as nat, content)),
{
    let d = text::digits(n);
    let s = d + tail;
    route::digits_stand_for(n);
    assert forall|i: int| 0 <= i < d.len() implies text::is_digit(#[trigger] s[i]) by {
        assert(text::is_digit(d[i]));
    }
    assert(s[d.len() as int] == tail[0]);
    route::digit_count_is(s, d.len() as int);
    assert(s.take(d.len() as int) =~= d);
    assert(s.skip(d.len() as int) =~= tail);
    tail_gives(tail, content);
}

proof fn tail_ends(tail: Seq<char>, content: Seq<char>)
    requires
        says(tail, content),
        content.len() > 0,
    ensures
        tail.len() > 0,
        tail.last() == content.last(),
{
}

/// A command that addresses a worker by number, written out or as a word, gives that worker
/// exactly what is said behind the particle, whatever it is. The particle may have white space
/// before and behind it, and may be missing where something else is said.
pub proof fn named_worker_gets_the_content(
    c: Seq<char>,
    w: Seq<char>,
    n: nat,
    tail: Seq<char>,
    content: Seq<char>,
    lower: Seq<char>,
)
    requires
        is_address(c),
        0 < n <= usize::MAX,
        is_word_for(w, n) || (w == text::digits(n) && tail.len() > 0 && !text::is_digit(tail[0])),
        says(tail, content),
        route::is_trimmed(content),
        c.len() < lower.len(),
        forall|i: int| 0 <= i < c.len() ==> #[trigger] lower[i] == c[i],
        lower[c.len() as int] != ' ',
    ensures
        route::route(c + (w + tail), lower) == Some(((n - 1) as nat, content)),
{
    let rest = w + tail;
    tail_ends(tail, content);
    if is_word_for(w, n) {
        word_goes(w, n, tail, content);
    } else {
        digits_go(n, tail, content);
        route::digits_stand_for(n);
        assert(text::is_digit(w[0]));
    }
    assert(rest[0] == w[0]);
    address_goes(c, rest, lower);
    let s = c + rest;
    assert(s[0] == c[0]);
    assert(rest.last() == content.last());
    assert(s.last() == content.last());
    trimmed_stays(s);
    trimmed_stays(rest);
}

/// The same with one particle and one space behind it, and with any lower case that begins as
/// the address and the number do.
pub proof fn worker_named_by_a_word_gets_the_content(
    c: Seq<char>,
    w: Seq<char>,
    n: nat,
    p: Seq<char>,
    content: Seq<char>,
    lower: Seq<char>,
)
    requires
        is_address(c),
        is_word_for(w, n),
        is_particle(p),
        route::is_trimmed(content),
        c.len() < lower.len(),
        forall|i: int| 0 <= i < c.len() ==> #[trigger] lower[i] == c[i],
        lower[c.len() as int] != ' ',
    ensures
        route::route(c + w + p + seq![' '] + content, lower) == Some(((n - 1) as nat, content)),
{
    let tail = Seq::<char>::empty() + (p + (seq![' '] + content));
    particle_and_space_say(p, content);
    named_worker_gets_the_content(c, w, n, tail, content, lower);
    assert(c + w + p + seq![' '] + content =~= c + (w + tail));
}

proof fn particle_and_space_say(p: Seq<char>, content: Seq<char>)
    requires
        is_particle(p),
    ensures
        says(Seq::<char>::empty() + (p + (seq![' '] + content)), content),
{
    let gap = seq![' '];
    let behind = gap + content;
    reveal_particles();
    assert(!grows(p, behind)) by {
        if grows(p, behind) {
            let longer = choose|longer: Seq<char>| #[trigger] is_particle(longer) && longer.len()
                > p.len() && text_laws::stands_behind(p + behind, longer, Seq::empty());
            beginning_by_chars(p + behind, longer);
            assert((p + behind)[p.len() as int] == ' ');
            assert(longer[p.len() as int] == ' ');
        }
    }
    assert(text_laws::all_space(Seq::<char>::empty()));
    assert(text_laws::all_space(gap));
}

/// A command that begins with no address names no worker.
pub proof fn others_are_not_addressed(s: Seq<char>, lower: Seq<char>)
    requires
        !text_laws::stands_behind(lower, "워커"@, Seq::empty()),
        !text_laws::stands_behind(lower, "worker"@, Seq::empty()),
    ensures
        route::route(s, lower) is None,
{
    reveal_addresses();
    reveal_with_fuel(route::call_of, 5);
    beginning_by_chars(lower, "워커"@);
    beginning_by_chars(lower, "worker"@);
    assert forall|j: int| 0 <= j < 4 implies !text::begins_with(
        lower,
        #[trigger] route::call_text(j),
    ) by {
        let other = route::call_text(j);
        beginning_by_chars(lower, other);
        if text::begins_with(lower, other) {
            let short = if j < 2 {
                "워커"@
            } else {
                "worker"@
            };
            assert forall|i: int| 0 <= i < short.len() implies #[trigger] lower[i] == short[i] by {
                assert(lower[i] == other[i]);
            }
        }
    }
}

/// Where a worker is named, it is one from the first on, and something is said to it, without
/// white space around it.
pub proof fn named_workers_are_told_something(s: Seq<char>, lower: Seq<char>)
    ensures
        route::route(s, lower) matches Some((worker, content)) ==> worker < usize::MAX
            && route::is_trimmed(content),
{
    match route::after_call(text::trim(s), lower) {
        Some(rest) => {
            let t = text::trim(rest);
            let k = route::digit_count(t) as int;
            if k == 0 {
                words_tell_something(t, 0);
            } else {
                stripped_is_trimmed(text::trim(t.skip(k)));
            }
        },
        None => {},
    }
}

proof fn stripped_is_trimmed(s: Seq<char>)
    ensures
        route::without_particle(s).len() > 0 ==> route::is_trimmed(route::without_particle(s)),
{
    text_laws::trimming(s);
    match route::particle_of(s, 0) {
        Some(i) => text_laws::trimming(s.skip(route::particle_text(i).len() as int)),
        None => {},
    }
}

proof fn words_tell_something(rest: Seq<char>, i: int)
    requires
        0 <= i,
    ensures
        route::route_by_word(rest, i) matches Some((worker, content)) ==> worker < 9
            && route::is_trimmed(content),
    decreases 14 - i,
{
    if i < 14 {
        stripped_is_trimmed(text::trim(rest.skip(route::word_text(i).len() as int)));
        words_tell_something(rest, i + 1);
    }
}

/// There is no worker before the first, and a worker to whom nothing is said is not addressed.
pub proof fn no_worker_is_told_nothing(c: Seq<char>, n: nat, tail: Seq<char>, lower: Seq<char>)
    requires
        is_address(c),
        c.len() < lower.len(),
        forall|i: int| 0 <= i < c.len() ==> #[trigger] lower[i] == c[i],
        lower[c.len() as int] != ' ',
        n == 0 && tail.len() > 0 && !text::is_digit(tail[0]) && !text::is_space(tail.last())
            || tail.len() == 0,
    ensures
        route::route(c + (text::digits(n) + tail), lower) is None,
{
    let d = text::digits(n);
    let rest = d + tail;
    route::digits_stand_for(n);
    assert(text::is_digit(d[0]));
    assert(text::is_digit(d[d.len() - 1]));
    assert(rest[0] == d[0]);
    address_goes(c, rest, lower);
    let s = c + rest;
    assert(s[0] == c[0]);
    assert(s.last() == rest.last());
    trimmed_stays(s);
    trimmed_stays(rest);
    assert forall|i: int| 0 <= i < d.len() implies text::is_digit(#[trigger] rest[i]) by {
        assert(text::is_digit(d[i]));
    }
    if tail.len() > 0 {
        assert(rest[d.len() as int] == tail[0]);
    }
    route::digit_count_is(rest, d.len() as int);
    assert(rest.take(d.len() as int) =~= d);
    assert(rest.skip(d.len() as int) =~= tail);
    if tail.len() == 0 {
        nothing_is_stripped(tail);
    }
}

proof fn nothing_is_stripped(s: Seq<char>)
    requires
        s.len() == 0,
    ensures
        route::without_particle(text::trim(s)).len() == 0,
{
    reveal_particles();
    let t = text::trim(s);
    assert(t.len() == 0);
    assert forall|j: int| 0 <= j < 12 implies !text::begins_with(
        t,
        #[trigger] route::particle_text(j),
    ) by {
        assert(route::particle_text(j).len() > 0);
    }
    no_particle_before(t, 0, 12);
}

/// Capital letters of ASCII have their small letters as lower case, and everything else that has
/// no case stays.
pub proof fn lower_case_of_letters(n: nat, c: char)
    requires
        n < 26,
    ensures
        route::simple_lower((65 + n) as u8 as char) == (97 + n) as u8 as char,
        !('A' <= c && c <= 'Z') ==> route::simple_lower(c) == c,
{
}

} // verus!
