//! Paths as text: the home directory, joining, and sorting by name.

use crate::text;
use crate::text::{chars_of, push_text, slice_of, stands_at, to_text};
use vstd::prelude::*;

verus! {

/// The path without its last component, as `std::path::Path::parent` gives it.
pub uninterp spec fn parent_of(path: Seq<char>) -> Option<Seq<char>>;

/// The last component of a path, as `std::path::Path::file_name` gives it.
pub uninterp spec fn file_name_of(path: Seq<char>) -> Option<Seq<char>>;

/// Calls `std::path::Path::parent`. An empty path has no parent. How a path is taken apart into
/// components is left to the name.
#[verifier::external_body]
pub(crate) fn path_parent(path: &str) -> (r: Option<String>)
    ensures
        text::opt_text(r) == parent_of(path@),
        path@.len() == 0 ==> r is None,
{
    std::path::Path::new(path).parent().map(|p| p.to_string_lossy().into_owned())
}

/// Calls `std::path::Path::file_name`. How a path is taken apart into components is left to
/// the name.
#[verifier::external_body]
pub(crate) fn path_file_name(path: &str) -> (r: Option<String>)
    ensures
        text::opt_text(r) == file_name_of(path@),
{
    std::path::Path::new(path).file_name().map(|p| p.to_string_lossy().into_owned())
}

/// Path `tail` seen from `base`: itself if it is absolute, else behind `base` and a separator.
pub open spec fn joined(base: Seq<char>, tail: Seq<char>) -> Seq<char> {
    if tail.len() > 0 && tail[0] == '/' {
        tail
    } else if base.len() == 0 || base.last() == '/' {
        base + tail
    } else {
        base.push('/') + tail
    }
}

/// Path `tail` seen from `base`.
pub fn join_path(base: &str, tail: &str) -> (r: String)
    ensures
        r@ == joined(base@, tail@),
{
    let b = chars_of(base);
    let t = chars_of(tail);
    if t.len() > 0 && t[0] == '/' {
        return tail.to_owned();
    }
    let mut r = base.to_owned();
    if b.len() > 0 && b[b.len() - 1] != '/' {
        r.push('/');
    }
    push_text(&mut r, tail);
    r
}

/// `path` with the home directory in place of a tilde at its start.
pub open spec fn expanded(path: Seq<char>, home: Seq<char>) -> Seq<char> {
    if path.len() > 0 && path[0] == '~' {
        home + path.drop_first()
    } else {
        path
    }
}

/// `path` with a tilde in place of the home directory at its start.
pub open spec fn abbreviated(path: Seq<char>, home: Seq<char>) -> Seq<char> {
    if home.len() > 0 && text::begins_with(path, home) {
        seq!['~'] + path.skip(home.len() as int)
    } else {
        path
    }
}

/// `path` with the home directory in place of a tilde at its start.
pub fn expand_home(path: &str, home: &str) -> (r: String)
    ensures
        r@ == expanded(path@, home@),
{
    let p = chars_of(path);
    if p.len() > 0 && p[0] == '~' {
        let mut r = home.to_owned();
        let rest = to_text(&slice_of(&p, 1, p.len()));
        push_text(&mut r, rest.as_str());
        assert(r@ =~= expanded(path@, home@));
        r
    } else {
        path.to_owned()
    }
}

/// `path` with a tilde in place of the home directory at its start.
pub fn abbreviate_home(path: &str, home: &str) -> (r: String)
    ensures
        r@ == abbreviated(path@, home@),
{
    let p = chars_of(path);
    let h = chars_of(home);
    if h.len() > 0 && stands_at(&p, &h, 0) {
        let mut r = "~".to_owned();
        let rest = to_text(&slice_of(&p, h.len(), p.len()));
        push_text(&mut r, rest.as_str());
        proof {
            reveal_strlit("~");
        }
        assert(r@ =~= abbreviated(path@, home@));
        r
    } else {
        path.to_owned()
    }
}

/// An abbreviated path expands to the path again.
pub proof fn abbreviation_expands_back(path: Seq<char>, home: Seq<char>)
    requires
        home.len() > 0,
        path.len() > 0 ==> path[0] != '~',
    ensures
        expanded(abbreviated(path, home), home) == path,
{
    if text::begins_with(path, home) {
        let short = abbreviated(path, home);
        assert(short.drop_first() =~= path.skip(home.len() as int));
        assert(path =~= home + path.skip(home.len() as int));
    }
}

/// The working directory of a new worker from what was entered for it: none for an empty
/// entry, else the path with the home directory for a tilde, seen from the current directory.
pub open spec fn resolved(
    entry: Seq<char>,
    home: Option<Seq<char>>,
    current: Option<Seq<char>>,
) -> Option<Seq<char>> {
    if entry.len() == 0 {
        None
    } else {
        let path = match home {
            Some(h) => expanded(entry, h),
            None => entry,
        };
        Some(
            match current {
                Some(dir) => joined(dir, path),
                None => path,
            },
        )
    }
}

/// The working directory of a new worker from what was entered for it.
pub fn resolve_cwd(entry: &str, home: &Option<String>, current: &Option<String>) -> (r: Option<
    String,
>)
    ensures
        text::opt_text(r) == resolved(entry@, text::opt_text(*home), text::opt_text(*current)),
{
    if chars_of(entry).len() == 0 {
        return None;
    }
    let path = match home {
        Some(h) => expand_home(entry, h.as_str()),
        None => entry.to_owned(),
    };
    match current {
        Some(dir) => Some(join_path(dir.as_str(), path.as_str())),
        None => Some(path),
    }
}

/// Whether `a` comes before `b` or is the same, by the numbers of their characters.
pub open spec fn not_after(a: Seq<char>, b: Seq<char>) -> bool
    decreases a.len(),
{
    if a.len() == 0 {
        true
    } else if b.len() == 0 {
        false
    } else if a[0] != b[0] {
        a[0] < b[0]
    } else {
        not_after(a.drop_first(), b.drop_first())
    }
}

/// Whether every text of `s` comes before the next or is the same.
pub open spec fn in_order(s: Seq<Seq<char>>) -> bool {
    forall|i: int, j: int| 0 <= i <= j < s.len() ==> not_after(#[trigger] s[i], #[trigger] s[j])
}

/// The order is total, and only the same texts are both before and after each other.
pub proof fn not_after_is_total(a: Seq<char>, b: Seq<char>)
    ensures
        not_after(a, b) || not_after(b, a),
        not_after(a, a),
        not_after(a, b) && not_after(b, a) ==> a == b,
    decreases a.len(),
{
    if a.len() > 0 && b.len() > 0 {
        not_after_is_total(a.drop_first(), b.drop_first());
        if a[0] == b[0] && not_after(a, b) && not_after(b, a) {
            assert(a =~= seq![a[0]] + a.drop_first());
            assert(b =~= seq![b[0]] + b.drop_first());
        }
    } else if a.len() > 0 {
        not_after_is_total(a.drop_first(), b);
    } else if b.len() == 0 {
        assert(a =~= b);
    }
}

/// The order is transitive.
pub proof fn not_after_is_transitive(a: Seq<char>, b: Seq<char>, c: Seq<char>)
    requires
        not_after(a, b),
        not_after(b, c),
    ensures
        not_after(a, c),
    decreases a.len(),
{
    if a.len() > 0 && b.len() > 0 && c.len() > 0 && a[0] == b[0] && b[0] == c[0] {
        not_after_is_transitive(a.drop_first(), b.drop_first(), c.drop_first());
    }
}

/// Whether `a` comes before `b` or is the same.
fn is_not_after(a: &Vec<char>, b: &Vec<char>) -> (r: bool)
    ensures
        r == not_after(a@, b@),
{
    let mut i: usize = 0;
    assert(a@.skip(0) =~= a@);
    assert(b@.skip(0) =~= b@);
    while i < a.len() && i < b.len()
        invariant
            i <= a.len(),
            i <= b.len(),
            not_after(a@.skip(i as int), b@.skip(i as int)) == not_after(a@, b@),
        decreases a.len() - i,
    {
        if a[i] != b[i] {
            return a[i] < b[i];
        }
        assert(a@.skip(i as int).drop_first() =~= a@.skip(i + 1));
        assert(b@.skip(i as int).drop_first() =~= b@.skip(i + 1));
        i = i + 1;
    }
    i == a.len()
}

/// The same texts in order.
pub open spec fn sorted_of(s: Seq<Seq<char>>) -> Seq<Seq<char>>
    decreases s.len(),
{
    if s.len() == 0 {
        seq![]
    } else {
        placed_in(sorted_of(s.drop_last()), s.last())
    }
}

/// `s` with `t` put in behind the last text that does not come after it.
pub open spec fn placed_in(s: Seq<Seq<char>>, t: Seq<char>) -> Seq<Seq<char>>
    decreases s.len(),
{
    if s.len() == 0 || not_after(s.last(), t) {
        s.push(t)
    } else {
        placed_in(s.drop_last(), t).push(s.last())
    }
}

proof fn placing_keeps_order(s: Seq<Seq<char>>, t: Seq<char>)
    requires
        in_order(s),
    ensures
        in_order(placed_in(s, t)),
        placed_in(s, t).len() == s.len() + 1,
        placed_in(s, t).to_multiset() == s.to_multiset().insert(t),
        forall|i: int| 0 <= i < placed_in(s, t).len() ==> (#[trigger] placed_in(s, t)[i]) == t
            || s.contains(placed_in(s, t)[i]),
    decreases s.len(),
{
    broadcast use vstd::seq_lib::group_to_multiset_ensures;

    let r = placed_in(s, t);
    not_after_is_total(t, t);
    if s.len() == 0 || not_after(s.last(), t) {
        assert forall|i: int, j: int| 0 <= i <= j < r.len() implies not_after(
            #[trigger] r[i],
            #[trigger] r[j],
        ) by {
            if j == s.len() && i < j {
                assert(not_after(s[i], s[s.len() - 1]));
                not_after_is_transitive(s[i], s.last(), t);
            }
        }
        assert forall|i: int| 0 <= i < r.len() implies (#[trigger] r[i]) == t || s.contains(
            r[i],
        ) by {
            if i < s.len() {
                assert(r[i] == s[i]);
            }
        }
    } else {
        let front = s.drop_last();
        let last = s.last();
        not_after_is_total(last, t);
        not_after_is_total(last, last);
        assert(in_order(front));
        placing_keeps_order(front, t);
        let q = placed_in(front, t);
        assert forall|i: int, j: int| 0 <= i <= j < r.len() implies not_after(
            #[trigger] r[i],
            #[trigger] r[j],
        ) by {
            if j == q.len() && i < j {
                assert(q[i] == t || front.contains(q[i]));
                if q[i] != t {
                    let k = choose|k: int| 0 <= k < front.len() && front[k] == q[i];
                    assert(not_after(s[k], s[s.len() - 1]));
                }
            } else if i < q.len() && j < q.len() {
                assert(not_after(q[i], q[j]));
            }
        }
        assert forall|i: int| 0 <= i < r.len() implies (#[trigger] r[i]) == t || s.contains(
            r[i],
        ) by {
            if i < q.len() {
                assert(r[i] == q[i]);
                if q[i] != t {
                    let k = choose|k: int| 0 <= k < front.len() && front[k] == q[i];
                    assert(s[k] == r[i]);
                }
            } else {
                assert(s[s.len() - 1] == r[i]);
            }
        }
        assert(front.push(last) =~= s);
        assert(s.to_multiset() == front.to_multiset().insert(last));
        assert(r.to_multiset() == q.to_multiset().insert(last));
        assert(front.to_multiset().insert(t).insert(last) =~= front.to_multiset().insert(
            last,
        ).insert(t));
    }
}

/// Sorting keeps the texts and puts them in order.
pub proof fn sorting_orders(s: Seq<Seq<char>>)
    ensures
        in_order(sorted_of(s)),
        sorted_of(s).len() == s.len(),
        sorted_of(s).to_multiset() == s.to_multiset(),
    decreases s.len(),
{
    broadcast use vstd::seq_lib::group_to_multiset_ensures;

    if s.len() > 0 {
        sorting_orders(s.drop_last());
        placing_keeps_order(sorted_of(s.drop_last()), s.last());
        assert(s.drop_last().push(s.last()) =~= s);
    } else {
        assert(s =~= sorted_of(s));
    }
}

/// Puts a text in behind the last one that does not come after it.
fn place(v: &mut Vec<String>, t: String)
    ensures
        text::strings(final(v)@) == placed_in(text::strings(old(v)@), t@),
{
    let key = chars_of(t.as_str());
    let mut i: usize = v.len();
    let ghost s = text::strings(v@);
    assert(s.take(i as int) =~= s);
    assert(s.skip(i as int) =~= seq![]);
    assert(placed_in(s, t@) =~= placed_in(s.take(i as int), t@) + s.skip(i as int));
    while i > 0 && !is_not_after(&chars_of(v[i - 1].as_str()), &key)
        invariant
            i <= v.len(),
            *v == *old(v),
            s == text::strings(v@),
            key@ == t@,
            placed_in(s, t@) == placed_in(s.take(i as int), t@) + s.skip(i as int),
        decreases i,
    {
        assert(s.take(i as int).drop_last() =~= s.take(i - 1));
        assert(s.take(i as int).last() == s[i - 1]);
        assert(s.skip(i - 1) =~= seq![s[i - 1]] + s.skip(i as int));
        assert(placed_in(s, t@) =~= placed_in(s.take(i - 1), t@) + s.skip(i - 1));
        i = i - 1;
    }
    proof {
        if i > 0 {
            assert(s.take(i as int).last() == s[i - 1]);
        }
    }
    v.insert(i, t);
    assert(text::strings(v@) =~= s.take(i as int).push(t@) + s.skip(i as int));
}

/// Sorts texts by the numbers of their characters.
pub fn sort_texts(v: Vec<String>) -> (r: Vec<String>)
    ensures
        text::strings(r@) == sorted_of(text::strings(v@)),
        in_order(text::strings(r@)),
{
    let mut r: Vec<String> = Vec::new();
    let ghost s = text::strings(v@);
    let mut i: usize = 0;
    assert(text::strings(r@) =~= sorted_of(s.take(0)));
    while i < v.len()
        invariant
            i <= v.len(),
            s == text::strings(v@),
            text::strings(r@) == sorted_of(s.take(i as int)),
        decreases v.len() - i,
    {
        place(&mut r, text::copy_text(&v[i]));
        assert(s.take(i + 1).drop_last() =~= s.take(i as int));
        assert(s.take(i + 1).last() == s[i as int]);
        i = i + 1;
    }
    assert(s.take(s.len() as int) =~= s);
    proof {
        sorting_orders(s);
    }
    r
}

/// A relative path behind a directory has one separator in front of it, and an absolute one
/// stands for itself.
pub proof fn paths_are_joined(base: Seq<char>, tail: Seq<char>)
    requires
        tail.len() > 0,
    ensures
        tail[0] == '/' ==> joined(base, tail) == tail,
        tail[0] != '/' && base.len() > 0 && base.last() != '/' ==> joined(base, tail) == base + seq![
            '/',
        ] + tail,
        tail[0] != '/' && base.len() > 0 && base.last() == '/' ==> joined(base, tail) == base
            + tail,
        tail[0] != '/' && base.len() == 0 ==> joined(base, tail) == tail,
{
    assert(base.push('/') =~= base + seq!['/']);
    if base.len() == 0 {
        assert(base + tail =~= tail);
    }
}

/// A tilde at the start of a path stands for the home directory, and nothing else does.
pub proof fn tildes_are_expanded(path: Seq<char>, home: Seq<char>)
    ensures
        expanded(seq!['~'] + path, home) == home + path,
        path.len() == 0 || path[0] != '~' ==> expanded(path, home) == path,
{
    assert((seq!['~'] + path).drop_first() =~= path);
}

/// The home directory at the start of a path is shown as a tilde, and other paths stay.
pub proof fn home_is_abbreviated(rest: Seq<char>, path: Seq<char>, home: Seq<char>)
    requires
        home.len() > 0,
    ensures
        abbreviated(home + rest, home) == seq!['~'] + rest,
        abbreviated(path, home) != path ==> path == home + path.skip(home.len() as int),
{
    assert((home + rest).subrange(0, home.len() as int) =~= home);
    assert((home + rest).skip(home.len() as int) =~= rest);
    if text::begins_with(path, home) {
        assert(path =~= home + path.skip(home.len() as int));
    }
}

/// Texts are in the order of their first different characters, a start of a text before it.
pub proof fn texts_are_ordered_by_characters(
    start: Seq<char>,
    a: char,
    b: char,
    rest_a: Seq<char>,
    rest_b: Seq<char>,
)
    ensures
        a < b ==> not_after(start + seq![a] + rest_a, start + seq![b] + rest_b),
        a < b ==> !not_after(start + seq![b] + rest_b, start + seq![a] + rest_a),
        not_after(start, start + rest_a),
        rest_a.len() > 0 ==> !not_after(start + rest_a, start),
    decreases start.len(),
{
    let x = start + seq![a] + rest_a;
    let y = start + seq![b] + rest_b;
    if start.len() == 0 {
        assert(x[0] == a && y[0] == b);
    } else {
        let rest = start.drop_first();
        texts_are_ordered_by_characters(rest, a, b, rest_a, rest_b);
        assert(x.drop_first() =~= rest + seq![a] + rest_a);
        assert(y.drop_first() =~= rest + seq![b] + rest_b);
        assert((start + rest_a).drop_first() =~= rest + rest_a);
        assert(x[0] == start[0] && y[0] == start[0] && (start + rest_a)[0] == start[0]);
    }
}

} // verus!
