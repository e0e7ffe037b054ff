//! Completion of directory paths: by the start of a name where a path is spelled out, by a
//! search below the home directory otherwise.

pub mod completer;
pub mod laws;
pub mod search;

use crate::paths;
use crate::paths::{abbreviate_home, expand_home, path_file_name, path_parent, sort_texts};
use crate::route;
use crate::route::to_lowercase;
use crate::text;
use crate::text::{chars_of, copy_text, push_text, split_of, stands_at, to_text};
use search::{Listing, Query, MAX_RESULTS};
use vstd::prelude::*;

verus! {

/// Where completion of a path looks: the directory, what names in it have to begin with, and
/// what stands in front of a name in the completed path.
pub struct PathQuery {
    pub dir: String,
    pub prefix: String,
    pub base: String,
}

/// Where completion of a path looks, with texts as sequences.
pub struct PathQueryView {
    pub dir: Seq<char>,
    pub prefix: Seq<char>,
    pub base: Seq<char>,
}

impl View for PathQuery {
    type V = PathQueryView;

    open spec fn view(&self) -> PathQueryView {
        PathQueryView { dir: self.dir@, prefix: self.prefix@, base: self.base@ }
    }
}

/// The path that an input stands for: the home directory for a tilde at its start, the current
/// directory where it is empty.
pub open spec fn full_input(input: Seq<char>, home: Seq<char>) -> Seq<char> {
    if input.len() == 0 {
        "."@
    } else {
        paths::expanded(input, home)
    }
}

/// Whether `s` ends with a separator.
pub open spec fn ends_open(s: Seq<char>) -> bool {
    s.len() > 0 && s.last() == '/'
}

/// Where completion looks, for an input that stands for path `full`, which has the given
/// parent and last component.
pub open spec fn looked_in(
    input: Seq<char>,
    full: Seq<char>,
    is_dir: bool,
    parent: Option<Seq<char>>,
    name: Option<Seq<char>>,
) -> PathQueryView {
    let (dir, prefix) = if (ends_open(input) || input.len() == 0) && is_dir {
        (full, Seq::empty())
    } else {
        (
            match parent {
                Some(p) => p,
                None => "."@,
            },
            match name {
                Some(n) => n,
                None => Seq::empty(),
            },
        )
    };
    let base = if ends_open(full) || input.len() == 0 {
        full
    } else if dir == "."@ {
        Seq::empty()
    } else {
        dir.push('/')
    };
    PathQueryView { dir, prefix, base }
}

/// Where completion of `input` looks.
pub open spec fn query_of(input: Seq<char>, home: Seq<char>, is_dir: bool) -> PathQueryView {
    let full = full_input(input, home);
    looked_in(input, full, is_dir, paths::parent_of(full), paths::file_name_of(full))
}

/// The completed path for directory `name`, if it fits: names that begin with a dot only where
/// one was typed.
pub open spec fn completion(q: PathQueryView, home: Seq<char>, name: Seq<char>) -> Option<
    Seq<char>,
> {
    let hidden = name.len() > 0 && name[0] == '.' && !(q.prefix.len() > 0 && q.prefix[0] == '.');
    if !hidden && text::begins_with(name, q.prefix) {
        Some(paths::abbreviated((q.base + name).push('/'), home))
    } else {
        None
    }
}

/// The completed paths for directories `names`, in their order.
pub open spec fn completions(q: PathQueryView, home: Seq<char>, names: Seq<Seq<char>>) -> Seq<
    Seq<char>,
>
    decreases names.len(),
{
    if names.len() == 0 {
        seq![]
    } else {
        let before = completions(q, home, names.drop_last());
        match completion(q, home, names.last()) {
            Some(path) => before.push(path),
            None => before,
        }
    }
}

/// `s` without neighbours that are the same.
pub open spec fn deduped(s: Seq<Seq<char>>) -> Seq<Seq<char>>
    decreases s.len(),
{
    if s.len() < 2 {
        s
    } else if s.last() == s[s.len() - 2] {
        deduped(s.drop_last())
    } else {
        deduped(s.drop_last()).push(s.last())
    }
}

/// The first results of `s`.
pub open spec fn first_few(s: Seq<Seq<char>>) -> Seq<Seq<char>> {
    if s.len() <= MAX_RESULTS {
        s
    } else {
        s.take(MAX_RESULTS as int)
    }
}

/// Results of a search as they are offered: in order, each once, the first few.
pub open spec fn offered(found: Seq<Seq<char>>) -> Seq<Seq<char>> {
    first_few(deduped(paths::sorted_of(found)))
}

/// The pieces of a path that are not empty.
pub open spec fn pieces(input: Seq<char>) -> Seq<Seq<char>> {
    text::split_at_char(input, '/').filter(|s: Seq<char>| s.len() > 0)
}

/// What is searched for: the pieces of the input in lower case.
pub open spec fn segments_of(input: Seq<char>) -> Seq<Seq<char>> {
    Seq::new(pieces(input).len(), |i: int| route::lowered(pieces(input)[i]))
}

/// Whether an input spells out a path.
pub open spec fn is_explicit(input: Seq<char>) -> bool {
    input.len() > 0 && (input[0] == '~' || input[0] == '/' || input[0] == '.')
}

/// Whether the current directory is searched besides the home directory.
pub open spec fn searches_current(current: Option<Seq<char>>, home: Seq<char>) -> bool {
    match current {
        Some(dir) => !text::begins_with(dir, home) || dir == home,
        None => false,
    }
}

/// Directories as they are: the names of the directories in each, and which paths are one.
pub struct Directories {
    pub names: spec_fn(Seq<char>) -> Seq<Seq<char>>,
    pub is_dir: spec_fn(Seq<char>) -> bool,
}

/// The listing of directories for a search.
pub open spec fn listing(dirs: Directories) -> Listing {
    Listing { names: dirs.names, lower: |s: Seq<char>| route::lowered(s) }
}

/// Results of a search for `segments`.
pub open spec fn searched(
    dirs: Directories,
    segments: Seq<Seq<char>>,
    home: Seq<char>,
    current: Option<Seq<char>>,
) -> Seq<Seq<char>> {
    if segments.len() == 0 || home.len() == 0 {
        seq![]
    } else {
        let q = Query { segments, home };
        let found = search::visited(listing(dirs), q, home, 0, 3, seq![]);
        offered(
            if searches_current(current, home) {
                search::visited(listing(dirs), q, current.unwrap(), 0, 2, found)
            } else {
                found
            },
        )
    }
}

/// How many directories are listed in a search for `segments`.
pub open spec fn searched_listings(
    dirs: Directories,
    segments: Seq<Seq<char>>,
    home: Seq<char>,
    current: Option<Seq<char>>,
) -> nat {
    if segments.len() == 0 || home.len() == 0 {
        0
    } else {
        let q = Query { segments, home };
        let found = search::visited(listing(dirs), q, home, 0, 3, seq![]);
        search::visit_listings(listing(dirs), q, home, 0, 3, seq![]) + if searches_current(
            current,
            home,
        ) {
            search::visit_listings(listing(dirs), q, current.unwrap(), 0, 2, found)
        } else {
            0
        }
    }
}

/// Completion of a path that is spelled out.
pub open spec fn path_completions(dirs: Directories, input: Seq<char>, home: Seq<char>) -> Seq<
    Seq<char>,
> {
    let q = query_of(input, home, (dirs.is_dir)(full_input(input, home)));
    paths::sorted_of(completions(q, home, (dirs.names)(q.dir)))
}

/// What is offered for an input: completions of a path that is spelled out, if there are any,
/// else what a search finds.
pub open spec fn answer(
    dirs: Directories,
    input: Seq<char>,
    home: Seq<char>,
    current: Option<Seq<char>>,
) -> Seq<Seq<char>> {
    if input.len() == 0 {
        seq![]
    } else if is_explicit(input) && path_completions(dirs, input, home).len() > 0 {
        first_few(path_completions(dirs, input, home))
    } else {
        searched(dirs, segments_of(input), home, current)
    }
}

/// How many directories are listed to find out what is offered for an input: the one of a path
/// that is spelled out, and those of a search, if there is one.
pub open spec fn answer_listings(
    dirs: Directories,
    input: Seq<char>,
    home: Seq<char>,
    current: Option<Seq<char>>,
) -> nat {
    if input.len() == 0 {
        0
    } else if !is_explicit(input) {
        searched_listings(dirs, segments_of(input), home, current)
    } else if path_completions(dirs, input, home).len() > 0 {
        1
    } else {
        1 + searched_listings(dirs, segments_of(input), home, current)
    }
}

/// Where completion looks, for an input that stands for path `full`, which has the given
/// parent and last component.
pub fn path_query_of(
    input: &str,
    full: &str,
    is_dir: bool,
    parent: Option<String>,
    name: Option<String>,
) -> (q: PathQuery)
    ensures
        q@ == looked_in(input@, full@, is_dir, text::opt_text(parent), text::opt_text(name)),
{
    let i = chars_of(input);
    let f = chars_of(full);
    let whole = (i.len() == 0 || i[i.len() - 1] == '/') && is_dir;
    let dir = if whole {
        full.to_owned()
    } else {
        match parent {
            Some(p) => p,
            None => ".".to_owned(),
        }
    };
    let prefix = if whole {
        String::new()
    } else {
        match name {
            Some(n) => n,
            None => String::new(),
        }
    };
    let here = text::same_chars(&chars_of(dir.as_str()), &chars_of("."));
    let base = if (f.len() > 0 && f[f.len() - 1] == '/') || i.len() == 0 {
        full.to_owned()
    } else if here {
        String::new()
    } else {
        let mut b = copy_text(&dir);
        b.push('/');
        b
    };
    PathQuery { dir, prefix, base }
}

/// The path that an input stands for.
pub fn input_path(input: &str, home: &str) -> (full: String)
    ensures
        full@ == full_input(input@, home@),
{
    if chars_of(input).len() == 0 {
        ".".to_owned()
    } else {
        expand_home(input, home)
    }
}

/// Where completion of an input looks.
pub fn path_query(input: &str, home: &str, is_dir: bool) -> (q: PathQuery)
    ensures
        q@ == query_of(input@, home@, is_dir),
{
    let full = input_path(input, home);
    let parent = path_parent(full.as_str());
    let name = path_file_name(full.as_str());
    path_query_of(input, full.as_str(), is_dir, parent, name)
}

/// Tab-complete a directory path: the completed paths for the directories `names`, in order.
pub fn complete_path(q: &PathQuery, home: &str, names: &Vec<String>) -> (r: Vec<String>)
    ensures
        text::strings(r@) == paths::sorted_of(completions(q@, home@, text::strings(names@))),
{
    let ghost all = text::strings(names@);
    let prefix = chars_of(q.prefix.as_str());
    let dotted = prefix.len() > 0 && prefix[0] == '.';
    let mut matches: Vec<String> = Vec::new();
    let mut i: usize = 0;
    assert(text::strings(matches@) =~= completions(q@, home@, all.take(0)));
    while i < names.len()
        invariant
            i <= names.len(),
            all == text::strings(names@),
            prefix@ == q@.prefix,
            dotted == (q@.prefix.len() > 0 && q@.prefix[0] == '.'),
            text::strings(matches@) == completions(q@, home@, all.take(i as int)),
        decreases names.len() - i,
    {
        let ghost before = text::strings(matches@);
        let name = chars_of(names[i].as_str());
        assert(all.take(i + 1).drop_last() =~= all.take(i as int));
        assert(all.take(i + 1).last() == name@);
        let hidden = name.len() > 0 && name[0] == '.' && !dotted;
        if !hidden && stands_at(&name, &prefix, 0) {
            let mut path = copy_text(&q.base);
            push_text(&mut path, names[i].as_str());
            path.push('/');
            let short = abbreviate_home(path.as_str(), home);
            let ghost s = short@;
            matches.push(short);
            assert(text::strings(matches@) =~= before.push(s));
        }
        i = i + 1;
    }
    assert(all.take(all.len() as int) =~= all);
    sort_texts(matches)
}

/// The first results.
pub fn take_few(v: Vec<String>) -> (r: Vec<String>)
    ensures
        text::strings(r@) == first_few(text::strings(v@)),
{
    let mut v = v;
    let ghost s = text::strings(v@);
    if v.len() > MAX_RESULTS {
        v.truncate(MAX_RESULTS);
        assert(text::strings(v@) =~= s.take(MAX_RESULTS as int));
    }
    v
}

/// Takes out neighbours that are the same.
fn dedup(v: Vec<String>) -> (r: Vec<String>)
    ensures
        text::strings(r@) == deduped(text::strings(v@)),
{
    let ghost s = text::strings(v@);
    let mut r: Vec<String> = Vec::new();
    let mut i: usize = 0;
    assert(text::strings(r@) =~= deduped(s.take(0)));
    while i < v.len()
        invariant
            i <= v.len(),
            s == text::strings(v@),
            text::strings(r@) == deduped(s.take(i as int)),
        decreases v.len() - i,
    {
        let ghost before = text::strings(r@);
        assert(s.take(i + 1).drop_last() =~= s.take(i as int));
        let same = i > 0 && text::same_chars(
            &chars_of(v[i - 1].as_str()),
            &chars_of(v[i].as_str()),
        );
        if !same {
            r.push(copy_text(&v[i]));
            assert(text::strings(r@) =~= before.push(s[i as int]));
        }
        if i == 0 {
            assert(s.take(1) =~= before.push(s[0]));
        } else {
            assert(s.take(i + 1)[i - 1] == s[i - 1]);
            assert(s.take(i + 1).last() == s[i as int]);
        }
        i = i + 1;
    }
    assert(s.take(s.len() as int) =~= s);
    r
}

/// Results of a search as they are offered.
pub fn offer(found: Vec<String>) -> (r: Vec<String>)
    ensures
        text::strings(r@) == offered(text::strings(found@)),
{
    take_few(dedup(sort_texts(found)))
}

/// The pieces of a path that are not empty.
pub fn pieces_of(input: &str) -> (r: Vec<String>)
    ensures
        text::strings(r@) == pieces(input@),
{
    let all = split_of(&chars_of(input), '/');
    let ghost s = text::nested(all@);
    let ghost keep = |s: Seq<char>| s.len() > 0;
    let mut r: Vec<String> = Vec::new();
    let mut i: usize = 0;
    proof {
        reveal(Seq::filter);
    }
    assert(text::strings(r@) =~= s.take(0).filter(keep));
    while i < all.len()
        invariant
            i <= all.len(),
            s == text::nested(all@),
            keep == (|s: Seq<char>| s.len() > 0),
            text::strings(r@) == s.take(i as int).filter(keep),
        decreases all.len() - i,
    {
        let ghost before = text::strings(r@);
        assert(s.take(i + 1).drop_last() =~= s.take(i as int));
        assert(s.take(i + 1).last() == s[i as int]);
        if all[i].len() > 0 {
            r.push(to_text(&all[i]));
            assert(text::strings(r@) =~= before.push(s[i as int]));
        }
        proof {
            reveal(Seq::filter);
        }
        i = i + 1;
    }
    assert(s.take(s.len() as int) =~= s);
    r
}

/// Each text in lower case.
pub fn lower_all(v: &Vec<String>) -> (r: Vec<String>)
    ensures
        r.len() == v.len(),
        text::strings(r@) == Seq::new(v@.len(), |i: int| route::lowered(v@[i]@)),
{
    let mut r: Vec<String> = Vec::new();
    let mut i: usize = 0;
    while i < v.len()
        invariant
            i <= v.len(),
            r.len() == i,
            forall|j: int| 0 <= j < i ==> (#[trigger] r@[j])@ == route::lowered(v@[j]@),
        decreases v.len() - i,
    {
        r.push(to_lowercase(v[i].as_str()));
        i = i + 1;
    }
    assert(text::strings(r@) =~= Seq::new(v@.len(), |i: int| route::lowered(v@[i]@)));
    r
}

proof fn dedup_keeps_order(s: Seq<Seq<char>>)
    requires
        paths::in_order(s),
    ensures
        paths::in_order(deduped(s)),
        deduped(s).no_duplicates(),
        s.len() > 0 ==> deduped(s).len() > 0 && deduped(s).last() == s.last(),
    decreases s.len(),
{
    if s.len() >= 2 {
        let front = s.drop_last();
        assert forall|i: int, j: int| 0 <= i <= j < front.len() implies paths::not_after(
            #[trigger] front[i],
            #[trigger] front[j],
        ) by {
            assert(paths::not_after(s[i], s[j]));
        }
        dedup_keeps_order(front);
        let d = deduped(front);
        let last = s.last();
        let before = s[s.len() - 2];
        assert(front.last() == before);
        if last != before {
            let r = d.push(last);
            assert(paths::not_after(s[s.len() - 2], s[s.len() - 1]));
            assert forall|i: int| 0 <= i < d.len() implies paths::not_after(#[trigger] d[i], last)
                && d[i] != last by {
                assert(paths::not_after(d[i], d[d.len() - 1]));
                paths::not_after_is_transitive(d[i], before, last);
                if d[i] == last {
                    paths::not_after_is_total(last, before);
                }
            }
            paths::not_after_is_total(last, last);
            assert(deduped(s) == r);
        }
    }
}

/// What a search offers is in order, each result once, and at most as many as a search finds.
pub proof fn offers_are_few_and_in_order(found: Seq<Seq<char>>)
    ensures
        offered(found).len() <= MAX_RESULTS,
        paths::in_order(offered(found)),
        offered(found).no_duplicates(),
{
    paths::sorting_orders(found);
    dedup_keeps_order(paths::sorted_of(found));
}

/// Whether every text begins with `t`.
pub open spec fn all_begin_with(strings: Seq<Seq<char>>, t: Seq<char>) -> bool {
    forall|i: int| 0 <= i < strings.len() ==> text::begins_with(#[trigger] strings[i], t)
}

/// Find the longest common prefix among strings.
pub fn common_prefix(strings: &Vec<String>) -> (r: String)
    ensures
        strings.len() == 0 ==> r@.len() == 0,
        strings.len() > 0 ==> all_begin_with(text::strings(strings@), r@),
        forall|t: Seq<char>|
            strings.len() > 0 && #[trigger] all_begin_with(text::strings(strings@), t) ==> t.len()
                <= r@.len(),
{
    if strings.len() == 0 {
        return String::new();
    }
    let ghost all = text::strings(strings@);
    let first = chars_of(strings[0].as_str());
    let mut len: usize = first.len();
    let mut i: usize = 1;
    assert(first@.subrange(0, len as int) =~= first@);
    assert forall|t: Seq<char>| #[trigger] all_begin_with(all, t) implies t.len() <= len by {
        assert(text::begins_with(all[0], t));
    }
    while i < strings.len()
        invariant
            1 <= i <= strings.len(),
            all == text::strings(strings@),
            first@ == all[0],
            len <= first.len(),
            forall|k: int|
                0 <= k < i ==> text::begins_with(#[trigger] all[k], first@.subrange(0, len as int)),
            forall|t: Seq<char>| #[trigger] all_begin_with(all, t) ==> t.len() <= len,
        decreases strings.len() - i,
    {
        let ghost before = first@.subrange(0, len as int);
        let s = chars_of(strings[i].as_str());
        let same = shared_start(&first, &s, len);
        assert forall|k: int| 0 <= k < i + 1 implies text::begins_with(
            #[trigger] all[k],
            first@.subrange(0, same as int),
        ) by {
            if k < i {
                assert(text::begins_with(all[k], before));
                assert(all[k].subrange(0, same as int) =~= all[k].subrange(
                    0,
                    len as int,
                ).subrange(0, same as int));
                assert(before.subrange(0, same as int) =~= first@.subrange(0, same as int));
            }
        }
        assert forall|t: Seq<char>| #[trigger] all_begin_with(all, t) implies t.len() <= same by {
            assert(text::begins_with(all[0], t));
            assert(text::begins_with(all[i as int], t));
            if t.len() > same {
                assert(t[same as int] == all[0].subrange(0, t.len() as int)[same as int]);
                assert(t[same as int] == all[i as int].subrange(0, t.len() as int)[same as int]);
            }
        }
        len = same;
        i = i + 1;
    }
    text::string_of(&first, 0, len)
}

/// How many characters, at most `max`, two texts have in common at their start.
fn shared_start(a: &Vec<char>, b: &Vec<char>, max: usize) -> (n: usize)
    requires
        max <= a.len(),
    ensures
        n <= max,
        n <= b.len(),
        b@.subrange(0, n as int) == a@.subrange(0, n as int),
        n < max && n < b.len() ==> a@[n as int] != b@[n as int],
{
    let mut n: usize = 0;
    while n < max && n < b.len() && a[n] == b[n]
        invariant
            n <= max <= a.len(),
            n <= b.len(),
            forall|k: int| 0 <= k < n ==> a@[k] == b@[k],
        decreases max - n,
    {
        n = n + 1;
    }
    assert(b@.subrange(0, n as int) =~= a@.subrange(0, n as int));
    n
}

} // verus!
