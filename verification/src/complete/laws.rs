//! Laws of the search for directories.

use crate::complete;
use crate::complete::search;
use crate::complete::search::{Listing, Query};
use crate::paths;
use crate::text;
use crate::text_laws;
use vstd::prelude::*;

verus! {

/// Whether `b` is `a` with something behind it.
pub open spec fn goes_on(a: Seq<Seq<char>>, b: Seq<Seq<char>>) -> bool {
    a.len() <= b.len() && b.take(a.len() as int) == a
}

proof fn going_on_is_transitive(a: Seq<Seq<char>>, b: Seq<Seq<char>>, c: Seq<Seq<char>>)
    requires
        goes_on(a, b),
        goes_on(b, c),
    ensures
        goes_on(a, c),
        forall|x: Seq<char>| a.contains(x) ==> #[trigger] c.contains(x),
        forall|x: Seq<char>| b.contains(x) ==> #[trigger] c.contains(x),
{
    assert(c.take(a.len() as int) =~= b.take(a.len() as int));
    assert forall|x: Seq<char>| b.contains(x) implies #[trigger] c.contains(x) by {
        let i = choose|i: int| 0 <= i < b.len() && b[i] == x;
        assert(c.take(b.len() as int)[i] == c[i]);
    }
    assert forall|x: Seq<char>| a.contains(x) implies #[trigger] c.contains(x) by {
        let i = choose|i: int| 0 <= i < a.len() && a[i] == x;
        assert(b.take(a.len() as int)[i] == b[i]);
        assert(b.contains(x));
    }
}

/// What was found stays found, and a search ends with eight results.
pub proof fn found_stays_found(
    list: Listing,
    q: Query,
    dir: Seq<char>,
    seg: nat,
    depth: nat,
    found: Seq<Seq<char>>,
)
    requires
        found.len() <= 8,
    ensures
        goes_on(found, search::visited(list, q, dir, seg, depth, found)),
        search::visited(list, q, dir, seg, depth, found).len() <= 8,
    decreases depth, 2nat, 0nat,
{
    assert(found.take(found.len() as int) =~= found);
    if depth > 0 && found.len() < 8 && seg < q.segments.len() {
        entries_stay(list, q, dir, (list.names)(dir), seg, depth, found);
    }
}

proof fn entries_stay(
    list: Listing,
    q: Query,
    dir: Seq<char>,
    names: Seq<Seq<char>>,
    seg: nat,
    depth: nat,
    found: Seq<Seq<char>>,
)
    requires
        found.len() <= 8,
    ensures
        goes_on(found, search::entries_seen(list, q, dir, names, seg, depth, found)),
        search::entries_seen(list, q, dir, names, seg, depth, found).len() <= 8,
    decreases depth, 1nat, names.len(),
{
    assert(found.take(found.len() as int) =~= found);
    if names.len() > 0 && depth > 0 {
        let lower = (list.lower)(names[0]);
        let path = paths::joined(dir, names[0]);
        let found1 = search::entry_seen(list, q, names[0], lower, path, seg, depth, found);
        entry_stays(list, q, names[0], lower, path, seg, depth, found);
        entries_stay(list, q, dir, names.drop_first(), seg, depth, found1);
        going_on_is_transitive(
            found,
            found1,
            search::entries_seen(list, q, dir, names, seg, depth, found),
        );
    }
}

proof fn entry_stays(
    list: Listing,
    q: Query,
    name: Seq<char>,
    lower: Seq<char>,
    path: Seq<char>,
    seg: nat,
    depth: nat,
    found: Seq<Seq<char>>,
)
    requires
        found.len() <= 8,
    ensures
        goes_on(found, search::entry_seen(list, q, name, lower, path, seg, depth, found)),
        search::entry_seen(list, q, name, lower, path, seg, depth, found).len() <= 8,
    decreases depth, 0nat, 1nat,
{
    assert(found.take(found.len() as int) =~= found);
    if !search::passed_over(name, found) && depth > 0 {
        let below = (depth - 1) as nat;
        let found1 = first_part(list, q, lower, path, seg, depth, found);
        first_part_goes_on(list, q, lower, path, seg, depth, found);
        found_stays_found(list, q, path, seg, below, found1);
        going_on_is_transitive(
            found,
            found1,
            search::visited(list, q, path, seg, below, found1),
        );
    }
}

/// What is found at an entry before it is gone through for all segments.
spec fn first_part(
    list: Listing,
    q: Query,
    lower: Seq<char>,
    path: Seq<char>,
    seg: nat,
    depth: nat,
    found: Seq<Seq<char>>,
) -> Seq<Seq<char>> {
    if !text::holds(lower, q.segments[seg as int]) {
        found
    } else if seg + 1 == q.segments.len() {
        found.push(search::shown(path, q.home))
    } else {
        search::visited(list, q, path, seg + 1, (depth - 1) as nat, found)
    }
}

proof fn first_part_goes_on(
    list: Listing,
    q: Query,
    lower: Seq<char>,
    path: Seq<char>,
    seg: nat,
    depth: nat,
    found: Seq<Seq<char>>,
)
    requires
        found.len() < 8,
        depth > 0,
    ensures
        goes_on(found, first_part(list, q, lower, path, seg, depth, found)),
        first_part(list, q, lower, path, seg, depth, found).len() <= 8,
    decreases depth, 0nat, 0nat,
{
    let shown = search::shown(path, q.home);
    assert(found.take(found.len() as int) =~= found);
    assert(found.push(shown).take(found.len() as int) =~= found);
    if text::holds(lower, q.segments[seg as int]) && seg + 1 != q.segments.len() {
        found_stays_found(list, q, path, seg + 1, (depth - 1) as nat, found);
    }
}

/// The names of directories, each in the one before it, from `dir` on.
pub open spec fn leads_down(list: Listing, dir: Seq<char>, chain: Seq<Seq<char>>) -> bool
    decreases chain.len(),
{
    chain.len() > 0 ==> {
        &&& (list.names)(dir).contains(chain[0])
        &&& leads_down(list, paths::joined(dir, chain[0]), chain.drop_first())
    }
}

/// The directory that names lead to from `dir`.
pub open spec fn end_of(dir: Seq<char>, chain: Seq<Seq<char>>) -> Seq<char>
    decreases chain.len(),
{
    if chain.len() == 0 {
        dir
    } else {
        end_of(paths::joined(dir, chain[0]), chain.drop_first())
    }
}

/// Whether segments stand in the lower case of names in order, `at` saying in which names, the
/// last segment in the last name.
pub open spec fn match_in_order(
    list: Listing,
    segments: Seq<Seq<char>>,
    chain: Seq<Seq<char>>,
    at: Seq<int>,
) -> bool {
    &&& segments.len() > 0
    &&& at.len() == segments.len()
    &&& at.last() == chain.len() - 1
    &&& forall|k: int| 0 <= k < at.len() ==> 0 <= #[trigger] at[k] < chain.len()
    &&& forall|k: int, l: int| 0 <= k < l < at.len() ==> #[trigger] at[k] < #[trigger] at[l]
    &&& forall|k: int|
        0 <= k < at.len() ==> text_laws::has_inside(
            (list.lower)(chain[#[trigger] at[k]]),
            segments[k],
        )
}

/// Whether no name begins with a dot.
pub open spec fn none_hidden(chain: Seq<Seq<char>>) -> bool {
    forall|i: int| 0 <= i < chain.len() ==> !(#[trigger] chain[i].len() > 0 && chain[i][0] == '.')
}

/// How a directory is shown: with a tilde for the home directory, and with a separator behind
/// it.
pub open spec fn display(path: Seq<char>, home: Seq<char>) -> Seq<char> {
    if home.len() > 0 && text_laws::stands_behind(path, home, Seq::empty()) {
        seq!['~'] + path.skip(home.len() as int) + seq!['/']
    } else {
        path + seq!['/']
    }
}

proof fn display_is_shown(path: Seq<char>, home: Seq<char>)
    ensures
        display(path, home) == search::shown(path, home),
{
    text_laws::standing_is_having_a_front(path, home, 0);
    assert(path.take(0) =~= Seq::<char>::empty());
    assert(display(path, home) =~= search::shown(path, home));
}

/// Segments behind the first ones.
pub open spec fn from_segment(q: Query, seg: nat) -> Seq<Seq<char>> {
    q.segments.skip(seg as int)
}

/// What comes of matches when the first name is left behind.
proof fn match_below(
    list: Listing,
    segments: Seq<Seq<char>>,
    chain: Seq<Seq<char>>,
    at: Seq<int>,
)
    requires
        match_in_order(list, segments, chain, at),
        chain.len() > 1,
    ensures
        at[0] == 0 ==> segments.len() > 1 && match_in_order(
            list,
            segments.drop_first(),
            chain.drop_first(),
            Seq::new((at.len() - 1) as nat, |k: int| at[k + 1] - 1),
        ),
        at[0] > 0 ==> match_in_order(
            list,
            segments,
            chain.drop_first(),
            Seq::new(at.len(), |k: int| at[k] - 1),
        ),
{
    if at[0] == 0 {
        assert(at.len() > 1) by {
            if at.len() == 1 {
                assert(at.last() == at[0]);
            }
        }
        let at2 = Seq::new((at.len() - 1) as nat, |k: int| at[k + 1] - 1);
        let segs2 = segments.drop_first();
        let chain2 = chain.drop_first();
        assert forall|k: int| 0 <= k < at2.len() implies 0 <= #[trigger] at2[k] < chain2.len() by {
            assert(at[0] < at[k + 1]);
        }
        assert forall|k: int, l: int| 0 <= k < l < at2.len() implies #[trigger] at2[k]
            < #[trigger] at2[l] by {
            assert(at[k + 1] < at[l + 1]);
        }
        assert forall|k: int| 0 <= k < at2.len() implies text_laws::has_inside(
            (list.lower)(chain2[#[trigger] at2[k]]),
            segs2[k],
        ) by {
            assert(at[0] < at[k + 1]);
            assert(chain2[at2[k]] == chain[at[k + 1]]);
        }
        assert(at2.last() == at.last() - 1);
    } else {
        let at2 = Seq::new(at.len(), |k: int| at[k] - 1);
        let chain2 = chain.drop_first();
        assert(0 <= at[0]);
        assert forall|k: int| 0 <= k < at2.len() implies 0 < #[trigger] at[k] by {
            if k > 0 {
                assert(at[0] < at[k]);
            }
        }
        assert forall|k: int| 0 <= k < at2.len() implies 0 <= #[trigger] at2[k] < chain2.len() by {
            assert(0 < at[k]);
        }
        assert forall|k: int, l: int| 0 <= k < l < at2.len() implies #[trigger] at2[k]
            < #[trigger] at2[l] by {
            assert(at[k] < at[l]);
        }
        assert forall|k: int| 0 <= k < at2.len() implies text_laws::has_inside(
            (list.lower)(chain2[#[trigger] at2[k]]),
            segments[k],
        ) by {
            assert(0 < at[k]);
            assert(chain2[at2[k]] == chain[at[k]]);
        }
        assert(at2.last() == at.last() - 1);
    }
}

proof fn visit_finds(
    list: Listing,
    q: Query,
    dir: Seq<char>,
    seg: nat,
    depth: nat,
    found: Seq<Seq<char>>,
    chain: Seq<Seq<char>>,
    at: Seq<int>,
)
    requires
        seg < q.segments.len(),
        found.len() < 8,
        0 < chain.len() <= depth,
        leads_down(list, dir, chain),
        none_hidden(chain),
        match_in_order(list, from_segment(q, seg), chain, at),
        search::visited(list, q, dir, seg, depth, found).len() < 8,
    ensures
        search::visited(list, q, dir, seg, depth, found).contains(
            display(end_of(dir, chain), q.home),
        ),
    decreases depth, 2nat, 0nat,
{
    let names = (list.names)(dir);
    let i = choose|i: int| 0 <= i < names.len() && names[i] == chain[0];
    entries_find(list, q, dir, names, seg, depth, found, chain, at, i);
}

proof fn entries_find(
    list: Listing,
    q: Query,
    dir: Seq<char>,
    names: Seq<Seq<char>>,
    seg: nat,
    depth: nat,
    found: Seq<Seq<char>>,
    chain: Seq<Seq<char>>,
    at: Seq<int>,
    i: int,
)
    requires
        seg < q.segments.len(),
        found.len() < 8,
        0 < chain.len() <= depth,
        leads_down(list, dir, chain),
        none_hidden(chain),
        match_in_order(list, from_segment(q, seg), chain, at),
        0 <= i < names.len(),
        names[i] == chain[0],
        search::entries_seen(list, q, dir, names, seg, depth, found).len() < 8,
    ensures
        search::entries_seen(list, q, dir, names, seg, depth, found).contains(
            display(end_of(dir, chain), q.home),
        ),
    decreases depth, 1nat, names.len(),
{
    let lower = (list.lower)(names[0]);
    let path = paths::joined(dir, names[0]);
    let found1 = search::entry_seen(list, q, names[0], lower, path, seg, depth, found);
    let all = search::entries_seen(list, q, dir, names, seg, depth, found);
    entry_stays(list, q, names[0], lower, path, seg, depth, found);
    entries_stay(list, q, dir, names.drop_first(), seg, depth, found1);
    going_on_is_transitive(found, found1, all);
    if i == 0 {
        entry_finds(list, q, dir, seg, depth, found, chain, at);
    } else {
        assert(names.drop_first()[i - 1] == chain[0]);
        entries_find(list, q, dir, names.drop_first(), seg, depth, found1, chain, at, i - 1);
    }
}

proof fn entry_finds(
    list: Listing,
    q: Query,
    dir: Seq<char>,
    seg: nat,
    depth: nat,
    found: Seq<Seq<char>>,
    chain: Seq<Seq<char>>,
    at: Seq<int>,
)
    requires
        seg < q.segments.len(),
        found.len() < 8,
        0 < chain.len() <= depth,
        leads_down(list, dir, chain),
        none_hidden(chain),
        match_in_order(list, from_segment(q, seg), chain, at),
        search::entry_seen(
            list,
            q,
            chain[0],
            (list.lower)(chain[0]),
            paths::joined(dir, chain[0]),
            seg,
            depth,
            found,
        ).len() < 8,
    ensures
        search::entry_seen(
            list,
            q,
            chain[0],
            (list.lower)(chain[0]),
            paths::joined(dir, chain[0]),
            seg,
            depth,
            found,
        ).contains(display(end_of(dir, chain), q.home)),
    decreases depth, 0nat, 0nat,
{
    let name = chain[0];
    let lower = (list.lower)(name);
    let path = paths::joined(dir, name);
    let below = (depth - 1) as nat;
    let segs = from_segment(q, seg);
    let rest = chain.drop_first();
    let target = display(end_of(dir, chain), q.home);
    assert(segs[0] == q.segments[seg as int]);
    assert(!search::passed_over(name, found));
    let found1 = first_part(list, q, lower, path, seg, depth, found);
    first_part_goes_on(list, q, lower, path, seg, depth, found);
    let all = search::visited(list, q, path, seg, below, found1);
    found_stays_found(list, q, path, seg, below, found1);
    going_on_is_transitive(found, found1, all);
    assert(end_of(dir, chain) == end_of(path, rest));
    assert(0 <= at[0] < chain.len());
    if at[0] == 0 {
        assert(text_laws::has_inside((list.lower)(chain[at[0]]), segs[0]));
        text_laws::holding_is_having_inside(lower, segs[0]);
    }
    if chain.len() == 1 {
        if at.len() > 1 {
            assert(at[0] < at[1]);
            assert(at[1] < chain.len());
        }
        assert(segs.len() == 1);
        display_is_shown(path, q.home);
        assert(rest.len() == 0);
        assert(end_of(path, rest) == path);
        assert(found.push(target)[found.len() as int] == target);
        assert(found1.contains(target));
    } else {
        match_below(list, segs, chain, at);
        assert forall|k: int| 0 <= k < rest.len() implies !(#[trigger] rest[k].len() > 0
            && rest[k][0] == '.') by {
            assert(rest[k] == chain[k + 1]);
            assert(!(chain[k + 1].len() > 0 && chain[k + 1][0] == '.'));
        }
        if at[0] == 0 {
            assert(segs.drop_first() =~= from_segment(q, seg + 1));
            visit_finds(
                list,
                q,
                path,
                seg + 1,
                below,
                found,
                rest,
                Seq::new((at.len() - 1) as nat, |k: int| at[k + 1] - 1),
            );
            assert(found1.contains(target));
        } else {
            visit_finds(
                list,
                q,
                path,
                seg,
                below,
                found1,
                rest,
                Seq::new(at.len(), |k: int| at[k] - 1),
            );
        }
    }
}

/// A search that finds fewer than eight directories has found every directory, as deep as it
/// goes, on whose way down the segments stand in the names in order, each anywhere in its name,
/// the last one in the name of the directory itself. Names that begin with a dot are left out.
pub proof fn matching_directories_are_found(
    list: Listing,
    q: Query,
    dir: Seq<char>,
    depth: nat,
    found: Seq<Seq<char>>,
    chain: Seq<Seq<char>>,
    at: Seq<int>,
)
    requires
        0 < chain.len() <= depth,
        leads_down(list, dir, chain),
        none_hidden(chain),
        match_in_order(list, q.segments, chain, at),
        found.len() < 8,
        search::visited(list, q, dir, 0, depth, found).len() < 8,
    ensures
        search::visited(list, q, dir, 0, depth, found).contains(
            display(end_of(dir, chain), q.home),
        ),
{
    assert(from_segment(q, 0) =~= q.segments);
    visit_finds(list, q, dir, 0, depth, found, chain, at);
}

/// A search for one segment that finds fewer than eight directories has found every directory
/// in the one it begins with whose name has the segment anywhere in its lower case, unless it
/// begins with a dot.
pub proof fn names_with_the_segment_inside_are_found(
    list: Listing,
    q: Query,
    dir: Seq<char>,
    depth: nat,
    found: Seq<Seq<char>>,
    name: Seq<char>,
    front: Seq<char>,
    back: Seq<char>,
)
    requires
        depth > 0,
        q.segments.len() == 1,
        (list.names)(dir).contains(name),
        !(name.len() > 0 && name[0] == '.'),
        (list.lower)(name) == front + q.segments[0] + back,
        found.len() < 8,
        search::visited(list, q, dir, 0, depth, found).len() < 8,
    ensures
        search::visited(list, q, dir, 0, depth, found).contains(
            display(paths::joined(dir, name), q.home),
        ),
{
    let chain = seq![name];
    let at = seq![0int];
    assert(text_laws::stands_behind((list.lower)(name), q.segments[0], front));
    assert(chain.drop_first().len() == 0);
    reveal_with_fuel(leads_down, 2);
    reveal_with_fuel(end_of, 2);
    assert forall|k: int| 0 <= k < at.len() implies text_laws::has_inside(
        (list.lower)(chain[#[trigger] at[k]]),
        q.segments[k],
    ) by {}
    matching_directories_are_found(list, q, dir, depth, found, chain, at);
}

/// Whether a result is a directory below `dir`, on whose way down the segments stand in the
/// names in order.
pub open spec fn is_match(
    list: Listing,
    q: Query,
    dir: Seq<char>,
    seg: nat,
    depth: nat,
    result: Seq<char>,
) -> bool {
    exists|chain: Seq<Seq<char>>, at: Seq<int>|
        #![trigger match_in_order(list, from_segment(q, seg), chain, at)]
        {
            &&& 0 < chain.len() <= depth
            &&& leads_down(list, dir, chain)
            &&& none_hidden(chain)
            &&& match_in_order(list, from_segment(q, seg), chain, at)
            &&& result == display(end_of(dir, chain), q.home)
        }
}

/// Whether what `b` has more than `a` are matches.
pub open spec fn adds_matches(
    list: Listing,
    q: Query,
    dir: Seq<char>,
    seg: nat,
    depth: nat,
    a: Seq<Seq<char>>,
    b: Seq<Seq<char>>,
) -> bool {
    forall|i: int| a.len() <= i < b.len() ==> is_match(list, q, dir, seg, depth, #[trigger] b[i])
}

/// A match below a directory is a match below the directory that holds it.
proof fn match_from_above(
    list: Listing,
    q: Query,
    dir: Seq<char>,
    name: Seq<char>,
    seg: nat,
    depth: nat,
    matched: bool,
    result: Seq<char>,
)
    requires
        depth > 0,
        seg < q.segments.len(),
        (list.names)(dir).contains(name),
        !(name.len() > 0 && name[0] == '.'),
        matched ==> text::holds((list.lower)(name), q.segments[seg as int]) && seg + 1
            < q.segments.len(),
        is_match(
            list,
            q,
            paths::joined(dir, name),
            if matched {
                seg + 1
            } else {
                seg
            },
            (depth - 1) as nat,
            result,
        ),
    ensures
        is_match(list, q, dir, seg, depth, result),
{
    let path = paths::joined(dir, name);
    let from: nat = if matched {
        seg + 1
    } else {
        seg
    };
    let (chain, at) = choose|chain: Seq<Seq<char>>, at: Seq<int>|
        #![trigger match_in_order(list, from_segment(q, from), chain, at)]
        {
            &&& 0 < chain.len() <= (depth - 1) as nat
            &&& leads_down(list, path, chain)
            &&& none_hidden(chain)
            &&& match_in_order(list, from_segment(q, from), chain, at)
            &&& result == display(end_of(path, chain), q.home)
        };
    let chain2 = seq![name] + chain;
    let at2 = if matched {
        Seq::new(at.len() + 1, |k: int| if k == 0 {
            0
        } else {
            at[k - 1] + 1
        })
    } else {
        Seq::new(at.len(), |k: int| at[k] + 1)
    };
    let segs = from_segment(q, seg);
    assert(chain2.drop_first() =~= chain);
    assert forall|i: int| 0 <= i < chain2.len() implies !(#[trigger] chain2[i].len() > 0
        && chain2[i][0] == '.') by {
        if i > 0 {
            assert(chain2[i] == chain[i - 1]);
            assert(!(chain[i - 1].len() > 0 && chain[i - 1][0] == '.'));
        }
    }
    assert forall|k: int| 0 <= k < at2.len() implies 0 <= #[trigger] at2[k] < chain2.len() by {
        if matched {
            if k > 0 {
                assert(0 <= at[k - 1] < chain.len());
            }
        } else {
            assert(0 <= at[k] < chain.len());
        }
    }
    assert forall|k: int, l: int| 0 <= k < l < at2.len() implies #[trigger] at2[k]
        < #[trigger] at2[l] by {
        if matched {
            assert(0 <= at[l - 1]);
            if k > 0 {
                assert(at[k - 1] < at[l - 1]);
            }
        } else {
            assert(at[k] < at[l]);
        }
    }
    assert forall|k: int| 0 <= k < at2.len() implies text_laws::has_inside(
        (list.lower)(chain2[#[trigger] at2[k]]),
        segs[k],
    ) by {
        if matched {
            if k == 0 {
                text_laws::holding_is_having_inside((list.lower)(name), segs[0]);
            } else {
                assert(0 <= at[k - 1] < chain.len());
                assert(chain2[at2[k]] == chain[at[k - 1]]);
                assert(segs[k] == from_segment(q, from)[k - 1]);
            }
        } else {
            assert(0 <= at[k] < chain.len());
            assert(chain2[at2[k]] == chain[at[k]]);
        }
    }
    assert(at2.last() == at.last() + 1);
    assert(match_in_order(list, segs, chain2, at2));
    assert(end_of(dir, chain2) == end_of(path, chain));
}

proof fn visit_adds(
    list: Listing,
    q: Query,
    dir: Seq<char>,
    seg: nat,
    depth: nat,
    found: Seq<Seq<char>>,
)
    requires
        found.len() <= 8,
    ensures
        adds_matches(
            list,
            q,
            dir,
            seg,
            depth,
            found,
            search::visited(list, q, dir, seg, depth, found),
        ),
    decreases depth, 2nat, 0nat,
{
    if depth > 0 && found.len() < 8 && seg < q.segments.len() {
        entries_add(list, q, dir, (list.names)(dir), seg, depth, found);
    }
}

proof fn entries_add(
    list: Listing,
    q: Query,
    dir: Seq<char>,
    names: Seq<Seq<char>>,
    seg: nat,
    depth: nat,
    found: Seq<Seq<char>>,
)
    requires
        found.len() <= 8,
        seg < q.segments.len(),
        forall|i: int| 0 <= i < names.len() ==> (list.names)(dir).contains(#[trigger] names[i]),
    ensures
        adds_matches(
            list,
            q,
            dir,
            seg,
            depth,
            found,
            search::entries_seen(list, q, dir, names, seg, depth, found),
        ),
    decreases depth, 1nat, names.len(),
{
    if names.len() > 0 && depth > 0 {
        let lower = (list.lower)(names[0]);
        let path = paths::joined(dir, names[0]);
        let found1 = search::entry_seen(list, q, names[0], lower, path, seg, depth, found);
        let all = search::entries_seen(list, q, dir, names, seg, depth, found);
        let rest = names.drop_first();
        entry_stays(list, q, names[0], lower, path, seg, depth, found);
        entries_stay(list, q, dir, rest, seg, depth, found1);
        entry_adds(list, q, dir, names[0], seg, depth, found);
        assert forall|i: int| 0 <= i < rest.len() implies (list.names)(dir).contains(
            #[trigger] rest[i],
        ) by {
            assert(rest[i] == names[i + 1]);
        }
        entries_add(list, q, dir, rest, seg, depth, found1);
        assert forall|i: int| found.len() <= i < all.len() implies is_match(
            list,
            q,
            dir,
            seg,
            depth,
            #[trigger] all[i],
        ) by {
            if i < found1.len() {
                assert(all.take(found1.len() as int)[i] == all[i]);
                assert(is_match(list, q, dir, seg, depth, found1[i]));
            }
        }
    }
}

proof fn entry_adds(
    list: Listing,
    q: Query,
    dir: Seq<char>,
    name: Seq<char>,
    seg: nat,
    depth: nat,
    found: Seq<Seq<char>>,
)
    requires
        found.len() <= 8,
        seg < q.segments.len(),
        (list.names)(dir).contains(name),
    ensures
        adds_matches(
            list,
            q,
            dir,
            seg,
            depth,
            found,
            search::entry_seen(
                list,
                q,
                name,
                (list.lower)(name),
                paths::joined(dir, name),
                seg,
                depth,
                found,
            ),
        ),
    decreases depth, 0nat, 0nat,
{
    let lower = (list.lower)(name);
    let path = paths::joined(dir, name);
    if !search::passed_over(name, found) && depth > 0 {
        let below = (depth - 1) as nat;
        let found1 = first_part(list, q, lower, path, seg, depth, found);
        first_part_goes_on(list, q, lower, path, seg, depth, found);
        let all = search::visited(list, q, path, seg, below, found1);
        found_stays_found(list, q, path, seg, below, found1);
        visit_adds(list, q, path, seg, below, found1);
        let matched = text::holds(lower, q.segments[seg as int]);
        if matched && seg + 1 < q.segments.len() {
            visit_adds(list, q, path, seg + 1, below, found);
        }
        assert forall|i: int| found.len() <= i < all.len() implies is_match(
            list,
            q,
            dir,
            seg,
            depth,
            #[trigger] all[i],
        ) by {
            if i < found1.len() {
                assert(all.take(found1.len() as int)[i] == all[i]);
                assert(all[i] == found1[i]);
                if seg + 1 < q.segments.len() {
                    assert(is_match(list, q, path, seg + 1, below, found1[i]));
                    match_from_above(list, q, dir, name, seg, depth, true, all[i]);
                } else {
                    let chain = seq![name];
                    let at = seq![0int];
                    let segs = from_segment(q, seg);
                    text_laws::holding_is_having_inside(lower, segs[0]);
                    reveal_with_fuel(leads_down, 2);
                    reveal_with_fuel(end_of, 2);
                    assert(chain.drop_first().len() == 0);
                    assert forall|k: int| 0 <= k < at.len() implies text_laws::has_inside(
                        (list.lower)(chain[#[trigger] at[k]]),
                        segs[k],
                    ) by {}
                    assert(match_in_order(list, segs, chain, at));
                    display_is_shown(path, q.home);
                    assert(end_of(dir, chain) == path);
                }
            } else {
                assert(is_match(list, q, path, seg, below, all[i]));
                match_from_above(list, q, dir, name, seg, depth, false, all[i]);
            }
        }
    }
}

/// Whatever a search adds to the results is a directory below the one it begins with, no deeper
/// than it goes, on whose way down the segments stand in the names in order, the last one in
/// the name of the directory itself, with no name that begins with a dot.
pub proof fn only_matching_directories_are_found(
    list: Listing,
    q: Query,
    dir: Seq<char>,
    depth: nat,
    found: Seq<Seq<char>>,
    i: int,
)
    requires
        found.len() <= i < search::visited(list, q, dir, 0, depth, found).len() <= 8,
    ensures
        is_match(
            list,
            q,
            dir,
            0,
            depth,
            search::visited(list, q, dir, 0, depth, found)[i],
        ),
{
    visit_adds(list, q, dir, 0, depth, found);
}

/// Sorted texts are the same texts.
proof fn sorting_keeps(s: Seq<Seq<char>>, x: Seq<char>)
    ensures
        paths::sorted_of(s).contains(x) <==> s.contains(x),
{
    broadcast use vstd::seq_lib::group_to_multiset_ensures;

    paths::sorting_orders(s);
    assert(paths::sorted_of(s).contains(x) <==> paths::sorted_of(s).to_multiset().count(x) > 0);
    assert(s.contains(x) <==> s.to_multiset().count(x) > 0);
}

proof fn dedup_keeps(s: Seq<Seq<char>>, x: Seq<char>)
    ensures
        complete::deduped(s).contains(x) <==> s.contains(x),
        complete::deduped(s).len() <= s.len(),
    decreases s.len(),
{
    if s.len() >= 2 {
        let front = s.drop_last();
        let d = complete::deduped(front);
        dedup_keeps(front, x);
        assert(s =~= front.push(s.last()));
        assert(s.contains(x) <==> front.contains(x) || s.last() == x) by {
            if s.contains(x) {
                let k = choose|k: int| 0 <= k < s.len() && s[k] == x;
                if k < front.len() {
                    assert(front[k] == x);
                }
            }
            if front.contains(x) {
                let k = choose|k: int| 0 <= k < front.len() && front[k] == x;
                assert(s[k] == x);
            }
            if s.last() == x {
                assert(s[s.len() - 1] == x);
            }
        }
        if s.last() == s[s.len() - 2] {
            if s.last() == x {
                assert(front[front.len() - 1] == x);
            }
        } else {
            let r = d.push(s.last());
            if r.contains(x) {
                let k = choose|k: int| 0 <= k < r.len() && r[k] == x;
                if k < d.len() {
                    assert(d[k] == x);
                }
            }
            if d.contains(x) {
                let k = choose|k: int| 0 <= k < d.len() && d[k] == x;
                assert(r[k] == x);
            }
            if s.last() == x {
                assert(r[d.len() as int] == x);
            }
        }
    }
}

/// Nothing is offered but what was found, and where no more was found than can be offered, all
/// of it is offered.
pub proof fn what_was_found_is_offered(found: Seq<Seq<char>>, x: Seq<char>)
    ensures
        complete::offered(found).contains(x) ==> found.contains(x),
        found.len() <= 8 && found.contains(x) ==> complete::offered(found).contains(x),
{
    let sorted = paths::sorted_of(found);
    let d = complete::deduped(sorted);
    paths::sorting_orders(found);
    sorting_keeps(found, x);
    dedup_keeps(sorted, x);
    let r = complete::first_few(d);
    if r.contains(x) {
        let k = choose|k: int| 0 <= k < r.len() && r[k] == x;
        assert(d[k] == x);
    }
}

/// An input that spells out no path is searched for below the home directory, three levels deep,
/// and below the current directory, two levels deep, where that is not below the home directory
/// or is the home directory itself. Where fewer than eight directories are found, every one is
/// offered on whose way down the pieces of the input stand in the names in order.
pub proof fn inputs_are_searched_for(
    dirs: complete::Directories,
    input: Seq<char>,
    home: Seq<char>,
    current: Option<Seq<char>>,
    chain: Seq<Seq<char>>,
    at: Seq<int>,
)
    requires
        input.len() > 0,
        input[0] != '~' && input[0] != '/' && input[0] != '.',
        home.len() > 0,
        none_hidden(chain),
        match_in_order(
            complete::listing(dirs),
            complete::segments_of(input),
            chain,
            at,
        ),
    ensures
        ({
            let list = complete::listing(dirs);
            let q = Query { segments: complete::segments_of(input), home };
            let below_home = search::visited(list, q, home, 0, 3, seq![]);
            let outside = current matches Some(dir) && (dir == home || !text_laws::stands_behind(
                dir,
                home,
                Seq::empty(),
            ));
            let all = if outside {
                search::visited(list, q, current.unwrap(), 0, 2, below_home)
            } else {
                below_home
            };
            &&& all.len() < 8 && 0 < chain.len() <= 3 && leads_down(list, home, chain)
                ==> complete::answer(dirs, input, home, current).contains(
                display(end_of(home, chain), home),
            )
            &&& all.len() < 8 && outside && 0 < chain.len() <= 2 && leads_down(
                list,
                current.unwrap(),
                chain,
            ) ==> complete::answer(dirs, input, home, current).contains(
                display(end_of(current.unwrap(), chain), home),
            )
        }),
{
    let list = complete::listing(dirs);
    let q = Query { segments: complete::segments_of(input), home };
    let below_home = search::visited(list, q, home, 0, 3, seq![]);
    match current {
        Some(dir) => {
            text_laws::standing_is_having_a_front(dir, home, 0);
            assert(dir.take(0) =~= Seq::<char>::empty());
        },
        None => {},
    }
    let outside = complete::searches_current(current, home);
    let all = if outside {
        search::visited(list, q, current.unwrap(), 0, 2, below_home)
    } else {
        below_home
    };
    found_stays_found(list, q, home, 0, 3, seq![]);
    if outside {
        found_stays_found(list, q, current.unwrap(), 0, 2, below_home);
    } else {
        assert(below_home.take(below_home.len() as int) =~= below_home);
    }
    assert(goes_on(below_home, all));
    assert(all.take(all.len() as int) =~= all);
    going_on_is_transitive(below_home, all, all);
    if all.len() < 8 && 0 < chain.len() <= 3 && leads_down(list, home, chain) {
        matching_directories_are_found(list, q, home, 3, seq![], chain, at);
        assert(below_home.contains(display(end_of(home, chain), home)));
        what_was_found_is_offered(all, display(end_of(home, chain), home));
    }
    if all.len() < 8 && outside && 0 < chain.len() <= 2 && leads_down(
        list,
        current.unwrap(),
        chain,
    ) {
        matching_directories_are_found(list, q, current.unwrap(), 2, below_home, chain, at);
        what_was_found_is_offered(all, display(end_of(current.unwrap(), chain), home));
    }
}

/// Whether a name fits what was typed of it: it begins with that, and with a dot only where one
/// was typed.
pub open spec fn fits(name: Seq<char>, typed: Seq<char>) -> bool {
    &&& text_laws::stands_behind(name, typed, Seq::empty())
    &&& name.len() > 0 && name[0] == '.' ==> typed.len() > 0
}

/// How a completed path is shown: with a tilde for the home directory.
pub open spec fn with_tilde(path: Seq<char>, home: Seq<char>) -> Seq<char> {
    if home.len() > 0 && text_laws::stands_behind(path, home, Seq::empty()) {
        seq!['~'] + path.skip(home.len() as int)
    } else {
        path
    }
}

proof fn completion_is(q: complete::PathQueryView, home: Seq<char>, name: Seq<char>)
    ensures
        complete::completion(q, home, name) == if fits(name, q.prefix) {
            Some(with_tilde(q.base + name + seq!['/'], home))
        } else {
            None
        },
{
    text_laws::standing_is_having_a_front(name, q.prefix, 0);
    assert(name.take(0) =~= Seq::<char>::empty());
    let path = (q.base + name).push('/');
    assert(path =~= q.base + name + seq!['/']);
    text_laws::standing_is_having_a_front(path, home, 0);
    assert(path.take(0) =~= Seq::<char>::empty());
    if text::begins_with(name, q.prefix) && q.prefix.len() > 0 {
        assert(name.subrange(0, q.prefix.len() as int)[0] == name[0]);
    }
}

/// A path that is spelled out is completed by the names in its directory that fit what was typed
/// of the last one, and by nothing else: each behind what stands in front of it, with a separator
/// behind it.
pub proof fn names_complete_a_path(
    q: complete::PathQueryView,
    home: Seq<char>,
    names: Seq<Seq<char>>,
    x: Seq<char>,
)
    ensures
        complete::completions(q, home, names).contains(x) <==> exists|i: int|
            0 <= i < names.len() && fits(#[trigger] names[i], q.prefix) && x == with_tilde(
                q.base + names[i] + seq!['/'],
                home,
            ),
    decreases names.len(),
{
    let all = complete::completions(q, home, names);
    if names.len() > 0 {
        let front = names.drop_last();
        let before = complete::completions(q, home, front);
        names_complete_a_path(q, home, front, x);
        completion_is(q, home, names.last());
        if before.contains(x) {
            let i = choose|i: int|
                0 <= i < front.len() && fits(#[trigger] front[i], q.prefix) && x == with_tilde(
                    q.base + front[i] + seq!['/'],
                    home,
                );
            assert(names[i] == front[i]);
            let k = choose|k: int| 0 <= k < before.len() && before[k] == x;
            assert(all[k] == x);
        }
        if all.contains(x) {
            let k = choose|k: int| 0 <= k < all.len() && all[k] == x;
            if k < before.len() {
                assert(before[k] == x);
            } else {
                assert(names[names.len() - 1] == names.last());
            }
        }
        if exists|i: int|
            0 <= i < names.len() && fits(#[trigger] names[i], q.prefix) && x == with_tilde(
                q.base + names[i] + seq!['/'],
                home,
            ) {
            let i = choose|i: int|
                0 <= i < names.len() && fits(#[trigger] names[i], q.prefix) && x == with_tilde(
                    q.base + names[i] + seq!['/'],
                    home,
                );
            if i < front.len() {
                assert(front[i] == names[i]);
                assert(before.contains(x));
            } else {
                assert(all[before.len() as int] == x);
            }
        }
    }
}

/// Where a path is looked for: in the directory itself where it ends with a separator, else in
/// its parent, by its last component. What is typed in front of that stays.
pub proof fn paths_are_looked_for(
    input: Seq<char>,
    full: Seq<char>,
    is_dir: bool,
    parent: Option<Seq<char>>,
    name: Option<Seq<char>>,
)
    requires
        input.len() > 0,
        full.len() > 0,
    ensures
        ({
            let q = complete::looked_in(input, full, is_dir, parent, name);
            let open = input.last() == '/' && is_dir;
            &&& open ==> q.dir == full && q.prefix.len() == 0
            &&& !open && parent is Some ==> q.dir == parent.unwrap()
            &&& !open && parent is None ==> q.dir == "."@
            &&& !open && name is Some ==> q.prefix == name.unwrap()
            &&& !open && name is None ==> q.prefix.len() == 0
            &&& full.last() == '/' ==> q.base == full
            &&& full.last() != '/' ==> q.base == if q.dir == "."@ {
                Seq::empty()
            } else {
                q.dir + seq!['/']
            }
        }),
{
    let q = complete::looked_in(input, full, is_dir, parent, name);
    assert(q.dir.push('/') =~= q.dir + seq!['/']);
}

/// An empty input has no completions, and one that spells out a path has those of the path, the
/// first eight in order, if there are any; else it is searched for.
pub proof fn paths_come_first(
    dirs: complete::Directories,
    input: Seq<char>,
    home: Seq<char>,
    current: Option<Seq<char>>,
)
    ensures
        ({
            let full = if input.len() > 0 && input[0] == '~' {
                home + input.skip(1)
            } else {
                input
            };
            let is_dir = (dirs.is_dir)(full);
            let q = complete::looked_in(
                input,
                full,
                is_dir,
                paths::parent_of(full),
                paths::file_name_of(full),
            );
            let fitting = complete::completions(q, home, (dirs.names)(q.dir));
            let r = complete::answer(dirs, input, home, current);
            let explicit = input.len() > 0 && (input[0] == '~' || input[0] == '/' || input[0]
                == '.');
            &&& input.len() == 0 ==> r.len() == 0
            &&& explicit && fitting.len() > 0 ==> {
                &&& r.len() == if fitting.len() < 8 {
                    fitting.len()
                } else {
                    8
                }
                &&& paths::in_order(r)
                &&& forall|i: int| 0 <= i < r.len() ==> fitting.contains(#[trigger] r[i])
            }
            &&& explicit && fitting.len() == 0 ==> r == complete::searched(
                dirs,
                complete::segments_of(input),
                home,
                current,
            )
        }),
{
    let full = complete::full_input(input, home);
    if input.len() > 0 && input[0] == '~' {
        assert(input.drop_first() =~= input.skip(1));
    }
    let q = complete::query_of(input, home, (dirs.is_dir)(full));
    let fitting = complete::completions(q, home, (dirs.names)(q.dir));
    let sorted = paths::sorted_of(fitting);
    paths::sorting_orders(fitting);
    let r = complete::answer(dirs, input, home, current);
    if complete::is_explicit(input) && fitting.len() > 0 {
        assert forall|i: int| 0 <= i < r.len() implies fitting.contains(#[trigger] r[i]) by {
            assert(sorted[i] == r[i]);
            assert(sorted.contains(r[i]));
            sorting_keeps(fitting, r[i]);
        }
        assert forall|i: int, j: int| 0 <= i <= j < r.len() implies paths::not_after(
            #[trigger] r[i],
            #[trigger] r[j],
        ) by {
            assert(paths::not_after(sorted[i], sorted[j]));
        }
    }
}

/// The pieces of an input are those between its separators that are not empty.
pub proof fn pieces_are_between_separators(input: Seq<char>, i: int)
    requires
        0 <= i < complete::pieces(input).len(),
    ensures
        complete::pieces(input)[i].len() > 0,
        text_laws::is_free_of(complete::pieces(input)[i], '/'),
        text::split_at_char(input, '/').contains(complete::pieces(input)[i]),
{
    let all = text::split_at_char(input, '/');
    let keep = |s: Seq<char>| s.len() > 0;
    text_laws::splitting(input, '/');
    filter_takes_from(all, keep, i);
    let k = choose|k: int| 0 <= k < all.len() && all[k] == all.filter(keep)[i];
    assert(text_laws::is_free_of(all[k], '/'));
}

proof fn filter_takes_from(s: Seq<Seq<char>>, keep: spec_fn(Seq<char>) -> bool, i: int)
    requires
        0 <= i < s.filter(keep).len(),
    ensures
        keep(s.filter(keep)[i]),
        s.contains(s.filter(keep)[i]),
    decreases s.len(),
{
    reveal(Seq::filter);
    if s.len() > 0 {
        let front = s.drop_last();
        let before = front.filter(keep);
        if i < before.len() {
            filter_takes_from(front, keep, i);
            assert(s.filter(keep)[i] == before[i]);
            let k = choose|k: int| 0 <= k < front.len() && front[k] == before[i];
            assert(s[k] == before[i]);
        } else {
            assert(s[s.len() - 1] == s.last());
        }
    }
}

/// Every piece between separators that is not empty is a piece of the input, and what is searched
/// for is the lower case of the pieces, in order.
pub proof fn all_pieces_are_searched_for(input: Seq<char>, k: int)
    requires
        0 <= k < text::split_at_char(input, '/').len(),
        text::split_at_char(input, '/')[k].len() > 0,
    ensures
        complete::pieces(input).contains(text::split_at_char(input, '/')[k]),
        complete::segments_of(input).len() == complete::pieces(input).len(),
        forall|i: int|
            0 <= i < complete::pieces(input).len() ==> #[trigger] complete::segments_of(input)[i]
                == crate::route::lowered(complete::pieces(input)[i]),
{
    filter_keeps(text::split_at_char(input, '/'), |s: Seq<char>| s.len() > 0, k);
}

proof fn filter_keeps(s: Seq<Seq<char>>, keep: spec_fn(Seq<char>) -> bool, k: int)
    requires
        0 <= k < s.len(),
        keep(s[k]),
    ensures
        s.filter(keep).contains(s[k]),
    decreases s.len(),
{
    reveal(Seq::filter);
    let front = s.drop_last();
    let before = front.filter(keep);
    let all = s.filter(keep);
    if k < front.len() {
        filter_keeps(front, keep, k);
        let j = choose|j: int| 0 <= j < before.len() && before[j] == front[k];
        assert(all[j] == s[k]);
    } else {
        assert(all[before.len() as int] == s[k]);
    }
}

} // verus!
