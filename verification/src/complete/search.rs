//! Search for directories whose path holds given segments in order, one directory listing at a
//! time.

use crate::paths;
use crate::paths::{abbreviate_home, join_path};
use crate::text;
use crate::text::{chars_of, copy_text, find_from};
use vstd::prelude::*;

verus! {

/// Results at which a search ends.
pub const MAX_RESULTS: usize = 8;

/// What a search has still to do.
pub enum Task {
    /// Go through directory `dir` for the segments from `seg` on, `depth` levels deep.
    Visit { dir: String, seg: usize, depth: usize },
    /// Look at an entry of a directory that was gone through in the same way.
    Entry { name: String, lower: String, path: String, seg: usize, depth: usize },
}

/// What a search has still to do, with texts as sequences.
pub enum TaskView {
    Visit { dir: Seq<char>, seg: nat, depth: nat },
    Entry { name: Seq<char>, lower: Seq<char>, path: Seq<char>, seg: nat, depth: nat },
}

impl View for Task {
    type V = TaskView;

    open spec fn view(&self) -> TaskView {
        match *self {
            Task::Visit { dir, seg, depth } => TaskView::Visit {
                dir: dir@,
                seg: seg as nat,
                depth: depth as nat,
            },
            Task::Entry { name, lower, path, seg, depth } => TaskView::Entry {
                name: name@,
                lower: lower@,
                path: path@,
                seg: seg as nat,
                depth: depth as nat,
            },
        }
    }
}

/// The contents of a list of tasks.
pub open spec fn task_views(tasks: Seq<Task>) -> Seq<TaskView> {
    Seq::new(tasks.len(), |i: int| tasks[i]@)
}

/// A directory listing: the names of the directories in a directory, and their lower case.
pub struct Listing {
    pub names: spec_fn(Seq<char>) -> Seq<Seq<char>>,
    pub lower: spec_fn(Seq<char>) -> Seq<char>,
}

/// What is looked for.
pub struct Query {
    pub segments: Seq<Seq<char>>,
    pub home: Seq<char>,
}

/// How a directory that was found is shown.
pub open spec fn shown(path: Seq<char>, home: Seq<char>) -> Seq<char> {
    paths::abbreviated(path, home).push('/')
}

/// Whether an entry is passed over: enough was found, or its name begins with a dot.
pub open spec fn passed_over(name: Seq<char>, found: Seq<Seq<char>>) -> bool {
    found.len() >= MAX_RESULTS || (name.len() > 0 && name[0] == '.')
}

/// Results after a directory was gone through: each entry is looked at in turn.
pub open spec fn visited(
    list: Listing,
    q: Query,
    dir: Seq<char>,
    seg: nat,
    depth: nat,
    found: Seq<Seq<char>>,
) -> Seq<Seq<char>>
    decreases depth, 2nat, 0nat,
{
    if depth == 0 || found.len() >= MAX_RESULTS || seg >= q.segments.len() {
        found
    } else {
        entries_seen(list, q, dir, (list.names)(dir), seg, depth, found)
    }
}

/// Results after the entries `names` of directory `dir` were looked at.
pub open spec fn entries_seen(
    list: Listing,
    q: Query,
    dir: Seq<char>,
    names: Seq<Seq<char>>,
    seg: nat,
    depth: nat,
    found: Seq<Seq<char>>,
) -> Seq<Seq<char>>
    decreases depth, 1nat, names.len(),
{
    if names.len() == 0 || depth == 0 {
        found
    } else {
        let found1 = entry_seen(
            list,
            q,
            names[0],
            (list.lower)(names[0]),
            paths::joined(dir, names[0]),
            seg,
            depth,
            found,
        );
        entries_seen(list, q, dir, names.drop_first(), seg, depth, found1)
    }
}

/// Results after an entry was looked at. Where its name holds the first segment it is found if
/// that was the last segment, and gone through for the rest of them otherwise. In any case it
/// is gone through for all of them.
pub open spec fn entry_seen(
    list: Listing,
    q: Query,
    name: Seq<char>,
    lower: Seq<char>,
    path: Seq<char>,
    seg: nat,
    depth: nat,
    found: Seq<Seq<char>>,
) -> Seq<Seq<char>>
    decreases depth, 0nat, 0nat,
{
    if passed_over(name, found) || depth == 0 {
        found
    } else {
        let found1 = if !text::holds(lower, q.segments[seg as int]) {
            found
        } else if seg + 1 == q.segments.len() {
            found.push(shown(path, q.home))
        } else {
            visited(list, q, path, seg + 1, (depth - 1) as nat, found)
        };
        visited(list, q, path, seg, (depth - 1) as nat, found1)
    }
}

/// Results after a task was done.
pub open spec fn task_done(list: Listing, q: Query, task: TaskView, found: Seq<Seq<char>>) -> Seq<
    Seq<char>,
> {
    match task {
        TaskView::Visit { dir, seg, depth } => visited(list, q, dir, seg, depth, found),
        TaskView::Entry { name, lower, path, seg, depth } => entry_seen(
            list,
            q,
            name,
            lower,
            path,
            seg,
            depth,
            found,
        ),
    }
}

/// Results after all tasks were done, the last one first.
pub open spec fn all_done(
    list: Listing,
    q: Query,
    tasks: Seq<TaskView>,
    found: Seq<Seq<char>>,
) -> Seq<Seq<char>>
    decreases tasks.len(),
{
    if tasks.len() == 0 {
        found
    } else {
        all_done(list, q, tasks.drop_last(), task_done(list, q, tasks.last(), found))
    }
}

/// How many directories are listed to go through a directory.
pub open spec fn visit_listings(
    list: Listing,
    q: Query,
    dir: Seq<char>,
    seg: nat,
    depth: nat,
    found: Seq<Seq<char>>,
) -> nat
    decreases depth, 2nat, 0nat,
{
    if depth == 0 || found.len() >= MAX_RESULTS || seg >= q.segments.len() {
        0
    } else {
        1 + entries_listings(list, q, dir, (list.names)(dir), seg, depth, found)
    }
}

/// How many directories are listed to look at the entries `names` of directory `dir`.
pub open spec fn entries_listings(
    list: Listing,
    q: Query,
    dir: Seq<char>,
    names: Seq<Seq<char>>,
    seg: nat,
    depth: nat,
    found: Seq<Seq<char>>,
) -> nat
    decreases depth, 1nat, names.len(),
{
    if names.len() == 0 || depth == 0 {
        0
    } else {
        let lower = (list.lower)(names[0]);
        let path = paths::joined(dir, names[0]);
        let found1 = entry_seen(list, q, names[0], lower, path, seg, depth, found);
        entry_listings(list, q, names[0], lower, path, seg, depth, found) + entries_listings(
            list,
            q,
            dir,
            names.drop_first(),
            seg,
            depth,
            found1,
        )
    }
}

/// How many directories are listed to look at an entry.
pub open spec fn entry_listings(
    list: Listing,
    q: Query,
    name: Seq<char>,
    lower: Seq<char>,
    path: Seq<char>,
    seg: nat,
    depth: nat,
    found: Seq<Seq<char>>,
) -> nat
    decreases depth, 0nat, 0nat,
{
    if passed_over(name, found) || depth == 0 {
        0
    } else {
        let below = (depth - 1) as nat;
        if !text::holds(lower, q.segments[seg as int]) {
            visit_listings(list, q, path, seg, below, found)
        } else if seg + 1 == q.segments.len() {
            visit_listings(list, q, path, seg, below, found.push(shown(path, q.home)))
        } else {
            visit_listings(list, q, path, seg + 1, below, found) + visit_listings(
                list,
                q,
                path,
                seg,
                below,
                visited(list, q, path, seg + 1, below, found),
            )
        }
    }
}

/// How many directories are listed to do a task.
pub open spec fn task_listings(
    list: Listing,
    q: Query,
    task: TaskView,
    found: Seq<Seq<char>>,
) -> nat {
    match task {
        TaskView::Visit { dir, seg, depth } => visit_listings(list, q, dir, seg, depth, found),
        TaskView::Entry { name, lower, path, seg, depth } => entry_listings(
            list,
            q,
            name,
            lower,
            path,
            seg,
            depth,
            found,
        ),
    }
}

/// How many directories are listed to do all tasks, the last one first.
pub open spec fn all_listings(
    list: Listing,
    q: Query,
    tasks: Seq<TaskView>,
    found: Seq<Seq<char>>,
) -> nat
    decreases tasks.len(),
{
    if tasks.len() == 0 {
        0
    } else {
        task_listings(list, q, tasks.last(), found) + all_listings(
            list,
            q,
            tasks.drop_last(),
            task_done(list, q, tasks.last(), found),
        )
    }
}

/// The tasks for the entries `names` of directory `dir`, the first one last.
pub open spec fn entry_tasks(
    dir: Seq<char>,
    names: Seq<Seq<char>>,
    lowers: Seq<Seq<char>>,
    seg: nat,
    depth: nat,
) -> Seq<TaskView> {
    Seq::new(
        names.len(),
        |i: int|
            TaskView::Entry {
                name: names[names.len() - 1 - i],
                lower: lowers[names.len() - 1 - i],
                path: paths::joined(dir, names[names.len() - 1 - i]),
                seg,
                depth,
            },
    )
}

/// The lower case of names.
pub open spec fn lower_of(list: Listing, names: Seq<Seq<char>>) -> Seq<Seq<char>> {
    Seq::new(names.len(), |i: int| (list.lower)(names[i]))
}

/// The tasks for the entries of a directory do what going through it does, with as many
/// listings.
pub proof fn entry_tasks_visit(
    list: Listing,
    q: Query,
    tasks: Seq<TaskView>,
    dir: Seq<char>,
    names: Seq<Seq<char>>,
    seg: nat,
    depth: nat,
    found: Seq<Seq<char>>,
)
    requires
        depth > 0,
    ensures
        all_done(
            list,
            q,
            tasks + entry_tasks(dir, names, lower_of(list, names), seg, depth),
            found,
        ) == all_done(
            list,
            q,
            tasks,
            entries_seen(list, q, dir, names, seg, depth, found),
        ),
        all_listings(
            list,
            q,
            tasks + entry_tasks(dir, names, lower_of(list, names), seg, depth),
            found,
        ) == entries_listings(list, q, dir, names, seg, depth, found) + all_listings(
            list,
            q,
            tasks,
            entries_seen(list, q, dir, names, seg, depth, found),
        ),
    decreases names.len(),
{
    let added = entry_tasks(dir, names, lower_of(list, names), seg, depth);
    if names.len() == 0 {
        assert(tasks + added =~= tasks);
    } else {
        let rest = names.drop_first();
        let found1 = entry_seen(
            list,
            q,
            names[0],
            (list.lower)(names[0]),
            paths::joined(dir, names[0]),
            seg,
            depth,
            found,
        );
        entry_tasks_visit(list, q, tasks, dir, rest, seg, depth, found1);
        assert((tasks + added).drop_last() =~= tasks + entry_tasks(
            dir,
            rest,
            lower_of(list, rest),
            seg,
            depth,
        ));
        assert((tasks + added).last() == added.last());
    }
}

/// A search for directories, with what it has still to do and what it has found.
pub struct DirSearch {
    pub segments: Vec<String>,
    pub home: String,
    pub tasks: Vec<Task>,
    pub results: Vec<String>,
}

impl DirSearch {
    /// What is looked for.
    pub open spec fn query(self) -> Query {
        Query { segments: text::strings(self.segments@), home: self.home@ }
    }

    /// What is still to be done.
    pub open spec fn to_do(self) -> Seq<TaskView> {
        task_views(self.tasks@)
    }

    /// What was found so far.
    pub open spec fn found(self) -> Seq<Seq<char>> {
        text::strings(self.results@)
    }

    /// What will have been found in the end.
    pub open spec fn outcome(self, list: Listing) -> Seq<Seq<char>> {
        all_done(list, self.query(), self.to_do(), self.found())
    }

    /// How many directories will be listed until the end.
    pub open spec fn listings(self, list: Listing) -> nat {
        all_listings(list, self.query(), self.to_do(), self.found())
    }

    /// Entries are looked at for a segment that there is, with a level to go.
    pub open spec fn wf(self) -> bool {
        forall|i: int|
            0 <= i < self.tasks.len() ==> match #[trigger] self.tasks@[i] {
                Task::Entry { name, lower, path, seg, depth } => depth > 0 && seg
                    < self.segments.len(),
                Task::Visit { dir, seg, depth } => true,
            }
    }

    /// Whether the next thing to do is to go through directory `dir`.
    pub open spec fn waits_for(self, dir: Seq<char>) -> bool {
        &&& self.tasks.len() > 0
        &&& self.results.len() < MAX_RESULTS
        &&& self.tasks@.last() matches Task::Visit { dir: d, seg, depth } && d@ == dir && depth > 0
            && seg < self.segments.len()
    }

    /// A search with nothing to do yet.
    pub fn new(segments: Vec<String>, home: String) -> (search: Self)
        ensures
            search.wf(),
            search.segments == segments,
            search.home == home,
            search.tasks.len() == 0,
            search.results.len() == 0,
    {
        DirSearch { segments, home, tasks: Vec::new(), results: Vec::new() }
    }

    /// Adds a directory to go through, `depth` levels deep.
    pub fn search_below(&mut self, dir: String, depth: usize)
        requires
            old(self).wf(),
            old(self).tasks.len() == 0,
        ensures
            final(self).wf(),
            final(self).query() == old(self).query(),
            forall|list: Listing| #[trigger]
                final(self).outcome(list) == visited(
                    list,
                    old(self).query(),
                    dir@,
                    0,
                    depth as nat,
                    old(self).found(),
                ),
            forall|list: Listing| #[trigger]
                final(self).listings(list) == visit_listings(
                    list,
                    old(self).query(),
                    dir@,
                    0,
                    depth as nat,
                    old(self).found(),
                ),
    {
        let ghost q = self.query();
        let ghost found = self.found();
        let ghost d = dir@;
        self.tasks.push(Task::Visit { dir, seg: 0, depth });
        proof {
            let tasks = self.to_do();
            assert(tasks.len() == 1);
            assert forall|list: Listing| #[trigger] self.outcome(list) == visited(
                list,
                q,
                d,
                0,
                depth as nat,
                found,
            ) by {
                assert(all_done(list, q, tasks.drop_last(), visited(list, q, d, 0, depth as nat, found))
                    == visited(list, q, d, 0, depth as nat, found));
            }
            assert forall|list: Listing| #[trigger] self.listings(list) == visit_listings(
                list,
                q,
                d,
                0,
                depth as nat,
                found,
            ) by {
                let after = visited(list, q, d, 0, depth as nat, found);
                assert(all_listings(list, q, tasks.drop_last(), after) == 0);
            }
        }
    }

    /// Goes on until a directory has to be listed, and says which; `None` at the end.
    pub fn advance(&mut self) -> (r: Option<String>)
        requires
            old(self).wf(),
        ensures
            final(self).wf(),
            final(self).query() == old(self).query(),
            forall|list: Listing| #[trigger] final(self).outcome(list) == old(self).outcome(list),
            forall|list: Listing| #[trigger] final(self).listings(list) == old(self).listings(list),
            match r {
                Some(dir) => final(self).waits_for(dir@),
                None => final(self).tasks.len() == 0,
            },
    {
        while self.tasks.len() > 0
            invariant
                self.wf(),
                self.query() == old(self).query(),
                forall|list: Listing| #[trigger] self.outcome(list) == old(self).outcome(list),
                forall|list: Listing| #[trigger] self.listings(list) == old(self).listings(list),
            decreases weight(self.to_do()),
        {
            let ghost before = *self;
            let last = self.tasks.len() - 1;
            match &self.tasks[last] {
                Task::Visit { dir, seg, depth } => {
                    if *depth > 0 && self.results.len() < MAX_RESULTS && *seg
                        < self.segments.len() {
                        return Some(copy_text(dir));
                    }
                },
                Task::Entry { name, lower, path, seg, depth } => {},
            }
            let task = self.tasks.pop();
            proof {
                popping_is_lighter(before.to_do());
                assert(self.to_do() =~= before.to_do().drop_last());
            }
            match task {
                Some(Task::Entry { name, lower, path, seg, depth }) => {
                    self.look_at(name, lower, path, seg, depth);
                },
                _ => {},
            }
            assert forall|list: Listing| #[trigger] self.outcome(list) == before.outcome(list) by {
                assert(before.to_do().last() == before.tasks@[last as int]@);
            }
            assert forall|list: Listing| #[trigger] self.listings(list) == before.listings(
                list,
            ) by {
                assert(before.to_do().last() == before.tasks@[last as int]@);
            }
        }
        None
    }

    /// Looks at an entry that was taken from what is to be done.
    fn look_at(&mut self, name: String, lower: String, path: String, seg: usize, depth: usize)
        requires
            old(self).wf(),
            depth > 0,
            seg < old(self).segments.len(),
        ensures
            final(self).wf(),
            final(self).query() == old(self).query(),
            forall|list: Listing| #[trigger]
                final(self).outcome(list) == all_done(
                    list,
                    old(self).query(),
                    old(self).to_do(),
                    entry_seen(
                        list,
                        old(self).query(),
                        name@,
                        lower@,
                        path@,
                        seg as nat,
                        depth as nat,
                        old(self).found(),
                    ),
                ),
            forall|list: Listing| #[trigger]
                final(self).listings(list) == entry_listings(
                    list,
                    old(self).query(),
                    name@,
                    lower@,
                    path@,
                    seg as nat,
                    depth as nat,
                    old(self).found(),
                ) + all_listings(
                    list,
                    old(self).query(),
                    old(self).to_do(),
                    entry_seen(
                        list,
                        old(self).query(),
                        name@,
                        lower@,
                        path@,
                        seg as nat,
                        depth as nat,
                        old(self).found(),
                    ),
                ),
            weight(final(self).to_do()) <= weight(old(self).to_do()) + 2,
    {
        let ghost q = self.query();
        let ghost tasks = self.to_do();
        let ghost found = self.found();
        let n = chars_of(name.as_str());
        if self.results.len() >= MAX_RESULTS || (n.len() > 0 && n[0] == '.') {
            return;
        }
        let segment = chars_of(self.segments[seg].as_str());
        assert(q.segments[seg as int] == segment@);
        let matched = find_from(&chars_of(lower.as_str()), &segment, 0).is_some();
        proof {
            text::first_at_is_first(lower@, segment@, 0);
        }
        let all = Task::Visit { dir: copy_text(&path), seg, depth: depth - 1 };
        let ghost all_view = all@;
        self.tasks.push(all);
        assert(self.to_do() =~= tasks.push(all_view));
        assert(tasks.push(all_view).drop_last() =~= tasks);
        if matched {
            if seg + 1 == self.segments.len() {
                let mut display = abbreviate_home(path.as_str(), self.home.as_str());
                display.push('/');
                let ghost d = display@;
                self.results.push(display);
                assert(self.found() =~= found.push(d));
            } else {
                let rest = Task::Visit { dir: copy_text(&path), seg: seg + 1, depth: depth - 1 };
                let ghost rest_view = rest@;
                self.tasks.push(rest);
                assert(self.to_do() =~= tasks.push(all_view).push(rest_view));
                assert(tasks.push(all_view).push(rest_view).drop_last() =~= tasks.push(all_view));
            }
        }
        proof {
            let now = self.to_do();
            assert forall|list: Listing| #[trigger] self.outcome(list) == all_done(
                list,
                q,
                tasks,
                entry_seen(list, q, name@, lower@, path@, seg as nat, depth as nat, found),
            ) by {
                if now.len() == tasks.len() + 2 {
                    assert(all_done(list, q, now, found) == all_done(
                        list,
                        q,
                        tasks.push(all_view),
                        task_done(list, q, now.last(), found),
                    ));
                }
            }
            assert forall|list: Listing| #[trigger] self.listings(list) == entry_listings(
                list,
                q,
                name@,
                lower@,
                path@,
                seg as nat,
                depth as nat,
                found,
            ) + all_listings(
                list,
                q,
                tasks,
                entry_seen(list, q, name@, lower@, path@, seg as nat, depth as nat, found),
            ) by {
                if now.len() == tasks.len() + 2 {
                    assert(all_listings(list, q, now, found) == task_listings(
                        list,
                        q,
                        now.last(),
                        found,
                    ) + all_listings(
                        list,
                        q,
                        tasks.push(all_view),
                        task_done(list, q, now.last(), found),
                    ));
                }
            }
            if now.len() == tasks.len() + 2 {
                popping_is_lighter(now);
            }
            popping_is_lighter(tasks.push(all_view));
        }
    }

    /// Takes in the names of the directories in the directory that was asked for, and their
    /// lower case.
    pub fn supply(&mut self, names: &Vec<String>, lowers: &Vec<String>)
        requires
            old(self).wf(),
            exists|dir: Seq<char>| old(self).waits_for(dir),
            names.len() == lowers.len(),
        ensures
            final(self).wf(),
            final(self).query() == old(self).query(),
            final(self).found() == old(self).found(),
            old(self).tasks@.last() matches Task::Visit { dir, seg, depth } && final(self).to_do()
                == old(self).to_do().drop_last() + entry_tasks(
                dir@,
                text::strings(names@),
                text::strings(lowers@),
                seg as nat,
                depth as nat,
            ),
    {
        let ghost before = *self;
        let ghost ns = text::strings(names@);
        let ghost ls = text::strings(lowers@);
        let task = self.tasks.pop();
        assert(self.to_do() =~= before.to_do().drop_last());
        match task {
            Some(Task::Visit { dir, seg, depth }) => {
                let ghost added = entry_tasks(dir@, ns, ls, seg as nat, depth as nat);
                let mut i: usize = names.len();
                assert(self.to_do() =~= before.to_do().drop_last() + added.take(0));
                while i > 0
                    invariant
                        i <= names.len(),
                        names.len() == lowers.len(),
                        ns == text::strings(names@),
                        ls == text::strings(lowers@),
                        added == entry_tasks(dir@, ns, ls, seg as nat, depth as nat),
                        self.wf(),
                        depth > 0,
                        seg < self.segments.len(),
                        self.query() == before.query(),
                        self.found() == before.found(),
                        self.to_do() == before.to_do().drop_last() + added.take(names.len() - i),
                    decreases i,
                {
                    i = i - 1;
                    let ghost tasks = self.to_do();
                    let entry = Task::Entry {
                        name: copy_text(&names[i]),
                        lower: copy_text(&lowers[i]),
                        path: join_path(dir.as_str(), names[i].as_str()),
                        seg,
                        depth,
                    };
                    let ghost e = entry@;
                    self.tasks.push(entry);
                    assert(self.to_do() =~= tasks.push(e));
                    assert(added[names.len() - i - 1] == e);
                    assert(added.take(names.len() - i) =~= added.take(names.len() - i - 1).push(e));
                    assert(self.to_do() =~= before.to_do().drop_last() + added.take(
                        names.len() - i,
                    ));
                }
                assert(added.take(names.len() as int) =~= added);
            },
            _ => {},
        }
    }
}

/// Work in a list of tasks: each entry can bring two visits.
pub open spec fn weight(tasks: Seq<TaskView>) -> nat
    decreases tasks.len(),
{
    if tasks.len() == 0 {
        0
    } else {
        weight(tasks.drop_last()) + if tasks.last() is Visit {
            1nat
        } else {
            3nat
        }
    }
}

proof fn popping_is_lighter(tasks: Seq<TaskView>)
    requires
        tasks.len() > 0,
    ensures
        weight(tasks) == weight(tasks.drop_last()) + if tasks.last() is Visit {
            1nat
        } else {
            3nat
        },
{
}

/// Where the names that are supplied are those of the directory that was asked for, the search
/// comes to the same results, with one listing less to go.
pub proof fn supply_goes_on(
    list: Listing,
    q: Query,
    tasks: Seq<TaskView>,
    dir: Seq<char>,
    seg: nat,
    depth: nat,
    found: Seq<Seq<char>>,
)
    requires
        depth > 0,
        seg < q.segments.len(),
        found.len() < MAX_RESULTS,
    ensures
        all_done(
            list,
            q,
            tasks + entry_tasks(
                dir,
                (list.names)(dir),
                lower_of(list, (list.names)(dir)),
                seg,
                depth,
            ),
            found,
        ) == all_done(list, q, tasks.push(TaskView::Visit { dir, seg, depth }), found),
        all_listings(
            list,
            q,
            tasks + entry_tasks(
                dir,
                (list.names)(dir),
                lower_of(list, (list.names)(dir)),
                seg,
                depth,
            ),
            found,
        ) + 1 == all_listings(list, q, tasks.push(TaskView::Visit { dir, seg, depth }), found),
{
    let names = (list.names)(dir);
    entry_tasks_visit(list, q, tasks, dir, names, seg, depth, found);
    let visit = TaskView::Visit { dir, seg, depth };
    assert(tasks.push(visit).drop_last() =~= tasks);
}

} // verus!
