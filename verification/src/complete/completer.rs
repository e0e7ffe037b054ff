//! Completion of an input step by step: each step says what has to be known of the directories
//! next.

use crate::complete;
use crate::complete::search;
use crate::complete::search::{DirSearch, Query};
use crate::complete::{
    complete_path, input_path, lower_all, offer, path_query, pieces_of, take_few, Directories,
    PathQuery,
};
use crate::paths;
use crate::text;
use crate::text::{chars_of, copy_text, same_chars, stands_at};
use vstd::prelude::*;

verus! {

/// What has to be known next, or the answer.
pub enum Ask {
    /// Whether a path is a directory.
    IsDir(String),
    /// The names of the directories in a directory.
    List(String),
    /// Nothing: these are the completions.
    Done(Vec<String>),
}

/// How far a completion has come.
pub enum Stage {
    /// It waits to know whether the path is a directory.
    Check,
    /// It waits for the directory of a path that is spelled out.
    Path(PathQuery),
    /// It searches below the home directory.
    Home,
    /// It searches below the current directory.
    Current,
}

/// The completion of an input.
pub struct Completer {
    pub input: String,
    pub home: String,
    pub current: Option<String>,
    pub stage: Stage,
    pub search: DirSearch,
}

impl Completer {
    /// A search is for the pieces of the input.
    pub open spec fn wf(self) -> bool {
        &&& self.search.wf()
        &&& self.input@.len() > 0
        &&& match self.stage {
            Stage::Check => complete::is_explicit(self.input@),
            Stage::Path(_) => true,
            Stage::Home | Stage::Current => {
                &&& self.search.query() == (Query {
                    segments: complete::segments_of(self.input@),
                    home: self.home@,
                })
                &&& self.home@.len() > 0
            },
        }
    }

    /// What the completion comes to if the directories are `dirs`.
    pub open spec fn eventual(self, dirs: Directories) -> Seq<Seq<char>> {
        let current = text::opt_text(self.current);
        let list = complete::listing(dirs);
        match self.stage {
            Stage::Check => complete::answer(dirs, self.input@, self.home@, current),
            Stage::Path(q) => {
                let r = paths::sorted_of(
                    complete::completions(q@, self.home@, (dirs.names)(q@.dir)),
                );
                if r.len() > 0 {
                    complete::first_few(r)
                } else {
                    complete::searched(
                        dirs,
                        complete::segments_of(self.input@),
                        self.home@,
                        current,
                    )
                }
            },
            Stage::Home => {
                let found = self.search.outcome(list);
                complete::offered(
                    if complete::searches_current(current, self.home@) {
                        search::visited(list, self.search.query(), current.unwrap(), 0, 2, found)
                    } else {
                        found
                    },
                )
            },
            Stage::Current => complete::offered(self.search.outcome(list)),
        }
    }

    /// How many directories have still to be listed if the directories are `dirs`.
    pub open spec fn listings_left(self, dirs: Directories) -> nat {
        let current = text::opt_text(self.current);
        let list = complete::listing(dirs);
        match self.stage {
            Stage::Check => complete::answer_listings(dirs, self.input@, self.home@, current),
            Stage::Path(q) => {
                let r = paths::sorted_of(
                    complete::completions(q@, self.home@, (dirs.names)(q@.dir)),
                );
                if r.len() > 0 {
                    1
                } else {
                    1 + complete::searched_listings(
                        dirs,
                        complete::segments_of(self.input@),
                        self.home@,
                        current,
                    )
                }
            },
            Stage::Home => self.search.listings(list) + if complete::searches_current(
                current,
                self.home@,
            ) {
                search::visit_listings(
                    list,
                    self.search.query(),
                    current.unwrap(),
                    0,
                    2,
                    self.search.outcome(list),
                )
            } else {
                0
            },
            Stage::Current => self.search.listings(list),
        }
    }

    /// Whether it searches.
    pub open spec fn searches(self) -> bool {
        self.stage is Home || self.stage is Current
    }

    /// Whether `ask` is what has to be known next.
    pub open spec fn expects(self, ask: Ask) -> bool {
        match (ask, self.stage) {
            (Ask::Done(_), _) => true,
            (Ask::IsDir(path), Stage::Check) => path@ == complete::full_input(
                self.input@,
                self.home@,
            ),
            (Ask::List(dir), Stage::Path(q)) => dir@ == q@.dir,
            (Ask::List(dir), Stage::Home | Stage::Current) => self.search.waits_for(dir@),
            _ => false,
        }
    }
}

/// What a completion comes to after `ask`.
pub open spec fn resolves(completer: Completer, ask: Ask, dirs: Directories) -> Seq<Seq<char>> {
    match ask {
        Ask::Done(r) => text::strings(r@),
        _ => completer.eventual(dirs),
    }
}

/// How many questions are still to be answered, `ask` among them, before the completions are
/// there.
pub open spec fn asks_left(completer: Completer, ask: Ask, dirs: Directories) -> nat {
    match ask {
        Ask::Done(_) => 0,
        Ask::IsDir(_) => 1 + completer.listings_left(dirs),
        Ask::List(_) => completer.listings_left(dirs),
    }
}

impl Completer {
    /// Begins the completion of an input.
    pub fn begin(input: String, home: String, current: Option<String>) -> (r: (Self, Ask))
        ensures
            !(r.1 is Done) ==> r.0.wf(),
            r.0.expects(r.1),
            forall|dirs: Directories| #[trigger]
                resolves(r.0, r.1, dirs) == complete::answer(
                    dirs,
                    input@,
                    home@,
                    text::opt_text(current),
                ),
            forall|dirs: Directories| #[trigger]
                asks_left(r.0, r.1, dirs) == complete::answer_listings(
                    dirs,
                    input@,
                    home@,
                    text::opt_text(current),
                ) + if complete::is_explicit(input@) {
                    1nat
                } else {
                    0
                },
    {
        let i = chars_of(input.as_str());
        let mut completer = Completer {
            input,
            home,
            current,
            stage: Stage::Check,
            search: DirSearch::new(Vec::new(), String::new()),
        };
        if i.len() == 0 {
            let r: Vec<String> = Vec::new();
            assert(text::strings(r@) =~= seq![]);
            return (completer, Ask::Done(r));
        }
        let ask = if i[0] == '~' || i[0] == '/' || i[0] == '.' {
            Ask::IsDir(input_path(completer.input.as_str(), completer.home.as_str()))
        } else {
            completer.begin_search()
        };
        (completer, ask)
    }

    /// Begins to search for the pieces of the input.
    fn begin_search(&mut self) -> (ask: Ask)
        requires
            old(self).input@.len() > 0,
        ensures
            ask is Done || (final(self).wf() && final(self).searches()),
            final(self).expects(ask),
            forall|dirs: Directories| #[trigger]
                asks_left(*final(self), ask, dirs) == complete::searched_listings(
                    dirs,
                    complete::segments_of(old(self).input@),
                    old(self).home@,
                    text::opt_text(old(self).current),
                ),
            forall|dirs: Directories| #[trigger]
                resolves(*final(self), ask, dirs) == complete::searched(
                    dirs,
                    complete::segments_of(old(self).input@),
                    old(self).home@,
                    text::opt_text(old(self).current),
                ),
    {
        let segments = lower_all(&pieces_of(self.input.as_str()));
        assert(text::strings(segments@) =~= complete::segments_of(self.input@));
        if segments.len() == 0 || chars_of(self.home.as_str()).len() == 0 {
            let r: Vec<String> = Vec::new();
            assert(text::strings(r@) =~= seq![]);
            return Ask::Done(r);
        }
        self.search = DirSearch::new(segments, copy_text(&self.home));
        assert(self.search.found() =~= seq![]);
        self.search.search_below(copy_text(&self.home), 3);
        self.stage = Stage::Home;
        let ghost before = *self;
        let ask = self.go_on();
        assert forall|dirs: Directories| #[trigger] asks_left(*self, ask, dirs)
            == complete::searched_listings(
            dirs,
            complete::segments_of(old(self).input@),
            old(self).home@,
            text::opt_text(old(self).current),
        ) by {
            let list = complete::listing(dirs);
            let q = before.search.query();
            assert(before.search.outcome(list) == search::visited(
                list,
                q,
                before.home@,
                0,
                3,
                seq![],
            ));
            assert(before.search.listings(list) == search::visit_listings(
                list,
                q,
                before.home@,
                0,
                3,
                seq![],
            ));
        }
        assert forall|dirs: Directories| #[trigger] resolves(*self, ask, dirs)
            == complete::searched(
            dirs,
            complete::segments_of(old(self).input@),
            old(self).home@,
            text::opt_text(old(self).current),
        ) by {
            assert(before.search.outcome(complete::listing(dirs)) == search::visited(
                complete::listing(dirs),
                before.search.query(),
                before.home@,
                0,
                3,
                seq![],
            ));
        }
        ask
    }

    /// Goes on with a search until a directory has to be listed, or to the end.
    fn go_on(&mut self) -> (ask: Ask)
        requires
            old(self).wf(),
            old(self).searches(),
        ensures
            ask is Done || (final(self).wf() && final(self).searches()),
            final(self).expects(ask),
            forall|dirs: Directories| #[trigger]
                asks_left(*final(self), ask, dirs) == old(self).listings_left(dirs),
            forall|dirs: Directories| #[trigger]
                resolves(*final(self), ask, dirs) == old(self).eventual(dirs),
    {
        let ghost start = *self;
        match self.search.advance() {
            Some(dir) => {
                assert forall|dirs: Directories| #[trigger] self.listings_left(dirs)
                    == start.listings_left(dirs) by {
                    let list = complete::listing(dirs);
                    assert(self.search.outcome(list) == start.search.outcome(list));
                    assert(self.search.listings(list) == start.search.listings(list));
                }
                return Ask::List(dir);
            },
            None => {},
        }
        let ghost mid = *self;
        assert forall|dirs: Directories| #[trigger] mid.eventual(dirs) == start.eventual(dirs) by {
            let list = complete::listing(dirs);
            assert(mid.search.outcome(list) == start.search.outcome(list));
        }
        assert forall|dirs: Directories| #[trigger] mid.listings_left(dirs)
            == start.listings_left(dirs) by {
            let list = complete::listing(dirs);
            assert(mid.search.outcome(list) == start.search.outcome(list));
            assert(mid.search.listings(list) == start.search.listings(list));
        }
        let other = match (&self.stage, &self.current) {
            (Stage::Home, Some(dir)) => {
                let d = chars_of(dir.as_str());
                let h = chars_of(self.home.as_str());
                if !stands_at(&d, &h, 0) || same_chars(&d, &h) {
                    Some(copy_text(dir))
                } else {
                    None
                }
            },
            _ => None,
        };
        match other {
            Some(dir) => {
                self.search.search_below(dir, 2);
                self.stage = Stage::Current;
                let ghost again = *self;
                assert forall|dirs: Directories| #[trigger] again.eventual(dirs)
                    == start.eventual(dirs) by {
                    let list = complete::listing(dirs);
                    assert(mid.search.outcome(list) == mid.search.found());
                    assert(mid.eventual(dirs) == start.eventual(dirs));
                    assert(again.search.outcome(list) == search::visited(
                        list,
                        mid.search.query(),
                        dir@,
                        0,
                        2,
                        mid.search.found(),
                    ));
                }
                assert forall|dirs: Directories| #[trigger] again.listings_left(dirs)
                    == start.listings_left(dirs) by {
                    let list = complete::listing(dirs);
                    assert(mid.search.outcome(list) == mid.search.found());
                    assert(mid.search.listings(list) == 0);
                    assert(mid.listings_left(dirs) == start.listings_left(dirs));
                    assert(again.search.listings(list) == search::visit_listings(
                        list,
                        mid.search.query(),
                        dir@,
                        0,
                        2,
                        mid.search.found(),
                    ));
                }
                match self.search.advance() {
                    Some(dir) => {
                        assert forall|dirs: Directories| #[trigger] self.listings_left(dirs)
                            == start.listings_left(dirs) by {
                            let list = complete::listing(dirs);
                            assert(self.search.listings(list) == again.search.listings(list));
                            assert(again.listings_left(dirs) == start.listings_left(dirs));
                        }
                        assert forall|dirs: Directories| #[trigger] self.eventual(dirs)
                            == start.eventual(dirs) by {
                            let list = complete::listing(dirs);
                            assert(self.search.outcome(list) == again.search.outcome(list));
                            assert(again.eventual(dirs) == start.eventual(dirs));
                        }
                        return Ask::List(dir);
                    },
                    None => {},
                }
                assert forall|dirs: Directories| #[trigger] self.eventual(dirs)
                    == start.eventual(dirs) by {
                    let list = complete::listing(dirs);
                    assert(self.search.outcome(list) == again.search.outcome(list));
                    assert(again.eventual(dirs) == start.eventual(dirs));
                }
                assert forall|dirs: Directories| #[trigger] self.listings_left(dirs)
                    == start.listings_left(dirs) by {
                    let list = complete::listing(dirs);
                    assert(self.search.listings(list) == again.search.listings(list));
                    assert(again.listings_left(dirs) == start.listings_left(dirs));
                }
            },
            None => {},
        }
        let ghost end = *self;
        assert forall|dirs: Directories| #[trigger] start.listings_left(dirs) == 0 by {
            assert(end.search.listings(complete::listing(dirs)) == 0);
            assert(mid.listings_left(dirs) == start.listings_left(dirs));
            assert(end.listings_left(dirs) == start.listings_left(dirs));
        }
        let mut found: Vec<String> = Vec::new();
        found.append(&mut self.search.results);
        assert(text::strings(found@) =~= end.search.found());
        let found = offer(found);
        assert forall|dirs: Directories| text::strings(found@) == #[trigger] start.eventual(
            dirs,
        ) by {
            assert(end.search.outcome(complete::listing(dirs)) == end.search.found());
            assert(mid.eventual(dirs) == start.eventual(dirs));
            assert(end.eventual(dirs) == start.eventual(dirs));
        }
        Ask::Done(found)
    }

    /// Takes in whether the path that was asked for is a directory.
    pub fn told_dir(&mut self, is_dir: bool) -> (ask: Ask)
        requires
            old(self).wf(),
            old(self).stage is Check,
        ensures
            final(self).wf(),
            ask is List,
            final(self).expects(ask),
            forall|dirs: Directories|
                (dirs.is_dir)(complete::full_input(old(self).input@, old(self).home@)) == is_dir
                    ==> #[trigger] resolves(*final(self), ask, dirs) == old(self).eventual(dirs),
            forall|dirs: Directories|
                (dirs.is_dir)(complete::full_input(old(self).input@, old(self).home@)) == is_dir
                    ==> #[trigger] asks_left(*final(self), ask, dirs) == old(self).listings_left(
                    dirs,
                ),
    {
        let q = path_query(self.input.as_str(), self.home.as_str(), is_dir);
        let dir = copy_text(&q.dir);
        self.stage = Stage::Path(q);
        Ask::List(dir)
    }

    /// Takes in the names of the directories in the directory that was asked for.
    pub fn told_names(&mut self, names: &Vec<String>) -> (ask: Ask)
        requires
            old(self).wf(),
            match old(self).stage {
                Stage::Check => false,
                Stage::Path(_) => true,
                _ => exists|dir: Seq<char>| old(self).search.waits_for(dir),
            },
        ensures
            ask is Done || (final(self).wf() && final(self).searches()),
            final(self).expects(ask),
            forall|dirs: Directories|
                (dirs.names)(old(self).awaited()) == text::strings(names@) ==> #[trigger] asks_left(
                    *final(self),
                    ask,
                    dirs,
                ) + 1 == old(self).listings_left(dirs),
            forall|dirs: Directories|
                (dirs.names)(old(self).awaited()) == text::strings(names@) ==> #[trigger] resolves(
                    *final(self),
                    ask,
                    dirs,
                ) == old(self).eventual(dirs),
    {
        let ghost start = *self;
        let matches = match &self.stage {
            Stage::Path(q) => Some(complete_path(q, self.home.as_str(), names)),
            _ => None,
        };
        match matches {
            Some(matches) => if matches.len() > 0 {
                Ask::Done(take_few(matches))
            } else {
                self.begin_search()
            },
            None => {
                let lowers = lower_all(names);
                self.search.supply(names, &lowers);
                let ghost mid = *self;
                let ask = self.go_on();
                assert forall|dirs: Directories|
                    (dirs.names)(start.awaited()) == text::strings(names@) implies
                    #[trigger] resolves(*self, ask, dirs) == start.eventual(dirs) by {
                    let list = complete::listing(dirs);
                    let ns = text::strings(names@);
                    match start.search.tasks@.last() {
                        search::Task::Visit { dir, seg, depth } => {
                            assert(text::strings(lowers@) =~= search::lower_of(list, ns));
                            let tasks = start.search.to_do();
                            search::supply_goes_on(
                                list,
                                start.search.query(),
                                tasks.drop_last(),
                                dir@,
                                seg as nat,
                                depth as nat,
                                start.search.found(),
                            );
                            assert(tasks.last() == start.search.tasks@.last()@);
                            assert(tasks.drop_last().push(tasks.last()) =~= tasks);
                            assert(mid.search.outcome(list) == start.search.outcome(list));
                            assert(mid.eventual(dirs) == start.eventual(dirs));
                        },
                        _ => {},
                    }
                }
                assert forall|dirs: Directories|
                    (dirs.names)(start.awaited()) == text::strings(names@) implies
                    #[trigger] asks_left(*self, ask, dirs) + 1 == start.listings_left(dirs) by {
                    let list = complete::listing(dirs);
                    let ns = text::strings(names@);
                    match start.search.tasks@.last() {
                        search::Task::Visit { dir, seg, depth } => {
                            assert(text::strings(lowers@) =~= search::lower_of(list, ns));
                            let tasks = start.search.to_do();
                            search::supply_goes_on(
                                list,
                                start.search.query(),
                                tasks.drop_last(),
                                dir@,
                                seg as nat,
                                depth as nat,
                                start.search.found(),
                            );
                            assert(tasks.last() == start.search.tasks@.last()@);
                            assert(tasks.drop_last().push(tasks.last()) =~= tasks);
                            assert(mid.search.outcome(list) == start.search.outcome(list));
                            assert(mid.search.listings(list) + 1 == start.search.listings(list));
                            assert(mid.listings_left(dirs) + 1 == start.listings_left(dirs));
                        },
                        _ => {},
                    }
                }
                ask
            },
        }
    }

    /// The directory whose names are awaited.
    pub open spec fn awaited(self) -> Seq<char> {
        match self.stage {
            Stage::Path(q) => q@.dir,
            _ => match self.search.tasks@.last() {
                search::Task::Visit { dir, seg, depth } => dir@,
                search::Task::Entry { name, lower, path, seg, depth } => path@,
            },
        }
    }
}

/// Whether `next` is where a completion comes to when the question of `last` is answered, as
/// the contracts of `told_dir` and `told_names` say.
pub open spec fn answered(
    last: (Completer, Ask),
    next: (Completer, Ask),
    dirs: Directories,
) -> bool {
    &&& !(last.1 is Done)
    &&& next.0.expects(next.1)
    &&& resolves(next.0, next.1, dirs) == last.0.eventual(dirs)
    &&& asks_left(next.0, next.1, dirs) + 1 == asks_left(last.0, last.1, dirs)
}

/// A question that is asked is one of those that are left.
proof fn a_question_is_left(completer: Completer, ask: Ask, dirs: Directories)
    requires
        completer.expects(ask),
        !(ask is Done),
    ensures
        asks_left(completer, ask, dirs) > 0,
{
    match (ask, completer.stage) {
        (Ask::List(dir), Stage::Home | Stage::Current) => {
            let s = completer.search;
            assert(s.to_do().last() == s.tasks@.last()@);
            assert(s.listings(complete::listing(dirs)) > 0);
        },
        _ => {},
    }
}

/// A completion comes to an end: each answer to a question leaves one question less, the
/// completions are there when, and only when, as many questions were answered as were left at
/// the beginning, and they are those that the completion was to come to.
pub proof fn completion_ends(run: Seq<(Completer, Ask)>, dirs: Directories)
    requires
        run.len() > 0,
        run[0].0.expects(run[0].1),
        forall|i: int, j: int|
            #![trigger run[i], run[j]]
            0 <= i < run.len() - 1 && j == i + 1 ==> answered(run[i], run[j], dirs),
    ensures
        run.len() - 1 + asks_left(run.last().0, run.last().1, dirs) == asks_left(
            run[0].0,
            run[0].1,
            dirs,
        ),
        run.last().1 is Done <==> run.len() - 1 == asks_left(run[0].0, run[0].1, dirs),
        resolves(run.last().0, run.last().1, dirs) == resolves(run[0].0, run[0].1, dirs),
    decreases run.len(),
{
    if run.len() > 1 {
        let before = run.drop_last();
        assert forall|i: int, j: int|
            #![trigger before[i], before[j]]
            0 <= i < before.len() - 1 && j == i + 1 implies answered(
            before[i],
            before[j],
            dirs,
        ) by {
            assert(answered(run[i], run[j], dirs));
        }
        completion_ends(before, dirs);
        assert(answered(run[run.len() - 2], run[run.len() - 1], dirs));
    }
    if !(run.last().1 is Done) {
        a_question_is_left(run.last().0, run.last().1, dirs);
    }
}

} // verus!
