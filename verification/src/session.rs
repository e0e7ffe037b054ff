//! Saved sessions: their names, their files, and what is saved.

use crate::paths;
use crate::paths::{join_path, sort_texts};
use crate::text;
use crate::text::{chars_of, copy_opt, copy_text, push_text, slice_of, stands_at, to_text};
use vstd::prelude::*;

verus! {

/// A session: its workers and when it was saved.
pub struct Session {
    pub name: String,
    pub workers: Vec<WorkerInfo>,
    pub created_at: String,
}

/// A worker of a session.
pub struct WorkerInfo {
    pub name: String,
    pub cwd: Option<String>,
}

impl Clone for WorkerInfo {
    fn clone(&self) -> (copy: Self)
        ensures
            copy.name@ == self.name@,
            text::opt_text(copy.cwd) == text::opt_text(self.cwd),
    {
        WorkerInfo { name: copy_text(&self.name), cwd: copy_opt(&self.cwd) }
    }
}

impl Clone for Session {
    fn clone(&self) -> (copy: Self)
        ensures
            copy.name@ == self.name@,
            copy.created_at@ == self.created_at@,
            copy.workers.len() == self.workers.len(),
            forall|i: int|
                0 <= i < copy.workers.len() ==> (#[trigger] copy.workers@[i]).name@
                    == self.workers@[i].name@ && text::opt_text(copy.workers@[i].cwd)
                    == text::opt_text(self.workers@[i].cwd),
    {
        let mut workers: Vec<WorkerInfo> = Vec::new();
        let mut i: usize = 0;
        while i < self.workers.len()
            invariant
                i <= self.workers.len(),
                workers.len() == i,
                forall|k: int|
                    0 <= k < i ==> (#[trigger] workers@[k]).name@ == self.workers@[k].name@
                        && text::opt_text(workers@[k].cwd) == text::opt_text(
                        self.workers@[k].cwd,
                    ),
            decreases self.workers.len() - i,
        {
            workers.push(self.workers[i].clone());
            i = i + 1;
        }
        Session {
            name: copy_text(&self.name),
            workers,
            created_at: copy_text(&self.created_at),
        }
    }
}

/// A moment, and the distance of local time from UTC in seconds.
#[derive(Clone, Copy, PartialEq, Eq, Structural, Debug)]
pub struct Moment {
    pub secs: i64,
    pub nanos: u32,
    pub offset: i32,
}

/// The pattern of names for sessions that were given none.
pub open spec fn name_pattern() -> Seq<char> {
    "session-%Y%m%d-%H%M%S"@
}

/// A moment within the years 1970 to 9999, in a time zone that there can be.
pub open spec fn in_calendar(when: Moment) -> bool {
    &&& 0 <= when.secs <= 253402300799
    &&& when.nanos < 1000000000
    &&& -86400 < when.offset < 86400
}

/// Local time written by a pattern, as `chrono::DateTime::format` gives it; `None` for a moment
/// that is none.
pub uninterp spec fn time_by_pattern(
    secs: i64,
    nanos: u32,
    offset: i32,
    pattern: Seq<char>,
) -> Option<Seq<char>>;

/// Local time in the format of RFC 3339, as `chrono::DateTime::to_rfc3339` gives it; `None` for
/// a moment that is none.
pub uninterp spec fn time_by_rfc3339(secs: i64, nanos: u32, offset: i32) -> Option<Seq<char>>;

/// Calls `chrono::DateTime::format` on the local time of a moment. There is one for every
/// moment of the calendar. What the digits are is left to the name.
#[verifier::external_body]
fn format_time(when: Moment, pattern: &str) -> (r: Option<String>)
    requires
        pattern@ == name_pattern(),
    ensures
        text::opt_text(r) == time_by_pattern(when.secs, when.nanos, when.offset, pattern@),
        in_calendar(when) ==> r is Some,
{
    let zone = chrono::FixedOffset::east_opt(when.offset)?;
    let utc = chrono::DateTime::from_timestamp(when.secs, when.nanos)?;
    Some(utc.with_timezone(&zone).format(pattern).to_string())
}

/// Calls `chrono::DateTime::to_rfc3339` on the local time of a moment. There is one for every
/// moment of the calendar. What the digits are is left to the name.
#[verifier::external_body]
fn rfc3339_time(when: Moment) -> (r: Option<String>)
    ensures
        text::opt_text(r) == time_by_rfc3339(when.secs, when.nanos, when.offset),
        in_calendar(when) ==> r is Some,
{
    let zone = chrono::FixedOffset::east_opt(when.offset)?;
    let utc = chrono::DateTime::from_timestamp(when.secs, when.nanos)?;
    Some(utc.with_timezone(&zone).to_rfc3339())
}

/// The name of a session: what was entered, else the automatic one.
pub open spec fn chosen_name(entry: Seq<char>, automatic: Seq<char>) -> Seq<char> {
    if entry.len() == 0 {
        automatic
    } else {
        entry
    }
}

/// A session with the name that was entered, else the automatic one.
pub fn session_from(
    entry: &str,
    automatic: String,
    created_at: String,
    workers: Vec<WorkerInfo>,
) -> (session: Session)
    ensures
        session.name@ == chosen_name(entry@, automatic@),
        session.created_at@ == created_at@,
        session.workers == workers,
{
    let name = if chars_of(entry).len() == 0 {
        automatic
    } else {
        entry.to_owned()
    };
    Session { name, workers, created_at }
}

/// A session that is saved now; `None` for a moment that is none.
pub fn new_session(entry: &str, when: Moment, workers: Vec<WorkerInfo>) -> (r: Option<Session>)
    ensures
        in_calendar(when) ==> r is Some,
        r is Some <==> time_by_pattern(when.secs, when.nanos, when.offset, name_pattern()) is Some
            && time_by_rfc3339(when.secs, when.nanos, when.offset) is Some,
        r matches Some(session) ==> {
            &&& session.name@ == chosen_name(
                entry@,
                time_by_pattern(when.secs, when.nanos, when.offset, name_pattern()).unwrap(),
            )
            &&& Some(session.created_at@) == time_by_rfc3339(when.secs, when.nanos, when.offset)
            &&& session.workers == workers
        },
{
    match (format_time(when, "session-%Y%m%d-%H%M%S"), rfc3339_time(when)) {
        (Some(automatic), Some(created_at)) => Some(
            session_from(entry, automatic, created_at, workers),
        ),
        _ => None,
    }
}

/// The directory `.cdc` below the home directory, or the current directory where there is none.
pub open spec fn app_dir(home: Option<Seq<char>>) -> Seq<char> {
    paths::joined(
        match home {
            Some(dir) => dir,
            None => "."@,
        },
        ".cdc"@,
    )
}

/// The file of session `name` in a directory.
pub open spec fn session_file(dir: Seq<char>, name: Seq<char>) -> Seq<char> {
    paths::joined(dir, name + ".json"@)
}

fn app_dir_of(home: &Option<String>) -> (dir: String)
    ensures
        dir@ == app_dir(text::opt_text(*home)),
{
    match home {
        Some(dir) => join_path(dir.as_str(), ".cdc"),
        None => join_path(".", ".cdc"),
    }
}

/// Where sessions are saved.
pub fn sessions_dir(home: &Option<String>) -> (dir: String)
    ensures
        dir@ == paths::joined(app_dir(text::opt_text(*home)), "sessions"@),
{
    join_path(app_dir_of(home).as_str(), "sessions")
}

/// Where sessions are put away.
pub fn archives_dir(home: &Option<String>) -> (dir: String)
    ensures
        dir@ == paths::joined(app_dir(text::opt_text(*home)), "archives"@),
{
    join_path(app_dir_of(home).as_str(), "archives")
}

/// The file of a session in a directory.
pub fn session_path(dir: &str, name: &str) -> (path: String)
    ensures
        path@ == session_file(dir@, name@),
{
    let mut file = name.to_owned();
    push_text(&mut file, ".json");
    join_path(dir, file.as_str())
}

/// What an attempt to put away a session does.
pub enum Archive {
    /// Move the file `from` to `to`, in directory `dir`.
    Move { from: String, dir: String, to: String },
    /// There is no such session, in these words.
    Missing(String),
}

/// What putting away session `name` does, where `present` says whether its file is there.
pub fn archive_session(home: &Option<String>, name: &str, present: bool) -> (r: Archive)
    ensures
        match r {
            Archive::Move { from, dir, to } => {
                let app = app_dir(text::opt_text(*home));
                &&& present
                &&& from@ == session_file(paths::joined(app, "sessions"@), name@)
                &&& dir@ == paths::joined(app, "archives"@)
                &&& to@ == session_file(paths::joined(app, "archives"@), name@)
            },
            Archive::Missing(msg) => !present && msg@ == "Session '"@ + name@ + "' not found"@,
        },
{
    if !present {
        let mut msg = "Session '".to_owned();
        push_text(&mut msg, name);
        push_text(&mut msg, "' not found");
        return Archive::Missing(msg);
    }
    let dir = archives_dir(home);
    let from = session_path(sessions_dir(home).as_str(), name);
    let to = session_path(dir.as_str(), name);
    Archive::Move { from, dir, to }
}

/// The file to remove to delete session `name`, where `present` says whether its file is there.
pub fn delete_session(home: &Option<String>, name: &str, present: bool) -> (r: Option<String>)
    ensures
        text::opt_text(r) == if present {
            Some(
                session_file(
                    paths::joined(app_dir(text::opt_text(*home)), "sessions"@),
                    name@,
                ),
            )
        } else {
            None
        },
{
    if present {
        Some(session_path(sessions_dir(home).as_str(), name))
    } else {
        None
    }
}

/// The session whose file has a given name.
pub open spec fn session_of_file(file: Seq<char>) -> Option<Seq<char>> {
    let k = file.len() - 5;
    if text::occurs_at(file, ".json"@, k) {
        Some(file.take(k))
    } else {
        None
    }
}

/// The sessions whose files are among `files`, in their order.
pub open spec fn sessions_among(files: Seq<Seq<char>>) -> Seq<Seq<char>>
    decreases files.len(),
{
    if files.len() == 0 {
        seq![]
    } else {
        let before = sessions_among(files.drop_last());
        match session_of_file(files.last()) {
            Some(name) => before.push(name),
            None => before,
        }
    }
}

/// The names of the saved sessions, in order, from the names of the files in their directory.
pub fn list_sessions(files: &Vec<String>) -> (names: Vec<String>)
    ensures
        text::strings(names@) == paths::sorted_of(sessions_among(text::strings(files@))),
{
    let ghost all = text::strings(files@);
    let suffix = chars_of(".json");
    proof {
        reveal_strlit(".json");
    }
    let mut names: Vec<String> = Vec::new();
    let mut i: usize = 0;
    assert(text::strings(names@) =~= sessions_among(all.take(0)));
    while i < files.len()
        invariant
            i <= files.len(),
            all == text::strings(files@),
            suffix@ == ".json"@,
            suffix.len() == 5,
            text::strings(names@) == sessions_among(all.take(i as int)),
        decreases files.len() - i,
    {
        let ghost before = text::strings(names@);
        let file = chars_of(files[i].as_str());
        assert(all.take(i + 1).drop_last() =~= all.take(i as int));
        assert(all.take(i + 1).last() == file@);
        if file.len() >= 5 && stands_at(&file, &suffix, file.len() - 5) {
            let name = to_text(&slice_of(&file, 0, file.len() - 5));
            let ghost n = name@;
            assert(n =~= file@.take(file@.len() - 5));
            names.push(name);
            assert(text::strings(names@) =~= before.push(n));
        }
        i = i + 1;
    }
    assert(all.take(all.len() as int) =~= all);
    sort_texts(names)
}

/// A session that was saved under a name is listed under that name.
pub proof fn saved_session_is_listed(name: Seq<char>)
    ensures
        session_of_file(name + ".json"@) == Some(name),
{
    reveal_strlit(".json");
    let file = name + ".json"@;
    let k = file.len() - 5;
    assert(file.subrange(k, k + 5) =~= ".json"@);
    assert(file.take(k) =~= name);
}

/// The sessions that are listed are those whose files are there, and nothing else is listed.
pub proof fn sessions_with_files_are_listed(files: Seq<Seq<char>>, name: Seq<char>)
    ensures
        sessions_among(files).contains(name) <==> files.contains(name + ".json"@),
        paths::in_order(paths::sorted_of(sessions_among(files))),
        paths::sorted_of(sessions_among(files)).to_multiset() == sessions_among(
            files,
        ).to_multiset(),
    decreases files.len(),
{
    paths::sorting_orders(sessions_among(files));
    if files.len() > 0 {
        let front = files.drop_last();
        let before = sessions_among(front);
        let all = sessions_among(files);
        let file = name + ".json"@;
        sessions_with_files_are_listed(front, name);
        saved_session_is_listed(name);
        file_is_of_its_session(files.last());
        if before.contains(name) {
            let k = choose|k: int| 0 <= k < before.len() && before[k] == name;
            assert(all[k] == name);
            let j = choose|j: int| 0 <= j < front.len() && front[j] == file;
            assert(files[j] == file);
        }
        if all.contains(name) && !before.contains(name) {
            let k = choose|k: int| 0 <= k < all.len() && all[k] == name;
            if k < before.len() {
                assert(before[k] == name);
            }
            assert(files[files.len() - 1] == file);
        }
        if files.contains(file) {
            let j = choose|j: int| 0 <= j < files.len() && files[j] == file;
            if j < front.len() {
                assert(front[j] == file);
            } else {
                assert(all[before.len() as int] == name);
            }
        }
    }
}

proof fn file_is_of_its_session(file: Seq<char>)
    ensures
        session_of_file(file) matches Some(name) ==> file == name + ".json"@,
{
    reveal_strlit(".json");
    let k = file.len() - 5;
    if text::occurs_at(file, ".json"@, k) {
        assert(file =~= file.take(k) + file.subrange(k, k + 5));
    }
}

/// The files of sessions are below the home directory, or below the current one where there is
/// none, each in the directory for sessions or for those put away, with its name.
pub proof fn session_files_have_their_places(home: Seq<char>, name: Seq<char>)
    requires
        home.len() > 0,
        home.last() != '/',
        name.len() > 0,
        name[0] != '/',
    ensures
        session_file(paths::joined(app_dir(Some(home)), "sessions"@), name) == home
            + "/.cdc/sessions/"@ + name + ".json"@,
        session_file(paths::joined(app_dir(Some(home)), "archives"@), name) == home
            + "/.cdc/archives/"@ + name + ".json"@,
        app_dir(None) == "./.cdc"@,
{
    reveal_strlit("/.cdc/sessions/");
    reveal_strlit("/.cdc/archives/");
    reveal_strlit(".cdc");
    reveal_strlit("sessions");
    reveal_strlit("archives");
    reveal_strlit("./.cdc");
    reveal_strlit(".");
    let app = app_dir(Some(home));
    assert(app =~= home + seq!['/'] + ".cdc"@);
    assert(app.last() == 'c');
    let s = paths::joined(app, "sessions"@);
    let a = paths::joined(app, "archives"@);
    assert(s =~= app + seq!['/'] + "sessions"@);
    assert(a =~= app + seq!['/'] + "archives"@);
    assert(s.last() == 's');
    assert(a.last() == 's');
    assert((name + ".json"@)[0] == name[0]);
    assert(session_file(s, name) =~= home + "/.cdc/sessions/"@ + name + ".json"@);
    assert(session_file(a, name) =~= home + "/.cdc/archives/"@ + name + ".json"@);
    assert(app_dir(None) =~= "./.cdc"@);
}

/// A session has the name that was entered for it, and the automatic one where none was.
pub proof fn sessions_have_their_names(entry: Seq<char>, automatic: Seq<char>)
    ensures
        entry.len() > 0 ==> chosen_name(entry, automatic) == entry,
        entry.len() == 0 ==> chosen_name(entry, automatic) == automatic,
        name_pattern() == "session-%Y%m%d-%H%M%S"@,
{
}

} // verus!
