use cdc::complete::completer::{Ask, Completer};
use cdc::complete::search::DirSearch;
use cdc::complete::{complete_path, offer, path_query, path_query_of, pieces_of};
use cdc::paths::{abbreviate_home, expand_home, join_path, resolve_cwd, sort_texts};
use cdc::pty::{read_event, PtyEvent};
use cdc::session::{
    archive_session, archives_dir, delete_session, list_sessions, new_session, session_from,
    session_path, sessions_dir, Archive, Moment, WorkerInfo,
};

fn strings(items: &[&str]) -> Vec<String> {
    items.iter().map(|s| s.to_string()).collect()
}

fn some(s: &str) -> Option<String> {
    Some(s.to_string())
}

#[test]
fn home_is_expanded_and_abbreviated() {
    assert_eq!(expand_home("~/x", "/home/u"), "/home/u/x");
    assert_eq!(expand_home("~", "/home/u"), "/home/u");
    assert_eq!(expand_home("a~", "/home/u"), "a~");
    assert_eq!(abbreviate_home("/home/u/x", "/home/u"), "~/x");
    assert_eq!(abbreviate_home("/srv/x", "/home/u"), "/srv/x");
    assert_eq!(abbreviate_home("/srv/x", ""), "/srv/x");
    assert_eq!(expand_home(&abbreviate_home("/home/u/y", "/home/u"), "/home/u"), "/home/u/y");
}

#[test]
fn paths_are_joined() {
    assert_eq!(join_path("/a", "b"), "/a/b");
    assert_eq!(join_path("/a/", "b"), "/a/b");
    assert_eq!(join_path("/a", "/b"), "/b");
    assert_eq!(join_path("", "b"), "b");
}

#[test]
fn an_entered_directory_is_resolved() {
    let home = some("/home/u");
    let here = some("/work");
    assert_eq!(resolve_cwd("", &home, &here), None);
    assert_eq!(resolve_cwd("~/p", &home, &here), some("/home/u/p"));
    assert_eq!(resolve_cwd("sub/dir", &home, &here), some("/work/sub/dir"));
    assert_eq!(resolve_cwd("/abs", &home, &here), some("/abs"));
    assert_eq!(resolve_cwd("~/p", &None, &here), some("/work/~/p"));
    assert_eq!(resolve_cwd("rel", &None, &None), some("rel"));
}

#[test]
fn texts_are_sorted_by_their_characters() {
    assert_eq!(
        sort_texts(strings(&["b", "a", "ab", "", "가", "B", "a"])),
        strings(&["", "B", "a", "a", "ab", "b", "가"])
    );
}

#[test]
fn a_path_is_completed_in_its_directory() {
    let home = "/home/u";
    let names = strings(&["src", "scripts", "target", ".git", "docs"]);
    let q = path_query("~/proj/s", home, false);
    assert_eq!(q.dir, "/home/u/proj");
    assert_eq!(q.prefix, "s");
    assert_eq!(q.base, "/home/u/proj/");
    assert_eq!(
        complete_path(&q, home, &names),
        strings(&["~/proj/scripts/", "~/proj/src/"])
    );
    let q = path_query("~/proj/", home, true);
    assert_eq!(
        complete_path(&q, home, &names),
        strings(&["~/proj/docs/", "~/proj/scripts/", "~/proj/src/", "~/proj/target/"])
    );
    let q = path_query("~/proj/.", home, false);
    assert_eq!((q.dir.as_str(), q.prefix.as_str()), ("/home/u", "proj"));
    let q = path_query("~/proj/.g", home, false);
    assert_eq!(complete_path(&q, home, &names), strings(&["~/proj/.git/"]));
    let q = path_query("sr", home, false);
    assert_eq!((q.dir.as_str(), q.prefix.as_str(), q.base.as_str()), ("", "sr", "/"));
    let q = path_query_of("./s", "./s", false, some("."), some("s"));
    assert_eq!(q.base, "");
    assert_eq!(complete_path(&q, home, &names), strings(&["scripts/", "src/"]));
    let q = path_query_of("", ".", true, some(""), None);
    assert_eq!((q.dir.as_str(), q.prefix.as_str(), q.base.as_str()), (".", "", "."));
}

#[test]
fn inputs_are_cut_into_pieces() {
    assert_eq!(pieces_of("/a//b/"), strings(&["a", "b"]));
    assert_eq!(pieces_of("//"), Vec::<String>::new());
}

#[test]
fn results_are_offered_in_order_and_once() {
    assert_eq!(offer(strings(&["b", "a", "b", "c", "a"])), strings(&["a", "b", "c"]));
    let many: Vec<String> = (0..20).rev().map(|i| format!("{:02}", i)).collect();
    assert_eq!(offer(many).len(), 8);
}

/// Directories of a small file system.
fn names_in(dir: &str) -> Vec<String> {
    match dir {
        "/home/u" => strings(&["projects", ".hidden", "Music", "hi"]),
        "/home/u/projects" => strings(&["hihangul", "other"]),
        "/home/u/projects/other" => strings(&["history", "deep"]),
        "/home/u/projects/other/deep" => strings(&["hidden_by_depth"]),
        "/srv" => strings(&["himalaya"]),
        _ => Vec::new(),
    }
}

fn complete(input: &str, home: &str, current: Option<&str>) -> Vec<String> {
    let (mut completer, mut ask) = Completer::begin(
        input.to_string(),
        home.to_string(),
        current.map(|s| s.to_string()),
    );
    loop {
        ask = match ask {
            Ask::Done(found) => return found,
            Ask::IsDir(path) => completer.told_dir(path == "/home/u/projects/"),
            Ask::List(dir) => {
                let dir = dir.trim_end_matches('/').to_string();
                completer.told_names(&names_in(&dir))
            }
        };
    }
}

#[test]
fn a_spelled_out_path_is_completed_first() {
    assert_eq!(complete("~/pro", "/home/u", None), strings(&["~/projects/"]));
    assert_eq!(
        complete("~/projects/", "/home/u", None),
        strings(&["~/projects/hihangul/", "~/projects/other/"])
    );
    assert_eq!(complete("", "/home/u", None), Vec::<String>::new());
}

#[test]
fn segments_are_searched_in_order() {
    assert_eq!(complete("projects/hi", "/home/u", None), strings(&[
        "~/projects/hihangul/",
        "~/projects/other/history/",
    ]));
    assert_eq!(
        complete("HI", "/home/u", Some("/srv")),
        strings(&["/srv/himalaya/", "~/hi/", "~/projects/hihangul/", "~/projects/other/history/"])
    );
    // The current directory below home is not searched again.
    assert_eq!(
        complete("music", "/home/u", Some("/home/u/projects")),
        strings(&["~/Music/"])
    );
    assert_eq!(complete("nothing", "/home/u", None), Vec::<String>::new());
    assert_eq!(complete("x", "", None), Vec::<String>::new());
    assert_eq!(complete("//", "/home/u", None), Vec::<String>::new());
}

#[test]
fn a_path_without_completions_is_searched_for() {
    assert_eq!(complete("/hihan", "/home/u", None), strings(&["~/projects/hihangul/"]));
}

#[test]
fn a_search_ends_with_eight_results() {
    let mut search = DirSearch::new(strings(&["d"]), "/h".to_string());
    search.search_below("/h".to_string(), 2);
    let names: Vec<String> = (0..20).map(|i| format!("d{}", i)).collect();
    let mut asked = 0;
    while let Some(_dir) = search.advance() {
        asked += 1;
        search.supply(&names, &names);
    }
    assert_eq!(search.results.len(), 8);
    assert_eq!(search.results[0], "~/d0/");
    assert_eq!(search.results[1], "~/d0/d0/");
    assert_eq!(asked, 2);
}

fn when() -> Moment {
    // 2024-02-29 12:34:56 UTC, in a zone nine hours ahead.
    Moment { secs: 1_709_210_096, nanos: 0, offset: 9 * 3600 }
}

#[test]
fn a_session_is_named_by_its_time() {
    let s = new_session("", when(), Vec::new()).unwrap();
    assert_eq!(s.name, "session-20240229-213456");
    assert_eq!(s.created_at, "2024-02-29T21:34:56+09:00");
    let infos = vec![WorkerInfo { name: "worker-1".to_string(), cwd: some("/x") }];
    let s = new_session("mine", when(), infos).unwrap();
    assert_eq!(s.name, "mine");
    assert_eq!(s.workers.len(), 1);
    assert_eq!(s.workers[0].cwd, some("/x"));
    let wrong = Moment { secs: 0, nanos: 0, offset: 86400 };
    assert!(new_session("", wrong, Vec::new()).is_none());
    let wrong = Moment { secs: i64::MAX, nanos: 0, offset: 0 };
    assert!(new_session("", wrong, Vec::new()).is_none());
    let s = session_from("", "auto".to_string(), "now".to_string(), Vec::new());
    assert_eq!((s.name.as_str(), s.created_at.as_str()), ("auto", "now"));
}

#[test]
fn session_files_have_their_places() {
    let home = some("/home/u");
    assert_eq!(sessions_dir(&home), "/home/u/.cdc/sessions");
    assert_eq!(archives_dir(&home), "/home/u/.cdc/archives");
    assert_eq!(sessions_dir(&None), "./.cdc/sessions");
    assert_eq!(session_path("/d", "mine"), "/d/mine.json");
    match archive_session(&home, "s", true) {
        Archive::Move { from, dir, to } => {
            assert_eq!(from, "/home/u/.cdc/sessions/s.json");
            assert_eq!(dir, "/home/u/.cdc/archives");
            assert_eq!(to, "/home/u/.cdc/archives/s.json");
        }
        Archive::Missing(_) => panic!("the file is there"),
    }
    match archive_session(&home, "s", false) {
        Archive::Missing(msg) => assert_eq!(msg, "Session 's' not found"),
        Archive::Move { .. } => panic!("there is no file"),
    }
    assert_eq!(delete_session(&home, "s", true), some("/home/u/.cdc/sessions/s.json"));
    assert_eq!(delete_session(&home, "s", false), None);
}

#[test]
fn sessions_are_listed_by_name() {
    assert_eq!(
        list_sessions(&strings(&["b.json", "a.json", "x.txt", ".json", "json", "c.json.bak"])),
        strings(&["", "a", "b"])
    );
}

#[test]
fn reads_become_events() {
    let buf = [1u8, 2, 3, 4];
    assert!(matches!(read_event(Some(2), &buf), PtyEvent::Output(data) if data == vec![1, 2]));
    assert!(matches!(read_event(Some(0), &buf), PtyEvent::Exited));
    assert!(matches!(read_event(None, &buf), PtyEvent::Exited));
}

#[test]
fn a_saved_session_is_listed() {
    let path = session_path(&sessions_dir(&None), "kept");
    let file = path.rsplit('/').next().unwrap().to_string();
    assert_eq!(list_sessions(&vec![file]), strings(&["kept"]));
}

#[test]
fn a_session_clones() {
    let infos = vec![WorkerInfo { name: "w".to_string(), cwd: None }];
    let s = session_from("n", String::new(), "t".to_string(), infos).clone();
    assert_eq!((s.name.as_str(), s.created_at.as_str()), ("n", "t"));
    assert_eq!(s.workers[0].name, "w");
    assert_eq!(s.workers[0].cwd, None);
}

/// How many questions are answered until the completions of an input are there.
fn questions(input: &str, home: &str, current: Option<&str>) -> usize {
    let (mut completer, mut ask) = Completer::begin(
        input.to_string(),
        home.to_string(),
        current.map(|s| s.to_string()),
    );
    let mut answered = 0;
    loop {
        ask = match ask {
            Ask::Done(_) => return answered,
            Ask::IsDir(path) => completer.told_dir(path == "/home/u/projects/"),
            Ask::List(dir) => completer.told_names(&names_in(dir.trim_end_matches('/'))),
        };
        answered += 1;
    }
}

#[test]
fn a_completion_ends_after_its_listings() {
    assert_eq!(questions("", "/home/u", None), 0);
    assert_eq!(questions("hi", "", None), 0);
    // Whether the path is a directory, and its directory.
    assert_eq!(questions("~/pro", "/home/u", None), 2);
    // Home, the three directories below it, and two below one of these.
    assert_eq!(questions("hi", "/home/u", None), 6);
    // The current directory and the one in it besides.
    assert_eq!(questions("hi", "/home/u", Some("/srv")), 8);
    // A path without completions is searched for.
    assert_eq!(questions("/hihan", "/home/u", None), 8);
}
