use timeforged::models::event::{ActivityType, EventType};
use timeforged::watcher::branch_cache::{branch_of_output, GitBranchCache};
use timeforged::watcher::debounce::Debouncer;
use timeforged::watcher::file_watcher::{
    enrich, enrich_window, hostname, process_change, process_change_at, resolve_project_name,
    to_event,
};
use timeforged::watcher::window_tracker::{extract_file_path, title_from_json, title_from_line};
use timeforged::watcher::{apply_command, is_activity, ChangeKind, WatcherCommand};

const SECOND: u128 = 1_000_000_000;

#[test]
fn debounce_suppresses_within_the_window_and_passes_after_it() {
    let mut d = Debouncer::new(30);
    assert!(d.should_emit_at("/proj/a.rs", 100 * SECOND));
    assert!(!d.should_emit_at("/proj/a.rs", 100 * SECOND));
    assert!(!d.should_emit_at("/proj/a.rs", 130 * SECOND - 1));
    assert!(d.should_emit_at("/proj/a.rs", 130 * SECOND));
    assert!(!d.should_emit_at("/proj/a.rs", 159 * SECOND));
    assert!(d.should_emit_at("/proj/a.rs", 160 * SECOND));
}

#[test]
fn debounce_counts_from_the_last_notification_that_passed() {
    let mut d = Debouncer::new(30);
    assert!(d.should_emit_at("p", 0));
    assert!(!d.should_emit_at("p", 20 * SECOND));
    assert!(d.should_emit_at("p", 35 * SECOND));
}

#[test]
fn a_whole_window_after_any_call_the_next_one_passes() {
    let mut d = Debouncer::new(30);
    assert!(d.should_emit_at("p", 0));
    assert!(!d.should_emit_at("p", 29 * SECOND));
    assert!(d.should_emit_at("p", 59 * SECOND));
    assert!(!d.should_emit_at("p", 60 * SECOND));
    assert!(d.should_emit_at("p", 90 * SECOND));
}

#[test]
fn the_clock_of_the_debouncer_does_not_run_backwards() {
    let mut d = Debouncer::new(30);
    assert!(d.should_emit_at("p", 100 * SECOND));
    assert!(d.should_emit_at("q", 50 * SECOND));
    assert!(!d.should_emit_at("q", 120 * SECOND));
    assert!(d.should_emit_at("q", 130 * SECOND));
    assert!(!d.should_emit_at("q", 0));
    assert!(d.should_emit_at("p", 0));
    d.cleanup_at(0);
    assert_eq!(d.len(), 2);
    d.cleanup_at(400 * SECOND);
    assert_eq!(d.len(), 0);
    assert!(d.should_emit_at("p", 0));
    assert!(!d.should_emit_at("p", 429 * SECOND));
}

#[test]
fn debounce_is_per_path() {
    let mut d = Debouncer::new(30);
    assert!(d.should_emit_at("/proj/a.rs", 5));
    assert!(d.should_emit_at("/proj/b.rs", 5));
    assert!(!d.should_emit_at("/proj/a.rs", 6));
    assert_eq!(d.len(), 2);
}

#[test]
fn a_window_of_zero_lets_everything_through() {
    let mut d = Debouncer::new(0);
    assert!(d.should_emit_at("p", 7));
    assert!(d.should_emit_at("p", 7));
    assert!(d.should_emit_at("p", 3));
}

#[test]
fn cleanup_drops_entries_older_than_three_windows() {
    let mut d = Debouncer::new(30);
    assert!(d.should_emit_at("old", 0));
    assert!(d.should_emit_at("edge", 10 * SECOND));
    assert!(d.should_emit_at("new", 50 * SECOND));
    d.cleanup_at(100 * SECOND);
    assert_eq!(d.len(), 2);
    assert!(d.should_emit_at("old", 100 * SECOND));
    assert_eq!(d.len(), 3);
    assert!(!d.should_emit_at("old", 129 * SECOND));
    let mut d = Debouncer::new(30);
    assert!(d.should_emit_at("edge", 10 * SECOND));
    d.cleanup_at(100 * SECOND + 1);
    assert_eq!(d.len(), 0);
}

#[test]
fn the_debouncer_reads_its_own_clock() {
    let mut d = Debouncer::new(3600);
    assert!(d.should_emit("/proj/a.rs"));
    assert!(!d.should_emit("/proj/a.rs"));
    assert!(d.should_emit("/proj/b.rs"));
    d.cleanup();
    assert_eq!(d.len(), 2);
    let mut quick = Debouncer::new(0);
    assert!(quick.should_emit("x"));
    assert!(quick.should_emit("x"));
}

#[test]
fn the_branch_cache_answers_until_an_entry_expires() {
    let mut c = GitBranchCache::new();
    assert_eq!(c.lookup_at("/proj/app", 0), None);
    c.store_at("/proj/app", Some(String::from("main")), 10 * SECOND);
    assert_eq!(c.lookup_at("/proj/app", 10 * SECOND), Some(Some(String::from("main"))));
    assert_eq!(c.lookup_at("/proj/app", 70 * SECOND - 1), Some(Some(String::from("main"))));
    assert_eq!(c.lookup_at("/proj/app", 70 * SECOND), None);
    assert_eq!(c.lookup_at("/proj/other", 20 * SECOND), None);
    c.store_at("/proj/app", Some(String::from("dev")), 80 * SECOND);
    assert_eq!(c.lookup_at("/proj/app", 81 * SECOND), Some(Some(String::from("dev"))));
}

#[test]
fn a_failed_lookup_is_remembered_too() {
    let mut c = GitBranchCache::new();
    c.store_at("/proj/plain", None, 5 * SECOND);
    assert_eq!(c.lookup_at("/proj/plain", 30 * SECOND), Some(None));
    assert_eq!(c.lookup_at("/proj/plain", 65 * SECOND), None);
    c.store("/proj/now", Some(String::from("main")));
    assert_eq!(c.lookup("/proj/now"), Some(Some(String::from("main"))));
    assert_eq!(c.lookup("/proj/never"), None);
}

#[test]
fn git_output_gives_the_branch() {
    assert_eq!(branch_of_output(true, "main\n"), Some(String::from("main")));
    assert_eq!(branch_of_output(true, "  feature/x \n"), Some(String::from("feature/x")));
    assert_eq!(branch_of_output(false, "main\n"), None);
}

#[test]
fn the_project_is_the_first_directory_below_the_root() {
    assert_eq!(resolve_project_name("/proj", "/proj/app/a.py"), Some(String::from("app")));
    assert_eq!(resolve_project_name("/proj", "/proj/a.py"), Some(String::from("a.py")));
    assert_eq!(resolve_project_name("/proj", "/proj/.hidden/a.py"), None);
    assert_eq!(resolve_project_name("/proj", "/proj/../a.py"), None);
    assert_eq!(resolve_project_name("/proj", "/other/app/a.py"), None);
    assert_eq!(resolve_project_name("/proj", "/proj"), None);
}

#[test]
fn a_change_under_no_registered_root_is_dropped() {
    let mut roots = vec![String::from("/proj"), String::from("/work")];
    let found = enrich(&roots, "/work/site/index.html");
    assert!(found.is_some());
    assert_eq!(found.unwrap().project, "site");
    apply_command(&mut roots, &WatcherCommand::Unwatch(String::from("/work")));
    assert_eq!(roots, vec![String::from("/proj")]);
    assert!(enrich(&roots, "/work/site/index.html").is_none());
    assert!(enrich(&Vec::new(), "/work/site/index.html").is_none());
}

#[test]
fn the_first_root_that_gives_a_project_wins() {
    let roots = vec![String::from("/a"), String::from("/a/.b")];
    let found = enrich(&roots, "/a/.b/c/x.rs").unwrap();
    assert_eq!(found.project, "c");
    assert_eq!(found.project_dir, "/a/.b/c");
    assert_eq!(found.language, Some(String::from("Rust")));
    assert_eq!(found.entity, "/a/.b/c/x.rs");
    assert!(enrich_window(&roots, "/a/.b/c/x.rs").is_none());
    let found = enrich_window(&roots, "/a/app/x.rs").unwrap();
    assert_eq!(found.project, "app");
    assert!(enrich_window(&roots, "/z/app/x.rs").is_none());
}

#[test]
fn end_to_end_from_notifications_to_events() {
    let roots = vec![String::from("/proj")];
    let extra: Vec<String> = Vec::new();
    let mut d = Debouncer::new(30);
    let first = process_change_at(&mut d, &roots, &extra, "/proj/app/a.py", 0);
    let second = process_change_at(&mut d, &roots, &extra, "/proj/app/a.py", 5 * SECOND);
    let third = process_change_at(&mut d, &roots, &extra, "/proj/app/a.py", 50 * SECOND);
    assert!(second.is_none());
    for found in [first, third] {
        let change = found.unwrap();
        assert_eq!(change.project, "app");
        assert_eq!(change.language, Some(String::from("Python")));
        assert_eq!(change.project_dir, "/proj/app");
        let event = to_event(change, 9, 1234, Some(String::from("main")), None);
        assert_eq!(event.id, None);
        assert_eq!(event.user_id, 9);
        assert_eq!(event.timestamp, 1234);
        assert_eq!(event.event_type, EventType::File);
        assert_eq!(event.entity, "/proj/app/a.py");
        assert_eq!(event.project, Some(String::from("app")));
        assert_eq!(event.language, Some(String::from("Python")));
        assert_eq!(event.branch, Some(String::from("main")));
        assert_eq!(event.activity, Some(ActivityType::Coding));
        assert_eq!(event.machine, None);
        assert_eq!(event.metadata, None);
    }
}

#[test]
fn ignored_paths_leave_the_debouncer_alone() {
    let roots = vec![String::from("/proj")];
    let extra = vec![String::from("vendor")];
    let mut d = Debouncer::new(30);
    assert!(process_change_at(&mut d, &roots, &extra, "/proj/app/.git/index", 0).is_none());
    assert!(process_change_at(&mut d, &roots, &extra, "/proj/app/vendor/a.rs", 0).is_none());
    assert_eq!(d.len(), 0);
    assert!(process_change_at(&mut d, &roots, &extra, "/elsewhere/app/a.rs", 0).is_none());
    assert_eq!(d.len(), 1);
    assert!(process_change(&mut d, &roots, &extra, "/proj/app/b.rs").is_some());
    assert!(process_change(&mut d, &roots, &extra, "/proj/app/b.rs").is_none());
}

#[test]
fn commands_change_the_watched_roots() {
    let mut roots: Vec<String> = Vec::new();
    apply_command(&mut roots, &WatcherCommand::Watch(String::from("/a")));
    apply_command(&mut roots, &WatcherCommand::Watch(String::from("/b")));
    apply_command(&mut roots, &WatcherCommand::Watch(String::from("/a")));
    assert_eq!(roots, vec![String::from("/a"), String::from("/b")]);
    apply_command(&mut roots, &WatcherCommand::Unwatch(String::from("/c")));
    assert_eq!(roots, vec![String::from("/a"), String::from("/b")]);
    apply_command(&mut roots, &WatcherCommand::Unwatch(String::from("/a")));
    assert_eq!(roots, vec![String::from("/b")]);
}

#[test]
fn only_creation_and_modification_count_as_activity() {
    assert!(is_activity(ChangeKind::Create));
    assert!(is_activity(ChangeKind::Modify));
    assert!(!is_activity(ChangeKind::Access));
    assert!(!is_activity(ChangeKind::Remove));
    assert!(!is_activity(ChangeKind::Other));
}

#[test]
fn window_titles_show_absolute_paths() {
    assert_eq!(
        extract_file_path("/home/u/p/file.rs - Editor", None),
        Some(String::from("/home/u/p/file.rs"))
    );
    assert_eq!(
        extract_file_path("Editor \u{2014}/home/u/p/file.rs\u{2013}x", None),
        Some(String::from("/home/u/p/file.rs"))
    );
    assert_eq!(extract_file_path("file.rs - ProjectName - VSCode", None), None);
    assert_eq!(extract_file_path("/home/u/p/noext - Editor", None), None);
    assert_eq!(extract_file_path("/ - Editor", None), None);
    assert_eq!(extract_file_path("", None), None);
    assert_eq!(
        extract_file_path("a /x/one.rs /y/two.py", Some("/home/u")),
        Some(String::from("/x/one.rs"))
    );
}

#[test]
fn window_titles_show_paths_under_the_home_directory() {
    assert_eq!(
        extract_file_path("file.rs (~/projects/foo/file.rs) - NVIM", Some("/home/u")),
        Some(String::from("/home/u/projects/foo/file.rs"))
    );
    assert_eq!(extract_file_path("file.rs (~/projects/foo/file.rs) - NVIM", None), None);
    assert_eq!(extract_file_path("~/projects/foo/Makefile", Some("/home/u")), None);
    assert_eq!(extract_file_path("~projects/file.rs", Some("/home/u")), None);
}

#[test]
fn window_titles_come_from_json_or_from_a_line() {
    assert_eq!(
        title_from_json("{\"class\":\"kitty\",\"title\":\"file.rs - NVIM\"}"),
        Some(String::from("file.rs - NVIM"))
    );
    assert_eq!(title_from_json("{\"title\":42}"), None);
    assert_eq!(title_from_json("{\"name\":\"x\"}"), None);
    assert_eq!(title_from_json("[\"title\"]"), None);
    assert_eq!(title_from_json("not json"), None);
    assert_eq!(title_from_line("file.rs - NVIM\n"), "file.rs - NVIM");
}

#[test]
fn the_machine_is_named_by_the_environment_or_by_the_file() {
    let s = |t: &str| Some(String::from(t));
    assert_eq!(hostname(s("a"), s("b"), s("c\n")), s("a"));
    assert_eq!(hostname(None, s("b"), s("c\n")), s("b"));
    assert_eq!(hostname(None, None, s("c\n")), s("c"));
    assert_eq!(hostname(None, None, None), None);
}
