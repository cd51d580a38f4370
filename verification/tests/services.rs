use timeforged::api::{
    error_response, health, status, BatchEventRequest, CreateApiKeyRequest, CreateEventRequest,
};
use timeforged::commands::report::{parse_range, range_label, resolve_range, Range};
use timeforged::config::{
    config_dir, default_debounce_secs, default_window_poll_secs, dirs_or_default, sqlite_file,
    AppConfig, CliConfig, Environment, WatchedRegistry, WatcherConfig,
};
use timeforged::error::AppError;
use timeforged::json::{text_member, text_member_of};
use timeforged::models::event::{ActivityType, EventType};
use timeforged::models::user::User;
use timeforged::numbers::{parse_unsigned, to_decimal, to_hex, to_hex_digits};
use timeforged::service::event_service::{
    batch_response, event_response, infer_project_from_path, normalize_language,
    normalize_project, prepare_batch, prepare_event, validate_event,
};
use timeforged::service::user_service::{
    api_key_of, auth_plan, authenticated, deletion_outcome, generate_api_key, hash_api_key,
    issue_api_key, needs_admin, AuthPlan,
};
use timeforged::service::watch_service::{do_unwatch, do_watch, list};
use timeforged::watcher::WatcherCommand;

fn request(entity: &str) -> CreateEventRequest {
    CreateEventRequest {
        timestamp: 1_000,
        event_type: EventType::File,
        entity: String::from(entity),
        project: None,
        language: None,
        branch: None,
        activity: None,
        machine: None,
        metadata: None,
    }
}

#[test]
fn event_types_round_trip_through_their_labels() {
    for t in [EventType::File, EventType::Terminal, EventType::Browser, EventType::Meeting, EventType::Custom] {
        assert_eq!(EventType::from_str_lossy(t.as_str()), t);
    }
    assert_eq!(EventType::File.as_str(), "file");
    assert_eq!(EventType::Meeting.as_str(), "meeting");
    assert_eq!(EventType::from_str_lossy("nonsense"), EventType::Custom);
    assert_eq!(EventType::from_str_lossy("File"), EventType::Custom);
    assert_eq!(EventType::from_str_lossy(""), EventType::Custom);
}

#[test]
fn activity_types_round_trip_through_their_labels() {
    for a in [
        ActivityType::Coding,
        ActivityType::Browsing,
        ActivityType::Debugging,
        ActivityType::Building,
        ActivityType::Communicating,
        ActivityType::Designing,
        ActivityType::Other,
    ] {
        assert_eq!(ActivityType::from_str_lossy(a.as_str()), a);
    }
    assert_eq!(ActivityType::Communicating.as_str(), "communicating");
    assert_eq!(ActivityType::from_str_lossy("sleeping"), ActivityType::Other);
}

#[test]
fn an_event_needs_an_entity_of_bounded_length() {
    assert!(validate_event(&request("/proj/a.rs")).is_ok());
    assert!(validate_event(&request(&"a".repeat(1024))).is_ok());
    match validate_event(&request("")) {
        Err(AppError::Validation(m)) => assert_eq!(m, "entity cannot be empty"),
        _ => panic!("an empty entity is refused"),
    }
    match validate_event(&request(&"a".repeat(1025))) {
        Err(AppError::Validation(m)) => assert_eq!(m, "entity too long"),
        _ => panic!("a long entity is refused"),
    }
    match validate_event(&request(&"é".repeat(513))) {
        Err(AppError::Validation(m)) => assert_eq!(m, "entity too long"),
        _ => panic!("length counts bytes"),
    }
    assert!(validate_event(&request(&"é".repeat(512))).is_ok());
}

#[test]
fn the_project_is_guessed_from_the_directories_above_the_file() {
    let guess = |p: &str| infer_project_from_path(p);
    assert_eq!(guess("/home/alice/projects/tf/src/lib.rs"), Some(String::from("tf")));
    assert_eq!(guess("/home/alice/proj/src/main.rs"), Some(String::from("alice")));
    assert_eq!(guess("/srv/data/app/file.rs"), Some(String::from("srv")));
    assert_eq!(guess("/x/y.rs"), Some(String::from("x")));
    assert_eq!(guess("a/b.rs"), Some(String::from("a")));
    assert_eq!(guess("code/tool/tests/t.rs"), Some(String::from("tool")));
    assert_eq!(guess("main.rs"), None);
    assert_eq!(guess("/main.rs"), None);
    assert_eq!(guess("src/main.rs"), None);
    assert_eq!(guess("/a/../b/c.rs"), None);
    assert_eq!(guess(""), None);
}

#[test]
fn a_request_is_filled_in_from_its_entity() {
    let mut req = request("/home/alice/projects/tf/src/lib.rs");
    assert_eq!(normalize_project(&req), Some(String::from("tf")));
    assert_eq!(normalize_language(&req), Some(String::from("Rust")));
    req.project = Some(String::new());
    req.language = Some(String::new());
    assert_eq!(normalize_project(&req), Some(String::from("tf")));
    assert_eq!(normalize_language(&req), Some(String::from("Rust")));
    req.project = Some(String::from("given"));
    req.language = Some(String::from("Klingon"));
    req.branch = Some(String::from("main"));
    req.metadata = Some(String::from("{\"k\":1}"));
    assert_eq!(normalize_project(&req), Some(String::from("given")));
    assert_eq!(normalize_language(&req), Some(String::from("Klingon")));
    let event = prepare_event(5, &req).unwrap();
    assert_eq!(event.id, None);
    assert_eq!(event.user_id, 5);
    assert_eq!(event.timestamp, 1_000);
    assert_eq!(event.entity, "/home/alice/projects/tf/src/lib.rs");
    assert_eq!(event.project, Some(String::from("given")));
    assert_eq!(event.language, Some(String::from("Klingon")));
    assert_eq!(event.branch, Some(String::from("main")));
    assert_eq!(event.metadata, Some(String::from("{\"k\":1}")));
    assert_eq!(event.created_at, None);
    let response = event_response(17, event);
    assert_eq!(response.id, 17);
    assert_eq!(response.timestamp, 1_000);
    assert_eq!(response.entity, "/home/alice/projects/tf/src/lib.rs");
    assert!(prepare_event(5, &request("")).is_err());
}

#[test]
fn a_batch_is_bounded_and_judged_request_by_request() {
    let batch = BatchEventRequest { events: vec![request("/a/b.rs"), request(""), request("/a/c.py")] };
    let prepared = prepare_batch(3, &batch).unwrap();
    assert_eq!(prepared.events.len(), 2);
    assert_eq!(prepared.rejected, 1);
    assert_eq!(prepared.events[0].entity, "/a/b.rs");
    assert_eq!(prepared.events[1].entity, "/a/c.py");
    assert_eq!(prepared.events[1].language, Some(String::from("Python")));
    let full = BatchEventRequest { events: (0..100).map(|_| request("/a/b.rs")).collect() };
    assert_eq!(prepare_batch(3, &full).unwrap().events.len(), 100);
    let over = BatchEventRequest { events: (0..101).map(|_| request("/a/b.rs")).collect() };
    match prepare_batch(3, &over) {
        Err(AppError::BadRequest(m)) => assert_eq!(m, "batch size exceeds 100"),
        _ => panic!("a batch of 101 is refused"),
    }
    let tally = batch_response(5, 2, 1);
    assert_eq!(tally.accepted, 5);
    assert_eq!(tally.rejected, 3);
}

#[test]
fn keys_are_hashed_with_sha256_in_hex() {
    assert_eq!(
        hash_api_key("abc"),
        "ba7816bf8f01cfea414140de5dae2223b00361a396177a9cb410ff61f20015ad"
    );
    assert_eq!(
        hash_api_key(""),
        "e3b0c44298fc1c149afbf4c8996fb92427ae41e4649b934ca495991b7852b855"
    );
    assert_ne!(hash_api_key("tf_a"), hash_api_key("tf_b"));
}

#[test]
fn keys_are_made_of_a_prefix_and_32_hex_digits() {
    assert_eq!(api_key_of(0), format!("tf_{}", "0".repeat(32)));
    assert_eq!(
        api_key_of(0xa1a2a3a4b1b2c1c2d1d2d3d4d5d6d7d8),
        "tf_a1a2a3a4b1b2c1c2d1d2d3d4d5d6d7d8"
    );
    assert_eq!(api_key_of(u128::MAX), format!("tf_{}", "f".repeat(32)));
    let id = uuid::Uuid::parse_str("a1a2a3a4-b1b2-c1c2-d1d2-d3d4d5d6d7d8").unwrap();
    assert_eq!(api_key_of(id.as_u128()), format!("tf_{}", id.to_string().replace("-", "")));
    let key = generate_api_key();
    assert_eq!(key.len(), 35);
    assert!(key.starts_with("tf_"));
    assert!(key[3..].chars().all(|c| c.is_ascii_hexdigit() && !c.is_ascii_uppercase()));
    assert_ne!(generate_api_key(), key);
}

#[test]
fn a_key_is_issued_only_with_a_label() {
    match issue_api_key(&CreateApiKeyRequest { label: String::new() }) {
        Err(AppError::Validation(m)) => assert_eq!(m, "label cannot be empty"),
        _ => panic!("a key needs a label"),
    }
    let issued = issue_api_key(&CreateApiKeyRequest { label: String::from("laptop") }).unwrap();
    assert!(issued.key.starts_with("tf_"));
    assert_eq!(issued.key_hash, hash_api_key(&issued.key));
}

#[test]
fn requests_are_authenticated_by_key_or_from_this_machine() {
    match auth_plan(Some("tf_x"), false) {
        AuthPlan::ByKeyHash(h) => assert_eq!(h, hash_api_key("tf_x")),
        _ => panic!("a key is looked up by its hash"),
    }
    assert!(matches!(auth_plan(Some("tf_x"), true), AuthPlan::ByKeyHash(_)));
    assert!(matches!(auth_plan(None, true), AuthPlan::FirstUser));
    assert!(matches!(auth_plan(None, false), AuthPlan::Refuse));
    let user = User { id: 1, username: String::from("admin"), display_name: None, created_at: 0 };
    assert_eq!(authenticated(Some(user)).unwrap().username, "admin");
    assert!(matches!(authenticated(None), Err(AppError::Unauthorized)));
    assert!(deletion_outcome(true).is_ok());
    match deletion_outcome(false) {
        Err(AppError::NotFound(m)) => assert_eq!(m, "api key not found"),
        _ => panic!("nothing deleted is an error"),
    }
    assert!(needs_admin(0));
    assert!(!needs_admin(1));
}

#[test]
fn errors_have_a_message_a_status_and_a_detail() {
    let cases = vec![
        (AppError::NotFound(String::from("x")), "not found: x", 404, "x"),
        (AppError::Unauthorized, "unauthorized", 401, "unauthorized"),
        (AppError::BadRequest(String::from("x")), "bad request: x", 400, "x"),
        (AppError::Validation(String::from("x")), "validation error: x", 400, "x"),
        (AppError::Database(String::from("x")), "database error: x", 500, "x"),
        (AppError::Internal(String::from("x")), "internal error: x", 500, "x"),
    ];
    for (e, message, code, detail) in cases {
        assert_eq!(e.message(), message);
        assert_eq!(e.status_code(), code);
        assert_eq!(e.detail(), detail);
        let (status, body) = error_response(&e);
        assert_eq!(status, code);
        assert_eq!(body.error, detail);
    }
    assert_eq!(health("1.2.3").status, "ok");
    assert_eq!(health("1.2.3").version, "1.2.3");
    let s = status("1.2.3", Some(4), None);
    assert_eq!(s.user_count, 4);
    assert_eq!(s.event_count, 0);
}

#[test]
fn numbers_are_written_and_read() {
    assert_eq!(to_decimal(0), "0");
    assert_eq!(to_decimal(6175), "6175");
    assert_eq!(to_decimal(u64::MAX), "18446744073709551615");
    assert_eq!(to_hex(&vec![0x00, 0x0f, 0xa0, 0xff]), "000fa0ff");
    assert_eq!(to_hex_digits(0xbeef, 8), "0000beef");
    assert_eq!(to_hex_digits(0xbeef, 2), "ef");
    assert_eq!(parse_unsigned("6175", 65_535), Some(6175));
    assert_eq!(parse_unsigned("+80", 65_535), Some(80));
    assert_eq!(parse_unsigned("0080", 65_535), Some(80));
    assert_eq!(parse_unsigned("65535", 65_535), Some(65_535));
    assert_eq!(parse_unsigned("65536", 65_535), None);
    assert_eq!(parse_unsigned("18446744073709551615", u64::MAX), Some(u64::MAX));
    assert_eq!(parse_unsigned("18446744073709551616", u64::MAX), None);
    assert_eq!(parse_unsigned("99999999999999999999999", u64::MAX), None);
    assert_eq!(parse_unsigned("", 10), None);
    assert_eq!(parse_unsigned("+", 10), None);
    assert_eq!(parse_unsigned("-1", 10), None);
    assert_eq!(parse_unsigned("1 ", 10), None);
    assert_eq!(parse_unsigned("1a", 10), None);
    assert_eq!(parse_unsigned("++1", 10), None);
    for text in ["6175", "+80", "0080", "65535", "65536", "", "+", "-1", "1a", "٣"] {
        assert_eq!(parse_unsigned(text, 65_535), text.parse::<u16>().ok().map(u64::from));
    }
}

#[test]
fn the_daemon_is_configured_from_the_environment() {
    let empty = Environment {
        host: None,
        port: None,
        database_url: None,
        idle_timeout: None,
        log_level: None,
        home: None,
    };
    let config = AppConfig::from_environment(&empty);
    assert_eq!(config.host, "127.0.0.1");
    assert_eq!(config.port, 6175);
    assert_eq!(config.database_url, "sqlite:/tmp/timeforged/timeforged.db?mode=rwc");
    assert_eq!(config.idle_timeout, 300);
    assert_eq!(config.log_level, "info");
    assert_eq!(config.bind_addr(), "127.0.0.1:6175");
    let set = Environment {
        host: Some(String::from("0.0.0.0")),
        port: Some(String::from("80")),
        database_url: None,
        idle_timeout: Some(String::from("soon")),
        log_level: Some(String::from("debug")),
        home: Some(String::from("/home/u")),
    };
    let config = AppConfig::from_environment(&set);
    assert_eq!(config.bind_addr(), "0.0.0.0:80");
    assert_eq!(config.database_url, "sqlite:/home/u/.local/share/timeforged/timeforged.db?mode=rwc");
    assert_eq!(config.idle_timeout, 300);
    assert_eq!(config.log_level, "debug");
    let wrong = Environment { port: Some(String::from("70000")), ..set };
    assert_eq!(AppConfig::from_environment(&wrong).port, 6175);
    assert_eq!(dirs_or_default(Some("/home/u")), "/home/u/.local/share/timeforged");
    assert_eq!(dirs_or_default(None), "/tmp/timeforged");
    assert_eq!(config_dir(Some("/home/u")), "/home/u/.config/timeforged");
    assert_eq!(config_dir(None), "/tmp/.config/timeforged");
    assert_eq!(sqlite_file("sqlite:/a/b/x.db?mode=rwc"), Some(String::from("/a/b/x.db")));
    assert_eq!(sqlite_file("sqlite:x.db"), Some(String::from("x.db")));
    assert_eq!(sqlite_file("sqlite:"), Some(String::new()));
    assert_eq!(sqlite_file("postgres://x"), None);
}

#[test]
fn the_watcher_and_the_command_line_have_defaults() {
    assert_eq!(default_debounce_secs(), 30);
    assert_eq!(default_window_poll_secs(), 15);
    let w = WatcherConfig::default();
    assert_eq!(w.debounce_secs, 30);
    assert_eq!(w.window_poll_secs, 15);
    assert!(!w.enable_window_tracker);
    assert!(w.ignore_patterns.is_empty());
    let cli = CliConfig::from_environment(None, None);
    assert_eq!(cli.server_url, "http://127.0.0.1:6175");
    assert_eq!(cli.api_key, None);
    assert_eq!(cli.endpoint("/health"), "http://127.0.0.1:6175/health");
    let cli = CliConfig::from_environment(Some(String::from("http://h:1//")), Some(String::from("k")));
    assert_eq!(cli.endpoint("/api/v1/status"), "http://h:1/api/v1/status");
    assert_eq!(cli.api_key, Some(String::from("k")));
}

#[test]
fn the_registry_holds_every_directory_once() {
    let mut r = WatchedRegistry::new();
    assert!(r.add_at(String::from("/a"), 1));
    assert!(r.add_at(String::from("/b"), 2));
    assert!(!r.add_at(String::from("/a"), 3));
    assert!(r.add(String::from("/c")));
    assert!(!r.add(String::from("/c")));
    assert_eq!(r.list().len(), 3);
    assert_eq!(r.list()[0].path, "/a");
    assert_eq!(r.list()[0].added_at, 1);
    assert!(r.list()[2].added_at > 0);
    assert!(r.contains("/b"));
    assert!(r.remove("/b"));
    assert!(!r.remove("/b"));
    assert!(!r.contains("/b"));
    assert_eq!(r.list().len(), 2);
    assert_eq!(r.list()[1].path, "/c");
}

#[test]
fn watching_and_unwatching_answer_the_caller_and_command_the_watcher() {
    let mut r = WatchedRegistry::new();
    let first = do_watch(&mut r, "/proj", 10);
    assert_eq!(first.response.message, "now watching /proj");
    assert!(matches!(first.command, Some(WatcherCommand::Watch(ref p)) if p == "/proj"));
    let again = do_watch(&mut r, "/proj", 20);
    assert_eq!(again.response.message, "already watching /proj");
    assert!(again.command.is_none());
    let listed = list(&r);
    assert_eq!(listed.dirs.len(), 1);
    assert_eq!(listed.dirs[0].path, "/proj");
    assert_eq!(listed.dirs[0].added_at, 10);
    match do_unwatch(&mut r, "/other") {
        Err(AppError::NotFound(m)) => assert_eq!(m, "/other is not being watched"),
        _ => panic!("what is not watched cannot be unwatched"),
    }
    let done = do_unwatch(&mut r, "/proj").unwrap();
    assert_eq!(done.response.message, "stopped watching /proj");
    assert!(matches!(done.command, WatcherCommand::Unwatch(ref p) if p == "/proj"));
    assert_eq!(r.list().len(), 0);
}

#[test]
fn report_ranges_have_names_bounds_and_headings() {
    assert!(matches!(parse_range("today"), Some(Range::Today)));
    assert!(matches!(parse_range("yesterday"), Some(Range::Yesterday)));
    assert!(matches!(parse_range("week"), Some(Range::Week)));
    assert!(matches!(parse_range("month"), Some(Range::Month)));
    assert!(parse_range("year").is_none());
    let day: i64 = 86_400_000;
    let now: i64 = 20_000 * day + 12_345_678;
    assert_eq!(resolve_range(&Range::Today, now), Some((20_000 * day, 20_000 * day + 86_399_000)));
    assert_eq!(
        resolve_range(&Range::Yesterday, now),
        Some((19_999 * day, 19_999 * day + 86_399_000))
    );
    assert_eq!(resolve_range(&Range::Week, now), Some((now - 7 * day, now)));
    assert_eq!(resolve_range(&Range::Month, now), Some((now - 30 * day, now)));
    assert_eq!(resolve_range(&Range::Week, i64::MIN), None);
    let custom = Range::Custom { from: String::from("a"), to: String::from("b") };
    assert_eq!(resolve_range(&custom, now), None);
    assert_eq!(range_label(&Range::Today), "Today");
    assert_eq!(range_label(&Range::Yesterday), "Yesterday");
    assert_eq!(range_label(&Range::Week), "Last 7 days");
    assert_eq!(range_label(&Range::Month), "Last 30 days");
    assert_eq!(range_label(&custom), "Custom range");
}

#[test]
fn a_json_document_lists_its_text_members() {
    let report = "{\"title\":\"a.rs - NVIM\",\"pid\":7,\"class\":\"kitty\",\"tags\":[\"title\"]}";
    assert_eq!(text_member(report, "title"), Some(String::from("a.rs - NVIM")));
    assert_eq!(text_member(report, "class"), Some(String::from("kitty")));
    assert_eq!(text_member(report, "pid"), None);
    assert_eq!(text_member(report, "tags"), None);
    assert_eq!(text_member(report, "absent"), None);
    assert_eq!(text_member("\"title\"", "title"), None);
    assert_eq!(text_member("{\"title\":", "title"), None);
    assert_eq!(text_member("{\"title\":\"x\",\"title\":\"y\"}", "title"), Some(String::from("y")));
    let parsed: Option<serde_json::Value> = serde_json::from_str(report).ok();
    assert_eq!(text_member_of(&parsed, "title"), Some(String::from("a.rs - NVIM")));
    assert_eq!(text_member_of(&parsed, "pid"), None);
    assert_eq!(text_member_of(&None, "title"), None);
    let list: Option<serde_json::Value> = serde_json::from_str("[1, 2]").ok();
    assert_eq!(text_member_of(&list, "title"), None);
}
