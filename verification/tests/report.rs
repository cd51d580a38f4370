use timeforged::models::event::{Event, EventType};
use timeforged::models::report::ReportRequest;
use timeforged::report::selection::{calendar_day, hour_of_day, Query};
use timeforged::report::timeline::{active_millis, sort_times, split_runs};
use timeforged::report::{
    get_hourly_activity, get_hourly_activity_at, get_sessions, get_sessions_at, get_summary,
    get_summary_at, resolve_query, total_active_millis,
};

fn event_at(seconds: i64, project: Option<&str>, language: Option<&str>) -> Event {
    Event {
        id: None,
        user_id: 7,
        timestamp: seconds * 1000,
        event_type: EventType::File,
        entity: String::from("/proj/app/a.py"),
        project: project.map(String::from),
        language: language.map(String::from),
        branch: None,
        activity: None,
        machine: None,
        metadata: None,
        created_at: None,
    }
}

fn whole_range() -> ReportRequest {
    ReportRequest { from: Some(0), to: Some(1_000_000_000), project: None, language: None }
}

fn query(from: i64, to: i64, project: Option<&str>) -> Query {
    Query { user_id: 7, from, to, project: project.map(String::from) }
}

#[test]
fn session_boundary_splits_at_the_idle_gap() {
    let events = vec![
        event_at(0, Some("app"), None),
        event_at(10, Some("app"), None),
        event_at(400, Some("app"), None),
    ];
    let sessions = get_sessions_at(&events, 7, &whole_range(), 300, 0);
    assert_eq!(sessions.len(), 2);
    assert_eq!(sessions[0].start, 0);
    assert_eq!(sessions[0].end, 10_000);
    assert_eq!(sessions[0].duration_millis, 10_000);
    assert_eq!(sessions[0].event_count, 2);
    assert_eq!(sessions[0].project, Some(String::from("app")));
    assert_eq!(sessions[1].start, 400_000);
    assert_eq!(sessions[1].end, 400_000);
    assert_eq!(sessions[1].duration_millis, 0);
    assert_eq!(sessions[1].event_count, 1);
}

#[test]
fn a_gap_equal_to_the_timeout_opens_a_session_and_earns_nothing() {
    let events = vec![event_at(0, None, None), event_at(300, None, None)];
    let sessions = get_sessions_at(&events, 7, &whole_range(), 300, 0);
    assert_eq!(sessions.len(), 2);
    let q = query(0, 1_000_000_000, None);
    assert_eq!(total_active_millis(&events, &q, 300), 0);
    assert_eq!(total_active_millis(&events, &q, 301), 300_000);
}

#[test]
fn no_events_no_sessions() {
    let events: Vec<Event> = Vec::new();
    assert_eq!(get_sessions_at(&events, 7, &whole_range(), 300, 0).len(), 0);
    let summary = get_summary_at(&events, 7, &whole_range(), 300, 0);
    assert_eq!(summary.total_millis, 0);
    assert_eq!(summary.projects.len(), 0);
    assert_eq!(summary.languages.len(), 0);
    assert_eq!(summary.days.len(), 0);
    assert_eq!(get_hourly_activity_at(&events, 7, &whole_range(), 300, 0).len(), 0);
}

#[test]
fn summary_credits_only_gaps_below_the_idle_timeout() {
    let events = vec![
        event_at(400, Some("app"), Some("Python")),
        event_at(0, Some("app"), Some("Python")),
        event_at(10, Some("web"), Some("Rust")),
        event_at(30, Some("web"), Some("Rust")),
    ];
    let summary = get_summary_at(&events, 7, &whole_range(), 300, 0);
    assert_eq!(summary.total_millis, 30_000);
    assert_eq!(summary.from, 0);
    assert_eq!(summary.to, 1_000_000_000);
    assert_eq!(summary.projects.len(), 2);
    assert_eq!(summary.projects[0].name, "web");
    assert_eq!(summary.projects[0].total_millis, 20_000);
    assert_eq!(summary.projects[0].percent_millis, 100_000);
    assert_eq!(summary.projects[1].name, "app");
    assert_eq!(summary.projects[1].total_millis, 0);
    assert_eq!(summary.projects[1].percent_millis, 0);
    assert_eq!(summary.languages.len(), 2);
    assert_eq!(summary.languages[0].name, "Rust");
    assert_eq!(summary.days.len(), 1);
    assert_eq!(summary.days[0].date, 0);
    assert_eq!(summary.days[0].total_millis, 30_000);
}

#[test]
fn a_longer_idle_timeout_never_lowers_the_total() {
    let events = vec![
        event_at(0, None, None),
        event_at(10, None, None),
        event_at(400, None, None),
        event_at(4000, None, None),
    ];
    let q = query(0, 1_000_000_000, None);
    let timeouts: Vec<u64> = vec![0, 5, 10, 11, 300, 390, 391, 3600, 3601, 100_000];
    let mut last: u64 = 0;
    for t in timeouts {
        let total = total_active_millis(&events, &q, t);
        assert!(total >= last);
        last = total;
    }
    assert_eq!(total_active_millis(&events, &q, 5), 0);
    assert_eq!(total_active_millis(&events, &q, 11), 10_000);
    assert_eq!(total_active_millis(&events, &q, 391), 400_000);
    assert_eq!(total_active_millis(&events, &q, 3601), 4_000_000);
}

#[test]
fn shares_add_up_to_the_whole() {
    let events = vec![
        event_at(0, Some("a"), None),
        event_at(10, Some("a"), None),
        event_at(100, Some("b"), None),
        event_at(120, Some("b"), None),
        event_at(200, Some("c"), None),
    ];
    let summary = get_summary_at(&events, 7, &whole_range(), 300, 0);
    assert_eq!(summary.projects.len(), 3);
    assert_eq!(summary.projects[0].name, "b");
    assert_eq!(summary.projects[0].total_millis, 20_000);
    assert_eq!(summary.projects[0].percent_millis, 66_667);
    assert_eq!(summary.projects[1].name, "a");
    assert_eq!(summary.projects[1].percent_millis, 33_333);
    assert_eq!(summary.projects[2].name, "c");
    assert_eq!(summary.projects[2].percent_millis, 0);
    let sum: u32 = summary.projects.iter().map(|p| p.percent_millis).sum();
    assert_eq!(sum, 100_000);
}

#[test]
fn the_largest_category_takes_what_the_rounding_leaves_over() {
    let mut events = Vec::new();
    for (k, name) in ["a", "b", "c", "d", "e", "f", "g"].iter().enumerate() {
        let start = (k as i64) * 1000;
        events.push(event_at(start, Some(name), None));
        events.push(event_at(start + 1, Some(name), None));
    }
    let summary = get_summary_at(&events, 7, &whole_range(), 300, 0);
    assert_eq!(summary.projects.len(), 7);
    assert_eq!(summary.projects[0].name, "a");
    assert_eq!(summary.projects[0].percent_millis, 14_285 + 5);
    for p in &summary.projects[1..] {
        assert_eq!(p.total_millis, 1_000);
        assert_eq!(p.percent_millis, 14_285);
    }
    let sum: u32 = summary.projects.iter().map(|p| p.percent_millis).sum();
    assert_eq!(sum, 100_000);
}

#[test]
fn shares_are_zero_where_no_category_has_time() {
    let events = vec![event_at(0, Some("a"), None), event_at(1000, Some("b"), None)];
    let summary = get_summary_at(&events, 7, &whole_range(), 300, 0);
    assert_eq!(summary.projects.len(), 2);
    assert_eq!(summary.projects[0].name, "a");
    assert_eq!(summary.projects[0].percent_millis, 0);
    assert_eq!(summary.projects[1].percent_millis, 0);
}

#[test]
fn the_range_is_half_open_and_the_user_is_selected() {
    let mut other = event_at(5, None, None);
    other.user_id = 8;
    let events = vec![event_at(0, None, None), other, event_at(10, None, None), event_at(20, None, None)];
    let q = query(0, 20_000, None);
    assert_eq!(total_active_millis(&events, &q, 300), 10_000);
    let q = query(0, 20_001, None);
    assert_eq!(total_active_millis(&events, &q, 300), 20_000);
    let q = query(1, 20_001, None);
    assert_eq!(total_active_millis(&events, &q, 300), 10_000);
}

#[test]
fn the_project_filter_applies_to_every_part_of_the_summary() {
    let events = vec![
        event_at(0, Some("a"), Some("Rust")),
        event_at(10, Some("b"), Some("Go")),
        event_at(20, Some("a"), Some("Rust")),
    ];
    let req = ReportRequest {
        from: Some(0),
        to: Some(1_000_000),
        project: Some(String::from("a")),
        language: None,
    };
    let summary = get_summary_at(&events, 7, &req, 300, 0);
    assert_eq!(summary.total_millis, 20_000);
    assert_eq!(summary.projects.len(), 1);
    assert_eq!(summary.projects[0].name, "a");
    assert_eq!(summary.languages.len(), 1);
    assert_eq!(summary.languages[0].name, "Rust");
    let sessions = get_sessions_at(&events, 7, &req, 300, 0);
    assert_eq!(sessions.len(), 1);
    assert_eq!(sessions[0].event_count, 2);
}

#[test]
fn open_bounds_fall_back_to_the_last_seven_days() {
    let req = ReportRequest { from: None, to: None, project: None, language: None };
    let q = resolve_query(7, &req, 1_000_000_000);
    assert_eq!(q.from, 1_000_000_000 - 604_800_000);
    assert_eq!(q.to, 1_000_000_000);
    let q = resolve_query(7, &req, i64::MIN + 5);
    assert_eq!(q.from, i64::MIN);
    let events = vec![event_at(0, None, None), event_at(10, None, None)];
    let summary = get_summary_at(&events, 7, &req, 300, 500_000);
    assert_eq!(summary.total_millis, 10_000);
    let summary = get_summary_at(&events, 7, &req, 300, 700_000_000);
    assert_eq!(summary.total_millis, 0);
}

#[test]
fn reports_with_given_bounds_do_not_depend_on_the_clock() {
    let events = vec![
        event_at(0, Some("app"), None),
        event_at(10, Some("app"), None),
        event_at(400, Some("app"), None),
    ];
    let summary = get_summary(&events, 7, &whole_range(), 300);
    assert_eq!(summary.total_millis, 10_000);
    assert_eq!(get_sessions(&events, 7, &whole_range(), 300).len(), 2);
    assert_eq!(get_hourly_activity(&events, 7, &whole_range(), 300).len(), 1);
}

#[test]
fn days_and_hours_are_partitions_of_their_own() {
    let day: i64 = 86_400;
    let events = vec![
        event_at(day - 10, None, None),
        event_at(day + 10, None, None),
        event_at(day + 3600, None, None),
        event_at(day + 3700, None, None),
    ];
    let req = ReportRequest { from: Some(0), to: Some(1_000_000_000), project: None, language: None };
    let summary = get_summary_at(&events, 7, &req, 300, 0);
    assert_eq!(summary.total_millis, 120_000);
    assert_eq!(summary.days.len(), 2);
    assert_eq!(summary.days[0].date, 0);
    assert_eq!(summary.days[0].total_millis, 0);
    assert_eq!(summary.days[1].date, 1);
    assert_eq!(summary.days[1].total_millis, 100_000);
    let hours = get_hourly_activity_at(&events, 7, &req, 300, 0);
    assert_eq!(hours.len(), 3);
    assert_eq!(hours[0].hour, 0);
    assert_eq!(hours[0].event_count, 1);
    assert_eq!(hours[0].total_millis, 0);
    assert_eq!(hours[1].hour, 1);
    assert_eq!(hours[1].event_count, 2);
    assert_eq!(hours[1].total_millis, 100_000);
    assert_eq!(hours[2].hour, 23);
    assert_eq!(hours[2].event_count, 1);
}

#[test]
fn calendar_arithmetic_rounds_down_before_the_epoch() {
    assert_eq!(calendar_day(0), 0);
    assert_eq!(calendar_day(86_399_999), 0);
    assert_eq!(calendar_day(86_400_000), 1);
    assert_eq!(calendar_day(-1), -1);
    assert_eq!(calendar_day(-86_400_000), -1);
    assert_eq!(calendar_day(-86_400_001), -2);
    assert_eq!(hour_of_day(0), 0);
    assert_eq!(hour_of_day(3_599_999), 0);
    assert_eq!(hour_of_day(3_600_000), 1);
    assert_eq!(hour_of_day(-1), 23);
    assert_eq!(hour_of_day(86_400_000 + 13 * 3_600_000 + 5), 13);
    assert_eq!(calendar_day(i64::MIN), -106_751_991_168);
    assert_eq!(calendar_day(i64::MAX), 106_751_991_167);
}

#[test]
fn instants_are_sorted_and_split() {
    let sorted = sort_times(&vec![5, 1, 3, 1, -2, 9]);
    assert_eq!(sorted, vec![-2, 1, 1, 3, 5, 9]);
    assert_eq!(active_millis(&sorted, 3), 4);
    assert_eq!(active_millis(&sorted, 5), 11);
    let runs = split_runs(&sorted, 3);
    assert_eq!(runs.len(), 3);
    assert_eq!(runs[0].start, -2);
    assert_eq!(runs[0].end, -2);
    assert_eq!(runs[1].start, 1);
    assert_eq!(runs[1].end, 5);
    assert_eq!(runs[1].events, 4);
    assert_eq!(runs[2].events, 1);
    let wide = sort_times(&vec![i64::MAX, i64::MIN]);
    assert_eq!(active_millis(&wide, u128::MAX), u64::MAX);
}

#[test]
fn a_session_takes_the_project_of_its_first_event() {
    let events = vec![
        event_at(10, Some("late"), None),
        event_at(0, Some("first"), None),
        event_at(0, Some("second"), None),
        event_at(1000, None, None),
    ];
    let sessions = get_sessions_at(&events, 7, &whole_range(), 300, 0);
    assert_eq!(sessions.len(), 2);
    assert_eq!(sessions[0].project, Some(String::from("first")));
    assert_eq!(sessions[0].event_count, 3);
    assert_eq!(sessions[1].project, None);
}
