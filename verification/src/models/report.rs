//! What a report is asked for and what it answers.
//!
//! Instants are milliseconds since the Unix epoch, UTC; durations are
//! milliseconds; a calendar day is its number of days since the epoch.

use vstd::prelude::*;
use crate::text::opt_text;

verus! {

/// The range and filters of a report. An absent bound falls back to the last
/// seven days up to now.
#[derive(Debug, Clone)]
pub struct ReportRequest {
    pub from: Option<i64>,
    pub to: Option<i64>,
    pub project: Option<String>,
    pub language: Option<String>,
}

/// The mathematical content of a [`ReportRequest`].
pub struct ReportRequestView {
    pub from: Option<i64>,
    pub to: Option<i64>,
    pub project: Option<Seq<char>>,
    pub language: Option<Seq<char>>,
}

impl View for ReportRequest {
    type V = ReportRequestView;

    open spec fn view(&self) -> ReportRequestView {
        ReportRequestView {
            from: self.from,
            to: self.to,
            project: opt_text(self.project),
            language: opt_text(self.language),
        }
    }
}

/// Time spent on one project or language, with its share of the summary.
///
/// `percent_millis` is the share in thousandths of a percent. The shares of
/// a summary with time add up to 100 000: each is rounded down, and the
/// first entry takes what the rounding leaves over.
#[derive(Debug, Clone)]
pub struct CategorySummary {
    pub name: String,
    pub total_millis: u64,
    pub percent_millis: u32,
}

/// The mathematical content of a [`CategorySummary`].
pub struct CategorySummaryView {
    pub name: Seq<char>,
    pub total_millis: u64,
    pub percent_millis: u32,
}

impl View for CategorySummary {
    type V = CategorySummaryView;

    open spec fn view(&self) -> CategorySummaryView {
        CategorySummaryView {
            name: self.name@,
            total_millis: self.total_millis,
            percent_millis: self.percent_millis,
        }
    }
}

/// The contents of a list of entries.
pub open spec fn entry_views(entries: Seq<CategorySummary>) -> Seq<CategorySummaryView> {
    Seq::new(entries.len(), |k: int| entries[k]@)
}

/// Time spent on one calendar day.
#[derive(Debug, Clone, Copy, PartialEq, Eq, Structural)]
pub struct DaySummary {
    pub date: i64,
    pub total_millis: u64,
}

/// A maximal run of events without an idle gap.
#[derive(Debug, Clone)]
pub struct Session {
    pub start: i64,
    pub end: i64,
    pub duration_millis: u64,
    pub project: Option<String>,
    pub event_count: u64,
}

/// The mathematical content of a [`Session`].
pub struct SessionView {
    pub start: i64,
    pub end: i64,
    pub duration_millis: u64,
    pub project: Option<Seq<char>>,
    pub event_count: u64,
}

impl View for Session {
    type V = SessionView;

    open spec fn view(&self) -> SessionView {
        SessionView {
            start: self.start,
            end: self.end,
            duration_millis: self.duration_millis,
            project: opt_text(self.project),
            event_count: self.event_count,
        }
    }
}

/// The contents of a list of sessions.
pub open spec fn session_views(list: Seq<Session>) -> Seq<SessionView> {
    Seq::new(list.len(), |k: int| list[k]@)
}

/// Activity within one hour of the day (0 to 23).
#[derive(Debug, Clone, Copy, PartialEq, Eq, Structural)]
pub struct HourlyActivity {
    pub hour: u8,
    pub total_millis: u64,
    pub event_count: u64,
}

/// The full answer to a summary report.
#[derive(Debug, Clone)]
pub struct Summary {
    pub total_millis: u64,
    pub from: i64,
    pub to: i64,
    pub projects: Vec<CategorySummary>,
    pub languages: Vec<CategorySummary>,
    pub days: Vec<DaySummary>,
}

/// The mathematical content of a [`Summary`].
pub struct SummaryView {
    pub total_millis: u64,
    pub from: i64,
    pub to: i64,
    pub projects: Seq<CategorySummaryView>,
    pub languages: Seq<CategorySummaryView>,
    pub days: Seq<DaySummary>,
}

impl View for Summary {
    type V = SummaryView;

    open spec fn view(&self) -> SummaryView {
        SummaryView {
            total_millis: self.total_millis,
            from: self.from,
            to: self.to,
            projects: entry_views(self.projects@),
            languages: entry_views(self.languages@),
            days: self.days@,
        }
    }
}

} // verus!
