//! The time range of a report.

use vstd::prelude::*;
use crate::report::selection::{calendar_day, day_of};
use crate::text::same_text;

verus! {

/// The range that a report covers.
#[derive(Debug, Clone)]
pub enum Range {
    Today,
    Yesterday,
    Week,
    Month,
    Custom { from: String, to: String },
}

/// The first instant of the calendar day `day`, in milliseconds.
pub open spec fn day_start(day: int) -> int {
    day * 86_400_000
}

/// The last full second of the calendar day `day`, in milliseconds.
pub open spec fn day_end(day: int) -> int {
    day * 86_400_000 + 86_399_000
}

/// The bounds of a named range at the instant `now`: today and yesterday
/// from midnight to the last second of the day, the week and the month from
/// seven and thirty days ago until now. A custom range has the bounds that
/// were given with it.
pub open spec fn bounds(range: Range, now: i64) -> Option<(int, int)> {
    match range {
        Range::Today => Some((day_start(day_of(now)), day_end(day_of(now)))),
        Range::Yesterday => Some((day_start(day_of(now) - 1), day_end(day_of(now) - 1))),
        Range::Week => Some((now - 7 * 86_400_000, now as int)),
        Range::Month => Some((now - 30 * 86_400_000, now as int)),
        Range::Custom { .. } => None,
    }
}

/// The bounds of a named range at the instant `now`, where they are
/// instants that there are.
pub fn resolve_range(range: &Range, now: i64) -> (found: Option<(i64, i64)>)
    ensures
        match bounds(*range, now) {
            Some((from, to)) => if i64::MIN <= from && to <= i64::MAX {
                found == Some((from as i64, to as i64))
            } else {
                found is None
            },
            None => found is None,
        },
{
    let day: i64 = calendar_day(now);
    assert(-106_751_991_168 <= day <= 106_751_991_167);
    match range {
        Range::Today => {
            let from: i128 = (day as i128) * 86_400_000;
            narrow(from, from + 86_399_000)
        },
        Range::Yesterday => {
            let from: i128 = (day as i128 - 1) * 86_400_000;
            narrow(from, from + 86_399_000)
        },
        Range::Week => narrow(now as i128 - 7 * 86_400_000, now as i128),
        Range::Month => narrow(now as i128 - 30 * 86_400_000, now as i128),
        Range::Custom { .. } => None,
    }
}

fn narrow(from: i128, to: i128) -> (found: Option<(i64, i64)>)
    requires
        from <= to,
    ensures
        i64::MIN <= from && to <= i64::MAX ==> found == Some((from as i64, to as i64)),
        !(i64::MIN <= from && to <= i64::MAX) ==> found is None,
{
    if from < i64::MIN as i128 || to > i64::MAX as i128 {
        None
    } else {
        Some((from as i64, to as i64))
    }
}

/// The range that a name on the command line stands for.
pub open spec fn named(name: Seq<char>) -> Option<Range> {
    if name == "today"@ {
        Some(Range::Today)
    } else if name == "yesterday"@ {
        Some(Range::Yesterday)
    } else if name == "week"@ {
        Some(Range::Week)
    } else if name == "month"@ {
        Some(Range::Month)
    } else {
        None
    }
}

pub fn parse_range(name: &str) -> (range: Option<Range>)
    ensures
        range == named(name@),
{
    if same_text(name, "today") {
        Some(Range::Today)
    } else if same_text(name, "yesterday") {
        Some(Range::Yesterday)
    } else if same_text(name, "week") {
        Some(Range::Week)
    } else if same_text(name, "month") {
        Some(Range::Month)
    } else {
        None
    }
}

/// The heading under which a range is reported.
pub open spec fn heading(range: Range) -> Seq<char> {
    match range {
        Range::Today => "Today"@,
        Range::Yesterday => "Yesterday"@,
        Range::Week => "Last 7 days"@,
        Range::Month => "Last 30 days"@,
        Range::Custom { .. } => "Custom range"@,
    }
}

pub fn range_label(range: &Range) -> (label: &'static str)
    ensures
        label@ == heading(*range),
{
    match range {
        Range::Today => "Today",
        Range::Yesterday => "Yesterday",
        Range::Week => "Last 7 days",
        Range::Month => "Last 30 days",
        Range::Custom { .. } => "Custom range",
    }
}

} // verus!
