//! Time per project and per language, with each category's share.

use vstd::prelude::*;
use crate::models::event::{Event, EventView};
use crate::models::report::{entry_views, CategorySummary, CategorySummaryView};
use crate::report::selection::{
    event_in_scope, idle_millis, in_scope, partition_millis, partition_time, Facet, FacetView,
    Query, QueryView,
};
use crate::report::timeline::{ascending, lemma_active_time_bounds, lemma_ascending};
use crate::text::texts;

verus! {

/// The event attribute that a category summary groups by.
#[derive(Debug, Clone, Copy, PartialEq, Eq, Structural)]
pub enum Field {
    Project,
    Language,
}

/// One whole, in thousandths of a percent.
pub const FULL_SHARE: u32 = 100_000;

/// The value of the grouping attribute on an event.
pub open spec fn field_of(e: EventView, field: Field) -> Option<Seq<char>> {
    match field {
        Field::Project => e.project,
        Field::Language => e.language,
    }
}

/// The partition of the events whose grouping attribute is `name`.
pub open spec fn facet_of(field: Field, name: Seq<char>) -> FacetView {
    match field {
        Field::Project => FacetView::Project(name),
        Field::Language => FacetView::Language(name),
    }
}

/// The categories that occur among the events the query looks at: each value
/// of the grouping attribute once, in the order of first appearance in the
/// log. Events without the attribute belong to no category.
pub open spec fn category_names(events: Seq<Event>, q: QueryView, field: Field) -> Seq<Seq<char>>
    decreases events.len(),
{
    if events.len() == 0 {
        Seq::empty()
    } else {
        let before = category_names(events.drop_last(), q, field);
        let e = events.last()@;
        match field_of(e, field) {
            Some(name) => if in_scope(e, q) && !before.contains(name) {
                before.push(name)
            } else {
                before
            },
            None => before,
        }
    }
}

fn has_name(names: &Vec<String>, name: &String) -> (yes: bool)
    ensures
        yes == texts(names@).contains(name@),
{
    let mut i: usize = 0;
    while i < names.len()
        invariant
            i <= names.len(),
            forall|k: int| 0 <= k < i ==> texts(names@)[k] != name@,
        decreases names.len() - i,
    {
        if names[i] == *name {
            assert(texts(names@)[i as int] == name@);
            return true;
        }
        i = i + 1;
    }
    false
}

fn field_value(e: &Event, field: Field) -> (value: &Option<String>)
    ensures
        crate::text::opt_text(*value) == field_of(e@, field),
{
    match field {
        Field::Project => &e.project,
        Field::Language => &e.language,
    }
}

/// The names of the categories that a summary has an entry for.
pub fn collect_names(events: &Vec<Event>, q: &Query, field: Field) -> (names: Vec<String>)
    ensures
        texts(names@) == category_names(events@, q@, field),
{
    let mut names: Vec<String> = Vec::new();
    let mut i: usize = 0;
    while i < events.len()
        invariant
            i <= events.len(),
            texts(names@) =~= category_names(events@.take(i as int), q@, field),
        decreases events.len() - i,
    {
        assert(events@.take(i + 1).drop_last() =~= events@.take(i as int));
        let e = &events[i];
        match field_value(e, field) {
            Some(name) => {
                if event_in_scope(e, q) && !has_name(&names, name) {
                    names.push(name.clone());
                }
            },
            None => {},
        }
        i = i + 1;
    }
    assert(events@.take(events.len() as int) =~= events@);
    names
}

/// The summed active time of the categories `names`.
pub open spec fn times_sum(
    events: Seq<Event>,
    q: QueryView,
    field: Field,
    names: Seq<Seq<char>>,
    idle_ms: int,
) -> int
    decreases names.len(),
{
    if names.len() == 0 {
        0
    } else {
        times_sum(events, q, field, names.drop_last(), idle_ms) + partition_time(
            events,
            q,
            facet_of(field, names.last()),
            idle_ms,
        )
    }
}

/// The denominator of the shares: the active time of all categories of the
/// summary together.
pub open spec fn grand_total(events: Seq<Event>, q: QueryView, field: Field, idle_ms: int) -> int {
    times_sum(events, q, field, category_names(events, q, field), idle_ms)
}

/// The share of `total` in `grand`, in thousandths of a percent, rounded
/// down; zero when there is nothing to share.
pub open spec fn share(total: int, grand: int) -> int {
    if grand <= 0 {
        0
    } else {
        total * 100_000 / grand
    }
}

/// The entry of the category `name`.
pub open spec fn category_entry(
    events: Seq<Event>,
    q: QueryView,
    field: Field,
    idle_ms: int,
    name: Seq<char>,
) -> CategorySummaryView {
    let total = partition_time(events, q, facet_of(field, name), idle_ms);
    CategorySummaryView {
        name,
        total_millis: total as u64,
        percent_millis: share(total, grand_total(events, q, field, idle_ms)) as u32,
    }
}

/// The entries of all categories, in the order of `category_names`.
pub open spec fn unranked(events: Seq<Event>, q: QueryView, field: Field, idle_ms: int) -> Seq<
    CategorySummaryView,
> {
    let names = category_names(events, q, field);
    Seq::new(names.len(), |k: int| category_entry(events, q, field, idle_ms, names[k]))
}

/// `s` with `x` placed behind the last entry that has at least as much time.
pub open spec fn place(s: Seq<CategorySummaryView>, x: CategorySummaryView) -> Seq<
    CategorySummaryView,
>
    decreases s.len(),
{
    if s.len() == 0 || s.last().total_millis >= x.total_millis {
        s.push(x)
    } else {
        place(s.drop_last(), x).push(s.last())
    }
}

/// The entries of `s` by falling time; entries with equal time keep their
/// order.
pub open spec fn ranked(s: Seq<CategorySummaryView>) -> Seq<CategorySummaryView>
    decreases s.len(),
{
    if s.len() == 0 {
        s
    } else {
        place(ranked(s.drop_last()), s.last())
    }
}

/// The summed time of a list of entries.
pub open spec fn sum_millis(s: Seq<CategorySummaryView>) -> int
    decreases s.len(),
{
    if s.len() == 0 {
        0
    } else {
        sum_millis(s.drop_last()) + s.last().total_millis
    }
}

/// The summed shares of a list of entries, in thousandths of a percent.
pub open spec fn sum_shares(s: Seq<CategorySummaryView>) -> int
    decreases s.len(),
{
    if s.len() == 0 {
        0
    } else {
        sum_shares(s.drop_last()) + s.last().percent_millis
    }
}

/// Ranking rearranges the entries: their number, their summed time and their
/// summed shares stay.
pub proof fn lemma_place_keeps_sums(s: Seq<CategorySummaryView>, x: CategorySummaryView)
    ensures
        place(s, x).len() == s.len() + 1,
        sum_millis(place(s, x)) == sum_millis(s) + x.total_millis,
        sum_shares(place(s, x)) == sum_shares(s) + x.percent_millis,
    decreases s.len(),
{
    if s.len() == 0 || s.last().total_millis >= x.total_millis {
        assert(s.push(x).drop_last() =~= s);
    } else {
        lemma_place_keeps_sums(s.drop_last(), x);
        let inner = place(s.drop_last(), x);
        assert(inner.push(s.last()).drop_last() =~= inner);
    }
}

pub proof fn lemma_ranked_keeps_sums(s: Seq<CategorySummaryView>)
    ensures
        ranked(s).len() == s.len(),
        sum_millis(ranked(s)) == sum_millis(s),
        sum_shares(ranked(s)) == sum_shares(s),
    decreases s.len(),
{
    if s.len() > 0 {
        lemma_ranked_keeps_sums(s.drop_last());
        lemma_place_keeps_sums(ranked(s.drop_last()), s.last());
    }
}

/// Rounding down loses less than one unit per entry: with every share taken
/// of the same whole `grand`, the shares times `grand` fall short of the
/// summed time times a hundred thousand by less than `grand` per entry.
pub proof fn lemma_shares_close(s: Seq<CategorySummaryView>, grand: int)
    requires
        grand > 0,
        forall|k: int|
            0 <= k < s.len() ==> (#[trigger] s[k]).percent_millis == share(
                s[k].total_millis as int,
                grand,
            ),
    ensures
        grand * sum_shares(s) <= 100_000 * sum_millis(s),
        100_000 * sum_millis(s) < grand * sum_shares(s) + grand * s.len() || s.len() == 0,
        s.len() == 0 ==> sum_shares(s) == 0 && sum_millis(s) == 0,
    decreases s.len(),
{
    if s.len() > 0 {
        let head = s.drop_last();
        assert forall|k: int| 0 <= k < head.len() implies (#[trigger] head[k]).percent_millis
            == share(head[k].total_millis as int, grand) by {
            assert(head[k] == s[k]);
        }
        lemma_shares_close(head, grand);
        let t = s.last().total_millis as int;
        let p = s.last().percent_millis as int;
        assert(s.last() == s[s.len() - 1]);
        assert(p == t * 100_000 / grand);
        assert(grand * p <= 100_000 * t && 100_000 * t < grand * p + grand) by (nonlinear_arith)
            requires
                grand > 0,
                p == t * 100_000 / grand,
        ;
        let a = sum_shares(head);
        let m = sum_millis(head);
        let n = head.len() as int;
        assert(grand * (a + p) == grand * a + grand * p) by (nonlinear_arith);
        assert(100_000 * (m + t) == 100_000 * m + 100_000 * t) by (nonlinear_arith);
        assert(grand * (n + 1) == grand * n + grand) by (nonlinear_arith);
    }
}

/// The entries before ranking add up to the whole they are shares of.
pub proof fn lemma_unranked_sum(
    events: Seq<Event>,
    q: QueryView,
    field: Field,
    idle_ms: int,
    names: Seq<Seq<char>>,
)
    ensures
        sum_millis(Seq::new(names.len(), |k: int| category_entry(events, q, field, idle_ms, names[k])))
            == times_sum(events, q, field, names, idle_ms),
    decreases names.len(),
{
    let s = Seq::new(names.len(), |k: int| category_entry(events, q, field, idle_ms, names[k]));
    if names.len() > 0 {
        let head = names.drop_last();
        lemma_unranked_sum(events, q, field, idle_ms, head);
        assert(s.drop_last() =~= Seq::new(
            head.len(),
            |k: int| category_entry(events, q, field, idle_ms, head[k]),
        ));
        lemma_partition_time_bounds(events, q, facet_of(field, names.last()), idle_ms);
    }
}

/// What the rounding of the shares leaves over of one whole; nothing where
/// there is no time to share.
pub open spec fn leftover(s: Seq<CategorySummaryView>) -> int {
    if sum_millis(s) > 0 {
        100_000 - sum_shares(s)
    } else {
        0
    }
}

/// The entries of `s` with the leftover of the rounding handed to the first.
pub open spec fn closed(s: Seq<CategorySummaryView>) -> Seq<CategorySummaryView> {
    if s.len() == 0 {
        s
    } else {
        s.update(
            0,
            CategorySummaryView {
                percent_millis: (s[0].percent_millis + leftover(s)) as u32,
                ..s[0]
            },
        )
    }
}

/// The category summary of a report: one entry per category, the largest
/// first. The share of an entry is its part of the time of all entries
/// together, in thousandths of a percent, rounded down; the first entry
/// takes what the rounding leaves over, so that the shares of a summary with
/// time add up to one whole.
pub open spec fn categories(events: Seq<Event>, q: QueryView, field: Field, idle_ms: int) -> Seq<
    CategorySummaryView,
> {
    closed(ranked(unranked(events, q, field, idle_ms)))
}

/// A partition's active time is a duration that fits the machine word.
pub proof fn lemma_partition_time_bounds(events: Seq<Event>, q: QueryView, f: FacetView, idle_ms: int)
    ensures
        0 <= partition_time(events, q, f, idle_ms) <= u64::MAX,
{
    let times = ascending(crate::report::selection::times_in(events, q, f));
    lemma_ascending(crate::report::selection::times_in(events, q, f));
    lemma_active_time_bounds(times, idle_ms);
}

/// No category has more time than all of them together.
pub proof fn lemma_times_sum_bounds(
    events: Seq<Event>,
    q: QueryView,
    field: Field,
    names: Seq<Seq<char>>,
    idle_ms: int,
)
    ensures
        0 <= times_sum(events, q, field, names, idle_ms) <= names.len() * u64::MAX,
        forall|k: int|
            0 <= k < names.len() ==> partition_time(
                events,
                q,
                facet_of(field, #[trigger] names[k]),
                idle_ms,
            ) <= times_sum(events, q, field, names, idle_ms),
    decreases names.len(),
{
    if names.len() > 0 {
        lemma_times_sum_bounds(events, q, field, names.drop_last(), idle_ms);
        lemma_partition_time_bounds(events, q, facet_of(field, names.last()), idle_ms);
        assert(names.len() * u64::MAX == (names.len() - 1) * u64::MAX + u64::MAX) by (nonlinear_arith);
        assert forall|k: int| 0 <= k < names.len() implies partition_time(
            events,
            q,
            facet_of(field, #[trigger] names[k]),
            idle_ms,
        ) <= times_sum(events, q, field, names, idle_ms) by {
            if k < names.len() - 1 {
                assert(names.drop_last()[k] == names[k]);
            }
        }
    }
}

/// No entry has a larger share than all of them together.
pub proof fn lemma_share_within_sum(s: Seq<CategorySummaryView>, at: int)
    requires
        0 <= at < s.len(),
    ensures
        s[at].percent_millis <= sum_shares(s),
        0 <= sum_shares(s),
    decreases s.len(),
{
    let head = s.drop_last();
    if head.len() == 0 {
        assert(sum_shares(head) == 0);
    } else if at < head.len() {
        lemma_share_within_sum(head, at);
        assert(head[at] == s[at]);
    } else {
        lemma_share_within_sum(head, 0);
    }
}

/// Replacing the share of the first entry changes the summed shares by as
/// much, and the summed time not at all.
pub proof fn lemma_first_share_replaced(s: Seq<CategorySummaryView>, part: u32)
    requires
        s.len() > 0,
    ensures
        sum_shares(s.update(0, CategorySummaryView { percent_millis: part, ..s[0] })) == sum_shares(
            s,
        ) - s[0].percent_millis + part,
        sum_millis(s.update(0, CategorySummaryView { percent_millis: part, ..s[0] })) == sum_millis(
            s,
        ),
    decreases s.len(),
{
    let x = CategorySummaryView { percent_millis: part, ..s[0] };
    let t = s.update(0, x);
    if s.len() == 1 {
        assert(t.drop_last() =~= Seq::<CategorySummaryView>::empty());
        assert(s.drop_last() =~= Seq::<CategorySummaryView>::empty());
    } else {
        lemma_first_share_replaced(s.drop_last(), part);
        assert(t.drop_last() =~= s.drop_last().update(0, x));
        assert(s.drop_last()[0] == s[0]);
    }
}

/// Ranking keeps every entry as it is.
pub proof fn lemma_ranked_entries(s: Seq<CategorySummaryView>)
    ensures
        forall|k: int| 0 <= k < ranked(s).len() ==> s.contains(#[trigger] ranked(s)[k]),
    decreases s.len(),
{
    if s.len() > 0 {
        let head = s.drop_last();
        lemma_ranked_entries(head);
        lemma_place_entries(ranked(head), s.last());
        assert forall|k: int| 0 <= k < ranked(s).len() implies s.contains(#[trigger] ranked(s)[k]) by {
            let e = ranked(s)[k];
            if e == s.last() {
                assert(s[s.len() - 1] == e);
            } else {
                assert(ranked(head).contains(e));
                let j = choose|j: int| 0 <= j < ranked(head).len() && ranked(head)[j] == e;
                assert(head.contains(ranked(head)[j]));
                let i = choose|i: int| 0 <= i < head.len() && head[i] == e;
                assert(s[i] == e);
            }
        }
    }
}

proof fn lemma_place_entries(s: Seq<CategorySummaryView>, x: CategorySummaryView)
    ensures
        forall|k: int|
            0 <= k < place(s, x).len() ==> (#[trigger] place(s, x)[k]) == x || s.contains(
                place(s, x)[k],
            ),
    decreases s.len(),
{
    if s.len() == 0 || s.last().total_millis >= x.total_millis {
        assert forall|k: int| 0 <= k < place(s, x).len() implies (#[trigger] place(s, x)[k]) == x
            || s.contains(place(s, x)[k]) by {
            if k < s.len() {
                assert(s[k] == place(s, x)[k]);
            }
        }
    } else {
        let head = s.drop_last();
        lemma_place_entries(head, x);
        assert forall|k: int| 0 <= k < place(s, x).len() implies (#[trigger] place(s, x)[k]) == x
            || s.contains(place(s, x)[k]) by {
            let e = place(s, x)[k];
            if k < place(head, x).len() {
                assert(place(head, x)[k] == e);
                if e != x {
                    let i = choose|i: int| 0 <= i < head.len() && head[i] == e;
                    assert(s[i] == e);
                }
            } else {
                assert(s[s.len() - 1] == e);
            }
        }
    }
}

/// What holds of the category summary of every report: the entries before
/// the leftover is handed out carry the exact shares rounded down; their
/// times add up to the whole; and with time to share, the leftover is less
/// than one thousandth of a percent per entry, and the shares add up to one
/// whole once the first entry has taken it.
pub proof fn lemma_categories(events: Seq<Event>, q: QueryView, field: Field, idle_ms: int)
    ensures
        ({
            let grand = grand_total(events, q, field, idle_ms);
            let rows = ranked(unranked(events, q, field, idle_ms));
            let list = categories(events, q, field, idle_ms);
            &&& list.len() == rows.len()
            &&& sum_millis(rows) == grand
            &&& sum_millis(list) == grand
            &&& 0 <= sum_shares(rows) <= 100_000
            &&& forall|k: int|
                0 <= k < rows.len() ==> (#[trigger] rows[k]).percent_millis == share(
                    rows[k].total_millis as int,
                    grand,
                )
            &&& forall|k: int| 0 < k < list.len() ==> #[trigger] list[k] == rows[k]
            &&& grand > 0 ==> {
                &&& rows.len() > 0
                &&& 0 <= leftover(rows) < rows.len()
                &&& rows[0].percent_millis + leftover(rows) <= 100_000
                &&& list[0].percent_millis == rows[0].percent_millis + leftover(rows)
                &&& list[0].total_millis == rows[0].total_millis
                &&& sum_shares(list) == 100_000
            }
            &&& grand <= 0 ==> list == rows
        }),
{
    let names = category_names(events, q, field);
    let raw = unranked(events, q, field, idle_ms);
    let rows = ranked(raw);
    let list = categories(events, q, field, idle_ms);
    let grand = grand_total(events, q, field, idle_ms);
    lemma_unranked_sum(events, q, field, idle_ms, names);
    lemma_times_sum_bounds(events, q, field, names, idle_ms);
    lemma_ranked_keeps_sums(raw);
    lemma_ranked_entries(raw);
    assert forall|k: int| 0 <= k < raw.len() implies (#[trigger] raw[k]).percent_millis == share(
        raw[k].total_millis as int,
        grand,
    ) by {
        let total = partition_time(events, q, facet_of(field, names[k]), idle_ms);
        lemma_partition_time_bounds(events, q, facet_of(field, names[k]), idle_ms);
        if grand > 0 {
            assert(0 <= total * 100_000 / grand <= 100_000) by (nonlinear_arith)
                requires
                    0 <= total <= grand,
                    grand > 0,
            ;
        }
    }
    assert forall|k: int| 0 <= k < rows.len() implies (#[trigger] rows[k]).percent_millis == share(
        rows[k].total_millis as int,
        grand,
    ) by {
        let i = choose|i: int| 0 <= i < raw.len() && raw[i] == rows[k];
        assert(raw[i].percent_millis == share(raw[i].total_millis as int, grand));
    }
    if rows.len() > 0 {
        lemma_share_within_sum(rows, 0);
    }
    if grand > 0 {
        lemma_shares_close(raw, grand);
        let shares = sum_shares(raw);
        let n = raw.len() as int;
        assert(shares <= 100_000 && shares > 100_000 - n) by (nonlinear_arith)
            requires
                grand > 0,
                grand * shares <= 100_000 * grand,
                100_000 * grand < grand * shares + grand * n,
        ;
        lemma_first_share_replaced(rows, (rows[0].percent_millis + leftover(rows)) as u32);
    } else {
        if rows.len() > 0 {
            assert(list =~= rows);
        }
        lemma_shares_zero(raw, grand);
    }
}

/// With nothing to share, every share is zero.
proof fn lemma_shares_zero(s: Seq<CategorySummaryView>, grand: int)
    requires
        grand <= 0,
        forall|k: int|
            0 <= k < s.len() ==> (#[trigger] s[k]).percent_millis == share(
                s[k].total_millis as int,
                grand,
            ),
    ensures
        sum_shares(s) == 0,
    decreases s.len(),
{
    if s.len() > 0 {
        assert forall|k: int| 0 <= k < s.drop_last().len() implies (
        #[trigger] s.drop_last()[k]).percent_millis == share(
            s.drop_last()[k].total_millis as int,
            grand,
        ) by {
            assert(s.drop_last()[k] == s[k]);
        }
        lemma_shares_zero(s.drop_last(), grand);
        assert(s.last() == s[s.len() - 1]);
    }
}

fn share_of(total: u64, grand: u128) -> (part: u32)
    requires
        total <= grand,
    ensures
        part == share(total as int, grand as int),
        part <= FULL_SHARE,
{
    if grand == 0 {
        0
    } else {
        assert(total * 100_000 <= 0xffff_ffff_ffff_ffff * 100_000) by (nonlinear_arith)
            requires
                total <= 0xffff_ffff_ffff_ffff,
        ;
        let scaled: u128 = (total as u128) * 100_000;
        let part: u128 = scaled / grand;
        assert(total as int * 100_000 / grand as int <= 100_000) by (nonlinear_arith)
            requires
                0 <= total <= grand,
                grand > 0,
        ;
        part as u32
    }
}

fn facet_for<'a>(field: Field, name: &'a String) -> (f: Facet<'a>)
    ensures
        f@ == facet_of(field, name@),
{
    match field {
        Field::Project => Facet::Project(name),
        Field::Language => Facet::Language(name),
    }
}

/// Where `place` puts `x`: at `at`, when every entry from `at` on has less
/// time than `x` and the entry before `at` does not.
proof fn lemma_place_position(s: Seq<CategorySummaryView>, x: CategorySummaryView, at: int)
    requires
        0 <= at <= s.len(),
        forall|k: int| at <= k < s.len() ==> s[k].total_millis < x.total_millis,
        at == 0 || s[at - 1].total_millis >= x.total_millis,
    ensures
        place(s, x) == s.insert(at, x),
    decreases s.len() - at,
{
    if at == s.len() {
        assert(s.push(x) =~= s.insert(at, x));
    } else {
        lemma_place_position(s.drop_last(), x, at);
        assert(s.drop_last().insert(at, x).push(s.last()) =~= s.insert(at, x));
    }
}

fn place_entry(out: &mut Vec<CategorySummary>, entry: CategorySummary)
    ensures
        entry_views(final(out)@) == place(entry_views(old(out)@), entry@),
{
    let mut at: usize = out.len();
    while at > 0 && out[at - 1].total_millis < entry.total_millis
        invariant
            at <= out.len(),
            out@ == old(out)@,
            forall|k: int| at <= k < out.len() ==> out[k].total_millis < entry.total_millis,
        decreases at,
    {
        at = at - 1;
    }
    proof {
        lemma_place_position(entry_views(out@), entry@, at as int);
    }
    let ghost before = out@;
    let ghost item = entry@;
    out.insert(at, entry);
    assert(entry_views(out@) =~= entry_views(before).insert(at as int, item));
}

/// Time per category over the events the query looks at, the largest
/// category first, each with its share of all categories together.
pub fn category_summaries(events: &Vec<Event>, q: &Query, field: Field, idle_timeout: u64) -> (out:
    Vec<CategorySummary>)
    ensures
        entry_views(out@) == categories(events@, q@, field, idle_millis(idle_timeout)),
        grand_total(events@, q@, field, idle_millis(idle_timeout)) > 0 ==> sum_shares(
            entry_views(out@),
        ) == 100_000,
{
    let ghost idle = idle_millis(idle_timeout);
    let names = collect_names(events, q, field);
    let ghost labels = texts(names@);
    let mut totals: Vec<u64> = Vec::new();
    let mut grand: u128 = 0;
    let mut i: usize = 0;
    while i < names.len()
        invariant
            i <= names.len(),
            labels == texts(names@),
            idle == idle_millis(idle_timeout),
            totals.len() == i,
            forall|k: int|
                0 <= k < i ==> totals[k] == partition_time(
                    events@,
                    q@,
                    facet_of(field, #[trigger] labels[k]),
                    idle,
                ),
            grand == times_sum(events@, q@, field, labels.take(i as int), idle),
        decreases names.len() - i,
    {
        let total: u64 = partition_millis(events, q, &facet_for(field, &names[i]), idle_timeout);
        proof {
            assert(labels.take(i + 1).drop_last() =~= labels.take(i as int));
            assert(labels.take(i + 1).last() == labels[i as int]);
            lemma_times_sum_bounds(events@, q@, field, labels.take(i + 1), idle);
            assert((i + 1) * u64::MAX <= u128::MAX) by (nonlinear_arith)
                requires
                    i + 1 <= 0x1_0000_0000_0000_0000,
            ;
        }
        totals.push(total);
        grand = grand + total as u128;
        i = i + 1;
    }
    proof {
        assert(labels.take(names.len() as int) =~= labels);
        lemma_times_sum_bounds(events@, q@, field, labels, idle);
        assert forall|k: int| 0 <= k < names.len() implies (#[trigger] totals[k]) <= grand by {
            assert(totals[k] == partition_time(events@, q@, facet_of(field, labels[k]), idle));
        }
    }
    let ghost raw = unranked(events@, q@, field, idle);
    let mut out: Vec<CategorySummary> = Vec::new();
    let mut j: usize = 0;
    while j < names.len()
        invariant
            j <= names.len(),
            labels == texts(names@),
            labels == category_names(events@, q@, field),
            raw == unranked(events@, q@, field, idle),
            totals.len() == names.len(),
            forall|k: int|
                0 <= k < names.len() ==> totals[k] == partition_time(
                    events@,
                    q@,
                    facet_of(field, #[trigger] labels[k]),
                    idle,
                ),
            forall|k: int| 0 <= k < names.len() ==> (#[trigger] totals[k]) <= grand,
            grand == grand_total(events@, q@, field, idle),
            entry_views(out@) == ranked(raw.take(j as int)),
        decreases names.len() - j,
    {
        let total: u64 = totals[j];
        let entry = CategorySummary {
            name: names[j].clone(),
            total_millis: total,
            percent_millis: share_of(total, grand),
        };
        proof {
            assert(raw.take(j + 1).drop_last() =~= raw.take(j as int));
            assert(raw.take(j + 1).last() == raw[j as int]);
            assert(labels[j as int] == names@[j as int]@);
            assert(entry@ == raw[j as int]);
        }
        place_entry(&mut out, entry);
        j = j + 1;
    }
    assert(raw.take(names.len() as int) =~= raw);
    let ghost rows = ranked(raw);
    proof {
        lemma_categories(events@, q@, field, idle);
    }
    let mut shares: u128 = 0;
    let mut k: usize = 0;
    while k < out.len()
        invariant
            k <= out.len(),
            shares == sum_shares(entry_views(out@).take(k as int)),
            shares <= k * u32::MAX,
        decreases out.len() - k,
    {
        assert(entry_views(out@).take(k + 1).drop_last() =~= entry_views(out@).take(k as int));
        assert(entry_views(out@).take(k + 1).last() == out[k as int]@);
        assert((k + 1) * u32::MAX == k * u32::MAX + u32::MAX) by (nonlinear_arith);
        shares = shares + out[k].percent_millis as u128;
        k = k + 1;
    }
    assert(entry_views(out@).take(out.len() as int) =~= entry_views(out@));
    if grand > 0 {
        let first = CategorySummary {
            name: out[0].name.clone(),
            total_millis: out[0].total_millis,
            percent_millis: out[0].percent_millis + (100_000 - shares) as u32,
        };
        out.set(0, first);
        assert(entry_views(out@) =~= closed(rows));
    } else {
        assert(entry_views(out@) =~= closed(rows));
    }
    out
}

} // verus!
