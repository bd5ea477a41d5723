//! The token-activity calendar: per-day token totals keyed by day number, the
//! weeks that fit the panel, the quartiles of the visible days and the totals of
//! recent periods.

use vstd::prelude::*;
use crate::activity::{
    history_days, panel_width,
    activity_gutter_width, activity_quartiles, activity_week_capacity, gutter_width, quartiles,
    week_capacity,
};
use crate::activity::eta_text;
use crate::activity::sync_eta;
use crate::amp::{AmpActivityUsage, AmpDailyUsageBucket};
use crate::model::ProviderState;
use crate::dates::{
    parse_date, parsed_date, shifted_or, sub_days_or, sunday_of_week, valid_day,
    weekday_from_sunday, MAX_DAY, MIN_DAY,
};

verus! {

/// One day of Codex activity as the service reports it.
#[derive(Clone, Debug)]
pub struct CodexDailyUsageBucket {
    pub start_date: String,
    pub tokens: u64,
}

/// Account-wide activity figures, each optional.
#[derive(Clone, Copy, Debug, Default, PartialEq, Eq)]
pub struct CodexActivitySummary {
    pub lifetime_tokens: Option<u64>,
    pub peak_daily_tokens: Option<u64>,
    pub longest_running_turn_sec: Option<u64>,
    pub current_streak_days: Option<u64>,
    pub longest_streak_days: Option<u64>,
}

/// Activity as reported: the daily buckets (absent when the service sent none)
/// and the summary.
#[derive(Clone, Debug)]
pub struct CodexActivityUsage {
    pub daily_usage_buckets: Option<Vec<CodexDailyUsageBucket>>,
    pub summary: Option<CodexActivitySummary>,
}

/// The tokens of one day.
#[derive(Clone, Copy, Debug, PartialEq, Eq)]
pub struct DailyTokenUsage {
    pub date: i32,
    pub tokens: u64,
}

/// The calendar laid out for a panel: which weeks show, the gutter, today, the
/// latest day with data, the per-day totals in day order, the intensity quartiles
/// and the account summary.
#[derive(Clone, Debug)]
pub struct ActivityCalendar {
    pub start_week: i32,
    pub weeks: usize,
    pub gutter_width: usize,
    pub utc_today: i32,
    pub latest_date: i32,
    pub tokens_by_date: Vec<(i32, u64)>,
    pub quartiles: [u64; 3],
    pub summary: Option<CodexActivitySummary>,
}

/// The tokens that the last entry for day `d` reports: later entries for a day
/// replace earlier ones.
pub open spec fn day_tokens(days: Seq<DailyTokenUsage>, d: int) -> Option<u64>
    decreases days.len(),
{
    if days.len() == 0 {
        None
    } else if days.last().date == d {
        Some(days.last().tokens)
    } else {
        day_tokens(days.drop_last(), d)
    }
}

/// Entries in strictly increasing day order.
pub open spec fn strictly_dated(s: Seq<(i32, u64)>) -> bool {
    forall|i: int, j: int| 0 <= i < j < s.len() ==> s[i].0 < s[j].0
}

/// `s` lists, in day order, exactly the days that `days` reports, each with the
/// tokens of its last entry.
pub open spec fn tabulates(s: Seq<(i32, u64)>, days: Seq<DailyTokenUsage>) -> bool {
    &&& strictly_dated(s)
    &&& forall|i: int| 0 <= i < s.len() ==> day_tokens(days, s[i].0 as int) == Some(s[i].1)
    &&& forall|d: int|
        #![trigger day_tokens(days, d)]
        day_tokens(days, d) is Some ==> exists|i: int| 0 <= i < s.len() && s[i].0 == d
}

/// The sum of the tokens of the entries dated from `lo` to `hi`.
pub open spec fn range_total(s: Seq<(i32, u64)>, lo: int, hi: int) -> nat
    decreases s.len(),
{
    if s.len() == 0 {
        0
    } else {
        let e = s.last();
        range_total(s.drop_last(), lo, hi) + if lo <= e.0 <= hi {
            e.1 as nat
        } else {
            0nat
        }
    }
}

/// The non-zero token counts of the entries dated from `lo` to `hi`, in order.
pub open spec fn visible_tokens(s: Seq<(i32, u64)>, lo: int, hi: int) -> Seq<u64>
    decreases s.len(),
{
    if s.len() == 0 {
        seq![]
    } else {
        let e = s.last();
        let rest = visible_tokens(s.drop_last(), lo, hi);
        if lo <= e.0 <= hi && e.1 > 0 {
            rest.push(e.1)
        } else {
            rest
        }
    }
}

/// The Sunday of the week of `day` (chrono's fallback to the day itself at the
/// start of its range included).
pub open spec fn week_start(day: int) -> int {
    shifted_or(day, -weekday_from_sunday(day), day)
}

/// The first Sunday shown when `weeks` weeks end with the week of `utc_today`.
pub open spec fn first_week(utc_today: int, weeks: int) -> int {
    shifted_or(week_start(utc_today), -((weeks - 1) * 7), week_start(utc_today))
}

/// `c` is the calendar of `days` for a panel `width` columns wide on `utc_today`.
pub open spec fn is_calendar(
    c: ActivityCalendar,
    days: Seq<DailyTokenUsage>,
    summary: Option<CodexActivitySummary>,
    width: int,
    utc_today: int,
) -> bool {
    &&& tabulates(c.tokens_by_date@, days)
    &&& c.tokens_by_date@.len() > 0
    &&& c.latest_date == c.tokens_by_date@.last().0
    &&& c.weeks == week_capacity(width)
    &&& c.gutter_width == gutter_width(width)
    &&& c.utc_today == utc_today
    &&& c.start_week == first_week(utc_today, c.weeks as int)
    &&& c.quartiles == quartiles(visible_tokens(c.tokens_by_date@, c.start_week as int, utc_today))
    &&& c.summary == summary
}

/// Every day of `days` is a date chrono can represent.
pub open spec fn valid_days(days: Seq<DailyTokenUsage>) -> bool {
    forall|i: int| 0 <= i < days.len() ==> valid_day(#[trigger] days[i].date as int)
}

proof fn lemma_day_tokens_valid(days: Seq<DailyTokenUsage>, d: int)
    requires
        valid_days(days),
        day_tokens(days, d) is Some,
    ensures
        valid_day(d),
    decreases days.len(),
{
    if days.last().date != d {
        assert(valid_days(days.drop_last()));
        lemma_day_tokens_valid(days.drop_last(), d);
    }
}

proof fn lemma_dated_span(s: Seq<(i32, u64)>, i: int)
    requires
        strictly_dated(s),
        0 <= i < s.len(),
    ensures
        s[i].0 >= s[0].0 + i,
    decreases i,
{
    if i > 0 {
        lemma_dated_span(s, i - 1);
    }
}

proof fn lemma_visible_len(s: Seq<(i32, u64)>, lo: int, hi: int)
    ensures
        visible_tokens(s, lo, hi).len() <= s.len(),
    decreases s.len(),
{
    if s.len() > 0 {
        lemma_visible_len(s.drop_last(), lo, hi);
    }
}

/// The per-day totals of `days`: one entry per day, in day order, each with the
/// tokens of the day's last entry.
pub fn tokens_by_date(days: &[DailyTokenUsage]) -> (r: Vec<(i32, u64)>)
    ensures
        tabulates(r@, days@),
{
    let mut v: Vec<(i32, u64)> = Vec::new();
    let mut k: usize = 0;
    while k < days.len()
        invariant
            k <= days.len(),
            tabulates(v@, days@.take(k as int)),
        decreases days.len() - k,
    {
        let e = days[k];
        let ghost pre = days@.take(k as int);
        let ghost post = days@.take(k + 1);
        assert(post.drop_last() =~= pre);
        assert(post.last() == e);
        let mut i: usize = 0;
        while i < v.len() && v[i].0 < e.date
            invariant
                i <= v.len(),
                forall|j: int| 0 <= j < i ==> v@[j].0 < e.date,
            decreases v.len() - i,
        {
            i = i + 1;
        }
        let ghost old_v = v@;
        if i < v.len() && v[i].0 == e.date {
            v.set(i, (e.date, e.tokens));
            proof {
                assert forall|j: int| 0 <= j < v@.len() implies day_tokens(post, v@[j].0 as int)
                    == Some(v@[j].1) by {
                    if j != i {
                        assert(old_v[j].0 != e.date);
                    }
                }
                assert forall|d: int| #![trigger day_tokens(post, d)]
                    day_tokens(post, d) is Some implies exists|j: int|
                        0 <= j < v@.len() && v@[j].0 == d by {
                    if d == e.date {
                        assert(v@[i as int].0 == d);
                    } else {
                        assert(day_tokens(pre, d) is Some);
                        let j = choose|j: int| 0 <= j < old_v.len() && old_v[j].0 == d;
                        assert(v@[j].0 == d);
                    }
                }
            }
        } else {
            v.insert(i, (e.date, e.tokens));
            proof {
                assert(v@ == old_v.insert(i as int, (e.date, e.tokens)));
                assert forall|a: int, b: int| 0 <= a < b < v@.len() implies v@[a].0 < v@[b].0 by {
                    if a < i && b > i {
                        assert(old_v[a].0 < old_v[b - 1].0 || a == b - 1);
                    }
                }
                assert forall|j: int| 0 <= j < v@.len() implies day_tokens(post, v@[j].0 as int)
                    == Some(v@[j].1) by {
                    if j < i {
                        assert(old_v[j].0 < e.date);
                    } else if j > i {
                        assert(old_v[j - 1].0 > e.date);
                    }
                }
                assert forall|d: int| #![trigger day_tokens(post, d)]
                    day_tokens(post, d) is Some implies exists|j: int|
                        0 <= j < v@.len() && v@[j].0 == d by {
                    if d == e.date {
                        assert(v@[i as int].0 == d);
                    } else {
                        assert(day_tokens(pre, d) is Some);
                        let j = choose|j: int| 0 <= j < old_v.len() && old_v[j].0 == d;
                        if j < i {
                            assert(v@[j].0 == d);
                        } else {
                            assert(v@[j + 1].0 == d);
                        }
                    }
                }
            }
        }
        k = k + 1;
    }
    assert(days@.take(days@.len() as int) =~= days@);
    v
}

/// The non-zero totals of the entries dated from `lo` to `hi`, in day order.
pub fn visible_nonzero(s: &[(i32, u64)], lo: i32, hi: i32) -> (r: Vec<u64>)
    ensures
        r@ == visible_tokens(s@, lo as int, hi as int),
{
    let mut r: Vec<u64> = Vec::new();
    let mut k: usize = 0;
    while k < s.len()
        invariant
            k <= s.len(),
            r@ == visible_tokens(s@.take(k as int), lo as int, hi as int),
        decreases s.len() - k,
    {
        let e = s[k];
        assert(s@.take(k + 1).drop_last() =~= s@.take(k as int));
        if lo <= e.0 && e.0 <= hi && e.1 > 0 {
            r.push(e.1);
        }
        k = k + 1;
    }
    assert(s@.take(s@.len() as int) =~= s@);
    r
}

/// The calendar of `days` for a panel `width` columns wide on `utc_today`; `None`
/// when there are no days or no week fits.
pub fn calendar_from_days(
    days: &[DailyTokenUsage],
    summary: Option<CodexActivitySummary>,
    width: usize,
    utc_today: i32,
) -> (r: Option<ActivityCalendar>)
    requires
        valid_day(utc_today as int),
        valid_days(days@),
        week_capacity(width as int) == 0 || (week_capacity(width as int) - 1) * 7 <= usize::MAX,
    ensures
        r is None <==> days@.len() == 0 || week_capacity(width as int) == 0,
        r matches Some(c) ==> is_calendar(c, days@, summary, width as int, utc_today as int),
{
    let tokens = tokens_by_date(days);
    if tokens.len() == 0 {
        proof {
            if days@.len() > 0 {
                let d = days@.last().date as int;
                assert(day_tokens(days@, d) is Some);
            }
        }
        return None;
    }
    proof {
        if days@.len() == 0 {
            assert(day_tokens(days@, tokens@[0].0 as int) is None);
        }
    }
    let latest_date = tokens[tokens.len() - 1].0;
    let current_week = sunday_of_week(utc_today);
    let gutter = activity_gutter_width(width);
    let weeks = activity_week_capacity(width);
    if weeks == 0 {
        return None;
    }
    let start_week = sub_days_or(current_week, ((weeks - 1) * 7) as u64, current_week);
    let visible = visible_nonzero(&tokens, start_week, utc_today);
    proof {
        lemma_visible_len(tokens@, start_week as int, utc_today as int);
        let n = tokens@.len() - 1;
        lemma_day_tokens_valid(days@, tokens@[0].0 as int);
        lemma_day_tokens_valid(days@, tokens@[n].0 as int);
        lemma_dated_span(tokens@, n);
        assert(tokens@.len() <= MAX_DAY - MIN_DAY + 1);
    }
    let quartiles = activity_quartiles(&visible);
    Some(
        ActivityCalendar {
            start_week,
            weeks,
            gutter_width: gutter,
            utc_today,
            latest_date,
            tokens_by_date: tokens,
            quartiles,
            summary,
        },
    )
}

/// The buckets whose start date chrono reads as `%Y-%m-%d`, as dated totals.
pub open spec fn parsed_days(buckets: Seq<CodexDailyUsageBucket>) -> Seq<DailyTokenUsage>
    decreases buckets.len(),
{
    if buckets.len() == 0 {
        seq![]
    } else {
        let b = buckets.last();
        let rest = parsed_days(buckets.drop_last());
        match parsed_date(b.start_date@, "%Y-%m-%d"@) {
            Some(d) => rest.push(DailyTokenUsage { date: d, tokens: b.tokens }),
            None => rest,
        }
    }
}

/// The dated totals of `usage`, skipping buckets whose date does not parse;
/// `None` when the usage has no buckets at all.
pub fn daily_token_usage(usage: &CodexActivityUsage) -> (r: Option<Vec<DailyTokenUsage>>)
    ensures
        r is None <==> usage.daily_usage_buckets is None,
        r matches Some(v) ==> v@ == parsed_days(usage.daily_usage_buckets->0@) && valid_days(v@),
{
    let buckets = match &usage.daily_usage_buckets {
        Some(b) => b,
        None => return None,
    };
    let mut out: Vec<DailyTokenUsage> = Vec::new();
    let mut k: usize = 0;
    while k < buckets.len()
        invariant
            k <= buckets.len(),
            out@ == parsed_days(buckets@.take(k as int)),
            valid_days(out@),
        decreases buckets.len() - k,
    {
        let b = &buckets[k];
        assert(buckets@.take(k + 1).drop_last() =~= buckets@.take(k as int));
        match parse_date(b.start_date.as_str(), "%Y-%m-%d") {
            Some(d) => {
                out.push(DailyTokenUsage { date: d, tokens: b.tokens });
            },
            None => {},
        }
        k = k + 1;
    }
    assert(buckets@.take(buckets@.len() as int) =~= buckets@);
    Some(out)
}

/// The calendar of `usage` for a panel `width` columns wide on `utc_today`; `None`
/// when the usage has no buckets, none of them dated, or no week fits.
pub fn activity_calendar(usage: &CodexActivityUsage, width: usize, utc_today: i32) -> (r: Option<
    ActivityCalendar,
>)
    requires
        valid_day(utc_today as int),
        week_capacity(width as int) == 0 || (week_capacity(width as int) - 1) * 7 <= usize::MAX,
    ensures
        r is None <==> usage.daily_usage_buckets is None || parsed_days(
            usage.daily_usage_buckets->0@,
        ).len() == 0 || week_capacity(width as int) == 0,
        r matches Some(c) ==> is_calendar(
            c,
            parsed_days(usage.daily_usage_buckets->0@),
            usage.summary,
            width as int,
            utc_today as int,
        ),
{
    match daily_token_usage(usage) {
        Some(days) => calendar_from_days(&days, usage.summary, width, utc_today),
        None => None,
    }
}

/// The total of the `days` days that end with the latest day with data, capped at
/// the largest `u64` (a count of 0 covers the latest day alone).
pub open spec fn period_tokens(c: ActivityCalendar, days: int) -> int {
    let back = if days > 0 {
        days - 1
    } else {
        0
    };
    let start = shifted_or(c.latest_date as int, -back, c.latest_date as int);
    let total = range_total(c.tokens_by_date@, start, c.latest_date as int);
    if total > u64::MAX {
        u64::MAX as int
    } else {
        total as int
    }
}

pub fn activity_period_tokens(calendar: &ActivityCalendar, days: u64) -> (r: u64)
    requires
        valid_day(calendar.latest_date as int),
    ensures
        r == period_tokens(*calendar, days as int),
{
    let latest = calendar.latest_date;
    let start = sub_days_or(latest, days.saturating_sub(1), latest);
    let s = &calendar.tokens_by_date;
    let mut total: u64 = 0;
    let mut k: usize = 0;
    while k < s.len()
        invariant
            k <= s.len(),
            total == if range_total(s@.take(k as int), start as int, latest as int) > u64::MAX {
                u64::MAX as int
            } else {
                range_total(s@.take(k as int), start as int, latest as int) as int
            },
        decreases s.len() - k,
    {
        let e = s[k];
        assert(s@.take(k + 1).drop_last() =~= s@.take(k as int));
        if start <= e.0 && e.0 <= latest {
            total = total.saturating_add(e.1);
        }
        k = k + 1;
    }
    assert(s@.take(s@.len() as int) =~= s@);
    total
}

/// The Amp buckets as Codex-shaped buckets (date and tokens).
pub open spec fn codex_shaped(buckets: Seq<AmpDailyUsageBucket>) -> Seq<CodexDailyUsageBucket> {
    buckets.map_values(|b: AmpDailyUsageBucket| CodexDailyUsageBucket { start_date: b.date, tokens: b.tokens })
}

/// The Amp history in the shape of Codex activity, without a summary.
pub fn amp_as_codex_usage(activity: &AmpActivityUsage) -> (r: CodexActivityUsage)
    ensures
        r.daily_usage_buckets is Some,
        r.daily_usage_buckets->0@ == codex_shaped(activity.daily_usage_buckets@),
        r.summary is None,
{
    let src = &activity.daily_usage_buckets;
    let mut out: Vec<CodexDailyUsageBucket> = Vec::new();
    let mut k: usize = 0;
    while k < src.len()
        invariant
            k <= src.len(),
            out@ == codex_shaped(src@.take(k as int)),
        decreases src.len() - k,
    {
        let b = &src[k];
        out.push(CodexDailyUsageBucket { start_date: b.date.clone(), tokens: b.tokens });
        proof {
            assert(codex_shaped(src@.take(k + 1)) =~= codex_shaped(src@.take(k as int)).push(
                CodexDailyUsageBucket { start_date: b.date, tokens: b.tokens },
            ));
        }
        k = k + 1;
    }
    assert(src@.take(src@.len() as int) =~= src@);
    CodexActivityUsage { daily_usage_buckets: Some(out), summary: None }
}

/// How many buckets have a date that parses to a day from `lo` to `hi` (a day
/// cached twice counts twice).
pub open spec fn cached_count(buckets: Seq<AmpDailyUsageBucket>, lo: int, hi: int) -> nat
    decreases buckets.len(),
{
    if buckets.len() == 0 {
        0
    } else {
        cached_count(buckets.drop_last(), lo, hi) + match parsed_date(
            buckets.last().date@,
            "%Y-%m-%d"@,
        ) {
            Some(d) => if lo <= d <= hi {
                1nat
            } else {
                0nat
            },
            None => 0nat,
        }
    }
}

/// The estimated seconds until the history is complete: an hour for every 24
/// missing days, rounded up, plus the pause the limiter imposed (each step
/// capped at the largest `u64`).
pub open spec fn sync_seconds(missing_days: nat, pause_seconds: nat) -> nat {
    let a = if missing_days * 3600 > u64::MAX {
        u64::MAX as nat
    } else {
        missing_days * 3600
    };
    let b = (a + 23) / 24;
    if b + pause_seconds > u64::MAX {
        u64::MAX as nat
    } else {
        b + pause_seconds
    }
}

/// The alert text for `missing_days` missing days and an optional limiter pause.
pub open spec fn sync_text(missing_days: nat, pause_millis: Option<u64>) -> Seq<char> {
    let pause = match pause_millis {
        Some(m) => (m / 1000) as nat,
        None => 0nat,
    };
    "Amp Code activity history sync completes in ~"@ + eta_text(sync_seconds(missing_days, pause))
        + match pause_millis {
        Some(m) => " \u{b7} resumes in ~"@ + eta_text((m / 1000) as nat),
        None => seq![],
    }
}

/// The days the calendar shows up to today: from its first Sunday through today.
pub open spec fn required_days(width: int, utc_today: int) -> int {
    utc_today - first_week(utc_today, week_capacity(width)) + 1
}

/// How many buckets of the history fall on the days the calendar shows.
fn count_cached(buckets: &Vec<AmpDailyUsageBucket>, lo: i32, hi: i32) -> (r: usize)
    ensures
        r == cached_count(buckets@, lo as int, hi as int),
{
    let mut n: usize = 0;
    let mut k: usize = 0;
    while k < buckets.len()
        invariant
            k <= buckets.len(),
            n == cached_count(buckets@.take(k as int), lo as int, hi as int),
            n <= k,
        decreases buckets.len() - k,
    {
        assert(buckets@.take(k + 1).drop_last() =~= buckets@.take(k as int));
        match parse_date(buckets[k].date.as_str(), "%Y-%m-%d") {
            Some(d) => {
                if lo <= d && d <= hi {
                    n = n + 1;
                }
            },
            None => {},
        }
        k = k + 1;
    }
    assert(buckets@.take(buckets@.len() as int) =~= buckets@);
    n
}

/// The buckets whose date parses to a day from `lo` to `hi`, in order.
pub open spec fn shown_buckets(buckets: Seq<AmpDailyUsageBucket>, lo: int, hi: int) -> Seq<AmpDailyUsageBucket>
    decreases buckets.len(),
{
    if buckets.len() == 0 {
        seq![]
    } else {
        let rest = shown_buckets(buckets.drop_last(), lo, hi);
        match parsed_date(buckets.last().date@, "%Y-%m-%d"@) {
            Some(d) => if lo <= d <= hi {
                rest.push(buckets.last())
            } else {
                rest
            },
            None => rest,
        }
    }
}

/// The positions of the buckets that fall on the days from `lo` to `hi` (the days
/// the calendar shows), in order.
pub fn shown_bucket_indices(buckets: &Vec<AmpDailyUsageBucket>, lo: i32, hi: i32) -> (r: Vec<usize>)
    ensures
        r@.len() == shown_buckets(buckets@, lo as int, hi as int).len(),
        forall|k: int| 0 <= k < r@.len() ==> (#[trigger] r@[k]) < buckets.len() && buckets@[r@[k] as int]
            == shown_buckets(buckets@, lo as int, hi as int)[k],
{
    let mut out: Vec<usize> = Vec::new();
    let mut k: usize = 0;
    while k < buckets.len()
        invariant
            k <= buckets.len(),
            out@.len() == shown_buckets(buckets@.take(k as int), lo as int, hi as int).len(),
            forall|j: int| 0 <= j < out@.len() ==> (#[trigger] out@[j]) < k && buckets@[out@[j] as int]
                == shown_buckets(buckets@.take(k as int), lo as int, hi as int)[j],
        decreases buckets.len() - k,
    {
        assert(buckets@.take(k + 1).drop_last() =~= buckets@.take(k as int));
        assert(buckets@.take(k + 1).last() == buckets@[k as int]);
        match parse_date(buckets[k].date.as_str(), "%Y-%m-%d") {
            Some(d) => {
                if lo <= d && d <= hi {
                    out.push(k);
                }
            },
            None => {},
        }
        k = k + 1;
    }
    assert(buckets@.take(buckets@.len() as int) =~= buckets@);
    out
}

/// The alert shown while the Amp history does not yet cover every day the calendar
/// shows: how long the sync still takes, and when the limiter lets it resume.
/// Nothing once the history is complete, before any history arrived, after a failed
/// refresh, or when no calendar fits.
pub fn amp_activity_sync_message(
    activity: &ProviderState<AmpActivityUsage>,
    width: usize,
    utc_today: i32,
) -> (r: Option<String>)
    requires
        valid_day(utc_today as int),
        week_capacity(width as int) == 0 || (week_capacity(width as int) - 1) * 7 <= usize::MAX,
    ensures
        r is Some <==> activity.result is Some && activity.error is None && parsed_days(
            codex_shaped(activity.result->0.daily_usage_buckets@),
        ).len() > 0 && week_capacity(width as int) > 0 && cached_count(
            activity.result->0.daily_usage_buckets@,
            first_week(utc_today as int, week_capacity(width as int)),
            utc_today as int,
        ) < required_days(width as int, utc_today as int),
        r matches Some(m) ==> m@ == sync_text(
            (required_days(width as int, utc_today as int) - cached_count(
                activity.result->0.daily_usage_buckets@,
                first_week(utc_today as int, week_capacity(width as int)),
                utc_today as int,
            )) as nat,
            activity.retry_after_millis,
        ),
{
    let result = match &activity.result {
        Some(r) => r,
        None => return None,
    };
    if activity.error.is_some() {
        return None;
    }
    let shaped = amp_as_codex_usage(result);
    let calendar = match activity_calendar(&shaped, width, utc_today) {
        Some(c) => c,
        None => return None,
    };
    let start = calendar.start_week;
    let required: usize = (utc_today as i64 - start as i64) as usize + 1;
    let cached = count_cached(&result.daily_usage_buckets, start, utc_today);
    if cached >= required {
        return None;
    }
    let remaining = required - cached;
    let pause: u64 = match activity.retry_after_millis {
        Some(m) => m / 1000,
        None => 0,
    };
    let scaled: u64 = if remaining as u64 > u64::MAX / 3600 {
        u64::MAX
    } else {
        remaining as u64 * 3600
    };
    let spread = scaled / 24 + if scaled % 24 == 0 {
        0
    } else {
        1
    };
    let eta = spread.saturating_add(pause);
    proof {
        assert(spread == (scaled + 23) / 24);
    }
    let mut message = String::from_str("Amp Code activity history sync completes in ~");
    let eta_label = sync_eta(eta);
    message.append(eta_label.as_str());
    match activity.retry_after_millis {
        Some(m) => {
            message.append(" \u{b7} resumes in ~");
            let resume = sync_eta(m / 1000);
            message.append(resume.as_str());
        },
        None => {},
    }
    proof {
        let pm = activity.retry_after_millis;
        match pm {
            Some(m) => {},
            None => {
                assert(message@ =~= message@ + Seq::<char>::empty());
            },
        }
    }
    Some(message)
}

/// The last column of the calendar is the week of today (where chrono has the
/// first Sunday shown).
pub proof fn law_last_column_is_the_current_week(utc_today: int, weeks: int)
    requires
        valid_day(utc_today),
        weeks >= 1,
        valid_day(utc_today - weekday_from_sunday(utc_today) - (weeks - 1) * 7),
    ensures
        first_week(utc_today, weeks) + (weeks - 1) * 7 == week_start(utc_today),
        week_start(utc_today) <= utc_today < week_start(utc_today) + 7,
{
    assert(0 <= weekday_from_sunday(utc_today) < 7);
}

/// The Amp history the refresher asks for covers exactly the days the calendar
/// shows: from the first Sunday of the grid through today (where chrono has that
/// Sunday).
pub proof fn law_history_covers_the_grid(dashboard_width: int, utc_today: int)
    requires
        dashboard_width >= 0,
        valid_day(utc_today),
        week_capacity(panel_width(dashboard_width)) > 0,
        valid_day(
            utc_today - weekday_from_sunday(utc_today) - (week_capacity(panel_width(dashboard_width)) - 1)
                * 7,
        ),
    ensures
        required_days(panel_width(dashboard_width), utc_today) == history_days(
            dashboard_width,
            utc_today,
        ),
{
    let weeks = week_capacity(panel_width(dashboard_width));
    assert(0 <= weekday_from_sunday(utc_today) < 7);
    assert((weeks - 1) * 7 <= MAX_DAY - MIN_DAY);
}

} // verus!
