//! The decisions of the Amp history refresher. Each pass walks the days the
//! calendar needs, newest first, skips completed days already cached, looks each
//! remaining day up, and decides from the answer whether to store it, wait a moment
//! and ask again, leave today for later, or end the pass. Running the lookups,
//! sleeping and storing are the caller's.

use vstd::prelude::*;
use crate::amp::{activity_dates, lookup_days, AmpActivityUsage, AmpDailyUsageBucket};
use crate::dates::{date_text, format_date, valid_day, MAX_DAY};
use crate::limiter::AmpRequestKind;
use crate::text::str_eq;

verus! {

/// The `--start` and `--end` arguments of the lookup of `day`: midnight UTC at the
/// start of the day and of the next day; none where chrono has no such days.
pub open spec fn day_range_text(day: int) -> Option<(Seq<char>, Seq<char>)> {
    if valid_day(day) && valid_day(day + 1) {
        Some(
            (
                date_text(day, "%Y-%m-%d"@) + "T00:00:00Z"@,
                date_text(day + 1, "%Y-%m-%d"@) + "T00:00:00Z"@,
            ),
        )
    } else {
        None
    }
}

pub fn day_range_args(day: i32) -> (r: Option<(String, String)>)
    ensures
        match r {
            Some((a, b)) => day_range_text(day as int) == Some((a@, b@)),
            None => day_range_text(day as int) is None,
        },
{
    if day >= MAX_DAY {
        return None;
    }
    let mut start = match format_date(day, "%Y-%m-%d") {
        Some(t) => t,
        None => return None,
    };
    let mut end = match format_date(day + 1, "%Y-%m-%d") {
        Some(t) => t,
        None => return None,
    };
    start.append("T00:00:00Z");
    end.append("T00:00:00Z");
    Some((start, end))
}

/// The longest pause the refresher waits out within a pass (milliseconds).
pub const SHORT_WAIT_MILLIS: u128 = 2_000;

/// The fewest days a pass covers.
pub const MIN_HISTORY_DAYS: usize = 7;

/// What the lookup of one day came back with.
pub enum DayFetch {
    /// The day's usage.
    Ready(AmpDailyUsageBucket),
    /// The limiter asks to wait this many milliseconds.
    Deferred(u128),
    /// The lookup failed.
    Failed(String),
}

/// What the refresher does after a lookup.
#[derive(Clone, Copy, Debug, PartialEq, Eq, Structural)]
pub enum SyncDecision {
    /// Store the day and go on with the next one.
    Store,
    /// Wait this many milliseconds, then look the same day up again.
    RetryAfter(u128),
    /// Leave today for a later pass and go on with the next day.
    SkipToday,
    /// End the pass; the limiter asked for a pause of this many milliseconds.
    Pause(u128),
    /// End the pass on the lookup's error.
    Fail,
}

/// A short pause is waited out; a longer one skips today, else ends the pass.
pub open spec fn decision_for(fetch: DayFetch, date: int, today: int) -> SyncDecision {
    match fetch {
        DayFetch::Ready(_) => SyncDecision::Store,
        DayFetch::Deferred(d) => if d <= SHORT_WAIT_MILLIS {
            SyncDecision::RetryAfter(d)
        } else if date == today {
            SyncDecision::SkipToday
        } else {
            SyncDecision::Pause(d)
        },
        DayFetch::Failed(_) => SyncDecision::Fail,
    }
}

pub fn decide_after_fetch(fetch: &DayFetch, date: i32, today: i32) -> (r: SyncDecision)
    ensures
        r == decision_for(*fetch, date as int, today as int),
{
    match fetch {
        DayFetch::Ready(_) => SyncDecision::Store,
        DayFetch::Deferred(d) => if *d <= SHORT_WAIT_MILLIS {
            SyncDecision::RetryAfter(*d)
        } else if date == today {
            SyncDecision::SkipToday
        } else {
            SyncDecision::Pause(*d)
        },
        DayFetch::Failed(_) => SyncDecision::Fail,
    }
}

/// Today's usage is still growing; earlier days are complete.
pub fn lookup_kind(date: i32, today: i32) -> (r: AmpRequestKind)
    ensures
        r == if date == today {
            AmpRequestKind::Current
        } else {
            AmpRequestKind::Historical
        },
{
    if date == today {
        AmpRequestKind::Current
    } else {
        AmpRequestKind::Historical
    }
}

/// Some bucket of the history is for `date`.
pub open spec fn is_cached(activity: AmpActivityUsage, date: int) -> bool {
    exists|i: int|
        0 <= i < activity.daily_usage_buckets@.len() && (#[trigger] activity.daily_usage_buckets@[i]).date@
            == date_text(date, "%Y-%m-%d"@)
}

/// A day needs a lookup unless it is complete (before today) and already cached.
pub open spec fn needs_lookup(activity: AmpActivityUsage, date: int, today: int) -> bool {
    !(date < today && is_cached(activity, date))
}

fn cached(activity: &AmpActivityUsage, date: i32) -> (r: bool)
    requires
        valid_day(date as int),
    ensures
        r == is_cached(*activity, date as int),
{
    let text = match format_date(date, "%Y-%m-%d") {
        Some(t) => t,
        None => return false,
    };
    let buckets = &activity.daily_usage_buckets;
    let mut k: usize = 0;
    while k < buckets.len()
        invariant
            k <= buckets.len(),
            buckets@ == activity.daily_usage_buckets@,
            text@ == date_text(date as int, "%Y-%m-%d"@),
            forall|i: int| 0 <= i < k ==> (#[trigger] buckets@[i]).date@ != text@,
        decreases buckets.len() - k,
    {
        if str_eq(buckets[k].date.as_str(), text.as_str()) {
            assert(activity.daily_usage_buckets@[k as int].date@ == date_text(date as int, "%Y-%m-%d"@));
            return true;
        }
        k = k + 1;
    }
    assert(!is_cached(*activity, date as int)) by {
        if is_cached(*activity, date as int) {
            let i = choose|i: int|
                0 <= i < activity.daily_usage_buckets@.len() && (#[trigger] activity.daily_usage_buckets@[i]).date@
                    == date_text(date as int, "%Y-%m-%d"@);
            assert(buckets@[i].date@ != text@);
        }
    }
    false
}

/// One pass over the days the calendar needs, newest first; `next` is the position
/// of the next day to consider.
pub struct SyncPass {
    pub dates: Vec<i32>,
    pub next: usize,
    pub today: i32,
}

impl SyncPass {
    /// The pass is well formed: its days are dates chrono can represent.
    pub open spec fn wf(self) -> bool {
        &&& valid_day(self.today as int)
        &&& self.next <= self.dates@.len()
        &&& forall|i: int| 0 <= i < self.dates@.len() ==> valid_day(#[trigger] self.dates@[i] as int)
    }
}

/// A pass on `today` over `history_days` days (at least a week).
pub fn start_pass(today: i32, history_days: usize) -> (r: SyncPass)
    requires
        valid_day(today as int),
    ensures
        r.wf(),
        r.today == today,
        r.next == 0,
        r.dates@ == lookup_days(
            today as int,
            if history_days < MIN_HISTORY_DAYS {
                MIN_HISTORY_DAYS as int
            } else {
                history_days as int
            },
        ),
{
    let days = if history_days < MIN_HISTORY_DAYS {
        MIN_HISTORY_DAYS
    } else {
        history_days
    };
    let dates = activity_dates(today, days);
    proof {
        assert forall|i: int| 0 <= i < dates@.len() implies valid_day(#[trigger] dates@[i] as int) by {
            assert(dates@[i] == today - i);
        }
    }
    SyncPass { dates, next: 0, today }
}

/// The first position from `from` on whose day needs a lookup.
pub open spec fn next_needed(pass: SyncPass, activity: AmpActivityUsage, from: int) -> Option<int>
    decreases pass.dates@.len() - from,
{
    if from < 0 || from >= pass.dates@.len() {
        None
    } else if needs_lookup(activity, pass.dates@[from] as int, pass.today as int) {
        Some(from)
    } else {
        next_needed(pass, activity, from + 1)
    }
}

/// The next day of the pass to look up, skipping completed days already cached; the
/// pass moves past it. `None` once the pass is over.
pub fn next_lookup(pass: &mut SyncPass, activity: &AmpActivityUsage) -> (r: Option<i32>)
    requires
        old(pass).wf(),
    ensures
        final(pass).wf(),
        final(pass).dates == old(pass).dates,
        final(pass).today == old(pass).today,
        match next_needed(*old(pass), *activity, old(pass).next as int) {
            Some(i) => r == Some(old(pass).dates@[i]) && final(pass).next == i + 1,
            None => r is None && final(pass).next == old(pass).dates@.len(),
        },
{
    let ghost start = *pass;
    while pass.next < pass.dates.len()
        invariant
            start == *old(pass),
            pass.wf(),
            pass.dates == start.dates,
            pass.today == start.today,
            start.next <= pass.next,
            next_needed(start, *activity, start.next as int) == next_needed(start, *activity, pass.next as int),
        decreases pass.dates.len() - pass.next,
    {
        let date = pass.dates[pass.next];
        if !(date < pass.today && cached(activity, date)) {
            pass.next = pass.next + 1;
            return Some(date);
        }
        pass.next = pass.next + 1;
    }
    None
}

/// The history a pass covers: at least a week.
pub fn history_request_days(requested: usize) -> (r: usize)
    ensures
        r == if requested < MIN_HISTORY_DAYS {
            MIN_HISTORY_DAYS
        } else {
            requested
        },
{
    if requested < MIN_HISTORY_DAYS {
        MIN_HISTORY_DAYS
    } else {
        requested
    }
}

/// A wider calendar appeared during the pass: start the next pass at once instead of
/// sleeping.
pub fn restart_at_once(current_history_days: usize, pass_history_days: usize) -> (r: bool)
    ensures
        r == (current_history_days > pass_history_days),
{
    current_history_days > pass_history_days
}

/// Completed days already cached are never looked up again: the next lookup of a
/// pass is a day that needs one, and every day passed over on the way is a
/// completed, cached day.
pub proof fn law_cached_days_are_not_looked_up_again(
    pass: SyncPass,
    activity: AmpActivityUsage,
    from: int,
)
    requires
        0 <= from,
    ensures
        next_needed(pass, activity, from) matches Some(i) ==> from <= i < pass.dates@.len()
            && needs_lookup(activity, pass.dates@[i] as int, pass.today as int),
        forall|j: int|
            from <= j < pass.dates@.len() && (next_needed(pass, activity, from) is None || j
                < next_needed(pass, activity, from).unwrap()) ==> !needs_lookup(
                activity,
                #[trigger] pass.dates@[j] as int,
                pass.today as int,
            ),
    decreases pass.dates@.len() - from,
{
    if from < pass.dates@.len() && !needs_lookup(activity, pass.dates@[from] as int, pass.today as int) {
        law_cached_days_are_not_looked_up_again(pass, activity, from + 1);
    }
}

} // verus!
