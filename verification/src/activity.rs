//! The token-activity calendar: how many weeks fit, which days it shows, the
//! quartile intensity levels, and the period totals.
//!
//! Days are numbered as in `dates`.

use vstd::prelude::*;
use vstd::relations::{sorted_by, total_ordering};
use crate::dates::{days_from_sunday, weekday_from_sunday};
use crate::text::{dec, u64_to_string};

verus! {

broadcast use vstd::seq_lib::group_to_multiset_ensures;

/// The narrowest gutter that holds the weekday labels.
pub const ACTIVITY_MIN_GUTTER_WIDTH: usize = 5;

/// The weekday gutter: 5 columns, or 6 when that leaves an odd width for the grid.
pub open spec fn gutter_width(width: int) -> int {
    ACTIVITY_MIN_GUTTER_WIDTH + if width % 2 == 1 {
        1int
    } else {
        0int
    }
}

pub fn activity_gutter_width(width: usize) -> (r: usize)
    ensures
        r == gutter_width(width as int),
{
    ACTIVITY_MIN_GUTTER_WIDTH + if width % 2 == ACTIVITY_MIN_GUTTER_WIDTH % 2 {
        1
    } else {
        0
    }
}

/// Whole weeks (one column and one gap each, the last gap spared) that fit beside
/// the gutter.
pub open spec fn week_capacity(width: int) -> int {
    let rest = if width > gutter_width(width) {
        width - gutter_width(width)
    } else {
        0
    };
    (rest + 1) / 2
}

pub fn activity_week_capacity(width: usize) -> (r: usize)
    ensures
        r == week_capacity(width as int),
{
    let rest = width.saturating_sub(activity_gutter_width(width));
    rest / 2 + rest % 2
}

/// How many days of Amp history the visible grid needs: the full weeks before the
/// current one and the current week up to today. Below 50 columns the panel is the
/// whole width, else half of it beside a 2-column gap.
pub open spec fn history_days(dashboard_width: int, utc_today: int) -> int {
    let weeks = week_capacity(panel_width(dashboard_width));
    let full = if weeks > 0 {
        weeks - 1
    } else {
        0
    };
    sat_usize(sat_usize(full * 7) + weekday_from_sunday(utc_today) + 1)
}

/// The width of one activity panel: the whole dashboard below 50 columns, else
/// half of it (rounded up) beside a 2-column gap.
pub open spec fn panel_width(dashboard_width: int) -> int {
    if dashboard_width < 50 {
        dashboard_width
    } else {
        (dashboard_width - 2 + 1) / 2
    }
}

/// The calendar grid fills its panel: the gutter, one column per week and a gap
/// between weeks take exactly the width, whenever a week fits.
pub proof fn law_calendar_fills_the_width(width: int)
    requires
        width >= 0,
        week_capacity(width) > 0,
    ensures
        gutter_width(width) + week_capacity(width) * 2 - 1 == width,
{
}

/// `x`, capped at the largest `usize`.
pub open spec fn sat_usize(x: int) -> int {
    if x > usize::MAX as int {
        usize::MAX as int
    } else {
        x
    }
}

pub fn amp_activity_history_days(dashboard_width: usize, utc_today: i32) -> (r: usize)
    ensures
        r == history_days(dashboard_width as int, utc_today as int),
{
    let panel = if dashboard_width < 50 {
        dashboard_width
    } else {
        (dashboard_width - 2) / 2 + (dashboard_width - 2) % 2
    };
    let weeks = activity_week_capacity(panel);
    let full = weeks.saturating_sub(1);
    let days = if full > usize::MAX / 7 {
        usize::MAX
    } else {
        full * 7
    };
    days.saturating_add(days_from_sunday(utc_today) as usize + 1)
}

/// The intensity level (1 to 4) of a day's tokens against the quartiles.
pub open spec fn intensity(tokens: u64, q: [u64; 3]) -> usize {
    if tokens <= q[0] {
        1
    } else if tokens <= q[1] {
        2
    } else if tokens <= q[2] {
        3
    } else {
        4
    }
}

pub fn activity_intensity(tokens: u64, quartiles: [u64; 3]) -> (r: usize)
    ensures
        r == intensity(tokens, quartiles),
        1 <= r <= 4,
{
    if tokens <= quartiles[0] {
        1
    } else if tokens <= quartiles[1] {
        2
    } else if tokens <= quartiles[2] {
        3
    } else {
        4
    }
}

pub open spec fn u64_leq() -> spec_fn(u64, u64) -> bool {
    |a: u64, b: u64| a <= b
}

/// The values in ascending order.
pub open spec fn sorted_values(values: Seq<u64>) -> Seq<u64> {
    values.sort_by(u64_leq())
}

/// The lower quartile, median and upper quartile of `values`: the elements at
/// positions `last / 4`, `last / 2` and `3 * last / 4` of the sorted values, where
/// `last` is the last position; all zero when there are no values.
pub open spec fn quartiles(values: Seq<u64>) -> [u64; 3] {
    if values.len() == 0 {
        [0, 0, 0]
    } else {
        let s = sorted_values(values);
        let last = values.len() - 1;
        [s[last / 4], s[last / 2], s[last * 3 / 4]]
    }
}

proof fn lemma_u64_leq_total()
    ensures
        total_ordering(u64_leq()),
{
}

/// `values` in ascending order.
pub fn sort_values(values: &[u64]) -> (r: Vec<u64>)
    ensures
        r@ == sorted_values(values@),
{
    let mut res: Vec<u64> = Vec::new();
    let mut i: usize = 0;
    while i < values.len()
        invariant
            i <= values.len(),
            sorted_by(res@, u64_leq()),
            res@.to_multiset() == values@.take(i as int).to_multiset(),
        decreases values.len() - i,
    {
        let x = values[i];
        let mut k: usize = 0;
        while k < res.len() && res[k] <= x
            invariant
                k <= res.len(),
                forall|j: int| 0 <= j < k ==> res@[j] <= x,
            decreases res.len() - k,
        {
            k = k + 1;
        }
        assert(k == res.len() || res@[k as int] > x);
        let ghost before = res@;
        res.insert(k, x);
        proof {
            assert(res@ == before.insert(k as int, x));
            assert forall|a: int, b: int| 0 <= a < b < res@.len() implies #[trigger] (u64_leq())(
                res@[a],
                res@[b],
            ) by {
                if a != k && b != k {
                    let a2 = if a < k {
                        a
                    } else {
                        a - 1
                    };
                    let b2 = if b < k {
                        b
                    } else {
                        b - 1
                    };
                    assert((u64_leq())(before[a2], before[b2]));
                } else if b == k {
                    assert(before[a] <= x);
                } else {
                    assert(before[k as int] > x);
                    if b - 1 > k {
                        assert((u64_leq())(before[k as int], before[b - 1]));
                    }
                }
            }
            assert(values@.take(i + 1) =~= values@.take(i as int).push(x));
            vstd::seq_lib::to_multiset_build(values@.take(i as int), x);
            vstd::seq_lib::to_multiset_insert(before, k as int, x);
        }
        i = i + 1;
    }
    proof {
        assert(values@.take(values@.len() as int) =~= values@);
        lemma_u64_leq_total();
        values@.lemma_sort_by_ensures(u64_leq());
        vstd::seq_lib::lemma_sorted_unique(res@, sorted_values(values@), u64_leq());
    }
    res
}

/// The quartiles of some values are in order and are among the values, and they
/// depend only on which values there are, not on their order.
pub proof fn law_quartiles_are_ordered_members(values: Seq<u64>, other: Seq<u64>)
    ensures
        values.len() > 0 ==> quartiles(values)[0] <= quartiles(values)[1] <= quartiles(values)[2],
        values.len() > 0 ==> forall|k: int| 0 <= k < 3 ==> values.contains(#[trigger] quartiles(values)[k]),
        values.to_multiset() == other.to_multiset() ==> quartiles(values) == quartiles(other),
{
    broadcast use vstd::seq_lib::group_to_multiset_ensures;

    lemma_u64_leq_total();
    values.lemma_sort_by_ensures(u64_leq());
    other.lemma_sort_by_ensures(u64_leq());
    let s = sorted_values(values);
    vstd::seq_lib::to_multiset_len(values);
    vstd::seq_lib::to_multiset_len(s);
    if values.len() > 0 {
        let last = values.len() - 1;
        assert(last / 4 <= last / 2 <= last * 3 / 4 <= last) by (nonlinear_arith)
            requires
                last >= 0,
        ;
        if last / 4 < last / 2 {
            assert((u64_leq())(s[last / 4], s[last / 2]));
        }
        if last / 2 < last * 3 / 4 {
            assert((u64_leq())(s[last / 2], s[last * 3 / 4]));
        }
        assert forall|k: int| 0 <= k < 3 implies values.contains(#[trigger] quartiles(values)[k]) by {
            let i = if k == 0 {
                last / 4
            } else if k == 1 {
                last / 2
            } else {
                last * 3 / 4
            };
            assert(quartiles(values)[k] == s[i]);
            assert(s.contains(s[i]));
            assert(s.to_multiset().count(s[i]) > 0);
        }
    }
    if values.to_multiset() == other.to_multiset() {
        vstd::seq_lib::lemma_sorted_unique(s, sorted_values(other), u64_leq());
    }
}

/// The quartiles of the visible non-zero day totals.
pub fn activity_quartiles(values: &[u64]) -> (r: [u64; 3])
    ensures
        r == quartiles(values@),
{
    if values.len() == 0 {
        return [0, 0, 0];
    }
    let sorted = sort_values(values);
    proof {
        lemma_u64_leq_total();
        values@.lemma_sort_by_ensures(u64_leq());
        vstd::seq_lib::to_multiset_len(values@);
        vstd::seq_lib::to_multiset_len(sorted@);
    }
    let last = values.len() - 1;
    let upper = last / 4 * 3 + last % 4 * 3 / 4;
    assert(upper == last * 3 / 4 && upper <= last) by (nonlinear_arith)
        requires
            upper == last / 4 * 3 + last % 4 * 3 / 4,
            last >= 0,
    ;
    [sorted[last / 4], sorted[last / 2], sorted[upper]]
}

/// A whole number of minutes as minutes (`45m`), whole hours (`2h`) or both
/// (`1h 5m`).
pub open spec fn minutes_text(m: nat) -> Seq<char> {
    if m < 60 {
        dec(m) + "m"@
    } else if m % 60 == 0 {
        dec(m / 60) + "h"@
    } else {
        dec(m / 60) + "h "@ + dec(m % 60) + "m"@
    }
}

pub fn minutes_label(minutes: u64) -> (r: String)
    ensures
        r@ == minutes_text(minutes as nat),
{
    if minutes < 60 {
        let mut s = u64_to_string(minutes);
        s.append("m");
        s
    } else if minutes % 60 == 0 {
        let mut s = u64_to_string(minutes / 60);
        s.append("h");
        s
    } else {
        let mut s = u64_to_string(minutes / 60);
        s.append("h ");
        let rest = u64_to_string(minutes % 60);
        s.append(rest.as_str());
        s.append("m");
        s
    }
}

/// How long a sync still takes: the seconds rounded up to whole minutes.
pub open spec fn eta_text(seconds: nat) -> Seq<char> {
    minutes_text((seconds + 59) / 60)
}

pub fn sync_eta(seconds: u64) -> (r: String)
    ensures
        r@ == eta_text(seconds as nat),
{
    let minutes = seconds / 60 + if seconds % 60 == 0 {
        0
    } else {
        1
    };
    minutes_label(minutes)
}

/// A runtime in milliseconds as whole hours and minutes (`1h1m`), or minutes
/// alone under an hour (`59m`); seconds are dropped.
pub open spec fn duration_text(millis: nat) -> Seq<char> {
    let minutes = millis / 60_000;
    let hours = minutes / 60;
    if hours > 0 {
        dec(hours) + "h"@ + dec(minutes % 60) + "m"@
    } else {
        dec(minutes) + "m"@
    }
}

pub fn compact_duration(millis: u64) -> (r: String)
    ensures
        r@ == duration_text(millis as nat),
{
    let minutes = millis / 60_000;
    let hours = minutes / 60;
    if hours > 0 {
        let mut s = u64_to_string(hours);
        s.append("h");
        let rest = u64_to_string(minutes % 60);
        s.append(rest.as_str());
        s.append("m");
        s
    } else {
        let mut s = u64_to_string(minutes);
        s.append("m");
        s
    }
}

} // verus!
