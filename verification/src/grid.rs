//! What the activity calendar shows: one mark per day in a grid of weekday rows and
//! week columns, the month names above the weeks where a month starts, the last
//! seven days with their totals, and the overview columns.

use vstd::prelude::*;
use crate::activity::{activity_intensity, intensity};
use crate::calendar::{period_tokens, activity_period_tokens, range_total, ActivityCalendar, CodexActivitySummary};
use crate::dates::{
    fits_forward, add_days_or, date_text, day_of_month, format_date, month_day, shifted_or, sub_days_or,
    valid_day,
};
use crate::layout::{column_width, equal_column_widths, fixed, fixed_text};
use crate::text::{chars_of, spaces, string_of, utf8_len, utf8_len_of};

verus! {

/// The total recorded for `d` (the first entry for it), 0 when there is none.
pub open spec fn tokens_on(s: Seq<(i32, u64)>, d: int) -> u64
    decreases s.len(),
{
    if s.len() == 0 {
        0
    } else if s[0].0 == d {
        s[0].1
    } else {
        tokens_on(s.skip(1), d)
    }
}

pub fn lookup_tokens(s: &[(i32, u64)], d: i32) -> (r: u64)
    ensures
        r == tokens_on(s@, d as int),
{
    let mut k: usize = 0;
    assert(s@.skip(0) =~= s@);
    while k < s.len()
        invariant
            k <= s.len(),
            tokens_on(s@, d as int) == tokens_on(s@.skip(k as int), d as int),
        decreases s.len() - k,
    {
        assert(s@.skip(k as int)[0] == s@[k as int]);
        assert(s@.skip(k as int).skip(1) =~= s@.skip(k + 1));
        if s[k].0 == d {
            return s[k].1;
        }
        k = k + 1;
    }
    0
}

/// The mark of one day of the grid.
#[derive(Clone, Copy, Debug, PartialEq, Eq, Structural)]
pub enum DayMark {
    /// A day after today.
    Blank,
    /// A day without tokens.
    Quiet,
    /// A day with tokens, at an intensity level from 1 to 4.
    Active(usize),
}

/// The day shown in week column `week` and weekday row `day` (today where chrono
/// has no such date).
pub open spec fn cell_date(c: ActivityCalendar, week: int, day: int) -> int {
    shifted_or(c.start_week as int, week * 7 + day, c.utc_today as int)
}

pub open spec fn mark_of(c: ActivityCalendar, week: int, day: int) -> DayMark {
    let date = cell_date(c, week, day);
    if date > c.utc_today {
        DayMark::Blank
    } else {
        let t = tokens_on(c.tokens_by_date@, date);
        if t == 0 {
            DayMark::Quiet
        } else {
            DayMark::Active(intensity(t, c.quartiles))
        }
    }
}

/// The weekday names of the grid rows, Sunday first.
pub open spec fn weekday_label(day: int) -> Seq<char> {
    if day == 0 {
        "Sun"@
    } else if day == 1 {
        "Mon"@
    } else if day == 2 {
        "Tue"@
    } else if day == 3 {
        "Wed"@
    } else if day == 4 {
        "Thu"@
    } else if day == 5 {
        "Fri"@
    } else {
        "Sat"@
    }
}

pub fn weekday_name(day: usize) -> (r: &'static str)
    requires
        day < 7,
    ensures
        r@ == weekday_label(day as int),
{
    if day == 0 {
        "Sun"
    } else if day == 1 {
        "Mon"
    } else if day == 2 {
        "Tue"
    } else if day == 3 {
        "Wed"
    } else if day == 4 {
        "Thu"
    } else if day == 5 {
        "Fri"
    } else {
        "Sat"
    }
}

/// The marks of the grid: seven weekday rows, Sunday first, of one mark per week.
pub fn calendar_marks(c: &ActivityCalendar) -> (r: Vec<Vec<DayMark>>)
    requires
        valid_day(c.start_week as int),
        c.weeks <= usize::MAX / 7,
    ensures
        r@.len() == 7,
        forall|d: int| 0 <= d < 7 ==> (#[trigger] r@[d])@.len() == c.weeks,
        forall|d: int, w: int| 0 <= d < 7 && 0 <= w < c.weeks ==> #[trigger] r@[d]@[w] == mark_of(*c, w, d),
{
    let mut rows: Vec<Vec<DayMark>> = Vec::new();
    let mut d: usize = 0;
    while d < 7
        invariant
            d <= 7,
            valid_day(c.start_week as int),
            c.weeks <= usize::MAX / 7,
            rows@.len() == d,
            forall|i: int| 0 <= i < d ==> (#[trigger] rows@[i])@.len() == c.weeks,
            forall|i: int, w: int| 0 <= i < d && 0 <= w < c.weeks ==> #[trigger] rows@[i]@[w] == mark_of(*c, w, i),
        decreases 7 - d,
    {
        let mut row: Vec<DayMark> = Vec::new();
        let mut w: usize = 0;
        while w < c.weeks
            invariant
                w <= c.weeks,
                d < 7,
                valid_day(c.start_week as int),
                c.weeks <= usize::MAX / 7,
                row@.len() == w,
                forall|j: int| 0 <= j < w ==> #[trigger] row@[j] == mark_of(*c, j, d as int),
            decreases c.weeks - w,
        {
            let date = add_days_or(c.start_week, (w * 7 + d) as u64, c.utc_today);
            let mark = if date > c.utc_today {
                DayMark::Blank
            } else {
                let t = lookup_tokens(c.tokens_by_date.as_slice(), date);
                if t == 0 {
                    DayMark::Quiet
                } else {
                    DayMark::Active(activity_intensity(t, c.quartiles))
                }
            };
            row.push(mark);
            w = w + 1;
        }
        rows.push(row);
        d = d + 1;
    }
    rows
}

/// The first day of a month among the seven days from `ws + offset` on that lie
/// between `lo` and `hi`.
pub open spec fn month_start_in_week(ws: int, lo: int, hi: int, offset: int) -> Option<int>
    decreases 7 - offset,
{
    if offset < 0 || offset >= 7 {
        None
    } else {
        let d = ws + offset;
        if valid_day(d) && lo <= d <= hi && month_day(d) == 1 {
            Some(d)
        } else {
            month_start_in_week(ws, lo, hi, offset + 1)
        }
    }
}

/// `text` with `label` written over it from position `x`.
pub open spec fn overlay(text: Seq<char>, x: int, label: Seq<char>) -> Seq<char> {
    Seq::new(text.len(), |i: int| if x <= i < x + label.len() { label[i - x] } else { text[i] })
}

/// The label line after week `week` is considered: the week is labelled with its
/// month when it is the first week or a month starts in its visible days; a label
/// that would run past the grid or touch the previous one is left out. `last` is
/// where the previous label ended, in bytes.
pub open spec fn label_step(c: ActivityCalendar, week: int, text: Seq<char>, last: Option<int>) -> (
    Seq<char>,
    Option<int>,
) {
    let ws = shifted_or(c.start_week as int, week * 7, c.start_week as int);
    let we0 = shifted_or(ws, 6, ws);
    let we = if we0 <= c.utc_today {
        we0
    } else {
        c.utc_today as int
    };
    if ws > we {
        (text, last)
    } else {
        let label_day = if week == 0 {
            Some(ws)
        } else {
            month_start_in_week(ws, ws, we, 0)
        };
        match label_day {
            None => (text, last),
            Some(d) => {
                let label = date_text(d, "%b"@);
                let x = week * 2;
                if x + label.len() > text.len() || (last is Some && x <= last.unwrap()) {
                    (text, last)
                } else {
                    (overlay(text, x, label), Some(x + utf8_len(label)))
                }
            },
        }
    }
}

/// The label line after the first `n` weeks, with the end of the last label.
pub open spec fn labels_after(c: ActivityCalendar, n: int) -> (Seq<char>, Option<int>)
    decreases n,
{
    if n <= 0 {
        (spaces((c.weeks * 2 - 1) as nat), None)
    } else {
        let (text, last) = labels_after(c, n - 1);
        label_step(c, n - 1, text, last)
    }
}

/// The month names above the weeks.
pub open spec fn month_labels(c: ActivityCalendar) -> Seq<char> {
    labels_after(c, c.weeks as int).0
}

proof fn lemma_month_start_valid(ws: int, lo: int, hi: int, offset: int)
    ensures
        month_start_in_week(ws, lo, hi, offset) matches Some(d) ==> valid_day(d) && lo <= d <= hi,
    decreases 7 - offset,
{
    if 0 <= offset < 7 {
        lemma_month_start_valid(ws, lo, hi, offset + 1);
    }
}

fn month_start(ws: i32, lo: i32, hi: i32) -> (r: Option<i32>)
    requires
        valid_day(ws as int),
    ensures
        r == match month_start_in_week(ws as int, lo as int, hi as int, 0) {
            Some(d) => Some(d as i32),
            None => None::<i32>,
        },
        r matches Some(d) ==> valid_day(d as int),
{
    proof {
        lemma_month_start_valid(ws as int, lo as int, hi as int, 0);
    }
    let mut offset: u64 = 0;
    while offset < 7
        invariant
            offset <= 7,
            valid_day(ws as int),
            month_start_in_week(ws as int, lo as int, hi as int, 0) == month_start_in_week(
                ws as int,
                lo as int,
                hi as int,
                offset as int,
            ),
        decreases 7 - offset,
    {
        if fits_forward(ws, offset) {
            let d = add_days_or(ws, offset, ws);
            if lo <= d && d <= hi {
                match day_of_month(d) {
                    Some(m) => {
                        if m == 1 {
                            return Some(d);
                        }
                    },
                    None => {},
                }
            }
        }
        offset = offset + 1;
    }
    None
}

pub fn activity_month_labels(c: &ActivityCalendar) -> (r: String)
    requires
        valid_day(c.start_week as int),
        valid_day(c.utc_today as int),
        1 <= c.weeks <= usize::MAX / 7,
    ensures
        r@ == month_labels(*c),
        r@.len() == c.weeks * 2 - 1,
{
    let grid_width = c.weeks * 2 - 1;
    let mut text: Vec<char> = Vec::new();
    crate::text::push_spaces(&mut text, grid_width);
    assert(text@ =~= spaces(grid_width as nat));
    let mut last: Option<u128> = None;
    let mut week: usize = 0;
    while week < c.weeks
        invariant
            week <= c.weeks,
            valid_day(c.start_week as int),
            valid_day(c.utc_today as int),
            1 <= c.weeks <= usize::MAX / 7,
            grid_width == c.weeks * 2 - 1,
            text@ == labels_after(*c, week as int).0,
            text@.len() == grid_width,
            labels_after(*c, week as int).1 == match last {
                Some(e) => Some(e as int),
                None => None,
            },
        decreases c.weeks - week,
    {
        let ghost prev = labels_after(*c, week as int);
        let ghost old_text = text@;
        let ghost old_last: Option<int> = match last {
            Some(e) => Some(e as int),
            None => None,
        };
        assert(prev.0 == old_text);
        assert(prev.1 == old_last);
        let ws = add_days_or(c.start_week, (week * 7) as u64, c.start_week);
        assert(((week * 7) as u64) as int == week * 7);
        let we0 = add_days_or(ws, 6, ws);
        let we = if we0 <= c.utc_today {
            we0
        } else {
            c.utc_today
        };
        assert(ws == shifted_or(c.start_week as int, week * 7, c.start_week as int));
        assert(we0 == shifted_or(ws as int, 6, ws as int));
        if ws <= we {
            let label_day = if week == 0 {
                Some(ws)
            } else {
                month_start(ws, ws, we)
            };
            assert(label_day == match (if week == 0 {
                Some(ws as int)
            } else {
                month_start_in_week(ws as int, ws as int, we as int, 0)
            }) {
                Some(v) => Some(v as i32),
                None => None::<i32>,
            });
            if let Some(d) = label_day {
                assert(valid_day(d as int));
                proof {
                    lemma_month_start_valid(ws as int, ws as int, we as int, 0);
                    let spec_ld = if week == 0 {
                        Some(ws as int)
                    } else {
                        month_start_in_week(ws as int, ws as int, we as int, 0)
                    };
                    assert(spec_ld matches Some(v) && valid_day(v));
                    assert(spec_ld == Some(d as int));
                }
                if let Some(label) = format_date(d, "%b") {
                    let chars = chars_of(label.as_str());
                    let x = week * 2;
                    let fits = x <= grid_width && chars.len() <= grid_width - x;
                    let apart = match last {
                        Some(e) => (x as u128) > e,
                        None => true,
                    };
                    if fits && apart {
                        let ghost before = text@;
                        let mut i: usize = 0;
                        while i < chars.len()
                            invariant
                                i <= chars@.len(),
                                x + chars@.len() <= grid_width,
                                text@.len() == grid_width,
                                forall|j: int| 0 <= j < grid_width ==> #[trigger] text@[j] == if x <= j < x + i {
                                    chars@[j - x]
                                } else {
                                    before[j]
                                },
                            decreases chars.len() - i,
                        {
                            text.set(x + i, chars[i]);
                            i = i + 1;
                        }
                        assert(text@ =~= overlay(before, x as int, chars@));
                        let width = utf8_len_of(chars.as_slice());
                        last = Some(x as u128 + width);
                        proof {
                            let label_spec = date_text(d as int, "%b"@);
                            assert(chars@ == label_spec);
                            assert(before == old_text);
                            assert(!(x + label_spec.len() > old_text.len()));
                            assert(!(old_last is Some && x <= old_last.unwrap()));
                            assert(text@ == overlay(old_text, x as int, label_spec));
                            assert(text@ == label_step(*c, week as int, old_text, old_last).0);
                        }
                    }
                }
            }
        }
        proof {
            let step = label_step(*c, week as int, old_text, old_last);
            assert(labels_after(*c, week + 1) == step);
            assert(text@ == step.0);
            assert(step.1 == match last {
                Some(e) => Some(e as int),
                None => None,
            });
        }
        week = week + 1;
    }
    string_of(text.as_slice())
}

/// One of the last seven days: its date, its `day/month` label fitted to the cell,
/// its tokens, its intensity level (0 without tokens) and the cell width.
#[derive(Clone, Debug)]
pub struct DailyCell {
    pub date: i32,
    pub label: String,
    pub tokens: u64,
    pub level: usize,
    pub width: usize,
}

/// One column between the cells of the daily row once it is wide enough.
pub open spec fn daily_gap(width: int) -> int {
    if width >= 13 {
        1
    } else {
        0
    }
}

/// The first of the seven days that end with the latest day with data.
pub open spec fn daily_first(c: ActivityCalendar) -> int {
    shifted_or(c.latest_date as int, -6, c.latest_date as int)
}

/// The day of cell `i`.
pub open spec fn daily_date(c: ActivityCalendar, i: int) -> int {
    shifted_or(daily_first(c), i, daily_first(c))
}

/// The cells of the daily row: the seven days up to the latest day with data, in
/// equal columns; none below seven columns.
pub fn activity_daily_cells(c: &ActivityCalendar, width: usize) -> (r: Vec<DailyCell>)
    requires
        valid_day(c.latest_date as int),
    ensures
        width < 7 ==> r@.len() == 0,
        width >= 7 ==> r@.len() == 7,
        forall|i: int|
            0 <= i < r@.len() ==> {
                let cell = #[trigger] r@[i];
                let date = daily_date(*c, i);
                let cw = column_width((width - daily_gap(width as int) * 6) as int, 7, i);
                &&& cell.date == date
                &&& cell.width == cw
                &&& cell.label@ == fixed_text(date_text(date, "%-d/%-m"@), cw as nat)
                &&& cell.tokens == tokens_on(c.tokens_by_date@, date)
                &&& cell.level == if cell.tokens == 0 {
                    0
                } else {
                    intensity(cell.tokens, c.quartiles) as int
                }
            },
{
    let mut cells: Vec<DailyCell> = Vec::new();
    if width < 7 {
        return cells;
    }
    let gap: usize = if width >= 13 {
        1
    } else {
        0
    };
    let widths = equal_column_widths(width - gap * 6, 7);
    let first = sub_days_or(c.latest_date, 6, c.latest_date);
    let mut i: usize = 0;
    while i < 7
        invariant
            i <= 7,
            width >= 7,
            gap == daily_gap(width as int),
            widths@.len() == 7,
            forall|k: int| 0 <= k < 7 ==> widths@[k] == column_width((width - gap * 6) as int, 7, k),
            first == daily_first(*c),
            valid_day(first as int),
            cells@.len() == i,
            forall|k: int|
                0 <= k < i ==> {
                    let cell = #[trigger] cells@[k];
                    let date = daily_date(*c, k);
                    let cw = column_width((width - daily_gap(width as int) * 6) as int, 7, k);
                    &&& cell.date == date
                    &&& cell.width == cw
                    &&& cell.label@ == fixed_text(date_text(date, "%-d/%-m"@), cw as nat)
                    &&& cell.tokens == tokens_on(c.tokens_by_date@, date)
                    &&& cell.level == if cell.tokens == 0 {
                        0
                    } else {
                        intensity(cell.tokens, c.quartiles) as int
                    }
                },
        decreases 7 - i,
    {
        let date = add_days_or(first, i as u64, first);
        let cw = widths[i];
        let text = match format_date(date, "%-d/%-m") {
            Some(t) => t,
            None => String::new(),
        };
        let label = fixed(text.as_str(), cw);
        let tokens = lookup_tokens(c.tokens_by_date.as_slice(), date);
        let level = if tokens == 0 {
            0
        } else {
            activity_intensity(tokens, c.quartiles)
        };
        cells.push(DailyCell { date, label, tokens, level, width: cw });
        i = i + 1;
    }
    cells
}

/// What an overview column shows: a token total or a number of days.
#[derive(Clone, Copy, Debug, PartialEq, Eq, Structural)]
pub enum OverviewValue {
    Tokens(u64),
    Days(u64),
}

/// The overview statistics, in order: the last 7 and 30 days, then whichever of the
/// lifetime total, the peak day, the current and the longest streak the summary
/// has.
pub open spec fn overview_stats(c: ActivityCalendar) -> Seq<(Seq<char>, OverviewValue)> {
    let base = seq![
        ("7D"@, OverviewValue::Tokens(period_tokens(c, 7) as u64)),
        ("30D"@, OverviewValue::Tokens(period_tokens(c, 30) as u64)),
    ];
    match c.summary {
        None => base,
        Some(s) => {
            let a = match s.lifetime_tokens {
                Some(t) => base.push(("Total"@, OverviewValue::Tokens(t))),
                None => base,
            };
            let b = match s.peak_daily_tokens {
                Some(t) => a.push(("Peak"@, OverviewValue::Tokens(t))),
                None => a,
            };
            let d = match s.current_streak_days {
                Some(t) => b.push(("Streak"@, OverviewValue::Days(t))),
                None => b,
            };
            match s.longest_streak_days {
                Some(t) => d.push(("Best"@, OverviewValue::Days(t))),
                None => d,
            }
        },
    }
}

/// The overview opens with the 7-day and 30-day totals: the first column, headed
/// `7D`, holds the tokens dated from six days before the latest day with data
/// through that day, and the second, headed `30D`, those from twenty-nine days
/// before it; each total stops at the largest `u64`.
pub proof fn law_overview_opens_with_the_week_and_month_totals(c: ActivityCalendar)
    requires
        valid_day(c.latest_date - 29),
        valid_day(c.latest_date as int),
    ensures
        ({
            let week = range_total(c.tokens_by_date@, c.latest_date - 6, c.latest_date as int);
            let month = range_total(c.tokens_by_date@, c.latest_date - 29, c.latest_date as int);
            &&& overview_stats(c).len() >= 2
            &&& overview_stats(c)[0] == ("7D"@, OverviewValue::Tokens(
                if week <= u64::MAX { week as u64 } else { u64::MAX },
            ))
            &&& overview_stats(c)[1] == ("30D"@, OverviewValue::Tokens(
                if month <= u64::MAX { month as u64 } else { u64::MAX },
            ))
        }),
{
    let base = seq![
        ("7D"@, OverviewValue::Tokens(period_tokens(c, 7) as u64)),
        ("30D"@, OverviewValue::Tokens(period_tokens(c, 30) as u64)),
    ];
    assert(valid_day(c.latest_date - 6));
    match c.summary {
        None => {},
        Some(s) => {
            let a = match s.lifetime_tokens {
                Some(t) => base.push(("Total"@, OverviewValue::Tokens(t))),
                None => base,
            };
            let b = match s.peak_daily_tokens {
                Some(t) => a.push(("Peak"@, OverviewValue::Tokens(t))),
                None => a,
            };
            let d = match s.current_streak_days {
                Some(t) => b.push(("Streak"@, OverviewValue::Days(t))),
                None => b,
            };
            assert(a.len() >= 2 && a[0] == base[0] && a[1] == base[1]);
            assert(b.len() >= 2 && b[0] == base[0] && b[1] == base[1]);
            assert(d.len() >= 2 && d[0] == base[0] && d[1] == base[1]);
        },
    }
}

/// One overview column: its heading, its value and its width.
#[derive(Clone, Debug)]
pub struct OverviewColumn {
    pub heading: &'static str,
    pub value: OverviewValue,
    pub width: usize,
}

/// The gap between overview columns: one column when the width allows one per gap.
pub open spec fn overview_gap(width: int, n: int) -> int {
    if width >= n * 2 - 1 {
        1
    } else {
        0
    }
}

/// The overview columns and the gap between them: the statistics in equal columns
/// across the width.
pub fn activity_overview_columns(c: &ActivityCalendar, width: usize) -> (r: (Vec<OverviewColumn>, usize))
    requires
        valid_day(c.latest_date as int),
    ensures
        ({
            let stats = overview_stats(*c);
            let n = stats.len() as int;
            let gap = overview_gap(width as int, n);
            let inner = if width >= gap * (n - 1) {
                width - gap * (n - 1)
            } else {
                0
            };
            &&& r.1 == gap
            &&& r.0@.len() == n
            &&& forall|i: int|
                0 <= i < n ==> (#[trigger] r.0@[i]).heading@ == stats[i].0 && r.0@[i].value == stats[i].1
                    && r.0@[i].width == column_width(inner, n, i)
        }),
{
    let mut stats: Vec<(&'static str, OverviewValue)> = Vec::new();
    stats.push(("7D", OverviewValue::Tokens(activity_period_tokens(c, 7))));
    stats.push(("30D", OverviewValue::Tokens(activity_period_tokens(c, 30))));
    let ghost base = stats@;
    match c.summary {
        Some(s) => {
            if let Some(t) = s.lifetime_tokens {
                stats.push(("Total", OverviewValue::Tokens(t)));
            }
            if let Some(t) = s.peak_daily_tokens {
                stats.push(("Peak", OverviewValue::Tokens(t)));
            }
            if let Some(t) = s.current_streak_days {
                stats.push(("Streak", OverviewValue::Days(t)));
            }
            if let Some(t) = s.longest_streak_days {
                stats.push(("Best", OverviewValue::Days(t)));
            }
        },
        None => {},
    }
    let ghost spec_stats = overview_stats(*c);
    assert(stats@.len() == spec_stats.len());
    assert(forall|i: int| 0 <= i < stats@.len() ==> stats@[i].0@ == spec_stats[i].0 && stats@[i].1 == spec_stats[i].1);
    let n = stats.len();
    let gap: usize = if width >= n * 2 - 1 {
        1
    } else {
        0
    };
    let inner = width.saturating_sub(gap * (n - 1));
    let widths = equal_column_widths(inner, n);
    let mut cols: Vec<OverviewColumn> = Vec::new();
    let mut i: usize = 0;
    while i < n
        invariant
            i <= n,
            n == stats@.len(),
            2 <= n <= 6,
            widths@.len() == n,
            forall|k: int| 0 <= k < n ==> widths@[k] == column_width(inner as int, n as int, k),
            cols@.len() == i,
            forall|k: int|
                0 <= k < i ==> (#[trigger] cols@[k]).heading == stats@[k].0 && cols@[k].value
                    == stats@[k].1 && cols@[k].width == widths@[k],
        decreases n - i,
    {
        cols.push(OverviewColumn { heading: stats[i].0, value: stats[i].1, width: widths[i] });
        i = i + 1;
    }
    (cols, gap)
}

/// The daily row fills the width: its seven cells and the gaps between them take
/// exactly the width, once it is at least seven columns.
pub proof fn law_daily_row_fills_the_width(width: int)
    requires
        width >= 7,
    ensures
        crate::layout::columns_total(width - daily_gap(width) * 6, 7, 7) + daily_gap(width) * 6 == width,
{
    crate::layout::law_equal_columns_fill_the_width(width - daily_gap(width) * 6, 7);
}

} // verus!
