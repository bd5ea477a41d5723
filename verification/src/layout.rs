//! Column arithmetic and text fitting for the dashboard: equal columns, fixed and
//! centred cells, bar widths, word-wrapped alerts and compact reset labels.

use vstd::prelude::*;
use crate::dates::{add_days_or, add_months, format_date, date_text, months_later, valid_day};
use crate::text::{
    str_eq, chars_of, dec, parse_unsigned, parse_unsigned_chars, push_spaces, spaces, split_words,
    starts_with, string_of, strip_prefix_chars, words,
};

verus! {

/// The width of column `index` when `width` columns are split into `count`: the
/// quotient, one more for the first `width % count` columns.
pub open spec fn column_width(width: int, count: int, index: int) -> int {
    width / count + if index < width % count {
        1int
    } else {
        0int
    }
}

/// `width` columns split into `count` columns that differ by at most one, the wider
/// ones first.
pub fn equal_column_widths(width: usize, count: usize) -> (r: Vec<usize>)
    requires
        count > 0,
    ensures
        r@.len() == count,
        forall|i: int| 0 <= i < count ==> r@[i] == column_width(width as int, count as int, i),
{
    let base = width / count;
    let remainder = width % count;
    let mut r: Vec<usize> = Vec::new();
    let mut i: usize = 0;
    while i < count
        invariant
            i <= count,
            base == width / count,
            remainder == width % count,
            r@.len() == i,
            forall|j: int| 0 <= j < i ==> r@[j] == column_width(width as int, count as int, j),
        decreases count - i,
    {
        proof {
            assert(base * count + remainder == width) by (nonlinear_arith)
                requires
                    base == width / count,
                    remainder == width % count,
                    count > 0,
            ;
            if remainder > 0 {
                assert(base + 1 <= width) by (nonlinear_arith)
                    requires
                        base * count + remainder == width,
                        remainder > 0,
                        count > 0,
                ;
            }
        }
        r.push(
            base + if i < remainder {
                1
            } else {
                0
            },
        );
        i = i + 1;
    }
    r
}

/// The sum of the first `n` column widths.
pub open spec fn columns_total(width: int, count: int, n: int) -> int
    decreases n,
{
    if n <= 0 {
        0
    } else {
        columns_total(width, count, n - 1) + column_width(width, count, n - 1)
    }
}

proof fn lemma_columns_prefix(width: int, count: int, n: int)
    requires
        count > 0,
        width >= 0,
        0 <= n <= count,
    ensures
        columns_total(width, count, n) == n * (width / count) + if n < width % count {
            n
        } else {
            width % count
        },
    decreases n,
{
    if n > 0 {
        lemma_columns_prefix(width, count, n - 1);
        let q = width / count;
        let rem = width % count;
        assert((n - 1) * q + q == n * q) by (nonlinear_arith);
        assert(columns_total(width, count, n) == columns_total(width, count, n - 1) + column_width(
            width,
            count,
            n - 1,
        ));
        assert(column_width(width, count, n - 1) == q + if n - 1 < rem {
            1int
        } else {
            0int
        });
        assert(columns_total(width, count, n - 1) == (n - 1) * q + if n - 1 < rem {
            n - 1
        } else {
            rem
        });
        if n - 1 < rem {
            assert(columns_total(width, count, n) == n * q + n);
        } else {
            assert(columns_total(width, count, n) == n * q + rem);
        }
    } else {
        assert(0 * (width / count) == 0);
    }
}

/// Equal columns use the whole width: the widths of all `count` columns add up to
/// `width`.
pub proof fn law_equal_columns_fill_the_width(width: int, count: int)
    requires
        count > 0,
        width >= 0,
    ensures
        columns_total(width, count, count) == width,
{
    lemma_columns_prefix(width, count, count);
    assert(count * (width / count) + width % count == width) by (nonlinear_arith)
        requires
            count > 0,
    ;
}

/// `value` cut to `width` characters and padded with spaces to exactly `width`
/// (`format!("{:<width$}", ..)` of the first `width` characters).
pub open spec fn fixed_text(value: Seq<char>, width: nat) -> Seq<char> {
    if value.len() >= width {
        value.take(width as int)
    } else {
        value + spaces((width - value.len()) as nat)
    }
}

pub fn fixed(value: &str, width: usize) -> (r: String)
    ensures
        r@ == fixed_text(value@, width as nat),
        r@.len() == width,
{
    let v = chars_of(value);
    let mut out: Vec<char> = Vec::new();
    let keep = if v.len() < width {
        v.len()
    } else {
        width
    };
    let mut i: usize = 0;
    while i < keep
        invariant
            i <= keep <= v@.len(),
            v@ == value@,
            out@ == v@.take(i as int),
        decreases keep - i,
    {
        out.push(v[i]);
        assert(v@.take(i + 1) =~= v@.take(i as int).push(v@[i as int]));
        i = i + 1;
    }
    push_spaces(&mut out, width - keep);
    proof {
        if v@.len() >= width {
            assert(out@ =~= value@.take(width as int));
        } else {
            assert(v@.take(keep as int) =~= value@);
        }
    }
    string_of(out.as_slice())
}

/// `value` cut to `width` characters and centred in `width` columns, the odd space
/// on the right.
pub open spec fn centered_text(value: Seq<char>, width: nat) -> Seq<char> {
    let clipped = if value.len() >= width {
        value.take(width as int)
    } else {
        value
    };
    let padding = (width - clipped.len()) as nat;
    spaces(padding / 2) + clipped + spaces((padding - padding / 2) as nat)
}

pub fn centered(value: &str, width: usize) -> (r: String)
    ensures
        r@ == centered_text(value@, width as nat),
        r@.len() == width,
{
    let v = chars_of(value);
    let keep = if v.len() < width {
        v.len()
    } else {
        width
    };
    let padding = width - keep;
    let left = padding / 2;
    let mut out: Vec<char> = Vec::new();
    push_spaces(&mut out, left);
    let ghost lead = out@;
    let mut i: usize = 0;
    while i < keep
        invariant
            i <= keep <= v@.len(),
            v@ == value@,
            out@ == lead + v@.take(i as int),
        decreases keep - i,
    {
        out.push(v[i]);
        assert(lead + v@.take(i + 1) =~= (lead + v@.take(i as int)).push(v@[i as int]));
        i = i + 1;
    }
    push_spaces(&mut out, padding - left);
    proof {
        let clipped = if value@.len() >= width {
            value@.take(width as int)
        } else {
            value@
        };
        assert(v@.take(keep as int) =~= clipped);
    }
    string_of(out.as_slice())
}

/// The columns left for a bar beside a label, a two-column gap and a value.
pub fn metric_bar_width(width: usize, label_width: usize, value_width: usize) -> (r: usize)
    requires
        label_width + 2 + value_width <= usize::MAX,
    ensures
        r == if width >= label_width + 2 + value_width {
            width - (label_width + 2 + value_width)
        } else {
            0
        },
{
    width.saturating_sub(label_width + 2 + value_width)
}

/// The greedy wrap of `words` into lines of at most `width` characters (a word
/// longer than the width gets a line of its own), with the line being filled.
pub open spec fn wrap_scan(words: Seq<Seq<char>>, width: nat) -> (Seq<Seq<char>>, Seq<char>)
    decreases words.len(),
{
    if words.len() == 0 {
        (seq![], seq![])
    } else {
        let (done, cur) = wrap_scan(words.drop_last(), width);
        let w = words.last();
        if cur.len() > 0 && cur.len() + 1 + w.len() > width {
            (done.push(cur), w)
        } else if cur.len() > 0 {
            (done, cur + seq![' '] + w)
        } else {
            (done, w)
        }
    }
}

/// The lines of an alert: its words joined by single spaces and wrapped greedily to
/// the width (at least one column).
pub open spec fn wrapped_lines(message: Seq<char>, width: nat) -> Seq<Seq<char>> {
    let w = if width == 0 {
        1nat
    } else {
        width
    };
    let (done, cur) = wrap_scan(words(message), w);
    if cur.len() > 0 {
        done.push(cur)
    } else {
        done
    }
}

proof fn lemma_wrap_words_nonempty(ws: Seq<Seq<char>>, width: nat)
    requires
        forall|i: int| 0 <= i < ws.len() ==> #[trigger] ws[i].len() > 0,
    ensures
        ws.len() > 0 ==> wrap_scan(ws, width).1.len() > 0,
    decreases ws.len(),
{
    if ws.len() > 0 {
        lemma_wrap_words_nonempty(ws.drop_last(), width);
    }
}

pub fn wrapped_alert_rows(message: &str, width: usize) -> (r: Vec<String>)
    ensures
        r@.len() == wrapped_lines(message@, width as nat).len(),
        forall|i: int| 0 <= i < r@.len() ==> #[trigger] r@[i]@ == wrapped_lines(message@, width as nat)[i],
{
    let content_width = if width == 0 {
        1
    } else {
        width
    };
    let chars = chars_of(message);
    let ws = split_words(chars.as_slice());
    let mut done: Vec<String> = Vec::new();
    let mut cur: Vec<char> = Vec::new();
    let mut k: usize = 0;
    while k < ws.len()
        invariant
            k <= ws.len(),
            chars@ == message@,
            ws@.len() == words(message@).len(),
            forall|i: int| 0 <= i < ws@.len() ==> #[trigger] ws@[i]@ == words(message@)[i],
            done@.len() == wrap_scan(words(message@).take(k as int), content_width as nat).0.len(),
            forall|i: int|
                0 <= i < done@.len() ==> #[trigger] done@[i]@ == wrap_scan(
                    words(message@).take(k as int),
                    content_width as nat,
                ).0[i],
            cur@ == wrap_scan(words(message@).take(k as int), content_width as nat).1,
        decreases ws.len() - k,
    {
        let w = &ws[k];
        assert(words(message@).take(k + 1).drop_last() =~= words(message@).take(k as int));
        assert(words(message@).take(k + 1).last() == w@);
        let over = cur.len() > 0 && (cur.len() as u128 + 1 + w.len() as u128 > content_width as u128);
        if over {
            let line = string_of(cur.as_slice());
            done.push(line);
            cur = Vec::new();
            let mut j: usize = 0;
            while j < w.len()
                invariant
                    j <= w@.len(),
                    cur@ == w@.take(j as int),
                decreases w.len() - j,
            {
                cur.push(w[j]);
                assert(w@.take(j + 1) =~= w@.take(j as int).push(w@[j as int]));
                j = j + 1;
            }
            assert(w@.take(w@.len() as int) =~= w@);
        } else {
            let ghost before = cur@;
            if cur.len() > 0 {
                cur.push(' ');
            }
            let ghost mid = cur@;
            let mut j: usize = 0;
            while j < w.len()
                invariant
                    j <= w@.len(),
                    cur@ == mid + w@.take(j as int),
                decreases w.len() - j,
            {
                cur.push(w[j]);
                assert(mid + w@.take(j + 1) =~= (mid + w@.take(j as int)).push(w@[j as int]));
                j = j + 1;
            }
            proof {
                assert(w@.take(w@.len() as int) =~= w@);
                if before.len() > 0 {
                    assert(mid =~= before + seq![' ']);
                } else {
                    assert(mid + w@ =~= w@);
                }
            }
        }
        k = k + 1;
    }
    assert(words(message@).take(ws@.len() as int) =~= words(message@));
    if cur.len() > 0 {
        let line = string_of(cur.as_slice());
        done.push(line);
    }
    done
}

/// `s` without its commas (`str::replace(',', "")`).
pub open spec fn without_commas(s: Seq<char>) -> Seq<char> {
    s.filter(|c: char| c != ',')
}

pub(crate) fn strip_commas(v: &[char]) -> (r: Vec<char>)
    ensures
        r@ == without_commas(v@),
{
    let mut r: Vec<char> = Vec::new();
    let mut k: usize = 0;
    while k < v.len()
        invariant
            k <= v.len(),
            r@ == without_commas(v@.take(k as int)),
        decreases v.len() - k,
    {
        proof {
            reveal_with_fuel(Seq::filter, 1);
            assert(v@.take(k + 1).drop_last() =~= v@.take(k as int));
        }
        if v[k] != ',' {
            r.push(v[k]);
        }
        k = k + 1;
    }
    assert(v@.take(v@.len() as int) =~= v@);
    r
}

/// The day a renewal `in <count> <unit>` falls on, counted from `today`: days and
/// weeks on the calendar, months by chrono; none for other units or past chrono's
/// range.
pub open spec fn renewal_day(count: nat, unit: Seq<char>, today: int) -> Option<int> {
    if unit == "day"@ || unit == "days"@ {
        if valid_day(today + count) {
            Some(today + count)
        } else {
            None
        }
    } else if unit == "week"@ || unit == "weeks"@ {
        if valid_day(today + count * 7) {
            Some(today + count * 7)
        } else {
            None
        }
    } else if unit == "month"@ || unit == "months"@ {
        match months_later(today, count as int) {
            Some(d) => Some(d as int),
            None => None,
        }
    } else {
        None
    }
}

/// The compact form of an Amp reset text on `today`: `resets upon renewal ` is
/// dropped; `in <n> day(s)/week(s)/month(s)` becomes the renewal date (`23 Aug`);
/// `in <n> minute(s)/hour(s)` becomes `in <n>m` / `in <n>h`; any other text is
/// kept.
pub open spec fn reset_label_text(reset: Seq<char>, today: int) -> Seq<char> {
    let r1 = if starts_with(reset, "resets upon renewal "@) {
        reset.skip("resets upon renewal "@.len() as int)
    } else {
        reset
    };
    if !starts_with(r1, "in "@) {
        r1
    } else {
        let ws = words(r1.skip("in "@.len() as int));
        if ws.len() != 2 {
            r1
        } else {
            let amount = ws[0];
            let unit = ws[1];
            let day = match parse_unsigned(without_commas(amount), u32::MAX as nat) {
                Some(c) => renewal_day(c, unit, today),
                None => None,
            };
            match day {
                Some(d) => date_text(d, "%-d %b"@),
                None => if unit == "minute"@ || unit == "minutes"@ {
                    "in "@ + amount + "m"@
                } else if unit == "hour"@ || unit == "hours"@ {
                    "in "@ + amount + "h"@
                } else {
                    r1
                },
            }
        }
    }
}

fn renewal_date(count: u32, unit: &str, today: i32) -> (r: Option<i32>)
    requires
        valid_day(today as int),
    ensures
        r == match renewal_day(count as nat, unit@, today as int) {
            Some(d) => Some(d as i32),
            None => None::<i32>,
        },
        r matches Some(d) ==> valid_day(d as int),
{
    if str_eq(unit, "day") || str_eq(unit, "days") {
        let d = add_days_or(today, count as u64, today);
        if valid_day_exec(today, count as u64) {
            Some(d)
        } else {
            None
        }
    } else if str_eq(unit, "week") || str_eq(unit, "weeks") {
        let n = count as u64 * 7;
        let d = add_days_or(today, n, today);
        if valid_day_exec(today, n) {
            Some(d)
        } else {
            None
        }
    } else if str_eq(unit, "month") || str_eq(unit, "months") {
        add_months(today, count)
    } else {
        None
    }
}

/// Whether `today + n` is a day chrono can represent.
fn valid_day_exec(today: i32, n: u64) -> (r: bool)
    requires
        valid_day(today as int),
    ensures
        r == valid_day(today + n),
{
    n <= (crate::dates::MAX_DAY as i64 - today as i64) as u64
}

pub fn amp_compact_reset_label_at(reset: &str, today: i32) -> (r: String)
    requires
        valid_day(today as int),
    ensures
        r@ == reset_label_text(reset@, today as int),
{
    let v = chars_of(reset);
    let prefix = chars_of("resets upon renewal ");
    let r1: Vec<char> = match strip_prefix_chars(v.as_slice(), prefix.as_slice()) {
        Some(rest) => rest,
        None => v,
    };
    let in_prefix = chars_of("in ");
    let duration = match strip_prefix_chars(r1.as_slice(), in_prefix.as_slice()) {
        Some(rest) => rest,
        None => return string_of(r1.as_slice()),
    };
    let ws = split_words(duration.as_slice());
    if ws.len() != 2 {
        return string_of(r1.as_slice());
    }
    let amount = &ws[0];
    let unit = string_of(ws[1].as_slice());
    let digits = strip_commas(amount.as_slice());
    let count = parse_unsigned_chars(digits.as_slice(), u32::MAX as u64);
    let day = match count {
        Some(c) => renewal_date(c as u32, unit.as_str(), today),
        None => None,
    };
    if let Some(d) = day {
        match format_date(d, "%-d %b") {
            Some(text) => return text,
            None => return String::new(),
        }
    }
    let suffix = if str_eq(unit.as_str(), "minute") || str_eq(unit.as_str(), "minutes") {
        "m"
    } else if str_eq(unit.as_str(), "hour") || str_eq(unit.as_str(), "hours") {
        "h"
    } else {
        return string_of(r1.as_slice());
    };
    let mut out = String::from_str("in ");
    let amount_text = string_of(amount.as_slice());
    out.append(amount_text.as_str());
    out.append(suffix);
    out
}

/// Today's date on this machine's clock, as a day number; it depends on the time
/// and the local time zone, so nothing but its being a date is stated.
#[verifier::external_body]
fn local_today() -> (r: i32)
    ensures
        valid_day(r as int),
{
    chrono::Local::now().date_naive().to_epoch_days()
}

/// The compact form of an Amp reset text on the local date of the moment it runs.
pub fn amp_compact_reset_label(reset: &str) -> (r: String)
    ensures
        exists|today: int| valid_day(today) && r@ == reset_label_text(reset@, today),
{
    let today = local_today();
    amp_compact_reset_label_at(reset, today)
}

proof fn lemma_wrap_fits(ws: Seq<Seq<char>>, width: nat)
    requires
        width > 0,
        forall|i: int| 0 <= i < ws.len() ==> (#[trigger] ws[i]).len() <= width,
    ensures
        forall|i: int| 0 <= i < wrap_scan(ws, width).0.len() ==> (#[trigger] wrap_scan(ws, width).0[i]).len() <= width,
        wrap_scan(ws, width).1.len() <= width,
    decreases ws.len(),
{
    if ws.len() > 0 {
        let prefix = ws.drop_last();
        assert forall|i: int| 0 <= i < prefix.len() implies (#[trigger] prefix[i]).len() <= width by {
            assert(prefix[i] == ws[i]);
        }
        lemma_wrap_fits(prefix, width);
        assert(ws.last() == ws[ws.len() - 1]);
    }
}

/// Alerts wrap to the width: when no word is longer than the width, no line is.
pub proof fn law_wrapped_rows_fit_the_width(message: Seq<char>, width: nat)
    requires
        width > 0,
        forall|i: int| 0 <= i < words(message).len() ==> (#[trigger] words(message)[i]).len() <= width,
    ensures
        forall|i: int|
            0 <= i < wrapped_lines(message, width).len() ==> (#[trigger] wrapped_lines(message, width)[i]).len()
                <= width,
{
    lemma_wrap_fits(words(message), width);
}

} // verus!
