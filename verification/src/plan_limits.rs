//! Reading the plan limits from a subscription CLI's `/usage` report: the rows that
//! start `Current session` (the five-hour limit) and `Current week` (the seven-day
//! limit, or the weekly limit of one model named in parentheses), each with its
//! percentage used and, where printed, its reset time.

use vstd::prelude::*;
use crate::probe::{lines, split_lines};
use crate::report::{group, group_at};
use crate::text::{
    ascii_lower_seq, captures, chars_of, lowercase_of, matches_at, occurs_at, opt_view,
    regex_captures, slice_to_vec_range, starts_with, string_of, to_lowercase, trim, trim_end,
    trimmed,
};

verus! {

/// A percentage followed by `used`, in any case.
pub const PERCENT_USED_PATTERN: &'static str = "(?i)([0-9]+(?:\\.[0-9]+)?)%\\s+used";

/// `reset` or `resets` and the rest of the line, in any case.
pub const RESET_PATTERN: &'static str = "(?i)\\bresets?\\s+(.+)$";

/// Which limit a row reports.
#[derive(Clone, Debug)]
pub enum ClaudeWindow {
    /// The current session: the five-hour limit.
    FiveHour,
    /// The current week over all models: the seven-day limit.
    SevenDay,
    /// The current week of the model named in the row.
    Model(String),
}

/// A window as text-level data.
pub enum WindowText {
    FiveHour,
    SevenDay,
    Model(Seq<char>),
}

impl ClaudeWindow {
    pub open spec fn text(self) -> WindowText {
        match self {
            ClaudeWindow::FiveHour => WindowText::FiveHour,
            ClaudeWindow::SevenDay => WindowText::SevenDay,
            ClaudeWindow::Model(m) => WindowText::Model(m@),
        }
    }
}

/// One plan limit: its window, the percentage used as printed, and the reset time.
#[derive(Clone, Debug)]
pub struct ClaudeLimit {
    pub window: ClaudeWindow,
    pub used_percent: String,
    pub reset: Option<String>,
}

/// The plan limits the report lists, in order.
#[derive(Clone, Debug)]
pub struct ClaudeUsage {
    pub limits: Vec<ClaudeLimit>,
}

pub open spec fn limit_text(l: ClaudeLimit) -> (WindowText, Seq<char>, Option<Seq<char>>) {
    (l.window.text(), l.used_percent@, opt_view(l.reset))
}

/// The index of the first `c` in `s` at or after `i`.
pub open spec fn char_index_from(s: Seq<char>, c: char, i: int) -> Option<int>
    decreases s.len() - i,
{
    if i < 0 || i >= s.len() {
        None
    } else if s[i] == c {
        Some(i)
    } else {
        char_index_from(s, c, i + 1)
    }
}

pub(crate) fn find_char(v: &[char], c: char) -> (r: Option<usize>)
    ensures
        match r {
            Some(i) => char_index_from(v@, c, 0) == Some(i as int),
            None => char_index_from(v@, c, 0) is None,
        },
        r matches Some(i) ==> i < v.len(),
{
    let mut i: usize = 0;
    while i < v.len()
        invariant
            i <= v.len(),
            char_index_from(v@, c, 0) == char_index_from(v@, c, i as int),
        decreases v.len() - i,
    {
        if v[i] == c {
            return Some(i);
        }
        i = i + 1;
    }
    None
}

/// The text between the first `(` of the row and the first `)` after it, trimmed
/// (`split_once('(')`, then `split_once(')')`).
pub open spec fn week_scope(l: Seq<char>) -> Option<Seq<char>> {
    match char_index_from(l, '(', 0) {
        None => None,
        Some(i) => {
            let rest = l.skip(i + 1);
            match char_index_from(rest, ')', 0) {
                None => None,
                Some(j) => Some(trim(rest.take(j))),
            }
        },
    }
}

/// A week row is the seven-day limit when it names all models or no scope, else
/// the weekly limit of the model it names.
pub open spec fn week_window(l: Seq<char>) -> WindowText {
    match week_scope(l) {
        Some(sc) => if ascii_lower_seq(sc) == "all models"@ {
            WindowText::SevenDay
        } else if sc.len() > 0 {
            WindowText::Model(sc)
        } else {
            WindowText::SevenDay
        },
        None => WindowText::SevenDay,
    }
}

/// The reset time of a row: the text after `reset(s)`, trimmed, without one closing
/// `)` where the match follows a `(`. The pattern's match runs to the end of the
/// row, so it starts where the row leaves as many characters as the match holds.
pub open spec fn reset_text(l: Seq<char>) -> Option<Seq<char>> {
    match regex_captures(RESET_PATTERN@, l) {
        Some(g) => match (group(g, 0), group(g, 1)) {
            (Some(w), Some(v)) => {
                let start = if w.len() <= l.len() {
                    l.len() - w.len()
                } else {
                    0
                };
                let before = trim_end(l.take(start));
                let value = trim(v);
                if before.len() > 0 && before.last() == '(' && value.len() > 0 && value.last() == ')' {
                    Some(value.drop_last())
                } else {
                    Some(value)
                }
            },
            _ => None,
        },
        None => None,
    }
}

/// One trimmed, non-empty row: `Some(None)` when it is no limit row or has no
/// percentage; `None` when the percentage match lacks its number (which ends the
/// reading with nothing).
pub open spec fn line_limit(l: Seq<char>) -> Option<Option<(WindowText, Seq<char>, Option<Seq<char>>)>> {
    let lower = lowercase_of(l);
    let window = if starts_with(lower, "current session"@) {
        Some(WindowText::FiveHour)
    } else if starts_with(lower, "current week"@) {
        Some(week_window(l))
    } else {
        None
    };
    match window {
        None => Some(None),
        Some(w) => match regex_captures(PERCENT_USED_PATTERN@, l) {
            None => Some(None),
            Some(g) => match group(g, 1) {
                Some(p) => Some(Some((w, p, reset_text(l)))),
                None => None,
            },
        },
    }
}

/// The limits of the rows, in order, skipping rows that are blank once trimmed.
pub open spec fn limits_from(ls: Seq<Seq<char>>) -> Option<Seq<(WindowText, Seq<char>, Option<Seq<char>>)>>
    decreases ls.len(),
{
    if ls.len() == 0 {
        Some(seq![])
    } else {
        match limits_from(ls.drop_last()) {
            None => None,
            Some(acc) => {
                let t = trim(ls.last());
                if t.len() == 0 {
                    Some(acc)
                } else {
                    match line_limit(t) {
                        None => None,
                        Some(None) => Some(acc),
                        Some(Some(x)) => Some(acc.push(x)),
                    }
                }
            },
        }
    }
}

/// The plan limits of a report; none when it lists no limit row.
pub open spec fn claude_usage_of(output: Seq<char>) -> Option<Seq<(WindowText, Seq<char>, Option<Seq<char>>)>> {
    match limits_from(lines(output)) {
        Some(v) => if v.len() > 0 {
            Some(v)
        } else {
            None
        },
        None => None,
    }
}

/// A row that is blank, or that does not start with `current session` or `current
/// week` in any case, is no limit row.
pub open spec fn not_a_limit_row(l: Seq<char>) -> bool {
    let t = trim(l);
    t.len() == 0 || (!starts_with(lowercase_of(t), "current session"@) && !starts_with(
        lowercase_of(t),
        "current week"@,
    ))
}

/// Adding a row that is no limit row, anywhere in a report, leaves the limits read
/// from it unchanged (so removing one does too).
pub proof fn law_other_rows_do_not_change_the_limits(ls: Seq<Seq<char>>, k: int, l: Seq<char>)
    requires
        0 <= k <= ls.len(),
        not_a_limit_row(l),
    ensures
        limits_from(ls.insert(k, l)) == limits_from(ls),
    decreases ls.len(),
{
    let ins = ls.insert(k, l);
    if k == ls.len() {
        assert(ins.drop_last() =~= ls);
        assert(ins.last() == l);
    } else {
        law_other_rows_do_not_change_the_limits(ls.drop_last(), k, l);
        assert(ins.drop_last() =~= ls.drop_last().insert(k, l));
        assert(ins.last() == ls.last());
    }
}

/// The limit rows of a report, read with every other row removed, give the same
/// limits: a report of limit rows only, plus other rows before them, reads alike.
pub proof fn law_rows_before_the_limits_are_skipped(others: Seq<Seq<char>>, ls: Seq<Seq<char>>)
    requires
        forall|i: int| 0 <= i < others.len() ==> not_a_limit_row(#[trigger] others[i]),
    ensures
        limits_from(others + ls) == limits_from(ls),
    decreases others.len(),
{
    if others.len() > 0 {
        let rest = others.skip(1);
        assert forall|i: int| 0 <= i < rest.len() implies not_a_limit_row(#[trigger] rest[i]) by {
            assert(rest[i] == others[i + 1]);
        }
        law_rows_before_the_limits_are_skipped(rest, ls);
        law_other_rows_do_not_change_the_limits(rest + ls, 0, others[0]);
        assert((rest + ls).insert(0, others[0]) =~= others + ls);
    } else {
        assert(others + ls =~= ls);
    }
}

fn week_window_of(v: &Vec<char>) -> (r: ClaudeWindow)
    ensures
        r.text() == week_window(v@),
{
    let i = match find_char(v.as_slice(), '(') {
        Some(i) => i,
        None => return ClaudeWindow::SevenDay,
    };
    let rest = slice_to_vec_range(v.as_slice(), i + 1, v.len());
    assert(rest@ =~= v@.skip(i + 1));
    let j = match find_char(rest.as_slice(), ')') {
        Some(j) => j,
        None => return ClaudeWindow::SevenDay,
    };
    let scope = trimmed(rest.as_slice(), 0, j);
    assert(rest@.subrange(0, j as int) =~= rest@.take(j as int));
    let scope_text = string_of(scope.as_slice());
    let lower = crate::text::to_ascii_lowercase(scope_text.as_str());
    let all: Vec<char> = chars_of("all models");
    proof {
        reveal_strlit("all models");
    }
    let same = lower.len() == all.len() && matches_at(lower.as_slice(), all.as_slice(), 0);
    proof {
        if same {
            assert(lower@.subrange(0, all@.len() as int) =~= lower@);
        }
        if lower@ == all@ {
            assert(occurs_at(lower@, all@, 0)) by {
                assert(lower@.subrange(0, all@.len() as int) =~= lower@);
            }
        }
    }
    if same {
        ClaudeWindow::SevenDay
    } else if scope.len() > 0 {
        ClaudeWindow::Model(scope_text)
    } else {
        ClaudeWindow::SevenDay
    }
}

fn reset_of(line: &str) -> (r: Option<String>)
    ensures
        opt_view(r) == reset_text(line@),
{
    let g = match captures(RESET_PATTERN, line) {
        Some(g) => g,
        None => return None,
    };
    let whole = group_at(&g, 0);
    let value = group_at(&g, 1);
    match (whole, value) {
        (Some(w), Some(v)) => {
            let l = chars_of(line);
            let wl = chars_of(w.as_str()).len();
            let start = if wl <= l.len() {
                l.len() - wl
            } else {
                0
            };
            let vv = chars_of(v.as_str());
            let value = trimmed(vv.as_slice(), 0, vv.len());
            assert(vv@.subrange(0, vv@.len() as int) =~= vv@);
            let before = crate::text::skip_ws_back(l.as_slice(), 0, start);
            assert(l@.subrange(0, start as int) =~= l@.take(start as int));
            assert(trim_end(l@.take(start as int)) == l@.subrange(0, before as int));
            let wrapped = before > 0 && l[before - 1] == '(';
            if wrapped && value.len() > 0 && value[value.len() - 1] == ')' {
                let cut = slice_to_vec_range(value.as_slice(), 0, value.len() - 1);
                assert(cut@ =~= value@.drop_last());
                Some(string_of(cut.as_slice()))
            } else {
                Some(string_of(value.as_slice()))
            }
        },
        _ => None,
    }
}

fn line_limit_of(t: &Vec<char>) -> (r: Option<Option<ClaudeLimit>>)
    ensures
        match r {
            None => line_limit(t@) is None,
            Some(None) => line_limit(t@) == Some(None::<(WindowText, Seq<char>, Option<Seq<char>>)>),
            Some(Some(x)) => line_limit(t@) == Some(Some(limit_text(x))),
        },
{
    let line = string_of(t.as_slice());
    let lower = to_lowercase(line.as_str());
    let lv = chars_of(lower.as_str());
    let session: Vec<char> = chars_of("current session");
    let week: Vec<char> = chars_of("current week");
    proof {
        reveal_strlit("current session");
        reveal_strlit("current week");
    }
    let is_session = matches_at(lv.as_slice(), session.as_slice(), 0);
    let is_week = matches_at(lv.as_slice(), week.as_slice(), 0);
    let window = if is_session {
        ClaudeWindow::FiveHour
    } else if is_week {
        week_window_of(t)
    } else {
        return Some(None);
    };
    let g = match captures(PERCENT_USED_PATTERN, line.as_str()) {
        Some(g) => g,
        None => return Some(None),
    };
    match group_at(&g, 1) {
        Some(p) => {
            let reset = reset_of(line.as_str());
            Some(Some(ClaudeLimit { window, used_percent: p, reset }))
        },
        None => None,
    }
}

/// The plan limits of a `/usage` report, in order; `None` when it lists none.
pub fn extract_claude_usage(output: &str) -> (r: Option<ClaudeUsage>)
    ensures
        r is None <==> claude_usage_of(output@) is None,
        r matches Some(u) ==> u.limits@.map_values(|l: ClaudeLimit| limit_text(l)) == claude_usage_of(
            output@,
        )->0,
{
    let chars = chars_of(output);
    let ls = split_lines(chars.as_slice());
    let ghost all = lines(output@);
    assert(ls@.map_values(|v: Vec<char>| v@) =~= all);
    let mut out: Vec<ClaudeLimit> = Vec::new();
    let mut failed = false;
    let mut k: usize = 0;
    while k < ls.len()
        invariant
            k <= ls.len(),
            ls@.len() == all.len(),
            forall|i: int| 0 <= i < ls@.len() ==> #[trigger] ls@[i]@ == all[i],
            failed ==> limits_from(all.take(k as int)) is None,
            !failed ==> limits_from(all.take(k as int)) == Some(
                out@.map_values(|l: ClaudeLimit| limit_text(l)),
            ),
        decreases ls.len() - k,
    {
        assert(all.take(k + 1).drop_last() =~= all.take(k as int));
        assert(all.take(k + 1).last() == all[k as int]);
        let t = trimmed(ls[k].as_slice(), 0, ls[k].len());
        assert(ls@[k as int]@.subrange(0, ls@[k as int]@.len() as int) =~= ls@[k as int]@);
        if !failed && t.len() > 0 {
            match line_limit_of(&t) {
                None => {
                    failed = true;
                },
                Some(None) => {},
                Some(Some(x)) => {
                    let ghost before = out@;
                    out.push(x);
                    assert(out@.map_values(|l: ClaudeLimit| limit_text(l)) =~= before.map_values(
                        |l: ClaudeLimit| limit_text(l),
                    ).push(limit_text(x)));
                },
            }
        }
        k = k + 1;
    }
    assert(all.take(all.len() as int) =~= all);
    if failed || out.len() == 0 {
        None
    } else {
        Some(ClaudeUsage { limits: out })
    }
}

} // verus!
