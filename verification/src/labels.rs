//! Short labels of Codex rate-limit windows and plans, and which snapshot and
//! window of a rate-limit answer the dashboard shows.

use vstd::prelude::*;
use crate::text::{i64_to_string, int_text, str_eq};

verus! {

/// A rate-limit window by its length in minutes: `5h`, `Weekly`, whole hours,
/// minutes, or `Limit` when the length is unknown.
pub open spec fn window_text(minutes: Option<i64>) -> Seq<char> {
    match minutes {
        Some(m) => if m == 300 {
            "5h"@
        } else if m == 10080 {
            "Weekly"@
        } else if m % 60 == 0 {
            int_text(if m < 0 { -((-m) / 60) } else { m / 60 }) + "h"@
        } else {
            int_text(m as int) + "m"@
        },
        None => "Limit"@,
    }
}

/// The hours of a whole number of hours in minutes, keeping the sign.
fn whole_hours(m: i64) -> (r: i64)
    requires
        m % 60 == 0,
    ensures
        r == if m < 0 {
            -((-m) / 60)
        } else {
            m / 60
        },
{
    if m < 0 {
        let mag = (-(m as i128)) as u64;
        -((mag / 60) as i64)
    } else {
        m / 60
    }
}

pub fn window_label(minutes: Option<i64>) -> (r: String)
    ensures
        r@ == window_text(minutes),
{
    match minutes {
        Some(m) => if m == 300 {
            String::from_str("5h")
        } else if m == 10080 {
            String::from_str("Weekly")
        } else if divisible_by_sixty(m) {
            let mut s = i64_to_string(whole_hours(m));
            s.append("h");
            s
        } else {
            let mut s = i64_to_string(m);
            s.append("m");
            s
        },
        None => String::from_str("Limit"),
    }
}

/// Whether `m` is a whole number of hours.
fn divisible_by_sixty(m: i64) -> (r: bool)
    ensures
        r == (m % 60 == 0),
{
    let mag: u64 = if m < 0 {
        (-(m as i128)) as u64
    } else {
        m as u64
    };
    proof {
        if m < 0 {
            assert((m % 60 == 0) <==> ((-m) % 60 == 0)) by (nonlinear_arith);
        }
    }
    mag % 60 == 0
}

/// The window label of the usage-status report: the window label with ` limit`
/// (`Limit` alone when the length is unknown).
pub open spec fn window_status_text(minutes: Option<i64>) -> Seq<char> {
    match minutes {
        Some(m) => window_text(minutes) + " limit"@,
        None => "Limit"@,
    }
}

pub fn window_label_status(minutes: Option<i64>) -> (r: String)
    ensures
        r@ == window_status_text(minutes),
{
    match minutes {
        Some(_) => {
            let mut s = window_label(minutes);
            s.append(" limit");
            s
        },
        None => String::from_str("Limit"),
    }
}

/// The title of a Codex limit: its limit name, else its plan type, with the
/// `prolite` plan shown as `Codex`; `Codex` when neither is given.
pub open spec fn limit_title(limit_name: Option<Seq<char>>, plan_type: Option<Seq<char>>) -> Seq<char> {
    let value = match limit_name {
        Some(n) => Some(n),
        None => plan_type,
    };
    match value {
        Some(v) => if v == "prolite"@ {
            "Codex"@
        } else {
            v
        },
        None => "Codex"@,
    }
}

pub fn codex_limit_title(limit_name: Option<&str>, plan_type: Option<&str>) -> (r: String)
    ensures
        r@ == limit_title(
            match limit_name {
                Some(n) => Some(n@),
                None => None,
            },
            match plan_type {
                Some(p) => Some(p@),
                None => None,
            },
        ),
{
    let value = match limit_name {
        Some(n) => Some(n),
        None => plan_type,
    };
    match value {
        Some(v) => if str_eq(v, "prolite") {
            String::from_str("Codex")
        } else {
            String::from_str(v)
        },
        None => String::from_str("Codex"),
    }
}

/// The plan shown by the one-shot report: the plan type, with `prolite` shown as
/// `Pro`; empty when there is none.
pub open spec fn plan_name(plan_type: Option<Seq<char>>) -> Seq<char> {
    match plan_type {
        Some(p) => if p == "prolite"@ {
            "Pro"@
        } else {
            p
        },
        None => seq![],
    }
}

pub fn codex_plan_name(plan_type: Option<&str>) -> (r: String)
    ensures
        r@ == plan_name(
            match plan_type {
                Some(p) => Some(p@),
                None => None,
            },
        ),
{
    match plan_type {
        Some(p) => if str_eq(p, "prolite") {
            String::from_str("Pro")
        } else {
            String::from_str(p)
        },
        None => String::new(),
    }
}

/// The length of the weekly rate-limit window, in minutes.
pub const WEEKLY_WINDOW_MINUTES: i64 = 10080;

/// Which window of a rate-limit snapshot holds the weekly limit.
#[derive(Clone, Copy, Debug, PartialEq, Eq, Structural)]
pub enum WindowSlot {
    Primary,
    Secondary,
}

/// The weekly window of a snapshot, given the lengths of its `primary` and
/// `secondary` windows (none where a window is missing or has no length): the
/// first of the two that lasts a week.
pub fn weekly_window_slot(primary: Option<i64>, secondary: Option<i64>) -> (r: Option<WindowSlot>)
    ensures
        r == if primary == Some(WEEKLY_WINDOW_MINUTES) {
            Some(WindowSlot::Primary)
        } else if secondary == Some(WEEKLY_WINDOW_MINUTES) {
            Some(WindowSlot::Secondary)
        } else {
            None::<WindowSlot>
        },
{
    if primary == Some(WEEKLY_WINDOW_MINUTES) {
        Some(WindowSlot::Primary)
    } else if secondary == Some(WEEKLY_WINDOW_MINUTES) {
        Some(WindowSlot::Secondary)
    } else {
        None
    }
}

/// Which snapshot of a rate-limit answer to show.
#[derive(Clone, Copy, Debug, PartialEq, Eq, Structural)]
pub enum SnapshotChoice {
    /// The `codex` entry of the per-limit map.
    CodexEntry,
    /// The single `rateLimits` snapshot of servers without the per-limit map.
    RateLimits,
    NoSnapshot,
}

/// The per-limit map wins where the answer has one, and then only its `codex`
/// entry is shown; otherwise the single snapshot, where there is one.
pub fn snapshot_choice(has_by_limit_id: bool, has_codex_entry: bool, has_rate_limits: bool) -> (r: SnapshotChoice)
    ensures
        r == if has_by_limit_id {
            if has_codex_entry {
                SnapshotChoice::CodexEntry
            } else {
                SnapshotChoice::NoSnapshot
            }
        } else if has_rate_limits {
            SnapshotChoice::RateLimits
        } else {
            SnapshotChoice::NoSnapshot
        },
{
    if has_by_limit_id {
        if has_codex_entry {
            SnapshotChoice::CodexEntry
        } else {
            SnapshotChoice::NoSnapshot
        }
    } else if has_rate_limits {
        SnapshotChoice::RateLimits
    } else {
        SnapshotChoice::NoSnapshot
    }
}

} // verus!
