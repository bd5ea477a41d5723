//! The persistent rolling limiter that paces `amp usage` lookups.
//!
//! Times are milliseconds since the Unix epoch. Every granted lookup is recorded in
//! the ledger; records older than an hour are pruned. A lookup is deferred while the
//! server asked to back off, while the current partial day was refreshed less than
//! fifteen minutes ago, while the hour holds 40 lookups (24 for historical days), or
//! within a second of the previous lookup.

use vstd::prelude::*;
use crate::activity::{minutes_label, minutes_text};

use crate::text::{
    all_digits, captures, contains_seq, dec, digits_value, lowercase_of, str_contains, str_eq,
    to_lowercase, u64_to_string,
};

verus! {

/// Lookups of any kind allowed in one rolling hour.
pub const AMP_REQUEST_BUDGET: usize = 40;

/// Historical-day lookups allowed in one rolling hour.
pub const AMP_HISTORICAL_BUDGET: usize = 24;

/// The length of the rolling window.
pub const AMP_WINDOW_MILLIS: u64 = 3_600_000;

/// The least time between two refreshes of the current partial day.
pub const AMP_CURRENT_INTERVAL_MILLIS: u64 = 900_000;

/// The least time between two lookups of any kind.
pub const AMP_REQUEST_SPACING_MILLIS: u64 = 1_000;

/// The kind of an `amp usage` lookup.
#[derive(Debug, Clone, Copy, PartialEq, Eq, Structural)]
pub enum AmpRequestKind {
    /// The account-level usage summary.
    Account,
    /// The current, still partial, UTC day.
    Current,
    /// A completed UTC day.
    Historical,
}

impl AmpRequestKind {
    /// The name under which the kind is recorded in the ledger.
    pub open spec fn label_of(self) -> Seq<char> {
        match self {
            AmpRequestKind::Account => "account"@,
            AmpRequestKind::Current => "current"@,
            AmpRequestKind::Historical => "historical"@,
        }
    }

    pub fn label(self) -> (r: &'static str)
        ensures
            r@ == self.label_of(),
    {
        match self {
            AmpRequestKind::Account => "account",
            AmpRequestKind::Current => "current",
            AmpRequestKind::Historical => "historical",
        }
    }
}

/// One granted lookup: when it was made and the label of its kind.
#[derive(Debug, Clone, PartialEq, Eq)]
pub struct AmpRequestRecord {
    pub requested_at: u64,
    pub kind: String,
}

/// The lookups of the last hour, oldest first, and the end of a server-imposed pause.
#[derive(Debug, Clone, PartialEq, Eq, Default)]
pub struct AmpRequestLedger {
    pub requests: Vec<AmpRequestRecord>,
    pub blocked_until: Option<u64>,
}

/// A record still counts at `now`: it is less than an hour old.
pub open spec fn in_window(r: AmpRequestRecord, now: int) -> bool {
    now < r.requested_at + AMP_WINDOW_MILLIS
}

/// The records that still count at `now`, in their order.
pub open spec fn pruned_requests(reqs: Seq<AmpRequestRecord>, now: int) -> Seq<AmpRequestRecord> {
    reqs.filter(|r: AmpRequestRecord| in_window(r, now))
}

/// The pause, dropped once it has ended.
pub open spec fn pruned_blocked(blocked: Option<u64>, now: int) -> Option<u64> {
    match blocked {
        Some(b) => if b <= now {
            None
        } else {
            Some(b)
        },
        None => None,
    }
}

/// The records of kind `label`.
pub open spec fn of_kind(reqs: Seq<AmpRequestRecord>, label: Seq<char>) -> Seq<AmpRequestRecord> {
    reqs.filter(|r: AmpRequestRecord| r.kind@ == label)
}

/// The index of the last record of kind `label` among the first `n`.
pub open spec fn last_of_kind(reqs: Seq<AmpRequestRecord>, label: Seq<char>, n: int) -> Option<int>
    decreases n,
{
    if n <= 0 || n > reqs.len() {
        None
    } else if reqs[n - 1].kind@ == label {
        Some(n - 1)
    } else {
        last_of_kind(reqs, label, n - 1)
    }
}

/// The index of the first record of kind `label` at or after `i`.
pub open spec fn first_of_kind(reqs: Seq<AmpRequestRecord>, label: Seq<char>, i: int) -> Option<int>
    decreases reqs.len() - i,
{
    if i < 0 || i >= reqs.len() {
        None
    } else if reqs[i].kind@ == label {
        Some(i)
    } else {
        first_of_kind(reqs, label, i + 1)
    }
}

pub open spec fn max_int(a: int, b: int) -> int {
    if a >= b {
        a
    } else {
        b
    }
}

/// How long a lookup of `kind` must wait at `now`, or `None` when it may go ahead:
/// a running pause comes first; then a current-day lookup waits until fifteen
/// minutes after the last one; then a full hour (40 lookups, or 24 historical ones
/// for a historical lookup) waits until its oldest relevant record leaves the
/// window, at least a second; then any lookup waits a second after the last one.
pub open spec fn request_delay(
    reqs: Seq<AmpRequestRecord>,
    blocked_until: Option<u64>,
    kind: AmpRequestKind,
    now: int,
) -> Option<int> {
    let current = last_of_kind(reqs, AmpRequestKind::Current.label_of(), reqs.len() as int);
    let historical = of_kind(reqs, AmpRequestKind::Historical.label_of()).len();
    let hist_full = kind == AmpRequestKind::Historical && historical >= AMP_HISTORICAL_BUDGET;
    if blocked_until is Some && blocked_until.unwrap() > now {
        Some(blocked_until.unwrap() - now)
    } else if kind == AmpRequestKind::Current && current is Some && now < reqs[current.unwrap()].requested_at
        + AMP_CURRENT_INTERVAL_MILLIS {
        Some(reqs[current.unwrap()].requested_at + AMP_CURRENT_INTERVAL_MILLIS - now)
    } else if reqs.len() >= AMP_REQUEST_BUDGET || hist_full {
        let oldest = if hist_full {
            first_of_kind(reqs, AmpRequestKind::Historical.label_of(), 0)
        } else {
            Some(0int)
        };
        match oldest {
            Some(i) => Some(
                max_int(reqs[i].requested_at + AMP_WINDOW_MILLIS - now, AMP_REQUEST_SPACING_MILLIS as int),
            ),
            None => Some(60_000),
        }
    } else if reqs.len() > 0 && now < reqs.last().requested_at + AMP_REQUEST_SPACING_MILLIS {
        Some(reqs.last().requested_at + AMP_REQUEST_SPACING_MILLIS - now)
    } else {
        None
    }
}

fn copy_record(r: &AmpRequestRecord) -> (c: AmpRequestRecord)
    ensures
        c == *r,
{
    AmpRequestRecord { requested_at: r.requested_at, kind: r.kind.clone() }
}

/// Drops the records that no longer count at `now`, and the pause once it has ended.
pub fn prune_request_ledger(ledger: &mut AmpRequestLedger, now: u64)
    ensures
        final(ledger).requests@ == pruned_requests(old(ledger).requests@, now as int),
        final(ledger).blocked_until == pruned_blocked(old(ledger).blocked_until, now as int),
        prune_step(*old(ledger), *final(ledger), now as int),
{
    let mut kept: Vec<AmpRequestRecord> = Vec::new();
    let mut i: usize = 0;
    while i < ledger.requests.len()
        invariant
            i <= ledger.requests.len(),
            ledger.requests@ == old(ledger).requests@,
            ledger.blocked_until == old(ledger).blocked_until,
            kept@ == pruned_requests(ledger.requests@.take(i as int), now as int),
        decreases ledger.requests.len() - i,
    {
        let r = copy_record(&ledger.requests[i]);
        proof {
            assert(ledger.requests@.take(i + 1).drop_last() =~= ledger.requests@.take(i as int));
            assert(ledger.requests@.take(i + 1).last() == r);
            crate::text::lemma_filter_step(
                ledger.requests@,
                i as int,
                |r: AmpRequestRecord| in_window(r, now as int),
            );
        }
        if (now as u128) < (r.requested_at as u128) + (AMP_WINDOW_MILLIS as u128) {
            kept.push(r);
        }
        i = i + 1;
    }
    proof {
        assert(ledger.requests@.take(i as int) =~= ledger.requests@);
    }
    ledger.requests = kept;
    if let Some(b) = ledger.blocked_until {
        if b <= now {
            ledger.blocked_until = None;
        }
    }
}

/// The number of records of kind `label`.
fn count_kind(reqs: &Vec<AmpRequestRecord>, label: &str) -> (n: usize)
    ensures
        n == of_kind(reqs@, label@).len(),
{
    let mut n: usize = 0;
    let mut i: usize = 0;
    while i < reqs.len()
        invariant
            i <= reqs.len(),
            n == of_kind(reqs@.take(i as int), label@).len(),
            n <= i,
        decreases reqs.len() - i,
    {
        proof {
            assert(reqs@.take(i + 1).drop_last() =~= reqs@.take(i as int));
            assert(reqs@.take(i + 1).last() == reqs@[i as int]);
            crate::text::lemma_filter_step(reqs@, i as int, |r: AmpRequestRecord| r.kind@ == label@);
        }
        if str_eq(reqs[i].kind.as_str(), label) {
            n = n + 1;
        }
        i = i + 1;
    }
    proof {
        assert(reqs@.take(i as int) =~= reqs@);
    }
    n
}

/// The index of the last record of kind `label`.
fn find_last_kind(reqs: &Vec<AmpRequestRecord>, label: &str) -> (r: Option<usize>)
    ensures
        match last_of_kind(reqs@, label@, reqs@.len() as int) {
            Some(i) => r matches Some(j) && j as int == i,
            None => r is None,
        },
        r matches Some(i) ==> i < reqs.len(),
{
    let mut n = reqs.len();
    while n > 0
        invariant
            n <= reqs.len(),
            last_of_kind(reqs@, label@, reqs@.len() as int) == last_of_kind(reqs@, label@, n as int),
        decreases n,
    {
        if str_eq(reqs[n - 1].kind.as_str(), label) {
            return Some(n - 1);
        }
        n = n - 1;
    }
    None
}

/// The index of the first record of kind `label`.
fn find_first_kind(reqs: &Vec<AmpRequestRecord>, label: &str) -> (r: Option<usize>)
    ensures
        match first_of_kind(reqs@, label@, 0) {
            Some(i) => r matches Some(j) && j as int == i,
            None => r is None,
        },
        r matches Some(i) ==> i < reqs.len(),
{
    let mut i: usize = 0;
    while i < reqs.len()
        invariant
            i <= reqs.len(),
            first_of_kind(reqs@, label@, 0) == first_of_kind(reqs@, label@, i as int),
        decreases reqs.len() - i,
    {
        if str_eq(reqs[i].kind.as_str(), label) {
            return Some(i);
        }
        i = i + 1;
    }
    None
}

/// How long a lookup of `kind` must wait at `now`, in milliseconds, or `None` when
/// it may go ahead (see `request_delay`).
pub fn amp_request_delay(ledger: &AmpRequestLedger, kind: AmpRequestKind, now: u64) -> (r: Option<
    u128,
>)
    ensures
        match request_delay(ledger.requests@, ledger.blocked_until, kind, now as int) {
            Some(d) => r == Some(d as u128),
            None => r is None,
        },
{
    if let Some(b) = ledger.blocked_until {
        if b > now {
            return Some((b - now) as u128);
        }
    }
    let reqs = &ledger.requests;
    let is_current = match kind {
        AmpRequestKind::Current => true,
        _ => false,
    };
    let is_historical = match kind {
        AmpRequestKind::Historical => true,
        _ => false,
    };
    if is_current {
        if let Some(i) = find_last_kind(reqs, AmpRequestKind::Current.label()) {
            let at = reqs[i].requested_at as u128;
            if (now as u128) < at + (AMP_CURRENT_INTERVAL_MILLIS as u128) {
                return Some(at + (AMP_CURRENT_INTERVAL_MILLIS as u128) - (now as u128));
            }
        }
    }
    let historical = count_kind(reqs, AmpRequestKind::Historical.label());
    let hist_full = is_historical && historical >= AMP_HISTORICAL_BUDGET;
    if reqs.len() >= AMP_REQUEST_BUDGET || hist_full {
        let oldest = if hist_full {
            find_first_kind(reqs, AmpRequestKind::Historical.label())
        } else {
            Some(0usize)
        };
        return match oldest {
            Some(i) => {
                let end = (reqs[i].requested_at as u128) + (AMP_WINDOW_MILLIS as u128);
                let spacing = AMP_REQUEST_SPACING_MILLIS as u128;
                if end > (now as u128) + spacing {
                    Some(end - (now as u128))
                } else {
                    Some(spacing)
                }
            },
            None => Some(60_000u128),
        };
    }
    if reqs.len() > 0 {
        let at = reqs[reqs.len() - 1].requested_at as u128;
        if (now as u128) < at + (AMP_REQUEST_SPACING_MILLIS as u128) {
            return Some(at + (AMP_REQUEST_SPACING_MILLIS as u128) - (now as u128));
        }
    }
    None
}


/// Reserves a lookup of `kind` at `now`: prunes the ledger, then either records the
/// lookup and returns 0, or leaves the pruned ledger as it is and returns how many
/// milliseconds the lookup must wait (always more than 0).
pub fn reserve_amp_request(ledger: &mut AmpRequestLedger, kind: AmpRequestKind, now: u64) -> (delay:
    u128)
    ensures
        ({
            let reqs = pruned_requests(old(ledger).requests@, now as int);
            let blocked = pruned_blocked(old(ledger).blocked_until, now as int);
            &&& final(ledger).blocked_until == blocked
            &&& match request_delay(reqs, blocked, kind, now as int) {
                Some(d) => delay == d && d > 0 && final(ledger).requests@ == reqs,
                None => {
                    &&& delay == 0
                    &&& final(ledger).requests@.len() == reqs.len() + 1
                    &&& final(ledger).requests@.drop_last() == reqs
                    &&& final(ledger).requests@.last().requested_at == now
                    &&& final(ledger).requests@.last().kind@ == kind.label_of()
                },
            }
        }),
        reserve_step(*old(ledger), *final(ledger), kind, now as int),
{
    prune_request_ledger(ledger, now);
    proof {
        lemma_delay_positive(ledger.requests@, ledger.blocked_until, kind, now as int);
    }
    match amp_request_delay(ledger, kind, now) {
        Some(d) => d,
        None => {
            let record = AmpRequestRecord { requested_at: now, kind: String::from_str(kind.label()) };
            ledger.requests.push(record);
            proof {
                assert(ledger.requests@.drop_last() =~= pruned_requests(
                    old(ledger).requests@,
                    now as int,
                ));
            }
            0
        },
    }
}

/// A deferred lookup always waits some time.
pub proof fn lemma_delay_positive(
    reqs: Seq<AmpRequestRecord>,
    blocked_until: Option<u64>,
    kind: AmpRequestKind,
    now: int,
)
    ensures
        request_delay(reqs, blocked_until, kind, now) matches Some(d) ==> d > 0,
{
}

/// How long to pause after a rate-limit answer: the server's own retry window when
/// it gave one, else until the oldest counted lookup leaves the window (at least a
/// minute), else a whole window.
pub open spec fn pause_length(reqs: Seq<AmpRequestRecord>, retry_after: Option<u64>, now: int) -> int {
    match retry_after {
        Some(r) => r as int,
        None => if reqs.len() > 0 {
            max_int(reqs[0].requested_at + AMP_WINDOW_MILLIS - now, 60_000)
        } else {
            AMP_WINDOW_MILLIS as int
        },
    }
}

pub open spec fn min_int(a: int, b: int) -> int {
    if a <= b {
        a
    } else {
        b
    }
}

/// Records a rate-limit answer at `now`: prunes the ledger and pauses every lookup
/// for `pause_length` (the end of the pause is capped at the largest timestamp).
/// Returns the length of the pause.
pub fn record_rate_limit(ledger: &mut AmpRequestLedger, now: u64, retry_after: Option<u64>) -> (pause:
    u128)
    ensures
        ({
            let reqs = pruned_requests(old(ledger).requests@, now as int);
            &&& final(ledger).requests@ == reqs
            &&& pause == pause_length(reqs, retry_after, now as int)
            &&& final(ledger).blocked_until == Some(
                min_int(now + pause_length(reqs, retry_after, now as int), u64::MAX as int) as u64,
            )
        }),
        rate_limit_step(*old(ledger), *final(ledger), now as int),
{
    prune_request_ledger(ledger, now);
    let pause: u128 = match retry_after {
        Some(r) => r as u128,
        None => if ledger.requests.len() > 0 {
            let end = (ledger.requests[0].requested_at as u128) + (AMP_WINDOW_MILLIS as u128);
            if end >= (now as u128) + 60_000 {
                end - (now as u128)
            } else {
                60_000
            }
        } else {
            AMP_WINDOW_MILLIS as u128
        },
    };
    let until = (now as u128) + pause;
    ledger.blocked_until = Some(
        if until > (u64::MAX as u128) {
            u64::MAX
        } else {
            until as u64
        },
    );
    pause
}


/// The ledger keeps the hourly budgets: at most 40 lookups, at most 24 of them
/// historical.
pub open spec fn within_budget(reqs: Seq<AmpRequestRecord>) -> bool {
    reqs.len() <= AMP_REQUEST_BUDGET && of_kind(reqs, AmpRequestKind::Historical.label_of()).len()
        <= AMP_HISTORICAL_BUDGET
}

/// Pruning keeps exactly the records of the last hour, in order, and pruning again
/// changes nothing.
pub proof fn law_prune_keeps_the_last_hour(reqs: Seq<AmpRequestRecord>, now: int)
    ensures
        forall|i: int|
            0 <= i < pruned_requests(reqs, now).len() ==> in_window(
                #[trigger] pruned_requests(reqs, now)[i],
                now,
            ),
        forall|r: AmpRequestRecord|
            reqs.contains(r) && in_window(r, now) ==> #[trigger] pruned_requests(reqs, now).contains(
                r,
            ),
        pruned_requests(pruned_requests(reqs, now), now) == pruned_requests(reqs, now),
        pruned_requests(reqs, now).len() <= reqs.len(),
{
    let p = |r: AmpRequestRecord| in_window(r, now);
    reqs.lemma_filter_len(p);
    assert forall|i: int| 0 <= i < pruned_requests(reqs, now).len() implies in_window(
        #[trigger] pruned_requests(reqs, now)[i],
        now,
    ) by {
        reqs.lemma_filter_pred(p, i);
    }
    assert forall|r: AmpRequestRecord| reqs.contains(r) && in_window(r, now) implies #[trigger] pruned_requests(
        reqs,
        now,
    ).contains(r) by {
        reqs.lemma_filter_contains_rev(p, r);
    }
    crate::text::lemma_filter_idempotent(reqs, p);
}

/// A lookup that is granted leaves the ledger within both hourly budgets, whatever
/// the ledger held before: the pruned hour held fewer than 40 lookups, and fewer
/// than 24 historical ones when a historical lookup is granted. A ledger within the
/// budgets stays within them whether the lookup is granted or deferred.
pub proof fn law_granted_lookup_keeps_the_budget(
    reqs: Seq<AmpRequestRecord>,
    blocked_until: Option<u64>,
    kind: AmpRequestKind,
    now: int,
    granted: Seq<AmpRequestRecord>,
)
    requires
        within_budget(reqs) || kind != AmpRequestKind::Historical,
        request_delay(pruned_requests(reqs, now), pruned_blocked(blocked_until, now), kind, now)
            is None,
        granted.len() == pruned_requests(reqs, now).len() + 1,
        granted.drop_last() == pruned_requests(reqs, now),
        granted.last().kind@ == kind.label_of(),
    ensures
        granted.len() <= AMP_REQUEST_BUDGET,
        kind == AmpRequestKind::Historical ==> within_budget(granted),
        within_budget(reqs) ==> within_budget(granted),
{
    let pruned = pruned_requests(reqs, now);
    let hist = AmpRequestKind::Historical.label_of();
    reveal_with_fuel(Seq::filter, 1);
    assert(of_kind(granted, hist) == if granted.last().kind@ == hist {
        of_kind(pruned, hist).push(granted.last())
    } else {
        of_kind(pruned, hist)
    });
    lemma_pruned_counts(reqs, now);
    if kind != AmpRequestKind::Historical {
        lemma_labels_differ();
    }
}

/// The three kind labels are distinct.
pub proof fn lemma_labels_differ()
    ensures
        AmpRequestKind::Account.label_of() != AmpRequestKind::Historical.label_of(),
        AmpRequestKind::Current.label_of() != AmpRequestKind::Historical.label_of(),
        AmpRequestKind::Account.label_of() != AmpRequestKind::Current.label_of(),
{
    reveal_strlit("account");
    reveal_strlit("current");
    reveal_strlit("historical");
    assert("account"@.len() == 7);
    assert("historical"@.len() == 10);
    assert("current"@.len() == 7);
    assert("account"@[0] != "current"@[0]);
}

/// Pruning never breaks the budgets, so a deferred lookup keeps them too.
pub proof fn law_prune_keeps_the_budget(reqs: Seq<AmpRequestRecord>, now: int)
    requires
        within_budget(reqs),
    ensures
        within_budget(pruned_requests(reqs, now)),
{
    lemma_pruned_counts(reqs, now);
}

/// Pruning shortens the ledger and its historical part.
pub proof fn lemma_pruned_counts(reqs: Seq<AmpRequestRecord>, now: int)
    ensures
        pruned_requests(reqs, now).len() <= reqs.len(),
        of_kind(pruned_requests(reqs, now), AmpRequestKind::Historical.label_of()).len() <= of_kind(
            reqs,
            AmpRequestKind::Historical.label_of(),
        ).len(),
    decreases reqs.len(),
{
    reveal_with_fuel(Seq::filter, 1);
    let h = AmpRequestKind::Historical.label_of();
    if reqs.len() > 0 {
        let rest = reqs.drop_last();
        let last = reqs.last();
        lemma_pruned_counts(rest, now);
        let pr = pruned_requests(rest, now);
        assert(pruned_requests(reqs, now) == if in_window(last, now) {
            pr.push(last)
        } else {
            pr
        });
        assert(of_kind(reqs, h) == if last.kind@ == h {
            of_kind(rest, h).push(last)
        } else {
            of_kind(rest, h)
        });
        if in_window(last, now) {
            assert(pr.push(last).drop_last() =~= pr);
            assert(of_kind(pr.push(last), h) == if last.kind@ == h {
                of_kind(pr, h).push(last)
            } else {
                of_kind(pr, h)
            });
        }
    }
}

/// While a pause runs, every lookup waits until its end.
pub proof fn law_pause_defers_every_lookup(
    reqs: Seq<AmpRequestRecord>,
    until: u64,
    kind: AmpRequestKind,
    now: int,
)
    requires
        now < until,
    ensures
        request_delay(
            pruned_requests(reqs, now),
            pruned_blocked(Some(until), now),
            kind,
            now,
        ) == Some(until - now),
{
}

/// After a rate-limit answer with a pause, every lookup up to the end of the pause
/// is deferred until that end.
pub proof fn law_rate_limit_pauses_until_its_end(
    reqs: Seq<AmpRequestRecord>,
    retry_after: Option<u64>,
    now: u64,
    later: int,
    kind: AmpRequestKind,
)
    requires
        now <= later < min_int(
            now + pause_length(pruned_requests(reqs, now as int), retry_after, now as int),
            u64::MAX as int,
        ),
    ensures
        ({
            let until = min_int(
                now + pause_length(pruned_requests(reqs, now as int), retry_after, now as int),
                u64::MAX as int,
            ) as u64;
            request_delay(
                pruned_requests(pruned_requests(reqs, now as int), later),
                pruned_blocked(Some(until), later),
                kind,
                later,
            ) == Some(until - later)
        }),
{
}

/// A granted current-day refresh comes at least fifteen minutes after the previous
/// one, and a granted lookup of any kind at least a second after the previous
/// lookup.
pub proof fn law_granted_lookups_are_spaced(
    reqs: Seq<AmpRequestRecord>,
    blocked_until: Option<u64>,
    kind: AmpRequestKind,
    now: int,
)
    requires
        request_delay(reqs, blocked_until, kind, now) is None,
    ensures
        reqs.len() > 0 ==> reqs.last().requested_at + AMP_REQUEST_SPACING_MILLIS <= now,
        kind == AmpRequestKind::Current ==> (last_of_kind(
            reqs,
            AmpRequestKind::Current.label_of(),
            reqs.len() as int,
        ) matches Some(i) ==> reqs[i].requested_at + AMP_CURRENT_INTERVAL_MILLIS <= now),
{
}


proof fn lemma_last_of_kind_has_kind(reqs: Seq<AmpRequestRecord>, label: Seq<char>, n: int)
    ensures
        last_of_kind(reqs, label, n) matches Some(k) ==> 0 <= k < reqs.len() && reqs[k].kind@ == label,
    decreases n,
{
    if 0 < n <= reqs.len() && reqs[n - 1].kind@ != label {
        lemma_last_of_kind_has_kind(reqs, label, n - 1);
    }
}

proof fn lemma_first_of_kind_finds(reqs: Seq<AmpRequestRecord>, label: Seq<char>, j: int, i: int)
    requires
        0 <= j <= i < reqs.len(),
        reqs[i].kind@ == label,
        forall|m: int| j <= m < i ==> (#[trigger] reqs[m]).kind@ != label,
    ensures
        first_of_kind(reqs, label, j) == Some(i),
    decreases i - j,
{
    if j < i {
        lemma_first_of_kind_finds(reqs, label, j + 1, i);
    }
}

/// A full hour waits for its oldest record: when no pause runs and no recent
/// current-day refresh holds a current-day lookup back, a lookup facing 40 lookups
/// in the pruned hour waits until the oldest of them leaves the one-hour window, and
/// a historical lookup facing 24 historical ones waits until the oldest historical
/// one leaves it; in both cases at least a second.
pub proof fn law_full_hour_waits_for_its_oldest_record(
    reqs: Seq<AmpRequestRecord>,
    blocked_until: Option<u64>,
    kind: AmpRequestKind,
    now: int,
)
    requires
        blocked_until matches Some(b) ==> b <= now,
        kind == AmpRequestKind::Current ==> forall|j: int|
            0 <= j < reqs.len() && (#[trigger] reqs[j]).kind@ == AmpRequestKind::Current.label_of()
                ==> reqs[j].requested_at + 900_000 <= now,
    ensures
        ({
            let hist = AmpRequestKind::Historical.label_of();
            let hist_full = kind == AmpRequestKind::Historical && of_kind(reqs, hist).len() >= 24;
            &&& reqs.len() >= 40 && !hist_full ==> request_delay(reqs, blocked_until, kind, now) == Some(
                if reqs[0].requested_at + 3_600_000 - now >= 1_000 {
                    reqs[0].requested_at + 3_600_000 - now
                } else {
                    1_000
                },
            )
            &&& forall|i: int|
                hist_full && 0 <= i < reqs.len() && (#[trigger] reqs[i]).kind@ == hist && (forall|j: int|
                    0 <= j < i ==> reqs[j].kind@ != hist) ==> request_delay(reqs, blocked_until, kind, now)
                    == Some(
                    if reqs[i].requested_at + 3_600_000 - now >= 1_000 {
                        reqs[i].requested_at + 3_600_000 - now
                    } else {
                        1_000
                    },
                )
        }),
{
    let hist = AmpRequestKind::Historical.label_of();
    let cur = AmpRequestKind::Current.label_of();
    lemma_last_of_kind_has_kind(reqs, cur, reqs.len() as int);
    if kind == AmpRequestKind::Current {
        if let Some(k) = last_of_kind(reqs, cur, reqs.len() as int) {
            assert(reqs[k].kind@ == cur);
            assert(reqs[k].requested_at + 900_000 <= now);
        }
    }
    assert forall|i: int|
        kind == AmpRequestKind::Historical && of_kind(reqs, hist).len() >= 24 && 0 <= i < reqs.len()
            && (#[trigger] reqs[i]).kind@ == hist && (forall|j: int| 0 <= j < i ==> reqs[j].kind@ != hist)
        implies request_delay(reqs, blocked_until, kind, now) == Some(
            if reqs[i].requested_at + 3_600_000 - now >= 1_000 {
                reqs[i].requested_at + 3_600_000 - now
            } else {
                1_000
            },
        ) by {
        assert forall|m: int| 0 <= m < i implies (#[trigger] reqs[m]).kind@ != hist by {}
        lemma_first_of_kind_finds(reqs, hist, 0, i);
    }
}

/// What `reserve_amp_request(kind, now)` may turn `before` into.
pub open spec fn reserve_step(before: AmpRequestLedger, after: AmpRequestLedger, kind: AmpRequestKind, now: int) -> bool {
    let reqs = pruned_requests(before.requests@, now);
    let blocked = pruned_blocked(before.blocked_until, now);
    &&& after.blocked_until == blocked
    &&& match request_delay(reqs, blocked, kind, now) {
        Some(_) => after.requests@ == reqs,
        None => {
            &&& after.requests@.len() == reqs.len() + 1
            &&& after.requests@.drop_last() == reqs
            &&& after.requests@.last().requested_at == now
            &&& after.requests@.last().kind@ == kind.label_of()
        },
    }
}

/// What `record_rate_limit(now, _)` may turn `before` into, as far as the records go.
pub open spec fn rate_limit_step(before: AmpRequestLedger, after: AmpRequestLedger, now: int) -> bool {
    after.requests@ == pruned_requests(before.requests@, now)
}

/// What `prune_request_ledger(now)` may turn `before` into, as far as the records go.
pub open spec fn prune_step(before: AmpRequestLedger, after: AmpRequestLedger, now: int) -> bool {
    after.requests@ == pruned_requests(before.requests@, now)
}

/// One operation of the limiter on the ledger: a reservation, a rate-limit answer
/// or a pruning, at some time.
pub open spec fn ledger_step(before: AmpRequestLedger, after: AmpRequestLedger) -> bool {
    ||| exists|kind: AmpRequestKind, now: int| reserve_step(before, after, kind, now)
    ||| exists|now: int| rate_limit_step(before, after, now)
    ||| exists|now: int| prune_step(before, after, now)
}

proof fn lemma_step_keeps_the_budget(before: AmpRequestLedger, after: AmpRequestLedger)
    requires
        within_budget(before.requests@),
        ledger_step(before, after),
    ensures
        within_budget(after.requests@),
{
    if exists|kind: AmpRequestKind, now: int| reserve_step(before, after, kind, now) {
        let (kind, now) = choose|kind: AmpRequestKind, now: int| reserve_step(before, after, kind, now);
        let reqs = pruned_requests(before.requests@, now);
        let blocked = pruned_blocked(before.blocked_until, now);
        match request_delay(reqs, blocked, kind, now) {
            Some(_) => {
                law_prune_keeps_the_budget(before.requests@, now);
            },
            None => {
                law_granted_lookup_keeps_the_budget(before.requests@, before.blocked_until, kind, now, after.requests@);
            },
        }
    } else if exists|now: int| rate_limit_step(before, after, now) {
        let now = choose|now: int| rate_limit_step(before, after, now);
        law_prune_keeps_the_budget(before.requests@, now);
    } else {
        let now = choose|now: int| prune_step(before, after, now);
        law_prune_keeps_the_budget(before.requests@, now);
    }
}

/// Any run of reservations, rate-limit answers and prunings that starts within the
/// hourly budgets stays within them: every ledger on the way holds at most 40
/// lookups, at most 24 of them historical.
pub proof fn law_every_run_keeps_the_budget(ledgers: Seq<AmpRequestLedger>)
    requires
        ledgers.len() > 0,
        within_budget(ledgers[0].requests@),
        forall|i: int| 0 <= i < ledgers.len() - 1 ==> ledger_step(#[trigger] ledgers[i], ledgers[i + 1]),
    ensures
        forall|i: int| 0 <= i < ledgers.len() ==> within_budget(#[trigger] ledgers[i].requests@),
    decreases ledgers.len(),
{
    if ledgers.len() > 1 {
        let front = ledgers.drop_last();
        assert forall|i: int| 0 <= i < front.len() - 1 implies ledger_step(#[trigger] front[i], front[i + 1]) by {
            assert(ledger_step(ledgers[i], ledgers[i + 1]));
        }
        law_every_run_keeps_the_budget(front);
        let n = ledgers.len() - 1;
        assert(within_budget(front[n - 1].requests@));
        assert(ledger_step(ledgers[n - 1], ledgers[n]));
        lemma_step_keeps_the_budget(ledgers[n - 1], ledgers[n]);
        assert forall|i: int| 0 <= i < ledgers.len() implies within_budget(#[trigger] ledgers[i].requests@) by {
            if i < n {
                assert(ledgers[i] == front[i]);
            }
        }
    }
}

/// A lowercased message reports a rate limit.
pub open spec fn mentions_rate_limit(lower: Seq<char>) -> bool {
    ||| contains_seq(lower, "rate limit"@)
    ||| contains_seq(lower, "too many requests"@)
    ||| contains_seq(lower, "http 429"@)
    ||| contains_seq(lower, "status 429"@)
    ||| contains_seq(lower, "error 429"@)
}

/// Whether an already lowercased message reports a rate limit.
pub fn mentions_rate_limit_in(lower: &str) -> (r: bool)
    ensures
        r == mentions_rate_limit(lower@),
{
    str_contains(lower, "rate limit") || str_contains(lower, "too many requests") || str_contains(
        lower,
        "http 429",
    ) || str_contains(lower, "status 429") || str_contains(lower, "error 429")
}

/// Whether `amp usage` output reports a rate limit, ignoring case.
pub fn is_rate_limited(message: &str) -> (r: bool)
    ensures
        r == mentions_rate_limit(lowercase_of(message@)),
{
    let lower = to_lowercase(message);
    mentions_rate_limit_in(lower.as_str())
}

/// The pattern of a retry hint such as "Retry-After: 90 seconds" or
/// "try again in 12 minutes".
pub const RETRY_PATTERN: &'static str = "(?i)(?:retry[- ]?after|try again in|retry in)\\D*([0-9]+)\\s*(seconds?|secs?|s|minutes?|mins?|m|hours?|hrs?|h)?";

/// Milliseconds per unit: minutes when the lowercased unit starts with `m`, hours
/// when it starts with `h`, else seconds.
pub open spec fn unit_millis(unit_lower: Option<Seq<char>>) -> nat {
    match unit_lower {
        Some(u) => if u.len() > 0 && u[0] == 'm' {
            60_000
        } else if u.len() > 0 && u[0] == 'h' {
            3_600_000
        } else {
            1_000
        },
        None => 1_000,
    }
}

/// The retry window that `amount` of the (lowercased) unit gives, in milliseconds,
/// capped at the largest `u64`; `None` when `amount` is not a digit string.
pub open spec fn retry_millis(amount: Seq<char>, unit_lower: Option<Seq<char>>) -> Option<nat> {
    if amount.len() == 0 || !all_digits(amount) {
        None
    } else {
        let v = digits_value(amount) * unit_millis(unit_lower);
        Some(
            if v > u64::MAX as nat {
                u64::MAX as nat
            } else {
                v
            },
        )
    }
}

/// The retry window for a captured amount and lowercased unit.
pub fn retry_from_parts(amount: &str, unit_lower: Option<&str>) -> (r: Option<u64>)
    ensures
        match retry_millis(
            amount@,
            match unit_lower {
                Some(u) => Some(u@),
                None => None,
            },
        ) {
            Some(v) => r == Some(v as u64),
            None => r is None,
        },
{
    let a = crate::text::chars_of(amount);
    if a.len() == 0 {
        return None;
    }
    let mut i: usize = 0;
    while i < a.len()
        invariant
            i <= a.len(),
            a@ == amount@,
            forall|j: int| 0 <= j < i ==> #[trigger] crate::text::is_digit(a@[j]),
        decreases a.len() - i,
    {
        if !('0' <= a[i] && a[i] <= '9') {
            proof {
                assert(!crate::text::is_digit(amount@[i as int]));
            }
            return None;
        }
        i = i + 1;
    }
    let value = crate::text::digits_saturating(a.as_slice());
    let factor: u64 = match unit_lower {
        Some(u) => {
            let c = crate::text::chars_of(u);
            if c.len() > 0 && c[0] == 'm' {
                60_000
            } else if c.len() > 0 && c[0] == 'h' {
                3_600_000
            } else {
                1_000
            }
        },
        None => 1_000,
    };
    let ghost exact = digits_value(amount@) * (factor as nat);
    if value > u64::MAX / factor {
        proof {
            if digits_value(amount@) <= u64::MAX as nat {
                assert(value as nat * factor > u64::MAX) by (nonlinear_arith)
                    requires
                        value > u64::MAX / factor,
                        factor > 0,
                ;
            } else {
                assert(exact >= digits_value(amount@)) by (nonlinear_arith)
                    requires
                        exact == digits_value(amount@) * (factor as nat),
                        factor >= 1,
                ;
            }
        }
        Some(u64::MAX)
    } else {
        proof {
            assert(value as nat * factor <= u64::MAX) by (nonlinear_arith)
                requires
                    value <= u64::MAX / factor,
                    factor > 0,
            ;
            assert(digits_value(amount@) <= u64::MAX as nat) by {
                if digits_value(amount@) > u64::MAX as nat {
                    assert(value == u64::MAX);
                    assert(u64::MAX / factor < u64::MAX);
                }
            }
        }
        Some(value * factor)
    }
}

/// The retry window in a rate-limit message, found with `RETRY_PATTERN`, in
/// milliseconds.
/// The retry window a rate-limit message names, found with `RETRY_PATTERN`, in
/// milliseconds (the unit lowercased as `str::to_lowercase` does).
pub open spec fn retry_window(message: Seq<char>) -> Option<u64> {
    match crate::text::regex_captures(RETRY_PATTERN@, message) {
        Some(groups) => if groups.len() >= 2 && groups[1] is Some {
            match retry_millis(
                groups[1].unwrap(),
                if groups.len() >= 3 && groups[2] is Some {
                    Some(lowercase_of(groups[2].unwrap()))
                } else {
                    None
                },
            ) {
                Some(v) => Some(v as u64),
                None => None,
            }
        } else {
            None
        },
        None => None,
    }
}

pub fn retry_after_millis(message: &str) -> (r: Option<u64>)
    ensures
        r == retry_window(message@),
{
    let groups = match captures(RETRY_PATTERN, message) {
        Some(g) => g,
        None => return None,
    };
    if groups.len() < 2 {
        return None;
    }
    let amount = match &groups[1] {
        Some(a) => a,
        None => return None,
    };
    let unit: Option<String> = if groups.len() >= 3 {
        match &groups[2] {
            Some(u) => Some(to_lowercase(u.as_str())),
            None => None,
        }
    } else {
        None
    };
    match unit {
        Some(u) => retry_from_parts(amount.as_str(), Some(u.as_str())),
        None => retry_from_parts(amount.as_str(), None),
    }
}

/// The whole minutes, rounded up, of `millis`, capped at the largest `u64`.
pub open spec fn ceil_minutes(millis: int) -> int {
    let m = (millis + 59_999) / 60_000;
    if m > u64::MAX as int {
        u64::MAX as int
    } else {
        m
    }
}

/// A retry window, in minutes rounded up.
pub open spec fn retry_text(millis: int) -> Seq<char> {
    minutes_text(ceil_minutes(millis) as nat)
}

pub fn compact_retry_duration(millis: u128) -> (r: String)
    ensures
        r@ == retry_text(millis as int),
{
    let m128 = millis / 60_000 + if millis % 60_000 == 0 {
        0
    } else {
        1
    };
    proof {
        assert(m128 == (millis + 59_999) / 60_000);
    }
    let minutes: u64 = if m128 > u64::MAX as u128 {
        u64::MAX
    } else {
        m128 as u64
    };
    minutes_label(minutes)
}

/// The error a rate-limited lookup reports, with the pause rounded up to minutes.
pub open spec fn rate_limited_text(pause: int) -> Seq<char> {
    "Amp usage rate limited; retrying in "@ + retry_text(pause)
}

/// The trimmed standard output and standard error of a failed lookup, each only when
/// not empty, one per line.
pub open spec fn joined_output(out: Seq<char>, err: Seq<char>) -> Seq<char> {
    let a = crate::text::trim(out);
    let b = crate::text::trim(err);
    if a.len() > 0 && b.len() > 0 {
        a + "\n"@ + b
    } else if a.len() > 0 {
        a
    } else {
        b
    }
}

fn join_output(stdout: &str, stderr: &str) -> (r: String)
    ensures
        r@ == joined_output(stdout@, stderr@),
{
    let o = crate::text::chars_of(stdout);
    let e = crate::text::chars_of(stderr);
    let a = crate::text::trimmed(o.as_slice(), 0, o.len());
    let b = crate::text::trimmed(e.as_slice(), 0, e.len());
    assert(o@.subrange(0, o@.len() as int) =~= o@);
    assert(e@.subrange(0, e@.len() as int) =~= e@);
    let a_text = crate::text::string_of(a.as_slice());
    let b_text = crate::text::string_of(b.as_slice());
    if a.len() > 0 && b.len() > 0 {
        let mut r = a_text;
        r.append("\n");
        r.append(b_text.as_str());
        r
    } else if a.len() > 0 {
        a_text
    } else {
        b_text
    }
}

/// What a finished `amp usage` run means: its standard output when it succeeded
/// without reporting a rate limit; a rate-limit error (and a pause recorded in the
/// ledger, as long as the message asks or until the oldest lookup leaves the window)
/// when its output reports one; else the failure's message, or its exit status when
/// it printed nothing.
pub fn amp_command_result(
    ledger: &mut AmpRequestLedger,
    now: u64,
    success: bool,
    stdout: &str,
    stderr: &str,
    status: &str,
) -> (r: Result<String, String>)
    ensures
        ({
            let msg = if success {
                stdout@
            } else {
                joined_output(stdout@, stderr@)
            };
            let reqs = pruned_requests(old(ledger).requests@, now as int);
            let pause = pause_length(reqs, retry_window(msg), now as int);
            if mentions_rate_limit(lowercase_of(msg)) {
                &&& final(ledger).requests@ == reqs
                &&& final(ledger).blocked_until == Some(min_int(now + pause, u64::MAX as int) as u64)
                &&& r matches Err(e) && e@ == rate_limited_text(pause)
            } else {
                &&& *final(ledger) == *old(ledger)
                &&& success ==> (r matches Ok(o) && o@ == stdout@)
                &&& !success ==> (r matches Err(e) && e@ == if msg.len() > 0 {
                    msg
                } else {
                    "amp usage exited with "@ + status@
                })
            }
        }),
{
    let message = if success {
        String::from_str(stdout)
    } else {
        join_output(stdout, stderr)
    };
    if is_rate_limited(message.as_str()) {
        let retry = retry_after_millis(message.as_str());
        let pause = record_rate_limit(ledger, now, retry);
        let mut e = String::from_str("Amp usage rate limited; retrying in ");
        let when = compact_retry_duration(pause);
        e.append(when.as_str());
        return Err(e);
    }
    if success {
        Ok(message)
    } else if message.as_str().unicode_len() > 0 {
        Err(message)
    } else {
        let mut e = String::from_str("amp usage exited with ");
        e.append(status);
        Err(e)
    }
}

} // verus!
