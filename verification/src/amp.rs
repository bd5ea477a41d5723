//! Amp daily activity: the cached daily buckets, how a fresh bucket replaces the
//! cached one for its day, which days to look up, and the per-label token totals
//! shown under the calendar.

use vstd::prelude::*;
use crate::dates::{valid_day, MIN_DAY};
use crate::text::{lemma_seq_lt_irreflexive, lemma_seq_lt_total, lemma_seq_lt_transitive, seq_lt, str_eq, str_lt};

verus! {

/// Tokens attributed to one model or one source.
#[derive(Clone, Debug)]
pub struct AmpTokenCategory {
    pub label: String,
    pub tokens: u64,
}

/// One UTC day of Amp usage. The costs are the amounts of the day's cost row with
/// the dollar sign and thousands separators removed (`None` where the row or the
/// cell is missing).
#[derive(Clone, Debug)]
pub struct AmpDailyUsageBucket {
    pub date: String,
    pub tokens: u64,
    pub orb_runtime_millis: u64,
    pub covered_cost: Option<String>,
    pub paid_cost: Option<String>,
    pub sources: Vec<AmpTokenCategory>,
    pub models: Vec<AmpTokenCategory>,
}

/// The cached daily history.
#[derive(Clone, Debug)]
pub struct AmpActivityUsage {
    pub daily_usage_buckets: Vec<AmpDailyUsageBucket>,
}

/// The first position in `s` whose date sorts after the date of `b`: where an
/// insertion sort puts `b` so that equal dates keep their order.
pub open spec fn date_slot(s: Seq<AmpDailyUsageBucket>, b: AmpDailyUsageBucket) -> int
    decreases s.len(),
{
    if s.len() == 0 {
        0
    } else if seq_lt(b.date@, s[0].date@) {
        0
    } else {
        1 + date_slot(s.skip(1), b)
    }
}

/// `s` sorted by date, stably (a stable sort's unique result, built by insertion).
pub open spec fn sorted_by_date(s: Seq<AmpDailyUsageBucket>) -> Seq<AmpDailyUsageBucket>
    decreases s.len(),
{
    if s.len() == 0 {
        seq![]
    } else {
        let t = sorted_by_date(s.drop_last());
        t.insert(date_slot(t, s.last()), s.last())
    }
}

/// The buckets of `s` for other days than `date`.
pub open spec fn other_days(s: Seq<AmpDailyUsageBucket>, date: Seq<char>) -> Seq<
    AmpDailyUsageBucket,
> {
    s.filter(|b: AmpDailyUsageBucket| b.date@ != date)
}

/// Dates in non-decreasing order.
pub open spec fn dates_ascending(s: Seq<AmpDailyUsageBucket>) -> bool {
    forall|i: int, j: int| 0 <= i < j < s.len() ==> !seq_lt(#[trigger] s[j].date@, #[trigger] s[i].date@)
}

proof fn lemma_date_slot_bounds(s: Seq<AmpDailyUsageBucket>, b: AmpDailyUsageBucket)
    ensures
        0 <= date_slot(s, b) <= s.len(),
        forall|i: int| 0 <= i < date_slot(s, b) ==> !seq_lt(b.date@, #[trigger] s[i].date@),
        date_slot(s, b) < s.len() ==> seq_lt(b.date@, s[date_slot(s, b)].date@),
    decreases s.len(),
{
    if s.len() > 0 && !seq_lt(b.date@, s[0].date@) {
        lemma_date_slot_bounds(s.skip(1), b);
        let rest = s.skip(1);
        assert(date_slot(s, b) == 1 + date_slot(rest, b));
        assert forall|i: int| 0 <= i < date_slot(s, b) implies !seq_lt(b.date@, #[trigger] s[i].date@) by {
            if i > 0 {
                assert(s[i] == rest[i - 1]);
                assert(!seq_lt(b.date@, rest[i - 1].date@));
            }
        }
        if date_slot(s, b) < s.len() {
            assert(s[date_slot(s, b)] == rest[date_slot(rest, b)]);
        }
    }
}

/// Inserting at the slot keeps an ascending sequence ascending.
proof fn lemma_insert_keeps_ascending(s: Seq<AmpDailyUsageBucket>, b: AmpDailyUsageBucket)
    requires
        dates_ascending(s),
    ensures
        dates_ascending(s.insert(date_slot(s, b), b)),
{
    lemma_date_slot_bounds(s, b);
    let p = date_slot(s, b);
    let t = s.insert(p, b);
    assert forall|i: int, j: int| 0 <= i < j < t.len() implies !seq_lt(#[trigger] t[j].date@, #[trigger] t[i].date@) by {
        if i == p {
            // t[j] is a later element of s, after the first one that sorts after b
            let sj = s[j - 1];
            if j - 1 > p {
                assert(!seq_lt(sj.date@, s[p].date@));
                lemma_seq_lt_total(sj.date@, s[p].date@);
                if seq_lt(sj.date@, b.date@) {
                    if sj.date@ == s[p].date@ {
                        lemma_seq_lt_transitive(sj.date@, b.date@, s[p].date@);
                        lemma_seq_lt_irreflexive(sj.date@);
                    } else {
                        lemma_seq_lt_transitive(s[p].date@, sj.date@, b.date@);
                        lemma_seq_lt_transitive(b.date@, s[p].date@, b.date@);
                        lemma_seq_lt_irreflexive(b.date@);
                    }
                }
            } else {
                lemma_seq_lt_total(sj.date@, b.date@);
            }
        } else if j == p {
            assert(!seq_lt(b.date@, s[i].date@));
        } else {
            let i2 = if i < p { i } else { i - 1 };
            let j2 = if j < p { j } else { j - 1 };
            assert(!seq_lt(s[j2].date@, s[i2].date@));
        }
    }
}

/// A stable sort by date leaves the dates ascending.
pub proof fn lemma_sorted_by_date_ascending(s: Seq<AmpDailyUsageBucket>)
    ensures
        dates_ascending(sorted_by_date(s)),
        sorted_by_date(s).len() == s.len(),
    decreases s.len(),
{
    if s.len() > 0 {
        lemma_sorted_by_date_ascending(s.drop_last());
        let t = sorted_by_date(s.drop_last());
        lemma_date_slot_bounds(t, s.last());
        lemma_insert_keeps_ascending(t, s.last());
    }
}

proof fn lemma_sorted_by_date_permutes(s: Seq<AmpDailyUsageBucket>)
    ensures
        sorted_by_date(s).to_multiset() == s.to_multiset(),
    decreases s.len(),
{
    if s.len() > 0 {
        lemma_sorted_by_date_permutes(s.drop_last());
        let t = sorted_by_date(s.drop_last());
        assert(sorted_by_date(s) == t.insert(date_slot(t, s.last()), s.last()));
        lemma_date_slot_bounds(t, s.last());
        vstd::seq_lib::to_multiset_insert(t, date_slot(t, s.last()), s.last());
        assert(s.drop_last().push(s.last()) =~= s);
        vstd::seq_lib::to_multiset_build(s.drop_last(), s.last());
        assert(sorted_by_date(s).to_multiset() == t.to_multiset().insert(s.last()));
        assert(s.to_multiset() == s.drop_last().to_multiset().insert(s.last()));
    } else {
        assert(sorted_by_date(s) =~= s);
    }
}

/// Storing a fresh bucket leaves exactly one bucket for its day, the fresh one,
/// keeps every bucket of the other days, and leaves the dates in order.
pub proof fn law_upsert_keeps_one_bucket_per_day(old: Seq<AmpDailyUsageBucket>, b: AmpDailyUsageBucket)
    ensures
        ({
            let kept = other_days(old, b.date@);
            let r = sorted_by_date(kept.push(b));
            &&& dates_ascending(r)
            &&& r.to_multiset().count(b) == 1
            &&& forall|i: int| 0 <= i < r.len() && (#[trigger] r[i]).date@ == b.date@ ==> r[i] == b
            &&& r.to_multiset() == kept.to_multiset().insert(b)
            &&& forall|x: AmpDailyUsageBucket| #[trigger] kept.contains(x) ==> old.contains(x)
        }),
{
    broadcast use vstd::seq_lib::group_to_multiset_ensures;

    let kept = other_days(old, b.date@);
    let r = sorted_by_date(kept.push(b));
    lemma_sorted_by_date_ascending(kept.push(b));
    lemma_sorted_by_date_permutes(kept.push(b));
    vstd::seq_lib::to_multiset_build(kept, b);
    let pred = |x: AmpDailyUsageBucket| x.date@ != b.date@;
    assert(!kept.contains(b)) by {
        if kept.contains(b) {
            let i = choose|i: int| 0 <= i < kept.len() && kept[i] == b;
            old.lemma_filter_pred(pred, i);
        }
    }
    assert(kept.to_multiset().count(b) == 0);
    assert forall|i: int| 0 <= i < r.len() && (#[trigger] r[i]).date@ == b.date@ implies r[i] == b by {
        assert(r.contains(r[i]));
        assert(r.to_multiset().count(r[i]) > 0);
        if r[i] != b {
            assert(kept.to_multiset().count(r[i]) > 0);
            assert(kept.contains(r[i]));
            let j = choose|j: int| 0 <= j < kept.len() && kept[j] == r[i];
            old.lemma_filter_pred(pred, j);
        }
    }
    assert forall|x: AmpDailyUsageBucket| #[trigger] kept.contains(x) implies old.contains(x) by {
        old.lemma_filter_contains_rev(pred, x);
    }
}

/// No two buckets share a day.
pub open spec fn distinct_dates(s: Seq<AmpDailyUsageBucket>) -> bool {
    forall|i: int, j: int| 0 <= i < j < s.len() ==> (#[trigger] s[i]).date@ != (#[trigger] s[j]).date@
}

/// Some bucket is for day `d`.
pub open spec fn has_day(s: Seq<AmpDailyUsageBucket>, d: Seq<char>) -> bool {
    exists|i: int| 0 <= i < s.len() && (#[trigger] s[i]).date@ == d
}

/// The buckets after storing `b`: what `upsert_daily_bucket` makes of `old`.
pub open spec fn upserted(old: Seq<AmpDailyUsageBucket>, b: AmpDailyUsageBucket) -> Seq<AmpDailyUsageBucket> {
    sorted_by_date(other_days(old, b.date@).push(b))
}

proof fn lemma_other_days(s: Seq<AmpDailyUsageBucket>, d: Seq<char>)
    requires
        distinct_dates(s),
    ensures
        distinct_dates(other_days(s, d)),
        other_days(s, d).len() == if has_day(s, d) {
            s.len() - 1
        } else {
            s.len() as int
        },
        forall|i: int| 0 <= i < other_days(s, d).len() ==> (#[trigger] other_days(s, d)[i]).date@ != d,
        forall|i: int| 0 <= i < other_days(s, d).len() ==> s.contains(#[trigger] other_days(s, d)[i]),
    decreases s.len(),
{
    if s.len() == 0 {
        assert(other_days(s, d) =~= Seq::<AmpDailyUsageBucket>::empty()) by {
            reveal_with_fuel(Seq::filter, 1);
        }
        assert(!has_day(s, d));
    } else {
        let t = s.drop_last();
        let x = s.last();
        assert(distinct_dates(t)) by {
            assert forall|i: int, j: int| 0 <= i < j < t.len() implies (#[trigger] t[i]).date@ != (#[trigger] t[j]).date@ by {
                assert(t[i] == s[i] && t[j] == s[j]);
            }
        }
        lemma_other_days(t, d);
        let k = other_days(t, d);
        assert(other_days(s, d) == if x.date@ != d {
            k.push(x)
        } else {
            k
        }) by {
            reveal_with_fuel(Seq::filter, 1);
            assert(s.drop_last() =~= t);
        }
        assert forall|i: int| 0 <= i < k.len() implies (#[trigger] k[i]).date@ != x.date@ by {
            assert(t.contains(k[i]));
            let j = choose|j: int| 0 <= j < t.len() && t[j] == k[i];
            assert(s[j] == t[j]);
            assert(s[j].date@ != s[s.len() - 1].date@);
        }
        assert forall|i: int| 0 <= i < other_days(s, d).len() implies s.contains(#[trigger] other_days(s, d)[i]) by {
            let o = other_days(s, d);
            if i < k.len() {
                assert(o[i] == k[i]);
                assert(t.contains(k[i]));
                let j = choose|j: int| 0 <= j < t.len() && t[j] == k[i];
                assert(s[j] == t[j]);
            } else {
                assert(o[i] == x);
                assert(s[s.len() - 1] == x);
            }
        }
        if x.date@ == d {
            assert(!has_day(t, d)) by {
                if has_day(t, d) {
                    let j = choose|j: int| 0 <= j < t.len() && (#[trigger] t[j]).date@ == d;
                    assert(s[j] == t[j]);
                    assert(s[j].date@ != s[s.len() - 1].date@);
                }
            }
            assert(has_day(s, d)) by {
                assert(s[s.len() - 1].date@ == d);
            }
        } else {
            assert(has_day(s, d) == has_day(t, d)) by {
                if has_day(s, d) {
                    let j = choose|j: int| 0 <= j < s.len() && (#[trigger] s[j]).date@ == d;
                    assert(j < t.len());
                    assert(t[j] == s[j]);
                }
                if has_day(t, d) {
                    let j = choose|j: int| 0 <= j < t.len() && (#[trigger] t[j]).date@ == d;
                    assert(t[j] == s[j]);
                }
            }
            let kp = k.push(x);
            assert forall|i: int, j: int| 0 <= i < j < kp.len() implies (#[trigger] kp[i]).date@ != (#[trigger] kp[j]).date@ by {
                if j == k.len() {
                    assert(kp[i] == k[i]);
                } else {
                    assert(kp[i] == k[i] && kp[j] == k[j]);
                }
            }
            assert forall|i: int| 0 <= i < kp.len() implies (#[trigger] kp[i]).date@ != d by {
                if i < k.len() {
                    assert(kp[i] == k[i]);
                }
            }
        }
    }
}

proof fn lemma_sorted_distinct(s: Seq<AmpDailyUsageBucket>)
    requires
        distinct_dates(s),
    ensures
        distinct_dates(sorted_by_date(s)),
    decreases s.len(),
{
    broadcast use vstd::seq_lib::group_to_multiset_ensures;

    if s.len() > 0 {
        let t0 = s.drop_last();
        let x = s.last();
        assert(distinct_dates(t0)) by {
            assert forall|i: int, j: int| 0 <= i < j < t0.len() implies (#[trigger] t0[i]).date@ != (#[trigger] t0[j]).date@ by {
                assert(t0[i] == s[i] && t0[j] == s[j]);
            }
        }
        lemma_sorted_distinct(t0);
        lemma_sorted_by_date_permutes(t0);
        let t = sorted_by_date(t0);
        lemma_date_slot_bounds(t, x);
        let p = date_slot(t, x);
        assert forall|k: int| 0 <= k < t.len() implies (#[trigger] t[k]).date@ != x.date@ by {
            assert(t.contains(t[k]));
            assert(t.to_multiset().count(t[k]) > 0);
            assert(t0.contains(t[k]));
            let m = choose|m: int| 0 <= m < t0.len() && t0[m] == t[k];
            assert(s[m] == t0[m]);
            assert(s[m].date@ != s[s.len() - 1].date@);
        }
        let u = t.insert(p, x);
        assert(sorted_by_date(s) == u);
        assert forall|i: int, j: int| 0 <= i < j < u.len() implies (#[trigger] u[i]).date@ != (#[trigger] u[j]).date@ by {
            let i2 = if i < p { i } else { i - 1 };
            let j2 = if j < p { j } else { j - 1 };
            if i == p {
                assert(u[j] == t[j2]);
            } else if j == p {
                assert(u[i] == t[i2]);
            } else {
                assert(u[i] == t[i2] && u[j] == t[j2]);
            }
        }
    }
}

/// Two date-ascending sequences without a shared day that hold the same buckets
/// are the same sequence.
proof fn lemma_strictly_sorted_unique(s1: Seq<AmpDailyUsageBucket>, s2: Seq<AmpDailyUsageBucket>)
    requires
        dates_ascending(s1),
        dates_ascending(s2),
        distinct_dates(s1),
        distinct_dates(s2),
        forall|x: AmpDailyUsageBucket| s1.contains(x) <==> s2.contains(x),
    ensures
        s1 == s2,
    decreases s1.len() + s2.len(),
{
    if s1.len() == 0 {
        if s2.len() > 0 {
            assert(s2.contains(s2[0]));
        }
        assert(s1 =~= s2);
    } else if s2.len() == 0 {
        assert(s1.contains(s1[0]));
    } else {
        assert(s1.contains(s1[0]));
        assert(s2.contains(s2[0]));
        let k = choose|k: int| 0 <= k < s2.len() && s2[k] == s1[0];
        let m = choose|m: int| 0 <= m < s1.len() && s1[m] == s2[0];
        if k > 0 {
            assert(!seq_lt(s2[k].date@, s2[0].date@));
            assert(s2[0].date@ != s2[k].date@);
            lemma_seq_lt_total(s2[0].date@, s2[k].date@);
            if m > 0 {
                assert(!seq_lt(s1[m].date@, s1[0].date@));
            } else {
                lemma_seq_lt_irreflexive(s1[0].date@);
            }
            assert(false);
        }
        let r1 = s1.skip(1);
        let r2 = s2.skip(1);
        assert forall|x: AmpDailyUsageBucket| r1.contains(x) <==> r2.contains(x) by {
            if r1.contains(x) {
                let i = choose|i: int| 0 <= i < r1.len() && r1[i] == x;
                assert(s1[i + 1] == x);
                assert(s1.contains(x));
                let j = choose|j: int| 0 <= j < s2.len() && s2[j] == x;
                if j == 0 {
                    assert(s1[0].date@ != s1[i + 1].date@);
                }
                assert(r2[j - 1] == x);
            }
            if r2.contains(x) {
                let i = choose|i: int| 0 <= i < r2.len() && r2[i] == x;
                assert(s2[i + 1] == x);
                assert(s2.contains(x));
                let j = choose|j: int| 0 <= j < s1.len() && s1[j] == x;
                if j == 0 {
                    assert(s2[0].date@ != s2[i + 1].date@);
                }
                assert(r1[j - 1] == x);
            }
        }
        assert(dates_ascending(r1)) by {
            assert forall|i: int, j: int| 0 <= i < j < r1.len() implies !seq_lt(#[trigger] r1[j].date@, #[trigger] r1[i].date@) by {
                assert(r1[i] == s1[i + 1] && r1[j] == s1[j + 1]);
            }
        }
        assert(dates_ascending(r2)) by {
            assert forall|i: int, j: int| 0 <= i < j < r2.len() implies !seq_lt(#[trigger] r2[j].date@, #[trigger] r2[i].date@) by {
                assert(r2[i] == s2[i + 1] && r2[j] == s2[j + 1]);
            }
        }
        assert(distinct_dates(r1)) by {
            assert forall|i: int, j: int| 0 <= i < j < r1.len() implies (#[trigger] r1[i]).date@ != (#[trigger] r1[j]).date@ by {
                assert(r1[i] == s1[i + 1] && r1[j] == s1[j + 1]);
            }
        }
        assert(distinct_dates(r2)) by {
            assert forall|i: int, j: int| 0 <= i < j < r2.len() implies (#[trigger] r2[i]).date@ != (#[trigger] r2[j]).date@ by {
                assert(r2[i] == s2[i + 1] && r2[j] == s2[j + 1]);
            }
        }
        lemma_strictly_sorted_unique(r1, r2);
        assert(s1 =~= s2) by {
            assert forall|i: int| 0 <= i < s1.len() implies s1[i] == s2[i] by {
                if i > 0 {
                    assert(s1[i] == r1[i - 1] && s2[i] == r2[i - 1]);
                }
            }
        }
    }
}

/// Where no two buckets share a day, storing a bucket keeps it so; the buckets grow
/// by one only for a new day; and storing the same bucket again changes nothing.
pub proof fn law_upsert_keeps_days_distinct(old: Seq<AmpDailyUsageBucket>, b: AmpDailyUsageBucket)
    requires
        distinct_dates(old),
    ensures
        distinct_dates(upserted(old, b)),
        upserted(old, b).len() == if has_day(old, b.date@) {
            old.len() as int
        } else {
            old.len() + 1int
        },
        upserted(upserted(old, b), b) == upserted(old, b),
{
    broadcast use vstd::seq_lib::group_to_multiset_ensures;

    let d = b.date@;
    let kept = other_days(old, d);
    lemma_other_days(old, d);
    let kp = kept.push(b);
    assert(distinct_dates(kp)) by {
        assert forall|i: int, j: int| 0 <= i < j < kp.len() implies (#[trigger] kp[i]).date@ != (#[trigger] kp[j]).date@ by {
            if j == kept.len() {
                assert(kp[i] == kept[i]);
            } else {
                assert(kp[i] == kept[i] && kp[j] == kept[j]);
            }
        }
    }
    lemma_sorted_distinct(kp);
    lemma_sorted_by_date_ascending(kp);
    let r = upserted(old, b);
    law_upsert_keeps_one_bucket_per_day(old, b);
    law_upsert_keeps_one_bucket_per_day(r, b);
    let kept2 = other_days(r, d);
    lemma_other_days(r, d);
    let kp2 = kept2.push(b);
    assert(distinct_dates(kp2)) by {
        assert forall|i: int, j: int| 0 <= i < j < kp2.len() implies (#[trigger] kp2[i]).date@ != (#[trigger] kp2[j]).date@ by {
            if j == kept2.len() {
                assert(kp2[i] == kept2[i]);
            } else {
                assert(kp2[i] == kept2[i] && kp2[j] == kept2[j]);
            }
        }
    }
    lemma_sorted_distinct(kp2);
    lemma_sorted_by_date_ascending(kp2);
    let r2 = upserted(r, b);
    let pred = |b: AmpDailyUsageBucket| b.date@ != d;
    assert(r.contains(b)) by {
        assert(r.to_multiset().count(b) == 1);
    }
    assert forall|x: AmpDailyUsageBucket| r2.contains(x) <==> r.contains(x) by {
        if r2.contains(x) {
            assert(r2.to_multiset().count(x) > 0);
            assert(kept2.to_multiset().insert(b).count(x) > 0);
            if x != b {
                assert(kept2.to_multiset().count(x) > 0);
                assert(kept2.contains(x));
            }
        }
        if r.contains(x) {
            let i = choose|i: int| 0 <= i < r.len() && r[i] == x;
            if x.date@ == d {
                assert(r[i] == b);
                assert(kp2.to_multiset().count(b) > 0) by {
                    assert(kp2[kp2.len() - 1] == b);
                    assert(kp2.contains(b));
                }
            } else {
                r.lemma_filter_contains(pred, i);
                assert(kept2.contains(x));
                assert(kept2.to_multiset().count(x) > 0);
                assert(kept2.to_multiset().insert(b).count(x) > 0);
            }
            assert(r2.to_multiset().count(x) > 0);
        }
    }
    lemma_strictly_sorted_unique(r2, r);
}

/// Where `b` goes in `s`: the first position whose date sorts after the date of `b`.
fn find_date_slot(s: &Vec<AmpDailyUsageBucket>, b: &AmpDailyUsageBucket) -> (p: usize)
    ensures
        p == date_slot(s@, *b),
        p <= s@.len(),
{
    let mut p: usize = 0;
    assert(s@.skip(0) =~= s@);
    while p < s.len() && !str_lt(b.date.as_str(), s[p].date.as_str())
        invariant
            p <= s.len(),
            date_slot(s@, *b) == p + date_slot(s@.skip(p as int), *b),
        decreases s.len() - p,
    {
        assert(s@.skip(p as int).skip(1) =~= s@.skip(p + 1));
        p = p + 1;
    }
    p
}

/// Replaces the cached bucket of `bucket`'s day by `bucket` and keeps the buckets
/// sorted by date: every bucket of another day stays, in a stable sort by date.
pub fn upsert_daily_bucket(activity: &mut AmpActivityUsage, bucket: AmpDailyUsageBucket)
    ensures
        final(activity).daily_usage_buckets@ == sorted_by_date(
            other_days(old(activity).daily_usage_buckets@, bucket.date@).push(bucket),
        ),
        final(activity).daily_usage_buckets@ == upserted(old(activity).daily_usage_buckets@, bucket),
{
    let ghost start = activity.daily_usage_buckets@;
    let mut pending: Vec<AmpDailyUsageBucket> = Vec::new();
    std::mem::swap(&mut pending, &mut activity.daily_usage_buckets);
    let mut out: Vec<AmpDailyUsageBucket> = Vec::new();
    let ghost mut done: Seq<AmpDailyUsageBucket> = seq![];
    while pending.len() > 0
        invariant
            start == done + pending@,
            out@ == sorted_by_date(other_days(done, bucket.date@)),
        decreases pending.len(),
    {
        let b = pending.remove(0);
        proof {
            assert(other_days(done.push(b), bucket.date@) == if b.date@ != bucket.date@ {
                other_days(done, bucket.date@).push(b)
            } else {
                other_days(done, bucket.date@)
            }) by {
                reveal_with_fuel(Seq::filter, 1);
                assert(done.push(b).drop_last() =~= done);
            }
            assert(start == done.push(b) + pending@);
        }
        if !str_eq(b.date.as_str(), bucket.date.as_str()) {
            let p = find_date_slot(&out, &b);
            proof {
                let k = other_days(done, bucket.date@);
                assert(k.push(b).drop_last() =~= k);
            }
            out.insert(p, b);
        }
        proof {
            done = done.push(b);
        }
    }
    proof {
        assert(done =~= start);
        let k = other_days(start, bucket.date@);
        assert(k.push(bucket).drop_last() =~= k);
    }
    let p = find_date_slot(&out, &bucket);
    out.insert(p, bucket);
    activity.daily_usage_buckets = out;
}

/// The days to look up, newest first: today and the days before it, `days` in
/// all, as far back as chrono's calendar goes.
pub open spec fn lookup_days(today: int, days: int) -> Seq<i32> {
    let n = if days < today - MIN_DAY + 1 {
        days
    } else {
        today - MIN_DAY + 1
    };
    Seq::new(n as nat, |i: int| (today - i) as i32)
}

pub fn activity_dates(today: i32, days: usize) -> (r: Vec<i32>)
    requires
        valid_day(today as int),
    ensures
        r@ == lookup_days(today as int, days as int),
{
    let mut r: Vec<i32> = Vec::new();
    let mut k: usize = 0;
    let span: u64 = (today as i64 - MIN_DAY as i64) as u64;
    while k < days
        invariant
            k <= days,
            span == today - MIN_DAY,
            r@ == lookup_days(today as int, k as int),
        decreases days - k,
    {
        let ghost before = r@;
        if (k as u64) <= span {
            let d = (today as i64 - k as i64) as i32;
            r.push(d);
            proof {
                assert(lookup_days(today as int, k + 1) =~= before.push(d));
            }
        } else {
            proof {
                assert(lookup_days(today as int, k + 1) =~= before);
            }
        }
        k = k + 1;
    }
    r
}

/// The tokens of the entries labelled `label`.
pub open spec fn label_total(cats: Seq<AmpTokenCategory>, label: Seq<char>) -> nat
    decreases cats.len(),
{
    if cats.len() == 0 {
        0
    } else {
        label_total(cats.drop_last(), label) + if cats.last().label@ == label {
            cats.last().tokens as nat
        } else {
            0nat
        }
    }
}

/// `n`, capped at the largest `u64`.
pub open spec fn cap_u64(n: nat) -> int {
    if n > u64::MAX {
        u64::MAX as int
    } else {
        n as int
    }
}

/// Some entry of `cats` is labelled `label`.
pub open spec fn has_label(cats: Seq<AmpTokenCategory>, label: Seq<char>) -> bool {
    exists|i: int| 0 <= i < cats.len() && #[trigger] cats[i].label@ == label
}

/// `a` is listed before `b`: more tokens, or as many and an earlier label.
pub open spec fn ranks_before(a: (String, u64), b: (String, u64)) -> bool {
    a.1 > b.1 || (a.1 == b.1 && seq_lt(a.0@, b.0@))
}

/// `r` holds one entry per label of `cats`, with the label's total (capped), in
/// rank order.
pub open spec fn aggregates(r: Seq<(String, u64)>, cats: Seq<AmpTokenCategory>) -> bool {
    &&& forall|i: int|
        0 <= i < r.len() ==> has_label(cats, #[trigger] r[i].0@) && r[i].1 == cap_u64(
            label_total(cats, r[i].0@),
        )
    &&& forall|label: Seq<char>|
        #![trigger has_label(cats, label)]
        has_label(cats, label) ==> exists|i: int| 0 <= i < r.len() && r[i].0@ == label
    &&& forall|i: int, j: int| 0 <= i < j < r.len() ==> ranks_before(r[i], r[j])
}

/// Labels in strictly increasing order, each with its capped total over `cats`, and
/// every label of `cats` present.
spec fn by_label(v: Seq<(String, u64)>, cats: Seq<AmpTokenCategory>) -> bool {
    &&& forall|i: int, j: int| 0 <= i < j < v.len() ==> seq_lt(v[i].0@, v[j].0@)
    &&& forall|i: int|
        0 <= i < v.len() ==> has_label(cats, #[trigger] v[i].0@) && v[i].1 == cap_u64(
            label_total(cats, v[i].0@),
        )
    &&& forall|label: Seq<char>|
        #![trigger has_label(cats, label)]
        has_label(cats, label) ==> exists|i: int| 0 <= i < v.len() && v[i].0@ == label
}

proof fn lemma_label_total_step(cats: Seq<AmpTokenCategory>, k: int, label: Seq<char>)
    requires
        0 <= k < cats.len(),
    ensures
        label_total(cats.take(k + 1), label) == label_total(cats.take(k), label) + if cats[k].label@
            == label {
            cats[k].tokens as nat
        } else {
            0nat
        },
        has_label(cats.take(k + 1), label) <==> has_label(cats.take(k), label) || cats[k].label@
            == label,
{
    assert(cats.take(k + 1).drop_last() =~= cats.take(k));
    if has_label(cats.take(k + 1), label) {
        let i = choose|i: int| 0 <= i < cats.take(k + 1).len() && #[trigger] cats.take(k + 1)[i].label@ == label;
        if i < k {
            assert(cats.take(k)[i].label@ == label);
        }
    }
    if has_label(cats.take(k), label) {
        let i = choose|i: int| 0 <= i < cats.take(k).len() && #[trigger] cats.take(k)[i].label@ == label;
        assert(cats.take(k + 1)[i].label@ == label);
    }
    if cats[k].label@ == label {
        assert(cats.take(k + 1)[k].label@ == label);
    }
}

proof fn lemma_label_total_absent(cats: Seq<AmpTokenCategory>, label: Seq<char>)
    requires
        !has_label(cats, label),
    ensures
        label_total(cats, label) == 0,
    decreases cats.len(),
{
    if cats.len() > 0 {
        assert(cats.last().label@ != label) by {
            if cats.last().label@ == label {
                assert(cats[cats.len() - 1].label@ == label);
            }
        }
        assert(!has_label(cats.drop_last(), label)) by {
            if has_label(cats.drop_last(), label) {
                let i = choose|i: int| 0 <= i < cats.drop_last().len() && #[trigger] cats.drop_last()[i].label@ == label;
                assert(cats[i].label@ == label);
            }
        }
        lemma_label_total_absent(cats.drop_last(), label);
    }
}

/// The per-label totals of `cats` (a label's tokens added up, stopping at the
/// largest `u64`), most tokens first and equal totals by label.
pub fn aggregate_categories(cats: &[AmpTokenCategory]) -> (r: Vec<(String, u64)>)
    ensures
        aggregates(r@, cats@),
{
    let mut v: Vec<(String, u64)> = Vec::new();
    let mut k: usize = 0;
    while k < cats.len()
        invariant
            k <= cats.len(),
            by_label(v@, cats@.take(k as int)),
        decreases cats.len() - k,
    {
        let c = &cats[k];
        let ghost pre = cats@.take(k as int);
        let ghost post = cats@.take(k + 1);
        proof {
            assert forall|label: Seq<char>| #[trigger] label_total(post, label) == label_total(pre, label)
                + if c.label@ == label { c.tokens as nat } else { 0nat } by {
                lemma_label_total_step(cats@, k as int, label);
            }
            assert forall|label: Seq<char>| #[trigger] has_label(post, label) <==> has_label(pre, label)
                || c.label@ == label by {
                lemma_label_total_step(cats@, k as int, label);
            }
        }
        let mut p: usize = 0;
        while p < v.len() && str_lt(v[p].0.as_str(), c.label.as_str())
            invariant
                p <= v.len(),
                forall|j: int| 0 <= j < p ==> seq_lt(v@[j].0@, c.label@),
            decreases v.len() - p,
        {
            p = p + 1;
        }
        let ghost old_v = v@;
        if p < v.len() && str_eq(v[p].0.as_str(), c.label.as_str()) {
            let total = v[p].1.saturating_add(c.tokens);
            let label = v[p].0.clone();
            v.set(p, (label, total));
            proof {
                assert forall|i: int| 0 <= i < v@.len() implies has_label(post, #[trigger] v@[i].0@)
                    && v@[i].1 == cap_u64(label_total(post, v@[i].0@)) by {
                    if i != p {
                        if i < p {
                            assert(seq_lt(old_v[i].0@, old_v[p as int].0@));
                        } else {
                            assert(seq_lt(old_v[p as int].0@, old_v[i].0@));
                        }
                        lemma_seq_lt_irreflexive(c.label@);
                    }
                }
                assert forall|label: Seq<char>| #![trigger has_label(post, label)]
                    has_label(post, label) implies exists|i: int| 0 <= i < v@.len() && v@[i].0@ == label by {
                    if label == c.label@ {
                        assert(v@[p as int].0@ == label);
                    } else {
                        assert(has_label(pre, label));
                        let i = choose|i: int| 0 <= i < old_v.len() && old_v[i].0@ == label;
                        assert(v@[i].0@ == label);
                    }
                }
            }
        } else {
            let label = c.label.clone();
            v.insert(p, (label, c.tokens));
            proof {
                assert(v@ == old_v.insert(p as int, (label, c.tokens)));
                if p < old_v.len() {
                    lemma_seq_lt_total(old_v[p as int].0@, c.label@);
                }
                assert forall|a: int, b: int| 0 <= a < b < v@.len() implies seq_lt(v@[a].0@, v@[b].0@) by {
                    if b == p {
                    } else if a == p {
                        if b - 1 > p {
                            lemma_seq_lt_transitive(c.label@, old_v[p as int].0@, old_v[b - 1].0@);
                        }
                    } else {
                        let a2 = if a < p { a } else { a - 1 };
                        let b2 = if b < p { b } else { b - 1 };
                        assert(seq_lt(old_v[a2].0@, old_v[b2].0@));
                    }
                }
                assert forall|i: int| 0 <= i < v@.len() implies has_label(post, #[trigger] v@[i].0@)
                    && v@[i].1 == cap_u64(label_total(post, v@[i].0@)) by {
                    if i != p {
                        let i2 = if i < p { i } else { i - 1 };
                        if i < p {
                            lemma_seq_lt_irreflexive(c.label@);
                        } else {
                            if i2 > p {
                                lemma_seq_lt_transitive(c.label@, old_v[p as int].0@, old_v[i2].0@);
                            }
                            lemma_seq_lt_irreflexive(c.label@);
                        }
                        assert(old_v[i2].0@ != c.label@);
                    } else {
                        if has_label(pre, c.label@) {
                            let j = choose|j: int| 0 <= j < old_v.len() && old_v[j].0@ == c.label@;
                            if j < p {
                                lemma_seq_lt_irreflexive(c.label@);
                            } else if j > p {
                                lemma_seq_lt_transitive(c.label@, old_v[p as int].0@, old_v[j].0@);
                                lemma_seq_lt_irreflexive(c.label@);
                            }
                        }
                        lemma_label_total_absent(pre, c.label@);
                        assert(label_total(post, c.label@) == c.tokens as nat);
                    }
                }
                assert forall|label: Seq<char>| #![trigger has_label(post, label)]
                    has_label(post, label) implies exists|i: int| 0 <= i < v@.len() && v@[i].0@ == label by {
                    if label == c.label@ {
                        assert(v@[p as int].0@ == label);
                    } else {
                        assert(has_label(pre, label));
                        let i = choose|i: int| 0 <= i < old_v.len() && old_v[i].0@ == label;
                        if i < p {
                            assert(v@[i].0@ == label);
                        } else {
                            assert(v@[i + 1].0@ == label);
                        }
                    }
                }
            }
        }
        k = k + 1;
    }
    assert(cats@.take(cats@.len() as int) =~= cats@);
    rank_by_tokens(v, Ghost(cats@))
}

/// The entries of `v` (labels strictly increasing) reordered by rank: a stable sort
/// by tokens, most first.
fn rank_by_tokens(v: Vec<(String, u64)>, Ghost(cats): Ghost<Seq<AmpTokenCategory>>) -> (r: Vec<(String, u64)>)
    requires
        by_label(v@, cats),
    ensures
        aggregates(r@, cats),
{
    broadcast use vstd::seq_lib::group_to_multiset_ensures;

    let ghost all = v@;
    let mut pending = v;
    let mut ranked: Vec<(String, u64)> = Vec::new();
    let ghost mut done: Seq<(String, u64)> = seq![];
    while pending.len() > 0
        invariant
            all == done + pending@,
            by_label(all, cats),
            ranked@.to_multiset() == done.to_multiset(),
            forall|i: int, j: int| 0 <= i < j < ranked@.len() ==> ranks_before(ranked@[i], ranked@[j]),
            forall|i: int, j: int|
                0 <= i < ranked@.len() && 0 <= j < pending@.len() ==> seq_lt(
                    ranked@[i].0@,
                    pending@[j].0@,
                ),
        decreases pending.len(),
    {
        let ghost pend = pending@;
        let e = pending.remove(0);
        proof {
            assert(pend[0] == e);
            assert(all == done.push(e) + pending@);
            assert forall|j: int| 0 <= j < pending@.len() implies seq_lt(e.0@, pending@[j].0@) by {
                assert(all[done.len() as int] == e);
                assert(all[done.len() + 1 + j] == pending@[j]);
            }
        }
        let mut q: usize = 0;
        while q < ranked.len() && ranked[q].1 >= e.1
            invariant
                q <= ranked.len(),
                forall|j: int| 0 <= j < q ==> ranked@[j].1 >= e.1,
            decreases ranked.len() - q,
        {
            q = q + 1;
        }
        let ghost old_r = ranked@;
        ranked.insert(q, e);
        proof {
            assert(ranked@ == old_r.insert(q as int, e));
            vstd::seq_lib::to_multiset_insert(old_r, q as int, e);
            vstd::seq_lib::to_multiset_build(done, e);
            assert forall|a: int, b: int| 0 <= a < b < ranked@.len() implies ranks_before(ranked@[a], ranked@[b]) by {
                if b == q {
                    assert(seq_lt(old_r[a].0@, pend[0].0@));
                } else if a == q {
                    assert(old_r[q as int].1 < e.1);
                    if b - 1 > q {
                        assert(ranks_before(old_r[q as int], old_r[b - 1]));
                    }
                } else {
                    let a2 = if a < q { a } else { a - 1 };
                    let b2 = if b < q { b } else { b - 1 };
                    assert(ranks_before(old_r[a2], old_r[b2]));
                }
            }
            assert forall|i: int, j: int|
                0 <= i < ranked@.len() && 0 <= j < pending@.len() implies seq_lt(
                    ranked@[i].0@,
                    pending@[j].0@,
                ) by {
                if i != q {
                    let i2 = if i < q { i } else { i - 1 };
                    assert(seq_lt(old_r[i2].0@, pend[j + 1].0@));
                }
            }
            done = done.push(e);
        }
    }
    proof {
        assert(done =~= all);
        assert forall|i: int| 0 <= i < ranked@.len() implies has_label(cats, #[trigger] ranked@[i].0@)
            && ranked@[i].1 == cap_u64(label_total(cats, ranked@[i].0@)) by {
            assert(ranked@.contains(ranked@[i]));
            assert(ranked@.to_multiset().count(ranked@[i]) > 0);
            assert(all.to_multiset().count(ranked@[i]) > 0);
            assert(all.contains(ranked@[i]));
            let j = choose|j: int| 0 <= j < all.len() && all[j] == ranked@[i];
            assert(has_label(cats, all[j].0@));
        }
        assert forall|label: Seq<char>| #![trigger has_label(cats, label)]
            has_label(cats, label) implies exists|i: int| 0 <= i < ranked@.len() && ranked@[i].0@ == label by {
            let j = choose|j: int| 0 <= j < all.len() && all[j].0@ == label;
            assert(all.contains(all[j]));
            assert(all.to_multiset().count(all[j]) > 0);
            assert(ranked@.to_multiset().count(all[j]) > 0);
            assert(ranked@.contains(all[j]));
            let i = choose|i: int| 0 <= i < ranked@.len() && ranked@[i] == all[j];
            assert(ranked@[i].0@ == label);
        }
    }
    ranked
}

} // verus!
