//! Reading the text that `amp usage` prints: the subscription line, the Orb runtime,
//! the credits, the daily totals and the markdown tables of sources, models and
//! costs.

use vstd::prelude::*;
use crate::amp::{AmpDailyUsageBucket, AmpTokenCategory};
use crate::config::AiDisplayConfig;
use crate::plan_limits::{char_index_from, find_char};
use crate::model::ProviderState;
use crate::dates::{date_text, format_date, valid_day};
use crate::probe::{lines, split_lines};
use crate::text::{
    captures, chars_of, contains_seq, contains_chars, find_from, occurs_at, opt_view,
    parse_unsigned, parse_unsigned_chars, regex_captures, slice_to_vec_range, starts_with,
    string_of, strip_prefix_chars, trim, trimmed, str_eq,
};

verus! {

/// The first index at or after `from` where `needle` occurs in `hay`.
pub open spec fn first_match(hay: Seq<char>, needle: Seq<char>, from: int) -> Option<int>
    decreases hay.len() + 1 - from,
{
    if from < 0 || from > hay.len() {
        None
    } else if occurs_at(hay, needle, from) {
        Some(from)
    } else {
        first_match(hay, needle, from + 1)
    }
}

proof fn lemma_first_match_none(hay: Seq<char>, needle: Seq<char>, from: int)
    requires
        0 <= from,
        forall|j: int| from <= j ==> !occurs_at(hay, needle, j),
    ensures
        first_match(hay, needle, from) is None,
    decreases hay.len() + 1 - from,
{
    if from <= hay.len() {
        lemma_first_match_none(hay, needle, from + 1);
    }
}

proof fn lemma_first_match_some(hay: Seq<char>, needle: Seq<char>, from: int, i: int)
    requires
        0 <= from <= i,
        occurs_at(hay, needle, i),
        forall|j: int| from <= j < i ==> !occurs_at(hay, needle, j),
    ensures
        first_match(hay, needle, from) == Some(i),
    decreases i - from,
{
    if from < i {
        lemma_first_match_some(hay, needle, from + 1, i);
    }
}

/// Where `needle` first occurs in `hay`.
fn find_first(hay: &[char], needle: &[char]) -> (r: Option<usize>)
    ensures
        match r {
            Some(i) => first_match(hay@, needle@, 0) == Some(i as int),
            None => first_match(hay@, needle@, 0) is None,
        },
{
    let r = find_from(hay, needle, 0);
    proof {
        match r {
            Some(i) => lemma_first_match_some(hay@, needle@, 0, i as int),
            None => lemma_first_match_none(hay@, needle@, 0),
        }
    }
    r
}

/// `s.split(marker).nth(1)`: the text between the first occurrence of `marker` and
/// the next one (or the end).
pub open spec fn section_after(s: Seq<char>, marker: Seq<char>) -> Option<Seq<char>> {
    match first_match(s, marker, 0) {
        None => None,
        Some(i) => {
            let rest = s.skip(i + marker.len());
            match first_match(rest, marker, 0) {
                Some(j) => Some(rest.take(j)),
                None => Some(rest),
            }
        },
    }
}

/// The lines up to the first that starts a new `## ` section.
pub open spec fn before_next_heading(ls: Seq<Seq<char>>) -> Seq<Seq<char>>
    decreases ls.len(),
{
    if ls.len() == 0 || starts_with(ls[0], "## "@) {
        seq![]
    } else {
        seq![ls[0]] + before_next_heading(ls.skip(1))
    }
}

/// The table lines: those that start with `|` and are not a `| ---` rule.
pub open spec fn table_lines(ls: Seq<Seq<char>>) -> Seq<Seq<char>> {
    ls.filter(|l: Seq<char>| starts_with(l, "|"@) && !contains_seq(l, "| ---"@))
}

/// `s` without leading and trailing `|` characters (`str::trim_matches('|')`).
pub open spec fn strip_bars(s: Seq<char>) -> Seq<char>
    decreases s.len(),
{
    if s.len() > 0 && s[0] == '|' {
        strip_bars(s.skip(1))
    } else if s.len() > 0 && s.last() == '|' {
        strip_bars(s.drop_last())
    } else {
        s
    }
}

/// The pieces of `s` between `|` separators, with the piece being read
/// (`str::split('|')`).
pub open spec fn bar_scan(s: Seq<char>) -> (Seq<Seq<char>>, Seq<char>)
    decreases s.len(),
{
    if s.len() == 0 {
        (seq![], seq![])
    } else {
        let (done, cur) = bar_scan(s.drop_last());
        if s.last() == '|' {
            (done.push(cur), seq![])
        } else {
            (done, cur.push(s.last()))
        }
    }
}

/// The trimmed cells of a table line.
pub open spec fn cells(line: Seq<char>) -> Seq<Seq<char>> {
    let (done, cur) = bar_scan(strip_bars(line));
    done.push(cur).map_values(|c: Seq<char>| trim(c))
}

/// The body rows of the markdown table under `## <heading>`, as trimmed cells; the
/// header row is skipped. No rows when the heading does not occur.
pub open spec fn table_of(output: Seq<char>, heading: Seq<char>) -> Seq<Seq<Seq<char>>> {
    match section_after(output, "## "@ + heading) {
        None => seq![],
        Some(section) => {
            let rows = table_lines(before_next_heading(lines(section)));
            rows.skip(if rows.len() > 0 { 1int } else { 0int }).map_values(|l: Seq<char>| cells(l))
        },
    }
}

fn bars_stripped(v: &[char]) -> (r: Vec<char>)
    ensures
        r@ == strip_bars(v@),
{
    let mut lo: usize = 0;
    let mut hi: usize = v.len();
    assert(v@.subrange(0, v@.len() as int) =~= v@);
    while lo < hi && (v[lo] == '|' || v[hi - 1] == '|')
        invariant
            lo <= hi <= v.len(),
            strip_bars(v@) == strip_bars(v@.subrange(lo as int, hi as int)),
        decreases hi - lo,
    {
        let ghost s = v@.subrange(lo as int, hi as int);
        if v[lo] == '|' {
            assert(s.skip(1) =~= v@.subrange(lo + 1, hi as int));
            lo = lo + 1;
        } else {
            assert(s.drop_last() =~= v@.subrange(lo as int, hi - 1));
            hi = hi - 1;
        }
    }
    assert(v@.subrange(0, v@.len() as int) =~= v@);
    slice_to_vec_range(v, lo, hi)
}

fn row_cells(line: &[char]) -> (r: Vec<String>)
    ensures
        r@.len() == cells(line@).len(),
        forall|i: int| 0 <= i < r@.len() ==> #[trigger] r@[i]@ == cells(line@)[i],
{
    let s = bars_stripped(line);
    let mut out: Vec<String> = Vec::new();
    let mut cur: Vec<char> = Vec::new();
    let mut k: usize = 0;
    let ghost pieces = bar_scan(s@).0.push(bar_scan(s@).1);
    while k < s.len()
        invariant
            k <= s.len(),
            out@.len() == bar_scan(s@.take(k as int)).0.len(),
            forall|i: int| 0 <= i < out@.len() ==> #[trigger] out@[i]@ == trim(bar_scan(s@.take(k as int)).0[i]),
            cur@ == bar_scan(s@.take(k as int)).1,
        decreases s.len() - k,
    {
        assert(s@.take(k + 1).drop_last() =~= s@.take(k as int));
        if s[k] == '|' {
            let cell = trimmed(cur.as_slice(), 0, cur.len());
            assert(cur@.subrange(0, cur@.len() as int) =~= cur@);
            out.push(string_of(cell.as_slice()));
            cur = Vec::new();
        } else {
            cur.push(s[k]);
        }
        k = k + 1;
    }
    assert(s@.take(s@.len() as int) =~= s@);
    let cell = trimmed(cur.as_slice(), 0, cur.len());
    assert(cur@.subrange(0, cur@.len() as int) =~= cur@);
    out.push(string_of(cell.as_slice()));
    out
}

/// The text between the first `marker` and the next one.
fn section_of(output: &[char], marker: &[char]) -> (r: Option<Vec<char>>)
    ensures
        match section_after(output@, marker@) {
            Some(s) => r matches Some(v) && v@ == s,
            None => r is None,
        },
{
    match find_first(output, marker) {
        None => None,
        Some(i) => {
            proof {
                assert(occurs_at(output@, marker@, i as int)) by {
                    reveal_with_fuel(first_match, 1);
                    lemma_first_match_occurs(output@, marker@, 0);
                }
            }
            let total = output.len();
            proof {
                lemma_first_match_occurs(output@, marker@, 0);
                assert(occurs_at(output@, marker@, i as int));
                assert(i + marker@.len() <= output@.len());
            }
            let rest = slice_to_vec_range(output, i + marker.len(), total);
            assert(rest@ =~= output@.skip(i + marker@.len()));
            match find_first(rest.as_slice(), marker) {
                Some(j) => {
                    proof {
                        lemma_first_match_occurs(rest@, marker@, 0);
                    }
                    let part = slice_to_vec_range(rest.as_slice(), 0, j);
                    assert(part@ =~= rest@.take(j as int));
                    Some(part)
                },
                None => Some(rest),
            }
        },
    }
}

proof fn lemma_first_match_occurs(hay: Seq<char>, needle: Seq<char>, from: int)
    ensures
        first_match(hay, needle, from) matches Some(i) ==> from <= i && occurs_at(hay, needle, i),
    decreases hay.len() + 1 - from,
{
    if 0 <= from <= hay.len() && !occurs_at(hay, needle, from) {
        lemma_first_match_occurs(hay, needle, from + 1);
    }
}

/// The body rows of the markdown table under `## <heading>`, as trimmed cells.
pub fn table_rows(output: &str, heading: &str) -> (r: Vec<Vec<String>>)
    ensures
        r@.len() == table_of(output@, heading@).len(),
        forall|i: int|
            0 <= i < r@.len() ==> (#[trigger] r@[i])@.len() == table_of(output@, heading@)[i].len()
                && forall|j: int| 0 <= j < r@[i]@.len() ==> #[trigger] r@[i]@[j]@ == table_of(output@, heading@)[i][j],
{
    let text = chars_of(output);
    let mut marker_text = String::from_str("## ");
    marker_text.append(heading);
    let marker = chars_of(marker_text.as_str());
    let section = match section_of(text.as_slice(), marker.as_slice()) {
        Some(s) => s,
        None => return Vec::new(),
    };
    let ls = split_lines(section.as_slice());
    let ghost body = before_next_heading(lines(section@));
    let ghost rows = table_lines(body);
    let rule = chars_of("| ---");
    let mut out: Vec<Vec<String>> = Vec::new();
    let mut seen_header = false;
    let mut k: usize = 0;
    let ghost mut taken: Seq<Seq<char>> = seq![];
    assert(lines(section@).skip(0) =~= lines(section@));
    while k < ls.len() && !(ls[k].len() >= 3 && ls[k][0] == '#' && ls[k][1] == '#' && ls[k][2] == ' ')
        invariant
            k <= ls.len(),
            rule@ == "| ---"@,
            ls@.len() == lines(section@).len(),
            forall|i: int| 0 <= i < ls@.len() ==> #[trigger] ls@[i]@ == lines(section@)[i],
            body == taken + before_next_heading(lines(section@).skip(k as int)),
            taken.len() == k,
            seen_header == (table_lines(taken).len() > 0),
            out@.len() == if table_lines(taken).len() > 0 { table_lines(taken).len() - 1 } else { 0 },
            forall|i: int|
                0 <= i < out@.len() ==> (#[trigger] out@[i])@.len() == cells(table_lines(taken)[i + 1]).len()
                    && forall|j: int| 0 <= j < out@[i]@.len() ==> #[trigger] out@[i]@[j]@ == cells(table_lines(taken)[i + 1])[j],
        decreases ls.len() - k,
    {
        let line = &ls[k];
        let ghost ln = lines(section@)[k as int];
        let ghost tail = lines(section@).skip(k as int);
        proof {
            reveal_strlit("## ");
            reveal_strlit("|");
            assert(tail[0] == ln);
            assert(line@ == ln);
            assert(!starts_with(ln, "## "@)) by {
                if starts_with(ln, "## "@) {
                    let p = ln.subrange(0, 3);
                    assert(p == "## "@);
                    assert(p[0] == '#' && p[1] == '#' && p[2] == ' ');
                    assert(ln[0] == p[0] && ln[1] == p[1] && ln[2] == p[2]);
                }
            }
            assert(tail.skip(1) =~= lines(section@).skip(k + 1));
            assert(before_next_heading(tail) == seq![ln] + before_next_heading(tail.skip(1)));
            reveal_with_fuel(Seq::filter, 1);
            assert(taken.push(ln).drop_last() =~= taken);
        }
        let is_table = line.len() > 0 && line[0] == '|' && !contains_chars(line.as_slice(), rule.as_slice());
        proof {
            reveal_strlit("|");
            assert(starts_with(ln, "|"@) <==> (ln.len() > 0 && ln[0] == '|')) by {
                if starts_with(ln, "|"@) {
                    let p = ln.subrange(0, 1);
                    assert(p[0] == '|');
                    assert(ln[0] == p[0]);
                }
                if ln.len() > 0 && ln[0] == '|' {
                    assert(ln.subrange(0, 1) =~= "|"@);
                }
            }
        }
        if is_table {
            if seen_header {
                let row = row_cells(line.as_slice());
                out.push(row);
            }
            seen_header = true;
        }
        proof {
            taken = taken.push(ln);
            assert(seq![ln] + before_next_heading(tail.skip(1)) =~= seq![ln] + before_next_heading(lines(section@).skip(k + 1)));
            assert(body =~= taken + before_next_heading(lines(section@).skip(k + 1)));
        }
        k = k + 1;
    }
    proof {
        reveal_strlit("## ");
        let tail = lines(section@).skip(k as int);
        if k < ls.len() {
            assert(tail[0] == lines(section@)[k as int]);
            assert(starts_with(tail[0], "## "@)) by {
                assert(ls@[k as int]@.subrange(0, 3) =~= "## "@);
            }
        }
        assert(before_next_heading(tail) == Seq::<Seq<char>>::empty());
        assert(body =~= taken);
        let rs = table_lines(taken);
        let skipped = rs.skip(if rs.len() > 0 { 1int } else { 0int }).map_values(|l: Seq<char>| cells(l));
        assert(skipped.len() == out@.len());
    }
    out
}

/// The categories of the table under `## <heading>`: a label and a token count per
/// row, skipping rows without two cells or whose count (commas removed) is not a
/// `u64`.
pub open spec fn categories_of(rows: Seq<Seq<Seq<char>>>) -> Seq<(Seq<char>, u64)>
    decreases rows.len(),
{
    if rows.len() == 0 {
        seq![]
    } else {
        let rest = categories_of(rows.drop_last());
        let row = rows.last();
        if row.len() >= 2 {
            match parse_unsigned(crate::layout::without_commas(row[1]), u64::MAX as nat) {
                Some(n) => rest.push((row[0], n as u64)),
                None => rest,
            }
        } else {
            rest
        }
    }
}

pub fn token_categories(output: &str, heading: &str) -> (r: Vec<AmpTokenCategory>)
    ensures
        r@.len() == categories_of(table_of(output@, heading@)).len(),
        forall|i: int|
            0 <= i < r@.len() ==> (#[trigger] r@[i]).label@ == categories_of(table_of(output@, heading@))[i].0
                && r@[i].tokens == categories_of(table_of(output@, heading@))[i].1,
{
    let rows = table_rows(output, heading);
    let ghost t = table_of(output@, heading@);
    let mut out: Vec<AmpTokenCategory> = Vec::new();
    let mut k: usize = 0;
    while k < rows.len()
        invariant
            k <= rows.len(),
            rows@.len() == t.len(),
            t == table_of(output@, heading@),
            forall|i: int|
                0 <= i < rows@.len() ==> (#[trigger] rows@[i])@.len() == t[i].len()
                    && forall|j: int| 0 <= j < rows@[i]@.len() ==> #[trigger] rows@[i]@[j]@ == t[i][j],
            out@.len() == categories_of(t.take(k as int)).len(),
            forall|i: int|
                0 <= i < out@.len() ==> (#[trigger] out@[i]).label@ == categories_of(t.take(k as int))[i].0
                    && out@[i].tokens == categories_of(t.take(k as int))[i].1,
        decreases rows.len() - k,
    {
        assert(t.take(k + 1).drop_last() =~= t.take(k as int));
        let row = &rows[k];
        if row.len() >= 2 {
            let count = chars_of(row[1].as_str());
            let digits = crate::layout::strip_commas(count.as_slice());
            match parse_unsigned_chars(digits.as_slice(), u64::MAX) {
                Some(n) => {
                    let label = row[0].clone();
                    out.push(AmpTokenCategory { label, tokens: n });
                },
                None => {},
            }
        }
        k = k + 1;
    }
    assert(t.take(t.len() as int) =~= t);
    out
}

/// The escape sequences a terminal interprets (CSI, OSC and two-character ones).
pub const ANSI_PATTERN: &'static str = "\\x1b(?:\\[[0-?]*[ -/]*[@-~]|\\][^\\x07]*(?:\\x07|\\x1b\\\\)|[ -/]*[@-~])";

/// The subscription line: the plan (`Amp <plan> Subscription` or `Subscription
/// <plan>`), the other-usage percentage, the optional Orb percentage and the
/// optional reset text.
pub const SUBSCRIPTION_PATTERN: &'static str = "(?i)(?:Amp\\s+([^:\\r\\n]+?)\\s+Subscription|Subscription\\s+([^:\\r\\n]+)):\\s*([0-9]+(?:\\.[0-9]+)?)%\\s+other usage(?:\\s+and\\s+([0-9]+(?:\\.[0-9]+)?)%\\s+orb usage)?\\s+remaining(?:\\s+-\\s+([^\\r\\n]+))?";

/// The Orb runtime line.
pub const ORB_RUNTIME_PATTERN: &'static str = "(?im)^Total Orb runtime:\\s*([^\\r\\n(]+)";

/// The individual-credits line.
pub const CREDITS_PATTERN: &'static str = "(?im)^Individual credits(?: remaining)?:\\s*([^\\s]+)(?:\\s+remaining)?";

/// The total-tokens line of a day.
pub const TOKENS_PATTERN: &'static str = "(?im)^Total tokens:\\s*([0-9,]+)";

/// The Orb runtime of a day, in milliseconds.
pub const ORB_MILLIS_PATTERN: &'static str = "(?im)^Total Orb runtime:.*\\(([0-9,]+) ms\\)";

/// What `Regex::new(pattern)` and `replace_all(text, replacement)` give: the text
/// with every match replaced, or `None` when the pattern does not compile.
pub uninterp spec fn regex_replaced(pattern: Seq<char>, text: Seq<char>, replacement: Seq<char>) -> Option<Seq<char>>;

/// Calls `regex::Regex::new(pattern)` and `Regex::replace_all(text, replacement)`;
/// the result depends on the three texts alone and is named `regex_replaced`.
#[verifier::external_body]
fn replace_all(pattern: &str, text: &str, replacement: &str) -> (r: Option<String>)
    ensures
        match r {
            Some(s) => regex_replaced(pattern@, text@, replacement@) == Some(s@),
            None => regex_replaced(pattern@, text@, replacement@) is None,
        },
{
    regex::Regex::new(pattern).ok().map(|re| re.replace_all(text, replacement).to_string())
}

/// `s` with each `**` removed, left to right (`str::replace("**", "")`).
pub open spec fn without_bold(s: Seq<char>) -> Seq<char>
    decreases s.len(),
{
    if s.len() >= 2 && s[0] == '*' && s[1] == '*' {
        without_bold(s.skip(2))
    } else if s.len() > 0 {
        seq![s[0]] + without_bold(s.skip(1))
    } else {
        seq![]
    }
}

/// The output with terminal escapes and markdown bold markers removed.
pub open spec fn cleaned_text(output: Seq<char>) -> Seq<char> {
    match regex_replaced(ANSI_PATTERN@, output, ""@) {
        Some(t) => without_bold(t),
        None => without_bold(output),
    }
}

/// `output` without escape sequences and `**` markers.
pub fn clean_output(output: &str) -> (r: Vec<char>)
    ensures
        r@ == cleaned_text(output@),
{
    let plain = match replace_all(ANSI_PATTERN, output, "") {
        Some(t) => t,
        None => String::from_str(output),
    };
    let v = chars_of(plain.as_str());
    let mut out: Vec<char> = Vec::new();
    let mut i: usize = 0;
    assert(v@.skip(0) =~= v@);
    while i < v.len()
        invariant
            i <= v.len(),
            out@ + without_bold(v@.skip(i as int)) == without_bold(v@),
        decreases v.len() - i,
    {
        let ghost rest = v@.skip(i as int);
        if i + 1 < v.len() && v[i] == '*' && v[i + 1] == '*' {
            assert(rest.skip(2) =~= v@.skip(i + 2));
            i = i + 2;
        } else {
            assert(rest.skip(1) =~= v@.skip(i + 1));
            out.push(v[i]);
            assert(out@ + without_bold(v@.skip(i + 1)) =~= out@.drop_last() + (seq![v@[i as int]] + without_bold(rest.skip(1))));
            i = i + 1;
        }
    }
    assert(v@.skip(i as int) =~= Seq::<char>::empty());
    assert(out@ + Seq::<char>::empty() =~= out@);
    out
}

/// Account usage as `amp usage` reports it. The percentages are the decimal
/// numbers as printed (`82`, `64.5`).
#[derive(Clone, Debug)]
pub struct AmpUsage {
    pub plan: Option<String>,
    pub other_percent_remaining: Option<String>,
    pub orb_percent_remaining: Option<String>,
    pub orb_runtime: Option<String>,
    pub individual_credits_remaining: Option<String>,
    pub reset: Option<String>,
}

/// The usage as texts.
pub struct UsageText {
    pub plan: Option<Seq<char>>,
    pub other_percent_remaining: Option<Seq<char>>,
    pub orb_percent_remaining: Option<Seq<char>>,
    pub orb_runtime: Option<Seq<char>>,
    pub individual_credits_remaining: Option<Seq<char>>,
    pub reset: Option<Seq<char>>,
}

pub open spec fn text_of(o: Option<String>) -> Option<Seq<char>> {
    match o {
        Some(s) => Some(s@),
        None => None,
    }
}

impl AmpUsage {
    pub open spec fn text(self) -> UsageText {
        UsageText {
            plan: text_of(self.plan),
            other_percent_remaining: text_of(self.other_percent_remaining),
            orb_percent_remaining: text_of(self.orb_percent_remaining),
            orb_runtime: text_of(self.orb_runtime),
            individual_credits_remaining: text_of(self.individual_credits_remaining),
            reset: text_of(self.reset),
        }
    }
}

/// Capture group `i` of a match (`Captures::get(i)`).
pub open spec fn group(groups: Seq<Option<Seq<char>>>, i: int) -> Option<Seq<char>> {
    if 0 <= i < groups.len() {
        groups[i]
    } else {
        None
    }
}

pub open spec fn trimmed_opt(o: Option<Seq<char>>) -> Option<Seq<char>> {
    match o {
        Some(s) => Some(trim(s)),
        None => None,
    }
}

/// The account usage from the groups of the subscription, Orb-runtime and credits
/// matches: none without a subscription line; the plan from whichever of its two
/// forms matched, trimmed; the Orb runtime, credits and reset trimmed.
pub open spec fn usage_from(
    sub: Option<Seq<Option<Seq<char>>>>,
    orb: Option<Seq<Option<Seq<char>>>>,
    credits: Option<Seq<Option<Seq<char>>>>,
) -> Option<UsageText> {
    match sub {
        None => None,
        Some(g) => Some(
            UsageText {
                plan: trimmed_opt(
                    if group(g, 1) is Some {
                        group(g, 1)
                    } else {
                        group(g, 2)
                    },
                ),
                other_percent_remaining: group(g, 3),
                orb_percent_remaining: group(g, 4),
                orb_runtime: match orb {
                    Some(o) => trimmed_opt(group(o, 1)),
                    None => None,
                },
                individual_credits_remaining: match credits {
                    Some(c) => trimmed_opt(group(c, 1)),
                    None => None,
                },
                reset: trimmed_opt(group(g, 5)),
            },
        ),
    }
}

pub open spec fn groups_text(g: Option<Vec<Option<String>>>) -> Option<Seq<Option<Seq<char>>>> {
    match g {
        Some(v) => Some(v@.map_values(|o: Option<String>| opt_view(o))),
        None => None,
    }
}

pub(crate) fn group_at(groups: &Vec<Option<String>>, i: usize) -> (r: Option<String>)
    ensures
        text_of(r) == group(groups@.map_values(|o: Option<String>| opt_view(o)), i as int),
{
    if i < groups.len() {
        match &groups[i] {
            Some(s) => Some(s.clone()),
            None => None,
        }
    } else {
        None
    }
}

fn trim_opt(o: Option<String>) -> (r: Option<String>)
    ensures
        text_of(r) == trimmed_opt(text_of(o)),
{
    match o {
        Some(s) => {
            let v = chars_of(s.as_str());
            let t = trimmed(v.as_slice(), 0, v.len());
            assert(v@.subrange(0, v@.len() as int) =~= v@);
            Some(string_of(t.as_slice()))
        },
        None => None,
    }
}

/// The account usage from the regex matches of the three lines.
pub fn amp_usage_from_groups(
    sub: Option<Vec<Option<String>>>,
    orb: Option<Vec<Option<String>>>,
    credits: Option<Vec<Option<String>>>,
) -> (r: Option<AmpUsage>)
    ensures
        match usage_from(groups_text(sub), groups_text(orb), groups_text(credits)) {
            Some(u) => r matches Some(x) && x.text() == u,
            None => r is None,
        },
{
    let g = match sub {
        Some(g) => g,
        None => return None,
    };
    let first = group_at(&g, 1);
    let plan = match first {
        Some(p) => trim_opt(Some(p)),
        None => trim_opt(group_at(&g, 2)),
    };
    let orb_runtime = match &orb {
        Some(o) => trim_opt(group_at(o, 1)),
        None => None,
    };
    let individual_credits_remaining = match &credits {
        Some(c) => trim_opt(group_at(c, 1)),
        None => None,
    };
    Some(
        AmpUsage {
            plan,
            other_percent_remaining: group_at(&g, 3),
            orb_percent_remaining: group_at(&g, 4),
            orb_runtime,
            individual_credits_remaining,
            reset: trim_opt(group_at(&g, 5)),
        },
    )
}

/// The account usage in the text of `amp usage`.
pub fn extract_amp_usage(output: &str) -> (r: Option<AmpUsage>)
    ensures
        ({
            let c = cleaned_text(output@);
            match usage_from(
                regex_captures(SUBSCRIPTION_PATTERN@, c),
                regex_captures(ORB_RUNTIME_PATTERN@, c),
                regex_captures(CREDITS_PATTERN@, c),
            ) {
                Some(u) => r matches Some(x) && x.text() == u,
                None => r is None,
            }
        }),
{
    let cleaned = string_of(clean_output(output).as_slice());
    let sub = captures(SUBSCRIPTION_PATTERN, cleaned.as_str());
    let orb = captures(ORB_RUNTIME_PATTERN, cleaned.as_str());
    let credits = captures(CREDITS_PATTERN, cleaned.as_str());
    amp_usage_from_groups(sub, orb, credits)
}

/// `s` without its leading `$` signs (`str::trim_start_matches('$')`).
pub open spec fn without_dollars(s: Seq<char>) -> Seq<char>
    decreases s.len(),
{
    if s.len() > 0 && s[0] == '$' {
        without_dollars(s.skip(1))
    } else {
        s
    }
}

/// The amount of a cost cell: trimmed, without the dollar sign and thousands
/// separators.
pub open spec fn amount_text(cell: Seq<char>) -> Seq<char> {
    crate::layout::without_commas(without_dollars(trim(cell)))
}

pub fn currency_text(value: &str) -> (r: String)
    ensures
        r@ == amount_text(value@),
{
    let v = chars_of(value);
    let t = trimmed(v.as_slice(), 0, v.len());
    assert(v@.subrange(0, v@.len() as int) =~= v@);
    let mut i: usize = 0;
    assert(t@.skip(0) =~= t@);
    while i < t.len() && t[i] == '$'
        invariant
            i <= t.len(),
            without_dollars(t@) == without_dollars(t@.skip(i as int)),
        decreases t.len() - i,
    {
        assert(t@.skip(i as int).skip(1) =~= t@.skip(i + 1));
        i = i + 1;
    }
    let rest = slice_to_vec_range(t.as_slice(), i, t.len());
    assert(rest@ =~= t@.skip(i as int));
    let plain = crate::layout::strip_commas(rest.as_slice());
    string_of(plain.as_slice())
}

/// The first row whose first cell is `day`.
pub open spec fn row_for_day(rows: Seq<Seq<Seq<char>>>, day: Seq<char>) -> Option<Seq<Seq<char>>>
    decreases rows.len(),
{
    if rows.len() == 0 {
        None
    } else if rows[0].len() > 0 && rows[0][0] == day {
        Some(rows[0])
    } else {
        row_for_day(rows.skip(1), day)
    }
}

/// A numeric group with its commas removed, as a `u64`.
pub open spec fn group_number(groups: Option<Seq<Option<Seq<char>>>>) -> Option<nat> {
    match groups {
        Some(g) => match group(g, 1) {
            Some(t) => parse_unsigned(crate::layout::without_commas(t), u64::MAX as nat),
            None => None,
        },
        None => None,
    }
}

/// The cleaned output holds the day `b` reports: its tokens from the tokens line
/// (none without one), its Orb milliseconds (0 without them), the covered and paid
/// amounts of its cost row, and the source and model tables.
pub open spec fn is_daily_bucket(
    b: AmpDailyUsageBucket,
    cleaned: Seq<char>,
    tokens: Option<Seq<Option<Seq<char>>>>,
    orb: Option<Seq<Option<Seq<char>>>>,
    day: Seq<char>,
) -> bool {
    let costs = row_for_day(table_of(cleaned, "Daily Recorded Cost"@), day);
    &&& group_number(tokens) is Some
    &&& b.date@ == day
    &&& b.tokens == group_number(tokens).unwrap()
    &&& b.orb_runtime_millis == match group_number(orb) {
        Some(n) => n,
        None => 0,
    }
    &&& text_of(b.covered_cost) == match costs {
        Some(row) => if row.len() > 1 {
            Some(amount_text(row[1]))
        } else {
            None
        },
        None => None,
    }
    &&& text_of(b.paid_cost) == match costs {
        Some(row) => if row.len() > 2 {
            Some(amount_text(row[2]))
        } else {
            None
        },
        None => None,
    }
    &&& b.sources@.len() == categories_of(table_of(cleaned, "From"@)).len()
    &&& forall|i: int|
        0 <= i < b.sources@.len() ==> (#[trigger] b.sources@[i]).label@ == categories_of(
            table_of(cleaned, "From"@),
        )[i].0 && b.sources@[i].tokens == categories_of(table_of(cleaned, "From"@))[i].1
    &&& b.models@.len() == categories_of(table_of(cleaned, "Models"@)).len()
    &&& forall|i: int|
        0 <= i < b.models@.len() ==> (#[trigger] b.models@[i]).label@ == categories_of(
            table_of(cleaned, "Models"@),
        )[i].0 && b.models@[i].tokens == categories_of(table_of(cleaned, "Models"@))[i].1
}

fn group_value(groups: &Option<Vec<Option<String>>>) -> (r: Option<u64>)
    ensures
        match group_number(groups_text(*groups)) {
            Some(n) => r == Some(n as u64),
            None => r is None,
        },
{
    match groups {
        Some(g) => match group_at(g, 1) {
            Some(t) => {
                let v = chars_of(t.as_str());
                let digits = crate::layout::strip_commas(v.as_slice());
                parse_unsigned_chars(digits.as_slice(), u64::MAX)
            },
            None => None,
        },
        None => None,
    }
}

fn cell_amount(row: &Vec<String>, i: usize) -> (r: Option<String>)
    ensures
        text_of(r) == if i < row@.len() {
            Some(amount_text(row@[i as int]@))
        } else {
            None
        },
{
    if i < row.len() {
        Some(currency_text(row[i].as_str()))
    } else {
        None
    }
}

/// The day `day` (as `%Y-%m-%d`) of cleaned `amp usage` output, from the regex
/// matches of its tokens and Orb lines; none without a tokens line.
pub fn daily_bucket_from(
    cleaned: &str,
    tokens: Option<Vec<Option<String>>>,
    orb: Option<Vec<Option<String>>>,
    day: String,
) -> (r: Option<AmpDailyUsageBucket>)
    ensures
        group_number(groups_text(tokens)) is None ==> r is None,
        group_number(groups_text(tokens)) is Some ==> (r matches Some(b) && is_daily_bucket(
            b,
            cleaned@,
            groups_text(tokens),
            groups_text(orb),
            day@,
        )),
{
    let count = match group_value(&tokens) {
        Some(n) => n,
        None => return None,
    };
    let orb_runtime_millis = match group_value(&orb) {
        Some(n) => n,
        None => 0,
    };
    let rows = table_rows(cleaned, "Daily Recorded Cost");
    let ghost t = table_of(cleaned@, "Daily Recorded Cost"@);
    let mut k: usize = 0;
    let mut found: Option<usize> = None;
    assert(t.skip(0) =~= t);
    while k < rows.len() && found.is_none()
        invariant
            k <= rows.len(),
            rows@.len() == t.len(),
            forall|i: int|
                0 <= i < rows@.len() ==> (#[trigger] rows@[i])@.len() == t[i].len()
                    && forall|j: int| 0 <= j < rows@[i]@.len() ==> #[trigger] rows@[i]@[j]@ == t[i][j],
            found is None ==> row_for_day(t, day@) == row_for_day(t.skip(k as int), day@),
            found matches Some(f) ==> f < rows@.len() && row_for_day(t, day@) == Some(t[f as int]),
        decreases rows.len() - k,
    {
        assert(t.skip(k as int)[0] == t[k as int]);
        assert(t.skip(k as int).skip(1) =~= t.skip(k + 1));
        if rows[k].len() > 0 && str_eq(rows[k][0].as_str(), day.as_str()) {
            found = Some(k);
        }
        k = k + 1;
    }
    proof {
        if found is None {
            assert(t.skip(k as int).len() == 0);
        }
    }
    let (covered_cost, paid_cost) = match found {
        Some(f) => {
            let row = &rows[f];
            proof {
                assert(row@.len() == t[f as int].len());
            }
            (cell_amount(row, 1), cell_amount(row, 2))
        },
        None => (None, None),
    };
    let sources = token_categories(cleaned, "From");
    let models = token_categories(cleaned, "Models");
    Some(
        AmpDailyUsageBucket {
            date: day,
            tokens: count,
            orb_runtime_millis,
            covered_cost,
            paid_cost,
            sources,
            models,
        },
    )
}

/// The usage of `date` in the text of `amp usage --start <date> --end <next day>`.
pub fn extract_amp_daily_usage(output: &str, date: i32) -> (r: Option<AmpDailyUsageBucket>)
    requires
        valid_day(date as int),
    ensures
        ({
            let c = cleaned_text(output@);
            let tokens = regex_captures(TOKENS_PATTERN@, c);
            let orb = regex_captures(ORB_MILLIS_PATTERN@, c);
            &&& group_number(tokens) is None ==> r is None
            &&& group_number(tokens) is Some ==> (r matches Some(b) && is_daily_bucket(
                b,
                c,
                tokens,
                orb,
                date_text(date as int, "%Y-%m-%d"@),
            ))
        }),
{
    let cleaned = string_of(clean_output(output).as_slice());
    let tokens = captures(TOKENS_PATTERN, cleaned.as_str());
    let orb = captures(ORB_MILLIS_PATTERN, cleaned.as_str());
    let day = match format_date(date, "%Y-%m-%d") {
        Some(d) => d,
        None => return None,
    };
    daily_bucket_from(cleaned.as_str(), tokens, orb, day)
}

/// `s` without its leading `0`s.
pub open spec fn skip_zeros(s: Seq<char>) -> Seq<char>
    decreases s.len(),
{
    if s.len() > 0 && s[0] == '0' {
        skip_zeros(s.skip(1))
    } else {
        s
    }
}

/// `s` without its trailing `0`s.
pub open spec fn drop_zeros(s: Seq<char>) -> Seq<char>
    decreases s.len(),
{
    if s.len() > 0 && s.last() == '0' {
        drop_zeros(s.drop_last())
    } else {
        s
    }
}

/// A decimal number as `f64`'s `Display` writes the value it parses to, for numbers
/// of up to fifteen significant digits: no leading zeros before the point (but one
/// `0`), no trailing zeros after it, and no point without digits after it.
pub open spec fn decimal_display(t: Seq<char>) -> Seq<char> {
    let (int_part, frac) = match char_index_from(t, '.', 0) {
        Some(i) => (t.take(i), t.skip(i + 1)),
        None => (t, seq![]),
    };
    let whole = if skip_zeros(int_part).len() == 0 {
        seq!['0']
    } else {
        skip_zeros(int_part)
    };
    let f = drop_zeros(frac);
    if f.len() == 0 {
        whole
    } else {
        whole + seq!['.'] + f
    }
}

fn skip_zeros_of(v: &[char]) -> (r: Vec<char>)
    ensures
        r@ == skip_zeros(v@),
{
    let mut i: usize = 0;
    assert(v@.skip(0) =~= v@);
    while i < v.len() && v[i] == '0'
        invariant
            i <= v.len(),
            skip_zeros(v@) == skip_zeros(v@.skip(i as int)),
        decreases v.len() - i,
    {
        assert(v@.skip(i as int).skip(1) =~= v@.skip(i + 1));
        i = i + 1;
    }
    let r = slice_to_vec_range(v, i, v.len());
    assert(r@ =~= v@.skip(i as int));
    r
}

fn drop_zeros_of(v: &[char]) -> (r: Vec<char>)
    ensures
        r@ == drop_zeros(v@),
{
    let mut j: usize = v.len();
    assert(v@.take(v@.len() as int) =~= v@);
    while j > 0 && v[j - 1] == '0'
        invariant
            j <= v.len(),
            drop_zeros(v@) == drop_zeros(v@.take(j as int)),
        decreases j,
    {
        assert(v@.take(j as int).drop_last() =~= v@.take(j - 1));
        j = j - 1;
    }
    let r = slice_to_vec_range(v, 0, j);
    assert(r@ =~= v@.take(j as int));
    r
}

/// The decimal number `t` as `f64`'s `Display` writes it (see `decimal_display`).
pub fn decimal_display_of(t: &str) -> (r: String)
    ensures
        r@ == decimal_display(t@),
{
    let v = chars_of(t);
    let (int_part, frac) = match find_char(v.as_slice(), '.') {
        Some(i) => {
            let a = slice_to_vec_range(v.as_slice(), 0, i);
            let b = slice_to_vec_range(v.as_slice(), i + 1, v.len());
            assert(a@ =~= v@.take(i as int));
            assert(b@ =~= v@.skip(i + 1));
            (a, b)
        },
        None => (v.clone(), Vec::new()),
    };
    proof {
        if char_index_from(v@, '.', 0) is None {
            assert(int_part@ =~= v@);
            assert(frac@ =~= Seq::<char>::empty());
        }
    }
    let mut out = skip_zeros_of(int_part.as_slice());
    if out.len() == 0 {
        out.push('0');
    }
    let f = drop_zeros_of(frac.as_slice());
    if f.len() > 0 {
        out.push('.');
        let mut k: usize = 0;
        let ghost base = out@;
        while k < f.len()
            invariant
                k <= f.len(),
                out@ == base + f@.take(k as int),
            decreases f.len() - k,
        {
            out.push(f[k]);
            assert(f@.take(k + 1) =~= f@.take(k as int).push(f@[k as int]));
            k = k + 1;
        }
        assert(f@.take(f@.len() as int) =~= f@);
    }
    string_of(out.as_slice())
}

/// ` · ` and the text, or nothing.
pub open spec fn dot_suffix(o: Option<String>, after: Seq<char>) -> Seq<char> {
    match o {
        Some(t) => " · "@ + t@ + after,
        None => seq![],
    }
}

/// The plan allowance line, where the display shows it and Amp reported it.
pub open spec fn plan_lines(u: AmpUsage, display: AiDisplayConfig) -> Seq<Seq<char>> {
    match u.other_percent_remaining {
        Some(p) => if display.amp_plan {
            let name = match u.plan {
                Some(n) => n@,
                None => "Amp"@,
            };
            seq![name + " "@ + decimal_display(p@) + "% remaining · Other usage"@ + dot_suffix(u.reset, seq![])]
        } else {
            seq![]
        },
        None => seq![],
    }
}

/// The Orb allowance line, where the display shows it and Amp reported it.
pub open spec fn orb_lines(u: AmpUsage, display: AiDisplayConfig) -> Seq<Seq<char>> {
    match u.orb_percent_remaining {
        Some(p) => if display.amp_orbs {
            seq!["Amp Orbs "@ + decimal_display(p@) + "% remaining"@ + dot_suffix(u.orb_runtime, " runtime"@)]
        } else {
            seq![]
        },
        None => seq![],
    }
}

/// The credits line, where the display shows it and Amp reported it.
pub open spec fn credit_lines(u: AmpUsage, display: AiDisplayConfig) -> Seq<Seq<char>> {
    match u.individual_credits_remaining {
        Some(c) => if display.amp_credits {
            seq!["Amp credits "@ + c@ + " remaining"@]
        } else {
            seq![]
        },
        None => seq![],
    }
}

/// The line saying when cached values were fetched, for cached values.
pub open spec fn stale_lines(stale: bool, updated: Seq<char>) -> Seq<Seq<char>> {
    if stale {
        seq!["Amp usage last updated "@ + updated]
    } else {
        seq![]
    }
}

/// The lines of the one-shot report for the Amp account: the error alone when the
/// last refresh failed; nothing before a first result; otherwise when the values are
/// from the cache (`updated` says when they were), then the plan allowance, the Orb
/// allowance and the credits, each where the display shows it and Amp reported it.
pub open spec fn amp_once_text(state: ProviderState<AmpUsage>, display: AiDisplayConfig, updated: Seq<char>) -> Seq<
    Seq<char>,
> {
    match state.error {
        Some(e) => seq!["Amp error: "@ + e@],
        None => match state.result {
            None => seq![],
            Some(u) => stale_lines(state.stale, updated) + plan_lines(u, display) + orb_lines(u, display)
                + credit_lines(u, display),
        },
    }
}

fn append_dot_suffix(line: &mut String, o: &Option<String>, after: &str)
    ensures
        final(line)@ == old(line)@ + dot_suffix(*o, after@),
{
    match o {
        Some(t) => {
            line.append(" · ");
            line.append(t.as_str());
            line.append(after);
            proof {
                reveal_strlit(" · ");
            }
        },
        None => {
            assert(old(line)@ + seq![] =~= old(line)@);
        },
    }
}

/// The one-shot report lines for the Amp account; `updated` is the time of the
/// cached values as the report prints it.
pub fn amp_once_lines(state: &ProviderState<AmpUsage>, display: &AiDisplayConfig, updated: &str) -> (r: Vec<String>)
    ensures
        r@.map_values(|l: String| l@) == amp_once_text(*state, *display, updated@),
{
    proof {
        reveal_strlit("Amp error: ");
        reveal_strlit("Amp usage last updated ");
        reveal_strlit("Amp");
        reveal_strlit(" ");
        reveal_strlit("% remaining · Other usage");
        reveal_strlit("Amp Orbs ");
        reveal_strlit("% remaining");
        reveal_strlit(" runtime");
        reveal_strlit("Amp credits ");
        reveal_strlit(" remaining");
    }
    let mut lines: Vec<String> = Vec::new();
    match &state.error {
        Some(e) => {
            let mut line = String::from_str("Amp error: ");
            line.append(e.as_str());
            lines.push(line);
            assert(lines@.map_values(|l: String| l@) =~= amp_once_text(*state, *display, updated@));
            return lines;
        },
        None => {},
    }
    let u = match &state.result {
        Some(u) => u,
        None => {
            assert(lines@.map_values(|l: String| l@) =~= amp_once_text(*state, *display, updated@));
            return lines;
        },
    };
    if state.stale {
        let mut line = String::from_str("Amp usage last updated ");
        line.append(updated);
        lines.push(line);
    }
    assert(lines@.map_values(|l: String| l@) =~= stale_lines(state.stale, updated@));
    if display.amp_plan {
        match &u.other_percent_remaining {
            Some(p) => {
                let mut line = match &u.plan {
                    Some(n) => n.clone(),
                    None => String::from_str("Amp"),
                };
                line.append(" ");
                let shown = decimal_display_of(p.as_str());
                line.append(shown.as_str());
                line.append("% remaining · Other usage");
                append_dot_suffix(&mut line, &u.reset, "");
                proof {
                    reveal_strlit("");
                    assert(""@ =~= Seq::<char>::empty());
                }
                lines.push(line);
            },
            None => {},
        }
    }
    assert(lines@.map_values(|l: String| l@) =~= stale_lines(state.stale, updated@) + plan_lines(*u, *display));
    if display.amp_orbs {
        match &u.orb_percent_remaining {
            Some(p) => {
                let mut line = String::from_str("Amp Orbs ");
                let shown = decimal_display_of(p.as_str());
                line.append(shown.as_str());
                line.append("% remaining");
                append_dot_suffix(&mut line, &u.orb_runtime, " runtime");
                lines.push(line);
            },
            None => {},
        }
    }
    assert(lines@.map_values(|l: String| l@) =~= stale_lines(state.stale, updated@) + plan_lines(*u, *display) + orb_lines(*u, *display));
    if display.amp_credits {
        match &u.individual_credits_remaining {
            Some(c) => {
                let mut line = String::from_str("Amp credits ");
                line.append(c.as_str());
                line.append(" remaining");
                lines.push(line);
            },
            None => {},
        }
    }
    assert(lines@.map_values(|l: String| l@) =~= stale_lines(state.stale, updated@) + plan_lines(*u, *display) + orb_lines(*u, *display)
        + credit_lines(*u, *display));
    lines
}

} // verus!
