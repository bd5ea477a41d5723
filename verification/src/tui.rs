//! The terminal dashboard's decisions: how far the content scrolls for each key or
//! wheel step, where the scrolling stops, how the clock cards share a row, and how a
//! quota row uses the width.

use vstd::prelude::*;
use crate::layout::{column_width, equal_column_widths, fixed, fixed_text};
use crate::config::{Clock, ClocksDisplayConfig};
use crate::text::{
    chars_of, dec, lowercase_of, opt_view, to_lowercase, to_uppercase, u64_to_string, uppercase_of,
};

verus! {

/// What the user did.
#[derive(Clone, Copy, Debug, PartialEq, Eq, Structural)]
pub enum Input {
    /// `q`, `Q` or Escape.
    Quit,
    /// Down arrow or `j`.
    LineDown,
    /// Up arrow or `k`.
    LineUp,
    PageDown,
    PageUp,
    Home,
    End,
    WheelDown,
    WheelUp,
    /// Anything else.
    Other,
}

/// The scroll position, the last position at which the content still fills the
/// view, and the rows a page step moves.
#[derive(Clone, Copy, Debug, PartialEq, Eq, Structural)]
pub struct Scroll {
    pub offset: usize,
    pub max: usize,
    pub page: usize,
}

/// The scroll state after drawing `content_rows` rows in a view `height` rows high:
/// the offset is kept within the content, and a page step is a page less one row
/// (at least one).
pub fn scroll_after_draw(content_rows: usize, height: usize, offset: usize) -> (r: Scroll)
    ensures
        r.max == if content_rows > height {
            content_rows - height
        } else {
            0
        },
        r.offset == if offset < r.max {
            offset
        } else {
            r.max
        },
        r.page == if height > 1 {
            height - 1
        } else {
            1
        },
{
    let max = content_rows.saturating_sub(height);
    Scroll {
        offset: if offset < max {
            offset
        } else {
            max
        },
        max,
        page: if height > 1 {
            height - 1
        } else {
            1
        },
    }
}

/// `offset + step`, but no further than `max`.
pub open spec fn forward(offset: int, step: int, max: int) -> int {
    if offset + step < max {
        offset + step
    } else {
        max
    }
}

/// `offset - step`, but no further than the top.
pub open spec fn backward(offset: int, step: int) -> int {
    if offset > step {
        offset - step
    } else {
        0
    }
}

/// The offset after `input`: a line, a page or three wheel rows down or up, or the
/// top or the end; other input leaves it.
pub open spec fn offset_after(s: Scroll, input: Input) -> int {
    match input {
        Input::LineDown => forward(s.offset as int, 1, s.max as int),
        Input::LineUp => backward(s.offset as int, 1),
        Input::PageDown => forward(s.offset as int, s.page as int, s.max as int),
        Input::PageUp => backward(s.offset as int, s.page as int),
        Input::Home => 0,
        Input::End => s.max as int,
        Input::WheelDown => forward(s.offset as int, 3, s.max as int),
        Input::WheelUp => backward(s.offset as int, 3),
        _ => s.offset as int,
    }
}

/// Applies `input`: the new scroll state, and whether the dashboard quits.
pub fn apply_input(s: Scroll, input: Input) -> (r: (Scroll, bool))
    requires
        s.offset <= s.max,
        s.max + s.page <= usize::MAX,
        s.max + 3 <= usize::MAX,
    ensures
        r.1 == (input == Input::Quit),
        r.0.max == s.max,
        r.0.page == s.page,
        r.0.offset == offset_after(s, input),
{
    let offset = match input {
        Input::LineDown => {
            if s.offset + 1 < s.max {
                s.offset + 1
            } else {
                s.max
            }
        },
        Input::LineUp => s.offset.saturating_sub(1),
        Input::PageDown => {
            if s.offset + s.page < s.max {
                s.offset + s.page
            } else {
                s.max
            }
        },
        Input::PageUp => s.offset.saturating_sub(s.page),
        Input::Home => 0,
        Input::End => s.max,
        Input::WheelDown => {
            if s.offset + 3 < s.max {
                s.offset + 3
            } else {
                s.max
            }
        },
        Input::WheelUp => s.offset.saturating_sub(3),
        _ => s.offset,
    };
    (Scroll { offset, max: s.max, page: s.page }, input == Input::Quit)
}

/// Scrolling never leaves the content: from any position within it, every input
/// keeps the offset between the top and the last full view.
pub proof fn law_scrolling_stays_within_the_content(s: Scroll, input: Input)
    requires
        s.offset <= s.max,
    ensures
        0 <= offset_after(s, input) <= s.max,
{
}

/// Paging moves a whole page: PageDown moves the offset a page down, stopping at the
/// last full view, and PageUp a page up, stopping at the top; away from the ends
/// PageUp undoes PageDown and PageDown undoes PageUp. A line step moves one row and
/// a wheel step three.
pub proof fn law_pages_move_by_a_page(s: Scroll)
    requires
        s.offset <= s.max,
    ensures
        offset_after(s, Input::PageDown) == if s.offset + s.page <= s.max {
            s.offset + s.page
        } else {
            s.max as int
        },
        offset_after(s, Input::PageUp) == if s.offset >= s.page {
            s.offset - s.page
        } else {
            0
        },
        s.offset + s.page <= s.max ==> offset_after(
            Scroll { offset: (s.offset + s.page) as usize, ..s },
            Input::PageUp,
        ) == s.offset,
        s.offset >= s.page ==> offset_after(
            Scroll { offset: (s.offset - s.page) as usize, ..s },
            Input::PageDown,
        ) == s.offset,
        offset_after(s, Input::LineDown) == if s.offset < s.max {
            s.offset + 1
        } else {
            s.max as int
        },
        offset_after(s, Input::WheelDown) == if s.offset + 3 <= s.max {
            s.offset + 3
        } else {
            s.max as int
        },
        offset_after(s, Input::Home) == 0,
        offset_after(s, Input::End) == s.max,
{
}

/// The gap between clock cards: four columns on a wide dashboard, else two.
pub open spec fn clock_gap(width: int) -> int {
    if width >= 72 {
        4
    } else {
        2
    }
}

/// The clock cards of a row: the gap and the equal card widths; none when no clock
/// is shown or a card would have no width.
pub fn clock_layout(width: usize, count: usize) -> (r: Option<(usize, Vec<usize>)>)
    requires
        count <= 4,
    ensures
        ({
            let gap = clock_gap(width as int);
            let inner = if width >= gap * (count - 1) {
                width - gap * (count - 1)
            } else {
                0
            };
            &&& count == 0 ==> r is None
            &&& count > 0 ==> (r is None <==> inner < count)
            &&& r matches Some((g, ws)) ==> g == gap && ws@.len() == count && forall|i: int|
                0 <= i < count ==> ws@[i] == column_width(inner, count as int, i)
        }),
{
    if count == 0 {
        return None;
    }
    let gap: usize = if width >= 72 {
        4
    } else {
        2
    };
    let inner = width.saturating_sub(gap * (count - 1));
    let widths = equal_column_widths(inner, count);
    let mut i: usize = 0;
    while i < count
        invariant
            i <= count,
            0 < count <= 4,
            gap == clock_gap(width as int),
            inner == if width >= gap * (count - 1) {
                width - gap * (count - 1)
            } else {
                0
            },
            widths@.len() == count,
            forall|k: int| 0 <= k < count ==> widths@[k] == column_width(inner as int, count as int, k),
            forall|k: int| 0 <= k < i ==> widths@[k] != 0,
        decreases count - i,
    {
        if widths[i] == 0 {
            assert(column_width(inner as int, count as int, i as int) == 0);
            assert(inner < count) by (nonlinear_arith)
                requires
                    inner / count + (if i < inner % count { 1int } else { 0int }) == 0,
                    count > 0,
            ;
            return None;
        }
        i = i + 1;
    }
    assert(inner >= count) by {
        if inner < count {
            assert(widths@[count - 1] != 0);
            assert(inner / count == 0) by (nonlinear_arith)
                requires
                    inner < count,
                    inner >= 0,
            ;
            assert(inner % count == inner) by (nonlinear_arith)
                requires
                    inner < count,
                    inner >= 0,
            ;
        }
    }
    Some((gap, widths))
}

/// The label gutter of the AI rows.
pub const AI_GUTTER_WIDTH: usize = 9;

/// The columns of a quota row beside the gutter: one before the bar, two before the
/// value, nine for `100% left`.
pub const QUOTA_FIXED_WIDTH: usize = 21;

/// How the quota rows use the width: whether the reset column shows (it needs a bar
/// of at least four columns beside it) and how wide the bar is.
#[derive(Clone, Copy, Debug, PartialEq, Eq, Structural)]
pub struct QuotaColumns {
    pub narrow: bool,
    pub show_tail: bool,
    pub bar_width: usize,
}

pub open spec fn quota_available(width: int) -> int {
    if width > QUOTA_FIXED_WIDTH {
        width - QUOTA_FIXED_WIDTH
    } else {
        0
    }
}

pub fn quota_columns(width: usize, tail_width: usize) -> (r: QuotaColumns)
    requires
        tail_width + 6 <= usize::MAX,
    ensures
        r.narrow == (width < QUOTA_FIXED_WIDTH),
        r.show_tail == (tail_width > 0 && quota_available(width as int) >= 6 + tail_width),
        r.bar_width == if r.show_tail {
            quota_available(width as int) - (2 + tail_width)
        } else {
            quota_available(width as int)
        },
{
    let available = width.saturating_sub(QUOTA_FIXED_WIDTH);
    let show_tail = tail_width > 0 && available >= 4 + 2 + tail_width;
    let bar_width = if show_tail {
        available - (2 + tail_width)
    } else {
        available
    };
    QuotaColumns { narrow: width < QUOTA_FIXED_WIDTH, show_tail, bar_width }
}

/// The value cell of a quota row too narrow for the bar: beside a label of up to
/// the gutter width, `N% left` where it fits, else `N%` where that fits, else
/// nothing; the text is padded to the rest of the width.
pub open spec fn narrow_value_text(width: int, percent: nat) -> Option<Seq<char>> {
    let value_width = if width > AI_GUTTER_WIDTH { width - AI_GUTTER_WIDTH } else { 0 };
    let full = dec(percent) + "% left"@;
    let compact = dec(percent) + "%"@;
    if value_width >= full.len() {
        Some(fixed_text(full, value_width as nat))
    } else if value_width >= compact.len() {
        Some(fixed_text(compact, value_width as nat))
    } else {
        None
    }
}

/// The label width and the value cell of a quota row too narrow for the bar, for a
/// rounded percentage left.
pub fn narrow_quota_row(width: usize, percent: u64) -> (r: (usize, Option<String>))
    ensures
        r.0 == if width < AI_GUTTER_WIDTH { width } else { AI_GUTTER_WIDTH },
        match r.1 {
            Some(s) => narrow_value_text(width as int, percent as nat) == Some(s@),
            None => narrow_value_text(width as int, percent as nat) is None,
        },
{
    let label_width = if width < AI_GUTTER_WIDTH { width } else { AI_GUTTER_WIDTH };
    let value_width = width - label_width;
    let mut full = u64_to_string(percent);
    full.append("% left");
    let mut compact = u64_to_string(percent);
    compact.append("%");
    let full_len = chars_of(full.as_str()).len();
    let compact_len = chars_of(compact.as_str()).len();
    proof {
        reveal_strlit("% left");
        reveal_strlit("%");
    }
    if value_width >= full_len {
        (label_width, Some(fixed(full.as_str(), value_width)))
    } else if value_width >= compact_len {
        (label_width, Some(fixed(compact.as_str(), value_width)))
    } else {
        (label_width, None)
    }
}

/// The time of day at `epoch_secs` in the zone named `zone`, as chrono writes it
/// with `%I:%M %p`; none when chrono-tz does not know the zone or chrono cannot
/// represent the instant.
pub uninterp spec fn zone_time_text(epoch_secs: i64, zone: Seq<char>) -> Option<Seq<char>>;

/// Calls `str::parse::<chrono_tz::Tz>` on the zone and `DateTime::from_timestamp(
/// epoch_secs, 0)`, then formats the instant in that zone with `%I:%M %p`; the text
/// depends on the two arguments alone and is named `zone_time_text`.
#[verifier::external_body]
fn clock_time(epoch_secs: i64, zone: &str) -> (r: Option<String>)
    ensures
        opt_view(r) == zone_time_text(epoch_secs, zone@),
{
    let tz = zone.parse::<chrono_tz::Tz>().ok()?;
    let at = chrono::DateTime::from_timestamp(epoch_secs, 0)?;
    Some(at.with_timezone(&tz).format("%I:%M %p").to_string())
}

/// A card's time: the clock's zone, or UTC where the zone is unknown, in lowercase.
pub open spec fn card_time(epoch_secs: i64, zone: Seq<char>) -> Seq<char> {
    match zone_time_text(epoch_secs, zone) {
        Some(t) => lowercase_of(t),
        None => match zone_time_text(epoch_secs, "UTC"@) {
            Some(t) => lowercase_of(t),
            None => seq![],
        },
    }
}

/// Whether each of the four clocks is shown.
pub open spec fn clock_flags(d: ClocksDisplayConfig) -> Seq<bool> {
    seq![d.clock_1, d.clock_2, d.clock_3, d.clock_4]
}

/// The shown clocks among the first `n`.
pub open spec fn selected_upto(clocks: Seq<Clock>, flags: Seq<bool>, n: int) -> Seq<Clock>
    decreases n,
{
    if n <= 0 {
        seq![]
    } else if flags[n - 1] {
        selected_upto(clocks, flags, n - 1).push(clocks[n - 1])
    } else {
        selected_upto(clocks, flags, n - 1)
    }
}

/// The clocks shown: each of the first four clocks whose flag is on, in order.
pub open spec fn selected_clocks(clocks: Seq<Clock>, d: ClocksDisplayConfig) -> Seq<Clock> {
    selected_upto(clocks, clock_flags(d), if clocks.len() < 4 { clocks.len() as int } else { 4 })
}

fn card_time_of(epoch_secs: i64, zone: &str) -> (r: String)
    ensures
        r@ == card_time(epoch_secs, zone@),
{
    match clock_time(epoch_secs, zone) {
        Some(t) => to_lowercase(t.as_str()),
        None => {
            let utc = "UTC";
            proof {
                reveal_strlit("UTC");
            }
            match clock_time(epoch_secs, utc) {
                Some(t) => to_lowercase(t.as_str()),
                None => String::new(),
            }
        },
    }
}

/// The positions of the shown clocks among `clocks`, in order.
pub fn shown_clock_indices(clocks: &[Clock], display: &ClocksDisplayConfig) -> (r: Vec<usize>)
    ensures
        r@.len() == selected_clocks(clocks@, *display).len(),
        r@.len() <= 4,
        forall|k: int| 0 <= k < r@.len() ==> (#[trigger] r@[k]) < clocks.len() && clocks@[r@[k] as int]
            == selected_clocks(clocks@, *display)[k],
{
    let ghost flags = clock_flags(*display);
    let n: usize = if clocks.len() < 4 { clocks.len() } else { 4 };
    let mut idx: Vec<usize> = Vec::new();
    let mut i: usize = 0;
    while i < n
        invariant
            i <= n <= 4,
            n <= clocks.len(),
            flags == clock_flags(*display),
            idx@.len() == selected_upto(clocks@, flags, i as int).len(),
            idx@.len() <= i,
            forall|k: int| 0 <= k < idx@.len() ==> (#[trigger] idx@[k]) < clocks.len() && clocks@[idx@[k] as int]
                == selected_upto(clocks@, flags, i as int)[k],
        decreases n - i,
    {
        let shown = if i == 0 {
            display.clock_1
        } else if i == 1 {
            display.clock_2
        } else if i == 2 {
            display.clock_3
        } else {
            display.clock_4
        };
        assert(shown == flags[i as int]);
        if shown {
            idx.push(i);
        }
        i = i + 1;
    }
    idx
}

/// The clock row at `now_secs`: the gap and, for each shown clock, its uppercased
/// label and its time, each fitted to the card's width; none when no clock is shown
/// or a card would have no width.
pub fn clock_cards(clocks: &[Clock], display: &ClocksDisplayConfig, width: usize, now_secs: i64) -> (r: Option<(usize, Vec<(String, String)>)>)
    ensures
        ({
            let sel = selected_clocks(clocks@, *display);
            let count = sel.len() as int;
            let gap = clock_gap(width as int);
            let inner = if width >= gap * (count - 1) {
                width - gap * (count - 1)
            } else {
                0
            };
            &&& (r is None <==> (count == 0 || inner < count))
            &&& r matches Some((g, cards)) ==> {
                &&& g == gap
                &&& cards@.len() == count
                &&& forall|i: int| 0 <= i < count ==> {
                    &&& (#[trigger] cards@[i]).0@ == fixed_text(uppercase_of(sel[i].label@), column_width(inner, count, i) as nat)
                    &&& cards@[i].1@ == fixed_text(card_time(now_secs, sel[i].timezone@), column_width(inner, count, i) as nat)
                }
            }
        }),
{
    let ghost sel = selected_clocks(clocks@, *display);
    let idx = shown_clock_indices(clocks, display);
    let layout = clock_layout(width, idx.len());
    match layout {
        None => None,
        Some((gap, widths)) => {
            let count = idx.len();
            let mut cards: Vec<(String, String)> = Vec::new();
            let mut k: usize = 0;
            while k < count
                invariant
                    k <= count,
                    count == idx@.len(),
                    count == sel.len(),
                    widths@.len() == count,
                    forall|j: int| 0 <= j < count ==> (#[trigger] idx@[j]) < clocks.len() && clocks@[idx@[j] as int] == sel[j],
                    cards@.len() == k,
                    forall|j: int| 0 <= j < k ==> {
                        &&& (#[trigger] cards@[j]).0@ == fixed_text(uppercase_of(sel[j].label@), widths@[j] as nat)
                        &&& cards@[j].1@ == fixed_text(card_time(now_secs, sel[j].timezone@), widths@[j] as nat)
                    },
                decreases count - k,
            {
                let c = &clocks[idx[k]];
                let upper = to_uppercase(c.label.as_str());
                let time = card_time_of(now_secs, c.timezone.as_str());
                let w = widths[k];
                cards.push((fixed(upper.as_str(), w), fixed(time.as_str(), w)));
                k = k + 1;
            }
            Some((gap, cards))
        },
    }
}

} // verus!
