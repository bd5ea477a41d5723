use stats::config::{default_clocks, Clock, ClocksDisplayConfig};
use stats::tui::{clock_cards, shown_clock_indices};
use stats::layout::fixed;
use stats::tui::{
    apply_input, clock_layout, narrow_quota_row, quota_columns, scroll_after_draw, Input, Scroll,
    AI_GUTTER_WIDTH,
};

#[test]
fn scrolling_stops_at_the_top_and_the_last_full_view() {
    let scroll = scroll_after_draw(100, 40, 75);
    assert_eq!(scroll, Scroll { offset: 60, max: 60, page: 39 });
    let (down, quit) = apply_input(scroll, Input::LineDown);
    assert_eq!(down.offset, 60);
    assert!(!quit);
    let (up, _) = apply_input(scroll, Input::PageUp);
    assert_eq!(up.offset, 21);
    let (wheel, _) = apply_input(up, Input::WheelUp);
    assert_eq!(wheel.offset, 18);
    let (home, _) = apply_input(wheel, Input::Home);
    assert_eq!(home.offset, 0);
    let (still, _) = apply_input(home, Input::LineUp);
    assert_eq!(still.offset, 0);
    let (end, _) = apply_input(still, Input::End);
    assert_eq!(end.offset, 60);
    let (_, quit) = apply_input(end, Input::Quit);
    assert!(quit);
    assert_eq!(scroll_after_draw(10, 40, 5), Scroll { offset: 0, max: 0, page: 39 });
    assert_eq!(scroll_after_draw(10, 1, 5).page, 1);
}

#[test]
fn clock_cards_share_the_row() {
    assert_eq!(clock_layout(58, 4), Some((2, vec![13, 13, 13, 13])));
    assert_eq!(clock_layout(80, 2), Some((4, vec![38, 38])));
    assert_eq!(clock_layout(5, 4), None);
    assert_eq!(clock_layout(40, 0), None);
}

#[test]
fn quota_rows_show_the_reset_column_when_it_fits() {
    let wide = quota_columns(58, 6);
    assert!(!wide.narrow);
    assert!(wide.show_tail);
    assert_eq!(wide.bar_width, 29);
    let tight = quota_columns(30, 6);
    assert!(!tight.show_tail);
    assert_eq!(tight.bar_width, 9);
    assert!(quota_columns(18, 0).narrow);
}

#[test]
fn mod_keeps_the_weekly_row_within_narrow_widths() {
    let label = "Codex Pro";
    let tail = "09:48am 8 Aug";

    for width in [9, 10, 11, 12, 18, 19] {
        let columns = quota_columns(width, tail.chars().count());
        assert!(columns.narrow);
        let (label_width, value) = narrow_quota_row(width, 96);
        let mut line = fixed(label, label_width);
        if let Some(value) = value {
            line.push_str(&value);
        }
        assert!(line.chars().count() <= width);
        if width >= 18 {
            assert!(line.contains("96% left"));
        } else if width >= 12 {
            assert!(line.contains("96%"));
        } else {
            assert!(!line.contains("96"));
        }
    }
}

#[test]
fn mod_aligns_ai_quota_tracks_values_and_reset_columns() {
    let rows = [("Megawatt", 100_u64, "22 Sep"), ("Codex Pro", 95, "27 Aug")];
    let tail_width = rows.iter().map(|(_, _, tail)| tail.chars().count()).max().unwrap();
    let columns = quota_columns(58, tail_width);

    assert!(!columns.narrow);
    assert!(columns.show_tail);
    assert_eq!(columns.bar_width, 29);
    let lines = rows
        .iter()
        .map(|(label, percent, tail)| {
            let filled = (*percent as usize * columns.bar_width + 50) / 100;
            let mut line = fixed(label, AI_GUTTER_WIDTH);
            line.push(' ');
            line.push_str(&"━".repeat(filled));
            line.push_str(&"·".repeat(columns.bar_width - filled));
            line.push_str("  ");
            line.push_str(&format!("{:>3}% left", percent));
            line.push_str("  ");
            line.push_str(&fixed(tail, tail_width));
            line
        })
        .collect::<Vec<_>>();
    assert!(lines.iter().all(|line| line.chars().count() == 58));
    let value_start = AI_GUTTER_WIDTH + 1 + columns.bar_width + 2;
    assert!(lines
        .iter()
        .all(|line| line.chars().skip(value_start).collect::<String>().contains("% left")));
}

#[test]
fn mod_renders_clocks_as_equal_high_contrast_columns() {
    let clocks = default_clocks();
    let (gap, cards) = clock_cards(&clocks, &ClocksDisplayConfig::default(), 58, 1_784_696_828).unwrap();
    assert_eq!(cards.len(), 4);
    let cities = cards.iter().map(|(c, _)| c.clone()).collect::<Vec<_>>().join(&" ".repeat(gap));
    let times = cards.iter().map(|(_, t)| t.clone()).collect::<Vec<_>>().join(&" ".repeat(gap));
    assert_eq!(cities.chars().count(), 58);
    assert_eq!(times.chars().count(), 58);
    assert!(cities.contains("MUMBAI"));
    assert!(cities.contains("SEATTLE"));
    assert!(times.contains("am") || times.contains("pm"));
}

#[test]
fn renders_a_custom_clock_selection() {
    let clocks = vec![
        Clock { label: "London".into(), timezone: "Europe/London".into() },
        Clock { label: "Tokyo".into(), timezone: "Asia/Tokyo".into() },
    ];
    let (_, cards) = clock_cards(&clocks, &ClocksDisplayConfig::default(), 40, 0).unwrap();
    assert_eq!(cards.len(), 2);
    assert!(cards[0].0.contains("LONDON"));
    assert!(cards[1].0.contains("TOKYO"));
    assert_eq!(cards[0].1.trim(), "01:00 am");
    assert_eq!(cards[1].1.trim(), "09:00 am");

    let mut only_second = ClocksDisplayConfig::default();
    only_second.clock_1 = false;
    assert_eq!(shown_clock_indices(&clocks, &only_second), vec![1]);
    let unknown = vec![Clock { label: "Nowhere".into(), timezone: "Mars/Base".into() }];
    let (_, cards) = clock_cards(&unknown, &ClocksDisplayConfig::default(), 40, 0).unwrap();
    assert_eq!(cards[0].1.trim(), "12:00 am");
    assert!(clock_cards(&clocks, &ClocksDisplayConfig::default(), 3, 0).is_none());
}

#[test]
fn main_renders_clocks_as_equal_high_contrast_columns() {
    let (gap, cards) =
        clock_cards(&default_clocks(), &ClocksDisplayConfig::default(), 58, 1_784_696_828).unwrap();
    let cities = cards.iter().map(|(c, _)| c.clone()).collect::<Vec<_>>().join(&" ".repeat(gap));
    assert_eq!(cities.chars().count(), 58);
    assert!(cities.contains("MUMBAI"));
    assert!(cities.contains("SEATTLE"));
    assert_eq!(cards.len(), 4);
}
