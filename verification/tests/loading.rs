use cursive_async_view::{LoadingCharStyle, LoadingStateView, LOADING_INTERVAL};
use cursive_core::style::{ColorStyle, Style};
use cursive_core::utils::markup::StyledString;

fn cells(text: &StyledString) -> Vec<(String, bool)> {
    let secondary = Style::from(ColorStyle::secondary());
    text.spans().map(|span| (span.content.to_string(), *span.attr == secondary)).collect()
}

fn bar(active: &str, inactive: &str, highlighted: &[bool]) -> Vec<(String, bool)> {
    highlighted
        .iter()
        .map(|on| (if *on { active.to_string() } else { inactive.to_string() }, *on))
        .collect()
}

fn ticked(style: LoadingCharStyle, ticks: usize) -> LoadingStateView {
    let mut view = LoadingStateView::new(style, false);
    for _ in 0..ticks {
        view.tick();
    }
    view
}

#[test]
fn sizing_table_for_widths_three_to_seven() {
    assert_eq!(LoadingStateView::calculate_length(3), (1, 1));
    assert_eq!(LoadingStateView::calculate_length(4), (3, 2));
    assert_eq!(LoadingStateView::calculate_length(5), (2, 0));
    assert_eq!(LoadingStateView::calculate_length(6), (2, 2));
    assert_eq!(LoadingStateView::calculate_length(7), (4, 3));
}

#[test]
fn sizing_of_other_widths() {
    assert_eq!(LoadingStateView::calculate_length(0), (0, 0));
    assert_eq!(LoadingStateView::calculate_length(1), (2, 1));
    assert_eq!(LoadingStateView::calculate_length(8), (3, 1));
    assert_eq!(LoadingStateView::calculate_length(9), (3, 3));
    assert_eq!(LoadingStateView::calculate_length(80), (27, 25));
    assert_eq!(LoadingStateView::calculate_length(usize::MAX), (usize::MAX / 3, usize::MAX / 3));
}

#[test]
fn required_size_gives_middle_and_outer() {
    let view = LoadingStateView::new(LoadingCharStyle::Dash, false);
    assert_eq!(view.required_size(7), (4, 3));
    assert_eq!(view.required_size(6), (2, 2));
    assert_eq!(view.required_size(5), (2, 0));
}

#[test]
fn required_size_counts_a_width_below_three_as_three() {
    let view = LoadingStateView::new(LoadingCharStyle::Dash, false);
    assert_eq!(view.required_size(3), (1, 1));
    assert_eq!(view.required_size(2), (1, 1));
    assert_eq!(view.required_size(1), (1, 1));
    assert_eq!(view.required_size(0), (1, 1));
}

#[test]
fn ranges_before_the_first_wrap() {
    assert_eq!(LoadingStateView::calculate_ranges(0, 1, 3), (0..=0, 0..=0));
    assert_eq!(LoadingStateView::calculate_ranges(1, 1, 3), (0..=1, 1..=0));
    assert_eq!(LoadingStateView::calculate_ranges(2, 1, 3), (1..=2, 2..=1));
    assert_eq!(LoadingStateView::calculate_ranges(2, 3, 4), (0..=2, 2..=0));
    assert_eq!(LoadingStateView::calculate_ranges(5, 2, 6), (3..=5, 5..=3));
}

#[test]
fn ranges_after_the_first_wrap() {
    assert_eq!(LoadingStateView::calculate_ranges(3, 1, 3), (2..=3, 1..=0));
    assert_eq!(LoadingStateView::calculate_ranges(4, 1, 3), (0..=1, 1..=0));
    assert_eq!(LoadingStateView::calculate_ranges(5, 1, 3), (1..=2, 2..=1));
    assert_eq!(LoadingStateView::calculate_ranges(5, 3, 4), (2..=4, 1..=1));
    assert_eq!(LoadingStateView::calculate_ranges(7, 2, 6), (5..=6, 1..=1));
    assert_eq!(LoadingStateView::calculate_ranges(9, 2, 6), (1..=3, 3..=1));
}

#[test]
fn ranges_with_a_segment_longer_than_the_bar() {
    assert_eq!(LoadingStateView::calculate_ranges(1, 9, 3), (0..=1, 1..=0));
    assert_eq!(LoadingStateView::calculate_ranges(4, 9, 3), (0..=1, 1..=0));
    assert_eq!(LoadingStateView::calculate_ranges(4, 4, 3), (0..=1, 1..=0));
    assert_eq!(LoadingStateView::calculate_ranges(4, 3, 3), (1..=1, 1..=1));
}

#[test]
fn ranges_at_the_top_of_the_counter() {
    let top = usize::MAX;
    let end = top % 7;
    let (first, second) = LoadingStateView::calculate_ranges(top, 4, 7);
    if end >= 4 {
        assert_eq!((first, second), (end - 4..=end, end..=end - 4));
    } else {
        assert_eq!((first, second), (end + 3..=7, 1..=end));
    }
    assert_eq!(
        LoadingStateView::calculate_ranges(top, 1, top),
        (top - 1..=top, 1..=0)
    );
}

#[test]
fn ranges_lie_within_the_bar() {
    for width in 3usize..40 {
        let (middle, _) = LoadingStateView::calculate_length(width);
        for state in 0usize..200 {
            let starts_before_bar = if state < width {
                state <= middle
            } else {
                state % width == middle
            };
            let (first, second) = LoadingStateView::calculate_ranges(state, middle, width);
            assert!(first.start() <= first.end());
            assert!(*first.end() <= width);
            assert!(second.is_empty() || *second.end() <= width);
            if starts_before_bar {
                assert_eq!(*first.start(), 0);
            } else {
                assert!(*first.start() >= 1);
                assert!(second.is_empty() || *second.start() >= 1);
            }
        }
    }
}

#[test]
fn ranges_repeat_after_one_width() {
    for width in 3usize..40 {
        let (middle, _) = LoadingStateView::calculate_length(width);
        for state in middle..200 {
            assert_eq!(
                LoadingStateView::calculate_ranges(state, middle, width),
                LoadingStateView::calculate_ranges(state + width, middle, width)
            );
        }
    }
}

#[test]
fn ranges_differ_after_one_width_below_the_segment_length() {
    assert_eq!(LoadingStateView::calculate_ranges(0, 1, 3), (0..=0, 0..=0));
    assert_eq!(LoadingStateView::calculate_ranges(3, 1, 3), (2..=3, 1..=0));
}

#[test]
fn some_cell_is_highlighted_at_every_state_but_zero() {
    for width in 3usize..20 {
        let (middle, _) = LoadingStateView::calculate_length(width);
        for state in 1usize..100 {
            let (first, second) = LoadingStateView::calculate_ranges(state, middle, width);
            assert!((1..=width).any(|i| first.contains(&i) || second.contains(&i)));
        }
        let (first, second) = LoadingStateView::calculate_ranges(0, middle, width);
        assert!(!(1..=width).any(|i| first.contains(&i) || second.contains(&i)));
    }
}

#[test]
fn new_starts_at_zero_or_at_the_top() {
    assert_eq!(LoadingStateView::new(LoadingCharStyle::Dash, false).state(), 0);
    assert_eq!(LoadingStateView::new(LoadingCharStyle::Dash, true).state(), usize::MAX);
}

#[test]
fn tick_counts_up_or_down() {
    let mut forward = LoadingStateView::new(LoadingCharStyle::FullBlock, false);
    forward.tick();
    assert_eq!(forward.state(), 1);
    forward.tick();
    forward.tick();
    assert_eq!(forward.state(), 3);
    let mut reverse = LoadingStateView::new(LoadingCharStyle::FullBlock, true);
    reverse.tick();
    assert_eq!(reverse.state(), usize::MAX - 1);
    reverse.tick();
    assert_eq!(reverse.state(), usize::MAX - 2);
}

#[test]
fn loading_interval_is_eighty_milliseconds() {
    assert_eq!(LOADING_INTERVAL, 80);
}

#[test]
fn bar_at_state_zero_has_no_highlight() {
    let view = LoadingStateView::new(LoadingCharStyle::DashAndEquals, false);
    let text = view.calculate_string(6);
    assert_eq!(cells(&text), bar("━", "=", &[false; 6]));
    assert_eq!(text.source(), "======");
}

#[test]
fn bar_grows_from_the_left() {
    let text = ticked(LoadingCharStyle::DashAndEquals, 1).calculate_string(6);
    assert_eq!(cells(&text), bar("━", "=", &[true, false, false, false, false, false]));
    assert_eq!(text.source(), "━=====");
    let text = ticked(LoadingCharStyle::DashAndEquals, 4).calculate_string(6);
    assert_eq!(cells(&text), bar("━", "=", &[false, true, true, true, false, false]));
}

#[test]
fn bar_wraps_around_the_end() {
    let text = ticked(LoadingCharStyle::DashAndEquals, 7).calculate_string(6);
    assert_eq!(cells(&text), bar("━", "=", &[true, false, false, false, true, true]));
    assert_eq!(text.source(), "━===━━");
    let text = ticked(LoadingCharStyle::DashAndEquals, 6).calculate_string(6);
    assert_eq!(cells(&text), bar("━", "=", &[false, false, false, true, true, true]));
}

#[test]
fn bar_narrower_than_three_is_drawn_as_three() {
    for width in 0usize..3 {
        let text = ticked(LoadingCharStyle::ReverseDashAndEquals, 2).calculate_string(width);
        assert_eq!(cells(&text), bar("=", "━", &[true, true, false]));
        assert_eq!(
            cells(&text),
            cells(&ticked(LoadingCharStyle::ReverseDashAndEquals, 2).calculate_string(3))
        );
    }
}

#[test]
fn bar_uses_the_glyphs_of_its_style() {
    let text = ticked(LoadingCharStyle::FullBlock, 1).calculate_string(3);
    assert_eq!(cells(&text), bar("█", "█", &[true, false, false]));
    let text = ticked(LoadingCharStyle::Dash, 1).calculate_string(3);
    assert_eq!(cells(&text), bar("━", "━", &[true, false, false]));
    let text = ticked(LoadingCharStyle::DashAndEquals, 1).calculate_string(3);
    assert_eq!(cells(&text), bar("━", "=", &[true, false, false]));
    let text = ticked(LoadingCharStyle::ReverseDashAndEquals, 1).calculate_string(3);
    assert_eq!(cells(&text), bar("=", "━", &[true, false, false]));
}

#[test]
fn bar_styles_active_cells_secondary_and_inactive_cells_plain() {
    let text = ticked(LoadingCharStyle::Dash, 1).calculate_string(3);
    let styles: Vec<Style> = text.spans().map(|span| *span.attr).collect();
    assert_eq!(
        styles,
        vec![Style::from(ColorStyle::secondary()), Style::none(), Style::none()]
    );
    assert_eq!(text.width(), 3);
}

#[test]
fn bar_of_a_reverse_counter_at_the_top() {
    let view = LoadingStateView::new(LoadingCharStyle::DashAndEquals, true);
    let width = 5usize;
    let (first, second) = LoadingStateView::calculate_ranges(usize::MAX, 2, width);
    let expected: Vec<bool> =
        (1..=width).map(|i| first.contains(&i) || second.contains(&i)).collect();
    assert_eq!(cells(&view.calculate_string(width)), bar("━", "=", &expected));
}

#[test]
fn bar_has_one_cell_for_each_column() {
    for width in 3usize..30 {
        for ticks in 0usize..40 {
            let text = ticked(LoadingCharStyle::Dash, ticks).calculate_string(width);
            assert_eq!(text.spans().len(), width);
            let (middle, _) = LoadingStateView::calculate_length(width);
            let (first, second) = LoadingStateView::calculate_ranges(ticks, middle, width);
            let expected: Vec<bool> =
                (1..=width).map(|i| first.contains(&i) || second.contains(&i)).collect();
            assert_eq!(cells(&text), bar("━", "━", &expected));
        }
    }
}
