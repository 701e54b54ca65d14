use tcui::geometry::Rect;
use tcui::input_box::{
    chat_messages_area, input_box_area,
    animated_dots, bottom_input_height, centered_input_height, checked_dropdown_width, clipped_label,
    dropdown_width_for, input_layout,
};

#[test]
fn input_layout_scrolls_to_keep_cursor_visible() {
    let layout = input_layout("abcdefghij", 10, 0, 5, 1, false);

    assert_eq!(layout.scroll, 1);
    assert_eq!(layout.cursor_x, 5);
    assert_eq!(layout.visible_lines, vec!["fghij".to_string()]);
}

#[test]
fn empty_input_insets_placeholder_horizontally_without_extra_rows() {
    let layout = input_layout("", 0, 0, 40, 3, true);

    assert_eq!(layout.visible_lines, vec!["Type your message...".to_string()]);
    assert_eq!(layout.cursor_y, 0);
    assert_eq!(layout.total_lines, 1);
}

#[test]
fn dropdown_width_keeps_full_provider_and_model_labels_clickable() {
    let provider_labels = vec!["VeryLongProviderName".to_string()];
    let model_labels = vec!["deepseek-v4-flash-with-long-suffix".to_string()];

    assert_eq!(dropdown_width_for(&provider_labels, 30, 1), 33);
    assert_eq!(dropdown_width_for(&model_labels, 30, 1), 37);
}

#[test]
fn input_rows_break_at_newlines_and_width() {
    let layout = input_layout("ab\ncdefg", 0, 0, 3, 5, true);
    assert_eq!(layout.visible_lines, vec!["ab", "cde", "fg"]);
    assert_eq!(layout.line_ranges, vec![(0, 2), (3, 6), (6, 8)]);
    assert_eq!(layout.total_lines, 3);
    assert!(!layout.show_scrollbar);
    assert_eq!((layout.cursor_x, layout.cursor_y), (0, 0));
}

#[test]
fn cursor_past_the_end_sits_on_the_last_row() {
    let layout = input_layout("ab\ncdefg", 99, 0, 3, 2, true);
    assert_eq!(layout.scroll, 1);
    assert_eq!(layout.visible_lines, vec!["cde", "fg"]);
    assert_eq!(layout.cursor_y, 1);
    assert_eq!(layout.cursor_x, 2);
    assert!(layout.show_scrollbar);
}

#[test]
fn zero_sized_box_lays_out_nothing() {
    let layout = input_layout("hello", 3, 7, 0, 4, true);
    assert!(layout.visible_lines.is_empty());
    assert_eq!(layout.scroll, 7);
    assert_eq!(layout.total_lines, 0);
}

#[test]
fn placeholder_is_cut_to_the_width_or_hidden() {
    let layout = input_layout("", 0, 0, 4, 3, true);
    assert_eq!(layout.visible_lines, vec!["Type".to_string()]);
    let layout = input_layout("", 0, 0, 4, 3, false);
    assert_eq!(layout.visible_lines, vec!["".to_string()]);
}

#[test]
fn input_box_heights_stay_within_bounds() {
    assert_eq!(bottom_input_height("", 0, 0, 40, 12), 5);
    assert_eq!(bottom_input_height("", 0, 0, 40, 4), 3);
    let long = "x".repeat(200);
    assert_eq!(bottom_input_height(&long, 200, 0, 40, 12), 6);
    assert_eq!(centered_input_height("", 0, 0, 40, 12), 5);
}

#[test]
fn working_dots_cycle_every_ten_frames() {
    assert_eq!(animated_dots(0), ".");
    assert_eq!(animated_dots(10), "..");
    assert_eq!(animated_dots(25), "...");
    assert_eq!(animated_dots(39), "");
    assert_eq!(animated_dots(40), ".");
}

#[test]
fn labels_are_clipped_with_a_tilde() {
    assert_eq!(clipped_label("short", 8), "short");
    assert_eq!(clipped_label("very long label", 8), "very lo~");
    assert_eq!(clipped_label("ab", 0), "~");
}

#[test]
fn dropdown_width_uses_the_minimum_for_short_or_no_labels() {
    assert_eq!(dropdown_width_for(&[], 8, 0), 10);
    assert_eq!(dropdown_width_for(&["ab".to_string()], 0, 0), 4);
    assert_eq!(checked_dropdown_width(&["ab".to_string()], 65535, 0), None);
    assert_eq!(checked_dropdown_width(&["ab".to_string()], 5, 1), Some(8));
}

#[test]
fn input_box_sits_inside_its_margins() {
    let area = Rect { x: 0, y: 7, width: 40, height: 5 };
    let inner = input_box_area(area);
    assert_eq!(inner, Rect { x: 2, y: 8, width: 36, height: 3 });
    assert_eq!(inner.right(), 38);
    assert_eq!(input_box_area(Rect { x: 5, y: 5, width: 3, height: 9 }), Rect { x: 0, y: 0, width: 0, height: 0 });
}

#[test]
fn transcript_area_leaves_a_column_and_a_row() {
    assert_eq!(chat_messages_area(Rect { x: 0, y: 0, width: 80, height: 24 }), Rect { x: 1, y: 0, width: 78, height: 23 });
    assert_eq!(chat_messages_area(Rect { x: 3, y: 2, width: 1, height: 0 }), Rect { x: 4, y: 2, width: 0, height: 0 });
}
