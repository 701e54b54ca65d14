use tcui::chat_layout::chat_layout;
use tcui::geometry::{Position, Rect};

fn rect(x: u16, y: u16, width: u16, height: u16) -> Rect {
    Rect { x, y, width, height }
}

#[test]
fn typed_input_cursor_stays_on_last_character() {
    let areas = chat_layout(rect(0, 0, 40, 12), false, false, "a", 1, 0);
    let input_area = areas.input_text;
    assert_eq!(areas.cursor, Some(Position { x: input_area.x + 1, y: input_area.y }));
}

#[test]
fn bottom_input_block_has_outer_margin() {
    let areas = chat_layout(rect(0, 0, 40, 12), false, false, "", 0, 0);
    assert_eq!(areas.input_box.x, 2);
}

#[test]
fn multiline_input_grows_and_scrolls_with_long_content() {
    let content = "line one wraps around the viewport width and keeps going. line two wraps around the viewport width and keeps going. line three wraps around the viewport width and keeps going. line four wraps around the viewport width and keeps going. line five wraps around the viewport width and keeps going. line six wraps around the viewport width and keeps going.";
    let cursor = content.chars().count();
    let areas = chat_layout(rect(0, 0, 40, 16), false, false, content, cursor, 0);
    assert!(areas.input_box.height > 3);
    assert!(areas.input_scroll > 0);
}

#[test]
fn empty_chat_centres_the_input_box_and_has_no_transcript() {
    let areas = chat_layout(rect(0, 0, 100, 30), true, false, "", 0, 0);
    assert_eq!(areas.messages, None);
    assert_eq!(areas.title, None);
    assert!(areas.input_box.x > 10);
    assert!(areas.input_box.y > 5);
}

#[test]
fn titled_chat_has_a_two_row_title_above_the_transcript() {
    let areas = chat_layout(rect(0, 0, 60, 20), false, true, "", 0, 0);
    assert_eq!(areas.title, Some(rect(0, 0, 60, 2)));
    let messages = areas.messages.unwrap();
    assert_eq!(messages.x, 1);
    assert_eq!(messages.y, 2);
    assert_eq!(messages.width, 58);
}

#[test]
fn chat_areas_follow_the_rows_they_are_given() {
    let areas = tcui::chat_layout::chat_areas(Some(rect(0, 0, 40, 2)), rect(0, 2, 40, 10), rect(0, 12, 40, 5), false, "hi", 2, 0);
    assert_eq!(areas.title, Some(rect(0, 0, 40, 2)));
    assert_eq!(areas.messages, Some(rect(1, 2, 38, 9)));
    assert_eq!(areas.input_box, rect(2, 13, 36, 3));
    assert_eq!(areas.input_text, rect(3, 14, 34, 1));
    assert_eq!(areas.cursor, Some(Position { x: 5, y: 14 }));
}
