use tcui::geometry::Rect;
use tcui::screen_layout::{ui_layout, UiLayoutInput};

fn rect(x: u16, y: u16, width: u16, height: u16) -> Rect {
    Rect { x, y, width, height }
}

#[test]
fn wide_screen_shows_both_sidebars_beside_the_chat() {
    let areas = ui_layout(rect(0, 0, 100, 30), &UiLayoutInput { sidebar_open: true, artifact_sidebar_open: true });
    assert_eq!(areas.top_bar, rect(0, 0, 100, 1));
    assert_eq!(areas.status_bar, rect(0, 29, 100, 1));
    assert_eq!(areas.sidebar, rect(0, 1, 24, 28));
    assert!(areas.show_artifact_sidebar);
    assert_eq!(areas.chat, rect(24, 1, 44, 28));
    assert_eq!(areas.artifact_sidebar, rect(68, 1, 32, 28));
    assert_eq!(areas.pane, rect(25, 2, 42, 26));
}

#[test]
fn artifact_sidebar_is_dropped_when_the_room_is_under_seventy_two_columns() {
    let areas = ui_layout(rect(0, 0, 90, 30), &UiLayoutInput { sidebar_open: true, artifact_sidebar_open: true });
    assert!(!areas.show_artifact_sidebar);
    assert_eq!(areas.chat, rect(24, 1, 66, 28));
    assert_eq!(areas.artifact_sidebar.width, 0);
}

#[test]
fn closed_sidebars_leave_the_chat_the_whole_width() {
    let areas = ui_layout(rect(0, 0, 80, 20), &UiLayoutInput { sidebar_open: false, artifact_sidebar_open: false });
    assert_eq!(areas.sidebar.width, 0);
    assert_eq!(areas.chat, rect(0, 1, 80, 18));
    assert_eq!(areas.pane, rect(1, 2, 78, 16));
}

#[test]
fn artifact_sidebar_without_the_conversation_sidebar_takes_thirty_two_columns() {
    let areas = ui_layout(rect(0, 0, 120, 30), &UiLayoutInput { sidebar_open: false, artifact_sidebar_open: true });
    assert_eq!(areas.chat, rect(0, 1, 88, 28));
    assert_eq!(areas.artifact_sidebar, rect(88, 1, 32, 28));
}

#[test]
fn artifact_sidebar_starts_collapsed() {
    let ui = UiLayoutInput::new();
    assert!(!ui.artifact_sidebar_open);
    assert!(!ui.sidebar_open);
}

#[test]
fn ui_areas_cut_the_middle_row_given_by_the_split() {
    let areas = tcui::screen_layout::ui_areas(
        rect(0, 0, 100, 1),
        rect(0, 1, 100, 20),
        rect(0, 21, 100, 1),
        &UiLayoutInput { sidebar_open: true, artifact_sidebar_open: true },
    );
    assert_eq!(areas.content, rect(0, 1, 100, 20));
    assert_eq!(areas.sidebar, rect(0, 1, 24, 20));
    assert_eq!(areas.chat, rect(24, 1, 44, 20));
    assert_eq!(areas.artifact_sidebar, rect(68, 1, 32, 20));
    assert_eq!(areas.status_bar, rect(0, 21, 100, 1));
}
