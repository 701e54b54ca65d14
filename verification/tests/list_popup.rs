use tcui::geometry::{Position, Rect};
use tcui::list_popup::{ListPopup, ListPopupAction, ListPopupItem, ListPopupPlacement};

#[test]
fn selectable_popup_returns_the_highlighted_action() {
    let mut popup = ListPopup::selectable(
        "Skills".to_string(),
        "No skills".to_string(),
        vec![ListPopupItem::insert("@caveman ".to_string()), ListPopupItem::insert("@obsidian ".to_string())],
    );

    popup.move_down(4);

    assert_eq!(popup.selected_action(), Some(ListPopupAction::InsertText("@obsidian ".to_string())));
}

fn items(n: usize) -> Vec<ListPopupItem> {
    (0..n).map(|i| ListPopupItem::action(format!("item {i}"), ListPopupAction::SetTheme(format!("t{i}")))).collect()
}

#[test]
fn insert_items_are_labelled_by_their_trimmed_text() {
    let item = ListPopupItem::insert("  @x  ".to_string());
    assert_eq!(item.label, "@x");
    assert_eq!(item.action, Some(ListPopupAction::InsertText("  @x  ".to_string())));
}

#[test]
fn plain_popups_select_nothing() {
    let popup = ListPopup::new("T".to_string(), "none".to_string(), vec!["a".to_string(), "b".to_string()]);
    assert_eq!(popup.selected, None);
    assert_eq!(popup.items.len(), 2);
    assert_eq!(popup.items[1].label, "b");
    assert_eq!(popup.selected_action(), None);
    let empty = ListPopup::selectable("T".to_string(), "none".to_string(), Vec::new());
    assert_eq!(empty.selected, None);
}

#[test]
fn moving_down_scrolls_to_keep_the_selection_visible() {
    let mut popup = ListPopup::selectable("T".to_string(), "none".to_string(), items(5));
    popup.move_down(2);
    popup.move_down(2);
    assert_eq!(popup.selected, Some(2));
    assert_eq!(popup.scroll, 1);
    popup.move_down(2);
    popup.move_down(2);
    popup.move_down(2);
    assert_eq!(popup.selected, Some(4));
    assert_eq!(popup.scroll, 3);
    popup.move_up();
    popup.move_up();
    assert_eq!(popup.selected, Some(2));
    assert_eq!(popup.scroll, 2);
}

#[test]
fn scrolling_without_selection_stays_in_range() {
    let mut popup = ListPopup::new("T".to_string(), "none".to_string(), (0..5).map(|i| i.to_string()).collect());
    popup.scroll_down(3);
    popup.scroll_down(3);
    popup.scroll_down(3);
    assert_eq!(popup.scroll, 2);
    popup.move_up();
    assert_eq!(popup.scroll, 1);
    popup.scroll_up();
    popup.scroll_up();
    assert_eq!(popup.scroll, 0);
}

#[test]
fn centred_popup_is_seventy_percent_of_the_area() {
    let area = Rect { x: 0, y: 0, width: 100, height: 40 };
    assert_eq!(ListPopup::popup_area(area), Rect { x: 15, y: 6, width: 70, height: 28 });
    let small = Rect { x: 2, y: 3, width: 20, height: 5 };
    assert_eq!(ListPopup::popup_area(small), Rect { x: 2, y: 3, width: 20, height: 5 });
}

#[test]
fn anchored_popup_opens_above_its_anchor() {
    let anchor = Rect { x: 4, y: 20, width: 10, height: 1 };
    let popup = ListPopup::anchored_selectable("T".to_string(), "none".to_string(), items(3), Some(anchor));
    assert!(popup.live_input);
    let area = Rect { x: 0, y: 0, width: 80, height: 24 };
    assert_eq!(popup.popup_area_in(area), Rect { x: 4, y: 15, width: 36, height: 5 });
    let unanchored = ListPopup::anchored_selectable("T".to_string(), "none".to_string(), items(3), None);
    assert_eq!(unanchored.placement, ListPopupPlacement::Anchored(None));
    assert_eq!(unanchored.popup_area_in(area), ListPopup::popup_area(area));
}

#[test]
fn clicking_an_item_selects_it() {
    let mut popup = ListPopup::selectable("T".to_string(), "none".to_string(), items(3));
    let area = Rect { x: 0, y: 0, width: 100, height: 40 };
    let inner_top = ListPopup::popup_area(area).y + 1;
    let action = popup.action_at(area, Position { x: 20, y: inner_top + 2 });
    assert_eq!(action, Some(ListPopupAction::SetTheme("t2".to_string())));
    assert_eq!(popup.selected, Some(2));
    let below = popup.action_at(area, Position { x: 20, y: inner_top + 5 });
    assert_eq!(below, None);
    assert_eq!(popup.selected, None);
    popup.selected = Some(1);
    let outside = popup.action_at(area, Position { x: 0, y: 0 });
    assert_eq!(outside, None);
    assert_eq!(popup.selected, Some(1));
}
