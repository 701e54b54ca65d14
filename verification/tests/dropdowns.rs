use tcui::dropdowns::{dropdown_layout, list_below, ChatDropdown};
use tcui::geometry::Rect;

fn names(list: &[&str]) -> Vec<String> {
    list.iter().map(|s| s.to_string()).collect()
}

#[test]
fn provider_dropdown_scrolls_and_sits_above_its_anchor() {
    let items: Vec<String> = (0..8).map(|i| format!("provider-{i}")).collect();
    let anchor = Rect { x: 5, y: 20, width: 10, height: 1 };
    let layout = dropdown_layout(ChatDropdown::Provider, anchor, &items, Some("provider-3"), 10);

    assert_eq!(layout.scroll_offset, 2);
    assert_eq!(layout.labels, items[2..8].to_vec());
    assert_eq!(layout.selected, vec![false, true, false, false, false, false]);
    assert_eq!(layout.area, Rect { x: 5, y: 12, width: 33, height: 8 });
    assert_eq!(layout.viewport, Rect { x: 6, y: 13, width: 30, height: 6 });
    assert_eq!(layout.scrollbar, Some(Rect { x: 36, y: 13, width: 1, height: 6 }));
    assert_eq!(layout.item_areas.len(), 6);
    assert_eq!(layout.item_areas[5], Rect { x: 6, y: 18, width: 30, height: 1 });
}

#[test]
fn model_dropdown_widens_for_long_ids_without_scrollbar_when_all_fit() {
    let items = names(&["deepseek-v4-flash-with-long-suffix", "small"]);
    let anchor = Rect { x: 0, y: 3, width: 10, height: 1 };
    let layout = dropdown_layout(ChatDropdown::Model, anchor, &items, None, 0);

    assert_eq!(layout.area, Rect { x: 0, y: 0, width: 37, height: 4 });
    assert_eq!(layout.viewport, Rect { x: 1, y: 1, width: 34, height: 2 });
    assert_eq!(layout.scrollbar, None);
    assert_eq!(layout.selected, vec![false, false]);
}

#[test]
fn reasoning_dropdown_clips_labels_and_has_no_scrollbar_column() {
    let items = names(&["low", "medium", "extremely-high"]);
    let anchor = Rect { x: 0, y: 10, width: 10, height: 1 };
    let layout = dropdown_layout(ChatDropdown::Reasoning, anchor, &items, Some("medium"), 0);

    assert_eq!(layout.labels, names(&["low", "medium", "extreme~"]));
    assert_eq!(layout.selected, vec![false, true, false]);
    assert_eq!(layout.area, Rect { x: 0, y: 5, width: 10, height: 5 });
    assert_eq!(layout.viewport, Rect { x: 1, y: 6, width: 8, height: 3 });
    assert_eq!(layout.scrollbar, None);
}

#[test]
fn empty_dropdown_has_no_rows() {
    let layout = dropdown_layout(ChatDropdown::Provider, Rect { x: 2, y: 2, width: 4, height: 1 }, &vec![], None, 3);

    assert_eq!(layout.scroll_offset, 0);
    assert!(layout.labels.is_empty());
    assert!(layout.item_areas.is_empty());
    assert_eq!(layout.area, Rect { x: 2, y: 0, width: 33, height: 2 });
}

#[test]
fn settings_provider_list_opens_below_its_row() {
    let names: Vec<String> = (0..10).map(|i| format!("p{i}")).collect();
    let anchor = Rect { x: 4, y: 6, width: 40, height: 3 };
    let layout = list_below(anchor, &names, "p9", 5);

    assert_eq!(layout.scroll_offset, 2);
    assert_eq!(layout.labels, names[2..10].to_vec());
    assert_eq!(layout.selected[7], true);
    assert_eq!(layout.area, Rect { x: 4, y: 9, width: 40, height: 10 });
    assert_eq!(layout.viewport, Rect { x: 5, y: 10, width: 37, height: 8 });
    assert_eq!(layout.scrollbar, Some(Rect { x: 42, y: 10, width: 1, height: 8 }));
    assert_eq!(layout.item_areas[0], Rect { x: 5, y: 10, width: 37, height: 1 });
}

#[test]
fn short_provider_list_has_no_scrollbar() {
    let names = names(&["A", "B"]);
    let layout = list_below(Rect { x: 0, y: 0, width: 10, height: 3 }, &names, "B", 0);

    assert_eq!(layout.selected, vec![false, true]);
    assert_eq!(layout.scrollbar, None);
    assert_eq!(layout.area, Rect { x: 0, y: 3, width: 10, height: 4 });
}
