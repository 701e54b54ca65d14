use tcui::app_tabs::{AppTabs, AppView};

#[test]
fn placeholder_tabs_are_sequential_and_chat_cannot_close() {
    let mut tabs = AppTabs::default();

    tabs.add_placeholder();
    tabs.add_placeholder();
    tabs.close(0);

    assert_eq!(
        tabs.views(),
        &[
            AppView::Chat,
            AppView::Placeholder { number: 1 },
            AppView::Placeholder { number: 2 },
        ]
    );
    assert_eq!(tabs.active_view(), AppView::Placeholder { number: 2 });
}

#[test]
fn closing_active_placeholder_selects_nearest_remaining_tab() {
    let mut tabs = AppTabs::default();
    tabs.add_placeholder();
    tabs.add_placeholder();

    tabs.close(2);

    assert_eq!(tabs.active_view(), AppView::Placeholder { number: 1 });
}

#[test]
fn closed_placeholder_number_is_reused_within_visible_range() {
    let mut tabs = AppTabs::default();
    for _ in 0..5 {
        tabs.add_placeholder();
    }
    tabs.close(3);

    tabs.add_placeholder();

    assert_eq!(tabs.views().len(), 6);
    assert!(tabs.views().contains(&AppView::Placeholder { number: 3 }));
    assert!(tabs.views().iter().all(|view| match view {
        AppView::Chat => true,
        AppView::Placeholder { number } => *number <= 5,
    }));
}

#[test]
fn default_tabs_hold_only_the_chat() {
    let tabs = AppTabs::default();
    assert_eq!(tabs.views(), &[AppView::Chat]);
    assert_eq!(tabs.active_index(), 0);
    assert_eq!(tabs.active_view(), AppView::Chat);
}

#[test]
fn closing_a_freshly_added_tab_restores_the_tabs() {
    let mut tabs = AppTabs::default();
    tabs.add_placeholder();
    tabs.select(0);
    let before: Vec<AppView> = tabs.views().to_vec();
    tabs.add_placeholder();
    assert_eq!(tabs.active_index(), 2);
    tabs.close(2);
    assert_eq!(tabs.views(), before.as_slice());
    assert_eq!(tabs.active_index(), 1);
}

#[test]
fn select_out_of_range_keeps_the_active_tab() {
    let mut tabs = AppTabs::default();
    tabs.add_placeholder();
    tabs.select(0);
    tabs.select(7);
    assert_eq!(tabs.active_index(), 0);
    tabs.select(1);
    assert_eq!(tabs.active_view(), AppView::Placeholder { number: 1 });
}

#[test]
fn tab_titles_name_chat_and_numbered_tabs() {
    assert_eq!(AppView::Chat.title(), "Chat");
    assert_eq!(AppView::Placeholder { number: 12 }.title(), "Tab 12");
    assert!(AppView::Chat.is_chat());
    assert!(!AppView::Placeholder { number: 1 }.is_chat());
}

#[test]
fn new_tab_takes_the_smallest_free_number() {
    let mut tabs = AppTabs::default();
    tabs.add_placeholder();
    tabs.add_placeholder();
    tabs.add_placeholder();
    tabs.close(1);
    tabs.add_placeholder();
    assert_eq!(
        tabs.views(),
        &[
            AppView::Chat,
            AppView::Placeholder { number: 2 },
            AppView::Placeholder { number: 3 },
            AppView::Placeholder { number: 1 },
        ]
    );
}

#[test]
fn at_most_five_placeholder_tabs_open() {
    let mut tabs = AppTabs::default();
    for _ in 0..7 {
        tabs.add_placeholder();
    }
    assert_eq!(tabs.views().len(), 6);
    assert_eq!(tabs.active_view(), AppView::Placeholder { number: 5 });
}
