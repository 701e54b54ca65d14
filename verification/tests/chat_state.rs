use tcui::chat_state::{ChatTabState, ChatTabs};
use tcui::transcript::ChatMessage;

fn message(role: &str, content: &str) -> ChatMessage {
    ChatMessage { role: role.to_string(), content: content.to_string(), thinking_content: None }
}

#[test]
fn streamed_text_goes_to_assistant_messages_only() {
    let mut tabs = ChatTabs::new();
    tabs.add_message(0, message("user", "hi"));
    assert_eq!(tabs.tabs[0].scroll_to_message, Some(0));
    tabs.add_message(0, message("assistant", ""));
    assert_eq!(tabs.tabs[0].scroll_to_message, Some(1));
    tabs.add_stream_content(0, 1, "Hel");
    tabs.add_stream_content(0, 1, "lo");
    tabs.add_stream_content(0, 0, "!");
    tabs.add_stream_content(0, 7, "?");
    tabs.add_stream_content(3, 1, "?");
    assert_eq!(tabs.tabs[0].messages[1].content, "Hello");
    assert_eq!(tabs.tabs[0].messages[0].content, "hi");
    tabs.add_stream_thinking(0, 1, "Re");
    tabs.add_stream_thinking(0, 1, "ason");
    assert_eq!(tabs.tabs[0].messages[1].thinking_content.as_deref(), Some("Reason"));
    assert_eq!(tabs.tabs[0].messages[0].thinking_content, None);
}

#[test]
fn finishing_a_stream_clears_the_flag() {
    let mut tabs = ChatTabs::new();
    tabs.tabs[0].streaming = true;
    tabs.finish_stream(0);
    assert!(!tabs.tabs[0].streaming);
}

#[test]
fn toggling_a_fold_twice_restores_it_and_jumps_to_the_message() {
    let mut tabs = ChatTabs::new();
    tabs.toggle_thinking_fold(0, 4);
    assert!(tabs.tabs[0].thinking_fold_overrides.contains(&4));
    assert_eq!(tabs.tabs[0].scroll_to_message, Some(4));
    tabs.toggle_thinking_fold(0, 2);
    tabs.toggle_thinking_fold(0, 4);
    assert!(!tabs.tabs[0].thinking_fold_overrides.contains(&4));
    assert!(tabs.tabs[0].thinking_fold_overrides.contains(&2));
}

#[test]
fn the_last_tab_cannot_be_removed_and_shown_tab_stays_in_range() {
    let mut tabs = ChatTabs::new();
    tabs.remove_tab(0);
    assert_eq!(tabs.tabs.len(), 1);
    tabs.add_tab();
    tabs.add_tab();
    assert_eq!(tabs.active_tab, 2);
    tabs.remove_tab(2);
    assert_eq!(tabs.tabs.len(), 2);
    assert_eq!(tabs.active_tab, 1);
    tabs.active_tab = 0;
    tabs.remove_tab(1);
    assert_eq!(tabs.active_tab, 0);
    tabs.remove_tab(5);
    assert_eq!(tabs.tabs.len(), 1);
}

#[test]
fn a_new_tab_is_empty() {
    let tab = ChatTabState::new();
    assert!(tab.messages.is_empty());
    assert_eq!(tab.scroll_to_message, None);
    assert!(!tab.streaming);
}
