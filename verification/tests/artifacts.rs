use tcui::artifacts::{
    kind_label, section_body_height, truncate_label, vault_node_label, visible_rows, ArtifactEntry, ArtifactHandle,
    ArtifactKind, ArtifactOrigin, ArtifactRowHitAreas, ArtifactSection, ArtifactSidebarAction, ArtifactSidebarState,
    VaultNode, VaultNodeHitArea, VaultNodeKind,
};
use tcui::geometry::{Position, Rect};

#[test]
fn toggling_vault_dir_updates_collapsed_set() {
    let mut state = ArtifactSidebarState::default();
    let path = "notes".to_string();

    state.toggle_vault_dir(&path);
    assert!(state.is_vault_dir_collapsed(&path));

    state.toggle_vault_dir(&path);
    assert!(!state.is_vault_dir_collapsed(&path));
}

#[test]
fn header_clicks_toggle_their_section() {
    let mut state = ArtifactSidebarState::new();
    state.temp_header = Some(Rect { x: 0, y: 0, width: 32, height: 1 });
    state.saved_header = Some(Rect { x: 0, y: 5, width: 32, height: 1 });
    assert_eq!(state.action_at(Position { x: 1, y: 0 }), Some(ArtifactSidebarAction::ToggleSection(ArtifactSection::Temporary)));
    assert_eq!(state.action_at(Position { x: 1, y: 5 }), Some(ArtifactSidebarAction::ToggleSection(ArtifactSection::Saved)));
    assert_eq!(state.action_at(Position { x: 1, y: 3 }), None);
}

#[test]
fn card_buttons_and_vault_rows_answer_clicks() {
    let mut state = ArtifactSidebarState::new();
    state.saved_rows.push(ArtifactRowHitAreas {
        handle: ArtifactHandle::Saved("a.md".to_string()),
        open: Rect { x: 0, y: 2, width: 10, height: 1 },
        edit: None,
        save: Some(Rect { x: 11, y: 2, width: 6, height: 1 }),
        delete: Some(Rect { x: 18, y: 2, width: 5, height: 1 }),
    });
    state.vault_nodes.push(VaultNodeHitArea {
        action: ArtifactSidebarAction::ToggleVaultDir("notes".to_string()),
        area: Rect { x: 0, y: 9, width: 30, height: 1 },
    });
    let saved = ArtifactHandle::Saved("a.md".to_string());
    assert_eq!(state.action_at(Position { x: 3, y: 2 }), Some(ArtifactSidebarAction::Open(saved.clone())));
    assert_eq!(state.action_at(Position { x: 12, y: 2 }), Some(ArtifactSidebarAction::Save(saved.clone())));
    assert_eq!(state.action_at(Position { x: 19, y: 2 }), Some(ArtifactSidebarAction::Delete(saved)));
    assert_eq!(state.action_at(Position { x: 4, y: 9 }), Some(ArtifactSidebarAction::ToggleVaultDir("notes".to_string())));
    state.clear_hit_state();
    assert_eq!(state.action_at(Position { x: 4, y: 9 }), None);
}

#[test]
fn sections_scroll_within_their_content() {
    let mut state = ArtifactSidebarState::new();
    state.scroll(ArtifactSection::Saved, true, 5, 2);
    state.scroll(ArtifactSection::Saved, true, 5, 2);
    state.scroll(ArtifactSection::Saved, true, 5, 2);
    state.scroll(ArtifactSection::Saved, true, 5, 2);
    assert_eq!(state.saved_scroll, 3);
    assert_eq!(state.temp_scroll, 0);
    state.scroll(ArtifactSection::Saved, false, 5, 2);
    assert_eq!(state.saved_scroll, 2);
    state.scroll(ArtifactSection::Vault, false, 5, 0);
    assert_eq!(state.vault_scroll, 0);
}

#[test]
fn toggling_a_section_twice_restores_it() {
    let mut state = ArtifactSidebarState::new();
    state.toggle(ArtifactSection::Memories);
    assert!(state.memory_collapsed);
    assert!(!state.temp_collapsed);
    state.toggle(ArtifactSection::Memories);
    assert!(!state.memory_collapsed);
}

#[test]
fn body_sections_are_found_by_position() {
    let mut state = ArtifactSidebarState::new();
    state.vault_body = Some(Rect { x: 0, y: 10, width: 20, height: 5 });
    assert_eq!(state.section_at(Position { x: 2, y: 12 }), Some(ArtifactSection::Vault));
    assert_eq!(state.section_at(Position { x: 2, y: 2 }), None);
}

#[test]
fn entries_offer_the_right_actions() {
    let temp = ArtifactEntry::temp_markdown(1, "t.md".to_string(), "body".to_string());
    assert_eq!(temp.action_label(true), Some("Vault"));
    assert_eq!(temp.action_label(false), Some("Save"));
    assert_eq!(temp.origin_label(), "Temporary");
    assert!(temp.is_markdown());
    let memory = ArtifactEntry::memory_file("m/x".to_string(), "X".to_string(), "# x".to_string(), "/tmp/x.md".to_string());
    assert_eq!(memory.save_label(true), "Exp");
    assert!(memory.can_save(false));
    let vault = ArtifactEntry {
        handle: ArtifactHandle::Vault("v.md".to_string()),
        name: "v.md".to_string(),
        kind: ArtifactKind::Markdown,
        origin: ArtifactOrigin::Vault,
        content: None,
        path: None,
    };
    assert_eq!(vault.action_label(true), None);
    assert_eq!(vault.save_label(true), "");
    assert!(!vault.can_save(true));
    assert!(vault.can_delete());
    assert_eq!(kind_label(ArtifactKind::Audio), "aud");
}

#[test]
fn section_bodies_grow_by_card_height_up_to_the_limit() {
    assert_eq!(section_body_height(true, 4, 3, 20), 0);
    assert_eq!(section_body_height(false, 0, 3, 20), 1);
    assert_eq!(section_body_height(false, 0, 3, 0), 0);
    assert_eq!(section_body_height(false, 2, 3, 20), 6);
    assert_eq!(section_body_height(false, 4, 3, 20), 9);
    assert_eq!(section_body_height(false, 4, 3, 7), 7);
    assert_eq!(visible_rows(Rect { x: 0, y: 0, width: 10, height: 7 }), 2);
    assert_eq!(visible_rows(Rect { x: 0, y: 0, width: 10, height: 1 }), 1);
}

#[test]
fn labels_and_vault_rows_are_cut_to_width() {
    assert_eq!(truncate_label("notes.md", 10), "notes.md");
    assert_eq!(truncate_label("very-long-name.md", 8), "very-...");
    let dir = VaultNode {
        path: "notes/projects".to_string(),
        depth: 1,
        kind: VaultNodeKind::Directory,
        label: "projects".to_string(),
        expanded: false,
    };
    assert_eq!(vault_node_label(&dir, 40), "  > projects");
    let file = VaultNode { kind: VaultNodeKind::File, depth: 0, label: "a.md".to_string(), ..dir.clone() };
    assert_eq!(vault_node_label(&file, 40), "- a.md");
}

#[test]
fn hidden_components_and_vault_rows() {
    assert!(tcui::artifacts::is_hidden_component(".obsidian"));
    assert!(!tcui::artifacts::is_hidden_component("notes"));
    assert!(!tcui::artifacts::is_hidden_component(""));
    assert_eq!(tcui::artifacts::visible_vault_rows(Rect { x: 0, y: 0, width: 4, height: 0 }), 1);
    assert_eq!(tcui::artifacts::visible_vault_rows(Rect { x: 0, y: 0, width: 4, height: 9 }), 9);
}

#[test]
fn vault_dirs_are_compared_as_paths() {
    let mut state = ArtifactSidebarState::default();
    state.toggle_vault_dir("notes");
    assert!(state.is_vault_dir_collapsed("notes/"));
    assert!(state.is_vault_dir_collapsed("notes//"));
    state.toggle_vault_dir("notes/");
    assert!(!state.is_vault_dir_collapsed("notes"));
    assert!(state.collapsed_vault_dirs.is_empty());
}
