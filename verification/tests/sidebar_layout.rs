use tcui::artifacts::{ArtifactEntry, ArtifactHandle, ArtifactKind, ArtifactOrigin, ArtifactSection, ArtifactSidebarAction, ArtifactSidebarState};
use tcui::geometry::{Position, Rect};
use tcui::sidebar_layout::sidebar_layout;

fn entry(name: &str, origin: ArtifactOrigin) -> ArtifactEntry {
    let handle = match origin {
        ArtifactOrigin::Temporary => ArtifactHandle::Temporary(7),
        ArtifactOrigin::Saved => ArtifactHandle::Saved(name.to_string()),
        ArtifactOrigin::Memory => ArtifactHandle::Memory(name.to_string()),
        ArtifactOrigin::Vault => ArtifactHandle::Vault(name.to_string()),
    };
    ArtifactEntry { handle, name: name.to_string(), kind: ArtifactKind::Markdown, origin, content: None, path: None }
}

#[test]
fn empty_flat_sections_use_one_row_and_vault_gets_remaining_space() {
    let state = ArtifactSidebarState::new();
    let areas = sidebar_layout(Rect { x: 0, y: 0, width: 40, height: 30 }, 0, 0, 0, &state);

    assert_eq!(areas.temp_body.expect("temp body").height, 1);
    assert_eq!(areas.saved_body.expect("saved body").height, 1);
    assert_eq!(areas.memory_body.expect("memory body").height, 1);
    assert!(areas.vault_body.expect("vault body").height > 1);
}

#[test]
fn flat_sections_grow_by_card_height_to_three_cards() {
    let state = ArtifactSidebarState::new();
    let areas = sidebar_layout(Rect { x: 0, y: 0, width: 40, height: 40 }, 2, 4, 1, &state);

    assert_eq!(areas.temp_body.expect("temp body").height, 6);
    assert_eq!(areas.saved_body.expect("saved body").height, 9);
    assert_eq!(areas.memory_body.expect("memory body").height, 3);
    assert!(areas.vault_body.expect("vault body").height > 1);
}

#[test]
fn headers_stack_above_their_bodies_and_folded_sections_lose_theirs() {
    let mut state = ArtifactSidebarState::new();
    state.saved_collapsed = true;
    state.vault_collapsed = true;
    let areas = sidebar_layout(Rect { x: 2, y: 1, width: 30, height: 20 }, 1, 3, 0, &state);

    assert_eq!(areas.temp_header, Rect { x: 2, y: 1, width: 30, height: 1 });
    assert_eq!(areas.temp_body, Some(Rect { x: 2, y: 2, width: 30, height: 3 }));
    assert_eq!(areas.saved_header.y, 5);
    assert_eq!(areas.saved_body, None);
    assert_eq!(areas.memory_header.y, 6);
    assert_eq!(areas.memory_body.map(|r| r.height), Some(1));
    assert_eq!(areas.vault_body, None);
}

#[test]
fn header_click_returns_toggle_action() {
    let mut state = ArtifactSidebarState::default();
    let temporary = vec![entry("temp.md", ArtifactOrigin::Temporary)];
    state.lay_out(Rect { x: 0, y: 0, width: 32, height: 20 }, &temporary, &vec![], &vec![], &vec![], false);

    let action = state.action_at(Position { x: 1, y: 0 });
    assert!(matches!(action, Some(ArtifactSidebarAction::ToggleSection(ArtifactSection::Temporary))));
}

#[test]
fn laying_out_keeps_cards_and_vault_rows_for_clicks() {
    let mut state = ArtifactSidebarState::default();
    let saved = vec![entry("a.md", ArtifactOrigin::Saved), entry("b.md", ArtifactOrigin::Saved)];
    let vault = vec![entry("notes/x.md", ArtifactOrigin::Vault), entry("notes/y.md", ArtifactOrigin::Vault)];
    state.lay_out(Rect { x: 0, y: 0, width: 32, height: 30 }, &vec![], &saved, &vec![], &vault, true);
    assert!(state.temp_rows.is_empty());
    assert_eq!(state.saved_rows.len(), 2);
    assert_eq!(state.vault_nodes.len(), 3);
    let body = state.vault_body.unwrap();
    assert_eq!(state.vault_nodes[0].area, Rect { x: body.x, y: body.y, width: body.width, height: 1 });
    let first = state.vault_nodes[0].area;
    match state.action_at(Position { x: first.x, y: first.y }) {
        Some(ArtifactSidebarAction::ToggleVaultDir(path)) => assert_eq!(path, "notes"),
        _ => panic!("expected the notes directory row"),
    }
}

#[test]
fn laying_out_a_folded_vault_keeps_no_rows_and_the_offset() {
    let mut state = ArtifactSidebarState::default();
    state.vault_collapsed = true;
    state.vault_scroll = 4;
    let vault = vec![entry("notes/x.md", ArtifactOrigin::Vault)];
    state.lay_out(Rect { x: 0, y: 0, width: 32, height: 30 }, &vec![], &vec![], &vec![], &vault, true);
    assert!(state.vault_nodes.is_empty());
    assert_eq!(state.vault_scroll, 4);
    assert_eq!(state.vault_body, None);
}

#[test]
fn sidebar_areas_from_given_rows_drop_folded_bodies() {
    let mut state = ArtifactSidebarState::default();
    state.saved_collapsed = true;
    let parts: Vec<Rect> = (0..8u16).map(|i| Rect { x: 0, y: i * 2, width: 30, height: 2 }).collect();
    let areas = tcui::sidebar_layout::sidebar_areas(&parts, &state);
    assert_eq!(areas.temp_header, parts[0]);
    assert_eq!(areas.temp_body, Some(parts[1]));
    assert_eq!(areas.saved_body, None);
    assert_eq!(areas.vault_body, Some(parts[7]));
}
