use tcui::artifacts::{
    ArtifactEntry, ArtifactHandle, ArtifactKind, ArtifactOrigin, ArtifactSidebarAction, VaultNode, VaultNodeKind,
};
use tcui::geometry::Rect;
use tcui::sidebar_cards::{card_hit_areas, display_name, flat_section_cards, infer_kind, vault_section_rows};

fn entry(name: &str, origin: ArtifactOrigin, kind: ArtifactKind) -> ArtifactEntry {
    let handle = match origin {
        ArtifactOrigin::Temporary => ArtifactHandle::Temporary(7),
        ArtifactOrigin::Saved => ArtifactHandle::Saved(name.to_string()),
        ArtifactOrigin::Memory => ArtifactHandle::Memory(name.to_string()),
        ArtifactOrigin::Vault => ArtifactHandle::Vault(name.to_string()),
    };
    ArtifactEntry { handle, name: name.to_string(), kind, origin, content: None, path: None }
}

fn rect(x: u16, y: u16, width: u16, height: u16) -> Rect {
    Rect { x, y, width, height }
}

#[test]
fn saved_card_has_view_edit_export_and_delete_buttons() {
    let card = card_hit_areas(rect(2, 10, 30, 3), &entry("a.md", ArtifactOrigin::Saved, ArtifactKind::Markdown), false);

    assert_eq!(card.open, rect(2, 12, 6, 1));
    assert_eq!(card.edit, Some(rect(9, 12, 6, 1)));
    assert_eq!(card.save, Some(rect(16, 12, 8, 1)));
    assert_eq!(card.delete, Some(rect(25, 12, 5, 1)));
    assert_eq!(card.handle, ArtifactHandle::Saved("a.md".to_string()));
}

#[test]
fn temporary_markdown_card_goes_to_the_vault_when_there_is_one() {
    let e = entry("t.md", ArtifactOrigin::Temporary, ArtifactKind::Markdown);
    let with_vault = card_hit_areas(rect(0, 0, 30, 3), &e, true);
    assert_eq!(with_vault.edit, None);
    assert_eq!(with_vault.save, Some(rect(7, 2, 7, 1)));
    assert_eq!(with_vault.delete, Some(rect(15, 2, 5, 1)));
    let without = card_hit_areas(rect(0, 0, 30, 3), &e, false);
    assert_eq!(without.save, Some(rect(7, 2, 6, 1)));
}

#[test]
fn flat_section_scrolls_and_lays_out_cards_three_rows_each() {
    let entries: Vec<ArtifactEntry> =
        (0..5).map(|i| entry(&format!("m{i}.md"), ArtifactOrigin::Memory, ArtifactKind::Markdown)).collect();
    let body = rect(0, 4, 20, 9);
    let (scroll, rows) = flat_section_cards(body, &entries, 9, 3, false, false).expect("section shown");

    assert_eq!(scroll, 2);
    assert_eq!(rows.len(), 3);
    assert_eq!(rows[0].handle, ArtifactHandle::Memory("m2.md".to_string()));
    assert_eq!(rows[1].open, rect(0, 9, 6, 1));
    assert_eq!(rows[2].delete.unwrap().y, 12);
}

#[test]
fn folded_or_empty_sections_have_no_cards() {
    let entries = vec![entry("a", ArtifactOrigin::Saved, ArtifactKind::Text)];
    assert!(flat_section_cards(rect(0, 0, 20, 6), &entries, 0, 3, true, false).is_none());
    assert!(flat_section_cards(rect(0, 0, 20, 0), &entries, 0, 3, false, false).is_none());
    let (_, none) = flat_section_cards(rect(0, 0, 20, 6), &vec![], 0, 3, false, false).expect("shown");
    assert!(none.is_empty());
    let (_, narrow) = flat_section_cards(rect(0, 0, 0, 6), &entries, 0, 3, false, false).expect("shown");
    assert!(narrow.is_empty());
    let (_, short) = flat_section_cards(rect(0, 0, 20, 1), &entries, 0, 3, false, false).expect("shown");
    assert_eq!(short.len(), 1);
}

#[test]
fn vault_rows_toggle_directories_and_open_files() {
    let nodes = vec![
        VaultNode { path: "notes".to_string(), depth: 0, kind: VaultNodeKind::Directory, label: "notes".to_string(), expanded: true },
        VaultNode { path: "notes/a.md".to_string(), depth: 1, kind: VaultNodeKind::File, label: "a.md".to_string(), expanded: false },
        VaultNode { path: "top.md".to_string(), depth: 0, kind: VaultNodeKind::File, label: "top.md".to_string(), expanded: false },
    ];
    let (scroll, rows) = vault_section_rows(rect(1, 5, 20, 2), &nodes, 0, false).expect("shown");

    assert_eq!(scroll, 0);
    assert_eq!(rows.len(), 2);
    assert_eq!(rows[0].action, ArtifactSidebarAction::ToggleVaultDir("notes".to_string()));
    assert_eq!(rows[1].action, ArtifactSidebarAction::Open(ArtifactHandle::Vault("notes/a.md".to_string())));
    assert_eq!(rows[1].area, rect(1, 6, 20, 1));

    let (scroll, rows) = vault_section_rows(rect(1, 5, 20, 2), &nodes, 5, false).expect("shown");
    assert_eq!(scroll, 1);
    assert_eq!(rows[1].action, ArtifactSidebarAction::Open(ArtifactHandle::Vault("top.md".to_string())));
    assert!(vault_section_rows(rect(1, 5, 20, 2), &nodes, 0, true).is_none());
}

#[test]
fn kind_follows_the_extension_in_any_case() {
    assert_eq!(infer_kind("notes/Plan.MD", None), ArtifactKind::Markdown);
    assert_eq!(infer_kind("logs/run.log", None), ArtifactKind::Text);
    assert_eq!(infer_kind("pics/a.JPeG", None), ArtifactKind::Image);
    assert_eq!(infer_kind("clip.webm", None), ArtifactKind::Video);
    assert_eq!(infer_kind("song.flac", None), ArtifactKind::Audio);
    assert_eq!(infer_kind("archive.tar.gz", None), ArtifactKind::Binary);
    assert_eq!(infer_kind("archive.tar.gz", Some("x")), ArtifactKind::Text);
    assert_eq!(infer_kind(".bashrc", None), ArtifactKind::Binary);
    assert_eq!(infer_kind("dir/.md", Some("")), ArtifactKind::Text);
    assert_eq!(infer_kind("a.md/.", None), ArtifactKind::Markdown);
    assert_eq!(infer_kind("..", None), ArtifactKind::Binary);
}

#[test]
fn saved_entries_are_listed_by_file_name() {
    assert_eq!(display_name("/home/u/notes/plan.md"), "plan.md");
    assert_eq!(display_name("notes/"), "notes");
    assert_eq!(display_name("/"), "/");
    let md = ArtifactEntry::saved_markdown("docs/a.md".to_string(), "# A".to_string());
    assert_eq!(md.name, "a.md");
    assert_eq!(md.kind, ArtifactKind::Markdown);
    assert_eq!(md.content.as_deref(), Some("# A"));
    let file = ArtifactEntry::saved_file("docs/pic.PNG".to_string());
    assert_eq!(file.kind, ArtifactKind::Image);
    assert_eq!(file.handle, ArtifactHandle::Saved("docs/pic.PNG".to_string()));
    assert_eq!(file.origin, ArtifactOrigin::Saved);
}
